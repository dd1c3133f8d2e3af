//! The expressions of the calculator's grammar and their written form.
use vstd::prelude::*;

use crate::numtext::{digits_of, push_digits, push_padded_decimal, zero_padded};

verus! {

/// The ASCII code of `+`.
pub const PLUS: u8 = 43;
/// The ASCII code of `-`.
pub const MINUS: u8 = 45;
/// The ASCII code of `*`.
pub const STAR: u8 = 42;
/// The ASCII code of `/`.
pub const SLASH: u8 = 47;
/// The ASCII code of `%`.
pub const PERCENT: u8 = 37;
/// The ASCII code of `|`.
pub const BAR: u8 = 124;
/// The ASCII code of `^`.
pub const CARET: u8 = 94;
/// The ASCII code of `&`.
pub const AMPERSAND: u8 = 38;
/// The ASCII code of `<`.
pub const LESS: u8 = 60;
/// The ASCII code of `>`.
pub const GREATER: u8 = 62;
/// The ASCII code of `.`.
pub const POINT: u8 = 46;
/// The ASCII code of `(`.
pub const OPEN_PAREN: u8 = 40;
/// The ASCII code of `)`.
pub const CLOSE_PAREN: u8 = 41;
/// The ASCII code of `0`.
pub const ZERO: u8 = 48;
/// The ASCII code of `x`.
pub const LOWER_X: u8 = 120;
/// The ASCII code of `X`.
pub const UPPER_X: u8 = 88;
/// The ASCII code of `b`.
pub const LOWER_B: u8 = 98;
/// The ASCII code of `B`.
pub const UPPER_B: u8 = 66;

/// A binary operator of the calculator.
#[derive(Clone, Copy, Debug, PartialEq, Eq, Structural)]
pub enum Op {
    Add,
    Sub,
    Mul,
    Div,
    Mod,
    Power,
    BitOr,
    BitXor,
    BitAnd,
    Shl,
    Shr,
}

/// Every operator, in the order in which a random index selects it.
pub const ALL_OPS: [Op; 11] = [
    Op::Add,
    Op::Sub,
    Op::Mul,
    Op::Div,
    Op::Mod,
    Op::Power,
    Op::BitOr,
    Op::BitXor,
    Op::BitAnd,
    Op::Shl,
    Op::Shr,
];

/// A decimal literal, held as the digits it is written with: an optional
/// minus sign, the integral digits, and, when `frac_digits` is not zero, a
/// point followed by `frac` padded on the left with zeros to `frac_digits`
/// digits.
#[derive(Clone, Copy, Debug, PartialEq, Eq, Structural)]
pub struct Decimal {
    pub negative: bool,
    pub whole: u128,
    pub frac: u64,
    pub frac_digits: u32,
}

/// A numeric literal of the calculator.
#[derive(Clone, Copy, Debug, PartialEq, Eq, Structural)]
pub enum NumLit {
    Decimal(Decimal),
    Hex(i64),
    HexUpper(i64),
    Binary(i64),
    BinaryUpper(i64),
    LeadingDot(u32),
    BareZero,
}

/// An expression of the calculator.
#[derive(Debug, PartialEq, Eq)]
pub enum Expr {
    Num(NumLit),
    UnaryNeg(Box<Expr>),
    BinOp { left: Box<Expr>, op: Op, right: Box<Expr> },
    Paren(Box<Expr>),
}

/// The written form of an operator.
pub open spec fn op_text(op: Op) -> Seq<u8> {
    match op {
        Op::Add => seq![PLUS],
        Op::Sub => seq![MINUS],
        Op::Mul => seq![STAR],
        Op::Div => seq![SLASH],
        Op::Mod => seq![PERCENT],
        Op::Power => seq![STAR, STAR],
        Op::BitOr => seq![BAR],
        Op::BitXor => seq![CARET],
        Op::BitAnd => seq![AMPERSAND],
        Op::Shl => seq![LESS, LESS],
        Op::Shr => seq![GREATER, GREATER],
    }
}

/// The magnitude of a signed value.
pub open spec fn magnitude(v: i64) -> nat {
    if v < 0 {
        (-v) as nat
    } else {
        v as nat
    }
}

/// The written form of a decimal literal.
pub open spec fn decimal_text(d: Decimal) -> Seq<u8> {
    (if d.negative {
        seq![MINUS]
    } else {
        seq![]
    }) + digits_of(d.whole as nat, 10) + (if d.frac_digits == 0 {
        seq![]
    } else {
        seq![POINT] + zero_padded(digits_of(d.frac as nat, 10), d.frac_digits as nat)
    })
}

/// The written form of a numeric literal: hexadecimal and binary literals
/// write the magnitude of their value after their prefix.
pub open spec fn numlit_text(n: NumLit) -> Seq<u8> {
    match n {
        NumLit::Decimal(d) => decimal_text(d),
        NumLit::Hex(v) => seq![ZERO, LOWER_X] + digits_of(magnitude(v), 16),
        NumLit::HexUpper(v) => seq![ZERO, UPPER_X] + digits_of(magnitude(v), 16),
        NumLit::Binary(v) => seq![ZERO, LOWER_B] + digits_of(magnitude(v), 2),
        NumLit::BinaryUpper(v) => seq![ZERO, UPPER_B] + digits_of(magnitude(v), 2),
        NumLit::LeadingDot(f) => seq![POINT] + digits_of(f as nat, 10),
        NumLit::BareZero => seq![ZERO],
    }
}

/// The written form of an expression, the input the calculator reads.
pub open spec fn expr_text(e: Expr) -> Seq<u8>
    decreases e,
{
    match e {
        Expr::Num(n) => numlit_text(n),
        Expr::UnaryNeg(x) => seq![MINUS] + expr_text(*x),
        Expr::BinOp { left, op, right } => expr_text(*left) + op_text(op) + expr_text(*right),
        Expr::Paren(x) => seq![OPEN_PAREN] + expr_text(*x) + seq![CLOSE_PAREN],
    }
}

/// The height of an expression tree: a literal has height 0.
pub open spec fn height(e: Expr) -> nat
    decreases e,
{
    match e {
        Expr::Num(_) => 0,
        Expr::UnaryNeg(x) => 1 + height(*x),
        Expr::BinOp { left, op, right } => 1 + if height(*left) >= height(*right) {
            height(*left)
        } else {
            height(*right)
        },
        Expr::Paren(x) => 1 + height(*x),
    }
}

impl Op {
    /// Appends the written form of the operator to `out`.
    pub fn write_to(&self, out: &mut Vec<u8>)
        ensures
            final(out)@ == old(out)@ + op_text(*self),
    {
        match self {
            Op::Add => out.push(PLUS),
            Op::Sub => out.push(MINUS),
            Op::Mul => out.push(STAR),
            Op::Div => out.push(SLASH),
            Op::Mod => out.push(PERCENT),
            Op::Power => {
                out.push(STAR);
                out.push(STAR);
            },
            Op::BitOr => out.push(BAR),
            Op::BitXor => out.push(CARET),
            Op::BitAnd => out.push(AMPERSAND),
            Op::Shl => {
                out.push(LESS);
                out.push(LESS);
            },
            Op::Shr => {
                out.push(GREATER);
                out.push(GREATER);
            },
        }
        assert(out@ =~= old(out)@ + op_text(*self));
    }

    /// The written form of the operator.
    pub fn render(&self) -> (r: Vec<u8>)
        ensures
            r@ == op_text(*self),
    {
        let mut out: Vec<u8> = Vec::new();
        self.write_to(&mut out);
        assert(out@ =~= op_text(*self));
        out
    }
}

/// The magnitude of a signed value, as an unsigned one.
pub fn unsigned_abs(v: i64) -> (r: u64)
    ensures
        r as nat == magnitude(v),
{
    if v < 0 {
        let m: i64 = -(v + 1);
        (m as u64) + 1
    } else {
        v as u64
    }
}

impl Decimal {
    /// Appends the written form of the literal to `out`.
    pub fn write_to(&self, out: &mut Vec<u8>)
        ensures
            final(out)@ == old(out)@ + decimal_text(*self),
    {
        let ghost start = out@;
        if self.negative {
            out.push(MINUS);
        }
        push_digits(self.whole, 10, out);
        if self.frac_digits != 0 {
            out.push(POINT);
            push_padded_decimal(self.frac, self.frac_digits, out);
        }
        assert(out@ =~= start + decimal_text(*self));
    }
}

impl NumLit {
    /// Appends the written form of the literal to `out`.
    pub fn write_to(&self, out: &mut Vec<u8>)
        ensures
            final(out)@ == old(out)@ + numlit_text(*self),
    {
        let ghost start = out@;
        match self {
            NumLit::Decimal(d) => d.write_to(out),
            NumLit::Hex(v) => {
                out.push(ZERO);
                out.push(LOWER_X);
                push_digits(unsigned_abs(*v) as u128, 16, out);
            },
            NumLit::HexUpper(v) => {
                out.push(ZERO);
                out.push(UPPER_X);
                push_digits(unsigned_abs(*v) as u128, 16, out);
            },
            NumLit::Binary(v) => {
                out.push(ZERO);
                out.push(LOWER_B);
                push_digits(unsigned_abs(*v) as u128, 2, out);
            },
            NumLit::BinaryUpper(v) => {
                out.push(ZERO);
                out.push(UPPER_B);
                push_digits(unsigned_abs(*v) as u128, 2, out);
            },
            NumLit::LeadingDot(f) => {
                out.push(POINT);
                push_digits(*f as u128, 10, out);
            },
            NumLit::BareZero => out.push(ZERO),
        }
        assert(out@ =~= start + numlit_text(*self));
    }

    /// The written form of the literal.
    pub fn render(&self) -> (r: Vec<u8>)
        ensures
            r@ == numlit_text(*self),
    {
        let mut out: Vec<u8> = Vec::new();
        self.write_to(&mut out);
        assert(out@ =~= numlit_text(*self));
        out
    }
}

impl Clone for Expr {
    /// A copy of the whole tree.
    fn clone(&self) -> (r: Self)
        ensures
            r == *self,
        decreases self,
    {
        match self {
            Expr::Num(n) => Expr::Num(*n),
            Expr::UnaryNeg(x) => Expr::UnaryNeg(Box::new((**x).clone())),
            Expr::BinOp { left, op, right } => Expr::BinOp {
                left: Box::new((**left).clone()),
                op: *op,
                right: Box::new((**right).clone()),
            },
            Expr::Paren(x) => Expr::Paren(Box::new((**x).clone())),
        }
    }
}

impl Expr {
    /// Appends the written form of the expression to `out`.
    pub fn write_to(&self, out: &mut Vec<u8>)
        ensures
            final(out)@ == old(out)@ + expr_text(*self),
        decreases self,
    {
        let ghost start = out@;
        match self {
            Expr::Num(n) => n.write_to(out),
            Expr::UnaryNeg(x) => {
                out.push(MINUS);
                x.write_to(out);
            },
            Expr::BinOp { left, op, right } => {
                left.write_to(out);
                op.write_to(out);
                right.write_to(out);
            },
            Expr::Paren(x) => {
                out.push(OPEN_PAREN);
                x.write_to(out);
                out.push(CLOSE_PAREN);
            },
        }
        assert(out@ =~= start + expr_text(*self));
    }

    /// The written form of the expression: the bytes the calculator is fed.
    pub fn render(&self) -> (r: Vec<u8>)
        ensures
            r@ == expr_text(*self),
    {
        let mut out: Vec<u8> = Vec::new();
        self.write_to(&mut out);
        assert(out@ =~= expr_text(*self));
        out
    }
}

} // verus!
