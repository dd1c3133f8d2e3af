//! Random expressions of the calculator's grammar.
use vstd::prelude::*;

use libafl_bolts::rands::StdRand;

use crate::ast::{expr_text, Decimal, Expr, NumLit, Op, ALL_OPS};
use crate::rng::rand_below;

verus! {

/// A decimal literal without sign or point.
pub open spec fn whole_decimal(negative: bool, whole: u128) -> Decimal {
    Decimal { negative, whole, frac: 0, frac_digits: 0 }
}

/// The sixteen fractional digits written for `a + b / 100` where the sum
/// computed in binary64 is not the binary64 value nearest to the two-place
/// decimal `a.bb`, so that the shortest form that reads back as the sum
/// needs more places (`1.14` is written `1.1400000000000001`); `None` for
/// every other pair.
pub open spec fn cents_correction(a: nat, b: nat) -> Option<u64> {
    if a == 1 && b == 14 {
        Some(1400000000000001u64)
    } else
    if a == 1 && b == 36 {
        Some(3599999999999999u64)
    } else
    if a == 1 && b == 39 {
        Some(3900000000000001u64)
    } else
    if a == 1 && b == 57 {
        Some(5699999999999998u64)
    } else
    if a == 1 && b == 59 {
        Some(5899999999999999u64)
    } else
    if a == 1 && b == 61 {
        Some(6099999999999999u64)
    } else
    if a == 1 && b == 64 {
        Some(6400000000000001u64)
    } else
    if a == 1 && b == 66 {
        Some(6600000000000001u64)
    } else
    if a == 1 && b == 68 {
        Some(6800000000000002u64)
    } else
    if a == 1 && b == 82 {
        Some(8199999999999998u64)
    } else
    if a == 1 && b == 84 {
        Some(8399999999999999u64)
    } else
    if a == 1 && b == 86 {
        Some(8599999999999999u64)
    } else
    if a == 1 && b == 89 {
        Some(8900000000000001u64)
    } else
    if a == 1 && b == 91 {
        Some(9100000000000001u64)
    } else
    if a == 1 && b == 93 {
        Some(9300000000000002u64)
    } else
    if a == 2 && b == 28 {
        Some(2800000000000002u64)
    } else
    if a == 2 && b == 47 {
        Some(4699999999999998u64)
    } else
    if a == 2 && b == 53 {
        Some(5300000000000002u64)
    } else
    if a == 2 && b == 72 {
        Some(7199999999999998u64)
    } else
    if a == 2 && b == 78 {
        Some(7800000000000002u64)
    } else
    if a == 2 && b == 97 {
        Some(9699999999999998u64)
    } else
    if a == 3 && b == 28 {
        Some(2800000000000002u64)
    } else
    if a == 3 && b == 47 {
        Some(4699999999999998u64)
    } else
    if a == 3 && b == 53 {
        Some(5300000000000002u64)
    } else
    if a == 3 && b == 72 {
        Some(7199999999999998u64)
    } else
    if a == 3 && b == 78 {
        Some(7800000000000002u64)
    } else
    if a == 3 && b == 97 {
        Some(9699999999999998u64)
    } else
    if a == 4 && b == 56 {
        Some(5600000000000005u64)
    } else
    if a == 4 && b == 69 {
        Some(6899999999999995u64)
    } else
    if a == 4 && b == 81 {
        Some(8100000000000005u64)
    } else
    if a == 4 && b == 94 {
        Some(9399999999999995u64)
    } else
    if a == 5 && b == 56 {
        Some(5600000000000005u64)
    } else
    if a == 5 && b == 69 {
        Some(6899999999999995u64)
    } else
    if a == 5 && b == 81 {
        Some(8100000000000005u64)
    } else
    if a == 5 && b == 94 {
        Some(9399999999999995u64)
    } else
    if a == 6 && b == 56 {
        Some(5600000000000005u64)
    } else
    if a == 6 && b == 69 {
        Some(6899999999999995u64)
    } else
    if a == 6 && b == 81 {
        Some(8100000000000005u64)
    } else
    if a == 6 && b == 94 {
        Some(9399999999999995u64)
    } else
    if a == 7 && b == 56 {
        Some(5600000000000005u64)
    } else
    if a == 7 && b == 69 {
        Some(6899999999999995u64)
    } else
    if a == 7 && b == 81 {
        Some(8100000000000005u64)
    } else
    if a == 7 && b == 94 {
        Some(9399999999999995u64)
    } else {
        None
    }
}

/// The literal written for `a + b / 100` (`a`, `b` below 100) evaluated in
/// binary64: `a` alone when `b` is 0, else the shortest decimal that reads
/// back as the sum, which is `a.bb` without trailing zero except for the
/// pairs of [`cents_correction`].
pub open spec fn cents_decimal_spec(a: nat, b: nat) -> Decimal {
    if b == 0 {
        whole_decimal(false, a as u128)
    } else {
        match cents_correction(a, b) {
            Some(f) => Decimal { negative: false, whole: a as u128, frac: f, frac_digits: 16 },
            None => if b % 10 == 0 {
                Decimal { negative: false, whole: a as u128, frac: (b / 10) as u64, frac_digits: 1 }
            } else {
                Decimal { negative: false, whole: a as u128, frac: b as u64, frac_digits: 2 }
            },
        }
    }
}

/// The boundary values of the generator, in the order of the roll that picks
/// them, each as the literal it is written with: the 32- and 64-bit integer
/// limits and their neighbours, shift widths, powers of ten, one tenth and
/// the binary64 machine epsilon. The value 2^63 (`i64::MAX` converted to
/// binary64) is written through the saturating conversion back to `i64`, as
/// `9223372036854775807`. Rolls from 17 on give the epsilon.
pub open spec fn edge_case_spec(k: nat) -> Decimal {
    if k == 0 {
        whole_decimal(false, 0)
    } else if k == 1 {
        whole_decimal(false, 2147483647)
    } else if k == 2 {
        whole_decimal(true, 2147483648)
    } else if k == 3 {
        whole_decimal(false, 2147483648)
    } else if k == 4 {
        whole_decimal(true, 2147483649)
    } else if k == 5 {
        whole_decimal(false, 9223372036854775807)
    } else if k == 6 {
        whole_decimal(true, 9223372036854775808)
    } else if k == 7 {
        whole_decimal(false, 64)
    } else if k == 8 {
        whole_decimal(false, 65)
    } else if k == 9 {
        whole_decimal(false, 63)
    } else if k == 10 {
        whole_decimal(false, 128)
    } else if k == 11 {
        whole_decimal(false, 1)
    } else if k == 12 {
        whole_decimal(false, 2)
    } else if k == 13 {
        whole_decimal(false, 1000000000000000000)
    } else if k == 14 {
        whole_decimal(false, 10000000000000000000)
    } else if k == 15 {
        whole_decimal(false, 100000000000000000000)
    } else if k == 16 {
        Decimal { negative: false, whole: 0, frac: 1, frac_digits: 1 }
    } else {
        Decimal { negative: false, whole: 0, frac: 2220446049250313, frac_digits: 31 }
    }
}

/// The families of numeric literals the generator draws from.
#[derive(Clone, Copy, Debug, PartialEq, Eq, Structural)]
pub enum LitKind {
    WholeDecimal,
    CentsDecimal,
    Hex,
    HexUpper,
    Binary,
    BinaryUpper,
    LeadingDot,
    BareZero,
    EdgeCase,
}

/// The family that a roll in `0..100` selects.
pub open spec fn lit_kind_spec(roll: nat) -> LitKind {
    if roll < 20 {
        LitKind::WholeDecimal
    } else if roll < 30 {
        LitKind::CentsDecimal
    } else if roll < 40 {
        LitKind::Hex
    } else if roll < 50 {
        LitKind::HexUpper
    } else if roll < 60 {
        LitKind::Binary
    } else if roll < 70 {
        LitKind::BinaryUpper
    } else if roll < 80 {
        LitKind::LeadingDot
    } else if roll < 90 {
        LitKind::BareZero
    } else {
        LitKind::EdgeCase
    }
}

/// The number of values the first draw of a family ranges over: whole
/// numbers below 1000, the integral part of `a + b / 100` below 100,
/// hexadecimal values below 0xFFFF, binary values below 256, fractions `.f`
/// with `f` below 1000, and the 18 boundary values; the bare zero draws
/// nothing (its only draw value is 0).
pub open spec fn lit_draw_bound(kind: LitKind) -> nat {
    match kind {
        LitKind::WholeDecimal => 1000,
        LitKind::CentsDecimal => 100,
        LitKind::Hex => 0xFFFF,
        LitKind::HexUpper => 0xFFFF,
        LitKind::Binary => 256,
        LitKind::BinaryUpper => 256,
        LitKind::LeadingDot => 1000,
        LitKind::BareZero => 1,
        LitKind::EdgeCase => 18,
    }
}

/// The draws of a family are in range: the first below
/// [`lit_draw_bound`], the second (the hundredths of `a + b / 100`, the only
/// family that draws twice) below 100, else 0.
pub open spec fn lit_draws_ok(kind: LitKind, first: nat, second: nat) -> bool {
    &&& first < lit_draw_bound(kind)
    &&& if kind == LitKind::CentsDecimal {
        second < 100
    } else {
        second == 0
    }
}

/// The literal that a family builds from its draws: the drawn value itself
/// for whole, hexadecimal, binary and fraction literals, `first + second /
/// 100` for the cents family, the bare zero, or the boundary value at index
/// `first`.
pub open spec fn lit_of_draws(kind: LitKind, first: nat, second: nat) -> NumLit {
    match kind {
        LitKind::WholeDecimal => NumLit::Decimal(whole_decimal(false, first as u128)),
        LitKind::CentsDecimal => NumLit::Decimal(cents_decimal_spec(first, second)),
        LitKind::Hex => NumLit::Hex(first as i64),
        LitKind::HexUpper => NumLit::HexUpper(first as i64),
        LitKind::Binary => NumLit::Binary(first as i64),
        LitKind::BinaryUpper => NumLit::BinaryUpper(first as i64),
        LitKind::LeadingDot => NumLit::LeadingDot(first as u32),
        LitKind::BareZero => NumLit::BareZero,
        LitKind::EdgeCase => NumLit::Decimal(edge_case_spec(first)),
    }
}

/// The literals of a family: those it builds from draws in range.
pub open spec fn lit_in_kind(kind: LitKind, n: NumLit) -> bool {
    exists|first: nat, second: nat|
        lit_draws_ok(kind, first, second) && n == #[trigger] lit_of_draws(kind, first, second)
}

/// A literal the generator can produce.
pub open spec fn lit_generable(n: NumLit) -> bool {
    exists|roll: nat| roll < 100 && lit_in_kind(#[trigger] lit_kind_spec(roll), n)
}

/// The shapes of expression the generator picks between.
#[derive(Clone, Copy, Debug, PartialEq, Eq, Structural)]
pub enum ExprKind {
    Literal,
    Binary,
    Parenthesized,
    Negated,
    Dangerous,
}

/// The shape that a roll in `0..100` selects.
pub open spec fn expr_kind_spec(roll: nat) -> ExprKind {
    if roll < 35 {
        ExprKind::Literal
    } else if roll < 70 {
        ExprKind::Binary
    } else if roll < 82 {
        ExprKind::Parenthesized
    } else if roll < 95 {
        ExprKind::Negated
    } else {
        ExprKind::Dangerous
    }
}

/// A generable literal standing alone.
pub open spec fn is_lit(e: Expr) -> bool {
    e matches Expr::Num(n) && lit_generable(n)
}

/// A generable literal with a minus sign before it.
pub open spec fn is_neg_lit(e: Expr) -> bool {
    e matches Expr::UnaryNeg(x) && is_lit(*x)
}

/// The decimal literal `d`.
pub open spec fn is_dec(e: Expr, d: Decimal) -> bool {
    e == Expr::Num(NumLit::Decimal(d))
}

/// `e` inside `k` pairs of parentheses.
pub open spec fn parens_around(e: Expr, k: nat) -> Expr
    decreases k,
{
    if k == 0 {
        e
    } else {
        Expr::Paren(Box::new(parens_around(e, (k - 1) as nat)))
    }
}

/// The deep nesting of boundary roll 15: `e` inside as many pairs of
/// parentheses as the depth draw plus 5.
pub open spec fn deep_parens_spec(depth_draw: nat, e: Expr) -> Expr {
    parens_around(e, depth_draw + 5)
}

/// The operand and operator layout of a binary boundary expression.
pub open spec fn dangerous_binary(choice: nat, l: Expr, op: Op, r: Expr) -> bool {
    let zero = whole_decimal(false, 0);
    let big = whole_decimal(false, 10000000000000000000);
    if choice == 0 {
        is_lit(l) && op == Op::Mod && is_dec(r, zero)
    } else if choice == 1 {
        is_lit(l) && op == Op::Div && is_dec(r, zero)
    } else if choice == 2 {
        is_lit(l) && op == Op::Shl && is_dec(r, whole_decimal(false, 64))
    } else if choice == 3 {
        is_lit(l) && op == Op::Shl && is_dec(r, whole_decimal(false, 128))
    } else if choice == 4 {
        is_lit(l) && op == Op::Shr && is_dec(r, whole_decimal(false, 64))
    } else if choice == 5 {
        is_neg_lit(l) && op == Op::Shl && is_lit(r)
    } else if choice == 6 {
        is_neg_lit(l) && op == Op::Shr && is_lit(r)
    } else if choice == 7 {
        is_dec(l, big) && op == Op::BitOr && is_lit(r)
    } else if choice == 8 {
        is_dec(l, big) && op == Op::BitAnd && is_lit(r)
    } else if choice == 9 {
        is_dec(l, big) && op == Op::BitXor && is_lit(r)
    } else if choice == 10 {
        is_dec(l, big) && op == Op::Shl && is_lit(r)
    } else if choice == 11 {
        is_neg_lit(l) && op == Op::BitAnd && is_neg_lit(r)
    } else if choice == 12 {
        is_neg_lit(l) && op == Op::BitOr && is_neg_lit(r)
    } else if choice == 13 {
        is_lit(l) && op == Op::Power && is_dec(r, whole_decimal(false, 64))
    } else if choice == 14 {
        is_neg_lit(l) && op == Op::Power && is_dec(r, whole_decimal(false, 2))
    } else if choice == 16 {
        (l matches Expr::BinOp { left, op: inner, right } && is_lit(*left) && inner == Op::Add
            && is_lit(*right)) && op == Op::Shl && is_lit(r)
    } else if choice == 17 {
        (l matches Expr::BinOp { left, op: inner, right } && is_lit(*left) && inner == Op::Mul
            && is_lit(*right)) && op == Op::Power && is_lit(r)
    } else if choice == 18 {
        is_dec(l, whole_decimal(false, 2147483648)) && op == Op::Mod && is_lit(r)
    } else if choice == 19 {
        is_dec(l, whole_decimal(false, 9223372036854775807)) && op == Op::Mod && is_lit(r)
    } else if choice == 20 {
        is_dec(l, zero) && op == Op::Power && is_dec(r, zero)
    } else if choice == 21 {
        is_lit(l) && op == Op::Power && is_neg_lit(r)
    } else if choice == 23 {
        is_neg_lit(l) && op == Op::Mod && is_neg_lit(r)
    } else if choice == 24 {
        is_neg_lit(l) && op == Op::BitXor && is_neg_lit(r)
    } else {
        l == Expr::Num(NumLit::BareZero) && op == Op::Add && is_lit(r)
    }
}

/// The expressions that boundary roll `choice` (in `0..26`) builds: a
/// literal inside as many pairs of parentheses as a
/// draw in `0..20` plus 5 for 15, a doubly negated literal
/// for 22, and for every other roll a binary expression laid out by
/// [`dangerous_binary`], whose operands mix fresh literals with division by
/// zero, oversized shifts, huge operands and negative powers.
pub open spec fn dangerous_shape(choice: nat, e: Expr) -> bool {
    if choice == 15 {
        exists|d: nat, l: Expr| d < 20 && is_lit(l) && e == #[trigger] deep_parens_spec(d, l)
    } else if choice == 22 {
        e matches Expr::UnaryNeg(x) && is_neg_lit(*x)
    } else {
        e matches Expr::BinOp { left, op, right } && dangerous_binary(choice, *left, op, *right)
    }
}

/// An expression the boundary roll can build.
pub open spec fn dangerous_generable(e: Expr) -> bool {
    exists|choice: nat| choice < 26 && #[trigger] dangerous_shape(choice, e)
}

/// The expressions that the generator with depth limit `max` can produce
/// from nesting level `depth`: at the limit only a literal; below it a
/// literal, a binary expression, a parenthesised or negated expression whose
/// parts come from the next level, or a boundary expression.
pub open spec fn expr_generable(max: nat, depth: nat, e: Expr) -> bool
    decreases max - depth,
{
    if depth >= max {
        is_lit(e)
    } else {
        ||| is_lit(e)
        ||| e matches Expr::BinOp { left, op, right } && expr_generable(max, depth + 1, *left)
            && expr_generable(max, depth + 1, *right)
        ||| e matches Expr::Paren(x) && expr_generable(max, depth + 1, *x)
        ||| e matches Expr::UnaryNeg(x) && expr_generable(max, depth + 1, *x)
        ||| dangerous_generable(e)
    }
}

/// The operator at index `i` of [`ALL_OPS`] (the last one from 10 on).
pub open spec fn op_at(i: nat) -> Op {
    if i == 0 {
        Op::Add
    } else if i == 1 {
        Op::Sub
    } else if i == 2 {
        Op::Mul
    } else if i == 3 {
        Op::Div
    } else if i == 4 {
        Op::Mod
    } else if i == 5 {
        Op::Power
    } else if i == 6 {
        Op::BitOr
    } else if i == 7 {
        Op::BitXor
    } else if i == 8 {
        Op::BitAnd
    } else if i == 9 {
        Op::Shl
    } else {
        Op::Shr
    }
}

/// The expressions that shape `kind` builds at nesting level `depth`
/// (below the depth limit `max`): a generable literal; a binary expression
/// whose operator is drawn from [`ALL_OPS`] and whose operands come from the
/// next level; a parenthesised or negated expression from the next level;
/// or a boundary expression.
pub open spec fn expr_of_kind(max: nat, depth: nat, kind: ExprKind, e: Expr) -> bool {
    match kind {
        ExprKind::Literal => is_lit(e),
        ExprKind::Binary => e matches Expr::BinOp { left, op, right } && (exists|i: nat|
            i < 11 && op == #[trigger] op_at(i)) && expr_generable(max, depth + 1, *left)
            && expr_generable(max, depth + 1, *right),
        ExprKind::Parenthesized => e matches Expr::Paren(x) && expr_generable(max, depth + 1, *x),
        ExprKind::Negated => e matches Expr::UnaryNeg(x) && expr_generable(max, depth + 1, *x),
        ExprKind::Dangerous => dangerous_generable(e),
    }
}

/// `bytes` are the written form of a fresh expression from a generator with
/// depth limit `limit`.
pub open spec fn regenerated(limit: nat, bytes: Seq<u8>) -> bool {
    exists|e: Expr| expr_generable(limit, 0, e) && bytes == #[trigger] expr_text(e)
}

/// The literal that family `kind` builds from its draws.
pub fn literal_of_draws(kind: LitKind, first: usize, second: usize) -> (n: NumLit)
    requires
        lit_draws_ok(kind, first as nat, second as nat),
    ensures
        n == lit_of_draws(kind, first as nat, second as nat),
{
    match kind {
        LitKind::WholeDecimal => NumLit::Decimal(
            Decimal { negative: false, whole: first as u128, frac: 0, frac_digits: 0 },
        ),
        LitKind::CentsDecimal => NumLit::Decimal(cents_decimal(first as u64, second as u64)),
        LitKind::Hex => NumLit::Hex(first as i64),
        LitKind::HexUpper => NumLit::HexUpper(first as i64),
        LitKind::Binary => NumLit::Binary(first as i64),
        LitKind::BinaryUpper => NumLit::BinaryUpper(first as i64),
        LitKind::LeadingDot => NumLit::LeadingDot(first as u32),
        LitKind::BareZero => NumLit::BareZero,
        LitKind::EdgeCase => NumLit::Decimal(edge_case_value(first)),
    }
}

/// The operator that a draw in `0..11` selects.
pub fn op_of_draw(i: usize) -> (op: Op)
    requires
        i < 11,
    ensures
        op == op_at(i as nat),
{
    ALL_OPS[i]
}

/// The family of literal that a roll selects.
pub fn lit_kind(roll: usize) -> (k: LitKind)
    ensures
        k == lit_kind_spec(roll as nat),
{
    if roll < 20 {
        LitKind::WholeDecimal
    } else if roll < 30 {
        LitKind::CentsDecimal
    } else if roll < 40 {
        LitKind::Hex
    } else if roll < 50 {
        LitKind::HexUpper
    } else if roll < 60 {
        LitKind::Binary
    } else if roll < 70 {
        LitKind::BinaryUpper
    } else if roll < 80 {
        LitKind::LeadingDot
    } else if roll < 90 {
        LitKind::BareZero
    } else {
        LitKind::EdgeCase
    }
}

/// The shape of expression that a roll selects.
pub fn expr_kind(roll: usize) -> (k: ExprKind)
    ensures
        k == expr_kind_spec(roll as nat),
{
    if roll < 35 {
        ExprKind::Literal
    } else if roll < 70 {
        ExprKind::Binary
    } else if roll < 82 {
        ExprKind::Parenthesized
    } else if roll < 95 {
        ExprKind::Negated
    } else {
        ExprKind::Dangerous
    }
}

/// The sixteen fractional digits of [`cents_correction`].
pub fn cents_correction_digits(a: u64, b: u64) -> (r: Option<u64>)
    ensures
        r == cents_correction(a as nat, b as nat),
{
    if a == 1 && b == 14 {
        Some(1400000000000001u64)
    } else
    if a == 1 && b == 36 {
        Some(3599999999999999u64)
    } else
    if a == 1 && b == 39 {
        Some(3900000000000001u64)
    } else
    if a == 1 && b == 57 {
        Some(5699999999999998u64)
    } else
    if a == 1 && b == 59 {
        Some(5899999999999999u64)
    } else
    if a == 1 && b == 61 {
        Some(6099999999999999u64)
    } else
    if a == 1 && b == 64 {
        Some(6400000000000001u64)
    } else
    if a == 1 && b == 66 {
        Some(6600000000000001u64)
    } else
    if a == 1 && b == 68 {
        Some(6800000000000002u64)
    } else
    if a == 1 && b == 82 {
        Some(8199999999999998u64)
    } else
    if a == 1 && b == 84 {
        Some(8399999999999999u64)
    } else
    if a == 1 && b == 86 {
        Some(8599999999999999u64)
    } else
    if a == 1 && b == 89 {
        Some(8900000000000001u64)
    } else
    if a == 1 && b == 91 {
        Some(9100000000000001u64)
    } else
    if a == 1 && b == 93 {
        Some(9300000000000002u64)
    } else
    if a == 2 && b == 28 {
        Some(2800000000000002u64)
    } else
    if a == 2 && b == 47 {
        Some(4699999999999998u64)
    } else
    if a == 2 && b == 53 {
        Some(5300000000000002u64)
    } else
    if a == 2 && b == 72 {
        Some(7199999999999998u64)
    } else
    if a == 2 && b == 78 {
        Some(7800000000000002u64)
    } else
    if a == 2 && b == 97 {
        Some(9699999999999998u64)
    } else
    if a == 3 && b == 28 {
        Some(2800000000000002u64)
    } else
    if a == 3 && b == 47 {
        Some(4699999999999998u64)
    } else
    if a == 3 && b == 53 {
        Some(5300000000000002u64)
    } else
    if a == 3 && b == 72 {
        Some(7199999999999998u64)
    } else
    if a == 3 && b == 78 {
        Some(7800000000000002u64)
    } else
    if a == 3 && b == 97 {
        Some(9699999999999998u64)
    } else
    if a == 4 && b == 56 {
        Some(5600000000000005u64)
    } else
    if a == 4 && b == 69 {
        Some(6899999999999995u64)
    } else
    if a == 4 && b == 81 {
        Some(8100000000000005u64)
    } else
    if a == 4 && b == 94 {
        Some(9399999999999995u64)
    } else
    if a == 5 && b == 56 {
        Some(5600000000000005u64)
    } else
    if a == 5 && b == 69 {
        Some(6899999999999995u64)
    } else
    if a == 5 && b == 81 {
        Some(8100000000000005u64)
    } else
    if a == 5 && b == 94 {
        Some(9399999999999995u64)
    } else
    if a == 6 && b == 56 {
        Some(5600000000000005u64)
    } else
    if a == 6 && b == 69 {
        Some(6899999999999995u64)
    } else
    if a == 6 && b == 81 {
        Some(8100000000000005u64)
    } else
    if a == 6 && b == 94 {
        Some(9399999999999995u64)
    } else
    if a == 7 && b == 56 {
        Some(5600000000000005u64)
    } else
    if a == 7 && b == 69 {
        Some(6899999999999995u64)
    } else
    if a == 7 && b == 81 {
        Some(8100000000000005u64)
    } else
    if a == 7 && b == 94 {
        Some(9399999999999995u64)
    } else {
        None
    }
}

/// The literal written for `a + b / 100` evaluated in binary64.
pub fn cents_decimal(a: u64, b: u64) -> (d: Decimal)
    requires
        a < 100,
        b < 100,
    ensures
        d == cents_decimal_spec(a as nat, b as nat),
{
    if b == 0 {
        Decimal { negative: false, whole: a as u128, frac: 0, frac_digits: 0 }
    } else {
        match cents_correction_digits(a, b) {
            Some(f) => Decimal { negative: false, whole: a as u128, frac: f, frac_digits: 16 },
            None => if b % 10 == 0 {
                Decimal { negative: false, whole: a as u128, frac: b / 10, frac_digits: 1 }
            } else {
                Decimal { negative: false, whole: a as u128, frac: b, frac_digits: 2 }
            },
        }
    }
}

/// The boundary value that roll `k` picks.
pub fn edge_case_value(k: usize) -> (d: Decimal)
    ensures
        d == edge_case_spec(k as nat),
{
    let (negative, whole): (bool, u128) = if k == 0 {
        (false, 0)
    } else if k == 1 {
        (false, 2147483647)
    } else if k == 2 {
        (true, 2147483648)
    } else if k == 3 {
        (false, 2147483648)
    } else if k == 4 {
        (true, 2147483649)
    } else if k == 5 {
        (false, 9223372036854775807)
    } else if k == 6 {
        (true, 9223372036854775808)
    } else if k == 7 {
        (false, 64)
    } else if k == 8 {
        (false, 65)
    } else if k == 9 {
        (false, 63)
    } else if k == 10 {
        (false, 128)
    } else if k == 11 {
        (false, 1)
    } else if k == 12 {
        (false, 2)
    } else if k == 13 {
        (false, 1000000000000000000)
    } else if k == 14 {
        (false, 10000000000000000000)
    } else if k == 15 {
        (false, 100000000000000000000)
    } else if k == 16 {
        return Decimal { negative: false, whole: 0, frac: 1, frac_digits: 1 };
    } else {
        return Decimal { negative: false, whole: 0, frac: 2220446049250313, frac_digits: 31 };
    };
    Decimal { negative, whole, frac: 0, frac_digits: 0 }
}

/// A decimal literal without sign or point, as an expression.
fn whole_lit(negative: bool, whole: u128) -> (e: Expr)
    ensures
        is_dec(e, whole_decimal(negative, whole)),
{
    Expr::Num(NumLit::Decimal(Decimal { negative, whole, frac: 0, frac_digits: 0 }))
}

/// `e` with a minus sign before it.
fn neg(e: Expr) -> (r: Expr)
    ensures
        r == Expr::UnaryNeg(Box::new(e)),
{
    Expr::UnaryNeg(Box::new(e))
}

/// The binary expression `left op right`.
fn bin(left: Expr, op: Op, right: Expr) -> (r: Expr)
    ensures
        r == (Expr::BinOp { left: Box::new(left), op, right: Box::new(right) }),
{
    Expr::BinOp { left: Box::new(left), op, right: Box::new(right) }
}

/// `e` inside as many pairs of parentheses as `depth_draw` plus 5.
pub fn deep_parens(depth_draw: usize, e: Expr) -> (r: Expr)
    requires
        depth_draw < 20,
    ensures
        r == deep_parens_spec(depth_draw as nat, e),
{
    let depth = depth_draw + 5;
    let mut expr = e;
    let mut i: usize = 0;
    while i < depth
        invariant
            i <= depth,
            depth == depth_draw + 5,
            expr == parens_around(e, i as nat),
        decreases depth - i,
    {
        expr = Expr::Paren(Box::new(expr));
        i = i + 1;
    }
    expr
}

/// A generator of random calculator expressions whose ordinary nesting stops
/// at a depth limit.
pub struct ExprGenerator {
    max_depth: usize,
}

impl ExprGenerator {
    /// The depth at which the generator only produces literals.
    pub closed spec fn depth_limit(&self) -> nat {
        self.max_depth as nat
    }

    /// A generator with depth limit `max_depth`.
    pub fn new(max_depth: usize) -> (g: Self)
        ensures
            g.depth_limit() == max_depth,
    {
        Self { max_depth }
    }

    /// The depth limit.
    pub fn max_depth(&self) -> (r: usize)
        ensures
            r == self.depth_limit(),
    {
        self.max_depth
    }

    /// A random expression for nesting level `depth`: a literal at or past
    /// the depth limit, else the shape that a roll in `0..100` picks by
    /// [`expr_kind_spec`]: a literal (35 rolls in 100), a binary expression
    /// (35), a parenthesised (12) or negated (13) sub-expression, or a
    /// boundary expression (5).
    pub fn random_expr(&self, rng: &mut StdRand, depth: usize) -> (e: Expr)
        ensures
            expr_generable(self.depth_limit(), depth as nat, e),
            depth >= self.depth_limit() ==> is_lit(e),
            depth < self.depth_limit() ==> exists|roll: nat|
                roll < 100 && expr_of_kind(
                    self.depth_limit(),
                    depth as nat,
                    #[trigger] expr_kind_spec(roll),
                    e,
                ),
        decreases self.depth_limit() - depth, 1nat,
    {
        if depth >= self.max_depth {
            return Expr::Num(self.random_numlit(rng));
        }
        let roll = rand_below(rng, 100);
        let e = self.random_expr_of(expr_kind(roll), rng, depth);
        proof {
            assert(expr_of_kind(self.depth_limit(), depth as nat, expr_kind_spec(roll as nat), e));
        }
        e
    }

    /// A random expression of shape `kind` at nesting level `depth`, below
    /// the depth limit; sub-expressions come from the next level, the left
    /// operand drawn before the operator and the operator before the right
    /// operand.
    pub fn random_expr_of(&self, kind: ExprKind, rng: &mut StdRand, depth: usize) -> (e: Expr)
        requires
            depth < self.depth_limit(),
        ensures
            expr_of_kind(self.depth_limit(), depth as nat, kind, e),
            expr_generable(self.depth_limit(), depth as nat, e),
        decreases self.depth_limit() - depth, 0nat,
    {
        match kind {
            ExprKind::Literal => Expr::Num(self.random_numlit(rng)),
            ExprKind::Binary => {
                let left = self.random_expr(rng, depth + 1);
                let i = rand_below(rng, 11);
                let op = op_of_draw(i);
                let right = self.random_expr(rng, depth + 1);
                let e = bin(left, op, right);
                proof {
                    assert(op == op_at(i as nat));
                }
                e
            },
            ExprKind::Parenthesized => Expr::Paren(Box::new(self.random_expr(rng, depth + 1))),
            ExprKind::Negated => neg(self.random_expr(rng, depth + 1)),
            ExprKind::Dangerous => self.dangerous_expr(rng),
        }
    }

    /// A random literal: a roll in `0..100` picks its family by
    /// [`lit_kind_spec`], then the family draws its value.
    pub fn random_numlit(&self, rng: &mut StdRand) -> (n: NumLit)
        ensures
            lit_generable(n),
    {
        let roll = rand_below(rng, 100);
        let n = self.random_numlit_of(lit_kind(roll), rng);
        proof {
            assert(lit_in_kind(lit_kind_spec(roll as nat), n));
        }
        n
    }

    /// A random literal of family `kind`: its draws, in order, then the
    /// literal [`literal_of_draws`] builds from them.
    pub fn random_numlit_of(&self, kind: LitKind, rng: &mut StdRand) -> (n: NumLit)
        ensures
            lit_in_kind(kind, n),
    {
        match kind {
            LitKind::WholeDecimal => {
                let w = rand_below(rng, 1000);
                let n = literal_of_draws(kind, w, 0);
                proof {
                    assert(n == lit_of_draws(kind, w as nat, 0));
                }
                n
            },
            LitKind::CentsDecimal => {
                let a = rand_below(rng, 100);
                let b = rand_below(rng, 100);
                let n = literal_of_draws(kind, a, b);
                proof {
                    assert(n == lit_of_draws(kind, a as nat, b as nat));
                }
                n
            },
            LitKind::Hex | LitKind::HexUpper => {
                let v = rand_below(rng, 0xFFFF);
                let n = literal_of_draws(kind, v, 0);
                proof {
                    assert(n == lit_of_draws(kind, v as nat, 0));
                }
                n
            },
            LitKind::Binary | LitKind::BinaryUpper => {
                let v = rand_below(rng, 256);
                let n = literal_of_draws(kind, v, 0);
                proof {
                    assert(n == lit_of_draws(kind, v as nat, 0));
                }
                n
            },
            LitKind::LeadingDot => {
                let f = rand_below(rng, 1000);
                let n = literal_of_draws(kind, f, 0);
                proof {
                    assert(n == lit_of_draws(kind, f as nat, 0));
                }
                n
            },
            LitKind::BareZero => {
                let n = literal_of_draws(kind, 0, 0);
                proof {
                    assert(n == lit_of_draws(kind, 0, 0));
                }
                n
            },
            LitKind::EdgeCase => self.edge_case_number(rng),
        }
    }

    /// A random boundary value: a draw in `0..18` picks it by
    /// [`edge_case_spec`].
    pub fn edge_case_number(&self, rng: &mut StdRand) -> (n: NumLit)
        ensures
            lit_in_kind(LitKind::EdgeCase, n),
            exists|k: nat| k < 18 && n == NumLit::Decimal(#[trigger] edge_case_spec(k)),
    {
        let k = rand_below(rng, 18);
        let n = literal_of_draws(LitKind::EdgeCase, k, 0);
        proof {
            assert(n == lit_of_draws(LitKind::EdgeCase, k as nat, 0));
        }
        n
    }

    /// A random generable literal, as an expression.
    fn lit(&self, rng: &mut StdRand) -> (e: Expr)
        ensures
            is_lit(e),
    {
        Expr::Num(self.random_numlit(rng))
    }

    /// A random boundary expression: a roll in `0..26` picks its shape.
    pub fn dangerous_expr(&self, rng: &mut StdRand) -> (e: Expr)
        ensures
            dangerous_generable(e),
    {
        let choice = rand_below(rng, 26);
        let e = self.dangerous_expr_of(choice, rng);
        proof {
            assert(dangerous_shape(choice as nat, e));
        }
        e
    }

    /// The boundary expression of shape `choice`, with fresh random literals
    /// drawn left to right.
    pub fn dangerous_expr_of(&self, choice: usize, rng: &mut StdRand) -> (e: Expr)
        requires
            choice < 26,
        ensures
            dangerous_shape(choice as nat, e),
    {
        if choice == 0 {
            bin(self.lit(rng), Op::Mod, whole_lit(false, 0))
        } else if choice == 1 {
            bin(self.lit(rng), Op::Div, whole_lit(false, 0))
        } else if choice == 2 {
            bin(self.lit(rng), Op::Shl, whole_lit(false, 64))
        } else if choice == 3 {
            bin(self.lit(rng), Op::Shl, whole_lit(false, 128))
        } else if choice == 4 {
            bin(self.lit(rng), Op::Shr, whole_lit(false, 64))
        } else if choice == 5 {
            let l = neg(self.lit(rng));
            bin(l, Op::Shl, self.lit(rng))
        } else if choice == 6 {
            let l = neg(self.lit(rng));
            bin(l, Op::Shr, self.lit(rng))
        } else if choice == 7 {
            bin(whole_lit(false, 10000000000000000000), Op::BitOr, self.lit(rng))
        } else if choice == 8 {
            bin(whole_lit(false, 10000000000000000000), Op::BitAnd, self.lit(rng))
        } else if choice == 9 {
            bin(whole_lit(false, 10000000000000000000), Op::BitXor, self.lit(rng))
        } else if choice == 10 {
            bin(whole_lit(false, 10000000000000000000), Op::Shl, self.lit(rng))
        } else if choice == 11 {
            let l = neg(self.lit(rng));
            bin(l, Op::BitAnd, neg(self.lit(rng)))
        } else if choice == 12 {
            let l = neg(self.lit(rng));
            bin(l, Op::BitOr, neg(self.lit(rng)))
        } else if choice == 13 {
            bin(self.lit(rng), Op::Power, whole_lit(false, 64))
        } else if choice == 14 {
            bin(neg(self.lit(rng)), Op::Power, whole_lit(false, 2))
        } else if choice == 15 {
            let depth_draw = rand_below(rng, 20);
            let l = self.lit(rng);
            let e = deep_parens(depth_draw, l);
            proof {
                assert(e == deep_parens_spec(depth_draw as nat, l));
            }
            e
        } else if choice == 16 {
            let l = self.lit(rng);
            let inner = bin(l, Op::Add, self.lit(rng));
            bin(inner, Op::Shl, self.lit(rng))
        } else if choice == 17 {
            let l = self.lit(rng);
            let inner = bin(l, Op::Mul, self.lit(rng));
            bin(inner, Op::Power, self.lit(rng))
        } else if choice == 18 {
            bin(whole_lit(false, 2147483648), Op::Mod, self.lit(rng))
        } else if choice == 19 {
            bin(whole_lit(false, 9223372036854775807), Op::Mod, self.lit(rng))
        } else if choice == 20 {
            bin(whole_lit(false, 0), Op::Power, whole_lit(false, 0))
        } else if choice == 21 {
            let l = self.lit(rng);
            bin(l, Op::Power, neg(self.lit(rng)))
        } else if choice == 22 {
            neg(neg(self.lit(rng)))
        } else if choice == 23 {
            let l = neg(self.lit(rng));
            bin(l, Op::Mod, neg(self.lit(rng)))
        } else if choice == 24 {
            let l = neg(self.lit(rng));
            bin(l, Op::BitXor, neg(self.lit(rng)))
        } else {
            bin(Expr::Num(NumLit::BareZero), Op::Add, self.lit(rng))
        }
    }

    /// The written form of a fresh random expression from nesting level 0:
    /// the bytes of a new corpus entry.
    pub fn generate(&self, rng: &mut StdRand) -> (bytes: Vec<u8>)
        ensures
            regenerated(self.depth_limit(), bytes@),
    {
        let e = self.random_expr(rng, 0);
        e.render()
    }
}

} // verus!
