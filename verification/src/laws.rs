//! Properties that hold across the generator, the mutator and the harness.
use vstd::prelude::*;

use vstd::utf8::valid_utf8;
use vstd::utf8::valid_first_scalar;
use vstd::utf8::pop_first_scalar;

use crate::ast::{decimal_text, expr_text, height, magnitude, numlit_text, op_text, Expr, NumLit};
use crate::generator::{
    dangerous_generable, dangerous_shape, deep_parens_spec, expr_generable, expr_kind_spec,
    expr_of_kind, is_lit, lit_in_kind, lit_kind_spec, lit_of_draws, op_at, parens_around,
    regenerated, ExprKind, LitKind,
};
use crate::harness::{accepted_text, without_nul};
use crate::mutator::{
    composed, existing_text, mutate_outcome, mutation_kind_spec, negated, parenthesised, MutationKind,
};
use crate::numtext::{
    calc_byte, digits_of, in_alphabet, lemma_digits_alphabet, lemma_digits_printable,
    lemma_digits_value, lemma_zero_padded_alphabet, lemma_zero_padded_printable, paren_free,
    printable, value_of_digits, zero_padded,
};

verus! {

/// The concatenation of printable byte strings is printable.
proof fn lemma_printable_concat(a: Seq<u8>, b: Seq<u8>)
    requires
        printable(a),
        printable(b),
    ensures
        printable(a + b),
{
    assert forall|i: int| 0 <= i < (a + b).len() implies 0x21 <= #[trigger] (a + b)[i] <= 0x7e by {
        if i < a.len() {
            assert((a + b)[i] == a[i]);
        } else {
            assert((a + b)[i] == b[i - a.len()]);
        }
    }
}

/// The written form of a literal is a non-empty printable string.
proof fn lemma_numlit_printable(n: NumLit)
    ensures
        numlit_text(n).len() > 0,
        printable(numlit_text(n)),
{
    match n {
        NumLit::Decimal(d) => {
            lemma_digits_printable(d.whole as nat, 10);
            lemma_digits_printable(d.frac as nat, 10);
            lemma_zero_padded_printable(digits_of(d.frac as nat, 10), d.frac_digits as nat);
            let sign: Seq<u8> = if d.negative {
                seq![45u8]
            } else {
                seq![]
            };
            let tail: Seq<u8> = if d.frac_digits == 0 {
                seq![]
            } else {
                seq![46u8] + zero_padded(digits_of(d.frac as nat, 10), d.frac_digits as nat)
            };
            lemma_printable_concat(seq![46u8], zero_padded(digits_of(d.frac as nat, 10), d.frac_digits as nat));
            lemma_printable_concat(sign, digits_of(d.whole as nat, 10));
            lemma_printable_concat(sign + digits_of(d.whole as nat, 10), tail);
            assert(decimal_text(d) == sign + digits_of(d.whole as nat, 10) + tail);
        },
        NumLit::Hex(v) => {
            lemma_digits_printable(magnitude(v), 16);
            lemma_printable_concat(seq![48u8, 120u8], digits_of(magnitude(v), 16));
        },
        NumLit::HexUpper(v) => {
            lemma_digits_printable(magnitude(v), 16);
            lemma_printable_concat(seq![48u8, 88u8], digits_of(magnitude(v), 16));
        },
        NumLit::Binary(v) => {
            lemma_digits_printable(magnitude(v), 2);
            lemma_printable_concat(seq![48u8, 98u8], digits_of(magnitude(v), 2));
        },
        NumLit::BinaryUpper(v) => {
            lemma_digits_printable(magnitude(v), 2);
            lemma_printable_concat(seq![48u8, 66u8], digits_of(magnitude(v), 2));
        },
        NumLit::LeadingDot(f) => {
            lemma_digits_printable(f as nat, 10);
            lemma_printable_concat(seq![46u8], digits_of(f as nat, 10));
        },
        NumLit::BareZero => {},
    }
}

/// The written form of every expression is a non-empty string of printable
/// ASCII characters: no space, no control character, no NUL byte.
pub proof fn lemma_text_printable(e: Expr)
    ensures
        expr_text(e).len() > 0,
        printable(expr_text(e)),
    decreases e,
{
    match e {
        Expr::Num(n) => lemma_numlit_printable(n),
        Expr::UnaryNeg(x) => {
            lemma_text_printable(*x);
            lemma_printable_concat(seq![45u8], expr_text(*x));
        },
        Expr::BinOp { left, op, right } => {
            lemma_text_printable(*left);
            lemma_text_printable(*right);
            lemma_printable_concat(expr_text(*left), op_text(op));
            lemma_printable_concat(expr_text(*left) + op_text(op), expr_text(*right));
        },
        Expr::Paren(x) => {
            lemma_text_printable(*x);
            lemma_printable_concat(seq![40u8], expr_text(*x));
            lemma_printable_concat(seq![40u8] + expr_text(*x), seq![41u8]);
        },
    }
}

/// Printable ASCII is valid UTF-8.
proof fn lemma_printable_valid_utf8(s: Seq<u8>)
    requires
        printable(s),
    ensures
        valid_utf8(s),
    decreases s.len(),
{
    if s.len() != 0 {
        assert(valid_first_scalar(s));
        let rest = pop_first_scalar(s);
        assert(rest =~= s.subrange(1, s.len() as int));
        assert forall|i: int| 0 <= i < rest.len() implies 0x21 <= #[trigger] rest[i] <= 0x7e by {
            assert(rest[i] == s[i + 1]);
        }
        lemma_printable_valid_utf8(rest);
    }
}

/// A string without NUL bytes is left unchanged by their removal.
proof fn lemma_without_nul_unchanged(s: Seq<u8>)
    requires
        forall|i: int| 0 <= i < s.len() ==> #[trigger] s[i] != 0,
    ensures
        without_nul(s) == s,
    decreases s.len(),
{
    reveal_with_fuel(Seq::filter, 1);
    if s.len() != 0 {
        lemma_without_nul_unchanged(s.drop_last());
        assert(s.drop_last().push(s.last()) =~= s);
    }
}

/// The harness hands the written form of every expression to the calculator
/// and the oracle exactly as it is: nothing is filtered out and the run is
/// never skipped.
pub proof fn lemma_expression_text_accepted(e: Expr)
    ensures
        accepted_text(expr_text(e)) == Some(expr_text(e)),
{
    lemma_text_printable(e);
    lemma_without_nul_unchanged(expr_text(e));
    lemma_printable_valid_utf8(expr_text(e));
}

/// Every corpus entry that the generator writes reaches the calculator and
/// the oracle exactly as written.
pub proof fn lemma_generated_entry_accepted(limit: nat, bytes: Seq<u8>)
    requires
        regenerated(limit, bytes),
    ensures
        accepted_text(bytes) == Some(bytes),
{
    let e = choose|e: Expr| expr_generable(limit, 0, e) && bytes == #[trigger] expr_text(e);
    lemma_expression_text_accepted(e);
}

/// An expression inside `k` pairs of parentheses is `k` higher.
proof fn lemma_parens_height(e: Expr, k: nat)
    ensures
        height(parens_around(e, k)) == height(e) + k,
    decreases k,
{
    if k > 0 {
        lemma_parens_height(e, (k - 1) as nat);
    }
}

/// Every boundary expression has height at most 24.
proof fn lemma_dangerous_height(e: Expr)
    requires
        dangerous_generable(e),
    ensures
        height(e) <= 24,
{
    let choice = choose|c: nat| c < 26 && #[trigger] dangerous_shape(c, e);
    if choice == 15 {
        let (d, lit) = choose|d: nat, lit: Expr| d < 20 && is_lit(lit) && e == #[trigger] deep_parens_spec(d, lit);
        lemma_parens_height(lit, d + 5);
    } else {
        reveal_with_fuel(height, 3);
        match e {
            Expr::BinOp { left, op, right } => {
                assert(height(*left) <= 1);
                assert(height(*right) <= 1);
            },
            _ => {},
        }
    }
}

/// An expression that a generator with depth limit `max` produces from
/// nesting level `depth` is at most `max - depth + 24` high (a literal at
/// or past the limit): ordinary nesting stops at the limit and a boundary
/// expression adds at most 24 levels.
pub proof fn lemma_generated_height(max: nat, depth: nat, e: Expr)
    requires
        expr_generable(max, depth, e),
    ensures
        depth >= max ==> height(e) == 0,
        depth < max ==> height(e) <= max - depth + 24,
    decreases max - depth,
{
    if depth < max {
        if dangerous_generable(e) {
            lemma_dangerous_height(e);
        } else {
            match e {
                Expr::Num(_) => {},
                Expr::BinOp { left, op, right } => {
                    lemma_generated_height(max, depth + 1, *left);
                    lemma_generated_height(max, depth + 1, *right);
                },
                Expr::Paren(x) => lemma_generated_height(max, depth + 1, *x),
                Expr::UnaryNeg(x) => lemma_generated_height(max, depth + 1, *x),
            }
        }
    }
}

/// A grammar-aware mutation of the written form of an expression gives the
/// written form of an expression again: `(e)` for parentheses, `-e` for
/// negation, `new op e` or `e op new` for composition, or a fresh expression.
pub proof fn lemma_mutation_keeps_expressions(limit: nat, e: Expr, after: Seq<u8>, r: crate::mutator::MutationOutcome)
    requires
        mutate_outcome(limit, expr_text(e), after, r),
    ensures
        exists|f: Expr| after == #[trigger] expr_text(f),
{
    let before = expr_text(e);
    lemma_text_printable(e);
    lemma_printable_valid_utf8(before);
    assert(existing_text(before) == before);
    if before.len() > 100 {
    } else if after == parenthesised(before) {
        let f = Expr::Paren(Box::new(e));
        assert(after =~= expr_text(f));
    } else if after == negated(before) {
        let f = Expr::UnaryNeg(Box::new(e));
        assert(after =~= expr_text(f));
    } else {
        let (n, op, prepend) = choose|n: Expr, op: crate::ast::Op, prepend: bool|
            expr_generable(limit, 0, n) && after == #[trigger] composed(
                expr_text(n),
                op,
                existing_text(before),
                prepend,
            );
        if prepend {
            let f = Expr::BinOp { left: Box::new(n), op, right: Box::new(e) };
            assert(after =~= expr_text(f));
        } else {
            let f = Expr::BinOp { left: Box::new(e), op, right: Box::new(n) };
            assert(after =~= expr_text(f));
        }
    }
}

/// The digits after the prefix of a hexadecimal, binary or fraction literal
/// read back, in the literal's base, as the magnitude it was made from.
pub proof fn lemma_radix_literals_read_back(v: i64, f: u32)
    ensures
        value_of_digits(numlit_text(NumLit::Hex(v)).skip(2), 16) == magnitude(v),
        value_of_digits(numlit_text(NumLit::HexUpper(v)).skip(2), 16) == magnitude(v),
        value_of_digits(numlit_text(NumLit::Binary(v)).skip(2), 2) == magnitude(v),
        value_of_digits(numlit_text(NumLit::BinaryUpper(v)).skip(2), 2) == magnitude(v),
        value_of_digits(numlit_text(NumLit::LeadingDot(f)).skip(1), 10) == f,
{
    lemma_digits_value(magnitude(v), 16);
    lemma_digits_value(magnitude(v), 2);
    lemma_digits_value(f as nat, 10);
    assert(numlit_text(NumLit::Hex(v)).skip(2) =~= digits_of(magnitude(v), 16));
    assert(numlit_text(NumLit::HexUpper(v)).skip(2) =~= digits_of(magnitude(v), 16));
    assert(numlit_text(NumLit::Binary(v)).skip(2) =~= digits_of(magnitude(v), 2));
    assert(numlit_text(NumLit::BinaryUpper(v)).skip(2) =~= digits_of(magnitude(v), 2));
    assert(numlit_text(NumLit::LeadingDot(f)).skip(1) =~= digits_of(f as nat, 10));
}

/// Concatenation keeps strings within calculator input and free of
/// parentheses.
proof fn lemma_alphabet_concat(a: Seq<u8>, b: Seq<u8>)
    ensures
        in_alphabet(a) && in_alphabet(b) ==> in_alphabet(a + b),
        paren_free(a) && paren_free(b) ==> paren_free(a + b),
{
    assert forall|i: int| 0 <= i < (a + b).len() implies (a + b)[i] == (if i < a.len() {
        a[i]
    } else {
        b[i - a.len()]
    }) by {}
}

/// A literal is written with calculator input bytes and no parenthesis.
proof fn lemma_numlit_alphabet(n: NumLit)
    ensures
        in_alphabet(numlit_text(n)),
        paren_free(numlit_text(n)),
{
    match n {
        NumLit::Decimal(d) => {
            lemma_digits_alphabet(d.whole as nat, 10);
            lemma_digits_alphabet(d.frac as nat, 10);
            let frac = zero_padded(digits_of(d.frac as nat, 10), d.frac_digits as nat);
            lemma_zero_padded_alphabet(digits_of(d.frac as nat, 10), d.frac_digits as nat);
            let sign: Seq<u8> = if d.negative {
                seq![45u8]
            } else {
                seq![]
            };
            let tail: Seq<u8> = if d.frac_digits == 0 {
                seq![]
            } else {
                seq![46u8] + frac
            };
            lemma_alphabet_concat(seq![46u8], frac);
            lemma_alphabet_concat(sign, digits_of(d.whole as nat, 10));
            lemma_alphabet_concat(sign + digits_of(d.whole as nat, 10), tail);
            assert(decimal_text(d) == sign + digits_of(d.whole as nat, 10) + tail);
        },
        NumLit::Hex(v) => {
            lemma_digits_alphabet(magnitude(v), 16);
            lemma_alphabet_concat(seq![48u8, 120u8], digits_of(magnitude(v), 16));
        },
        NumLit::HexUpper(v) => {
            lemma_digits_alphabet(magnitude(v), 16);
            lemma_alphabet_concat(seq![48u8, 88u8], digits_of(magnitude(v), 16));
        },
        NumLit::Binary(v) => {
            lemma_digits_alphabet(magnitude(v), 2);
            lemma_alphabet_concat(seq![48u8, 98u8], digits_of(magnitude(v), 2));
        },
        NumLit::BinaryUpper(v) => {
            lemma_digits_alphabet(magnitude(v), 2);
            lemma_alphabet_concat(seq![48u8, 66u8], digits_of(magnitude(v), 2));
        },
        NumLit::LeadingDot(f) => {
            lemma_digits_alphabet(f as nat, 10);
            lemma_alphabet_concat(seq![46u8], digits_of(f as nat, 10));
        },
        NumLit::BareZero => {},
    }
}

/// Every expression is written with calculator input bytes only: digits,
/// `A`-`F`, the radix letters, the point, operator characters and
/// parentheses.
pub proof fn lemma_text_in_alphabet(e: Expr)
    ensures
        in_alphabet(expr_text(e)),
    decreases e,
{
    match e {
        Expr::Num(n) => lemma_numlit_alphabet(n),
        Expr::UnaryNeg(x) => {
            lemma_text_in_alphabet(*x);
            lemma_alphabet_concat(seq![45u8], expr_text(*x));
        },
        Expr::BinOp { left, op, right } => {
            lemma_text_in_alphabet(*left);
            lemma_text_in_alphabet(*right);
            assert(in_alphabet(op_text(op)));
            lemma_alphabet_concat(expr_text(*left), op_text(op));
            lemma_alphabet_concat(expr_text(*left) + op_text(op), expr_text(*right));
        },
        Expr::Paren(x) => {
            lemma_text_in_alphabet(*x);
            lemma_alphabet_concat(seq![40u8], expr_text(*x));
            lemma_alphabet_concat(seq![40u8] + expr_text(*x), seq![41u8]);
        },
    }
}

/// How a byte changes the parenthesis nesting.
pub open spec fn paren_delta(b: u8) -> int {
    if b == 40 {
        1
    } else if b == 41 {
        -1
    } else {
        0
    }
}

/// The number of open parentheses minus the number of closing ones.
pub open spec fn nesting(s: Seq<u8>) -> int
    decreases s.len(),
{
    if s.len() == 0 {
        0
    } else {
        nesting(s.drop_last()) + paren_delta(s.last())
    }
}

/// No prefix of `s` closes more parentheses than it opens.
pub open spec fn nonneg_prefixes(s: Seq<u8>) -> bool {
    forall|i: int| 0 <= i <= s.len() ==> #[trigger] nesting(s.take(i)) >= 0
}

/// Every parenthesis of `s` is matched.
pub open spec fn balanced(s: Seq<u8>) -> bool {
    nesting(s) == 0 && nonneg_prefixes(s)
}

/// Nesting adds up over concatenation.
proof fn lemma_nesting_concat(a: Seq<u8>, b: Seq<u8>)
    ensures
        nesting(a + b) == nesting(a) + nesting(b),
    decreases b.len(),
{
    if b.len() == 0 {
        assert(a + b =~= a);
    } else {
        lemma_nesting_concat(a, b.drop_last());
        assert((a + b).drop_last() =~= a + b.drop_last());
        assert((a + b).last() == b.last());
    }
}

/// A string without parentheses is balanced, with every prefix at nesting 0.
proof fn lemma_paren_free_balanced(s: Seq<u8>)
    requires
        paren_free(s),
    ensures
        balanced(s),
        forall|i: int| 0 <= i <= s.len() ==> #[trigger] nesting(s.take(i)) == 0,
    decreases s.len(),
{
    if s.len() > 0 {
        let p = s.drop_last();
        assert forall|i: int| 0 <= i < p.len() implies #[trigger] p[i] != 40 && p[i] != 41 by {
            assert(p[i] == s[i]);
        }
        lemma_paren_free_balanced(p);
        assert(s.last() == s[s.len() - 1]);
        assert forall|i: int| 0 <= i <= s.len() implies #[trigger] nesting(s.take(i)) == 0 by {
            if i < s.len() {
                assert(s.take(i) =~= p.take(i));
            } else {
                assert(s.take(i) =~= s);
            }
        }
    } else {
        assert forall|i: int| 0 <= i <= s.len() implies #[trigger] nesting(s.take(i)) == 0 by {
            assert(s.take(i) =~= s);
        }
    }
}

/// Appending a string whose prefixes stay non-negative to one of
/// non-negative nesting keeps every prefix non-negative.
proof fn lemma_prefixes_concat(a: Seq<u8>, b: Seq<u8>)
    requires
        nonneg_prefixes(a),
        nesting(a) >= 0,
        nonneg_prefixes(b),
    ensures
        nonneg_prefixes(a + b),
{
    assert forall|i: int| 0 <= i <= (a + b).len() implies #[trigger] nesting((a + b).take(i)) >= 0 by {
        if i <= a.len() {
            assert((a + b).take(i) =~= a.take(i));
        } else {
            assert((a + b).take(i) =~= a + b.take(i - a.len()));
            lemma_nesting_concat(a, b.take(i - a.len()));
        }
    }
}

/// Balanced strings concatenate to a balanced string.
proof fn lemma_balanced_concat(a: Seq<u8>, b: Seq<u8>)
    requires
        balanced(a),
        balanced(b),
    ensures
        balanced(a + b),
{
    lemma_nesting_concat(a, b);
    lemma_prefixes_concat(a, b);
}

/// A balanced string in parentheses is balanced.
proof fn lemma_balanced_wrap(s: Seq<u8>)
    requires
        balanced(s),
    ensures
        balanced(seq![40u8] + s + seq![41u8]),
{
    let open = seq![40u8];
    let close = seq![41u8];
    assert(open.drop_last() =~= Seq::<u8>::empty());
    assert(nesting(Seq::<u8>::empty()) == 0);
    assert(open.last() == 40u8);
    assert(nesting(open) == 1);
    assert forall|i: int| 0 <= i <= open.len() implies #[trigger] nesting(open.take(i)) >= 0 by {
        if i == 0 {
            assert(open.take(i) =~= Seq::<u8>::empty());
        } else {
            assert(open.take(i) =~= open);
        }
    }
    lemma_prefixes_concat(open, s);
    lemma_nesting_concat(open, s);
    let a = open + s;
    assert(close.drop_last() =~= Seq::<u8>::empty());
    assert(close.last() == 41u8);
    assert(nesting(close) == -1);
    lemma_nesting_concat(a, close);
    assert forall|i: int| 0 <= i <= (a + close).len() implies #[trigger] nesting((a + close).take(i)) >= 0 by {
        if i <= a.len() {
            assert((a + close).take(i) =~= a.take(i));
        } else {
            assert((a + close).take(i) =~= a + close);
        }
    }
}

/// Every parenthesis in the written form of an expression is matched: the
/// parentheses nest exactly as the `Paren` nodes do.
pub proof fn lemma_text_balanced(e: Expr)
    ensures
        balanced(expr_text(e)),
    decreases e,
{
    match e {
        Expr::Num(n) => {
            lemma_numlit_alphabet(n);
            lemma_paren_free_balanced(numlit_text(n));
        },
        Expr::UnaryNeg(x) => {
            lemma_text_balanced(*x);
            assert(paren_free(seq![45u8]));
            lemma_paren_free_balanced(seq![45u8]);
            lemma_balanced_concat(seq![45u8], expr_text(*x));
        },
        Expr::BinOp { left, op, right } => {
            lemma_text_balanced(*left);
            lemma_text_balanced(*right);
            assert(paren_free(op_text(op)));
            lemma_paren_free_balanced(op_text(op));
            lemma_balanced_concat(expr_text(*left), op_text(op));
            lemma_balanced_concat(expr_text(*left) + op_text(op), expr_text(*right));
        },
        Expr::Paren(x) => {
            lemma_text_balanced(*x);
            lemma_balanced_wrap(expr_text(*x));
        },
    }
}

/// A boundary expression is never a bare literal: it is a binary
/// expression, a negation or a nesting of parentheses.
proof fn lemma_dangerous_compound(e: Expr)
    requires
        dangerous_generable(e),
    ensures
        !(e is Num),
{
    let choice = choose|c: nat| c < 26 && #[trigger] dangerous_shape(c, e);
    if choice == 15 {
        let (d, lit) = choose|d: nat, lit: Expr| d < 20 && is_lit(lit) && e == #[trigger] deep_parens_spec(d, lit);
        assert(parens_around(lit, d + 5) == Expr::Paren(Box::new(parens_around(lit, (d + 4) as nat))));
    }
}

/// Each shape of expression builds its own kind of node: a literal, a
/// binary expression, parentheses, a negation, or (for the boundary shape)
/// anything but a bare literal.
pub proof fn lemma_shape_decides_node(max: nat, depth: nat, kind: ExprKind, e: Expr)
    requires
        expr_of_kind(max, depth, kind, e),
    ensures
        kind == ExprKind::Literal <==> e is Num,
        kind == ExprKind::Binary ==> e is BinOp,
        kind == ExprKind::Parenthesized ==> e is Paren,
        kind == ExprKind::Negated ==> e is UnaryNeg,
{
    if kind == ExprKind::Dangerous {
        lemma_dangerous_compound(e);
    }
}

/// Some roll in `0..100` selects shape `k`.
pub open spec fn shape_rolled(k: ExprKind) -> bool {
    exists|roll: nat| roll < 100 && #[trigger] expr_kind_spec(roll) == k
}

/// Some roll in `0..100` selects literal family `k`.
pub open spec fn family_rolled(k: LitKind) -> bool {
    exists|roll: nat| roll < 100 && #[trigger] lit_kind_spec(roll) == k
}

/// Some roll in `0..100` selects mutation `k`.
pub open spec fn mutation_rolled(k: MutationKind) -> bool {
    exists|roll: nat| roll < 100 && #[trigger] mutation_kind_spec(roll) == k
}

/// Some draw in `0..11` selects operator `op`.
pub open spec fn operator_drawn(op: crate::ast::Op) -> bool {
    exists|i: nat| i < 11 && #[trigger] op_at(i) == op
}

/// Every shape of expression is selected by some roll in `0..100`, and so
/// is every family of literal and every mutation; every operator is
/// selected by some draw in `0..11`.
pub proof fn lemma_every_choice_reachable()
    ensures
        forall|k: ExprKind| #[trigger] shape_rolled(k),
        forall|k: LitKind| #[trigger] family_rolled(k),
        forall|k: MutationKind| #[trigger] mutation_rolled(k),
        forall|op: crate::ast::Op| #[trigger] operator_drawn(op),
{
    assert forall|k: ExprKind| #[trigger] shape_rolled(k) by {
        match k {
            ExprKind::Literal => assert(expr_kind_spec(0) == k),
            ExprKind::Binary => assert(expr_kind_spec(35) == k),
            ExprKind::Parenthesized => assert(expr_kind_spec(70) == k),
            ExprKind::Negated => assert(expr_kind_spec(82) == k),
            ExprKind::Dangerous => assert(expr_kind_spec(95) == k),
        }
    }
    assert forall|k: LitKind| #[trigger] family_rolled(k) by {
        match k {
            LitKind::WholeDecimal => assert(lit_kind_spec(0) == k),
            LitKind::CentsDecimal => assert(lit_kind_spec(20) == k),
            LitKind::Hex => assert(lit_kind_spec(30) == k),
            LitKind::HexUpper => assert(lit_kind_spec(40) == k),
            LitKind::Binary => assert(lit_kind_spec(50) == k),
            LitKind::BinaryUpper => assert(lit_kind_spec(60) == k),
            LitKind::LeadingDot => assert(lit_kind_spec(70) == k),
            LitKind::BareZero => assert(lit_kind_spec(80) == k),
            LitKind::EdgeCase => assert(lit_kind_spec(90) == k),
        }
    }
    assert forall|k: MutationKind| #[trigger] mutation_rolled(k) by {
        match k {
            MutationKind::Compose => assert(mutation_kind_spec(0) == k),
            MutationKind::WrapParens => assert(mutation_kind_spec(60) == k),
            MutationKind::Negate => assert(mutation_kind_spec(80) == k),
        }
    }
    assert forall|op: crate::ast::Op| #[trigger] operator_drawn(op) by {
        match op {
            crate::ast::Op::Add => assert(op_at(0) == op),
            crate::ast::Op::Sub => assert(op_at(1) == op),
            crate::ast::Op::Mul => assert(op_at(2) == op),
            crate::ast::Op::Div => assert(op_at(3) == op),
            crate::ast::Op::Mod => assert(op_at(4) == op),
            crate::ast::Op::Power => assert(op_at(5) == op),
            crate::ast::Op::BitOr => assert(op_at(6) == op),
            crate::ast::Op::BitXor => assert(op_at(7) == op),
            crate::ast::Op::BitAnd => assert(op_at(8) == op),
            crate::ast::Op::Shl => assert(op_at(9) == op),
            crate::ast::Op::Shr => assert(op_at(10) == op),
        }
    }
}

/// Each family of literal builds its own variant: decimals for the whole,
/// cents and boundary families, and the hexadecimal, binary, fraction and
/// bare-zero variants for theirs.
pub proof fn lemma_family_decides_variant(kind: LitKind, n: NumLit)
    requires
        lit_in_kind(kind, n),
    ensures
        kind == LitKind::WholeDecimal || kind == LitKind::CentsDecimal || kind == LitKind::EdgeCase
            <==> n is Decimal,
        kind == LitKind::Hex <==> n is Hex,
        kind == LitKind::HexUpper <==> n is HexUpper,
        kind == LitKind::Binary <==> n is Binary,
        kind == LitKind::BinaryUpper <==> n is BinaryUpper,
        kind == LitKind::LeadingDot <==> n is LeadingDot,
        kind == LitKind::BareZero <==> n is BareZero,
{
    let (first, second) = choose|first: nat, second: nat|
        crate::generator::lit_draws_ok(kind, first, second) && n == #[trigger] lit_of_draws(kind, first, second);
}

/// The three mutations leave different marks on a non-empty input: wrapping
/// adds a parenthesis at each end, negation a minus sign in front, and
/// composition keeps the old text (as decoded) at one end, joined to a
/// fresh expression by an operator.
pub proof fn lemma_mutations_differ(before: Seq<u8>, e: Expr, op: crate::ast::Op, prepend: bool)
    ensures
        parenthesised(before).len() == before.len() + 2,
        parenthesised(before)[0] == 40 && parenthesised(before).last() == 41,
        negated(before).len() == before.len() + 1,
        negated(before)[0] == 45 && negated(before).skip(1) == before,
        ({
            let c = composed(expr_text(e), op, existing_text(before), prepend);
            &&& c.len() > existing_text(before).len() + 1
            &&& prepend ==> c.skip(c.len() - existing_text(before).len()) == existing_text(before)
            &&& !prepend ==> c.take(existing_text(before).len() as int) == existing_text(before)
        }),
{
    lemma_text_printable(e);
    let t = existing_text(before);
    let c = composed(expr_text(e), op, t, prepend);
    assert(op_text(op).len() >= 1);
    assert(negated(before).skip(1) =~= before);
    if prepend {
        assert(c.skip(c.len() - t.len()) =~= t);
    } else {
        assert(c.take(t.len() as int) =~= t);
    }
}

} // verus!
