//! Grammar-aware mutations of calculator input.
use vstd::prelude::*;

use libafl_bolts::rands::StdRand;
use vstd::utf8::valid_utf8;

use crate::ast::{expr_text, op_text, Expr, Op, CLOSE_PAREN, MINUS, OPEN_PAREN};
use crate::generator::{expr_generable, op_at, op_of_draw, regenerated, ExprGenerator};
use crate::rng::rand_below;

verus! {

/// What a mutation did to its input.
#[derive(Clone, Copy, Debug, PartialEq, Eq, Structural)]
pub enum MutationOutcome {
    Mutated,
    Skipped,
}

/// The mutations a roll selects between.
#[derive(Clone, Copy, Debug, PartialEq, Eq, Structural)]
pub enum MutationKind {
    Compose,
    WrapParens,
    Negate,
}

/// The bytes that `String::from_utf8_lossy` gives for `bytes`.
pub uninterp spec fn utf8_lossy(bytes: Seq<u8>) -> Seq<u8>;

/// Calls `String::from_utf8_lossy` of std. Its documentation: invalid UTF-8
/// sequences are replaced with U+FFFD, and valid UTF-8 comes back borrowed,
/// unchanged. Which sequences count as invalid and how many replacement
/// characters stand for them is left to the name.
#[verifier::external_body]
fn lossy_text(bytes: &[u8]) -> (r: Vec<u8>)
    ensures
        r@ == utf8_lossy(bytes@),
        valid_utf8(bytes@) ==> r@ == bytes@,
{
    String::from_utf8_lossy(bytes).into_owned().into_bytes()
}

/// The text that existing input contributes to a composition: the input
/// itself when it is valid UTF-8, else its lossy decoding.
pub open spec fn existing_text(existing: Seq<u8>) -> Seq<u8> {
    if valid_utf8(existing) {
        existing
    } else {
        utf8_lossy(existing)
    }
}

/// `new_text op existing` when `prepend`, else `existing op new_text`.
pub open spec fn composed(new_text: Seq<u8>, op: Op, existing: Seq<u8>, prepend: bool) -> Seq<u8> {
    if prepend {
        new_text + op_text(op) + existing
    } else {
        existing + op_text(op) + new_text
    }
}

/// `input` in parentheses.
pub open spec fn parenthesised(input: Seq<u8>) -> Seq<u8> {
    seq![OPEN_PAREN] + input + seq![CLOSE_PAREN]
}

/// `input` with a minus sign before it.
pub open spec fn negated(input: Seq<u8>) -> Seq<u8> {
    seq![MINUS] + input
}

/// A side draw of 0 (one in 2) puts the fresh expression first.
pub open spec fn side_prepends(side_draw: nat) -> bool {
    side_draw == 0
}

/// `after` is `before` composed with the written form of a fresh expression
/// that a generator with depth limit `limit` can produce: the operator is
/// the one a draw in `0..11` picks from `ALL_OPS`, the side is the one a
/// draw in `0..2` picks by [`side_prepends`].
pub open spec fn composed_from(limit: nat, before: Seq<u8>, after: Seq<u8>) -> bool {
    exists|e: Expr, op_draw: nat, side_draw: nat|
        expr_generable(limit, 0, e) && op_draw < 11 && side_draw < 2 && after == #[trigger] composed(
            expr_text(e),
            op_at(op_draw),
            existing_text(before),
            side_prepends(side_draw),
        )
}

/// The outcome of composition: empty input is skipped and kept, other input
/// is composed with a fresh expression.
pub open spec fn compose_outcome(limit: nat, before: Seq<u8>, after: Seq<u8>, r: MutationOutcome) -> bool {
    if before.len() == 0 {
        r == MutationOutcome::Skipped && after == before
    } else {
        r == MutationOutcome::Mutated && composed_from(limit, before, after)
    }
}

/// The outcome of mutation `kind`: composition, parentheses around the
/// input, or a minus sign before it.
pub open spec fn kind_outcome(
    limit: nat,
    kind: MutationKind,
    before: Seq<u8>,
    after: Seq<u8>,
    r: MutationOutcome,
) -> bool {
    match kind {
        MutationKind::Compose => compose_outcome(limit, before, after, r),
        MutationKind::WrapParens => r == MutationOutcome::Mutated && after == parenthesised(before),
        MutationKind::Negate => r == MutationOutcome::Mutated && after == negated(before),
    }
}

/// The outcome of a grammar-aware mutation: input longer than 100 bytes is
/// replaced with a fresh expression; shorter input gets the mutation that a
/// roll in `0..100` picks by [`mutation_kind_spec`].
pub open spec fn mutate_outcome(limit: nat, before: Seq<u8>, after: Seq<u8>, r: MutationOutcome) -> bool {
    if before.len() > 100 {
        r == MutationOutcome::Mutated && regenerated(limit, after)
    } else {
        exists|roll: nat| roll < 100 && kind_outcome(limit, #[trigger] mutation_kind_spec(roll), before, after, r)
    }
}

/// The mutation that a roll in `0..100` selects.
pub open spec fn mutation_kind_spec(roll: nat) -> MutationKind {
    if roll <= 59 {
        MutationKind::Compose
    } else if roll <= 79 {
        MutationKind::WrapParens
    } else {
        MutationKind::Negate
    }
}

/// The mutation that a roll selects: composition for 60 rolls in 100,
/// parentheses for 20, negation for 20.
pub fn mutation_kind(roll: usize) -> (k: MutationKind)
    ensures
        k == mutation_kind_spec(roll as nat),
{
    if roll <= 59 {
        MutationKind::Compose
    } else if roll <= 79 {
        MutationKind::WrapParens
    } else {
        MutationKind::Negate
    }
}

/// `new_text op existing` when `prepend`, else `existing op new_text`.
pub fn compose_texts(new_text: Vec<u8>, op: Op, existing: Vec<u8>, prepend: bool) -> (r: Vec<u8>)
    ensures
        r@ == composed(new_text@, op, existing@, prepend),
{
    let mut first = new_text;
    let mut second = existing;
    if !prepend {
        let tmp = first;
        first = second;
        second = tmp;
    }
    let mut out = first;
    op.write_to(&mut out);
    out.append(&mut second);
    out
}

/// A mutator that rewrites calculator input along its grammar, drawing fresh
/// sub-expressions from a generator of depth limit 3.
pub struct ExprMutator {
    generator: ExprGenerator,
}

impl ExprMutator {
    /// The depth limit of the fresh sub-expressions.
    pub closed spec fn depth_limit(&self) -> nat {
        self.generator.depth_limit()
    }

    /// A mutator whose fresh sub-expressions have depth limit 3.
    pub fn new() -> (m: Self)
        ensures
            m.depth_limit() == 3,
    {
        Self { generator: ExprGenerator::new(3) }
    }

    /// The generator of fresh sub-expressions.
    pub fn generator(&self) -> (g: &ExprGenerator)
        ensures
            g.depth_limit() == self.depth_limit(),
    {
        &self.generator
    }

    /// Puts a fresh random expression and a random operator before or after
    /// the input (each side for one roll in 2); empty input is skipped.
    pub fn compose(&self, input: &mut Vec<u8>, rng: &mut StdRand) -> (r: MutationOutcome)
        ensures
            compose_outcome(self.depth_limit(), old(input)@, final(input)@, r),
            old(input)@.len() == 0 ==> *final(rng) == *old(rng),
    {
        if input.len() == 0 {
            return MutationOutcome::Skipped;
        }
        let new_expr = self.generator.random_expr(rng, 0);
        let new_text = new_expr.render();
        let op_draw = rand_below(rng, 11);
        let op = op_of_draw(op_draw);
        let existing = lossy_text(input.as_slice());
        let side_draw = rand_below(rng, 2);
        let prepend = side_draw == 0;
        let ghost before = input@;
        *input = compose_texts(new_text, op, existing, prepend);
        proof {
            assert(existing@ == existing_text(before));
            assert(expr_generable(self.depth_limit(), 0, new_expr) && op_draw < 11 && side_draw < 2
                && input@ == composed(
                expr_text(new_expr),
                op_at(op_draw as nat),
                existing_text(before),
                side_prepends(side_draw as nat),
            ));
        }
        MutationOutcome::Mutated
    }

    /// Puts the input in parentheses.
    pub fn wrap_parens(&self, input: &mut Vec<u8>) -> (r: MutationOutcome)
        ensures
            r == MutationOutcome::Mutated,
            final(input)@ == parenthesised(old(input)@),
    {
        let mut out: Vec<u8> = Vec::new();
        out.push(OPEN_PAREN);
        out.append(input);
        out.push(CLOSE_PAREN);
        *input = out;
        assert(input@ =~= parenthesised(old(input)@));
        MutationOutcome::Mutated
    }

    /// Puts a minus sign before the input.
    pub fn add_negation(&self, input: &mut Vec<u8>) -> (r: MutationOutcome)
        ensures
            r == MutationOutcome::Mutated,
            final(input)@ == negated(old(input)@),
    {
        let mut out: Vec<u8> = Vec::new();
        out.push(MINUS);
        out.append(input);
        *input = out;
        assert(input@ =~= negated(old(input)@));
        MutationOutcome::Mutated
    }

    /// One grammar-aware mutation: input longer than 100 bytes is replaced
    /// with a fresh expression; otherwise a roll in `0..100` picks by
    /// [`mutation_kind_spec`] between composition, parentheses and negation.
    pub fn mutate(&self, input: &mut Vec<u8>, rng: &mut StdRand) -> (r: MutationOutcome)
        ensures
            mutate_outcome(self.depth_limit(), old(input)@, final(input)@, r),
    {
        if input.len() > 100 {
            let e = self.generator.random_expr(rng, 0);
            *input = e.render();
            proof {
                assert(expr_generable(self.depth_limit(), 0, e) && input@ == expr_text(e));
            }
            return MutationOutcome::Mutated;
        }
        let roll = rand_below(rng, 100);
        let r = self.mutate_with(mutation_kind(roll), input, rng);
        proof {
            assert(kind_outcome(self.depth_limit(), mutation_kind_spec(roll as nat), old(input)@, input@, r));
        }
        r
    }

    /// The mutation `kind`: composition, parentheses or negation; the last
    /// two draw nothing.
    pub fn mutate_with(&self, kind: MutationKind, input: &mut Vec<u8>, rng: &mut StdRand) -> (r: MutationOutcome)
        ensures
            kind_outcome(self.depth_limit(), kind, old(input)@, final(input)@, r),
            kind != MutationKind::Compose ==> *final(rng) == *old(rng),
    {
        match kind {
            MutationKind::Compose => self.compose(input, rng),
            MutationKind::WrapParens => self.wrap_parens(input),
            MutationKind::Negate => self.add_negation(input),
        }
    }
}

} // verus!
