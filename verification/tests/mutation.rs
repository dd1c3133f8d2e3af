use libafl_bolts::rands::StdRand;
use tc_calc_fuzzer::ast::{Decimal, Expr, NumLit, Op};
use tc_calc_fuzzer::generator::ExprGenerator;
use tc_calc_fuzzer::mutator::{compose_texts, mutation_kind, ExprMutator, MutationKind, MutationOutcome};


fn sample_expr() -> Expr {
    Expr::BinOp {
        left: Box::new(Expr::Num(NumLit::Decimal(Decimal { negative: false, whole: 12, frac: 0, frac_digits: 0 }))),
        op: Op::Mul,
        right: Box::new(Expr::Num(NumLit::HexUpper(0x1F))),
    }
}

#[test]
fn mutator_draws_from_depth_three() {
    let m = ExprMutator::new();
    assert_eq!(m.generator().max_depth(), 3);
}

#[test]
fn wrap_parens_surrounds_input() {
    let m = ExprMutator::new();
    let mut input = b"1+2".to_vec();
    assert_eq!(m.wrap_parens(&mut input), MutationOutcome::Mutated);
    assert_eq!(input, b"(1+2)".to_vec());
    let mut empty = Vec::new();
    assert_eq!(m.wrap_parens(&mut empty), MutationOutcome::Mutated);
    assert_eq!(empty, b"()".to_vec());
}

#[test]
fn add_negation_prefixes_minus() {
    let m = ExprMutator::new();
    let mut input = b"0x1F".to_vec();
    assert_eq!(m.add_negation(&mut input), MutationOutcome::Mutated);
    assert_eq!(input, b"-0x1F".to_vec());
}

#[test]
fn compose_skips_empty_input() {
    let m = ExprMutator::new();
    let mut rng = StdRand::with_seed(1);
    let mut input: Vec<u8> = Vec::new();
    assert_eq!(m.compose(&mut input, &mut rng), MutationOutcome::Skipped);
    assert!(input.is_empty());
}

#[test]
fn compose_keeps_existing_text_at_one_end() {
    let m = ExprMutator::new();
    let mut rng = StdRand::with_seed(42);
    for _ in 0..200 {
        let mut input = b"7".to_vec();
        assert_eq!(m.compose(&mut input, &mut rng), MutationOutcome::Mutated);
        assert!(input.len() >= 3);
        assert!(input.starts_with(b"7") || input.ends_with(b"7"));
    }
}

#[test]
fn compose_replaces_invalid_utf8() {
    let m = ExprMutator::new();
    let mut rng = StdRand::with_seed(9);
    let mut input = vec![0xffu8];
    assert_eq!(m.compose(&mut input, &mut rng), MutationOutcome::Mutated);
    let replacement = [0xefu8, 0xbf, 0xbd];
    assert!(input.starts_with(&replacement) || input.ends_with(&replacement));
    assert!(!input.contains(&0xff));
}

#[test]
fn compose_texts_orders_by_side() {
    assert_eq!(compose_texts(b"1".to_vec(), Op::Shl, b"2".to_vec(), true), b"1<<2".to_vec());
    assert_eq!(compose_texts(b"1".to_vec(), Op::Power, b"2".to_vec(), false), b"2**1".to_vec());
}

#[test]
fn mutation_roll_table() {
    assert_eq!(mutation_kind(0), MutationKind::Compose);
    assert_eq!(mutation_kind(59), MutationKind::Compose);
    assert_eq!(mutation_kind(60), MutationKind::WrapParens);
    assert_eq!(mutation_kind(79), MutationKind::WrapParens);
    assert_eq!(mutation_kind(80), MutationKind::Negate);
    assert_eq!(mutation_kind(99), MutationKind::Negate);
}

#[test]
fn long_input_is_regenerated() {
    let m = ExprMutator::new();
    let mut rng = StdRand::with_seed(77);
    for _ in 0..50 {
        let mut input = vec![b'1'; 101];
        assert_eq!(m.mutate(&mut input, &mut rng), MutationOutcome::Mutated);
        assert!(!input.is_empty());
        assert!(input.iter().all(|b| (0x21..=0x7e).contains(b)));
        assert_ne!(input, vec![b'1'; 101]);
    }
}

#[test]
fn short_input_stays_inside_the_mutation() {
    let m = ExprMutator::new();
    let mut rng = StdRand::with_seed(5);
    for _ in 0..200 {
        let mut input = b"1+2".to_vec();
        assert_eq!(m.mutate(&mut input, &mut rng), MutationOutcome::Mutated);
        let wrapped = input == b"(1+2)".to_vec();
        let negated = input == b"-1+2".to_vec();
        let composed = input.starts_with(b"1+2") || input.ends_with(b"1+2");
        assert!(wrapped || negated || composed);
    }
}

#[test]
fn mutations_of_expression_text_are_expression_text() {
    let m = ExprMutator::new();
    let e = sample_expr();
    let mut wrapped = e.render();
    m.wrap_parens(&mut wrapped);
    assert_eq!(wrapped, Expr::Paren(Box::new(e.clone())).render());
    let mut negated = e.render();
    m.add_negation(&mut negated);
    assert_eq!(negated, Expr::UnaryNeg(Box::new(e.clone())).render());
    let fresh = ExprGenerator::new(3).random_expr(&mut StdRand::with_seed(3), 0);
    let composed = compose_texts(fresh.render(), Op::BitXor, e.render(), true);
    let tree = Expr::BinOp { left: Box::new(fresh), op: Op::BitXor, right: Box::new(e) };
    assert_eq!(composed, tree.render());
}

#[test]
fn each_mutation_kind_does_its_mutation() {
    let m = ExprMutator::new();
    let mut rng = StdRand::with_seed(4);
    let mut wrapped = b"1".to_vec();
    assert_eq!(m.mutate_with(MutationKind::WrapParens, &mut wrapped, &mut rng), MutationOutcome::Mutated);
    assert_eq!(wrapped, b"(1)".to_vec());
    let mut negated = b"1".to_vec();
    assert_eq!(m.mutate_with(MutationKind::Negate, &mut negated, &mut rng), MutationOutcome::Mutated);
    assert_eq!(negated, b"-1".to_vec());
    let mut composed = b"1".to_vec();
    assert_eq!(m.mutate_with(MutationKind::Compose, &mut composed, &mut rng), MutationOutcome::Mutated);
    assert!(composed.len() > 2 && (composed.starts_with(b"1") || composed.ends_with(b"1")));
    let mut empty: Vec<u8> = Vec::new();
    assert_eq!(m.mutate_with(MutationKind::Compose, &mut empty, &mut rng), MutationOutcome::Skipped);
    assert!(empty.is_empty());
}
