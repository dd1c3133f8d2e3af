use libafl_bolts::rands::StdRand;
use tc_calc_fuzzer::ast::{Expr, NumLit};
use tc_calc_fuzzer::generator::{
    deep_parens, expr_kind, lit_kind, literal_of_draws, op_of_draw, ExprGenerator, ExprKind, LitKind,
};
use tc_calc_fuzzer::ast::Op;
use tc_calc_fuzzer::harness::harness_text;
use tc_calc_fuzzer::rng::rand_below;

fn height(e: &Expr) -> usize {
    match e {
        Expr::Num(_) => 0,
        Expr::UnaryNeg(x) | Expr::Paren(x) => 1 + height(x),
        Expr::BinOp { left, right, .. } => 1 + height(left).max(height(right)),
    }
}

fn literals(e: &Expr, out: &mut Vec<NumLit>) {
    match e {
        Expr::Num(n) => out.push(*n),
        Expr::UnaryNeg(x) | Expr::Paren(x) => literals(x, out),
        Expr::BinOp { left, right, .. } => {
            literals(left, out);
            literals(right, out);
        }
    }
}

#[test]
fn rand_below_stays_under_its_bound() {
    let mut rng = StdRand::with_seed(7);
    assert_eq!(rand_below(&mut rng, 0), 0);
    assert_eq!(rand_below(&mut rng, 1), 0);
    for upper in [2usize, 3, 11, 26, 100, 1000, 0xFFFF] {
        for _ in 0..200 {
            assert!(rand_below(&mut rng, upper) < upper);
        }
    }
}

#[test]
fn roll_tables_split_as_documented() {
    assert_eq!(expr_kind(0), ExprKind::Literal);
    assert_eq!(expr_kind(34), ExprKind::Literal);
    assert_eq!(expr_kind(35), ExprKind::Binary);
    assert_eq!(expr_kind(70), ExprKind::Parenthesized);
    assert_eq!(expr_kind(82), ExprKind::Negated);
    assert_eq!(expr_kind(95), ExprKind::Dangerous);
    assert_eq!(lit_kind(19), LitKind::WholeDecimal);
    assert_eq!(lit_kind(20), LitKind::CentsDecimal);
    assert_eq!(lit_kind(35), LitKind::Hex);
    assert_eq!(lit_kind(45), LitKind::HexUpper);
    assert_eq!(lit_kind(55), LitKind::Binary);
    assert_eq!(lit_kind(65), LitKind::BinaryUpper);
    assert_eq!(lit_kind(75), LitKind::LeadingDot);
    assert_eq!(lit_kind(85), LitKind::BareZero);
    assert_eq!(lit_kind(99), LitKind::EdgeCase);
}

#[test]
fn generator_keeps_its_depth_limit() {
    let g = ExprGenerator::new(5);
    assert_eq!(g.max_depth(), 5);
}

#[test]
fn depth_limit_zero_gives_literals() {
    let g = ExprGenerator::new(0);
    let mut rng = StdRand::with_seed(3);
    for _ in 0..200 {
        assert!(matches!(g.random_expr(&mut rng, 0), Expr::Num(_)));
    }
}

#[test]
fn generated_expressions_respect_height_bound() {
    let g = ExprGenerator::new(5);
    let mut rng = StdRand::with_seed(1337);
    for _ in 0..500 {
        let e = g.random_expr(&mut rng, 0);
        assert!(height(&e) <= 5 + 24);
        let e = g.random_expr(&mut rng, 3);
        assert!(height(&e) <= 2 + 24);
    }
}

#[test]
fn generated_literals_stay_in_their_ranges() {
    let g = ExprGenerator::new(5);
    let mut rng = StdRand::with_seed(99);
    for _ in 0..500 {
        let mut lits = Vec::new();
        literals(&g.random_expr(&mut rng, 0), &mut lits);
        for n in lits {
            match n {
                NumLit::Hex(v) | NumLit::HexUpper(v) => assert!((0..0xFFFF).contains(&v)),
                NumLit::Binary(v) | NumLit::BinaryUpper(v) => assert!((0..256).contains(&v)),
                NumLit::LeadingDot(f) => assert!(f < 1000),
                _ => {}
            }
        }
    }
}

#[test]
fn generated_entries_pass_the_harness_unchanged() {
    let g = ExprGenerator::new(5);
    let mut rng = StdRand::with_seed(2024);
    for _ in 0..500 {
        let bytes = g.generate(&mut rng);
        assert!(!bytes.is_empty());
        assert!(bytes.iter().all(|b| (0x21..=0x7e).contains(b)));
        assert_eq!(harness_text(&bytes), Some(bytes.clone()));
    }
}

#[test]
fn boundary_expressions_have_bounded_height() {
    let g = ExprGenerator::new(5);
    let mut rng = StdRand::with_seed(5);
    for choice in 0..26 {
        for _ in 0..20 {
            let e = g.dangerous_expr_of(choice, &mut rng);
            assert!(height(&e) <= 24, "choice {}", choice);
        }
    }
    for _ in 0..50 {
        let e = g.dangerous_expr_of(15, &mut rng);
        let h = height(&e);
        assert!((5..25).contains(&h));
    }
}

#[test]
fn boundary_shapes_are_written_as_expected() {
    let g = ExprGenerator::new(5);
    let mut rng = StdRand::with_seed(11);
    let zero_power = g.dangerous_expr_of(20, &mut rng);
    assert_eq!(String::from_utf8(zero_power.render()).unwrap(), "0**0");
    let huge = String::from_utf8(g.dangerous_expr_of(7, &mut rng).render()).unwrap();
    assert!(huge.starts_with("10000000000000000000|"));
    let modulo = String::from_utf8(g.dangerous_expr_of(19, &mut rng).render()).unwrap();
    assert!(modulo.starts_with("9223372036854775807%"));
    let bare = String::from_utf8(g.dangerous_expr_of(25, &mut rng).render()).unwrap();
    assert!(bare.starts_with("0+"));
    let double_neg = String::from_utf8(g.dangerous_expr_of(22, &mut rng).render()).unwrap();
    assert!(double_neg.starts_with("--"));
}

#[test]
fn edge_case_numbers_are_decimals() {
    let g = ExprGenerator::new(5);
    let mut rng = StdRand::with_seed(8);
    for _ in 0..100 {
        assert!(matches!(g.edge_case_number(&mut rng), NumLit::Decimal(_)));
    }
}

fn written(e: &Expr) -> String {
    String::from_utf8(e.render()).unwrap()
}

#[test]
fn literals_are_built_from_their_draws() {
    let cases: [(LitKind, usize, usize, &str); 10] = [
        (LitKind::WholeDecimal, 7, 0, "7"),
        (LitKind::CentsDecimal, 2, 50, "2.5"),
        (LitKind::Hex, 255, 0, "0xFF"),
        (LitKind::HexUpper, 255, 0, "0XFF"),
        (LitKind::Binary, 3, 0, "0b11"),
        (LitKind::BinaryUpper, 3, 0, "0B11"),
        (LitKind::LeadingDot, 42, 0, ".42"),
        (LitKind::BareZero, 0, 0, "0"),
        (LitKind::EdgeCase, 1, 0, "2147483647"),
        (LitKind::EdgeCase, 17, 0, "0.0000000000000002220446049250313"),
    ];
    for (kind, first, second, text) in cases {
        let lit = literal_of_draws(kind, first, second);
        assert_eq!(String::from_utf8(lit.render()).unwrap(), text);
    }
}

#[test]
fn operator_draws_follow_all_ops() {
    assert_eq!(op_of_draw(0), Op::Add);
    assert_eq!(op_of_draw(2), Op::Mul);
    assert_eq!(op_of_draw(9), Op::Shl);
    assert_eq!(op_of_draw(10), Op::Shr);
}

#[test]
fn deep_nesting_is_the_depth_draw_plus_five() {
    let seven = Expr::Num(literal_of_draws(LitKind::WholeDecimal, 7, 0));
    assert_eq!(written(&deep_parens(0, seven.clone())), "(((((7)))))");
    let e = deep_parens(19, seven);
    assert_eq!(height(&e), 24);
}

#[test]
fn each_shape_builds_its_node() {
    let g = ExprGenerator::new(2);
    let mut rng = StdRand::with_seed(21);
    for _ in 0..50 {
        assert!(matches!(g.random_expr_of(ExprKind::Literal, &mut rng, 0), Expr::Num(_)));
        assert!(matches!(g.random_expr_of(ExprKind::Binary, &mut rng, 0), Expr::BinOp { .. }));
        assert!(matches!(g.random_expr_of(ExprKind::Parenthesized, &mut rng, 0), Expr::Paren(_)));
        assert!(matches!(g.random_expr_of(ExprKind::Negated, &mut rng, 1), Expr::UnaryNeg(_)));
        assert!(!matches!(g.random_expr_of(ExprKind::Dangerous, &mut rng, 1), Expr::Num(_)));
    }
}

#[test]
fn generated_text_uses_the_calculator_alphabet_with_balanced_parentheses() {
    let g = ExprGenerator::new(5);
    let mut rng = StdRand::with_seed(31);
    for _ in 0..300 {
        let bytes = g.generate(&mut rng);
        let mut depth: i64 = 0;
        for b in &bytes {
            assert!(b"0123456789ABCDEFxXbB.+-*/%|^&<>()".contains(b));
            if *b == b'(' {
                depth += 1;
            }
            if *b == b')' {
                depth -= 1;
            }
            assert!(depth >= 0);
        }
        assert_eq!(depth, 0);
    }
}

#[test]
fn radix_literals_read_back_as_their_magnitude() {
    for v in [0i64, 1, 255, 0xFFFE, -300] {
        let hex = String::from_utf8(NumLit::Hex(v).render()).unwrap();
        assert_eq!(u64::from_str_radix(&hex[2..], 16).unwrap(), v.unsigned_abs());
        let bin = String::from_utf8(NumLit::BinaryUpper(v).render()).unwrap();
        assert_eq!(u64::from_str_radix(&bin[2..], 2).unwrap(), v.unsigned_abs());
    }
}
