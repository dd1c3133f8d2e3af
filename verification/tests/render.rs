use tc_calc_fuzzer::ast::{unsigned_abs, Decimal, Expr, NumLit, Op, ALL_OPS};
use tc_calc_fuzzer::generator::{cents_decimal, edge_case_value};

fn text(bytes: Vec<u8>) -> String {
    String::from_utf8(bytes).unwrap()
}

fn whole(whole: u128) -> NumLit {
    NumLit::Decimal(Decimal { negative: false, whole, frac: 0, frac_digits: 0 })
}

fn num(n: NumLit) -> Box<Expr> {
    Box::new(Expr::Num(n))
}

/// The written form of a binary64 value the way a decimal literal of the
/// calculator input writes it: integral values through a saturating
/// conversion to `i64`, others in shortest round-trip notation.
fn written_f64(v: f64) -> String {
    if v.is_finite() && v == (v as i64) as f64 {
        format!("{}", v as i64)
    } else if v.is_finite() {
        format!("{}", v)
    } else {
        "1".to_string()
    }
}

#[test]
fn operators_are_written_as_calculator_symbols() {
    let expected = ["+", "-", "*", "/", "%", "**", "|", "^", "&", "<<", ">>"];
    for (op, sym) in ALL_OPS.iter().zip(expected.iter()) {
        assert_eq!(text(op.render()), *sym);
    }
    assert_eq!(ALL_OPS.len(), 11);
    assert_eq!(ALL_OPS[5], Op::Power);
}

#[test]
fn radix_literals_write_their_magnitude() {
    assert_eq!(text(NumLit::Hex(255).render()), "0xFF");
    assert_eq!(text(NumLit::HexUpper(0xABCD).render()), "0XABCD");
    assert_eq!(text(NumLit::Hex(-255).render()), "0xFF");
    assert_eq!(text(NumLit::Hex(0).render()), "0x0");
    assert_eq!(text(NumLit::Binary(5).render()), "0b101");
    assert_eq!(text(NumLit::BinaryUpper(255).render()), "0B11111111");
    assert_eq!(text(NumLit::BinaryUpper(0).render()), "0B0");
    assert_eq!(text(NumLit::LeadingDot(42).render()), ".42");
    assert_eq!(text(NumLit::LeadingDot(7).render()), ".7");
    assert_eq!(text(NumLit::BareZero.render()), "0");
    assert_eq!(text(NumLit::Hex(i64::MIN).render()), "0x8000000000000000");
}

#[test]
fn unsigned_abs_matches_std() {
    for v in [0i64, 1, -1, 42, -42, i64::MAX, i64::MIN, i64::MIN + 1] {
        assert_eq!(unsigned_abs(v), v.unsigned_abs());
    }
}

#[test]
fn decimal_literals_are_written_with_sign_point_and_padding() {
    assert_eq!(text(whole(0).render()), "0");
    assert_eq!(text(whole(987).render()), "987");
    let neg = NumLit::Decimal(Decimal { negative: true, whole: 2147483649, frac: 0, frac_digits: 0 });
    assert_eq!(text(neg.render()), "-2147483649");
    let padded = NumLit::Decimal(Decimal { negative: false, whole: 3, frac: 7, frac_digits: 2 });
    assert_eq!(text(padded.render()), "3.07");
    let big = NumLit::Decimal(Decimal { negative: false, whole: 100000000000000000000, frac: 0, frac_digits: 0 });
    assert_eq!(text(big.render()), "100000000000000000000");
}

#[test]
fn expressions_are_written_without_spaces() {
    let e = Expr::BinOp {
        left: num(whole(1)),
        op: Op::Add,
        right: Box::new(Expr::Paren(Box::new(Expr::UnaryNeg(num(NumLit::Hex(16)))))),
    };
    assert_eq!(text(e.render()), "1+(-0x10)");
    let nested = Expr::BinOp {
        left: Box::new(e.clone()),
        op: Op::Shl,
        right: num(NumLit::BareZero),
    };
    assert_eq!(text(nested.render()), "1+(-0x10)<<0");
    assert_eq!(nested.clone(), nested);
}

#[test]
fn cents_literals_match_binary64_arithmetic() {
    for a in 0u64..100 {
        for b in 0u64..100 {
            let v = a as f64 + b as f64 / 100.0;
            let lit = NumLit::Decimal(cents_decimal(a, b));
            assert_eq!(text(lit.render()), written_f64(v), "a = {}, b = {}", a, b);
        }
    }
}

#[test]
fn cents_literal_with_rounding_digits() {
    assert_eq!(text(NumLit::Decimal(cents_decimal(1, 14)).render()), "1.1400000000000001");
    assert_eq!(text(NumLit::Decimal(cents_decimal(3, 50)).render()), "3.5");
    assert_eq!(text(NumLit::Decimal(cents_decimal(12, 0)).render()), "12");
}

#[test]
fn edge_case_values_match_binary64_literals() {
    let values: [f64; 18] = [
        0.0,
        i32::MAX as f64,
        i32::MIN as f64,
        (i32::MAX as f64) + 1.0,
        (i32::MIN as f64) - 1.0,
        i64::MAX as f64,
        i64::MIN as f64,
        64.0,
        65.0,
        63.0,
        128.0,
        1.0,
        2.0,
        1e18,
        1e19,
        1e20,
        0.1,
        f64::EPSILON,
    ];
    for (k, v) in values.iter().enumerate() {
        let lit = NumLit::Decimal(edge_case_value(k));
        assert_eq!(text(lit.render()), written_f64(*v), "edge case {}", k);
    }
    assert_eq!(edge_case_value(40), edge_case_value(17));
    assert_eq!(text(NumLit::Decimal(edge_case_value(5)).render()), "9223372036854775807");
}

#[test]
fn boundary_constants_match_binary64_literals() {
    assert_eq!(text(whole(10000000000000000000).render()), written_f64(9999999999999999999.0));
    assert_eq!(text(whole(9223372036854775807).render()), written_f64(i64::MAX as f64));
    assert_eq!(text(whole(2147483648).render()), written_f64(2147483648.0));
}
