use iris_devices::exp::{
    eval_const_expr, parse_and_eval, parse_and_fold, parse_reg_target, read_reg_target,
    write_reg_target, BinaryOp, Expr, RegTarget, UnaryOp,
};
use iris_devices::mips::{MipsCore, SymbolTable};

fn err(s: &str) -> Result<u64, String> {
    Err(s.to_string())
}

#[test]
fn const_expressions_from_the_docs() {
    assert_eq!(eval_const_expr("0xC00"), Ok(0xC00));
    assert_eq!(eval_const_expr("1<<10"), Ok(1024));
}

#[test]
fn precedence_and_associativity() {
    assert_eq!(eval_const_expr("2+3*4"), Ok(14));
    assert_eq!(eval_const_expr("(2+3)*4"), Ok(20));
    assert_eq!(eval_const_expr("10 - 3 - 2"), Ok(5));
    assert_eq!(eval_const_expr("1 | 2 & 3"), Ok(3));
    assert_eq!(eval_const_expr("1 + 1 == 2 && 3 > 2"), Ok(1));
    assert_eq!(eval_const_expr("0 || 0"), Ok(0));
    assert_eq!(eval_const_expr("7 % 4 ^ 1"), Ok(2));
    assert_eq!(eval_const_expr("256 >> 4 <= 16"), Ok(1));
    assert_eq!(eval_const_expr("3 != 3"), Ok(0));
}

#[test]
fn literal_forms() {
    // A hex literal of at most 8 digits with bit 31 set is sign-extended.
    assert_eq!(eval_const_expr("0x80000000"), Ok(0xFFFF_FFFF_8000_0000));
    // More digits mean an explicit width.
    assert_eq!(eval_const_expr("0x080000000"), Ok(0x8000_0000));
    assert_eq!(eval_const_expr("0XFF"), Ok(0xFF));
    assert_eq!(eval_const_expr("010"), Ok(8));
    assert_eq!(eval_const_expr("2147483648"), Ok(0xFFFF_FFFF_8000_0000));
    assert_eq!(eval_const_expr("4294967296"), Ok(0x1_0000_0000));
}

#[test]
fn unary_operators() {
    assert_eq!(eval_const_expr("-1"), Ok(u64::MAX));
    assert_eq!(eval_const_expr("!0"), Ok(1));
    assert_eq!(eval_const_expr("!5"), Ok(0));
    assert_eq!(eval_const_expr("~0"), Ok(u64::MAX));
    assert_eq!(eval_const_expr("--3"), Ok(3));
}

#[test]
fn parse_errors() {
    assert_eq!(eval_const_expr(""), err("Unexpected end of expression"));
    assert_eq!(eval_const_expr("1 +"), err("Unexpected end of expression"));
    assert_eq!(eval_const_expr("(1"), err("Expected ')'"));
    assert_eq!(eval_const_expr("*3"), err("Unexpected operator: *"));
    assert_eq!(eval_const_expr(")"), err("Unexpected token: RParen"));
    assert_eq!(eval_const_expr("0x"), err("Invalid number: 0x"));
    assert_eq!(eval_const_expr("09"), err("Invalid number: 09"));
    assert_eq!(eval_const_expr("99999999999999999999"), err("Invalid number: 99999999999999999999"));
}

#[test]
fn unfoldable_constants_are_reported() {
    assert_eq!(eval_const_expr("1/0"), err("Expression '1/0' could not be reduced to a constant"));
    assert_eq!(eval_const_expr("sp + 4"), err("Expression 'sp + 4' could not be reduced to a constant"));
    assert_eq!(eval_const_expr("foo"), err("Expression 'foo' could not be reduced to a constant"));
}

#[test]
fn registers_in_expressions() {
    let mut core = MipsCore::new();
    core.write_gpr(4, 7);
    core.pc = 0xBFC0_0000;
    assert_eq!(parse_and_eval("a0 + 1", &core, None), Ok(8));
    assert_eq!(parse_and_eval("$a0 * 2", &core, None), Ok(14));
    assert_eq!(parse_and_eval("pc", &core, None), Ok(0xBFC0_0000));
    assert_eq!(parse_and_eval("zero", &core, None), Ok(0));
    assert_eq!(parse_and_eval("a0 / 0", &core, None), err("Division by zero"));
    assert_eq!(parse_and_eval("a0 % 0", &core, None), err("Division by zero"));
}

#[test]
fn symbols_in_expressions() {
    let core = MipsCore::new();
    let mut syms = SymbolTable::new();
    syms.add("main".to_string(), 0x8000_1000);
    syms.add("table".to_string(), 0x1000);
    syms.add("main".to_string(), 0x42);
    // Kernel addresses are sign-extended; the first entry of a name wins.
    assert_eq!(parse_and_eval("main", &core, Some(&syms)), Ok(0xFFFF_FFFF_8000_1000));
    assert_eq!(parse_and_eval("table + 8", &core, Some(&syms)), Ok(0x1008));
    assert_eq!(parse_and_eval("missing", &core, Some(&syms)), err("Symbol not found: missing"));
    assert_eq!(
        parse_and_eval("missing", &core, None),
        err("No symbol table available to resolve: missing")
    );
}

#[test]
fn folding_keeps_registers_and_unknown_symbols() {
    let mut syms = SymbolTable::new();
    syms.add("base".to_string(), 0x100);
    match parse_and_fold("base + 2 * 3", Some(&syms)) {
        Ok(Expr::Literal(v)) => assert_eq!(v, 0x106),
        other => panic!("unexpected {:?}", other),
    }
    match parse_and_fold("sp + (1 + 2)", None) {
        Ok(Expr::Binary(BinaryOp::Add, l, r)) => {
            assert!(matches!(*l, Expr::Register(RegTarget::Gpr(29))));
            assert!(matches!(*r, Expr::Literal(3)));
        }
        other => panic!("unexpected {:?}", other),
    }
    match parse_and_fold("-x", None) {
        Ok(Expr::Unary(UnaryOp::Neg, e)) => match *e {
            Expr::Symbol(s) => assert_eq!(s, "x"),
            other => panic!("unexpected {:?}", other),
        },
        other => panic!("unexpected {:?}", other),
    }
}

#[test]
fn fold_then_eval_agrees_with_eval() {
    let mut core = MipsCore::new();
    core.write_gpr(8, 3);
    let e = Expr::parse("(t0 + 2) * (4 - 1)").unwrap();
    let direct = e.eval(&core, None);
    let folded = Expr::parse("(t0 + 2) * (4 - 1)").unwrap().fold(None);
    assert_eq!(folded.eval(&core, None), direct);
    assert_eq!(direct, Ok(15));
}

#[test]
fn register_names() {
    assert_eq!(parse_reg_target("pc"), Some(RegTarget::Pc));
    assert_eq!(parse_reg_target("hi"), Some(RegTarget::Hi));
    assert_eq!(parse_reg_target("lo"), Some(RegTarget::Lo));
    assert_eq!(parse_reg_target("$t0"), Some(RegTarget::Gpr(8)));
    assert_eq!(parse_reg_target("ra"), Some(RegTarget::Gpr(31)));
    assert_eq!(parse_reg_target("r31"), Some(RegTarget::Gpr(31)));
    assert_eq!(parse_reg_target("$5"), Some(RegTarget::Gpr(5)));
    assert_eq!(parse_reg_target("r32"), None);
    assert_eq!(parse_reg_target("c0_12"), Some(RegTarget::Cp0(12)));
    assert_eq!(parse_reg_target("c0_status"), Some(RegTarget::Cp0(12)));
    assert_eq!(parse_reg_target("c0_EPC"), Some(RegTarget::Cp0(14)));
    assert_eq!(parse_reg_target("c0_nothing"), None);
    assert_eq!(parse_reg_target("f3"), Some(RegTarget::Fpr(3)));
    assert_eq!(parse_reg_target("f32"), None);
    assert_eq!(parse_reg_target("xyz"), None);
    // Numbers are read as `str::parse` reads them: a leading '+' is allowed.
    assert_eq!(parse_reg_target("c0_+5"), Some(RegTarget::Cp0(5)));
    assert_eq!(parse_reg_target("c0_"), None);
}

#[test]
fn register_read_write_round_trip() {
    let mut core = MipsCore::new();
    write_reg_target(&RegTarget::Gpr(9), &mut core, 0x1234);
    assert_eq!(read_reg_target(&RegTarget::Gpr(9), &core), 0x1234);
    write_reg_target(&RegTarget::Gpr(0), &mut core, 0x1234);
    assert_eq!(read_reg_target(&RegTarget::Gpr(0), &core), 0);
    write_reg_target(&RegTarget::Fpr(2), &mut core, 7);
    assert_eq!(read_reg_target(&RegTarget::Fpr(2), &core), 7);
    write_reg_target(&RegTarget::Hi, &mut core, 5);
    assert_eq!(read_reg_target(&RegTarget::Hi, &core), 5);
    // Status is a 32-bit register.
    write_reg_target(&RegTarget::Cp0(12), &mut core, 0x1_2345_6789);
    assert_eq!(read_reg_target(&RegTarget::Cp0(12), &core), 0x2345_6789);
    write_reg_target(&RegTarget::Cp0(14), &mut core, 0x1_2345_6789);
    assert_eq!(read_reg_target(&RegTarget::Cp0(14), &core), 0x1_2345_6789);
}

#[test]
fn folding_twice_is_folding_once() {
    let mut syms = SymbolTable::new();
    syms.add("base".to_string(), 0x8000_1000);
    for text in ["base + 2 * 3 + t0", "(1 + 2) * sp / (4 - 4)", "~(3 << 2) == 0xfffffffffffffff3", "-x + 1"] {
        let once = Expr::parse(text).unwrap().fold(Some(&syms));
        let twice = once.clone().fold(Some(&syms));
        assert_eq!(format!("{:?}", twice), format!("{:?}", once));
    }
}

#[test]
fn closed_expressions_fold_to_their_value() {
    let e = Expr::parse("(7 * 6) - (10 % 4)").unwrap();
    assert!(matches!(e.fold(None), Expr::Literal(40)));
    let z = Expr::parse("1 / (2 - 2)").unwrap();
    assert!(!matches!(z.fold(None), Expr::Literal(_)));
}

#[test]
fn clone_copies_every_node() {
    let e = Expr::parse("(a + 3) * ~t0").unwrap();
    assert_eq!(format!("{:?}", e.clone()), format!("{:?}", e));
}
