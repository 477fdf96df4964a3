use antelope::Symbol;
use antelope::SymbolCode;

fn code(s: &str) -> SymbolCode {
    SymbolCode::parse(s).unwrap()
}

fn sym(s: &str) -> Symbol {
    Symbol::parse(s).unwrap()
}

#[test]
fn symbol_test_cdt_1() {
    assert_eq!(0, Symbol::new().raw());
}

#[test]
fn symbol_test_cdt_2() {
    assert_eq!(0, Symbol::from(0).raw());
    assert_eq!(1, Symbol::from(1).raw());
    assert_eq!(u64::MAX, Symbol::from(u64::MAX).raw());

    assert_eq!(0 as u64, Symbol::from(0).into());
}

#[test]
fn symbol_test_cdt_3() {
    let sc0 = code("A");
    let sc1 = code("Z");
    let sc2 = code("AAAAAAA");
    let sc3 = code("ZZZZZZZ");

    assert_eq!(16640, Symbol::from_precision(sc0, 0).raw());
    assert_eq!(23040, Symbol::from_precision(sc1, 0).raw());
    assert_eq!(4702111234474983680, Symbol::from_precision(sc2, 0).raw());
    assert_eq!(6510615555426900480, Symbol::from_precision(sc3, 0).raw());

    assert_eq!(16640, Symbol::from_precision(sc0, 0).raw());
    assert_eq!(23040, Symbol::from_precision(sc1, 0).raw());
    assert_eq!(4702111234474983680, Symbol::from_precision(sc2, 0).raw());
    assert_eq!(6510615555426900480, Symbol::from_precision(sc3, 0).raw());
}

#[test]
fn symbol_test_cdt_4() {
    assert_eq!(true, Symbol::from(16640).is_valid());
    assert_eq!(true, Symbol::from(23040).is_valid());
    assert_eq!(true, Symbol::from(4702111234474983680).is_valid());
    assert_eq!(true, Symbol::from(6510615555426900480).is_valid());

    assert_eq!(false, Symbol::from(16639).is_valid());
    assert_eq!(false, Symbol::from(6510615555426900736).is_valid());
}

#[test]
fn symbol_test_cdt_5() {
    let sc0 = code("A");
    let sc1 = code("Z");
    let sc2 = code("AAAAAAA");
    let sc3 = code("ZZZZZZZ");

    assert_eq!(0, Symbol::from_precision(sc0, 0).precision());
    assert_eq!(0, Symbol::from_precision(sc1, 0).precision());
    assert_eq!(0, Symbol::from_precision(sc2, 0).precision());
    assert_eq!(0, Symbol::from_precision(sc3, 0).precision());

    assert_eq!(255, Symbol::from_precision(sc0, 255).precision());
    assert_eq!(255, Symbol::from_precision(sc1, 255).precision());
    assert_eq!(255, Symbol::from_precision(sc2, 255).precision());
    assert_eq!(255, Symbol::from_precision(sc3, 255).precision());
}

#[test]
fn symbol_test_cdt_6() {
    let sc0 = code("A");
    let sc1 = code("Z");
    let sc2 = code("AAAAAAA");
    let sc3 = code("ZZZZZZZ");

    assert_eq!(sc0, Symbol::from_precision(sc0, 0).code());
    assert_eq!(sc1, Symbol::from_precision(sc1, 0).code());
    assert_eq!(sc2, Symbol::from_precision(sc2, 0).code());
    assert_eq!(sc3, Symbol::from_precision(sc3, 0).code());
}

#[test]
fn symbol_test_cdt_7() {
    assert_eq!(false, Symbol::from(0).into());
    assert_eq!(true, Symbol::from(1).into());
    assert_eq!(true, !Symbol::from(0));
    assert_eq!(false, !Symbol::from(1));

    assert_eq!(false, Symbol::from_precision(code(""), 0).into());
    assert_eq!(true, Symbol::from_precision(code("SYMBOLL"), 0).into());
    assert_eq!(true, !Symbol::from_precision(code(""), 0));
    assert_eq!(false, !Symbol::from_precision(code("SYMBOLL"), 0));
}

#[test]
fn symbol_test_cdt_8() {
    let sc0 = code("A");
    let sc1 = code("Z");
    let sc2 = code("AAAAAAA");
    let sc3 = code("ZZZZZZZ");

    assert_eq!(true, Symbol::from_precision(sc0, 0) == Symbol::from_precision(sc0, 0));
    assert_eq!(true, Symbol::from_precision(sc1, 0) == Symbol::from_precision(sc1, 0));
    assert_eq!(true, Symbol::from_precision(sc2, 0) == Symbol::from_precision(sc2, 0));
    assert_eq!(true, Symbol::from_precision(sc3, 0) == Symbol::from_precision(sc3, 0));

    assert_eq!(true, Symbol::from_precision(sc0, 0) != Symbol::new());
    assert_eq!(true, Symbol::from_precision(sc1, 0) != Symbol::new());
    assert_eq!(true, Symbol::from_precision(sc2, 0) != Symbol::new());
    assert_eq!(true, Symbol::from_precision(sc3, 0) != Symbol::new());

    assert_eq!(true, Symbol::new() < Symbol::from_precision(sc0, 0));
    assert_eq!(true, Symbol::new() < Symbol::from_precision(sc1, 0));
    assert_eq!(true, Symbol::new() < Symbol::from_precision(sc2, 0));
    assert_eq!(true, Symbol::new() < Symbol::from_precision(sc3, 0));
}

#[test]
fn symbol_test_from_str() {
    assert_eq!(sym("10,SYM"), Symbol::from_precision(code("SYM"), 10));
    // the empty symbol code is permitted here
    assert_eq!(sym("0,"), Symbol::from_precision(code(""), 0));
    assert_eq!(sym("5,SYM").to_string(), "5,SYM");
    assert_eq!(sym("50,SYM").to_string(), "50,SYM");
    assert_eq!(sym("5,SYM").precision(), 5);
    assert_eq!(sym("5,SYM").code(), code("SYM"));
}

#[test]
fn symbol_test_from_self() {
    let sym = sym("4,ABCDEFG");
    assert_eq!(Symbol::from(sym), sym);
}

#[test]
fn symbol_parse_rejects_bad_input() {
    assert!(Symbol::parse("10,a").is_err());
    assert!(Symbol::parse("1000,SYM").is_err());
    assert!(Symbol::parse("10SYM").is_err());
    assert!(Symbol::parse("4,FOO,BAR").is_err());
    assert!(SymbolCode::parse("SYM,10").is_err());
}
