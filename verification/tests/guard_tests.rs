//! The overflow and symbol-mismatch guards of the asset engine, the error
//! kinds of the parsers, and the end-to-end scenario.

use antelope::Asset;
use antelope::AssetError;
use antelope::ExtendedAsset;
use antelope::ExtendedSymbol;
use antelope::Name;
use antelope::ParseError;
use antelope::Symbol;
use antelope::SymbolCode;

fn sym(s: &str) -> Symbol {
    Symbol::parse(s).unwrap()
}

#[test]
fn addition_overflow_is_refused() {
    let a = Asset::from_amount(Asset::MAX_AMOUNT, sym("4,SYM"));
    let b = Asset::from_amount(1, sym("4,SYM"));
    assert_eq!(a.checked_add(b), Err(AssetError::Overflow));

    let c = Asset::from_amount(-Asset::MAX_AMOUNT, sym("4,SYM"));
    assert_eq!(c.checked_sub(b), Err(AssetError::Underflow));
}

#[test]
fn multiplication_overflow_is_refused() {
    let a = Asset::from_amount(Asset::MAX_AMOUNT, sym("4,SYM"));
    assert_eq!(a.checked_mul(2), Err(AssetError::Overflow));
    assert_eq!(a.checked_mul(-2), Err(AssetError::Underflow));
}

#[test]
fn division_edge_cases_are_refused() {
    let a = Asset::from_amount(100, sym("4,SYM"));
    assert_eq!(a.checked_div(0), Err(AssetError::DivideByZero));

    let m = Asset::from_amount(i64::MIN, sym("4,SYM"));
    assert_eq!(m.checked_div(-1), Err(AssetError::SignedDivisionOverflow));

    let z = Asset::from_amount(0, sym("4,SYM"));
    assert_eq!(a.checked_div_by(z), Err(AssetError::DivideByZero));
}

#[test]
fn symbol_mismatch_is_refused_everywhere() {
    let a = Asset::from_amount(100, sym("4,SYM"));
    let precision_differs = Asset::from_amount(100, sym("5,SYM"));
    let code_differs = Asset::from_amount(100, sym("4,TST"));

    for b in [precision_differs, code_differs] {
        assert_eq!(a.checked_add(b), Err(AssetError::DifferentSymbols));
        assert_eq!(a.checked_sub(b), Err(AssetError::DifferentSymbols));
        assert_eq!(a.checked_div_by(b), Err(AssetError::DifferentSymbols));
        assert_eq!(a.checked_cmp(b), Err(AssetError::DifferentSymbols));
    }
}

#[test]
fn contract_mismatch_is_refused_everywhere() {
    let one = ExtendedSymbol::from_extended(sym("4,SYM"), Name::parse("contract1").unwrap());
    let two = ExtendedSymbol::from_extended(sym("4,SYM"), Name::parse("contract2").unwrap());
    let a = ExtendedAsset::from_amount(100, one);
    let b = ExtendedAsset::from_amount(200, two);

    assert_eq!(a.checked_add(b), Err(AssetError::DifferentContracts));
    assert_eq!(a.checked_sub(b), Err(AssetError::DifferentContracts));
    assert_eq!(a.checked_div_by(b), Err(AssetError::DifferentContracts));
    assert_eq!(a.checked_cmp(b), Err(AssetError::DifferentContracts));
}

#[test]
fn checked_operations_compute_the_usual_values() {
    let a = Asset::from_amount(1000, sym("4,SYS"));
    let b = Asset::from_amount(234, sym("4,SYS"));
    assert_eq!(a.checked_add(b).unwrap().amount, 1234);
    assert_eq!(a.checked_sub(b).unwrap().amount, 766);
    assert_eq!(a.checked_mul(-3).unwrap().amount, -3000);
    assert_eq!(a.checked_div(-3).unwrap().amount, -333);
    assert_eq!(a.checked_div_by(b).unwrap(), 4);
    assert_eq!(a.checked_cmp(b).unwrap(), std::cmp::Ordering::Greater);
}

#[test]
fn parse_errors_name_their_kind() {
    assert_eq!(Symbol::parse("10SYM"), Err(ParseError::BadFormat));
    assert_eq!(Symbol::parse("1000,SYM"), Err(ParseError::BadPrecision("1000".to_string())));
    assert_eq!(Symbol::parse("4,foo"), Err(ParseError::BadSymbolCode("foo".to_string())));
    assert_eq!(SymbolCode::parse("ABCDEFGH"), Err(ParseError::BadSymbolCode("ABCDEFGH".to_string())));
    assert_eq!(Name::parse("0"), Err(ParseError::BadName("0".to_string())));
    assert_eq!(Asset::parse("1.0000"), Err(ParseError::BadAsset("1.0000".to_string())));
    assert_eq!(Asset::parse("x SYM"), Err(ParseError::BadAmount("x".to_string())));
    assert_eq!(ExtendedSymbol::from_str("4,SYM"), Err(ParseError::BadFormat));
    assert_eq!(
        ExtendedSymbol::from_str("4,SYM@BAD"),
        Err(ParseError::BadName("BAD".to_string()))
    );
    assert_eq!(
        ExtendedSymbol::from_str("x,SYM@good"),
        Err(ParseError::BadSymbol("x,SYM".to_string()))
    );
    assert_eq!(ExtendedAsset::parse("1.0000SYM"), Err(ParseError::BadFormat));
}

#[test]
fn error_messages_carry_the_fragment() {
    assert_eq!(ParseError::BadFormat.message(), "bad format");
    assert_eq!(ParseError::BadPrecision("1000".to_string()).message(), "bad precision: 1000");
    assert_eq!(ParseError::BadSymbolCode("foo".to_string()).message(), "bad symbol code: foo");
    assert_eq!(ParseError::BadSymbol("x".to_string()).message(), "bad symbol: x");
    assert_eq!(ParseError::BadName("0".to_string()).message(), "bad name: 0");
    assert_eq!(ParseError::BadAsset("1".to_string()).message(), "bad asset: 1");
    assert_eq!(ParseError::BadAmount("y".to_string()).message(), "bad amount: y");
}

#[test]
fn end_to_end_scenario() {
    let parsed = Asset::parse("1.0000 SYM").unwrap();
    assert_eq!(parsed.amount, 10000);
    assert_eq!(parsed.symbol.precision(), 4);

    let negated = -parsed;
    assert_eq!(negated.amount, -10000);
    assert_eq!(negated.to_string(), "-1.0000 SYM");

    let divisor = Asset::from_amount(5000, sym("4,SYM"));
    assert_eq!(negated.checked_div_by(divisor).unwrap(), -2);
}

#[test]
fn amount_token_quirks() {
    // every dot is stripped; the precision counts from the first one
    let quirky = Asset::parse("1.2.3 SYM").unwrap();
    assert_eq!(quirky.amount, 123);
    assert_eq!(quirky.symbol.precision(), 3);

    // a leading plus sign is accepted, as the integer parser of std does
    let plus = Asset::parse("+42 SYM").unwrap();
    assert_eq!(plus.amount, 42);
    assert_eq!(plus.symbol.precision(), 0);

    assert!(Asset::parse("- 5 SYM").is_err());
    assert!(Asset::parse(". SYM").is_err());
}

#[test]
fn set_amount_and_validity() {
    let mut a = Asset::from_amount(1, sym("4,SYM"));
    a.set_amount(777);
    assert_eq!(a.amount, 777);
    assert_eq!(a.symbol, sym("4,SYM"));
    assert!(a.is_amount_within_range());
    assert!(a.is_valid());
    assert!(!Asset::from_amount(0, Symbol::from(16639u64)).is_valid());
    assert_eq!(antelope::write_decimal(123, 4, true), "");
}
