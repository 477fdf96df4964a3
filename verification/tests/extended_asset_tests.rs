use antelope::Asset;
use antelope::ExtendedAsset;
use antelope::ExtendedSymbol;
use antelope::Name;
use antelope::Symbol;

fn name(s: &str) -> Name {
    Name::parse(s).unwrap()
}

fn sym(s: &str) -> Symbol {
    Symbol::parse(s).unwrap()
}

fn ext_sym(s: &str) -> ExtendedSymbol {
    ExtendedSymbol::from_str(s).unwrap()
}

#[test]
fn test_new_extended_asset() {
    let asset = ExtendedAsset::new();
    assert_eq!(asset.quantity, Asset::new());
    assert_eq!(asset.contract, Name::new());
}

#[test]
fn test_from_asset() {
    let quantity = Asset::from_amount(1234567, sym("4,SYM"));
    let contract = name("contract");
    let asset = ExtendedAsset::from_asset(quantity, contract);
    assert_eq!(asset.quantity, quantity);
    assert_eq!(asset.contract, contract);
}

#[test]
fn test_from_amount() {
    let extended_symbol = ExtendedSymbol::from_extended(sym("4,SYM"), name("contract"));
    let asset = ExtendedAsset::from_amount(1234567, extended_symbol);
    assert_eq!(asset.quantity, Asset::from_amount(1234567, extended_symbol.get_symbol()));
    assert_eq!(asset.contract, extended_symbol.get_contract());
    assert_eq!(asset.quantity.amount, 1234567);
}

#[test]
fn test_get_extended_symbol() {
    let extended_symbol = ExtendedSymbol::from_extended(sym("4,SYM"), name("contract"));
    let asset = ExtendedAsset::from_amount(1234567, extended_symbol);
    assert_eq!(asset.get_extended_symbol(), extended_symbol);
}

#[test]
fn extended_asset_test_ord() {
    let a = ExtendedAsset::from_amount(100, ExtendedSymbol::from_extended(sym("4,SYM"), name("contract")));
    let b = ExtendedAsset::from_amount(200, ExtendedSymbol::from_extended(sym("4,SYM"), name("contract")));
    let c = ExtendedAsset::from_amount(200, ExtendedSymbol::from_extended(sym("4,SYM"), name("contract")));

    assert!(a < b);
    assert!(b > a);
    assert!(b == c);
    assert!(b != a);
}

#[test]
fn extended_asset_test_partial_ord() {
    let a = ExtendedAsset::from_amount(100, ExtendedSymbol::from_extended(sym("4,SYM"), name("contract")));
    let b = ExtendedAsset::from_amount(200, ExtendedSymbol::from_extended(sym("4,SYM"), name("contract")));
    let c = ExtendedAsset::from_amount(200, ExtendedSymbol::from_extended(sym("4,SYM"), name("contract")));

    assert!(a <= b);
    assert!(b >= a);
    assert!(b > a);
    assert!(b >= c);
    assert!(a < b);
    assert!(c <= b);
}

#[test]
fn extended_asset_test_is_valid() {
    assert!(ExtendedAsset::from_amount(100, ext_sym("4,SYM@contract")).is_valid());
    assert!(ExtendedAsset::from_asset(Asset::from_amount(1234567, sym("4,SYM")), name("contract")).is_valid());
    assert!(!ExtendedAsset::from_asset(Asset::from_amount(1234567, sym("4,SYM")), Name::new()).is_valid());
    assert!(!ExtendedAsset::from_asset(Asset::new(), name("contract")).is_valid());
    assert!(!ExtendedAsset::from_asset(Asset::default(), Name::default()).is_valid());
}

#[test]
fn extended_asset_test_to_string() {
    assert_eq!(
        ExtendedAsset::from_amount(10000, ext_sym("4,SYM@contract")).to_string(),
        "1.0000 SYM@contract"
    );
    assert_eq!(
        ExtendedAsset::from_amount(0, ext_sym("4,SYM@contract")).to_string(),
        "0.0000 SYM@contract"
    );
    assert_eq!(
        ExtendedAsset::from_amount(1, ext_sym("0,SYM@contract")).to_string(),
        "1 SYM@contract"
    );
    assert_eq!(
        ExtendedAsset::from_asset(Asset::new(), name("contract")).to_string(),
        "0 @contract"
    );
    assert_eq!(ExtendedAsset::from_asset(Asset::default(), Name::default()).to_string(), "0 @");
}

#[test]
fn extended_asset_test_sub_assign() {
    let mut asset1 = ExtendedAsset::from_amount(10000, ext_sym("4,SYM@contract"));
    let asset2 = ExtendedAsset::from_amount(20000, ext_sym("4,SYM@contract"));
    asset1 = asset1 - asset2;

    assert_eq!(asset1.quantity.amount, -10000);
}

#[test]
fn extended_asset_test_add_assign() {
    let mut asset1 = ExtendedAsset::from_amount(10000, ext_sym("4,SYM@contract"));
    let asset2 = ExtendedAsset::from_amount(20000, ext_sym("4,SYM@contract"));
    asset1 = asset1 + asset2;

    assert_eq!(asset1.quantity.amount, 30000);
    assert_eq!(asset1.to_string(), "3.0000 SYM@contract");
}

#[test]
fn extended_asset_test_mul_assign() {
    let mut asset1 = ExtendedAsset::from_amount(10000, ext_sym("4,SYM@contract"));
    asset1 = asset1 / 2;

    assert_eq!(asset1.quantity.amount, 5000);
    assert_eq!(asset1.to_string(), "0.5000 SYM@contract");
}

#[test]
fn extended_asset_test_div_assign() {
    let mut asset1 = ExtendedAsset::from_amount(10000, ext_sym("4,SYM@contract"));
    asset1 = asset1 * 2;

    assert_eq!(asset1.quantity.amount, 20000);
    assert_eq!(asset1.to_string(), "2.0000 SYM@contract");
}

#[test]
fn extended_asset_test_neg() {
    let mut asset1 = ExtendedAsset::from_amount(10000, ext_sym("4,SYM@contract"));
    asset1 = -asset1;

    assert_eq!(asset1.quantity.amount, -10000);
    assert_eq!(asset1.to_string(), "-1.0000 SYM@contract");
}

#[test]
fn test_add_operator() {
    let asset1 = ExtendedAsset::from_amount(10000, ext_sym("4,SYM@contract"));
    let asset2 = ExtendedAsset::from_amount(20000, ext_sym("4,SYM@contract"));

    let result = asset1 + asset2;
    assert_eq!(result.quantity.amount, 30000);
    assert_eq!(result.to_string(), "3.0000 SYM@contract");
}

#[test]
fn test_sub_operator() {
    let asset1 = ExtendedAsset::from_amount(10000, ext_sym("4,SYM@contract"));
    let asset2 = ExtendedAsset::from_amount(20000, ext_sym("4,SYM@contract"));

    let result = asset1 - asset2;
    assert_eq!(result.quantity.amount, -10000);
    assert_eq!(result.to_string(), "-1.0000 SYM@contract");
}

#[test]
fn test_div_operator() {
    let asset1 = ExtendedAsset::from_amount(10000, ext_sym("4,SYM@contract"));
    let asset2 = ExtendedAsset::from_amount(20000, ext_sym("4,SYM@contract"));

    let result = asset2 / asset1;
    assert_eq!(result, 2);
}

#[test]
fn test_mul_operator() {
    let asset1 = ExtendedAsset::from_amount(10000, ext_sym("4,SYM@contract"));

    let result = asset1 * 2;
    assert_eq!(result.quantity.amount, 20000);
    assert_eq!(result.to_string(), "2.0000 SYM@contract");
}

#[test]
fn test_div_operator2() {
    let asset1 = ExtendedAsset::from_amount(10000, ext_sym("4,SYM@contract"));

    let result = asset1 / 2;
    assert_eq!(result.quantity.amount, 5000);
    assert_eq!(result.to_string(), "0.5000 SYM@contract");
}

#[test]
fn extended_asset_test_from_str() {
    let expected = ExtendedAsset {
        quantity: Asset::from_amount(1_0000, sym("4,SYM")),
        contract: name("contract"),
    };
    let actual = ExtendedAsset::parse("1.0000 SYM@contract").unwrap();
    assert_eq!(actual, expected);
}

#[test]
fn test_from_str2() {
    let expected = ExtendedAsset {
        quantity: Asset::from_amount(1_0000, sym("4,SYM")),
        contract: Name::default(),
    };
    let actual = ExtendedAsset::parse("1.0000 SYM@").unwrap();
    assert_eq!(actual, expected);
}

#[test]
fn extended_asset_parse_rejects_bad_input() {
    assert!(ExtendedAsset::parse("1.0000SYM").is_err());
    assert!(ExtendedAsset::parse("1.0000 SYM").is_err());
    assert!(ExtendedAsset::parse("1.0000 SYM@a@b").is_err());
}
