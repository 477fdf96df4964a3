use antelope::Asset;
use antelope::Symbol;

fn sym(s: &str) -> Symbol {
    Symbol::parse(s).unwrap()
}

fn asset(s: &str) -> Asset {
    Asset::parse(s).unwrap()
}

#[test]
fn asset_test_cdt_1() {
    assert_eq!(Asset::new().symbol.raw(), 0);
    assert_eq!(Asset::new().amount, 0);
}

#[test]
fn test_asset_creation() {
    let asset = Asset { amount: 1000, symbol: sym("4,SYS") };
    assert_eq!(asset.amount, 1000);
    assert_eq!(asset.symbol, sym("4,SYS"));
}

#[test]
fn test_asset_equality() {
    let asset1 = Asset { amount: 1000, symbol: sym("4,SYS") };
    let asset2 = Asset { amount: 1000, symbol: sym("4,SYS") };
    assert_eq!(asset1, asset2);
}

#[test]
fn test_inequality_operator() {
    let asset1 = Asset { amount: 100, symbol: sym("4,SYM") };
    let asset2 = Asset { amount: 200, symbol: sym("4,SYM") };

    assert_ne!(asset1, asset2);
}

#[test]
fn test_ord_operator() {
    let asset1 = Asset { amount: 100, symbol: sym("4,SYM") };
    let asset2 = Asset { amount: 200, symbol: sym("4,SYM") };
    let asset3 = Asset { amount: 200, symbol: sym("4,SYM") };

    assert!(asset1 < asset2);
    assert!(asset2 > asset1);
    assert!(asset1 <= asset2);
    assert!(asset2 >= asset1);
    assert!(asset3 >= asset2);
    assert!(asset3 <= asset2);
}

#[test]
fn asset_test_neg() {
    let asset = Asset::from_amount(100, Symbol::new());
    let negated_asset = -asset;
    assert_eq!(negated_asset.amount, -100);
}

#[test]
fn asset_test_sub_assign() {
    let mut asset1 = Asset { amount: 100, symbol: Symbol::new() };
    let asset2 = Asset { amount: 50, symbol: Symbol::new() };

    asset1 = asset1 - asset2;

    assert_eq!(asset1.amount, 50);
}

#[test]
fn test_asset_addition() {
    let asset_a = Asset { symbol: sym("4,SYS"), amount: 1000 };
    let asset_b = Asset { symbol: sym("4,SYS"), amount: 2000 };

    let result = asset_a + asset_b;
    assert_eq!(result.symbol, sym("4,SYS"));
    assert_eq!(result.amount, 3000);
}

#[test]
fn test_asset_subtraction() {
    let asset_a = Asset { symbol: sym("4,SYS"), amount: 3000 };
    let asset_b = Asset { symbol: sym("4,SYS"), amount: 2000 };

    let result = asset_a - asset_b;
    assert_eq!(result.symbol, sym("4,SYS"));
    assert_eq!(result.amount, 1000);
}

#[test]
fn asset_test_mul_assign() {
    let mut asset = Asset { symbol: sym("4,SYS"), amount: 10 };
    asset = asset * 2;
    assert_eq!(asset.amount, 20);
    asset = asset * 3;
    assert_eq!(asset.amount, 60);
}

#[test]
fn test_multiplication_operator() {
    let asset1 = Asset { amount: 100, symbol: sym("4,SYM") };

    let asset2 = asset1 * 5;
    assert_eq!(asset2.amount, 500);
    assert_eq!(asset2.symbol, sym("4,SYM"));

    let asset3 = -5 * asset1;
    assert_eq!(asset3.amount, -500);
    assert_eq!(asset3.symbol, sym("4,SYM"));
}

#[test]
fn asset_test_div_assign() {
    let mut asset1 = Asset { amount: 100, symbol: sym("4,SYM") };

    asset1 = asset1 / 2;
    assert_eq!(asset1.amount, 50);

    asset1 = asset1 / -5;
    assert_eq!(asset1.amount, -10);
}

#[test]
fn test_divide_operator() {
    let asset = Asset { amount: 100, symbol: sym("4,SYM") };

    let result = asset / 2;
    assert_eq!(result.amount, 50);
    assert_eq!(result.symbol, sym("4,SYM"));
}

#[test]
fn test_asset_divide_asset_operator() {
    let asset1 = Asset { amount: 100, symbol: sym("4,SYM") };
    let asset2 = Asset { amount: 50, symbol: sym("4,SYM") };

    let result = asset1 / asset2;
    assert_eq!(result, 2);
}

#[test]
fn asset_test_to_string() {
    assert_eq!(Asset::from_amount(10000, sym("4,SYM")).to_string(), "1.0000 SYM");
    assert_eq!(Asset::from_amount(0, sym("4,SYM")).to_string(), "0.0000 SYM");
    assert_eq!(Asset::from_amount(12345, sym("2,SYM")).to_string(), "123.45 SYM");
    assert_eq!(Asset::from_amount(100, sym("0,SYM")).to_string(), "100 SYM");
    assert_eq!(Asset::from_amount(-1000001, sym("4,SYM")).to_string(), "-100.0001 SYM");
    assert_eq!(Asset::from_amount(0, sym("0,SYM")).to_string(), "0 SYM");
    assert_eq!(Asset::from_amount(-100, sym("0,SYM")).to_string(), "-100 SYM");
    assert_eq!(
        Asset::from_amount(0, sym("18,SYMBOLL")).to_string(),
        "0.000000000000000000 SYMBOLL"
    );
    assert_eq!(
        Asset::from_amount(-1000000000000000000, sym("18,SYMBOLL")).to_string(),
        "-1.000000000000000000 SYMBOLL"
    );
}

#[test]
fn test_display() {
    println!("{}", Asset::from_amount(10000, sym("4,SYM")).to_string())
}

#[test]
fn test_from_string() {
    assert_eq!(Asset::from_amount(10000, sym("4,SYM")), asset("1.0000 SYM"));
    assert_eq!(Asset::from_amount(100, sym("0,SYM")), asset("100 SYM"));
    assert_eq!(Asset::from_amount(12345, sym("2,SYM")), asset("123.45 SYM"));
    assert_eq!(Asset::from_amount(-1000001, sym("4,SYM")), asset("-100.0001 SYM"));
    assert_eq!(Asset::from_amount(0, sym("0,SYM")), asset("0 SYM"));
    assert_eq!(Asset::from_amount(0, sym("4,SYM")), asset("0.0000 SYM"));
    assert_eq!(
        Asset::from_amount(-1000000000000000000, sym("18,SYMBOLL")),
        asset("-1.000000000000000000 SYMBOLL")
    );
}
