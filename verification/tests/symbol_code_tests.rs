use antelope::SymbolCode;

fn code(s: &str) -> SymbolCode {
    SymbolCode::parse(s).unwrap()
}

#[test]
fn symbol_code_test_cdt_1() {
    assert_eq!(0, SymbolCode::new().raw());
    assert_eq!(0 as u64, SymbolCode::new().into());
}

#[test]
fn symbol_code_test_cdt_2() {
    assert_eq!(0, SymbolCode::from(0).raw());
    assert_eq!(1, SymbolCode::from(1).raw());
    assert_eq!(u64::MAX, SymbolCode::from(u64::MAX).raw());
}

#[test]
fn symbol_code_test_cdt_3() {
    assert_eq!(65, code("A").raw());
    assert_eq!(90, code("Z").raw());
    assert_eq!(18367622009667905, code("AAAAAAA").raw());
    assert_eq!(25432092013386330, code("ZZZZZZZ").raw());
}

#[test]
fn symbol_code_test_cdt_4() {
    assert_eq!(true, SymbolCode::from(65).is_valid());
    assert_eq!(true, SymbolCode::from(90).is_valid());
    assert_eq!(true, SymbolCode::from(18367622009667905).is_valid());
    assert_eq!(true, SymbolCode::from(25432092013386330).is_valid());

    assert_eq!(false, SymbolCode::from(64).is_valid());
    assert_eq!(false, SymbolCode::from(25432092013386331).is_valid());
}

#[test]
fn symbol_code_test_cdt_5() {
    assert_eq!(0, code("").length());
    assert_eq!(1, code("S").length());
    assert_eq!(2, code("SY").length());
    assert_eq!(3, code("SYM").length());
    assert_eq!(4, code("SYMB").length());
    assert_eq!(5, code("SYMBO").length());
    assert_eq!(6, code("SYMBOL").length());
    assert_eq!(7, code("SYMBOLL").length());
}

#[test]
fn symbol_code_test_cdt_6() {
    assert_eq!(false, SymbolCode::from(0).into());
    assert_eq!(true, SymbolCode::from(1).into());

    assert_eq!(false, code("").into());
    assert_eq!(true, code("SYMBOL").into());
}

#[test]
fn symbol_code_test_cdt_7() {
    assert_eq!("A", code("A").to_string());
    assert_eq!("Z", code("Z").to_string());
    assert_eq!("AAAAAAA", code("AAAAAAA").to_string());
    assert_eq!("ZZZZZZZ", code("ZZZZZZZ").to_string());
}

#[test]
fn symbol_code_test_cdt_8() {
    assert_eq!(true, code("A") == code("A"));
    assert_eq!(true, code("Z") == code("Z"));
    assert_eq!(true, code("AAAAAAA") == code("AAAAAAA"));
    assert_eq!(true, code("ZZZZZZZ") == code("ZZZZZZZ"));
}

#[test]
fn symbol_code_test_cdt_9() {
    assert_eq!(true, code("A") != SymbolCode::new());
    assert_eq!(true, code("Z") != SymbolCode::new());
    assert_eq!(true, code("AAAAAAA") != SymbolCode::new());
    assert_eq!(true, code("ZZZZZZZ") != SymbolCode::new());
}

#[test]
fn symbol_code_test_cdt_10() {
    assert_eq!(true, SymbolCode::new() < code("A"));
    assert_eq!(true, SymbolCode::new() < code("Z"));
    assert_eq!(true, SymbolCode::new() < code("AAAAAAA"));
    assert_eq!(true, SymbolCode::new() < code("ZZZZZZZ"));
}

#[test]
fn test_length() {
    assert_eq!(1, code("A").length());
    assert_eq!(2, code("AB").length());
    assert_eq!(3, code("ABC").length());
    assert_eq!(4, code("ABCD").length());
    assert_eq!(5, code("ABCDE").length());
    assert_eq!(6, code("ABCDEF").length());
    assert_eq!(7, code("ABCDEFG").length());
}

#[test]
fn symbol_code_test_partial_eq() {
    assert_eq!(true, SymbolCode::from(5197638) == SymbolCode::from(5197638));
    assert_eq!(true, SymbolCode::from(0) != SymbolCode::from(5197638));
    assert_eq!(false, SymbolCode::from(0) == SymbolCode::from(5197638));
    assert_eq!(true, SymbolCode::from(5197637) != SymbolCode::from(5197638));
}

#[test]
fn test_partial_cmp() {
    assert_eq!(true, SymbolCode::from(0) < SymbolCode::from(1));
    assert_eq!(false, SymbolCode::from(3) < SymbolCode::from(2));
}

#[test]
fn symbol_code_test_new() {
    assert_eq!("FOO", code("FOO").to_string());
    assert_eq!(5197638, code("FOO").raw());
}

#[test]
fn test_fmt() {
    assert_eq!("FOO", code("FOO").to_string());
    assert_eq!("", SymbolCode::new().to_string());
}

#[test]
fn test_println() {
    println!("{}", code("FOO").to_string());
}

#[test]
fn symbol_code_test_from() {
    assert_eq!(0, SymbolCode::from(0).value);
    assert_eq!(0, SymbolCode::from(0).raw());
    assert_eq!(0, code("").raw());
    assert_eq!(5197638, code("FOO").value);
    assert_eq!(5197638, SymbolCode::from(5197638).raw());
}

#[test]
fn symbol_code_test_is_valid() {
    assert_eq!(false, SymbolCode::new().is_valid());
    assert_eq!(false, SymbolCode::from(0).is_valid());
    assert_eq!(false, SymbolCode::from(u64::MAX).is_valid());
    assert_eq!(true, SymbolCode::from(5197638).is_valid());
    assert_eq!(true, code("FOO").is_valid());
}

#[test]
fn symbol_code_test_to_string() {
    assert_eq!("FOO", SymbolCode::from(5197638).to_string());
    assert_eq!("FOO", code("FOO").to_string());
    assert_eq!("ABCDEFG", code("ABCDEFG").to_string());
}

#[test]
fn test_to_str() {
    assert_eq!("FOO", code("FOO").to_string());
}

#[test]
fn symbol_code_test_ord() {
    let symbol_code1 = code("ABCDEFG");
    let symbol_code2 = code("ABCDEFH");
    let symbol_code3 = code("ABCDEF");
    assert!(symbol_code1 < symbol_code2);
    assert!(symbol_code1 > symbol_code3);
    assert!(symbol_code1 > symbol_code3);
    assert!(symbol_code3 < symbol_code2);
    assert!(symbol_code1 <= symbol_code1);
    assert!(symbol_code1 >= symbol_code1);
}

#[test]
fn symbol_code_test_clone() {
    let symbol_code = code("ABCDEFG");
    let cloned_symbol_code = symbol_code.clone();
    assert_eq!(symbol_code, cloned_symbol_code);
    assert_eq!(5197638, code("FOO").clone().value);
}

#[test]
fn symbol_code_test_from_self() {
    let symcode = code("ABCDEFG");
    assert_eq!(SymbolCode::from(symcode), symcode);
}

#[test]
fn test_to_bool() {
    assert_eq!(true, code("ABCDEFG").into());
    assert_eq!(false, SymbolCode::default().into());
    assert_eq!(false, code("").into());
}

#[test]
fn symbol_code_parse_rejects_bad_input() {
    assert!(SymbolCode::parse("ABCDEFGH").is_err());
    assert!(SymbolCode::parse("abc").is_err());
    assert!(SymbolCode::parse("123").is_err());
    assert!(SymbolCode::parse("@").is_err());
}
