use bindlang::method::{parse_method, TypedParameter};

#[test]
fn method_parse() {
    let data = b"int someFunc() = ios 0x17;";

    let (method, _) = parse_method(data, 0).expect("failed to parse");

    assert_eq!(method.return_type, b"int".to_vec());
    assert_eq!(method.name, b"someFunc".to_vec());
    assert!(method.params.is_empty());
    assert_eq!(method.bind.ios, Some(0x17));
}

#[test]
fn parameters() {
    let data = b"int someFunc(int hi, double somethingFLoat) = win 0x67, android32 0x99;";

    let (method, _) = parse_method(data, 0).expect("failed to parse");

    assert_eq!(method.return_type, b"int".to_vec());
    assert_eq!(method.name, b"someFunc".to_vec());
    assert_eq!(
        method.params,
        vec![
            TypedParameter::new(b"int", b"hi"),
            TypedParameter::new(b"double", b"somethingFLoat")
        ]
    );
    assert_eq!(method.bind.win, Some(0x67));
    assert_eq!(method.bind.android32, Some(0x99));
}

#[test]
fn method_body() {
    let data = b"int someFunc(int hi, double somethingFLoat) = win 0x67, android32 0x99 {lalalalalala im ignored and these are some braces {{{{}}}} lalalala}";

    let (method, next) = parse_method(data, 0).expect("failed to parse");

    assert_eq!(method.return_type, b"int".to_vec());
    assert_eq!(method.name, b"someFunc".to_vec());
    assert_eq!(
        method.params,
        vec![
            TypedParameter::new(b"int", b"hi"),
            TypedParameter::new(b"double", b"somethingFLoat")
        ]
    );
    assert_eq!(method.bind.win, Some(0x67));
    assert_eq!(method.bind.android32, Some(0x99));
    assert_eq!(next, data.len());
}
