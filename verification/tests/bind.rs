use bindlang::bind::parse_bind;

#[test]
fn bind_parse() {
    let data = b"win 0xff, ios 0x1, mac 0x84, android32 0xfffffff;";

    let (bind, _) = parse_bind(data, 0).expect("failed to parse");

    assert_eq!(bind.win, Some(0xff));
    assert_eq!(bind.ios, Some(0x1));
    assert_eq!(bind.m1_mac, Some(0x84));
    assert_eq!(bind.intel_mac, Some(0x84));
    assert_eq!(bind.android32, Some(0xfffffff));
    assert_eq!(bind.android64, None);
}

#[test]
fn zero_addr() {
    let data = b"win 0x0;";

    let (bind, _) = parse_bind(data, 0).expect("failed to parse");

    assert_eq!(bind.win, None);
}

#[test]
fn trailing_spaces() {
    let data = b"win 0x45 , ios 0x451         ;";

    let (bind, next) = parse_bind(data, 0).expect("failed to parse");

    assert_eq!(bind.win, Some(0x45));
    assert_eq!(bind.ios, Some(0x451));
    assert_eq!(&data[next..], b";");
}

#[test]
fn no_comma() {
    let data = b"android32 0x45 android 0x451;";

    let bind = parse_bind(data, 0);

    assert!(bind.is_err());
}

#[test]
fn semicolon() {
    let data = b"win 0x1;";

    let (bind, next) = parse_bind(data, 0).expect("failed to parse");

    assert_eq!(bind.win, Some(0x1));
    assert_eq!(&data[next..], b";");
}

#[test]
fn inline() {
    let data = b"mac inline, android32 0xfffffffffff;";

    let (bind, _) = parse_bind(data, 0).expect("failed to parse");

    assert_eq!(bind.m1_mac, None);
    assert_eq!(bind.intel_mac, None);
    assert_eq!(bind.android32, Some(0xfffffffffff));
}
