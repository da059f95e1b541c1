use bindlang::bind::{parse_bind, Bind};
use bindlang::class::parse_class;
use bindlang::err::ErrorKind;
use bindlang::method::{parse_method, TypedParameter};
use bindlang::platform::{parse_platform, Platform};
use bindlang::util::identifier;

#[test]
fn platform_keywords() {
    assert_eq!(parse_platform(b"win", 0), Ok((Platform::Windows, 3)));
    assert_eq!(parse_platform(b"mac", 0), Ok((Platform::Mac, 3)));
    assert_eq!(parse_platform(b"imac", 0), Ok((Platform::IntelMac, 4)));
    assert_eq!(parse_platform(b"m1", 0), Ok((Platform::M1Mac, 2)));
    assert_eq!(parse_platform(b"ios", 0), Ok((Platform::IOS, 3)));
    assert_eq!(parse_platform(b"android", 0), Ok((Platform::Android, 7)));
    assert_eq!(parse_platform(b"android32", 0), Ok((Platform::Android32, 9)));
    assert_eq!(parse_platform(b"android64", 0), Ok((Platform::Android64, 9)));
}

#[test]
fn platform_unknown() {
    let e = parse_platform(b"linux 0x5", 0).unwrap_err();
    assert_eq!(e.kind, ErrorKind::UnknownPlatform);
    assert_eq!(e.offset, 0);
}

#[test]
fn hex_value_exact() {
    let (bind, _) = parse_bind(b"win 0x1a2B;", 0).expect("failed to parse");
    assert_eq!(bind.win, Some(0x1a2b));
}

#[test]
fn hex_zero_gives_none() {
    let (bind, _) = parse_bind(b"win 0x000;", 0).expect("failed to parse");
    assert_eq!(bind.win, None);
}

#[test]
fn hex_overflow_rejected() {
    let e = parse_bind(b"win 0x10000000000000000;", 0).unwrap_err();
    assert_eq!(e.kind, ErrorKind::MalformedAddress);
}

#[test]
fn inline_slot_none() {
    let (bind, next) = parse_bind(b"ios inline", 0).expect("failed to parse");
    assert_eq!(bind.ios, None);
    assert_eq!(next, b"ios inline".len());
}

#[test]
fn alias_mac_writes_both() {
    let (bind, _) = parse_bind(b"mac 0x5", 0).expect("failed to parse");
    assert_eq!(bind.intel_mac, Some(5));
    assert_eq!(bind.m1_mac, Some(5));
    assert_eq!(bind.win, None);
    assert_eq!(bind.ios, None);
}

#[test]
fn alias_android_writes_both() {
    let (bind, _) = parse_bind(b"android 0x7", 0).expect("failed to parse");
    assert_eq!(bind.android32, Some(7));
    assert_eq!(bind.android64, Some(7));
}

#[test]
fn specific_overwrites_only_its_slot() {
    let (bind, _) = parse_bind(b"mac 0x5, m1 0x9", 0).expect("failed to parse");
    assert_eq!(bind.m1_mac, Some(9));
    assert_eq!(bind.intel_mac, Some(5));
}

#[test]
fn android64_not_misparsed() {
    let (bind, _) = parse_bind(b"android64 0x1", 0).expect("failed to parse");
    assert_eq!(bind.android64, Some(1));
    assert_eq!(bind.android32, None);
}

#[test]
fn trailing_comma_before_terminator() {
    let data = b"win 0x1, ;";
    let (bind, next) = parse_bind(data, 0).expect("failed to parse");
    assert_eq!(bind.win, Some(1));
    assert_eq!(&data[next..], b";");
}

#[test]
fn empty_bind_kind() {
    let e = parse_bind(b";", 0).unwrap_err();
    assert_eq!(e.kind, ErrorKind::EmptyBind);
    assert_eq!(e.offset, 0);
}

#[test]
fn missing_separator_kind() {
    let e = parse_bind(b"win 0x45 android 0x1", 0).unwrap_err();
    assert_eq!(e.kind, ErrorKind::MissingSeparator);
    assert_eq!(e.offset, 9);
}

#[test]
fn malformed_address_kind() {
    let e = parse_bind(b"win 0xg;", 0).unwrap_err();
    assert_eq!(e.kind, ErrorKind::MalformedAddress);

    let e = parse_bind(b"win foo;", 0).unwrap_err();
    assert_eq!(e.kind, ErrorKind::MalformedAddress);

    let e = parse_bind(b"win0x5;", 0).unwrap_err();
    assert_eq!(e.kind, ErrorKind::MalformedAddress);
}

#[test]
fn identifier_token() {
    let data = b"abc_:123* x";
    let (tok, next) = identifier(data, 0).expect("failed to parse");
    assert_eq!(tok, b"abc_:123".to_vec());
    assert_eq!(next, 8);
    assert_eq!(data[next], b'*');
}

#[test]
fn invalid_identifier_kind() {
    let e = identifier(b"-x", 0).unwrap_err();
    assert_eq!(e.kind, ErrorKind::InvalidIdentifier);
    assert_eq!(e.offset, 0);
}

#[test]
fn method_modifiers() {
    let (m, _) = parse_method(b"virtual void f() = win 0x1;", 0).expect("failed to parse");
    assert!(m.virt);
    assert!(!m.stat);

    let (m, _) = parse_method(b"static void f() = win 0x1;", 0).expect("failed to parse");
    assert!(!m.virt);
    assert!(m.stat);

    let (m, _) = parse_method(b"void f() = win 0x1;", 0).expect("failed to parse");
    assert!(!m.virt);
    assert!(!m.stat);
}

#[test]
fn missing_bind_kind() {
    let e = parse_method(b"int f();", 0).unwrap_err();
    assert_eq!(e.kind, ErrorKind::MissingBind);

    let e = parse_method(b"int f(int x)", 0).unwrap_err();
    assert_eq!(e.kind, ErrorKind::MissingBind);
}

#[test]
fn unterminated_body_kind() {
    let e = parse_method(b"int f() = win 0x1 { {}", 0).unwrap_err();
    assert_eq!(e.kind, ErrorKind::UnterminatedBody);
}

#[test]
fn nested_braces_consumed_entirely() {
    let data = b"int f() = win 0x1 { if (x) { y(); } }";
    let (m, next) = parse_method(data, 0).expect("failed to parse");
    assert_eq!(m.name, b"f".to_vec());
    assert_eq!(next, data.len());
}

#[test]
fn simple_method_binding() {
    let (m, _) = parse_method(b"int f() = ios 0x17;", 0).expect("failed to parse");
    assert_eq!(m.return_type, b"int".to_vec());
    assert_eq!(m.name, b"f".to_vec());
    assert!(m.params.is_empty());
    assert_eq!(m.bind.ios, Some(0x17));
}

#[test]
fn empty_class_all_fields() {
    let (c, _) = parse_class(b"class Hi {}", 0).expect("failed to parse");
    assert_eq!(c.name, b"Hi".to_vec());
    assert!(c.superclasses.is_empty());
    assert!(c.members.is_empty());
    assert!(c.methods.is_empty());
}

#[test]
fn superclasses_in_source_order() {
    let (c, _) = parse_class(b"class A : B, C {}", 0).expect("failed to parse");
    assert_eq!(c.superclasses, vec![b"B".to_vec(), b"C".to_vec()]);
}

#[test]
fn members_with_pointer_type() {
    let (c, _) = parse_class(b"class T { int a; Foo* b; }", 0).expect("failed to parse");
    assert_eq!(c.members.len(), 2);
    assert_eq!(c.members[0].ty, b"int".to_vec());
    assert_eq!(c.members[0].name, b"a".to_vec());
    assert_eq!(c.members[1].ty, b"Foo*".to_vec());
    assert_eq!(c.members[1].name, b"b".to_vec());
    assert!(c.methods.is_empty());
}

#[test]
fn class_missing_name_kind() {
    let e = parse_class(b"class {}", 0).unwrap_err();
    assert_eq!(e.kind, ErrorKind::InvalidName);
}

#[test]
fn member_missing_semicolon_fails() {
    let e = parse_class(b"class T { int a }", 0).unwrap_err();
    assert_eq!(e.kind, ErrorKind::MissingSeparator);
}

#[test]
fn invalid_superclass_list_kind() {
    let e = parse_class(b"class A : {}", 0).unwrap_err();
    assert_eq!(e.kind, ErrorKind::InvalidSuperclassList);
}

#[test]
fn unclosed_body_kind() {
    let e = parse_class(b"class A { int x;", 0).unwrap_err();
    assert_eq!(e.kind, ErrorKind::UnclosedBody);

    let e = parse_class(b"class A B", 0).unwrap_err();
    assert_eq!(e.kind, ErrorKind::UnclosedBody);
}

#[test]
fn methods_and_members_partitioned() {
    let data = b"class A { int f() = win 0x1; int x; virtual void g(int a, Foo* b) = mac 0x2 { {} } }";
    let (c, _) = parse_class(data, 0).expect("failed to parse");
    assert_eq!(c.members.len(), 1);
    assert_eq!(c.members[0].name, b"x".to_vec());
    assert_eq!(c.methods.len(), 2);
    assert_eq!(c.methods[0].name, b"f".to_vec());
    assert_eq!(c.methods[0].bind.win, Some(1));
    assert_eq!(c.methods[1].name, b"g".to_vec());
    assert!(c.methods[1].virt);
    assert_eq!(
        c.methods[1].params,
        vec![TypedParameter::new(b"int", b"a"), TypedParameter::new(b"Foo*", b"b")]
    );
    assert_eq!(c.methods[1].bind.intel_mac, Some(2));
    assert_eq!(c.methods[1].bind.m1_mac, Some(2));
}

#[test]
fn comment_before_close() {
    let (c, _) = parse_class(b"class A { // nothing here\n }", 0).expect("failed to parse");
    assert!(c.members.is_empty());
    assert!(c.methods.is_empty());
}

#[test]
fn default_bind_untouched() {
    let b = Bind::default();
    assert_eq!(b.win, None);
    assert_eq!(b.intel_mac, None);
    assert_eq!(b.m1_mac, None);
    assert_eq!(b.ios, None);
    assert_eq!(b.android32, None);
    assert_eq!(b.android64, None);
}

#[test]
fn typed_parameter_new_copies() {
    let p = TypedParameter::new(b"Foo*", b"bar");
    assert_eq!(p.ty, b"Foo*".to_vec());
    assert_eq!(p.name, b"bar".to_vec());
}
