use bindlang::class::parse_class;
use bindlang::member::Member;

#[test]
fn class_parse() {
    let data = b"class Hi {}";

    let (class, _) = parse_class(data, 0).expect("failed to parse");

    assert_eq!(class.name, b"Hi".to_vec());
    assert_eq!(class.superclasses, Vec::<Vec<u8>>::new());
}

#[test]
fn superclass() {
    let data = b"class asdfjadsf::Hi : Whatup {}";

    let (class, _) = parse_class(data, 0).expect("failed to parse");

    assert_eq!(class.name, b"asdfjadsf::Hi".to_vec());
    assert_eq!(class.superclasses, vec![b"Whatup".to_vec()]);
}

#[test]
fn multiple_superclass() {
    let data = b"class asdfjadsf::Hi : Whatup, Whatup2, Test {}";

    let (class, _) = parse_class(data, 0).expect("failed to parse");

    assert_eq!(class.name, b"asdfjadsf::Hi".to_vec());
    assert_eq!(
        class.superclasses,
        vec![b"Whatup".to_vec(), b"Whatup2".to_vec(), b"Test".to_vec()]
    );
}

#[test]
fn invalid_name() {
    let data = b"class hi-im-an-invalid-name : a {}";

    let class = parse_class(data, 0);

    assert!(class.is_err());
}

#[test]
fn class_whitespace() {
    let data = b"class \tTest \t\t\n\n:\n super\t, \nSuper2  \n{}";

    let (class, _) = parse_class(data, 0).expect("failed to parse");

    assert_eq!(class.name, b"Test".to_vec());
    assert_eq!(
        class.superclasses,
        vec![b"super".to_vec(), b"Super2".to_vec()]
    );
}

#[test]
fn member() {
    let data = b"class Test { cocos2d::SomethingLayer* hi;\nint b;\nint a; }";

    let (class, _) = parse_class(data, 0).expect("failed to parse");

    assert_eq!(class.name, b"Test".to_vec());
    assert!(class.superclasses.is_empty());
    assert_eq!(
        class.members,
        vec![
            Member {
                ty: b"cocos2d::SomethingLayer*".to_vec(),
                name: b"hi".to_vec()
            },
            Member {
                ty: b"int".to_vec(),
                name: b"b".to_vec()
            },
            Member {
                ty: b"int".to_vec(),
                name: b"a".to_vec()
            }
        ]
    );
    assert!(class.methods.is_empty());
}

#[test]
fn comments() {
    let data =
        b"class Test { cocos2d::SomethingLayer* hi; int b;\n// hi j{}{{}int hi i = 013;\n int a; }";

    let (class, _) = parse_class(data, 0).expect("failed to parse");

    assert_eq!(class.name, b"Test".to_vec());
    assert!(class.superclasses.is_empty());
    assert_eq!(
        class.members,
        vec![
            Member {
                ty: b"cocos2d::SomethingLayer*".to_vec(),
                name: b"hi".to_vec()
            },
            Member {
                ty: b"int".to_vec(),
                name: b"b".to_vec()
            },
            Member {
                ty: b"int".to_vec(),
                name: b"a".to_vec()
            }
        ]
    );
    assert!(class.methods.is_empty());
}
