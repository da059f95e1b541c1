use bindlang::member::parse_member;

#[test]
fn member_parse() {
    let data = b"int hi";

    let (member, _) = parse_member(data, 0).expect("failed to parse");

    assert_eq!(member.ty, b"int".to_vec());
    assert_eq!(member.name, b"hi".to_vec());
}

#[test]
fn capitals() {
    let data = b"cocos2d::SomethingSomething m_complexVariableName42";

    let (member, _) = parse_member(data, 0).expect("failed to parse");

    assert_eq!(member.ty, b"cocos2d::SomethingSomething".to_vec());
    assert_eq!(member.name, b"m_complexVariableName42".to_vec());
}

#[test]
fn member_whitespace() {
    let data = b"cocos2d::SomethingSomething \t\nm_complexVariableName42";

    let (member, _) = parse_member(data, 0).expect("failed to parse");

    assert_eq!(member.ty, b"cocos2d::SomethingSomething".to_vec());
    assert_eq!(member.name, b"m_complexVariableName42".to_vec());
}
