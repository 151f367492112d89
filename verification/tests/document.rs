use jsonrpc_udp::document::SyntaxError;
use jsonrpc_udp::envelope::{Member, MemberValue, ParsedValue};
use jsonrpc_udp::json::JsonKind;

fn member(name: &str, value: MemberValue) -> Member {
    Member { name: name.to_owned(), value }
}

#[test]
fn object_is_read_member_by_member() {
    let text = r#"{"jsonrpc":"2.0","n":null,"b":true,"i":-12,"f":1.5,"a":[1,{"x":2}],"o":{"y":[3]},"e":1e3}"#;
    let value = ParsedValue::parse(text).unwrap();
    assert_eq!(
        value,
        ParsedValue {
            kind: JsonKind::Object,
            members: vec![
                member("jsonrpc", MemberValue::String("2.0".to_owned())),
                member("n", MemberValue::Null),
                member("b", MemberValue::Boolean),
                member("i", MemberValue::Integer(-12)),
                member("f", MemberValue::Float),
                member("a", MemberValue::Array),
                member("o", MemberValue::Object),
                member("e", MemberValue::Float),
            ],
        }
    );
}

#[test]
fn escapes_are_resolved_in_names_and_strings() {
    let value = ParsedValue::parse(r#"{"method":"a\nb\"cé"}"#).unwrap();
    assert_eq!(
        value.members,
        vec![member("method", MemberValue::String("a\nb\"c\u{e9}".to_owned()))]
    );
}

#[test]
fn integers_beyond_64_bits_are_wide() {
    let value = ParsedValue::parse(
        r#"{"max":9223372036854775807,"over":9223372036854775808,"min":-9223372036854775808,"under":-9223372036854775809}"#,
    )
    .unwrap();
    assert_eq!(
        value.members,
        vec![
            member("max", MemberValue::Integer(i64::MAX)),
            member("over", MemberValue::WideInteger),
            member("min", MemberValue::Integer(i64::MIN)),
            member("under", MemberValue::WideInteger),
        ]
    );
}

#[test]
fn duplicate_names_are_kept_in_order() {
    let value = ParsedValue::parse(r#"{"id":1,"id":"x"}"#).unwrap();
    assert_eq!(
        value.members,
        vec![
            member("id", MemberValue::Integer(1)),
            member("id", MemberValue::String("x".to_owned())),
        ]
    );
}

#[test]
fn other_kinds_have_no_members() {
    let cases = [
        ("[1,2]", JsonKind::Array),
        ("null", JsonKind::Null),
        ("false", JsonKind::Boolean),
        ("12", JsonKind::Integer),
        ("1.5", JsonKind::Float),
        (r#""text""#, JsonKind::String),
        ("{}", JsonKind::Object),
        (" [ { \"a\" : 1 } ] ", JsonKind::Array),
    ];
    for (text, kind) in cases {
        let value = ParsedValue::parse(text).unwrap();
        assert_eq!(value, ParsedValue { kind, members: vec![] });
    }
}

#[test]
fn syntax_error_has_a_position() {
    assert_eq!(ParsedValue::parse(""), Err(SyntaxError { position: 0 }));
    assert_eq!(ParsedValue::parse("{oops"), Err(SyntaxError { position: 1 }));
    assert_eq!(ParsedValue::parse(r#"{"a":1} x"#), Err(SyntaxError { position: 8 }));
    assert_eq!(ParsedValue::parse(r#"{"a":01}"#), Err(SyntaxError { position: 6 }));
}
