use lunir::ast::expression::BinaryExpressionKind;
use lunir::ast::identifier::IdentifierString;

#[test]
fn mod_sanitization() {
    assert_eq!(
        String::from("test\n\n\n\x12").sanitize_special(),
        "test\\n\\n\\n\\18"
    );
    assert_eq!(
        String::from("hello-world I'm  0x90__!").sanitize_identifier(),
        "hello_world_Im_0x90_"
    );
}

#[test]
fn mod_compound_conversion() {
    assert_eq!(
        BinaryExpressionKind::Add.to_compound(),
        BinaryExpressionKind::AddAssign
    );
    assert_eq!(
        BinaryExpressionKind::DivAssign.to_compound(),
        BinaryExpressionKind::DivAssign
    );
}

#[test]
fn tests_sanitization() {
    assert_eq!(
        String::from("test\n\n\n\x12").sanitize_special(),
        "test\\n\\n\\n\\18"
    );
    assert_eq!(
        String::from("hello-world I'm  0x90__!").sanitize_identifier(),
        "hello_world_Im_0x90_"
    );
}

#[test]
fn tests_compound_conversion() {
    assert_eq!(
        BinaryExpressionKind::Add.to_compound(),
        BinaryExpressionKind::AddAssign
    );
    assert_eq!(
        BinaryExpressionKind::DivAssign.to_compound(),
        BinaryExpressionKind::DivAssign
    );
}

#[test]
fn compound_is_idempotent_on_every_kind() {
    let kinds = [
        BinaryExpressionKind::Add,
        BinaryExpressionKind::Sub,
        BinaryExpressionKind::Mul,
        BinaryExpressionKind::Div,
        BinaryExpressionKind::Mod,
        BinaryExpressionKind::Pow,
        BinaryExpressionKind::Concat,
        BinaryExpressionKind::AddAssign,
        BinaryExpressionKind::SubAssign,
        BinaryExpressionKind::MulAssign,
        BinaryExpressionKind::DivAssign,
        BinaryExpressionKind::ModAssign,
        BinaryExpressionKind::PowAssign,
        BinaryExpressionKind::ConcatAssign,
    ];
    for k in kinds {
        assert_eq!(k.to_compound().to_compound(), k.to_compound());
    }
    assert_eq!(
        BinaryExpressionKind::Concat.to_compound(),
        BinaryExpressionKind::ConcatAssign
    );
}

#[test]
fn can_identify_accepts_names_only() {
    assert!(String::from("hello_world1").can_identify());
    assert!(String::from("_x").can_identify());
    assert!(!String::from("").can_identify());
    assert!(!String::from("1abc").can_identify());
    assert!(!String::from("a-b").can_identify());
    assert!(!String::from("a b").can_identify());
}

#[test]
fn sanitize_identifier_edge_cases() {
    assert_eq!(String::from("").sanitize_identifier(), "_");
    assert_eq!(String::from("!!!").sanitize_identifier(), "_");
    assert_eq!(String::from("a\t\n b").sanitize_identifier(), "a_b");
    assert_eq!(String::from("____").sanitize_identifier(), "_");
    assert_eq!(String::from("9a").sanitize_identifier(), "9a");
    assert_eq!(String::from("a__b--c").sanitize_identifier(), "a_b_c");
}

#[test]
fn sanitize_identifier_gives_clean_identifiers() {
    for input in ["hello world", "--x--", "a!b@c#", "tab\there", "", "é-ü", "x__y"] {
        let out = String::from(input).sanitize_identifier();
        assert!(!out.is_empty());
        assert!(out.chars().all(|c| c.is_alphanumeric() || c == '_'));
        assert!(!out.contains("__"));
        assert!(!out.chars().next().unwrap().is_ascii_digit());
        assert!(out.can_identify());
    }
}

#[test]
fn sanitize_special_escapes() {
    assert_eq!(String::from("a\"b").sanitize_special(), "a\\\"b");
    assert_eq!(String::from("a\\b").sanitize_special(), "a\\\\b");
    assert_eq!(String::from("\r\t").sanitize_special(), "\\r\\t");
    assert_eq!(String::from(" ~").sanitize_special(), " ~");
    assert_eq!(String::from("\x7f").sanitize_special(), "\\127");
    assert_eq!(String::from("\0").sanitize_special(), "\\0");
    assert_eq!(String::from("é").sanitize_special(), "\\233");
    assert_eq!(String::from("\u{10FFFF}").sanitize_special(), "\\1114111");
}
