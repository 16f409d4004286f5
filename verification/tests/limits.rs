use events::limits::{symbol, within, word_like, WEIGHT_LIMIT};
use events::schema::{EventDef, FieldDef, Schema, SchemaError};
use events::syntax::{read_ident, read_type};
use events::{compile, create_event_system};

fn with_type(ty: String) -> Schema {
    Schema {
        system_name: "S".to_string(),
        defs: vec![
            EventDef { name: "A".to_string(), fields: vec![] },
            EventDef {
                name: "B".to_string(),
                fields: vec![
                    FieldDef { name: "x".to_string(), ty: "u8".to_string() },
                    FieldDef { name: "y".to_string(), ty },
                ],
            },
        ],
    }
}

fn parens(depth: usize) -> String {
    format!("{}u8{}", "(".repeat(depth), ")".repeat(depth))
}

fn refs(depth: usize) -> String {
    format!("{}u8", "& ".repeat(depth))
}

fn generics(depth: usize) -> String {
    format!("{}u8{}", "Vec<".repeat(depth), ">".repeat(depth))
}

fn casts(depth: usize) -> String {
    format!("[u8; 1 {}]", "as u8 ".repeat(depth))
}

fn return_chain(depth: usize) -> String {
    format!("[u8; {}1]", "return ".repeat(depth))
}

#[test]
fn brackets_and_operators_are_structural() {
    for c in "()[]{}<>&*-!;'#\"+=./|?@$%^~`\\".chars() {
        assert!(symbol(c), "{c:?}");
        assert!(!word_like(c), "{c:?}");
    }
    for c in "azAZ09_\u{e9}\u{4e2d}".chars() {
        assert!(!symbol(c), "{c:?}");
        assert!(word_like(c), "{c:?}");
    }
    for c in " \t\r\n:,".chars() {
        assert!(!symbol(c), "{c:?}");
        assert!(!word_like(c), "{c:?}");
    }
}

#[test]
fn words_and_structural_characters_are_counted() {
    assert!(within("", 0));
    assert!(within(" \n :: , ", 0));
    assert!(within("key_down", 1));
    assert!(!within("key_down", 0));
    assert!(within("std::collections::HashMap", 3));
    assert!(!within("std::collections::HashMap", 2));
    assert!(within("Vec<u8>", 4));
    assert!(!within("Vec<u8>", 3));
    assert!(within("Option<Box<dyn Fn(u8) -> bool>>", 14));
    assert!(!within("Option<Box<dyn Fn(u8) -> bool>>", 13));
    assert!(within("\u{e9}t\u{e9} \u{4e2d}\u{6587}x", 2));
    assert!(!within("\u{e9}t\u{e9} \u{4e2d}\u{6587}x", 1));
    assert!(!within(&"(".repeat(100_000), WEIGHT_LIMIT));
    assert!(!within(&"a ".repeat(100_000), WEIGHT_LIMIT));
}

#[test]
fn the_limit_is_forty_eight() {
    assert_eq!(WEIGHT_LIMIT, 48);
}

#[test]
fn identifiers_of_word_characters_are_read_as_they_stand() {
    assert_eq!(read_ident("key_down"), Some("key_down".to_string()));
    assert_eq!(read_ident("EventKeyDown"), Some("EventKeyDown".to_string()));
    assert_eq!(read_ident("_x9"), Some("_x9".to_string()));
    assert_eq!(read_ident("fn"), None);
    assert_eq!(read_ident("_"), None);
    assert_eq!(read_ident("9lives"), None);
    assert_eq!(read_ident(""), None);
}

#[test]
fn text_beyond_the_limit_is_not_read() {
    assert_eq!(read_type(&parens(23)), Some(parens(23)));
    assert_eq!(read_type(&parens(24)), None);
    assert_eq!(read_type(&parens(5000)), None);
    assert_eq!(read_type(&refs(48)), None);
    assert_eq!(read_type(&generics(16)), None);
    assert_eq!(read_type(&casts(22)), None);
    assert_eq!(read_type(&return_chain(5000)), None);
    assert_eq!(read_ident(&format!("x{}", " /**/".repeat(11))), Some("x".to_string()));
    assert_eq!(read_ident(&format!("x{}", " /**/".repeat(12))), None);
    assert_eq!(read_ident(&"(".repeat(5000)), None);
}

#[test]
fn texts_at_the_limit_are_read() {
    assert!(read_type(&parens(23)).is_some());
    assert!(read_type(&refs(47)).is_some());
    assert!(read_type(&generics(15)).is_some());
    assert!(read_type(&format!("{}u8", "*const ".repeat(23))).is_some());
    assert!(read_type(&format!("{}u8", "fn() -> ".repeat(9))).is_some());
    assert!(read_type(&format!("{}u8{}", "[".repeat(11), "; 1]".repeat(11))).is_some());
    assert!(read_type(&casts(21)).is_some());
    assert!(read_type(&return_chain(43)).is_some());
    assert!(read_type(&format!("[u8; {}1]", "- ".repeat(43))).is_some());
    assert!(read_type(&format!("a{}", "::a".repeat(47))).is_some());
}

#[test]
fn deeply_nested_type_is_unparseable() {
    assert_eq!(
        compile(&with_type(parens(24))),
        Err(SchemaError::UnparseableFieldType { category: 1, field: 1 })
    );
    assert_eq!(
        create_event_system(&with_type(generics(4000))),
        Err(SchemaError::UnparseableFieldType { category: 1, field: 1 })
    );
    assert!(compile(&with_type(parens(23))).is_ok());
}

#[test]
fn deeply_nested_names_are_invalid() {
    let deep = "(".repeat(4000);
    let mut schema = with_type("u8".to_string());
    schema.system_name = deep.clone();
    assert_eq!(compile(&schema), Err(SchemaError::InvalidSystemName));
    let mut schema = with_type("u8".to_string());
    schema.defs[0].name = deep.clone();
    assert_eq!(compile(&schema), Err(SchemaError::InvalidCategoryName { category: 0 }));
    let mut schema = with_type("u8".to_string());
    schema.defs[1].fields[0].name = deep;
    assert_eq!(compile(&schema), Err(SchemaError::InvalidFieldName { category: 1, field: 0 }));
}
