use events::compiler::find_same_declared_name;
use events::names::{generated, identifier_texts, IdentifierTexts};
use events::schema::{Category, EventDef, FieldDef, Schema, SchemaError, Surface};
use events::{check_surface, compile, create_event_system, CaseStyle};

fn field(name: &str, ty: &str) -> FieldDef {
    FieldDef { name: name.to_string(), ty: ty.to_string() }
}

fn event(name: &str, fields: Vec<FieldDef>) -> EventDef {
    EventDef { name: name.to_string(), fields }
}

fn schema(system_name: &str, defs: Vec<EventDef>) -> Schema {
    Schema { system_name: system_name.to_string(), defs }
}

fn sample() -> Schema {
    schema(
        "EventSystem",
        vec![
            event("ApplicationLoad", vec![]),
            event("ApplicationExit", vec![]),
            event("KeyDown", vec![field("key", "u8")]),
        ],
    )
}

#[test]
fn sample_schema_compiles_to_its_surface() {
    let expected = Surface {
        system_name: "EventSystem".to_string(),
        categories: vec![
            Category {
                name: "ApplicationLoad".to_string(),
                ordinal: 0,
                payload_type: None,
                fields: vec![],
                listeners_field: "callbacks_application_load".to_string(),
                register_fn: "register_application_load".to_string(),
                fire_fn: "fire_application_load".to_string(),
            },
            Category {
                name: "ApplicationExit".to_string(),
                ordinal: 1,
                payload_type: None,
                fields: vec![],
                listeners_field: "callbacks_application_exit".to_string(),
                register_fn: "register_application_exit".to_string(),
                fire_fn: "fire_application_exit".to_string(),
            },
            Category {
                name: "KeyDown".to_string(),
                ordinal: 2,
                payload_type: Some("EventKeyDown".to_string()),
                fields: vec![field("key", "u8")],
                listeners_field: "callbacks_key_down".to_string(),
                register_fn: "register_key_down".to_string(),
                fire_fn: "fire_key_down".to_string(),
            },
        ],
    };
    assert_eq!(compile(&sample()), Ok(expected));
}

#[test]
fn ordinals_are_the_declaration_positions() {
    let surface = compile(&sample()).unwrap();
    assert_eq!(surface.category_count(), 3);
    for (position, category) in surface.categories.iter().enumerate() {
        assert_eq!(category.ordinal, position);
        assert_eq!(surface.index_of(&category.name), Some(position));
    }
    assert_eq!(surface.index_of("ApplicationLoad"), Some(0));
    assert_eq!(surface.index_of("ApplicationExit"), Some(1));
    assert_eq!(surface.index_of("KeyDown"), Some(2));
    assert_eq!(surface.index_of("KeyUp"), None);
    assert_eq!(surface.index_of(""), None);
    assert_eq!(surface.index_of("key_down"), None);
}

#[test]
fn ordinals_are_the_same_on_every_run() {
    assert_eq!(compile(&sample()), compile(&sample()));
}

#[test]
fn empty_schema_compiles_to_an_empty_surface() {
    let surface = compile(&schema("Nothing", vec![])).unwrap();
    assert_eq!(surface.system_name, "Nothing");
    assert_eq!(surface.category_count(), 0);
    assert_eq!(surface.index_of("Anything"), None);
}

#[test]
fn names_are_recased_by_identifier_role() {
    let surface = compile(&schema(
        "Net",
        vec![event("HTTPRequest", vec![field("status", "u16")]), event("peer_lost", vec![])],
    ))
    .unwrap();
    let request = &surface.categories[0];
    assert_eq!(request.name, "HTTPRequest");
    assert_eq!(request.payload_type.as_deref(), Some("EventHttpRequest"));
    assert_eq!(request.listeners_field, "callbacks_http_request");
    assert_eq!(request.register_fn, "register_http_request");
    assert_eq!(request.fire_fn, "fire_http_request");
    let lost = &surface.categories[1];
    assert_eq!(lost.payload_type, None);
    assert_eq!(lost.register_fn, "register_peer_lost");
    assert_eq!(lost.fire_fn, "fire_peer_lost");
}

#[test]
fn fields_are_held_as_their_tokens() {
    let surface = compile(&schema(
        "Input",
        vec![event(
            "Moved",
            vec![field(" x ", "i32"), field("path", "Vec<u8>"), field("at", "( u64,u64 )")],
        )],
    ))
    .unwrap();
    assert_eq!(
        surface.categories[0].fields,
        vec![field("x", "i32"), field("path", "Vec < u8 >"), field("at", "(u64 , u64)")]
    );
}

#[test]
fn system_name_must_be_an_identifier() {
    assert_eq!(compile(&schema("1st", vec![])), Err(SchemaError::InvalidSystemName));
    assert_eq!(compile(&schema("", vec![])), Err(SchemaError::InvalidSystemName));
    assert_eq!(compile(&schema("two words", vec![])), Err(SchemaError::InvalidSystemName));
    assert_eq!(compile(&schema("struct", vec![])), Err(SchemaError::InvalidSystemName));
}

#[test]
fn generated_identifiers_must_be_identifiers() {
    let bad = schema("S", vec![event("Fine", vec![]), event("dotted.name", vec![])]);
    assert_eq!(compile(&bad), Err(SchemaError::InvalidCategoryName { category: 1 }));
}

#[test]
fn field_names_must_be_identifiers() {
    let bad = schema(
        "S",
        vec![event("A", vec![]), event("B", vec![field("ok", "u8"), field("fn", "u8")])],
    );
    assert_eq!(compile(&bad), Err(SchemaError::InvalidFieldName { category: 1, field: 1 }));
}

#[test]
fn field_types_must_parse() {
    let bad = schema(
        "S",
        vec![event("A", vec![field("a", "u8"), field("b", "u16"), field("c", "Vec<")])],
    );
    assert_eq!(compile(&bad), Err(SchemaError::UnparseableFieldType { category: 0, field: 2 }));
    let empty = schema("S", vec![event("A", vec![field("a", "")])]);
    assert_eq!(compile(&empty), Err(SchemaError::UnparseableFieldType { category: 0, field: 0 }));
}

#[test]
fn field_name_is_checked_before_field_type() {
    let bad = schema("S", vec![event("A", vec![field("1", "Vec<")])]);
    assert_eq!(compile(&bad), Err(SchemaError::InvalidFieldName { category: 0, field: 0 }));
}

#[test]
fn duplicate_category_names_are_rejected() {
    let bad = schema(
        "S",
        vec![event("A", vec![]), event("B", vec![]), event("C", vec![]), event("B", vec![])],
    );
    assert_eq!(compile(&bad), Err(SchemaError::DuplicateCategory { first: 1, second: 3 }));
}

#[test]
fn the_first_repeated_category_is_reported() {
    let bad = schema(
        "S",
        vec![
            event("A", vec![]),
            event("B", vec![]),
            event("A", vec![]),
            event("B", vec![]),
            event("A", vec![]),
        ],
    );
    assert_eq!(compile(&bad), Err(SchemaError::DuplicateCategory { first: 0, second: 2 }));
}

#[test]
fn colliding_function_names_are_rejected() {
    let bad = schema("S", vec![event("KeyDown", vec![]), event("key_down", vec![])]);
    assert_eq!(compile(&bad), Err(SchemaError::IdentifierCollision { first: 0, second: 1 }));
}

#[test]
fn colliding_names_are_found_behind_distinct_ones() {
    let bad = schema(
        "S",
        vec![
            event("Load", vec![]),
            event("KeyDown", vec![field("key", "u8")]),
            event("Exit", vec![]),
            event("keyDown", vec![field("code", "u32")]),
        ],
    );
    assert_eq!(compile(&bad), Err(SchemaError::IdentifierCollision { first: 1, second: 3 }));
}

#[test]
fn duplicate_field_names_are_rejected() {
    let bad = schema(
        "S",
        vec![
            event("A", vec![field("x", "u8")]),
            event("B", vec![field("x", "u8"), field("y", "u8"), field("x", "u16")]),
        ],
    );
    assert_eq!(
        compile(&bad),
        Err(SchemaError::DuplicateField { category: 1, first: 0, second: 2 })
    );
}

#[test]
fn field_names_are_compared_as_identifiers() {
    let bad = schema("S", vec![event("A", vec![field("x", "u8"), field(" x", "u8")])]);
    assert_eq!(
        compile(&bad),
        Err(SchemaError::DuplicateField { category: 0, first: 0, second: 1 })
    );
}

#[test]
fn fields_of_different_categories_may_share_a_name() {
    let good = schema(
        "S",
        vec![event("A", vec![field("x", "u8")]), event("B", vec![field("x", "u8")])],
    );
    assert!(compile(&good).is_ok());
}

#[test]
fn duplicate_categories_are_reported_before_what_does_not_parse() {
    let bad = schema(
        "1st",
        vec![event("A", vec![]), event("A", vec![]), event("B", vec![field("x", "Vec<")])],
    );
    assert_eq!(compile(&bad), Err(SchemaError::DuplicateCategory { first: 0, second: 1 }));
}

#[test]
fn what_does_not_parse_is_reported_before_collisions() {
    let bad = schema(
        "S",
        vec![
            event("KeyDown", vec![field("x", "u8"), field("x", "u8")]),
            event("key_down", vec![]),
            event("B", vec![field("x", "Vec<")]),
        ],
    );
    assert_eq!(compile(&bad), Err(SchemaError::UnparseableFieldType { category: 2, field: 0 }));
}

#[test]
fn repeated_declared_names_are_found_in_order() {
    let none = schema("S", vec![event("A", vec![]), event("B", vec![]), event("a", vec![])]);
    assert_eq!(find_same_declared_name(&none), None);
    assert_eq!(find_same_declared_name(&schema("S", vec![])), None);
    let some = schema(
        "S",
        vec![event("A", vec![]), event("B", vec![]), event("C", vec![]), event("B", vec![])],
    );
    assert_eq!(find_same_declared_name(&some), Some((1, 3)));
}

#[test]
fn generated_texts_are_a_prefix_and_the_recased_name() {
    assert_eq!(generated("register_", "KeyDown", CaseStyle::Snake), "register_key_down");
    assert_eq!(generated("fire_", "HTTPRequest", CaseStyle::Snake), "fire_http_request");
    assert_eq!(generated("Event", "key_down", CaseStyle::Pascal), "EventKeyDown");
    assert_eq!(generated("Event", "dotted.name", CaseStyle::Pascal), "EventDotted.name");
    assert_eq!(generated("callbacks_", "", CaseStyle::Snake), "callbacks_");
}

#[test]
fn identifier_texts_follow_the_role_of_each_identifier() {
    assert_eq!(
        identifier_texts("KeyDown"),
        IdentifierTexts {
            payload_type: "EventKeyDown".to_string(),
            listeners_field: "callbacks_key_down".to_string(),
            register_fn: "register_key_down".to_string(),
            fire_fn: "fire_key_down".to_string(),
        }
    );
    assert_eq!(identifier_texts("application_exit").payload_type, "EventApplicationExit");
    assert_eq!(identifier_texts("application_exit").fire_fn, "fire_application_exit");
}

fn entry(name: &str, snake: &str, payload: Option<&str>, fields: Vec<FieldDef>) -> Category {
    Category {
        name: name.to_string(),
        ordinal: 0,
        payload_type: payload.map(|text| text.to_string()),
        fields,
        listeners_field: format!("callbacks_{snake}"),
        register_fn: format!("register_{snake}"),
        fire_fn: format!("fire_{snake}"),
    }
}

fn surface(categories: Vec<Category>) -> Surface {
    Surface { system_name: "S".to_string(), categories }
}

#[test]
fn well_formed_surface_is_handed_back() {
    let good = surface(vec![
        entry("A", "a", None, vec![]),
        entry("B", "b", Some("EventB"), vec![field("x", "u8"), field("y", "u8")]),
        entry("C", "c", Some("EventC"), vec![field("x", "u8")]),
    ]);
    assert_eq!(check_surface(good.clone()), Ok(good));
    let empty = surface(vec![]);
    assert_eq!(check_surface(empty.clone()), Ok(empty));
}

#[test]
fn surface_with_a_repeated_name_is_rejected() {
    let bad = surface(vec![
        entry("A", "a", None, vec![]),
        entry("B", "b", None, vec![]),
        entry("A", "other", None, vec![]),
    ]);
    assert_eq!(check_surface(bad), Err(SchemaError::DuplicateCategory { first: 0, second: 2 }));
}

#[test]
fn surface_with_a_shared_identifier_is_rejected() {
    let shared_fn = surface(vec![
        entry("A", "a", None, vec![]),
        entry("B", "same", None, vec![]),
        entry("C", "same", None, vec![]),
    ]);
    assert_eq!(
        check_surface(shared_fn),
        Err(SchemaError::IdentifierCollision { first: 1, second: 2 })
    );
    let shared_type = surface(vec![
        entry("A", "a", Some("EventX"), vec![field("x", "u8")]),
        entry("B", "b", None, vec![]),
        entry("C", "c", Some("EventX"), vec![field("y", "u8")]),
    ]);
    assert_eq!(
        check_surface(shared_type),
        Err(SchemaError::IdentifierCollision { first: 0, second: 2 })
    );
    let mut one_role = surface(vec![entry("A", "a", None, vec![]), entry("B", "b", None, vec![])]);
    one_role.categories[1].fire_fn = "fire_a".to_string();
    assert_eq!(
        check_surface(one_role),
        Err(SchemaError::IdentifierCollision { first: 0, second: 1 })
    );
}

#[test]
fn categories_without_payload_types_share_none() {
    let good = surface(vec![entry("A", "a", None, vec![]), entry("B", "b", None, vec![])]);
    assert!(check_surface(good).is_ok());
}

#[test]
fn surface_with_a_repeated_field_is_rejected() {
    let bad = surface(vec![
        entry("A", "a", Some("EventA"), vec![field("x", "u8")]),
        entry("B", "b", Some("EventB"), vec![field("x", "u8"), field("y", "u8"), field("y", "i8")]),
        entry("C", "c", Some("EventC"), vec![field("z", "u8"), field("z", "u8")]),
    ]);
    assert_eq!(
        check_surface(bad),
        Err(SchemaError::DuplicateField { category: 1, first: 1, second: 2 })
    );
}

#[test]
fn repeated_names_are_reported_before_shared_identifiers() {
    let bad = surface(vec![
        entry("A", "same", None, vec![]),
        entry("B", "same", None, vec![]),
        entry("C", "c", None, vec![]),
        entry("C", "d", None, vec![]),
    ]);
    assert_eq!(check_surface(bad), Err(SchemaError::DuplicateCategory { first: 2, second: 3 }));
}

#[test]
fn duplicate_categories_are_reported_before_duplicate_fields() {
    let bad = schema(
        "S",
        vec![
            event("A", vec![field("x", "u8"), field("x", "u8")]),
            event("B", vec![]),
            event("B", vec![]),
        ],
    );
    assert_eq!(compile(&bad), Err(SchemaError::DuplicateCategory { first: 1, second: 2 }));
}

#[test]
fn collisions_are_reported_before_duplicate_fields() {
    let bad = schema(
        "S",
        vec![
            event("A", vec![field("x", "u8"), field("x", "u8")]),
            event("KeyDown", vec![]),
            event("key_down", vec![]),
        ],
    );
    assert_eq!(compile(&bad), Err(SchemaError::IdentifierCollision { first: 1, second: 2 }));
}

#[test]
fn a_rejected_schema_has_no_source_text() {
    let bad = schema("S", vec![event("A", vec![]), event("A", vec![])]);
    assert_eq!(
        create_event_system(&bad),
        Err(SchemaError::DuplicateCategory { first: 0, second: 1 })
    );
}
