//! Tests for the schema compiler: normalization, deduplication,
//! determinism, array shapes, enum inference, and the error taxonomy.

use kgltf::emitter::compile;
use kgltf::json::{parse_json, Json};
use kgltf::parser::Parser;
use kgltf::schema::{CompileError, CompileFailure, EnumValue, Item, StructDefinition};

fn files(pairs: &[(&str, &str)]) -> Vec<(String, String)> {
    pairs.iter().map(|(p, t)| (p.to_string(), t.to_string())).collect()
}

fn expect_failure(r: Result<String, CompileFailure>, error: CompileError, path: &str) {
    match r {
        Err(f) => {
            assert_eq!(f.error, error);
            assert_eq!(f.path, path);
        }
        Ok(out) => panic!("expected a failure, compiled: {}", out),
    }
}

#[test]
fn compile_small_schema_exact_output() {
    let entry = r#"{
        "type": "object",
        "title": "Thing",
        "description": "A thing.",
        "required": ["count"],
        "properties": {
            "name": { "type": "string", "description": "The name." },
            "count": { "type": "integer", "minimum": 0 }
        }
    }"#;
    let out = compile(files(&[("thing.schema.json", entry)]), "thing.schema.json").unwrap();
    let expected = "use kjson::Value;\n\
        /// A thing.\n\
        pub struct Thing {\n\
        \x20   count: i64,\n\
        \x20   /// The name.\n\
        \x20   name: String,\n\
        }\n\n";
    assert_eq!(out, expected);
}

#[test]
fn determinism_same_tree_twice() {
    let entry = r#"{
        "type": "object",
        "title": "Root",
        "properties": {
            "child": { "$ref": "child.schema.json" },
            "kids": { "type": "array", "items": { "$ref": "child.schema.json" } }
        }
    }"#;
    let child = r#"{
        "type": "object",
        "title": "Child",
        "properties": { "id": { "type": "integer" } }
    }"#;
    let fs = &[("root.schema.json", entry), ("child.schema.json", child)];
    let out1 = compile(files(fs), "root.schema.json").unwrap();
    let out2 = compile(files(fs), "root.schema.json").unwrap();
    assert_eq!(out1, out2);
    assert!(!out1.is_empty());
}

#[test]
fn deduplication_one_definition_per_title() {
    let entry = r#"{
        "type": "object",
        "title": "Root",
        "properties": {
            "first": { "$ref": "child.schema.json" },
            "second": { "$ref": "child.schema.json" },
            "third": { "type": "object", "title": "Child",
                       "properties": { "other": { "type": "boolean" } } }
        }
    }"#;
    let child = r#"{
        "type": "object",
        "title": "Child",
        "properties": { "id": { "type": "integer" } }
    }"#;
    let out = compile(
        files(&[("root.schema.json", entry), ("child.schema.json", child)]),
        "root.schema.json",
    )
    .unwrap();
    assert_eq!(out.matches("pub struct Child {").count(), 1);
    // The first registration won: the definition has Child's `id` field,
    // not the later reference site's `other`.
    assert!(out.contains("    id: i64,\n"));
    assert!(!out.contains("other"));
}

#[test]
fn deduplication_reference_sites_share_handle() {
    let child = r#"{
        "type": "object",
        "title": "Child",
        "properties": { "id": { "type": "integer" } }
    }"#;
    let mut parser = Parser::new(files(&[("child.schema.json", child)]));
    let a = parser.parse_file("child.schema.json", 64).unwrap();
    let b = parser.parse_file("child.schema.json", 64).unwrap();
    assert_eq!(a, Item::Struct(0));
    assert_eq!(b, Item::Struct(0));
    assert_eq!(parser.structs.len(), 1);
    assert_eq!(parser.lookup("Child"), Some(0));
}

#[test]
fn array_shape_fixed_and_variable() {
    let entry = r#"{
        "type": "object",
        "title": "Shapes",
        "properties": {
            "fixed": { "type": "array", "items": { "type": "integer" },
                       "minItems": 3, "maxItems": 3 },
            "open": { "type": "array", "items": { "type": "integer" },
                      "minItems": 0 }
        }
    }"#;
    let out = compile(files(&[("shapes.schema.json", entry)]), "shapes.schema.json").unwrap();
    assert!(out.contains("    fixed: [i64; 3],\n"));
    assert!(out.contains("    open: Vec<i64>,\n"));
}

#[test]
fn enum_inference_two_options() {
    let text = r#"{
        "anyOf": [
            { "enum": [1], "description": "A" },
            { "enum": [2], "description": "B" },
            { "type": "integer" }
        ]
    }"#;
    let j = parse_json(text).unwrap();
    let mut parser = Parser::new(Vec::new());
    let item = parser.parse_item(&j, "", 64).unwrap();
    assert_eq!(item, Item::Enum(0));
    let def = &parser.enums[0];
    assert_eq!(def.options.len(), 2);
    assert_eq!(def.options[0].name.as_deref(), Some("A"));
    assert_eq!(def.options[0].value, EnumValue::Integer(1));
    assert_eq!(def.options[1].name.as_deref(), Some("B"));
    assert_eq!(def.options[1].value, EnumValue::Integer(2));
    let mut out = String::new();
    parser.write_to_string(&mut out);
    assert!(out.contains("    A = 1,\n"));
    assert!(out.contains("    B = 2,\n"));
}

#[test]
fn properties_iterate_name_sorted() {
    // Entries handed in out of order still come out sorted by name.
    let j = Json::Obj(vec![
        ("type".to_string(), Json::Str("object".to_string())),
        ("title".to_string(), Json::Str("T".to_string())),
        (
            "properties".to_string(),
            Json::Obj(vec![
                ("zeta".to_string(), Json::Obj(vec![(
                    "type".to_string(),
                    Json::Str("boolean".to_string()),
                )])),
                ("alpha".to_string(), Json::Obj(vec![(
                    "type".to_string(),
                    Json::Str("integer".to_string()),
                )])),
            ]),
        ),
    ]);
    let mut parser = Parser::new(Vec::new());
    parser.parse_item(&j, "", 64).unwrap();
    let props = &parser.structs[0].properties;
    assert_eq!(props.len(), 2);
    assert_eq!(props[0].title, "alpha");
    assert_eq!(props[1].title, "zeta");
}

#[test]
fn all_of_first_writer_wins() {
    let entry = r#"{
        "type": "object",
        "title": "Merged",
        "properties": { "a": { "type": "string" } },
        "allOf": [ { "$ref": "base.schema.json" } ]
    }"#;
    let base = r#"{
        "type": "object",
        "title": "Base",
        "properties": {
            "a": { "type": "integer" },
            "b": { "type": "integer" }
        }
    }"#;
    let out = compile(
        files(&[("merged.schema.json", entry), ("base.schema.json", base)]),
        "merged.schema.json",
    )
    .unwrap();
    // The object's own `a: String` is kept; only `b` is spliced in.
    assert!(out.contains("pub struct Merged {\n    a: String,\n    b: i64,\n}\n"));
}

#[test]
fn required_flag_is_recorded() {
    let entry = r#"{
        "type": "object",
        "title": "R",
        "required": ["a"],
        "properties": {
            "a": { "type": "string" },
            "b": { "type": "string" }
        }
    }"#;
    let mut parser = Parser::new(files(&[("r.schema.json", entry)]));
    parser.parse_file("r.schema.json", 64).unwrap();
    let props = &parser.structs[0].properties;
    assert!(props[0].required);
    assert!(!props[1].required);
}

#[test]
fn integer_range_defaults_and_bounds() {
    let j = parse_json(r#"{ "type": "integer", "minimum": -5 }"#).unwrap();
    let mut parser = Parser::new(Vec::new());
    let item = parser.parse_item(&j, "", 64).unwrap();
    match item {
        Item::Integer(r) => {
            assert_eq!(r.minimum, -5);
            assert_eq!(r.maximum, i64::MAX);
        }
        other => panic!("expected an integer item, got {:?}", other),
    }
}

#[test]
fn top_level_all_of_uses_first_branch() {
    let j = parse_json(r#"{ "allOf": [ { "type": "string" }, { "type": "integer" } ] }"#).unwrap();
    let mut parser = Parser::new(Vec::new());
    assert_eq!(parser.parse_item(&j, "", 64).unwrap(), Item::String);
}

#[test]
fn unknown_schema_kinds() {
    let mut parser = Parser::new(Vec::new());
    let j = parse_json(r#"{ "type": "weird" }"#).unwrap();
    assert_eq!(parser.parse_item(&j, "", 64).unwrap(), Item::Unknown);
    let j = parse_json(r#"{ "description": "nothing else" }"#).unwrap();
    assert_eq!(parser.parse_item(&j, "", 64).unwrap(), Item::Unknown);
}

#[test]
fn empty_object_schema_emits_empty_struct() {
    let entry = r#"{ "type": "object", "title": "Empty" }"#;
    let out = compile(files(&[("empty.schema.json", entry)]), "empty.schema.json").unwrap();
    assert_eq!(out, "use kjson::Value;\npub struct Empty {\n}\n\n");
}

#[test]
fn whitespace_is_stripped_from_titles() {
    let entry = r#"{
        "type": "object",
        "title": "Animation Channel Target",
        "properties": {}
    }"#;
    let out = compile(files(&[("t.schema.json", entry)]), "t.schema.json").unwrap();
    assert!(out.contains("pub struct AnimationChannelTarget {"));
}

#[test]
fn only_max_items_bound() {
    let entry = r#"{
        "type": "object",
        "title": "OnlyMax",
        "properties": {
            "capped": { "type": "array", "items": { "type": "string" }, "maxItems": 2 }
        }
    }"#;
    let out = compile(files(&[("m.schema.json", entry)]), "m.schema.json").unwrap();
    // The absent lower bound defaults to zero, which differs from the
    // upper bound, so the field stays variable-length.
    assert!(out.contains("    capped: Vec<String>,\n"));
}

#[test]
fn nested_array_item() {
    let j = parse_json(
        r#"{ "type": "array", "items": { "type": "array", "items": { "type": "number" } } }"#,
    )
    .unwrap();
    let mut parser = Parser::new(Vec::new());
    let item = parser.parse_item(&j, "", 64).unwrap();
    let name = parser.item_name(&item);
    assert_eq!(name, "Vec<Vec<f32>>");
}

#[test]
fn string_enum_options() {
    let text = r#"{
        "title": "Mode",
        "anyOf": [
            { "enum": ["OPAQUE"], "description": "Opaque" },
            { "enum": ["BLEND"], "description": "Blend" },
            { "type": "string" }
        ]
    }"#;
    let j = parse_json(text).unwrap();
    let mut parser = Parser::new(Vec::new());
    parser.parse_item(&j, "", 64).unwrap();
    let mut out = String::new();
    parser.write_to_string(&mut out);
    assert!(out.contains("pub enum Mode {"));
    assert!(out.contains("    Opaque = \"OPAQUE\",\n"));
    assert!(out.contains("    Blend = \"BLEND\",\n"));
}

#[test]
fn number_enum_keeps_constant_text() {
    let text = r#"{
        "anyOf": [
            { "enum": [1.5], "description": "Half" },
            { "type": "number" }
        ]
    }"#;
    let j = parse_json(text).unwrap();
    let mut parser = Parser::new(Vec::new());
    parser.parse_item(&j, "", 64).unwrap();
    assert_eq!(parser.enums[0].options[0].value, EnumValue::Number("1.5".to_string()));
    let mut out = String::new();
    parser.write_to_string(&mut out);
    assert!(out.contains("    Half = 1.5,\n"));
}

#[test]
fn negative_enum_constant_emits_signed_text() {
    let text = r#"{
        "anyOf": [
            { "enum": [-3], "description": "MinusThree" },
            { "type": "integer" }
        ]
    }"#;
    let j = parse_json(text).unwrap();
    let mut parser = Parser::new(Vec::new());
    parser.parse_item(&j, "", 64).unwrap();
    assert_eq!(parser.enums[0].options[0].value, EnumValue::Integer(-3));
    let mut out = String::new();
    parser.write_to_string(&mut out);
    assert!(out.contains("    MinusThree = -3,\n"));
}

#[test]
fn branch_without_enum_contributes_nothing() {
    let text = r#"{
        "anyOf": [
            { "description": "no constant here" },
            { "enum": [7], "description": "Seven" },
            { "type": "integer" }
        ]
    }"#;
    let j = parse_json(text).unwrap();
    let mut parser = Parser::new(Vec::new());
    parser.parse_item(&j, "", 64).unwrap();
    assert_eq!(parser.enums[0].options.len(), 1);
    assert_eq!(parser.enums[0].options[0].value, EnumValue::Integer(7));
}

#[test]
fn opaque_fields_emit_value_type_with_diagnostic() {
    let entry = r#"{
        "type": "object",
        "title": "Holder",
        "properties": {
            "extensions": {},
            "misc": { "description": "anything at all" }
        }
    }"#;
    let mut parser = Parser::new(files(&[("holder.schema.json", entry)]));
    parser.parse_file("holder.schema.json", 64).unwrap();
    let mut out = String::new();
    parser.write_to_string(&mut out);
    assert!(out.contains("    extensions: kjson::Value,\n"));
    assert!(out.contains("    misc: kjson::Value,\n"));
    let diags = parser.diagnostics();
    assert_eq!(diags.len(), 2);
    assert_eq!(diags[0], "Holder.extensions: open-ended value emitted as an opaque type");
    assert_eq!(diags[1], "Holder.misc: open-ended value emitted as an opaque type");
    // A struct without opaque fields raises none.
    let plain = r#"{ "type": "object", "title": "P",
                     "properties": { "n": { "type": "integer" } } }"#;
    let mut parser = Parser::new(files(&[("p.schema.json", plain)]));
    parser.parse_file("p.schema.json", 64).unwrap();
    assert!(parser.diagnostics().is_empty());
}

#[test]
fn error_not_found() {
    let entry = r#"{ "$ref": "missing.schema.json" }"#;
    let r = compile(files(&[("entry.schema.json", entry)]), "entry.schema.json");
    expect_failure(r, CompileError::NotFound, "missing.schema.json");
}

#[test]
fn error_parse_error() {
    let r = compile(files(&[("entry.schema.json", "{ not json")]), "entry.schema.json");
    expect_failure(r, CompileError::ParseError, "entry.schema.json");
}

#[test]
fn error_missing_title() {
    let entry = r#"{ "type": "object", "properties": {} }"#;
    let r = compile(files(&[("entry.schema.json", entry)]), "entry.schema.json");
    expect_failure(r, CompileError::MissingTitle, "entry.schema.json");
}

#[test]
fn error_missing_items() {
    let entry = r#"{ "type": "array", "minItems": 1 }"#;
    let r = compile(files(&[("entry.schema.json", entry)]), "entry.schema.json");
    expect_failure(r, CompileError::MissingItems, "entry.schema.json");
}

#[test]
fn error_missing_enum_branch_type() {
    let entry = r#"{ "anyOf": [ { "enum": [1], "description": "A" } ] }"#;
    let r = compile(files(&[("entry.schema.json", entry)]), "entry.schema.json");
    expect_failure(r, CompileError::MissingEnumBranchType, "entry.schema.json");
}

#[test]
fn error_malformed_keyword() {
    let entry = r#"{ "type": "object", "title": "T", "required": 5 }"#;
    let r = compile(files(&[("entry.schema.json", entry)]), "entry.schema.json");
    expect_failure(r, CompileError::Malformed, "entry.schema.json");
}

#[test]
fn error_recursion_limit_on_ref_cycle() {
    let entry = r#"{ "$ref": "entry.schema.json" }"#;
    let r = compile(files(&[("entry.schema.json", entry)]), "entry.schema.json");
    expect_failure(r, CompileError::RecursionLimit, "entry.schema.json");
}

#[test]
fn open_ended_text_is_a_parse_error() {
    // Text whose last non-whitespace character is an opening bracket is
    // never valid JSON; the parser boundary screens it instead of
    // handing it down.
    assert!(parse_json("[").is_none());
    assert!(parse_json("{").is_none());
    assert!(parse_json("[ \t\n").is_none());
    assert!(parse_json("[1, [").is_none());
    assert!(parse_json(r#"{"a": {"#).is_none());
    // A bracket inside a string literal is not open-ended text.
    assert!(parse_json(r#""[""#).is_some());
    let r = compile(files(&[("entry.schema.json", "[")]), "entry.schema.json");
    expect_failure(r, CompileError::ParseError, "entry.schema.json");
}

#[test]
fn trailing_backslash_is_a_parse_error() {
    // A text ending in a backslash leaves the underlying string scanner
    // no way forward; it is screened, and it is never valid JSON.
    assert!(parse_json("\"\\").is_none());
    assert!(parse_json("\"abc\\").is_none());
    assert!(parse_json("[\"a\", \"\\").is_none());
    // A properly escaped backslash inside a closed string is fine.
    assert_eq!(parse_json("\"a\\\\\""), Some(Json::Str("a\\".to_string())));
    let r = compile(files(&[("entry.schema.json", "\"\\")]), "entry.schema.json");
    expect_failure(r, CompileError::ParseError, "entry.schema.json");
}

#[test]
fn nesting_past_the_defensive_bound_is_refused() {
    // Balanced but far beyond the bound: answered without consulting
    // the parser.
    let mut deep = String::new();
    for _ in 0..1100 {
        deep.push('[');
    }
    deep.push('0');
    for _ in 0..1100 {
        deep.push(']');
    }
    assert!(parse_json(&deep).is_none());
    // Modest nesting parses.
    let mut ok = String::new();
    for _ in 0..50 {
        ok.push('[');
    }
    ok.push('0');
    for _ in 0..50 {
        ok.push(']');
    }
    assert!(parse_json(&ok).is_some());
    // Brackets inside string literals do not nest, in either direction.
    assert_eq!(parse_json(r#""[[[[""#), Some(Json::Str("[[[[".to_string())));
    assert!(parse_json(r#"["]"]"#).is_some());
    // An escaped quote keeps the scan inside the string.
    assert_eq!(parse_json(r#""a\"b""#), Some(Json::Str("a\"b".to_string())));
}

#[test]
fn resolve_same_path_same_content() {
    let parser = Parser::new(files(&[("a.json", r#"{ "x": 1 }"#)]));
    let d1 = parser.resolve("a.json").unwrap();
    let d2 = parser.resolve("a.json").unwrap();
    assert_eq!(d1, d2);
}

#[test]
fn register_is_idempotent() {
    let mut parser = Parser::new(Vec::new());
    let h1 = parser.new_struct(
        "T".to_string(),
        StructDefinition { title: "T".to_string(), description: None, properties: Vec::new() },
    );
    let h2 = parser.new_struct(
        "T".to_string(),
        StructDefinition {
            title: "T".to_string(),
            description: Some("ignored".to_string()),
            properties: Vec::new(),
        },
    );
    assert_eq!(h1, h2);
    assert_eq!(parser.structs.len(), 1);
    assert_eq!(parser.structs[0].description, None);
}
