use imagine_jobs::document::{find_field, Document, Number};
use imagine_jobs::template::{replace_placeholder, with_field};

fn text(s: &str) -> Document {
    Document::Text(s.to_string())
}

fn object(fields: Vec<(&str, Document)>) -> Document {
    Document::Object(fields.into_iter().map(|(k, v)| (k.to_string(), v)).collect())
}

fn nested_template() -> Document {
    object(vec![
        ("title", text("model ${token} here")),
        ("list", Document::Array(vec![text("${token}"), Document::Number(Number::PosInt(7)), text("plain")])),
        (
            "outer",
            object(vec![
                ("inner", object(vec![("value", text("a-${token}-b-${token}")), ("flag", Document::Bool(true))])),
                ("sibling", Document::Null),
            ]),
        ),
        ("${token}", text("keys are not rewritten")),
    ])
}

#[test]
fn substitution_reaches_every_depth_and_leaves_siblings() {
    let out = replace_placeholder(&nested_template(), "${token}", "X");
    let expected = object(vec![
        ("title", text("model X here")),
        ("list", Document::Array(vec![text("X"), Document::Number(Number::PosInt(7)), text("plain")])),
        (
            "outer",
            object(vec![
                ("inner", object(vec![("value", text("a-X-b-X")), ("flag", Document::Bool(true))])),
                ("sibling", Document::Null),
            ]),
        ),
        ("${token}", text("keys are not rewritten")),
    ]);
    assert_eq!(out, expected);
}

#[test]
fn substitution_with_absent_token_gives_an_equal_document() {
    let template = nested_template();
    let out = replace_placeholder(&template, "${absent}", "X");
    assert_eq!(out, template);
}

#[test]
fn substitution_leaves_the_template_as_it_was() {
    let template = nested_template();
    let copy = template.clone();
    let _ = replace_placeholder(&template, "${token}", "X");
    assert_eq!(template, copy);
}

#[test]
fn substitution_of_scalars_is_the_identity() {
    assert_eq!(replace_placeholder(&Document::Null, "a", "b"), Document::Null);
    assert_eq!(replace_placeholder(&Document::Bool(false), "a", "b"), Document::Bool(false));
    assert_eq!(
        replace_placeholder(&Document::Number(Number::Float(0x4012000000000000)), "4", "5"),
        Document::Number(Number::Float(0x4012000000000000))
    );
    assert_eq!(replace_placeholder(&Document::Array(vec![]), "a", "b"), Document::Array(vec![]));
}

#[test]
fn clone_copies_the_whole_document() {
    let template = nested_template();
    assert_eq!(template.clone(), template);
}

#[test]
fn get_finds_the_first_member_of_that_name() {
    let doc = object(vec![("a", text("1")), ("b", text("2")), ("a", text("3"))]);
    assert_eq!(doc.get("a"), Some(&text("1")));
    assert_eq!(doc.get("b"), Some(&text("2")));
    assert_eq!(doc.get("c"), None);
    assert_eq!(text("a").get("a"), None);
    assert_eq!(Document::Array(vec![text("a")]).get("a"), None);
}

#[test]
fn find_follows_a_path_of_members() {
    let doc = nested_template();
    assert_eq!(doc.find(&["outer", "inner", "flag"]), Some(&Document::Bool(true)));
    assert_eq!(doc.find(&["outer", "sibling"]), Some(&Document::Null));
    assert_eq!(doc.find(&[]), Some(&doc));
    assert_eq!(doc.find(&["outer", "missing", "flag"]), None);
    assert_eq!(doc.find(&["title", "deeper"]), None);
}

#[test]
fn as_text_gives_the_text_of_a_string_only() {
    assert_eq!(text("abc").as_text(), Some("abc"));
    assert_eq!(Document::Null.as_text(), None);
    assert_eq!(Document::Number(Number::PosInt(1)).as_text(), None);
}

#[test]
fn set_at_overwrites_a_member_in_place() {
    let doc = nested_template();
    let out = doc.set_at(&["outer", "inner"], "value", text("new")).unwrap();
    assert_eq!(out.find(&["outer", "inner", "value"]), Some(&text("new")));
    assert_eq!(out.find(&["outer", "inner", "flag"]), Some(&Document::Bool(true)));
    assert_eq!(out.find(&["outer", "sibling"]), Some(&Document::Null));
    assert_eq!(out.get("title"), doc.get("title"));
    assert_eq!(out.get("list"), doc.get("list"));
    let expected_inner = object(vec![("value", text("new")), ("flag", Document::Bool(true))]);
    assert_eq!(out.find(&["outer", "inner"]), Some(&expected_inner));
}

#[test]
fn set_at_adds_a_member_that_is_not_there() {
    let doc = object(vec![("a", object(vec![("x", Document::Null)]))]);
    let out = doc.set_at(&["a"], "y", Document::Bool(true)).unwrap();
    assert_eq!(out, object(vec![("a", object(vec![("x", Document::Null), ("y", Document::Bool(true))]))]));
    let top = doc.set_at(&[], "b", Document::Null).unwrap();
    assert_eq!(top, object(vec![("a", object(vec![("x", Document::Null)])), ("b", Document::Null)]));
}

#[test]
fn set_at_fails_where_the_path_leaves_the_objects() {
    let doc = nested_template();
    assert_eq!(doc.set_at(&["outer", "missing"], "k", Document::Null), None);
    assert_eq!(doc.set_at(&["title"], "k", Document::Null), None);
    assert_eq!(doc.set_at(&["list"], "k", Document::Null), None);
    assert_eq!(Document::Null.set_at(&[], "k", Document::Null), None);
    assert_eq!(text("x").set_at(&[], "k", Document::Null), None);
}

#[test]
fn find_field_gives_the_first_index_or_the_length() {
    let fields = vec![
        ("a".to_string(), Document::Null),
        ("b".to_string(), Document::Null),
        ("a".to_string(), Document::Bool(true)),
    ];
    assert_eq!(find_field(&fields, "a"), 0);
    assert_eq!(find_field(&fields, "b"), 1);
    assert_eq!(find_field(&fields, "c"), 3);
    assert_eq!(find_field(&Vec::new(), "a"), 0);
}

#[test]
fn with_field_binds_a_key() {
    let fields = vec![("a".to_string(), Document::Null), ("b".to_string(), Document::Null)];
    assert_eq!(
        with_field(&fields, "a", Document::Bool(true)),
        vec![("a".to_string(), Document::Bool(true)), ("b".to_string(), Document::Null)]
    );
    assert_eq!(
        with_field(&fields, "c", Document::Bool(true)),
        vec![
            ("a".to_string(), Document::Null),
            ("b".to_string(), Document::Null),
            ("c".to_string(), Document::Bool(true))
        ]
    );
}

#[test]
fn numbers_from_i32_keep_their_sign() {
    assert_eq!(Number::from_i32(8), Number::PosInt(8));
    assert_eq!(Number::from_i32(0), Number::PosInt(0));
    assert_eq!(Number::from_i32(-3), Number::NegInt(-3));
    assert_eq!(Number::from_i32(i32::MAX), Number::PosInt(2147483647));
    assert_eq!(Number::from_i32(i32::MIN), Number::NegInt(-2147483648));
}

#[test]
fn numbers_as_i64_keep_integers_in_range() {
    assert_eq!(Number::PosInt(5).as_i64(), Some(5));
    assert_eq!(Number::PosInt(i64::MAX as u64).as_i64(), Some(i64::MAX));
    assert_eq!(Number::PosInt(i64::MAX as u64 + 1).as_i64(), None);
    assert_eq!(Number::NegInt(-5).as_i64(), Some(-5));
    assert_eq!(Number::Float(0x3ff0000000000000).as_i64(), None);
}
