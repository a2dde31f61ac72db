use miniextendr_api::condition::{
    chain_message, is_reserved_condition_field, reserved_field_message, serde_err_parts,
    try_serde_err_parts, ErrParts, RCondition, RConditionError, RError, RValue,
};
use miniextendr_api::sexp::Sexp;

fn chr(s: &str) -> RValue {
    RValue::Character(vec![Some(s.to_string())])
}

fn names(parts: &ErrParts) -> Vec<&str> {
    parts
        .data
        .as_deref()
        .unwrap_or_default()
        .iter()
        .map(|(n, _)| n.as_str())
        .collect()
}

/// The serialized form of `Wrapped::Parse { message: "unexpected token", line: 3 }`.
fn parse_fields() -> Vec<(String, RValue)> {
    vec![
        ("message".to_string(), chr("unexpected token")),
        ("line".to_string(), RValue::Integer(vec![Some(3)])),
    ]
}

/// The serialized form of `Wrapped::Echo { message: "boom" }`.
fn echo_fields() -> Vec<(String, RValue)> {
    vec![("message".to_string(), chr("boom"))]
}

#[test]
fn internally_tagged_variant_becomes_member_class_and_fields_become_data() {
    let parts = serde_err_parts(
        "field `id` is missing".to_string(),
        Some("missing_field".to_string()),
        vec![("field".to_string(), chr("id"))],
        "engine",
        &[],
        &[],
    );
    assert_eq!(parts.message, "field `id` is missing");
    assert_eq!(parts.class, ["engine_missing_field", "engine"]);
    let data = parts.data.expect("fields become data");
    assert_eq!(data.len(), 1);
    assert_eq!(data[0].0, "field");
    assert!(matches!(&data[0].1, RValue::Character(v) if v == &vec![Some("id".to_string())]));
}

#[test]
fn unit_variant_has_classes_but_no_data() {
    let parts = serde_err_parts(
        "io".to_string(),
        Some("io".to_string()),
        Vec::new(),
        "engine",
        &[],
        &[],
    );
    assert_eq!(parts.class, ["engine_io", "engine"]);
    assert!(parts.data.is_none());
}

#[test]
fn value_without_variant_gets_only_the_family_class() {
    let parts = serde_err_parts(
        "plain 3".to_string(),
        None,
        vec![("code".to_string(), RValue::Integer(vec![Some(3)]))],
        "engine",
        &[],
        &[],
    );
    assert_eq!(parts.message, "plain 3");
    assert_eq!(parts.class, ["engine"]);
    let data = parts.data.expect("struct fields become data");
    assert_eq!(data[0].0, "code");
}

#[test]
fn message_field_equal_to_display_is_dropped_without_options() {
    let parts = serde_err_parts(
        "boom".to_string(),
        Some("echo".to_string()),
        echo_fields(),
        "p",
        &[],
        &[],
    );
    assert_eq!(parts.message, "boom");
    assert_eq!(parts.class, ["p_echo", "p"]);
    assert!(parts.data.is_none());
}

#[test]
fn rename_splices_the_field_under_the_new_name() {
    let parts = serde_err_parts(
        "line 3: unexpected token".to_string(),
        Some("parse".to_string()),
        parse_fields(),
        "p",
        &[],
        &[("message", "detail"), ("absent", "other")],
    );
    assert_eq!(names(&parts), ["detail", "line"]);
    let data = parts.data.expect("data");
    assert!(matches!(
        &data[0].1,
        RValue::Character(v) if v == &vec![Some("unexpected token".to_string())]
    ));

    let parts = serde_err_parts(
        "boom".to_string(),
        Some("echo".to_string()),
        echo_fields(),
        "p",
        &[],
        &[("message", "detail")],
    );
    assert_eq!(names(&parts), ["detail"]);
}

#[test]
fn rename_target_is_checked_per_variant_after_skip() {
    let parts = serde_err_parts(
        "bad".to_string(),
        Some("bad".to_string()),
        vec![("call".to_string(), chr("f()"))],
        "p",
        &[],
        &[("call", "line")],
    );
    assert_eq!(names(&parts), ["line"]);

    let parts = serde_err_parts(
        "line 3: unexpected token".to_string(),
        Some("parse".to_string()),
        parse_fields(),
        "p",
        &["line"],
        &[("message", "line")],
    );
    assert_eq!(names(&parts), ["line"]);
    let data = parts.data.expect("data");
    assert!(matches!(
        &data[0].1,
        RValue::Character(v) if v == &vec![Some("unexpected token".to_string())]
    ));
}

#[test]
fn rerror_builder_and_from_error() {
    let err = "x".parse::<i32>().unwrap_err();
    let e = RError::from_chain(&[err.to_string()]);
    let e = e.class(["member", "family"]).data("input", RValue::from_str("x"));
    assert!(e.message_str().contains("invalid digit"));
    assert_eq!(RConditionError::class(&e), vec!["member", "family"]);
    let data = RConditionError::data(&e).expect("data");
    assert_eq!(data[0].0, "input");

    assert!(RConditionError::data(&RError::new("m")).is_none());
    assert!(is_reserved_condition_field("call"));
    assert!(!is_reserved_condition_field("calls"));
}

#[test]
fn message_field_differing_from_display_is_rejected_as_reserved() {
    let err = try_serde_err_parts(
        "line 3: unexpected token".to_string(),
        Some("parse".to_string()),
        parse_fields(),
        "p",
        &[],
        &[],
    )
    .err()
    .expect("rejected");
    assert!(err.contains("reserved"), "{err}");
    assert!(err.contains("`message`"), "{err}");
    assert_eq!(err, reserved_field_message("message"));
}

#[test]
fn skip_drops_the_named_field() {
    let parts = try_serde_err_parts(
        "line 3: unexpected token".to_string(),
        Some("parse".to_string()),
        parse_fields(),
        "p",
        &["message", "absent"],
        &[],
    )
    .expect("builds");
    assert_eq!(parts.message, "line 3: unexpected token");
    assert_eq!(parts.class, ["p_parse", "p"]);
    assert_eq!(names(&parts), ["line"]);
}

#[test]
fn rename_onto_a_carried_name_is_rejected_with_the_rename() {
    let err = try_serde_err_parts(
        "line 3: unexpected token".to_string(),
        Some("parse".to_string()),
        parse_fields(),
        "p",
        &[],
        &[("message", "line")],
    )
    .err()
    .expect("rejected");
    assert_eq!(
        err,
        "#[miniextendr(serde_error)]: condition data field `line` appears twice: \
         `rename(message = \"line\")` targets a name this variant already carries; R's `e$line` \
         would read only the first. Pick another target or `skip` the existing field."
    );
}

#[test]
fn duplicate_serialized_names_are_rejected() {
    let err = try_serde_err_parts(
        "m".to_string(),
        None,
        vec![
            ("a".to_string(), RValue::Null),
            ("a".to_string(), RValue::Null),
        ],
        "p",
        &[],
        &[],
    )
    .err()
    .expect("rejected");
    assert!(err.contains("field `a` appears twice in the serialized payload"), "{err}");
}

#[test]
fn reserved_field_message_text() {
    assert_eq!(
        reserved_field_message("kind"),
        "condition data field `kind` is reserved: `message`, `call` and `kind` are the \
         condition's own slots; rename the field."
    );
}

#[test]
fn err_parts_checked_rejects_reserved_data() {
    let e = RError::new("m").data("kind", RValue::from_i32(2));
    let parts = ErrParts::checked(
        RConditionError::message(&e),
        RConditionError::class(&e),
        RConditionError::data(&e),
    );
    let msg = parts.err().expect("rejected");
    assert!(msg.contains("reserved"));
    assert!(msg.contains("`kind`"));
}

#[test]
fn chain_message_joins_causes() {
    let links = vec!["outer".to_string(), "middle".to_string(), "root".to_string()];
    assert_eq!(
        chain_message(&links),
        "outer\n  caused by: middle\n  caused by: root"
    );
}

fn tagged(message: &str, kind: &str) -> Sexp {
    let mut s = Sexp::list(vec![
        Sexp::scalar_string(Some(message.to_string())),
        Sexp::scalar_string(Some(kind.to_string())),
    ]);
    s.set_attr("class", Sexp::scalar_string(Some("rust_condition_value".to_string())));
    s.set_attr("__rust_condition__", Sexp::scalar_logical(1));
    s
}

#[test]
fn tagged_value_reconstructs_each_kind() {
    match RCondition::from_tagged_sexp(&tagged("boom", "panic")) {
        Some(RCondition::Error { message, class, data }) => {
            assert_eq!(message, "boom");
            assert!(class.is_empty());
            assert!(data.is_none());
        }
        other => panic!("wrong result: {other:?}"),
    }
    assert!(matches!(
        RCondition::from_tagged_sexp(&tagged("w", "warning")),
        Some(RCondition::Warning { .. })
    ));
    assert!(matches!(
        RCondition::from_tagged_sexp(&tagged("m", "message")),
        Some(RCondition::Message { .. })
    ));
    match RCondition::from_tagged_sexp(&tagged("odd", "mystery")) {
        Some(RCondition::Error { message, .. }) => assert_eq!(message, "[mystery] odd"),
        other => panic!("wrong result: {other:?}"),
    }
}

#[test]
fn untagged_values_are_not_conditions() {
    let plain = Sexp::list(vec![Sexp::scalar_integer(1), Sexp::scalar_integer(2)]);
    assert!(RCondition::from_tagged_sexp(&plain).is_none());

    let mut unmarked = tagged("boom", "error");
    unmarked.set_attr("__rust_condition__", Sexp::scalar_logical(0));
    assert!(RCondition::from_tagged_sexp(&unmarked).is_none());
}

#[test]
fn tagged_value_reads_classes_and_data() {
    let mut data = Sexp::list(vec![
        Sexp::scalar_integer(150),
        Sexp::scalar_integer(7),
        Sexp::opaque(miniextendr_api::sexp::SEXPTYPE::CLOSXP),
    ]);
    data.set_attr(
        "names",
        Sexp::character(vec![Some("value".to_string()), None, Some("f".to_string())]),
    );
    let mut s = Sexp::list(vec![
        Sexp::scalar_string(Some("out of range".to_string())),
        Sexp::scalar_string(Some("error".to_string())),
        Sexp::character(vec![Some("validation_error".to_string()), None]),
        Sexp::nil(),
        data,
    ]);
    s.set_attr("class", Sexp::scalar_string(Some("rust_condition_value".to_string())));
    s.set_attr("__rust_condition__", Sexp::scalar_logical(1));
    match RCondition::from_tagged_sexp(&s) {
        Some(RCondition::Error { message, class, data }) => {
            assert_eq!(message, "out of range");
            assert_eq!(class, vec!["validation_error"]);
            let data = data.expect("one field survives");
            assert_eq!(data.len(), 1);
            assert_eq!(data[0].0, "value");
            assert!(matches!(&data[0].1, RValue::Integer(v) if v == &vec![Some(150)]));
        }
        other => panic!("wrong result: {other:?}"),
    }
}

#[test]
fn rvalue_reads_na_aware_vectors() {
    let v = RValue::try_from_sexp(&Sexp::integer(vec![1, i32::MIN, 3])).expect("data");
    assert!(matches!(v, RValue::Integer(x) if x == vec![Some(1), None, Some(3)]));
    let v = RValue::try_from_sexp(&Sexp::logical(vec![1, 0, i32::MIN])).expect("data");
    assert!(matches!(v, RValue::Logical(x) if x == vec![Some(true), Some(false), None]));
    assert!(RValue::try_from_sexp(&Sexp::symbol("x".to_string())).is_err());
}

#[test]
fn rerror_data_copies_names_and_values() {
    let e = RError::new("m")
        .data("a", RValue::Integer(vec![Some(1), None]))
        .data("b", RValue::List(vec![(Some("k".to_string()), chr("v"))]));
    let data = RConditionError::data(&e).expect("data");
    assert_eq!(data.len(), 2);
    assert_eq!(data[0].0, "a");
    assert_eq!(format!("{:?}", data[0].1), format!("{:?}", RValue::Integer(vec![Some(1), None])));
    assert_eq!(data[1].0, "b");
    assert_eq!(format!("{:?}", data[1].1), format!("{:?}", e.fields()[1].1));
}
