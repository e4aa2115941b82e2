use vault_planner::util::{pick_meta, remove_meta, split_front_matter, Parts};
use vault_planner::yaml::YamlValue;
use vault_planner::WorldError;

#[test]
fn text_without_delimiter_is_all_body() {
    for text in ["", "plain text", "- a list\n", "--", "-- -", " ---\nkey: 1\n---\n", "\n---\n"] {
        let (body, meta) = remove_meta(text).expect("no front-matter is no error");
        assert_eq!(body, text);
        assert_eq!(meta, None);
    }
}

#[test]
fn opening_without_closing_is_no_ending() {
    for text in [
        "---",
        "---\n",
        "----",
        "------",
        "---\npriority: 3\n",
        "---\npriority: 3\n--\n",
        "--- - --",
        "---\ntitle: a---b\n",
        "---\ntitle: a\n ---\n",
        "---\ntitle: a ---\nbody",
    ] {
        assert!(matches!(remove_meta(text), Err(WorldError::NoMetadataEnding)), "{:?}", text);
    }
}

#[test]
fn front_matter_is_read_as_yaml() {
    let (body, meta) = remove_meta("---\npriority: 3\nname: a.md\n---\n# Title\n").unwrap();
    assert_eq!(body, "\n# Title\n");
    assert_eq!(
        meta,
        Some(YamlValue::Hash(vec![
            (YamlValue::String("priority".to_string()), YamlValue::Integer(3)),
            (YamlValue::String("name".to_string()), YamlValue::String("a.md".to_string())),
        ]))
    );
}

#[test]
fn body_starts_behind_first_closing_delimiter() {
    let (body, meta) = remove_meta("---\na: 1\n---\nb: 2\n---\nrest").unwrap();
    assert_eq!(body, "\nb: 2\n---\nrest");
    assert_eq!(
        meta,
        Some(YamlValue::Hash(vec![(YamlValue::String("a".to_string()), YamlValue::Integer(1))]))
    );
}

#[test]
fn closing_delimiter_must_start_a_line() {
    assert!(matches!(remove_meta("---\na: b---c"), Err(WorldError::NoMetadataEnding)));
    let (body, meta) = remove_meta("---\na: b---c\n---d").unwrap();
    assert_eq!(body, "d");
    assert_eq!(
        meta,
        Some(YamlValue::Hash(vec![(
            YamlValue::String("a".to_string()),
            YamlValue::String("b---c".to_string())
        )]))
    );
}

#[test]
fn empty_front_matter_is_null() {
    assert_eq!(remove_meta("---\n---").unwrap(), ("", Some(YamlValue::Null)));
    assert_eq!(remove_meta("---\n---\n").unwrap(), ("\n", Some(YamlValue::Null)));
}

#[test]
fn front_matter_may_be_a_sequence() {
    let (body, meta) = remove_meta("---\n- a\n- b\n---\nrest").unwrap();
    assert_eq!(body, "\nrest");
    assert_eq!(
        meta,
        Some(YamlValue::Array(vec![
            YamlValue::String("a".to_string()),
            YamlValue::String("b".to_string())
        ]))
    );
}

#[test]
fn front_matter_with_characters_beyond_ascii() {
    let (body, meta) = remove_meta("---\nname: Crème brûlée\n---\nŒufs — 2").unwrap();
    assert_eq!(body, "\nŒufs — 2");
    assert_eq!(
        meta,
        Some(YamlValue::Hash(vec![(
            YamlValue::String("name".to_string()),
            YamlValue::String("Crème brûlée".to_string())
        )]))
    );
}

#[test]
fn broken_yaml_is_a_yaml_error() {
    let result = remove_meta("---\nkey: [unclosed\n---\nbody");
    assert!(matches!(result, Err(WorldError::YamlParsingError(_))));
    assert_eq!(
        result.unwrap_err().to_string(),
        "Yaml parsing error: while parsing a flow sequence, expected ',' or ']' at line 3 column 1"
    );
}

#[test]
fn yaml_lookups_by_key() {
    let (_, meta) = remove_meta("---\npriority: 3\nboard: Home\n7: seven\n---\n").unwrap();
    let meta = meta.unwrap();
    assert_eq!(meta.get("priority").and_then(|v| v.as_i64()), Some(3));
    assert_eq!(meta.get("priority").and_then(|v| v.as_str()), None);
    assert_eq!(meta.get("board").and_then(|v| v.as_str()), Some("Home"));
    assert_eq!(meta.get("board").and_then(|v| v.as_i64()), None);
    assert_eq!(meta.get("stage"), None);
    assert_eq!(meta.get("7"), None);
    assert_eq!(YamlValue::Integer(3).get("priority"), None);
    assert_eq!(YamlValue::Null.as_str(), None);
}

#[test]
fn text_parts_at_its_delimiters() {
    assert_eq!(split_front_matter(""), Parts::Plain);
    assert_eq!(split_front_matter("body --- only"), Parts::Plain);
    assert_eq!(split_front_matter("--"), Parts::Plain);
    assert_eq!(split_front_matter("---"), Parts::Unclosed);
    assert_eq!(split_front_matter("---\nkey: 1\n--"), Parts::Unclosed);
    assert_eq!(split_front_matter("-----"), Parts::Unclosed);
    assert_eq!(split_front_matter("------"), Parts::Unclosed);
    assert_eq!(split_front_matter("---\ntitle: a---b\n"), Parts::Unclosed);
    assert_eq!(split_front_matter("---\n---"), Parts::Framed { meta: "---\n", body: "" });
    assert_eq!(split_front_matter("---\n----"), Parts::Framed { meta: "---\n", body: "-" });
    assert_eq!(
        split_front_matter("---\na---b\n---\n---\n"),
        Parts::Framed { meta: "---\na---b\n", body: "\n---\n" }
    );
    assert_eq!(
        split_front_matter("---\nkey: 1\n---\nbody\n---\n"),
        Parts::Framed { meta: "---\nkey: 1\n", body: "\nbody\n---\n" }
    );
    assert_eq!(split_front_matter("---é—日---日—é"), Parts::Unclosed);
    assert_eq!(
        split_front_matter("---é—日\n---日—é"),
        Parts::Framed { meta: "---é—日\n", body: "日—é" }
    );
}

#[test]
fn meta_is_the_last_document() {
    let documents = vec![YamlValue::Integer(1), YamlValue::Null, YamlValue::String("last".to_string())];
    assert_eq!(
        pick_meta("body", Ok(documents)).unwrap(),
        ("body", Some(YamlValue::String("last".to_string())))
    );
    assert_eq!(pick_meta("", Ok(vec![YamlValue::BadValue])).unwrap(), ("", Some(YamlValue::BadValue)));
}

#[test]
fn meta_without_document_is_no_ending() {
    assert!(matches!(pick_meta("body", Ok(vec![])), Err(WorldError::NoMetadataEnding)));
}

#[test]
fn meta_of_a_scan_error_is_a_yaml_error() {
    let error = yaml_rust::YamlLoader::load_from_str("key: [unclosed").unwrap_err();
    match pick_meta("body", Err(error.clone())) {
        Err(WorldError::YamlParsingError(kept)) => assert_eq!(kept, error),
        other => panic!("not a yaml error: {:?}", other),
    }
}

#[test]
fn yaml_value_clone_is_equal() {
    let (_, meta) = remove_meta("---\na: [1, 2.5, true, ~, {b: c}]\nd: e\n---\n").unwrap();
    let meta = meta.unwrap();
    assert_eq!(meta.clone(), meta);
    assert_eq!(
        meta,
        YamlValue::Hash(vec![
            (
                YamlValue::String("a".to_string()),
                YamlValue::Array(vec![
                    YamlValue::Integer(1),
                    YamlValue::Real("2.5".to_string()),
                    YamlValue::Boolean(true),
                    YamlValue::Null,
                    YamlValue::Hash(vec![(
                        YamlValue::String("b".to_string()),
                        YamlValue::String("c".to_string())
                    )]),
                ])
            ),
            (YamlValue::String("d".to_string()), YamlValue::String("e".to_string())),
        ])
    );
}
