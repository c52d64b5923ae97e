use pocket_harness::text::parse_i64_text;
use pocket_harness::yaml_edit::{
    edited_config_text, parse_path, parse_scalar, scalar_text, set_path, EditError, PathError,
    ScalarText, YamlKey, YamlTree,
};
use serde_yaml::Value;

#[test]
fn dotted_paths_split_into_keys() {
    assert_eq!(
        parse_path("threads.main.watch.enabled").unwrap(),
        vec!["threads", "main", "watch", "enabled"]
    );
    assert_eq!(parse_path(" a . .b. ").unwrap(), vec!["a", "b"]);
    assert_eq!(parse_path(" . ."), Err(PathError::Empty));
    assert_eq!(parse_path(""), Err(PathError::Empty));
    assert_eq!(PathError::Empty.message(), "config path cannot be empty");
}

fn text(s: &str) -> YamlTree {
    YamlTree::Plain(Value::String(s.to_string()))
}

fn mapping(entries: Vec<(&str, YamlTree)>) -> YamlTree {
    YamlTree::Mapping(
        entries
            .into_iter()
            .map(|(k, v)| (YamlKey::Text(k.to_string()), v))
            .collect(),
    )
}

fn keys(path: &str) -> Vec<String> {
    parse_path(path).unwrap()
}

fn at<'a>(tree: &'a YamlTree, path: &[&str]) -> Option<&'a YamlTree> {
    let mut node = tree;
    for key in path {
        let YamlTree::Mapping(entries) = node else {
            return None;
        };
        node = &entries
            .iter()
            .find(|(k, _)| matches!(k, YamlKey::Text(t) if t == key))?
            .1;
    }
    Some(node)
}

fn plain(tree: Option<&YamlTree>) -> Option<&Value> {
    match tree {
        Some(YamlTree::Plain(v)) => Some(v),
        _ => None,
    }
}

fn key_names(tree: &YamlTree) -> Vec<String> {
    match tree {
        YamlTree::Mapping(entries) => entries
            .iter()
            .map(|(k, _)| match k {
                YamlKey::Text(t) => t.clone(),
                YamlKey::Other(_) => "?".to_string(),
            })
            .collect(),
        YamlTree::Plain(_) => Vec::new(),
    }
}

#[test]
fn setting_a_value_reads_back_and_keeps_its_neighbours() {
    let tree = mapping(vec![
        ("gateway", mapping(vec![("name", text("pocket"))])),
        (
            "threads",
            mapping(vec![(
                "main",
                mapping(vec![("cwd", text("~")), ("watch", mapping(vec![("enabled", YamlTree::Plain(Value::Bool(false)))]))]),
            )]),
        ),
    ]);
    let tree = set_path(tree, &keys("threads.main.watch.enabled"), YamlTree::Plain(Value::Bool(true)));
    assert_eq!(plain(at(&tree, &["threads", "main", "watch", "enabled"])), Some(&Value::Bool(true)));
    assert_eq!(
        plain(at(&tree, &["threads", "main", "cwd"])),
        Some(&Value::String("~".to_string()))
    );
    assert_eq!(
        plain(at(&tree, &["gateway", "name"])),
        Some(&Value::String("pocket".to_string()))
    );
    assert_eq!(key_names(&tree), vec!["gateway", "threads"]);
}

#[test]
fn missing_keys_are_added_at_the_end_and_plain_values_become_mappings() {
    let tree = mapping(vec![("a", text("x")), ("b", text("y"))]);
    let tree = set_path(tree, &keys("c.d"), text("new"));
    assert_eq!(key_names(&tree), vec!["a", "b", "c"]);
    assert_eq!(plain(at(&tree, &["c", "d"])), Some(&Value::String("new".to_string())));

    let tree = set_path(tree, &keys("a.inner"), text("deep"));
    assert_eq!(key_names(&tree), vec!["a", "b", "c"]);
    assert_eq!(plain(at(&tree, &["a", "inner"])), Some(&Value::String("deep".to_string())));
    assert_eq!(plain(at(&tree, &["b"])), Some(&Value::String("y".to_string())));
}

#[test]
fn setting_on_a_plain_document_starts_a_mapping() {
    let tree = set_path(YamlTree::Plain(Value::Null), &keys("llm_router.model"), text("gpt"));
    assert_eq!(key_names(&tree), vec!["llm_router"]);
    assert_eq!(plain(at(&tree, &["llm_router", "model"])), Some(&Value::String("gpt".to_string())));
}

#[test]
fn config_text_edits_set_values_and_keep_the_rest() {
    let text = "gateway:\n  name: pocket\nthreads:\n  main:\n    cwd: '~'\n";
    let out = edited_config_text(
        text,
        vec![
            ("threads.main.cwd".to_string(), Value::String("/work".to_string())),
            ("llm_router.model".to_string(), Value::String("gpt".to_string())),
        ],
    )
    .unwrap();
    let value: Value = serde_yaml::from_str(&out).unwrap();
    assert_eq!(value["threads"]["main"]["cwd"], Value::String("/work".to_string()));
    assert_eq!(value["llm_router"]["model"], Value::String("gpt".to_string()));
    assert_eq!(value["gateway"]["name"], Value::String("pocket".to_string()));
}

#[test]
fn config_text_edits_refuse_bad_yaml_and_empty_paths() {
    assert_eq!(
        edited_config_text("a: [unclosed", vec![("a".to_string(), Value::Null)]),
        Err(EditError::InvalidYaml)
    );
    assert_eq!(
        edited_config_text("a: 1\n", vec![(" . ".to_string(), Value::Null)]),
        Err(EditError::EmptyPath)
    );
    assert_eq!(EditError::EmptyPath.message(), "config path cannot be empty");
}

fn float_text(raw: &str) -> Option<String> {
    raw.trim().parse::<f64>().ok().map(|v| v.to_string())
}

fn scalar(raw: &str) -> Value {
    parse_scalar(raw, float_text(raw))
}

#[test]
fn parses_scalar_types() {
    assert_eq!(scalar("true"), Value::Bool(true));
    assert_eq!(scalar("42"), serde_yaml::to_value(42).unwrap());
    assert_eq!(scalar("hello"), Value::String("hello".to_string()));
}

#[test]
fn scalar_text_reads_flags_null_integers_numbers_and_text() {
    assert_eq!(scalar_text(" false ", false), ScalarText::Bool(false));
    assert_eq!(scalar_text("~", false), ScalarText::Null);
    assert_eq!(scalar_text("null", false), ScalarText::Null);
    assert_eq!(scalar_text("-17", true), ScalarText::Integer(-17));
    assert_eq!(scalar_text("2.5", true), ScalarText::Number("2.5".to_string()));
    assert_eq!(scalar_text("'quoted'", false), ScalarText::Text("quoted".to_string()));
    assert_eq!(scalar_text("\"", false), ScalarText::Text("\"".to_string()));
    assert_eq!(scalar_text("True", false), ScalarText::Text("True".to_string()));
}

#[test]
fn scalars_beyond_i64_and_decimals_are_read_as_yaml_numbers() {
    assert_eq!(scalar("2.5"), serde_yaml::from_str::<Value>("2.5").unwrap());
    assert_eq!(
        scalar("9223372036854775808"),
        serde_yaml::to_value(9223372036854775808u64).unwrap()
    );
    assert_eq!(scalar("\"quoted text\""), Value::String("quoted text".to_string()));
    assert_eq!(scalar("null"), Value::Null);
}

#[test]
fn i64_text_follows_the_standard_reading() {
    assert_eq!(parse_i64_text("42"), Some(42));
    assert_eq!(parse_i64_text("+7"), Some(7));
    assert_eq!(parse_i64_text("-0"), Some(0));
    assert_eq!(parse_i64_text("-9223372036854775808"), Some(i64::MIN));
    assert_eq!(parse_i64_text("9223372036854775807"), Some(i64::MAX));
    assert_eq!(parse_i64_text("9223372036854775808"), None);
    assert_eq!(parse_i64_text("99999999999999999999"), None);
    assert_eq!(parse_i64_text("-"), None);
    assert_eq!(parse_i64_text(""), None);
    assert_eq!(parse_i64_text(" 1"), None);
    assert_eq!(parse_i64_text("1a"), None);
}
