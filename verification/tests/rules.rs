use xml_requirements::config::{from_str, rule_of, rules_from, rules_of, Config, ConfigError, Flaw, Rule};

fn new_config(tag_rules: Vec<(&str, Vec<&str>)>) -> Config {
    let mut config = Config::new();
    for (tag, attrs) in tag_rules {
        config.insert(
            tag.to_string(),
            Rule {
                required: attrs.into_iter().map(|s| s.parse().unwrap()).collect(),
            },
        );
    }
    config
}

fn assert_same(expected: &Config, actual: &Config) {
    assert_eq!(expected.len(), actual.len());
    for i in 0..expected.len() {
        assert_eq!(Some(expected.value_at(i)), actual.get(expected.tag_at(i)));
    }
}

fn shape(tag: &str, flaw: Flaw) -> Option<ConfigError> {
    Some(ConfigError::Shape(tag.to_string(), flaw))
}

#[test]
fn config_empty_config() -> Result<(), Box<dyn std::error::Error>> {
    let config_str = "";

    let config = from_str(config_str).map_err(|e| e.to_string())?;

    assert!(config.is_empty());

    Ok(())
}

#[test]
fn tag_with_no_requirements() -> Result<(), Box<dyn std::error::Error>> {
    let config_str = r#"
            [LinearLayout]
            required = []
        "#;

    let config = from_str(config_str).map_err(|e| e.to_string())?;

    assert_same(&new_config(vec![("LinearLayout", vec![])]), &config);

    Ok(())
}

#[test]
fn tag_with_requirement() -> Result<(), Box<dyn std::error::Error>> {
    let config_str = r#"
            [LinearLayout]
            required = [ "android:orientation" ]
        "#;

    let config = from_str(config_str).map_err(|e| e.to_string())?;

    assert_same(
        &new_config(vec![("LinearLayout", vec!["android:orientation"])]),
        &config,
    );

    Ok(())
}

#[test]
fn multiple_tags_multiple_requirements() -> Result<(), Box<dyn std::error::Error>> {
    let config_str = r#"
            [LinearLayout]
            required = [ "android:orientation", "tools:elevation" ]

            [EditText]
            required = [ "android:hint", "style" ]
        "#;

    let config = from_str(config_str).map_err(|e| e.to_string())?;

    assert_same(
        &new_config(vec![
            (
                "LinearLayout",
                vec!["android:orientation", "tools:elevation"],
            ),
            ("EditText", vec!["android:hint", "style"]),
        ]),
        &config,
    );

    Ok(())
}

#[test]
fn other_keys_of_a_rule_do_not_count() {
    let config = from_str("[a]\noptional = 3\nrequired = [\"x\"]\nnote = \"n\"\n").unwrap();

    assert_same(&new_config(vec![("a", vec!["x"])]), &config);
}

#[test]
fn inline_tables_are_rules_too() {
    let config = from_str("b = { required = [\"n:y\", \"z\"] }\na = { required = [] }\n").unwrap();

    assert_same(&new_config(vec![("a", vec![]), ("b", vec!["n:y", "z"])]), &config);
}

#[test]
fn text_that_is_not_toml_is_a_syntax_error() {
    let text = "[LinearLayout\nrequired = []";

    let outcome = from_str(text);

    match outcome {
        Err(ConfigError::Syntax(cause)) => {
            assert_eq!(
                toml::from_str::<toml::Value>(text).unwrap_err().to_string(),
                cause
            );
            assert!(!cause.is_empty());
        }
        other => panic!("unexpected outcome: {:?}", other.err()),
    }
}

#[test]
fn an_entry_that_is_no_table_is_an_error() {
    assert_eq!(shape("a", Flaw::NotATable), from_str("a = 1").err());
    assert_eq!(shape("a", Flaw::NotATable), from_str("a = [[\"x\"]]").err());
}

#[test]
fn a_rule_without_required_is_an_error() {
    assert_eq!(shape("a", Flaw::MissingRequired), from_str("[a]\n").err());
    assert_eq!(
        shape("a", Flaw::MissingRequired),
        from_str("[a]\nRequired = []\n").err()
    );
}

#[test]
fn required_that_is_no_array_is_an_error() {
    assert_eq!(
        shape("a", Flaw::NotAnArray),
        from_str("[a]\nrequired = \"x\"\n").err()
    );
}

#[test]
fn an_item_that_is_no_string_is_an_error() {
    assert_eq!(
        shape("a", Flaw::NotAString),
        from_str("[a]\nrequired = [1]\n").err()
    );
    assert_eq!(
        shape("a", Flaw::NotAString),
        from_str("[a]\nrequired = [[\"x\"], [\"y\"]]\n").err()
    );
}

#[test]
fn the_first_flawed_entry_gives_the_error() {
    let text = "[c]\nrequired = 1\n[a]\nrequired = [\"x\"]\n[b]\n";

    assert_eq!(shape("b", Flaw::MissingRequired), from_str(text).err());
}

#[test]
fn rules_of_a_value_that_is_no_table() {
    let value = toml::Value::String("x".to_string());

    assert_eq!(shape("", Flaw::NotATable), rules_of(&value).err());
}

#[test]
fn rule_of_reads_one_entry() {
    let value: toml::Value = toml::from_str("required = [\"a:b\", \"c\"]").unwrap();

    assert_eq!(
        Ok(Rule {
            required: vec!["a:b".parse().unwrap(), "c".parse().unwrap()]
        }),
        rule_of(&value)
    );
    assert_eq!(Err(Flaw::NotATable), rule_of(&toml::Value::Integer(1)));
}

#[test]
fn rules_from_passes_the_cause_on() {
    assert_eq!(
        Some(ConfigError::Syntax("the cause".to_string())),
        rules_from(Err("the cause".to_string())).err()
    );
}

#[test]
fn config_errors_describe_themselves() {
    assert_eq!("why", ConfigError::Syntax("why".to_string()).to_string());
    assert_eq!(
        "invalid rule for `a`: expected a table",
        ConfigError::Shape("a".to_string(), Flaw::NotATable).to_string()
    );
    assert_eq!(
        "invalid rule for `a`: missing field `required`",
        ConfigError::Shape("a".to_string(), Flaw::MissingRequired).to_string()
    );
    assert_eq!(
        "invalid rule for `a`: expected `required` to be an array",
        ConfigError::Shape("a".to_string(), Flaw::NotAnArray).to_string()
    );
    assert_eq!(
        "invalid rule for `a`: expected every item of `required` to be a string",
        ConfigError::Shape("a".to_string(), Flaw::NotAString).to_string()
    );
}
