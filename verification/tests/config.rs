use xml_requirements::config::{Attribute, Config, Rule};

fn attribute(ns: Option<&str>, name: &str, raw: &str) -> Attribute {
    Attribute {
        ns: ns.map(|s| s.to_string()),
        name: name.to_string(),
        raw: raw.to_string(),
    }
}

#[test]
fn parse_with_prefix() {
    assert_eq!(
        attribute(Some("android"), "orientation", "android:orientation"),
        Attribute::parse("android:orientation")
    );
}

#[test]
fn parse_without_prefix() {
    assert_eq!(attribute(None, "style", "style"), Attribute::parse("style"));
}

#[test]
fn parse_splits_at_the_last_colon() {
    assert_eq!(attribute(Some("a:b"), "c", "a:b:c"), Attribute::parse("a:b:c"));
}

#[test]
fn parse_empty_text() {
    assert_eq!(attribute(None, "", ""), Attribute::parse(""));
}

#[test]
fn parse_colon_at_either_end() {
    assert_eq!(attribute(Some(""), "name", ":name"), Attribute::parse(":name"));
    assert_eq!(attribute(Some("ns"), "", "ns:"), Attribute::parse("ns:"));
    assert_eq!(attribute(Some(""), "", ":"), Attribute::parse(":"));
}

#[test]
fn parse_counts_characters_not_bytes() {
    assert_eq!(
        attribute(Some("pré"), "größe", "pré:größe"),
        Attribute::parse("pré:größe")
    );
}

#[test]
fn from_str_never_fails() {
    let parsed: Result<Attribute, String> = "tools:elevation".parse();

    assert_eq!(Ok(attribute(Some("tools"), "elevation", "tools:elevation")), parsed);
}

#[test]
fn new_map_is_empty() {
    let config = Config::new();

    assert!(config.is_empty());
    assert_eq!(0, config.len());
    assert_eq!(None, config.get(&"LinearLayout".to_string()));
}

#[test]
fn insert_adds_and_replaces() {
    let mut config = Config::new();
    config.insert(
        "LinearLayout".to_string(),
        Rule {
            required: vec![Attribute::parse("android:orientation")],
        },
    );
    config.insert(
        "EditText".to_string(),
        Rule {
            required: vec![Attribute::parse("android:hint")],
        },
    );
    config.insert(
        "LinearLayout".to_string(),
        Rule {
            required: vec![Attribute::parse("style")],
        },
    );

    assert!(!config.is_empty());
    assert_eq!(2, config.len());
    assert_eq!("LinearLayout", config.tag_at(0));
    assert_eq!("EditText", config.tag_at(1));
    assert_eq!(Some(0), config.position(&"LinearLayout".to_string()));
    assert_eq!(Some(1), config.position(&"EditText".to_string()));
    assert_eq!(None, config.position(&"Button".to_string()));
    assert_eq!(
        Some(&Rule {
            required: vec![attribute(None, "style", "style")]
        }),
        config.get(&"LinearLayout".to_string())
    );
    assert_eq!(
        &Rule {
            required: vec![attribute(Some("android"), "hint", "android:hint")]
        },
        config.value_at(1)
    );
}
