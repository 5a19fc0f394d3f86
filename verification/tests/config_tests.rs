use mind_meld::config::{Config, ConfigError, Item, StoreConfig};

#[test]
fn test_empty_string_parses() {
    let toml = "";
    let config: Config = Config::load_from_string(toml).unwrap();
    assert_eq!(config.stores.len(), 0);
    assert_eq!(config.mindstorms_path, None);
    assert_eq!(config.spike_path, None);
}

#[test]
fn test_extra_info_parses() {
    let toml = r#"
        foo = "bar"
        [[stores]]
        path = "p"
        type = "git"
        extra = 123
        "#;
    let config: Config = Config::load_from_string(toml).unwrap();
    assert_eq!(config.stores.len(), 1);
    assert_eq!(config.stores[0].path, "p");
    assert_eq!(config.stores[0].store_type, "git");
}

#[test]
fn test_example_parses() {
    let toml = r#"
        [[stores]]
        path = "path1"
        type = "git"
        [[stores]]
        path = "path2"
        type = "git"
        "#;
    let config: Config = Config::load_from_string(toml).unwrap();
    assert_eq!(config.stores.len(), 2);
    assert_eq!(config.stores[0].path, "path1");
    assert_eq!(config.stores[0].store_type, "git");
    assert_eq!(config.stores[1].path, "path2");
    assert_eq!(config.stores[1].store_type, "git");
}

#[test]
fn test_overrides_parses() {
    let toml = r#"
        mindstorms_path = "path/to/mindstorms"
        spike_path = "path/to/spike"
        "#;
    let config: Config = Config::load_from_string(toml).unwrap();
    assert_eq!(
        config.mindstorms_path,
        Some("path/to/mindstorms".to_string())
    );
    assert_eq!(config.spike_path, Some("path/to/spike".to_string()));
}

#[test]
fn text_that_is_no_toml_is_refused() {
    let err = Config::load_from_string("stores = [").err().unwrap();
    assert!(matches!(err, ConfigError::Syntax(_)));
    assert!(!err.message().is_empty());
}

#[test]
fn fields_of_the_wrong_kind_are_refused() {
    for (text, field) in [
        ("stores = 3", "stores"),
        ("stores = [\"a\"]", "stores"),
        ("[[stores]]\npath = \"p\"", "stores"),
        ("[[stores]]\npath = \"p\"\ntype = 1", "stores"),
        ("mindstorms_path = 1.5", "mindstorms_path"),
        ("spike_path = [\"a\"]", "spike_path"),
    ] {
        let err = Config::load_from_string(text).err().unwrap();
        assert!(matches!(&err, ConfigError::InvalidField(f) if f == field), "{text}");
        assert_eq!(err.message(), format!("invalid or missing field: {field}"));
    }
}

#[test]
fn document_is_read_key_by_key() {
    let store = |path: &str| {
        Item::Table(vec![
            ("extra".to_string(), Item::Other),
            ("type".to_string(), Item::Text("git".to_string())),
            ("path".to_string(), Item::Text(path.to_string())),
        ])
    };
    let doc = vec![
        ("spike_path".to_string(), Item::Text("/s".to_string())),
        ("stores".to_string(), Item::List(vec![store("a"), store("b")])),
        ("unknown".to_string(), Item::Boolean(true)),
    ];
    let config = Config::from_document(&doc).unwrap();
    assert_eq!(config.stores.len(), 2);
    assert_eq!(config.stores[0].path, "a");
    assert_eq!(config.stores[1].path, "b");
    assert_eq!(config.stores[1].store_type, "git");
    assert_eq!(config.mindstorms_path, None);
    assert_eq!(config.spike_path, Some("/s".to_string()));
    assert_eq!(config.config_path, None);
    let bad = vec![("stores".to_string(), Item::List(vec![store("a"), Item::Integer(1)]))];
    assert!(Config::from_document(&bad).is_err());
}

#[test]
fn missing_file_gives_the_default_configuration() {
    let config = Config::load("/cfg/mind-meld.toml".to_string(), None).unwrap();
    assert!(config.stores.is_empty());
    assert_eq!(config.config_path, None);
}

#[test]
fn loaded_configuration_knows_its_file() {
    let config = Config::load("/cfg/mind-meld.toml".to_string(), Some("spike_path = \"s\"")).unwrap();
    assert_eq!(config.spike_path, Some("s".to_string()));
    assert_eq!(config.config_path, Some("/cfg/mind-meld.toml".to_string()));
    assert!(Config::load("x".to_string(), Some("= 1")).is_err());
}

#[test]
fn stored_configuration_reads_back() {
    let config = Config {
        stores: vec![
            StoreConfig { path: "/repos/one".to_string(), store_type: "git".to_string() },
            StoreConfig { path: "two \"quoted\"".to_string(), store_type: "git".to_string() },
        ],
        mindstorms_path: None,
        spike_path: Some("/spike".to_string()),
        config_path: Some("/cfg/mind-meld.toml".to_string()),
    };
    let text = config.store().unwrap();
    assert!(text.contains("[[stores]]"));
    assert!(text.contains("path = \"/repos/one\""));
    assert!(text.contains("spike_path = \"/spike\""));
    assert!(!text.contains("mindstorms_path"));
    assert!(!text.contains("config_path"));
    let back = Config::load_from_string(&text).unwrap();
    assert_eq!(back.stores.len(), 2);
    assert_eq!(back.stores[0].path, "/repos/one");
    assert_eq!(back.stores[1].path, "two \"quoted\"");
    assert_eq!(back.stores[1].store_type, "git");
    assert_eq!(back.mindstorms_path, None);
    assert_eq!(back.spike_path, Some("/spike".to_string()));
    assert_eq!(back.config_path, None);
}

#[test]
fn empty_configuration_is_stored_and_read_back() {
    let text = Config::default().store().unwrap();
    let back = Config::load_from_string(&text).unwrap();
    assert!(back.stores.is_empty());
    assert_eq!(back.spike_path, None);
}

#[test]
fn document_of_a_configuration() {
    let config = Config {
        stores: vec![StoreConfig { path: "p".to_string(), store_type: "git".to_string() }],
        mindstorms_path: Some("m".to_string()),
        spike_path: None,
        config_path: None,
    };
    let doc = config.to_document();
    let keys: Vec<&str> = doc.iter().map(|e| e.0.as_str()).collect();
    assert_eq!(keys, vec!["stores", "mindstorms_path"]);
    assert!(matches!(&doc[1].1, Item::Text(m) if m == "m"));
    match &doc[0].1 {
        Item::List(items) => match &items[0] {
            Item::Table(t) => {
                assert_eq!(t[0].0, "path");
                assert!(matches!(&t[0].1, Item::Text(p) if p == "p"));
                assert_eq!(t[1].0, "type");
            }
            other => panic!("{other:?}"),
        },
        other => panic!("{other:?}"),
    }
}
