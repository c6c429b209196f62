use file_sync_options::json::JsonValue;
use file_sync_options::options::{ConfigError, FileOrFolder, FileSyncMode, Options, Overrides};

fn to_value(v: &serde_json::Value) -> JsonValue {
    match v {
        serde_json::Value::Null => JsonValue::Null,
        serde_json::Value::Bool(b) => JsonValue::Bool(*b),
        serde_json::Value::Number(n) => JsonValue::Number(n.to_string()),
        serde_json::Value::String(s) => JsonValue::Str(s.clone()),
        serde_json::Value::Array(items) => JsonValue::Array(items.iter().map(to_value).collect()),
        serde_json::Value::Object(members) => JsonValue::Object(
            members
                .iter()
                .map(|(k, v)| (k.clone(), to_value(v)))
                .collect(),
        ),
    }
}

fn parse(raw: &str) -> Result<Options, ConfigError> {
    let value: serde_json::Value = serde_json::from_str(raw).unwrap();
    Options::from_json(&to_value(&value))
}

fn file(mode: FileSyncMode) -> FileOrFolder {
    FileOrFolder::File(mode)
}

fn location(s: &str) -> FileOrFolder {
    FileOrFolder::File(FileSyncMode::SyncWholeFile(String::from(s)))
}

fn structural(path: &[&str]) -> ConfigError {
    ConfigError::StructuralError(path.iter().map(|s| String::from(*s)).collect())
}

#[test]
fn json() {
    let raw = r#"
    {
        "requireGitignore": true,
        "customize": {
            "file1": "enable",
            "file2": "ignore",
            "file3": "invalid file config",
            "folder1": {
                "file4": "auto",
                "file5": "https://example.com/file"
            }
        }
    }
    "#;
    let options = parse(raw).unwrap();

    assert!(options.require_gitignore);
    assert!(options.use_gitignore);

    assert_eq!(
        options.customize.get("file1"),
        Some(&FileOrFolder::File(FileSyncMode::Enable))
    );
    assert_eq!(
        options.customize.get("file2"),
        Some(&FileOrFolder::File(FileSyncMode::Ignore))
    );
    assert_eq!(
        options.customize.get("file3"),
        Some(&FileOrFolder::File(FileSyncMode::SyncWholeFile(
            String::from("invalid file config")
        )))
    );

    assert_eq!(
        options.customize.get("folder1"),
        Some(&FileOrFolder::Folder(Overrides {
            entries: vec![
                (String::from("file4"), FileOrFolder::File(FileSyncMode::Auto)),
                (
                    String::from("file5"),
                    FileOrFolder::File(FileSyncMode::SyncWholeFile(String::from(
                        "https://example.com/file"
                    )))
                ),
            ]
        }))
    );
}

#[test]
fn mixed_document() {
    let raw = r#"{"requireGitignore": true, "customize": {"a": "enable", "b": "ignore", "c": "weird", "d": {"e": "auto", "f": "https://x/y"}}}"#;
    let options = parse(raw).unwrap();
    assert!(options.require_gitignore);
    assert!(options.use_gitignore);
    assert_eq!(options.customize.get("a"), Some(&file(FileSyncMode::Enable)));
    assert_eq!(options.customize.get("b"), Some(&file(FileSyncMode::Ignore)));
    assert_eq!(options.customize.get("c"), Some(&location("weird")));
    let d = options.customize.get("d").unwrap();
    match d {
        FileOrFolder::Folder(inner) => {
            assert_eq!(inner.entries.len(), 2);
            assert_eq!(inner.get("e"), Some(&file(FileSyncMode::Auto)));
            assert_eq!(inner.get("f"), Some(&location("https://x/y")));
        }
        FileOrFolder::File(_) => panic!("d should be a folder"),
    }
    assert_eq!(options.customize.get("g"), None);
}

#[test]
fn missing_customize_is_refused() {
    assert_eq!(
        parse(r#"{"requireGitignore": false}"#),
        Err(ConfigError::MissingRequiredField(String::from("customize")))
    );
    assert_eq!(
        parse(r#"{}"#),
        Err(ConfigError::MissingRequiredField(String::from("customize")))
    );
}

#[test]
fn number_entry_is_refused_by_name() {
    assert_eq!(
        parse(r#"{"customize": {"x": 42}}"#),
        Err(structural(&["customize", "x"]))
    );
}

#[test]
fn nested_bad_entry_names_its_path() {
    assert_eq!(
        parse(r#"{"customize": {"ok": "auto", "d": {"e": "enable", "f": [1]}}}"#),
        Err(structural(&["customize", "d", "f"]))
    );
    assert_eq!(
        parse(r#"{"customize": {"n": null}}"#),
        Err(structural(&["customize", "n"]))
    );
    assert_eq!(
        parse(r#"{"customize": {"t": true}}"#),
        Err(structural(&["customize", "t"]))
    );
}

#[test]
fn flags_must_be_booleans() {
    assert_eq!(
        parse(r#"{"requireGitignore": "yes", "customize": {}}"#),
        Err(structural(&["requireGitignore"]))
    );
    assert_eq!(
        parse(r#"{"useGitignore": 1, "customize": {}}"#),
        Err(structural(&["useGitignore"]))
    );
}

#[test]
fn customize_must_be_an_object() {
    assert_eq!(
        parse(r#"{"customize": "enable"}"#),
        Err(structural(&["customize"]))
    );
}

#[test]
fn document_must_be_an_object() {
    assert_eq!(parse(r#"[]"#), Err(structural(&[])));
    assert_eq!(parse(r#""customize""#), Err(structural(&[])));
}

#[test]
fn absent_flags_default_to_true() {
    let options = parse(r#"{"customize": {}}"#).unwrap();
    assert!(options.require_gitignore);
    assert!(options.use_gitignore);
    assert!(options.customize.entries.is_empty());

    let options = parse(r#"{"useGitignore": false, "customize": {}}"#).unwrap();
    assert!(options.require_gitignore);
    assert!(!options.use_gitignore);

    let options = parse(r#"{"requireGitignore": false, "customize": {}}"#).unwrap();
    assert!(!options.require_gitignore);
    assert!(options.use_gitignore);
}

#[test]
fn unknown_fields_are_ignored() {
    let options = parse(r#"{"extra": [1, 2], "customize": {"a": "auto"}, "more": null}"#).unwrap();
    assert_eq!(options.customize.get("a"), Some(&file(FileSyncMode::Auto)));
}

#[test]
fn keywords_and_locations() {
    assert_eq!(FileSyncMode::from_keyword("auto"), FileSyncMode::Auto);
    assert_eq!(FileSyncMode::from_keyword("enable"), FileSyncMode::Enable);
    assert_eq!(FileSyncMode::from_keyword("ignore"), FileSyncMode::Ignore);
    for s in ["", "Auto", "ENABLE", " ignore", "ignore ", "../x/y.txt", "https://example.com/a?b=c"] {
        assert_eq!(
            FileSyncMode::from_keyword(s),
            FileSyncMode::SyncWholeFile(String::from(s))
        );
    }
}

#[test]
fn structure_is_kept_at_depth() {
    let options = parse(r#"{"customize": {"a": {"b": {"c": {"d": "x"}}, "e": "auto"}}}"#).unwrap();
    let a = match options.customize.get("a").unwrap() {
        FileOrFolder::Folder(o) => o,
        FileOrFolder::File(_) => panic!("a should be a folder"),
    };
    assert_eq!(a.entries.len(), 2);
    let b = match a.get("b").unwrap() {
        FileOrFolder::Folder(o) => o,
        FileOrFolder::File(_) => panic!("b should be a folder"),
    };
    let c = match b.get("c").unwrap() {
        FileOrFolder::Folder(o) => o,
        FileOrFolder::File(_) => panic!("c should be a folder"),
    };
    assert_eq!(c.get("d"), Some(&location("x")));
    assert_eq!(a.get("e"), Some(&file(FileSyncMode::Auto)));
}

#[test]
fn later_entry_of_same_name_wins() {
    let overrides = Overrides {
        entries: vec![
            (String::from("a"), file(FileSyncMode::Enable)),
            (String::from("b"), file(FileSyncMode::Auto)),
            (String::from("a"), file(FileSyncMode::Ignore)),
        ],
    };
    assert_eq!(overrides.get("a"), Some(&file(FileSyncMode::Ignore)));
    assert_eq!(overrides.get("b"), Some(&file(FileSyncMode::Auto)));
    assert_eq!(overrides.get("c"), None);

    let doc = JsonValue::Object(vec![
        (String::from("useGitignore"), JsonValue::Bool(true)),
        (String::from("customize"), JsonValue::Object(vec![])),
        (String::from("useGitignore"), JsonValue::Bool(false)),
    ]);
    assert!(!Options::from_json(&doc).unwrap().use_gitignore);
}

#[test]
fn canonical_form_reads_back_the_same() {
    let raw = r#"{"useGitignore": false, "customize": {"a": "enable", "b": "ignore", "c": "weird", "d": {"e": "auto", "f": "https://x/y"}}}"#;
    let options = parse(raw).unwrap();
    let canonical = options.to_json();
    match &canonical {
        JsonValue::Object(members) => {
            assert_eq!(members.len(), 3);
            assert_eq!(members[0], (String::from("requireGitignore"), JsonValue::Bool(true)));
            assert_eq!(members[1], (String::from("useGitignore"), JsonValue::Bool(false)));
            assert_eq!(members[2].0, "customize");
        }
        _ => panic!("canonical form should be an object"),
    }
    assert_eq!(Options::from_json(&canonical), Ok(options));
}

#[test]
fn directive_text() {
    assert_eq!(FileSyncMode::Auto.to_text(), "auto");
    assert_eq!(FileSyncMode::Enable.to_text(), "enable");
    assert_eq!(FileSyncMode::Ignore.to_text(), "ignore");
    assert_eq!(FileSyncMode::SyncWholeFile(String::from("a/b")).to_text(), "a/b");
    assert_eq!(
        location("https://x/y").to_json(),
        JsonValue::Str(String::from("https://x/y"))
    );
}

#[test]
fn flag_default_is_true() {
    assert!(file_sync_options::options::enable());
}
