use fin::config::{
    default_sources, join_path_of, kinds_named, source_ids, ConfigError, ConfigFile, GithubConfig,
    IssueMatch, JiraConfig,
};
use fin::item::{copy_kinds, Kind, SourceId};
use fin::json::Json;
use fin::kinds::KindTable;
use fin::toml_doc::{lookup, text_of, texts_of, Toml};

#[test]
fn a_kind_table_maps_each_source_to_its_kinds() {
    let mut table = KindTable::new();
    let github = SourceId::new("github");
    assert!(table.get(&github).is_none());
    table.insert(github.clone(), vec![Kind::new("pr")]);
    table.insert(SourceId::new("GitHub"), vec![Kind::new("issue")]);
    assert_eq!(table.get(&github), Some(&vec![Kind::new("issue")]));
    let defaults = vec![Kind::new("pr"), Kind::new("issue")];
    assert_eq!(table.kinds_for(&github, &defaults), vec![Kind::new("issue")]);
    assert_eq!(table.kinds_for(&SourceId::new("jira"), &defaults), defaults);
    table.insert(SourceId::new("jira"), vec![]);
    assert_eq!(table.kinds_for(&SourceId::new("jira"), &defaults), defaults);
}

#[test]
fn names_become_identifiers_in_lower_case() {
    let names = vec!["GitHub".to_string(), "jira".to_string()];
    assert_eq!(source_ids(&names), vec![SourceId::new("github"), SourceId::new("jira")]);
    assert_eq!(kinds_named(&vec!["PR".to_string()]), vec![Kind::new("pr")]);
    assert_eq!(copy_kinds(&[Kind::new("issue")]), vec![Kind::new("issue")]);
    assert_eq!(default_sources(), vec![SourceId::new("github")]);
}

#[test]
fn paths_join_with_one_separator() {
    assert_eq!(join_path_of("/home", ".config"), "/home/.config");
    assert_eq!(join_path_of("/home/", ".config"), "/home/.config");
}

#[test]
fn sections_decode_from_their_tables() {
    let table = vec![
        ("orgs".to_string(), Toml::Array(vec![Toml::Text("acme".to_string())])),
        ("issue_match".to_string(), Toml::Text("assignee".to_string())),
        ("include_not_planned".to_string(), Toml::Boolean(true)),
    ];
    let github = GithubConfig::decode(&table).unwrap();
    assert_eq!(github.orgs, vec!["acme".to_string()]);
    assert_eq!(github.issue_match, IssueMatch::Assignee);
    assert!(github.include_not_planned);
    let wrong = vec![("orgs".to_string(), Toml::Integer(3))];
    assert_eq!(
        GithubConfig::decode(&wrong).unwrap_err(),
        ConfigError::InvalidValue { key: "orgs".to_string() }
    );
    let jira = vec![("project".to_string(), Toml::Text("x".to_string()))];
    assert_eq!(
        JiraConfig::decode(&jira).unwrap_err(),
        ConfigError::UnknownField { key: "project".to_string() }
    );
    let file = ConfigFile::decode(&vec![]).unwrap();
    assert!(file.sources.is_none());
    assert!(ConfigFile::empty().period.is_none());
}

#[test]
fn toml_values_read_as_texts() {
    let table = vec![("a".to_string(), Toml::Text("x".to_string()))];
    assert!(matches!(lookup(&table, "a"), Some(Toml::Text(_))));
    assert!(lookup(&table, "b").is_none());
    assert_eq!(text_of(&Toml::Text("x".to_string())), Some("x".to_string()));
    assert_eq!(text_of(&Toml::Integer(1)), None);
    let list = Toml::Array(vec![Toml::Text("a".to_string()), Toml::Text("b".to_string())]);
    assert_eq!(texts_of(&list), Some(vec!["a".to_string(), "b".to_string()]));
    let mixed = Toml::Array(vec![Toml::Text("a".to_string()), Toml::Boolean(true)]);
    assert_eq!(texts_of(&mixed), None);
}

#[test]
fn json_documents_read_and_write_compactly() {
    let v = Json::parse(r#"{"a": [1, 2.5, "x", null, true]}"#).unwrap();
    assert_eq!(v.to_compact(), r#"{"a":[1,2.5,"x",null,true]}"#);
    assert!(Json::parse("{ not json").is_err());
}
