use sqlite_httpfs::args::{parse_args, table_options, InitError, NamedArgs};
use sqlite_httpfs::storage::{StorageOpts, VTabDataFormats};
use std::collections::HashMap;

fn as_map(named: &NamedArgs) -> HashMap<String, String> {
    named.entries.iter().cloned().collect()
}

#[test]
fn test_named_arguments() {
    let input = vec![
        "name=John".to_string(),
        "age='30'".to_string(),
        "city=\"New York\"".to_string(),
    ];
    let result = parse_args(input);
    let mut expected_named = HashMap::new();
    expected_named.insert("NAME".to_string(), "John".to_string());
    expected_named.insert("AGE".to_string(), "30".to_string());
    expected_named.insert("CITY".to_string(), "New York".to_string());

    assert_eq!(as_map(&result.named), expected_named);
    assert_eq!(result.positional, Vec::<String>::new());
}

#[test]
fn test_positional_arguments() {
    let input = vec!["foo".to_string(), "'bar'".to_string(), "\"baz\"".to_string()];
    let result = parse_args(input);
    let expected_positional = vec!["foo".to_string(), "bar".to_string(), "baz".to_string()];

    assert!(result.named.is_empty());
    assert_eq!(result.positional, expected_positional);
}

#[test]
fn test_mixed_arguments() {
    let input = vec![
        "user=admin".to_string(),
        "password='secret'".to_string(),
        "run".to_string(),
        "'--force'".to_string(),
    ];
    let result = parse_args(input);
    let mut expected_named = HashMap::new();
    expected_named.insert("USER".to_string(), "admin".to_string());
    expected_named.insert("PASSWORD".to_string(), "secret".to_string());
    let expected_positional = vec!["run".to_string(), "--force".to_string()];

    assert_eq!(as_map(&result.named), expected_named);
    assert_eq!(result.positional, expected_positional);
}

#[test]
fn test_empty_input() {
    let input: Vec<String> = Vec::new();
    let result = parse_args(input);
    assert!(result.named.is_empty());
    assert!(result.positional.is_empty());
}

#[test]
fn test_named_with_spaces() {
    let input = vec![
        "name = John".to_string(),
        " age = '30' ".to_string(),
        " city = \"New York\" ".to_string(),
    ];
    let result = parse_args(input);
    let mut expected_named = HashMap::new();
    expected_named.insert("NAME".to_string(), "John".to_string());
    expected_named.insert("AGE".to_string(), "30".to_string());
    expected_named.insert("CITY".to_string(), "New York".to_string());

    assert_eq!(as_map(&result.named), expected_named);
    assert_eq!(result.positional, Vec::<String>::new());
}

#[test]
fn test_named_and_positional_with_spaces() {
    let input = vec![
        "cmd".to_string(),
        " param ".to_string(),
        "debug=true".to_string(),
        " flag = 'yes' ".to_string(),
    ];
    let result = parse_args(input);
    let mut expected_named = HashMap::new();
    expected_named.insert("DEBUG".to_string(), "true".to_string());
    expected_named.insert("FLAG".to_string(), "yes".to_string());

    let expected_positional = vec!["cmd".to_string(), "param".to_string()];

    assert_eq!(as_map(&result.named), expected_named);
    assert_eq!(result.positional, expected_positional);
}

#[test]
fn later_named_value_wins_and_first_equals_splits() {
    let result = parse_args(vec![
        "url=a".to_string(),
        "URL=b=c".to_string(),
        "''".to_string(),
    ]);
    assert_eq!(result.named.get("URL"), Some(&"b=c".to_string()));
    assert_eq!(result.named.get("url"), None);
    assert!(result.positional.is_empty());
}

#[test]
fn table_options_by_name_position_and_default() {
    let o = table_options(vec!["'http://h/x.csv'".to_string(), "csv".to_string()]).unwrap();
    assert_eq!(o.url, "http://h/x.csv");
    assert_eq!(o.format, VTabDataFormats::CSV);
    assert_eq!(o.storage, StorageOpts::DISK);
    let o = table_options(vec![
        "format=ndjson".to_string(),
        "url=\"u\"".to_string(),
        " storage = temp ".to_string(),
    ])
    .unwrap();
    assert_eq!(o.url, "u");
    assert_eq!(o.format, VTabDataFormats::JSONL);
    assert_eq!(o.storage, StorageOpts::TEMP);
    assert!(matches!(table_options(vec!["u".to_string()]), Err(InitError::MissingArgs)));
    let e = table_options(vec!["u".to_string(), "xml".to_string()]).unwrap_err();
    assert_eq!(e.to_string(), "Unknown data format: xml");
    let e = table_options(vec!["u".to_string(), "csv".to_string(), "mem".to_string()]).unwrap_err();
    assert_eq!(e.to_string(), "Not a valid storage option: mem");
    let e = table_options(vec!["format=csv".to_string(), "x=1".to_string()]).unwrap_err();
    assert_eq!(e.to_string(), "No URL provided");
    let e = table_options(vec!["url=u".to_string(), "x=1".to_string()]).unwrap_err();
    assert_eq!(e.to_string(), "No data format specified");
}
