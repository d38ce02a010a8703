use parquet_shell::split_file_name;

#[test]
fn splits_at_last_dot() {
    assert_eq!(split_file_name("a.parquet"), ("a".to_string(), Some("parquet".to_string())));
    assert_eq!(split_file_name("a.b.csv"), ("a.b".to_string(), Some("csv".to_string())));
}

#[test]
fn no_dot_has_no_extension() {
    assert_eq!(split_file_name("README"), ("README".to_string(), None));
}

#[test]
fn leading_dot_is_not_an_extension() {
    assert_eq!(split_file_name(".hidden"), (".hidden".to_string(), None));
}

#[test]
fn trailing_dot_gives_empty_extension() {
    assert_eq!(split_file_name("a."), ("a".to_string(), Some(String::new())));
}

#[test]
fn non_ascii_names_split_by_characters() {
    assert_eq!(
        split_file_name("données.parquet"),
        ("données".to_string(), Some("parquet".to_string()))
    );
}
