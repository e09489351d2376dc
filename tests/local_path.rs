use hf_hub_fetch::error::HfError;
use hf_hub_fetch::local_path::{
    file_name, filter_has_extension, join_path, resolve_local_path, strip_directory,
};

#[test]
fn no_filter_keeps_the_remote_path() {
    assert_eq!(resolve_local_path(None, "infinity/config.json", None).unwrap(), "infinity/config.json");
}

#[test]
fn file_filter_puts_the_file_under_the_destination() {
    assert_eq!(
        resolve_local_path(Some("infinity/config.json"), "infinity/config.json", Some("out")).unwrap(),
        "out/config.json"
    );
}

#[test]
fn directory_filter_is_stripped() {
    assert_eq!(
        resolve_local_path(Some("infinity"), "infinity/tokenizer.json", None).unwrap(),
        "tokenizer.json"
    );
    assert_eq!(
        resolve_local_path(Some("infinity"), "infinity/tokenizers/t.json", Some("out/")).unwrap(),
        "out/tokenizers/t.json"
    );
}

#[test]
fn directory_filter_that_is_no_prefix_is_refused() {
    assert_eq!(
        resolve_local_path(Some("other"), "infinity/tokenizer.json", None),
        Err(HfError::FilterPrefixMismatch)
    );
    assert_eq!(
        resolve_local_path(Some("other"), "infinity/tokenizer.json", Some("out")),
        Err(HfError::FilterPrefixMismatch)
    );
    assert_eq!(
        resolve_local_path(Some("inf"), "infinity/tokenizer.json", None),
        Err(HfError::FilterPrefixMismatch)
    );
}

#[test]
fn no_filter_with_destination_joins() {
    assert_eq!(resolve_local_path(None, "a/b.json", Some("dest")).unwrap(), "dest/a/b.json");
}

#[test]
fn last_segment_of_paths() {
    assert_eq!(file_name("infinity/config.json"), "config.json");
    assert_eq!(file_name("config.json"), "config.json");
    assert_eq!(file_name("a/b/"), "");
    assert_eq!(file_name(""), "");
}

#[test]
fn extension_is_read_from_the_last_segment() {
    assert!(filter_has_extension("infinity/config.json"));
    assert!(!filter_has_extension("v1.0/infinity"));
    assert!(!filter_has_extension("infinity"));
}

#[test]
fn directory_prefix_at_segment_boundary() {
    assert_eq!(strip_directory("infinity/a.json", "infinity"), Some("a.json"));
    assert_eq!(strip_directory("infinity/a.json", "infinity/"), Some("a.json"));
    assert_eq!(strip_directory("infinity", "infinity"), Some(""));
    assert_eq!(strip_directory("infinity2/a.json", "infinity"), None);
    assert_eq!(strip_directory("a.json", ""), Some("a.json"));
}

#[test]
fn joining_paths() {
    assert_eq!(join_path("out", "a.json"), "out/a.json");
    assert_eq!(join_path("out/", "a.json"), "out/a.json");
    assert_eq!(join_path("", "a.json"), "a.json");
}
