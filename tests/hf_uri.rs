use hf_hub_fetch::error::HfError;
use hf_hub_fetch::hf_uri::{parse, repository_from_parts, UrlCreater};

#[test]
#[should_panic]
fn test_uri_schema() {
    let hf_uri = "xs://philschmid/infinity-sentiment";
    match parse(hf_uri) {
        Ok(_) => {}
        Err(err) => panic!("{:?}", err),
    }
}

#[test]
fn test_uri_parser_without_filter() {
    let hf_uri = "hf://philschmid/infinity-sentiment";
    match parse(hf_uri) {
        Ok(repository) => {
            assert_eq!(repository.name, String::from("philschmid/infinity-sentiment"));
            assert_eq!(
                repository.url,
                String::from("https://huggingface.co/api/models/philschmid/infinity-sentiment")
            );
            match repository.filter {
                None => {}
                _ => panic!("should be None in the test"),
            }
        }
        Err(err) => panic!("{:?}", err),
    }
}

#[test]
fn test_uri_parser_with_filter() {
    let hf_uri = "hf://philschmid/infinity-sentiment//infinity/config.json";
    match parse(hf_uri) {
        Ok(repository) => {
            assert_eq!(repository.name, String::from("philschmid/infinity-sentiment"));
            assert_eq!(
                repository.url,
                String::from("https://huggingface.co/api/models/philschmid/infinity-sentiment")
            );
            match repository.filter {
                None => {}
                Some(filter) => assert_eq!(filter, "infinity/config.json"),
            }
        }
        Err(err) => panic!("{:?}", err),
    }
}

#[test]
fn test_create_remote_repository_url() {
    let test_url = "https://huggingface.co/api/models/philschmid/infinity-sentiment";
    let created_url = UrlCreater::create_remote_repository_url("philschmid/infinity-sentiment");
    assert_eq!(test_url, created_url)
}

#[test]
fn test_create_remote_file_url() {
    let test_url =
        "https://huggingface.co/philschmid/infinity-sentiment/raw/main/infinity/config.json";
    let created_url =
        UrlCreater::create_remote_file_url("philschmid/infinity-sentiment", "infinity/config.json");
    assert_eq!(test_url, created_url)
}

#[test]
fn parse_with_filter_keeps_filter_present() {
    let repository = parse("hf://philschmid/infinity-sentiment//infinity/config.json").unwrap();
    assert_eq!(repository.filter, Some(String::from("infinity/config.json")));
}

#[test]
fn parse_refuses_other_scheme() {
    assert_eq!(parse("xs://philschmid/infinity-sentiment").unwrap_err(), HfError::InvalidScheme);
    assert_eq!(parse("https://huggingface.co/x").unwrap_err(), HfError::InvalidScheme);
}

#[test]
fn parse_refuses_text_that_is_no_uri() {
    assert_eq!(parse("philschmid/infinity-sentiment").unwrap_err(), HfError::MalformedIdentifier);
    assert_eq!(parse("").unwrap_err(), HfError::MalformedIdentifier);
}

#[test]
fn parse_splits_on_the_first_double_slash() {
    let repository = parse("hf://a/b//c//d").unwrap();
    assert_eq!(repository.name, "a/b");
    assert_eq!(repository.url, "https://huggingface.co/api/models/a/b");
    assert_eq!(repository.filter, Some(String::from("c//d")));
}

#[test]
fn parse_with_directory_filter() {
    let repository = parse("hf://owner/model//infinity").unwrap();
    assert_eq!(repository.name, "owner/model");
    assert_eq!(repository.filter, Some(String::from("infinity")));
}

#[test]
fn parts_without_double_slash_have_no_filter() {
    let repository = repository_from_parts("hf", "owner/model").unwrap();
    assert_eq!(repository.name, "owner/model");
    assert_eq!(repository.url, "https://huggingface.co/api/models/owner/model");
    assert_eq!(repository.filter, None);
}

#[test]
fn parts_with_other_scheme_are_refused() {
    assert_eq!(repository_from_parts("HF", "a/b").unwrap_err(), HfError::InvalidScheme);
    assert_eq!(repository_from_parts("", "a/b").unwrap_err(), HfError::InvalidScheme);
}

#[test]
fn parts_with_trailing_double_slash_have_no_filter() {
    let repository = repository_from_parts("hf", "a/b//").unwrap();
    assert_eq!(repository.name, "a/b");
    assert_eq!(repository.url, "https://huggingface.co/api/models/a/b");
    assert_eq!(repository.filter, None);
}

#[test]
fn parse_with_trailing_double_slash_has_no_filter() {
    let repository = parse("hf://a/b//").unwrap();
    assert_eq!(repository.name, "a/b");
    assert_eq!(repository.filter, None);
}
