use saba_core::error::ValidationError;
use saba_core::url::Url;

fn parse(text: &str) -> Result<Url, ValidationError> {
    Url::new(text.to_string()).parse()
}

fn parts(url: &Url) -> (String, String, String, String, String) {
    (url.scheme(), url.host(), url.port(), url.path(), url.searchpart())
}

fn expect(text: &str, host: &str, port: &str, path: &str, searchpart: &str) {
    let url = parse(text).unwrap();
    assert_eq!(
        parts(&url),
        (
            "http".to_string(),
            host.to_string(),
            port.to_string(),
            path.to_string(),
            searchpart.to_string()
        ),
        "parts of {}",
        text
    );
}

fn refused(text: &str) {
    assert_eq!(
        parse(text),
        Err(ValidationError::UnsupportedScheme { url: text.to_string() }),
        "refusal of {}",
        text
    );
}

#[test]
fn host_only_gets_default_port_and_empty_path() {
    let url = parse("http://example.com").unwrap();
    assert_eq!(url.host(), "example.com");
    assert_eq!(url.port(), "80");
    assert_eq!(url.path(), "");
    assert_eq!(url.searchpart(), "");
}

#[test]
fn all_parts_are_found() {
    let url = parse("http://example.com:8080/a/b?q=1").unwrap();
    assert_eq!(url.host(), "example.com");
    assert_eq!(url.port(), "8080");
    assert_eq!(url.path(), "a/b");
    assert_eq!(url.searchpart(), "q=1");
}

#[test]
fn trailing_slash_gives_empty_path() {
    let url = parse("http://example.com/").unwrap();
    assert_eq!(url.host(), "example.com");
    assert_eq!(url.port(), "80");
    assert_eq!(url.path(), "");
    assert_eq!(url.searchpart(), "");
}

#[test]
fn text_without_marker_is_refused() {
    refused("https://example.com/");
    refused("example.com");
    refused("");
    refused("http:/example.com");
    refused("HTTP://example.com");
    refused("ftp://example.com/http:/");
    refused("http:/");
    refused("ttp://example.com");
}

#[test]
fn refusal_leaves_the_url_as_it_was() {
    let mut url = Url::new("mailto:someone".to_string());
    assert!(url.parse().is_err());
    assert_eq!(url, Url::new("mailto:someone".to_string()));
    assert_eq!(url.host(), "");
    assert_eq!(url.port(), "");
}

#[test]
fn new_url_has_no_parts_yet() {
    let url = Url::new("http://example.com:8080/a?b".to_string());
    assert_eq!(
        parts(&url),
        ("http".to_string(), String::new(), String::new(), String::new(), String::new())
    );
}

#[test]
fn parse_fills_the_url_and_returns_it() {
    let mut url = Url::new("http://example.com:8080/a?b".to_string());
    let returned = url.parse().unwrap();
    assert_eq!(returned, url);
    assert_eq!(url.host(), "example.com");
    assert_eq!(url.port(), "8080");
    assert_eq!(url.path(), "a");
    assert_eq!(url.searchpart(), "b");
    assert_eq!(url.clone(), url);
}

#[test]
fn parse_twice_gives_the_same() {
    let mut url = Url::new("http://h:1/p?q".to_string());
    let first = url.parse().unwrap();
    let second = url.parse().unwrap();
    assert_eq!(first, second);
}

#[test]
fn query_without_path() {
    expect("http://example.com/?q=1", "example.com", "80", "", "q=1");
    expect("http://example.com?q=1", "example.com?q=1", "80", "", "");
}

#[test]
fn empty_query_is_an_empty_searchpart() {
    expect("http://example.com/a?", "example.com", "80", "a", "");
}

#[test]
fn only_the_first_question_mark_cuts() {
    expect("http://example.com/a?b?c=d?", "example.com", "80", "a", "b?c=d?");
}

#[test]
fn colon_in_the_path_does_not_touch_host_and_port() {
    expect("http://example.com/a:b/c:9", "example.com", "80", "a:b/c:9", "");
    expect("http://example.com/a?b:c", "example.com", "80", "a", "b:c");
}

#[test]
fn only_the_first_colon_of_the_authority_cuts() {
    expect("http://example.com:80:81/x", "example.com", "80:81", "x", "");
}

#[test]
fn port_is_not_checked() {
    expect("http://example.com:/x", "example.com", "", "x", "");
    expect("http://example.com:abc", "example.com", "abc", "", "");
}

#[test]
fn host_may_be_empty() {
    expect("http://", "", "80", "", "");
    expect("http:///path", "", "80", "path", "");
    expect("http://:8080/path", "", "8080", "path", "");
}

#[test]
fn path_keeps_its_further_slashes() {
    expect("http://example.com//a//b/", "example.com", "80", "/a//b/", "");
}

#[test]
fn marker_need_not_stand_at_the_start() {
    expect("see http://example.com/x", "see http", "", "/example.com/x", "");
    expect("ftp://http://example.com", "ftp", "", "/http://example.com", "");
}

#[test]
fn only_one_marker_is_set_aside() {
    expect("http://http://example.com", "http", "", "/example.com", "");
}

#[test]
fn parts_beyond_ascii_are_kept() {
    expect("http://bücher.example:8080/straße?q=ü✓", "bücher.example", "8080", "straße", "q=ü✓");
}

#[test]
fn request_target_joins_path_and_searchpart() {
    assert_eq!(parse("http://h/a/b?q=1").unwrap().request_target(), "a/b?q=1");
    assert_eq!(parse("http://h/a/b").unwrap().request_target(), "a/b");
    assert_eq!(parse("http://h/a/b?").unwrap().request_target(), "a/b");
    assert_eq!(parse("http://h").unwrap().request_target(), "");
    assert_eq!(parse("http://h/?x").unwrap().request_target(), "?x");
}

#[test]
fn literal_form_names_every_part() {
    assert_eq!(
        parse("http://example.com:8080/a/b?q=1").unwrap().literal_form(),
        "http://example.com:8080/a/b?q=1"
    );
    assert_eq!(parse("http://example.com").unwrap().literal_form(), "http://example.com:80/");
    assert_eq!(parse("http://example.com/a?").unwrap().literal_form(), "http://example.com:80/a");
    assert_eq!(Url::new("anything".to_string()).literal_form(), "http://:/");
}

#[test]
fn literal_form_parses_back_to_the_same_parts() {
    let texts = [
        "http://example.com",
        "http://example.com/",
        "http://example.com:8080/a/b?q=1",
        "http://example.com/a?",
        "http://example.com/?q",
        "http://",
        "http://:/",
        "http://:x/?",
        "http://http://example.com",
        "see http://example.com/x?y",
        "ftp://http://example.com",
        "http://a:b:c/d?e?f",
        "http://bücher.example/straße?ü",
    ];
    for text in texts {
        let url = parse(text).unwrap();
        let again = parse(&url.literal_form()).unwrap();
        assert_eq!(parts(&again), parts(&url), "round trip of {}", text);
        assert_eq!(again.literal_form(), url.literal_form(), "literal form of {}", text);
    }
}

#[test]
fn port_number_reads_decimal_ports() {
    assert_eq!(parse("http://h").unwrap().port_number(), Some(80));
    assert_eq!(parse("http://h:8080/").unwrap().port_number(), Some(8080));
    assert_eq!(parse("http://h:0").unwrap().port_number(), Some(0));
    assert_eq!(parse("http://h:65535").unwrap().port_number(), Some(65535));
    assert_eq!(parse("http://h:00080").unwrap().port_number(), Some(80));
}

#[test]
fn port_number_refuses_what_is_no_port() {
    assert_eq!(parse("http://h:65536").unwrap().port_number(), None);
    assert_eq!(parse("http://h:4294967376").unwrap().port_number(), None);
    assert_eq!(parse("http://h:99999999999999999999").unwrap().port_number(), None);
    assert_eq!(parse("http://h:").unwrap().port_number(), None);
    assert_eq!(parse("http://h:8o").unwrap().port_number(), None);
    assert_eq!(parse("http://h:+80").unwrap().port_number(), None);
    assert_eq!(parse("http://h:-1").unwrap().port_number(), None);
    assert_eq!(parse("http://h: 80").unwrap().port_number(), None);
    assert_eq!(parse("http://h:８０").unwrap().port_number(), None);
    assert_eq!(Url::new("http://h:80".to_string()).port_number(), None);
}
