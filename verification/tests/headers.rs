use pawn_requests::headers::{HeaderError, Headers};

fn pairs_of(headers: &Headers) -> Vec<(String, String)> {
    let mut pairs = headers.pairs().clone();
    pairs.sort();
    pairs
}

fn pair(name: &str, value: &str) -> (String, String) {
    (name.to_string(), value.to_string())
}

#[test]
fn new_header_set_is_empty() {
    let headers = Headers::new();
    assert_eq!(headers.len(), 0);
    assert!(headers.pairs().is_empty());
    assert_eq!(headers.get("accept"), None);
}

#[test]
fn names_are_stored_in_lower_case() {
    let mut headers = Headers::new();
    assert_eq!(headers.insert("X-Custom-Header", "Value"), Ok(()));
    assert_eq!(headers.insert("Content-Type", "text/plain"), Ok(()));
    assert_eq!(
        pairs_of(&headers),
        vec![pair("content-type", "text/plain"), pair("x-custom-header", "Value")]
    );
}

#[test]
fn lookup_ignores_case() {
    let mut headers = Headers::new();
    headers.insert("Accept", "application/json").unwrap();
    let expected = String::from("application/json");
    assert_eq!(headers.get("accept"), Some(&expected));
    assert_eq!(headers.get("ACCEPT"), Some(&expected));
    assert_eq!(headers.get("aCCePt"), Some(&expected));
    assert_eq!(headers.get("accept-language"), None);
}

#[test]
fn last_write_wins_across_spellings() {
    let mut headers = Headers::new();
    headers.insert("Authorization", "first").unwrap();
    headers.insert("x-other", "kept").unwrap();
    headers.insert("AUTHORIZATION", "second").unwrap();
    assert_eq!(headers.len(), 2);
    assert_eq!(headers.get("authorization"), Some(&String::from("second")));
    assert_eq!(headers.get("X-Other"), Some(&String::from("kept")));
}

#[test]
fn invalid_names_are_refused_and_change_nothing() {
    let mut headers = Headers::new();
    headers.insert("ok", "1").unwrap();
    for name in ["", "two words", "colon:", "caf\u{e9}", "new\nline", "a/b", "(x)", "\"q\"", "a,b"] {
        assert_eq!(headers.insert(name, "v"), Err(HeaderError::InvalidName), "{:?}", name);
    }
    assert_eq!(pairs_of(&headers), vec![pair("ok", "1")]);
    assert_eq!(headers.get("two words"), None);
}

#[test]
fn every_token_character_is_accepted_in_a_name() {
    let mut headers = Headers::new();
    let name = "!#$%&'*+-.^_`|~0123456789abcxyzABCXYZ";
    assert_eq!(headers.insert(name, "v"), Ok(()));
    assert_eq!(headers.pairs()[0].0, "!#$%&'*+-.^_`|~0123456789abcxyzabcxyz");
}

#[test]
fn name_length_limit_is_65535() {
    let longest = "a".repeat(65535);
    let too_long = "a".repeat(65536);
    let mut headers = Headers::new();
    assert_eq!(headers.insert(&longest, "v"), Ok(()));
    assert_eq!(headers.insert(&too_long, "v"), Err(HeaderError::InvalidName));
    assert_eq!(headers.len(), 1);
    let upper = "A".repeat(65535);
    assert_eq!(headers.get(&upper), Some(&String::from("v")));
}

#[test]
fn names_around_the_short_name_boundary_are_lowered() {
    let mut headers = Headers::new();
    let at = "B".repeat(64);
    let over = "C".repeat(65);
    headers.insert(&at, "1").unwrap();
    headers.insert(&over, "2").unwrap();
    assert_eq!(pairs_of(&headers), vec![pair(&"b".repeat(64), "1"), pair(&"c".repeat(65), "2")]);
}

#[test]
fn invalid_values_are_refused_and_change_nothing() {
    let mut headers = Headers::new();
    for value in ["line\nbreak", "carriage\rreturn", "\u{0}", "\u{7f}", "\u{1f}", "bell\u{7}"] {
        assert_eq!(headers.insert("x-a", value), Err(HeaderError::InvalidValue), "{:?}", value);
    }
    assert_eq!(headers.len(), 0);
}

#[test]
fn tab_space_and_non_ascii_values_are_accepted() {
    let mut headers = Headers::new();
    assert_eq!(headers.insert("x-tab", "a\tb"), Ok(()));
    assert_eq!(headers.insert("x-space", " "), Ok(()));
    assert_eq!(headers.insert("x-empty", ""), Ok(()));
    assert_eq!(headers.insert("x-tilde", "~"), Ok(()));
    assert_eq!(headers.insert("x-latin", "caf\u{e9}"), Ok(()));
    assert_eq!(headers.insert("x-c1", "\u{80}"), Ok(()));
    assert_eq!(headers.len(), 6);
    assert_eq!(headers.get("x-latin"), Some(&String::from("caf\u{e9}")));
}

#[test]
fn invalid_name_is_reported_before_invalid_value() {
    let mut headers = Headers::new();
    assert_eq!(headers.insert("bad name", "bad\nvalue"), Err(HeaderError::InvalidName));
}

#[test]
fn merged_lays_extra_over_base() {
    let mut base = Headers::new();
    base.insert("Accept", "text/html").unwrap();
    base.insert("User-Agent", "pawn").unwrap();
    let mut extra = Headers::new();
    extra.insert("ACCEPT", "application/json").unwrap();
    extra.insert("X-Trace", "1").unwrap();
    let merged = base.merged(&extra);
    assert_eq!(
        pairs_of(&merged),
        vec![pair("accept", "application/json"), pair("user-agent", "pawn"), pair("x-trace", "1")]
    );
    assert_eq!(pairs_of(&base), vec![pair("accept", "text/html"), pair("user-agent", "pawn")]);
    assert_eq!(pairs_of(&extra), vec![pair("accept", "application/json"), pair("x-trace", "1")]);
}

#[test]
fn merged_with_empty_is_the_other_side() {
    let mut some = Headers::new();
    some.insert("a", "1").unwrap();
    let none = Headers::new();
    assert_eq!(pairs_of(&some.merged(&none)), vec![pair("a", "1")]);
    assert_eq!(pairs_of(&none.merged(&some)), vec![pair("a", "1")]);
    assert_eq!(none.merged(&none).len(), 0);
}
