use prime_counter::{find_last, limit_from_pairs, limit_from_query, parse_limit, DEFAULT_LIMIT};

fn pairs(items: &[(&str, &str)]) -> Vec<(String, String)> {
    items.iter().map(|(k, v)| (k.to_string(), v.to_string())).collect()
}

#[test]
fn default_limit_is_one_hundred_thousand() {
    assert_eq!(DEFAULT_LIMIT, 100000);
}

#[test]
fn parse_limit_defaults_when_absent() {
    assert_eq!(parse_limit(None), 100000);
}

#[test]
fn parse_limit_takes_a_number() {
    assert_eq!(parse_limit(Some("10")), 10);
    assert_eq!(parse_limit(Some("0")), 0);
    assert_eq!(parse_limit(Some("+25")), 25);
    assert_eq!(parse_limit(Some("18446744073709551615")), u64::MAX);
}

#[test]
fn parse_limit_defaults_when_malformed() {
    assert_eq!(parse_limit(Some("notanumber")), 100000);
    assert_eq!(parse_limit(Some("")), 100000);
    assert_eq!(parse_limit(Some("-5")), 100000);
    assert_eq!(parse_limit(Some("10.0")), 100000);
    assert_eq!(parse_limit(Some(" 10")), 100000);
    assert_eq!(parse_limit(Some("18446744073709551616")), 100000);
}

#[test]
fn find_last_takes_the_last_of_several() {
    let all = pairs(&[("a", "1"), ("b", "2"), ("a", "3"), ("c", "4")]);
    assert_eq!(find_last(&all, "a"), Some("3"));
    assert_eq!(find_last(&all, "b"), Some("2"));
    assert_eq!(find_last(&all, "c"), Some("4"));
}

#[test]
fn find_last_finds_nothing_for_an_unknown_name() {
    let all = pairs(&[("a", "1"), ("b", "2")]);
    assert_eq!(find_last(&all, "z"), None);
    assert_eq!(find_last(&all, ""), None);
    assert_eq!(find_last(&Vec::new(), "a"), None);
}

#[test]
fn find_last_compares_names_exactly() {
    let all = pairs(&[("Limit", "1"), ("limit ", "2"), ("limi", "3")]);
    assert_eq!(find_last(&all, "limit"), None);
}

#[test]
fn limit_from_pairs_defaults_without_a_limit() {
    assert_eq!(limit_from_pairs(&Vec::new()), 100000);
    assert_eq!(limit_from_pairs(&pairs(&[("other", "5")])), 100000);
    assert_eq!(limit_from_pairs(&pairs(&[("LIMIT", "5")])), 100000);
}

#[test]
fn limit_from_pairs_takes_the_limit() {
    assert_eq!(limit_from_pairs(&pairs(&[("limit", "10")])), 10);
    assert_eq!(limit_from_pairs(&pairs(&[("x", "1"), ("limit", "30"), ("y", "2")])), 30);
}

#[test]
fn limit_from_pairs_lets_the_last_limit_win() {
    assert_eq!(limit_from_pairs(&pairs(&[("limit", "10"), ("limit", "20")])), 20);
    assert_eq!(limit_from_pairs(&pairs(&[("limit", "10"), ("limit", "oops")])), 100000);
    assert_eq!(limit_from_pairs(&pairs(&[("limit", "oops"), ("limit", "10")])), 10);
}

#[test]
fn limit_from_pairs_defaults_on_a_malformed_limit() {
    assert_eq!(limit_from_pairs(&pairs(&[("limit", "notanumber")])), 100000);
    assert_eq!(limit_from_pairs(&pairs(&[("limit", "")])), 100000);
}

#[test]
fn limit_from_query_defaults_on_an_empty_query() {
    assert_eq!(limit_from_query(""), 100000);
}

#[test]
fn limit_from_query_takes_the_limit() {
    assert_eq!(limit_from_query("limit=10"), 10);
    assert_eq!(limit_from_query("a=b&limit=25&c=d"), 25);
    assert_eq!(limit_from_query("limit=10&x=notanumber"), 10);
}

#[test]
fn limit_from_query_defaults_on_a_malformed_limit() {
    assert_eq!(limit_from_query("limit=notanumber"), 100000);
    assert_eq!(limit_from_query("limit="), 100000);
    assert_eq!(limit_from_query("limit"), 100000);
    assert_eq!(limit_from_query("limit=-3"), 100000);
}

#[test]
fn limit_from_query_defaults_when_the_limit_is_missing() {
    assert_eq!(limit_from_query("other=10"), 100000);
    assert_eq!(limit_from_query("Limit=10"), 100000);
}

#[test]
fn limit_from_query_lets_the_last_limit_win() {
    assert_eq!(limit_from_query("limit=1&limit=2"), 2);
}

#[test]
fn limit_from_query_decodes_percent_escapes() {
    assert_eq!(limit_from_query("limit=%31%30"), 10);
    assert_eq!(limit_from_query("%6Cimit=7"), 7);
    assert_eq!(limit_from_query("limit=%2B12"), 12);
}

#[test]
fn limit_from_query_reads_a_plus_as_a_space() {
    assert_eq!(limit_from_query("limit=+10"), 100000);
    assert_eq!(limit_from_query("limit=1+0"), 100000);
}

#[test]
fn limit_from_query_skips_empty_segments() {
    assert_eq!(limit_from_query("&&limit=5&"), 5);
}
