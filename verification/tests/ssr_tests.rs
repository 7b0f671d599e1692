use ssr::ssr::{found_in_any, normalize};
use ssr::{Environment, Ssr, SsrRecord, SsrRecords, SsrResult};

fn count_after_filter(
    name: &str,
    description: &str,
    key: &str,
    url: &str,
    pattern: Option<String>,
) -> usize {
    let mut records = Vec::new();
    let record = SsrRecord::new(name, description, key, url);
    records.push(record);
    let mut sut = Ssr::new(1).set_pattern(pattern);
    sut.add_records(Environment::Dev, records);

    sut.consolidate().len()
}

#[test]
fn should_only_include_records_containing_pattern_in_name_whatever_the_case() {
    assert_eq!(
        count_after_filter("SsR nAmE", "desc", "key", "https://somewhere", Some("nAmE".into())),
        1
    );
}

#[test]
fn should_not_include_records_when_pattern_has_more_than_the_name() {
    assert_eq!(
        count_after_filter("ssr name", "desc", "key", "https://somewhere", Some("name ".into())),
        0
    );
}

#[test]
fn should_only_include_records_containing_pattern_in_description() {
    assert_eq!(
        count_after_filter("ssr name", "DesC", "key", "https://somewhere", Some("dEs".into())),
        1
    );
}

#[test]
fn should_only_include_records_containing_pattern_in_key() {
    assert_eq!(
        count_after_filter("ssr name", "desc", "kEy", "https://somewhere", Some("Ke".into())),
        1
    );
}

#[test]
fn should_only_include_records_containing_whole_key_whatever_the_case() {
    assert_eq!(
        count_after_filter("ssr name", "desc", "KeY", "https://somewhere", Some("kEy".into())),
        1
    );
}

#[test]
fn should_not_include_records_containing_pattern_in_url_only() {
    assert_eq!(
        count_after_filter(
            "ssr name",
            "desc",
            "key",
            "https://somewhere",
            Some("somewhere".into())
        ),
        0
    );
}

#[test]
fn should_include_every_record_without_pattern() {
    assert_eq!(count_after_filter("ssr name", "desc", "key", "https://somewhere", None), 1);
}

#[test]
fn should_include_every_record_with_empty_pattern() {
    assert_eq!(
        count_after_filter("ssr name", "desc", "key", "https://somewhere", Some(String::new())),
        1
    );
    assert_eq!(count_after_filter("", "", "", "", Some(String::new())), 1);
}

#[test]
fn should_group_urls_together_under_same_key() {
    let mut records = Vec::new();
    records.push(SsrRecord::new("name", "description", "key", "https://url1"));
    let mut sut = Ssr::new(2).set_pattern(None);
    sut.add_records(Environment::Dev, records);
    let mut records = Vec::new();
    records.push(SsrRecord::new("name", "description", "key", "https://url2"));
    sut.add_records(Environment::Uat, records);

    let actual = sut.consolidate();

    assert_eq!(actual.len(), 1);
    assert_eq!(actual[0].url().len(), 4);
    assert_eq!(
        actual[0].url()[Environment::Dev.to_usize()].1,
        Some("https://url1".into())
    );
    assert_eq!(actual[0].url()[Environment::Qa.to_usize()].1, None);
    assert_eq!(
        actual[0].url()[Environment::Uat.to_usize()].1,
        Some("https://url2".into())
    );
    assert_eq!(actual[0].url()[Environment::Prod.to_usize()].1, None);
}

#[test]
fn will_overwrite_earlier_url_for_same_key_and_target() {
    let mut records = Vec::new();
    records.push(SsrRecord::new("name", "description", "key", "https://url1"));
    records.push(SsrRecord::new("name", "description", "key", "https://url2"));
    let mut sut = Ssr::new(2).set_pattern(None);
    sut.add_records(Environment::Dev, records);

    let actual = sut.consolidate();

    assert_eq!(actual.len(), 1);
    assert_eq!(actual[0].url().len(), 4);
    assert_eq!(
        actual[0].url()[Environment::Dev.to_usize()].1,
        Some("https://url2".into())
    );
    assert_eq!(actual[0].url()[Environment::Qa.to_usize()].1, None);
    assert_eq!(actual[0].url()[Environment::Uat.to_usize()].1, None);
    assert_eq!(actual[0].url()[Environment::Prod.to_usize()].1, None);
}

#[test]
fn will_overwrite_earlier_url_from_a_second_batch_of_the_same_target() {
    let mut sut = Ssr::new(2);
    sut.add_records(Environment::Qa, vec![SsrRecord::new("n", "d", "k", "https://first")]);
    sut.add_records(Environment::Qa, vec![SsrRecord::new("n", "d", "k", "https://second")]);

    let actual = sut.consolidate();

    assert_eq!(actual.len(), 1);
    assert_eq!(actual[0].url_for(Environment::Qa), Some("https://second"));
}

#[test]
fn keeps_name_and_description_of_first_record_seen_with_a_key() {
    let mut sut = Ssr::new(2);
    sut.add_records(
        Environment::Dev,
        vec![SsrRecord::new("first name", "first description", "k", "https://dev")],
    );
    sut.add_records(
        Environment::Prod,
        vec![SsrRecord::new("later name", "later description", "k", "https://prod")],
    );

    let actual = sut.consolidate();

    assert_eq!(actual.len(), 1);
    assert_eq!(actual[0].name(), "first name");
    assert_eq!(actual[0].description(), "first description");
    assert_eq!(actual[0].key(), "k");
    assert_eq!(actual[0].url_for(Environment::Dev), Some("https://dev"));
    assert_eq!(actual[0].url_for(Environment::Qa), None);
    assert_eq!(actual[0].url_for(Environment::Uat), None);
    assert_eq!(actual[0].url_for(Environment::Prod), Some("https://prod"));
}

#[test]
fn lists_one_entry_per_key_in_the_order_keys_were_first_seen() {
    let mut sut = Ssr::new(2);
    sut.add_records(
        Environment::Dev,
        vec![
            SsrRecord::new("b", "", "kb", "https://dev/b"),
            SsrRecord::new("a", "", "ka", "https://dev/a"),
        ],
    );
    sut.add_records(
        Environment::Qa,
        vec![
            SsrRecord::new("c", "", "kc", "https://qa/c"),
            SsrRecord::new("a", "", "ka", "https://qa/a"),
            SsrRecord::new("b", "", "kb", "https://qa/b"),
        ],
    );

    let actual = sut.consolidate();

    let keys: Vec<&str> = actual.iter().map(|result| result.key()).collect();
    assert_eq!(keys, vec!["kb", "ka", "kc"]);
    assert_eq!(actual[0].url_for(Environment::Dev), Some("https://dev/b"));
    assert_eq!(actual[0].url_for(Environment::Qa), Some("https://qa/b"));
    assert_eq!(actual[1].url_for(Environment::Dev), Some("https://dev/a"));
    assert_eq!(actual[1].url_for(Environment::Qa), Some("https://qa/a"));
    assert_eq!(actual[2].url_for(Environment::Dev), None);
    assert_eq!(actual[2].url_for(Environment::Qa), Some("https://qa/c"));
}

#[test]
fn keys_differing_in_case_are_different_keys() {
    let mut sut = Ssr::new(1);
    sut.add_records(
        Environment::Dev,
        vec![SsrRecord::new("n", "d", "Key", "https://1"), SsrRecord::new("n", "d", "key", "https://2")],
    );

    assert_eq!(sut.consolidate().len(), 2);
}

#[test]
fn location_is_only_set_for_targets_whose_batch_held_the_key() {
    let mut sut = Ssr::new(3);
    sut.add_records(Environment::Dev, vec![SsrRecord::new("x", "", "kx", "https://dev/x")]);
    sut.add_records(Environment::Uat, vec![SsrRecord::new("y", "", "ky", "https://uat/y")]);
    sut.add_records(Environment::Prod, Vec::new());

    let actual = sut.consolidate();

    assert_eq!(actual.len(), 2);
    for target in Environment::all() {
        assert_eq!(actual[0].url_for(target).is_some(), target == Environment::Dev);
        assert_eq!(actual[1].url_for(target).is_some(), target == Environment::Uat);
    }
}

#[test]
fn filtered_out_record_leaves_no_location() {
    let mut sut = Ssr::new(2).set_pattern(Some("Alpha".into()));
    sut.add_records(Environment::Dev, vec![SsrRecord::new("alpha svc", "", "k", "https://dev")]);
    sut.add_records(Environment::Qa, vec![SsrRecord::new("beta svc", "", "k", "https://qa")]);

    let actual = sut.consolidate();

    assert_eq!(actual.len(), 1);
    assert_eq!(actual[0].url_for(Environment::Dev), Some("https://dev"));
    assert_eq!(actual[0].url_for(Environment::Qa), None);
}

#[test]
fn consolidating_equal_batches_twice_gives_equal_content() {
    fn build() -> Ssr {
        let mut sut = Ssr::new(2).set_pattern(Some("S".into()));
        sut.add_records(
            Environment::Dev,
            vec![
                SsrRecord::new("svc one", "d1", "k1", "https://dev/1"),
                SsrRecord::new("svc two", "d2", "k2", "https://dev/2"),
                SsrRecord::new("other", "d3", "k3", "https://dev/3"),
            ],
        );
        sut.add_records(Environment::Qa, vec![SsrRecord::new("svc two", "d2", "k2", "https://qa/2")]);
        sut
    }
    let first = build().consolidate();
    let second = build().consolidate();

    assert_eq!(first.len(), 2);
    assert_eq!(first.len(), second.len());
    for place in 0..first.len() {
        assert_eq!(first[place].key(), second[place].key());
        assert_eq!(first[place].url(), second[place].url());
    }
}

#[test]
fn consolidating_nothing_gives_nothing() {
    assert!(Ssr::new(0).consolidate().is_empty());
    let mut sut = Ssr::new(1);
    sut.add_records(Environment::Dev, Vec::new());
    assert!(sut.consolidate().is_empty());
}

#[test]
fn ssr_is_empty_until_a_batch_is_added() {
    let mut sut = Ssr::new(4);
    assert!(sut.is_empty());
    assert!(sut.targets().is_empty());
    sut.add_records(Environment::Uat, Vec::new());
    assert!(!sut.is_empty());
    sut.add_records(Environment::Dev, vec![SsrRecord::new("n", "d", "k", "u")]);
    assert_eq!(sut.targets(), vec![Environment::Uat, Environment::Dev]);
}

#[test]
fn a_very_large_capacity_is_no_obstacle() {
    let sut = Ssr::new(usize::MAX);
    assert!(sut.is_empty());
}

#[test]
fn batch_can_be_built_on_its_own() {
    let batch = SsrRecords::new(Environment::Qa, vec![SsrRecord::new("n", "d", "k", "u")]);
    assert!(format!("{:?}", batch).contains("Qa"));
}

#[test]
fn record_holds_its_four_texts() {
    let record = SsrRecord::new("name", "description", "key", "https://url");
    assert_eq!(record.name, "name");
    assert_eq!(record.description, "description");
    assert_eq!(record.key, "key");
    assert_eq!(record.url, "https://url");
}

#[test]
fn record_matches_normalized_pattern_in_name_description_or_key() {
    let record = SsrRecord::new("Payment Gateway", "Handles CARDS", "Pay-GW", "https://Host/x");
    assert!(record.matches_pattern(&None));
    assert!(record.matches_pattern(&Some("payment".into())));
    assert!(record.matches_pattern(&Some("cards".into())));
    assert!(record.matches_pattern(&Some("pay-gw".into())));
    assert!(record.matches_pattern(&Some("".into())));
    assert!(!record.matches_pattern(&Some("host".into())));
    assert!(!record.matches_pattern(&Some("https".into())));
    assert!(!record.matches_pattern(&Some("gatewayhandles".into())));
}

#[test]
fn record_is_compared_with_the_pattern_as_given() {
    let record = SsrRecord::new("Payment Gateway", "", "", "");
    assert!(!record.matches_pattern(&Some("Payment".into())));
    assert!(record.matches_pattern(&normalize(Some("Payment".into()))));
}

#[test]
fn normalize_lowers_the_pattern() {
    assert_eq!(normalize(Some("NaMe ÄÖ".into())), Some("name äö".to_string()));
    assert_eq!(normalize(Some(String::new())), Some(String::new()));
    assert_eq!(normalize(None), None);
}

#[test]
fn found_in_any_looks_into_each_of_the_three_texts() {
    assert!(found_in_any("ab", "xabx", "", ""));
    assert!(found_in_any("ab", "", "ab", ""));
    assert!(found_in_any("ab", "", "", "cab"));
    assert!(found_in_any("", "", "", ""));
    assert!(!found_in_any("ab", "a", "b", "ba"));
    assert!(!found_in_any("abc", "ab", "bc", ""));
}

#[test]
fn new_result_has_no_location() {
    let result = SsrResult::new("name", "description", "key");
    assert_eq!(result.name(), "name");
    assert_eq!(result.description(), "description");
    assert_eq!(result.key(), "key");
    assert_eq!(result.url().len(), 4);
    for target in Environment::all() {
        assert_eq!(result.url()[target.to_usize()].0, target);
        assert_eq!(result.url()[target.to_usize()].1, None);
        assert_eq!(result.url_for(target), None);
    }
}

#[test]
fn update_url_sets_one_slot_and_overwrites() {
    let mut result = SsrResult::new("name", "description", "key");
    result.update_url(Environment::Uat, "https://one".to_string());
    assert_eq!(result.url_for(Environment::Uat), Some("https://one"));
    assert_eq!(result.url_for(Environment::Dev), None);
    result.update_url(Environment::Uat, "https://two".to_string());
    assert_eq!(result.url_for(Environment::Uat), Some("https://two"));
    assert_eq!(result.url()[2], (Environment::Uat, Some("https://two".to_string())));
    assert_eq!(result.url_for(Environment::Qa), None);
    assert_eq!(result.url_for(Environment::Prod), None);
}

#[test]
fn empty_location_is_present_and_not_absent() {
    let mut result = SsrResult::new("name", "description", "key");
    result.update_url(Environment::Dev, String::new());
    assert_eq!(result.url_for(Environment::Dev), Some(""));
    assert_eq!(result.url_for(Environment::Qa), None);
}

#[test]
fn result_renders_name_key_description_and_set_locations() {
    let mut result = SsrResult::new("svc", "does things", "k1");
    assert_eq!(result.to_string(), "svc (k1)\ndoes things\n");
    result.update_url(Environment::Prod, "https://prod/svc".to_string());
    result.update_url(Environment::Dev, "https://dev/svc".to_string());
    assert_eq!(
        result.to_string(),
        "svc (k1)\ndoes things\ndev \t https://dev/svc\nprod \t https://prod/svc\n"
    );
}

#[test]
fn order_of_batches_does_not_change_the_locations() {
    fn dev() -> Vec<SsrRecord> {
        vec![
            SsrRecord::new("a", "", "ka", "https://dev/a-old"),
            SsrRecord::new("b", "", "kb", "https://dev/b"),
            SsrRecord::new("a", "", "ka", "https://dev/a"),
        ]
    }
    fn prod() -> Vec<SsrRecord> {
        vec![SsrRecord::new("a", "", "ka", "https://prod/a"), SsrRecord::new("c", "", "kc", "https://prod/c")]
    }
    let mut one = Ssr::new(2);
    one.add_records(Environment::Dev, dev());
    one.add_records(Environment::Prod, prod());
    let mut other = Ssr::new(2);
    other.add_records(Environment::Prod, prod());
    other.add_records(Environment::Dev, dev());

    let first = one.consolidate();
    let second = other.consolidate();

    assert_eq!(first.len(), 3);
    assert_eq!(second.len(), 3);
    for result in first.iter() {
        let twin = second.iter().find(|other| other.key() == result.key()).unwrap();
        assert_eq!(result.url(), twin.url());
    }
    let a = first.iter().find(|result| result.key() == "ka").unwrap();
    assert_eq!(a.url_for(Environment::Dev), Some("https://dev/a"));
    assert_eq!(a.url_for(Environment::Prod), Some("https://prod/a"));
}
