use ssr::retriever::{diagnostics, get_records, retrieve_from};
use ssr::{process, Cli, Environment, Error, Response, SsrRecord, SsrRetriever};

fn svc(url: &str) -> SsrRecord {
    SsrRecord::new("svc", "d", "k1", url)
}

fn failure(text: &str) -> Response {
    Err(Error::Reqwest(text.to_string()))
}

#[test]
fn requests_carry_one_env_parameter_each() {
    let retriever = SsrRetriever::new("https://ssr.example")
        .add_targets(&[Environment::Dev, Environment::Qa])
        .add_targets(&[Environment::Uat, Environment::Prod]);

    let requests = retriever.requests();

    assert_eq!(requests.len(), 4);
    let expected = ["dev", "qa", "uat", "prod"];
    for place in 0..4 {
        assert_eq!(requests[place].url, "https://ssr.example");
        assert_eq!(requests[place].query, ("env".to_string(), expected[place].to_string()));
    }
}

#[test]
fn retriever_without_targets_plans_no_request() {
    assert!(SsrRetriever::new("https://ssr.example").requests().is_empty());
    assert!(SsrRetriever::new("https://ssr.example").add_targets(&[]).requests().is_empty());
}

#[test]
fn partial_failure_is_tolerated() {
    let retriever = SsrRetriever::new("https://ssr.example").add_targets(&Environment::all());
    let responses = vec![
        Ok(vec![svc("https://dev/svc")]),
        failure("connection refused"),
        Ok(vec![svc("https://uat/svc")]),
        Ok(vec![svc("https://prod/svc")]),
    ];

    let records = retriever.get(responses, None).unwrap();

    assert_eq!(records.targets(), vec![Environment::Dev, Environment::Uat, Environment::Prod]);
    let actual = records.consolidate();
    assert_eq!(actual.len(), 1);
    assert_eq!(actual[0].url_for(Environment::Dev), Some("https://dev/svc"));
    assert_eq!(actual[0].url_for(Environment::Qa), None);
    assert_eq!(actual[0].url_for(Environment::Uat), Some("https://uat/svc"));
    assert_eq!(actual[0].url_for(Environment::Prod), Some("https://prod/svc"));
}

#[test]
fn request_that_could_not_be_prepared_is_tolerated_too() {
    let retriever =
        SsrRetriever::new("https://ssr.example").add_targets(&[Environment::Dev, Environment::Qa]);
    let responses = vec![Err(Error::UnableToCloneClient), Ok(vec![svc("https://qa/svc")])];

    let records = retriever.get(responses, None).unwrap();

    assert_eq!(records.targets(), vec![Environment::Qa]);
}

#[test]
fn fails_when_every_request_failed() {
    let retriever = SsrRetriever::new("https://ssr.example").add_targets(&Environment::all());
    let responses =
        vec![failure("a"), Err(Error::UnableToCloneClient), failure("c"), failure("d")];

    assert_eq!(retriever.get(responses, None).err(), Some(Error::NoRecordsToProcess));
}

#[test]
fn fails_when_every_response_is_empty() {
    let retriever =
        SsrRetriever::new("https://ssr.example").add_targets(&[Environment::Dev, Environment::Qa]);

    assert_eq!(
        retriever.get(vec![Ok(Vec::new()), Ok(Vec::new())], None).err(),
        Some(Error::NoRecordsToProcess)
    );
}

#[test]
fn fails_when_every_record_is_filtered_out() {
    let retriever =
        SsrRetriever::new("https://ssr.example").add_targets(&[Environment::Dev, Environment::Qa]);
    let responses = vec![Ok(vec![svc("https://dev/svc")]), Ok(vec![svc("https://qa/svc")])];

    assert_eq!(
        retriever.get(responses, Some("nomatch".into())).err(),
        Some(Error::NoRecordsToProcess)
    );
}

#[test]
fn fails_without_targets_or_without_responses() {
    assert_eq!(
        SsrRetriever::new("https://ssr.example").get(Vec::new(), None).err(),
        Some(Error::NoRecordsToProcess)
    );
    assert_eq!(
        SsrRetriever::new("https://ssr.example")
            .add_targets(&[Environment::Dev])
            .get(Vec::new(), None)
            .err(),
        Some(Error::NoRecordsToProcess)
    );
    assert_eq!(
        SsrRetriever::new("https://ssr.example")
            .get(vec![Ok(vec![svc("https://dev/svc")])], None)
            .err(),
        Some(Error::NoRecordsToProcess)
    );
}

#[test]
fn empty_batch_is_kept_beside_a_batch_with_records() {
    let retriever =
        SsrRetriever::new("https://ssr.example").add_targets(&[Environment::Dev, Environment::Qa]);
    let responses = vec![Ok(Vec::new()), Ok(vec![svc("https://qa/svc")])];

    let records = retriever.get(responses, None).unwrap();

    assert_eq!(records.targets(), vec![Environment::Dev, Environment::Qa]);
}

#[test]
fn retrieval_filters_with_the_lowercased_pattern() {
    let retriever =
        SsrRetriever::new("https://ssr.example").add_targets(&[Environment::Dev, Environment::Qa]);
    let responses = vec![
        Ok(vec![
            SsrRecord::new("Billing", "", "b", "https://dev/b"),
            SsrRecord::new("Search", "", "s", "https://dev/s"),
        ]),
        Ok(vec![SsrRecord::new("Search", "", "s", "https://qa/s")]),
    ];

    let records = retriever.get(responses, Some("BILL".into())).unwrap();

    assert_eq!(records.targets(), vec![Environment::Dev, Environment::Qa]);
    let actual = records.consolidate();
    assert_eq!(actual.len(), 1);
    assert_eq!(actual[0].key(), "b");
    assert_eq!(actual[0].url_for(Environment::Dev), Some("https://dev/b"));
    assert_eq!(actual[0].url_for(Environment::Qa), None);
}

#[test]
fn retrieve_from_pairs_responses_with_targets_by_place() {
    let targets = vec![("env".to_string(), Environment::Prod), ("env".to_string(), Environment::Dev)];
    let responses = vec![Ok(vec![svc("https://prod/svc")]), Ok(vec![svc("https://dev/svc")])];

    let actual = retrieve_from(&targets, responses, None).unwrap().consolidate();

    assert_eq!(actual.len(), 1);
    assert_eq!(actual[0].url_for(Environment::Prod), Some("https://prod/svc"));
    assert_eq!(actual[0].url_for(Environment::Dev), Some("https://dev/svc"));
}

#[test]
fn get_records_keeps_matching_records_in_order() {
    let response: Response = Ok(vec![
        SsrRecord::new("one", "", "k1", "u1"),
        SsrRecord::new("two", "", "k2", "u2"),
        SsrRecord::new("one more", "", "k3", "u3"),
    ]);

    let kept = get_records(response, &Some("one".into())).unwrap();

    let keys: Vec<&str> = kept.iter().map(|record| record.key.as_str()).collect();
    assert_eq!(keys, vec!["k1", "k3"]);
}

#[test]
fn get_records_hands_an_error_on() {
    assert_eq!(
        get_records(failure("timed out"), &None).err(),
        Some(Error::Reqwest("timed out".to_string()))
    );
    assert_eq!(
        get_records(Err(Error::UnableToCloneClient), &Some("x".into())).err(),
        Some(Error::UnableToCloneClient)
    );
}

#[test]
fn diagnostics_tell_the_kinds_of_failure_apart() {
    let responses: Vec<Response> = vec![
        failure("connection refused"),
        Ok(Vec::new()),
        Err(Error::UnableToCloneClient),
        Err(Error::NoRecordsToProcess),
    ];

    assert_eq!(
        diagnostics(&responses),
        vec![
            "connection refused".to_string(),
            "Unable to process request".to_string(),
            "Failed to retrieve ssr records from endpoint!".to_string(),
        ]
    );
    assert!(diagnostics(&Vec::new()).is_empty());
}

#[test]
fn end_to_end_two_targets_without_filter() {
    let cli = Cli {
        target_environment: vec![Environment::Dev, Environment::Qa],
        url: "https://ssr.example".to_string(),
        filter: None,
    };
    let responses = vec![
        Ok(vec![SsrRecord::new("svc", "d", "k1", "https://dev/svc")]),
        Ok(vec![SsrRecord::new("svc", "d", "k1", "https://qa/svc")]),
    ];

    let actual = process(cli, responses).unwrap();

    assert_eq!(actual.len(), 1);
    assert_eq!(actual[0].name(), "svc");
    assert_eq!(actual[0].description(), "d");
    assert_eq!(actual[0].key(), "k1");
    assert_eq!(actual[0].url_for(Environment::Dev), Some("https://dev/svc"));
    assert_eq!(actual[0].url_for(Environment::Qa), Some("https://qa/svc"));
    assert_eq!(actual[0].url_for(Environment::Uat), None);
    assert_eq!(actual[0].url_for(Environment::Prod), None);
}

#[test]
fn end_to_end_two_targets_with_filter_that_matches_nothing() {
    let cli = Cli {
        target_environment: vec![Environment::Dev, Environment::Qa],
        url: "https://ssr.example".to_string(),
        filter: Some("nomatch".to_string()),
    };
    let responses = vec![
        Ok(vec![SsrRecord::new("svc", "d", "k1", "https://dev/svc")]),
        Ok(vec![SsrRecord::new("svc", "d", "k1", "https://qa/svc")]),
    ];

    assert_eq!(process(cli, responses).err(), Some(Error::NoRecordsToProcess));

    let mut sut = ssr::Ssr::new(2).set_pattern(Some("nomatch".to_string()));
    sut.add_records(Environment::Dev, vec![SsrRecord::new("svc", "d", "k1", "https://dev/svc")]);
    sut.add_records(Environment::Qa, vec![SsrRecord::new("svc", "d", "k1", "https://qa/svc")]);
    assert!(sut.consolidate().is_empty());
}

#[test]
fn end_to_end_without_named_targets_asks_all_four() {
    let responses = vec![
        failure("dev is down"),
        failure("qa is down"),
        failure("uat is down"),
        Ok(vec![SsrRecord::new("svc", "d", "k1", "https://prod/svc")]),
    ];

    let actual = process(Cli::default(), responses).unwrap();

    assert_eq!(actual.len(), 1);
    assert_eq!(actual[0].url_for(Environment::Prod), Some("https://prod/svc"));
    assert_eq!(actual[0].url_for(Environment::Dev), None);
}
