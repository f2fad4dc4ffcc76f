use iotics_cli::host_worker::{
    api_endpoint, fold_twin_results, lookup_domain, parse_txt_record, parse_version_payload,
    plan_host, version_endpoint, worker_outcome, AddressPlan, NetworkType,
};
use iotics_cli::resolver::{parse_document_bytes, ResolveError, TwinDidDocument};

#[test]
fn local_host_never_uses_the_side_channel() {
    // Boundary: a record for "this host itself" derives its address
    // purely from configuration; the plan is never a lookup.
    let (did, plan) = plan_host(&None, "https://myhost.iotics.space:10001");
    assert_eq!(did, "?");
    match plan {
        AddressPlan::Local(url) => assert_eq!(url, "myhost.iotics.space"),
        AddressPlan::Lookup(_) => panic!("the local host must not be looked up"),
    }
}

#[test]
fn remote_host_is_looked_up_by_its_identifier() {
    let (did, plan) = plan_host(
        &Some("did:iotics:remote".to_string()),
        "https://myhost.iotics.space:10001",
    );
    assert_eq!(did, "did:iotics:remote");
    match plan {
        AddressPlan::Lookup(target) => assert_eq!(target, "did:iotics:remote"),
        AddressPlan::Local(_) => panic!("a remote host needs the side channel"),
    }
}

#[test]
fn txt_answer_yields_the_quoted_address() {
    let output = ";; ANSWER SECTION:\nexample.iotics.space. 300 IN TXT \"myhost.iotics.space\"\n";
    assert_eq!(parse_txt_record(output).unwrap(), "myhost.iotics.space");
}

#[test]
fn txt_answer_without_record_yields_nothing() {
    assert!(parse_txt_record(";; no answer today\n").is_none());
    assert!(parse_txt_record("").is_none());
}

#[test]
fn txt_capture_runs_to_the_last_quote_of_the_line() {
    let output = "x IN TXT \"a\" \"b\"\nother line\n";
    assert_eq!(parse_txt_record(output).unwrap(), "a\" \"b");
}

#[test]
fn txt_marker_without_closing_quote_is_skipped() {
    let output = "x IN TXT \"unclosed\ny IN TXT \"closed\"\n";
    assert_eq!(parse_txt_record(output).unwrap(), "closed");
}

#[test]
fn version_payload_decodes_the_version_field() {
    assert_eq!(
        parse_version_payload(b"{\"version\":\"3.0.12\",\"build\":\"x\"}").unwrap(),
        "3.0.12"
    );
    assert!(parse_version_payload(b"{\"build\":\"x\"}").is_none());
    assert!(parse_version_payload(b"{\"version\":7}").is_none());
    assert!(parse_version_payload(b"<html>down</html>").is_none());
}

#[test]
fn endpoints_are_built_from_the_resolved_address() {
    assert_eq!(api_endpoint("myhost.iotics.space"), "https://myhost.iotics.space:10001");
    assert_eq!(
        version_endpoint("myhost.iotics.space"),
        "https://myhost.iotics.space/index.json"
    );
    assert_eq!(
        lookup_domain("did:iotics:remote", &NetworkType::Prod),
        "did:iotics:remote.iotics.space"
    );
    assert_eq!(
        lookup_domain("did:iotics:remote", &NetworkType::Dev),
        "did:iotics:remote.dev.iotics.space"
    );
}

#[test]
fn outcome_is_empty_exactly_without_an_address() {
    // Only a failed address resolution gives the empty outcome.
    assert!(worker_outcome("did:a".to_string(), None, None, None, Vec::new()).is_none());
    let msg = worker_outcome(
        "did:a".to_string(),
        Some("alpha.iotics.space".to_string()),
        None,
        Some(4),
        Vec::new(),
    )
    .unwrap();
    assert_eq!(msg.host_did, "did:a");
    assert_eq!(msg.url, "alpha");
    assert_eq!(msg.version, "");
    assert_eq!(msg.twins_count, Some(4));
}

#[test]
fn version_failure_degrades_to_an_empty_string() {
    let msg = worker_outcome(
        "did:a".to_string(),
        Some("alpha".to_string()),
        None,
        None,
        Vec::new(),
    )
    .unwrap();
    assert_eq!(msg.version, "");
    let msg = worker_outcome(
        "did:a".to_string(),
        Some("alpha".to_string()),
        Some("3.0.12".to_string()),
        None,
        Vec::new(),
    )
    .unwrap();
    assert_eq!(msg.version, "3.0.12");
}

fn sample_twin(tag: &str) -> TwinDidDocument {
    let doc = format!(
        "{{\"iss\":\"did:iotics:{}#key\",\"doc\":{{\"updateTime\":1,\"ioticsDIDType\":\"t\"}}}}",
        tag
    );
    parse_document_bytes(doc.as_bytes()).unwrap()
}

#[test]
fn one_failed_twin_is_skipped_and_siblings_kept() {
    // Scenario: one twin's document fetch fails structurally; that
    // twin is skipped and its siblings for the same host are kept.
    let results = vec![
        Ok(sample_twin("alpha")),
        Err(ResolveError::MalformedToken),
        Ok(sample_twin("gamma")),
    ];
    let kept = fold_twin_results(results);
    assert_eq!(kept.len(), 2);
    assert_eq!(kept[0].did, "did:iotics:alpha");
    assert_eq!(kept[1].did, "did:iotics:gamma");
}
