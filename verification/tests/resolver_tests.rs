use base64::Engine;
use iotics_cli::resolver::{
    build_twin_document, decode_document, decode_token, parse_document_bytes, resolve_fetched,
    resolve_from_cache, split_identifier, token_payload, discover_endpoint, ResolveError,
    ResolverCache,
};

fn doc_json() -> String {
    "{\"iss\":\"did:iotics:abc#owner-key\",\
     \"doc\":{\"updateTime\":1651234567890,\
     \"ioticsDIDType\":\"twin\",\
     \"delegateControl\":[{\"controller\":\"did:iotics:ctrl#ctrl-key\"}],\
     \"delegateAuthentication\":[{\"controller\":\"did:iotics:auth#auth-key\"}]}}"
        .to_string()
}

fn token_for(doc: &str) -> String {
    let payload = base64::engine::general_purpose::STANDARD.encode(doc.as_bytes());
    format!("eyJhbGciOiJFUzI1NiJ9.{}.signaturepart", payload)
}

#[test]
fn token_payload_takes_second_segment() {
    assert_eq!(token_payload("aaa.bbb.ccc").unwrap(), "bbb");
    assert_eq!(token_payload("aaa.bbb").unwrap(), "bbb");
    assert_eq!(
        token_payload("nodotsatall").unwrap_err(),
        ResolveError::MalformedToken
    );
}

#[test]
fn decode_token_recovers_document_bytes() {
    let doc = doc_json();
    let token = token_for(&doc);
    let bytes = decode_token(&token).unwrap();
    assert_eq!(bytes, doc.as_bytes());
}

#[test]
fn bad_base64_payload_is_a_malformed_token() {
    // Scenario: the token's payload segment fails base64 decoding.
    let err = decode_token("header.!!!notbase64!!!.sig").unwrap_err();
    assert_eq!(err, ResolveError::MalformedToken);
}

#[test]
fn document_fields_are_extracted() {
    let doc = doc_json();
    let parsed = decode_document(doc.as_bytes()).unwrap();
    assert_eq!(parsed.issuer, "did:iotics:abc#owner-key");
    assert_eq!(parsed.did_type, "twin");
    assert_eq!(parsed.update_time, 1651234567890);
    assert_eq!(
        parsed.controllers,
        vec![
            "did:iotics:ctrl#ctrl-key".to_string(),
            "did:iotics:auth#auth-key".to_string()
        ]
    );

    let twin = build_twin_document(&parsed).unwrap();
    assert_eq!(twin.did, "did:iotics:abc");
    assert_eq!(twin.key_name, "owner-key");
    assert_eq!(twin.update_time, 1651234567890);
    assert_eq!(twin.delegations.len(), 2);
    assert_eq!(twin.delegations[0].did, "did:iotics:ctrl");
    assert_eq!(twin.delegations[0].key_name, "ctrl-key");
    assert_eq!(twin.delegations[1].did, "did:iotics:auth");
    assert_eq!(twin.delegations[1].key_name, "auth-key");
}

#[test]
fn absent_and_null_delegation_lists_are_empty() {
    let doc = "{\"iss\":\"d#k\",\"doc\":{\"updateTime\":5,\"ioticsDIDType\":\"twin\",\
               \"delegateControl\":null}}";
    let parsed = decode_document(doc.as_bytes()).unwrap();
    assert!(parsed.controllers.is_empty());
    let twin = build_twin_document(&parsed).unwrap();
    assert!(twin.delegations.is_empty());
    assert_eq!(twin.update_time, 5);
}

#[test]
fn malformed_documents_are_structural_errors() {
    // not JSON at all
    assert_eq!(
        parse_document_bytes(b"] junk [").unwrap_err(),
        ResolveError::MalformedDocument
    );
    // no issuer
    assert_eq!(
        parse_document_bytes(b"{\"doc\":{\"updateTime\":1,\"ioticsDIDType\":\"t\"}}")
            .unwrap_err(),
        ResolveError::MalformedDocument
    );
    // a delegation entry without a controller
    let doc = "{\"iss\":\"d#k\",\"doc\":{\"updateTime\":1,\"ioticsDIDType\":\"t\",\
               \"delegateControl\":[{\"other\":true}]}}";
    assert_eq!(
        parse_document_bytes(doc.as_bytes()).unwrap_err(),
        ResolveError::MalformedDocument
    );
    // a fractional update time is not a timestamp
    let doc = "{\"iss\":\"d#k\",\"doc\":{\"updateTime\":1.5,\"ioticsDIDType\":\"t\"}}";
    assert_eq!(
        parse_document_bytes(doc.as_bytes()).unwrap_err(),
        ResolveError::MalformedDocument
    );
}

#[test]
fn issuer_without_hash_gives_no_partial_document() {
    // Scenario: an issuer string lacking `#` is a structural error for
    // exactly that document, with no partial result.
    assert_eq!(
        split_identifier("did:iotics:abc").unwrap_err(),
        ResolveError::MalformedIdentifier
    );
    let doc = "{\"iss\":\"did:iotics:abc\",\"doc\":{\"updateTime\":1,\"ioticsDIDType\":\"t\"}}";
    let outcome = parse_document_bytes(doc.as_bytes());
    assert_eq!(outcome.unwrap_err(), ResolveError::MalformedIdentifier);
    // a controller without `#` fails the same way
    let doc = "{\"iss\":\"d#k\",\"doc\":{\"updateTime\":1,\"ioticsDIDType\":\"t\",\
               \"delegateAuthentication\":[{\"controller\":\"nokey\"}]}}";
    assert_eq!(
        parse_document_bytes(doc.as_bytes()).unwrap_err(),
        ResolveError::MalformedIdentifier
    );
}

#[test]
fn transport_failure_passes_through_and_caches_nothing() {
    let mut cache = ResolverCache::new();
    let err = resolve_fetched(&mut cache, "did:x", Err(ResolveError::Transport)).unwrap_err();
    assert_eq!(err, ResolveError::Transport);
    assert!(resolve_from_cache(&cache, "did:x").is_none());
}

#[test]
fn cold_then_warm_resolution_is_idempotent() {
    // Idempotence: resolving the same identifier twice in one run —
    // cold cache, then warm — yields identical parsed content.
    let doc = doc_json();
    let token = token_for(&doc);
    let mut cache = ResolverCache::new();

    assert!(resolve_from_cache(&cache, "did:iotics:abc").is_none());
    let cold = resolve_fetched(&mut cache, "did:iotics:abc", Ok(token)).unwrap();

    let warm = resolve_from_cache(&cache, "did:iotics:abc")
        .expect("the cache must hit after a successful fetch")
        .expect("the cached bytes must decode");

    assert_eq!(cold.did, warm.did);
    assert_eq!(cold.key_name, warm.key_name);
    assert_eq!(cold.update_time, warm.update_time);
    assert_eq!(cold.delegations.len(), warm.delegations.len());
    for (a, b) in cold.delegations.iter().zip(warm.delegations.iter()) {
        assert_eq!(a.did, b.did);
        assert_eq!(a.key_name, b.key_name);
    }
}

#[test]
fn cache_round_trip_matches_direct_decoding() {
    // Round trip: the document re-read through the cache-hit path
    // decodes to the same fields as decoding the fetched token
    // directly.
    let doc = doc_json();
    let token = token_for(&doc);

    let direct = parse_document_bytes(doc.as_bytes()).unwrap();

    let mut cache = ResolverCache::new();
    resolve_fetched(&mut cache, "did:iotics:abc", Ok(token)).unwrap();
    // the cache holds the raw decoded payload byte for byte
    assert_eq!(
        cache.lookup("did:iotics:abc").map(|bytes| bytes.as_slice()),
        Some(doc.as_bytes())
    );
    let reread = resolve_from_cache(&cache, "did:iotics:abc").unwrap().unwrap();

    assert_eq!(direct.did, reread.did);
    assert_eq!(direct.key_name, reread.key_name);
    assert_eq!(direct.update_time, reread.update_time);
    assert_eq!(direct.delegations.len(), reread.delegations.len());
}

#[test]
fn failed_parse_is_not_cached() {
    let mut cache = ResolverCache::new();
    let token = token_for("] not a document [");
    let err = resolve_fetched(&mut cache, "did:bad", Ok(token)).unwrap_err();
    assert_eq!(err, ResolveError::MalformedDocument);
    assert!(resolve_from_cache(&cache, "did:bad").is_none());
}

#[test]
fn cached_document_with_bad_issuer_still_caches_bytes() {
    // the raw bytes are memoized once the document shape is good, even
    // though the identifier split then fails
    let doc = "{\"iss\":\"nokey\",\"doc\":{\"updateTime\":1,\"ioticsDIDType\":\"t\"}}";
    let token = token_for(doc);
    let mut cache = ResolverCache::new();
    let err = resolve_fetched(&mut cache, "did:odd", Ok(token)).unwrap_err();
    assert_eq!(err, ResolveError::MalformedIdentifier);
    let warm = resolve_from_cache(&cache, "did:odd").unwrap();
    assert_eq!(warm.unwrap_err(), ResolveError::MalformedIdentifier);
}

#[test]
fn discover_endpoint_is_the_resolver_path() {
    assert_eq!(
        discover_endpoint("https://resolver.example", "did:iotics:abc"),
        "https://resolver.example/1.0/discover/did:iotics:abc"
    );
}
