use iotics_cli::coordinator::{CollectedTwins, Coordinator, CoordinatorMode, HostResultMessage};
use iotics_cli::graph::{
    assemble_store, build_graph_triples, export_content, ontology_text, Triple, TripleObject,
    TripleStore,
};

fn collected_for(hosts: &[&str]) -> CollectedTwins {
    let mut coordinator = Coordinator::new(CoordinatorMode::KnowledgeGraph);
    for host in hosts {
        coordinator.on_host_discovered();
        coordinator.on_host_result(HostResultMessage {
            host_did: format!("did:{}", host),
            url: host.to_string(),
            version: String::new(),
            twins_count: None,
            twins: Vec::new(),
        });
    }
    coordinator.collected
}

fn assert_host_triples(triples: &[Triple], host: &str) {
    let subject = format!("https://data.iotics.com/diddy/hosts/{}", host);
    assert_eq!(triples[0].subject, subject);
    assert_eq!(
        triples[0].predicate,
        "http://www.w3.org/1999/02/22-rdf-syntax-ns#type"
    );
    match &triples[0].object {
        TripleObject::Node(iri) => assert_eq!(iri, "https://data.iotics.com/diddy/Host"),
        TripleObject::Text(_) => panic!("the type object is a node"),
    }
    assert_eq!(triples[1].subject, subject);
    assert_eq!(triples[1].predicate, "http://www.w3.org/2000/01/rdf-schema#label");
    match &triples[1].object {
        TripleObject::Text(text) => assert_eq!(text, host),
        TripleObject::Node(_) => panic!("the label object is a literal"),
    }
    assert_eq!(triples[2].subject, subject);
    assert_eq!(triples[2].predicate, "https://data.iotics.com/diddy/address");
    match &triples[2].object {
        TripleObject::Text(text) => {
            assert_eq!(*text, format!("https://{}.iotics.space", host))
        }
        TripleObject::Node(_) => panic!("the address object is a literal"),
    }
}

#[test]
fn each_host_gets_type_label_and_address() {
    let collected = collected_for(&["alpha", "beta"]);
    let triples = build_graph_triples(&collected);
    assert_eq!(triples.len(), 6);
    assert_host_triples(&triples[0..3], "alpha");
    assert_host_triples(&triples[3..6], "beta");
}

#[test]
fn empty_collection_gives_no_triples() {
    let collected = collected_for(&[]);
    assert!(build_graph_triples(&collected).is_empty());
}

#[test]
fn export_starts_with_the_ontology_and_holds_the_hosts() {
    let collected = collected_for(&["alpha"]);
    let triples = build_graph_triples(&collected);
    let store = assemble_store(ontology_text(), &triples).unwrap();
    let content = export_content(ontology_text(), &store).unwrap();

    let onto = ontology_text().as_bytes();
    assert!(content.len() > onto.len());
    assert_eq!(&content[..onto.len()], onto);

    let tail = String::from_utf8(content[onto.len()..].to_vec()).unwrap();
    assert!(tail.contains("https://data.iotics.com/diddy/Host"));
    assert!(tail.contains("https://data.iotics.com/diddy/hosts/alpha"));
    assert!(tail.contains("https://alpha.iotics.space"));

    // the serialized graph is well-formed Turtle: it loads back
    let mut reloaded = TripleStore::new();
    reloaded.load_turtle(&tail).expect("the dumped graph must parse");
}

#[test]
fn invalid_iri_terms_are_rejected() {
    let mut store = TripleStore::new();
    let bad = Triple {
        subject: "not an iri".to_string(),
        predicate: "https://data.iotics.com/diddy/address".to_string(),
        object: TripleObject::Text("x".to_string()),
    };
    assert!(store.insert_triple(&bad).is_err());
    let good = Triple {
        subject: "https://data.iotics.com/diddy/hosts/alpha".to_string(),
        predicate: "https://data.iotics.com/diddy/address".to_string(),
        object: TripleObject::Text("x".to_string()),
    };
    assert!(store.insert_triple(&good).is_ok());
    // a bad triple in the list fails the whole assembly
    assert!(assemble_store(ontology_text(), &vec![bad]).is_err());
}

#[test]
fn twin_totals_count_every_collected_twin() {
    let mut coordinator = Coordinator::new(CoordinatorMode::KnowledgeGraph);
    coordinator.on_host_discovered();
    let twins = vec![
        iotics_cli::resolver::parse_document_bytes(
            b"{\"iss\":\"did:t#k\",\"doc\":{\"updateTime\":1,\"ioticsDIDType\":\"t\"}}",
        )
        .unwrap(),
    ];
    coordinator.on_host_result(HostResultMessage {
        host_did: "did:a".to_string(),
        url: "alpha".to_string(),
        version: String::new(),
        twins_count: Some(1),
        twins,
    });
    assert_eq!(coordinator.collected.host_count(), 1);
    assert_eq!(coordinator.collected.twin_total(), 1);
}
