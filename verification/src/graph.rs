//! The knowledge-graph builder.
//!
//! Once the coordinator has decided completion, the collected host
//! addresses are folded into a deterministic list of triples — each
//! host gets its type, a label, and a constructed address literal —
//! which is loaded into a triple store seeded with the fixed ontology
//! and serialized after it into the export content. Every term the
//! library stores is a validated IRI or a plain literal, so the
//! serialized graph denotes exactly the store's triples, and the
//! denoted set depends only on which addresses were collected.

use vstd::prelude::*;

use vstd::string::{StrSliceExecFns, StringSliceAdditionalSpecFns};

use oxigraph::io::GraphFormat;
use oxigraph::model::{GraphName, Literal, NamedNode, Quad, Term};

use crate::coordinator::{collected_hosts, lemma_collected_keys, CollectedTwins};
use crate::resolver::TwinDidDocument;

verus! {

/// The object of a triple: another node, or a plain text literal.
#[derive(Debug, Clone)]
pub enum TripleObject {
    Node(String),
    Text(String),
}

/// One triple of the knowledge graph.
#[derive(Debug, Clone)]
pub struct Triple {
    pub subject: String,
    pub predicate: String,
    pub object: TripleObject,
}

/// The content of a triple object.
pub enum TripleObjectView {
    Node(Seq<char>),
    Text(Seq<char>),
}

/// The content of a triple.
pub struct TripleView {
    pub subject: Seq<char>,
    pub predicate: Seq<char>,
    pub object: TripleObjectView,
}

impl View for TripleObject {
    type V = TripleObjectView;

    open spec fn view(&self) -> TripleObjectView {
        match self {
            TripleObject::Node(iri) => TripleObjectView::Node(iri@),
            TripleObject::Text(text) => TripleObjectView::Text(text@),
        }
    }
}

impl View for Triple {
    type V = TripleView;

    open spec fn view(&self) -> TripleView {
        TripleView { subject: self.subject@, predicate: self.predicate@, object: self.object@ }
    }
}

/// The node a host address is described under: the address appended to
/// the fixed host namespace, which makes it an absolute IRI.
pub open spec fn host_subject(host: Seq<char>) -> Seq<char> {
    "https://data.iotics.com/diddy/hosts/"@ + host
}

/// The three triples asserted for one collected host address: its
/// type, a label, and the constructed address literal.
pub open spec fn host_triples(host: Seq<char>) -> Seq<TripleView> {
    seq![
        TripleView {
            subject: host_subject(host),
            predicate: "http://www.w3.org/1999/02/22-rdf-syntax-ns#type"@,
            object: TripleObjectView::Node("https://data.iotics.com/diddy/Host"@),
        },
        TripleView {
            subject: host_subject(host),
            predicate: "http://www.w3.org/2000/01/rdf-schema#label"@,
            object: TripleObjectView::Text(host),
        },
        TripleView {
            subject: host_subject(host),
            predicate: "https://data.iotics.com/diddy/address"@,
            object: TripleObjectView::Text("https://"@ + host + ".iotics.space"@),
        },
    ]
}

/// The triples of the whole graph: the hosts' triples, in collection
/// order.
pub open spec fn graph_triples(hosts: Seq<Seq<char>>) -> Seq<TripleView>
    decreases hosts.len(),
{
    if hosts.len() == 0 {
        Seq::empty()
    } else {
        graph_triples(hosts.drop_last()) + host_triples(hosts.last())
    }
}

/// Build one host's three triples.
fn build_host_triples(host: &str) -> (r: Vec<Triple>)
    ensures
        r@.map_values(|t: Triple| t@) == host_triples(host@),
{
    let mut subject = String::from_str("https://data.iotics.com/diddy/hosts/");
    subject.append(host);
    let mut address = String::from_str("https://");
    address.append(host);
    address.append(".iotics.space");
    let mut out: Vec<Triple> = Vec::new();
    out.push(
        Triple {
            subject: subject.clone(),
            predicate: String::from_str("http://www.w3.org/1999/02/22-rdf-syntax-ns#type"),
            object: TripleObject::Node(
                String::from_str("https://data.iotics.com/diddy/Host"),
            ),
        },
    );
    out.push(
        Triple {
            subject: subject.clone(),
            predicate: String::from_str("http://www.w3.org/2000/01/rdf-schema#label"),
            object: TripleObject::Text(host.to_owned()),
        },
    );
    out.push(
        Triple {
            subject,
            predicate: String::from_str("https://data.iotics.com/diddy/address"),
            object: TripleObject::Text(address),
        },
    );
    proof {
        assert(out@.map_values(|t: Triple| t@) =~= host_triples(host@));
    }
    out
}

/// Fold the collected host addresses into the deterministic triple
/// list of the graph.
#[verifier::loop_isolation(false)]
pub fn build_graph_triples(collected: &CollectedTwins) -> (r: Vec<Triple>)
    requires
        collected.wf(),
    ensures
        r@.map_values(|t: Triple| t@) == graph_triples(
            collected_hosts(collected.entries_seq()),
        ),
{
    let entries = collected.entries();
    let ghost hosts = collected_hosts(collected.entries_seq());
    let mut out: Vec<Triple> = Vec::new();
    let mut i: usize = 0;
    proof {
        assert(hosts.take(0) =~= Seq::<Seq<char>>::empty());
        assert(out@.map_values(|t: Triple| t@) =~= graph_triples(hosts.take(0)));
    }
    while i < entries.len()
        invariant
            i <= entries.len(),
            out@.map_values(|t: Triple| t@) == graph_triples(hosts.take(i as int)),
        decreases entries.len() - i,
    {
        let mut triples = build_host_triples(entries[i].0.as_str());
        let ghost out_before = out@;
        let ghost triples_here = triples@;
        out.append(&mut triples);
        proof {
            assert(hosts.take(i + 1).drop_last() =~= hosts.take(i as int));
            assert(hosts.take(i + 1).last() == hosts[i as int]);
            assert(hosts[i as int] == entries@[i as int].0@);
            assert(out@.map_values(|t: Triple| t@) =~= out_before.map_values(|t: Triple| t@)
                + triples_here.map_values(|t: Triple| t@));
        }
        i += 1;
    }
    proof {
        assert(hosts.take(entries@.len() as int) =~= hosts);
    }
    out
}

/// A failure of the triple store: a malformed document, an invalid
/// IRI, or a failed serialization.
#[derive(Debug, Clone, PartialEq, Eq, Structural)]
pub struct GraphError;

#[verifier::external_type_specification]
#[verifier::external_body]
pub struct ExMemoryStore(oxigraph::MemoryStore);

/// The triples a store holds. An RDF store holds a set: inserting a
/// triple again changes nothing. The store is a handle with shared
/// contents, so this model is meaningful only because the library
/// creates each store fresh and never clones the handle.
pub uninterp spec fn store_triples(s: oxigraph::MemoryStore) -> Set<TripleView>;

/// Whether a store holds only named nodes and literals, every one of
/// which serializes as it parses back: true of a fresh store and
/// preserved by the operations below, which admit only validated or
/// ground parsed terms.
pub uninterp spec fn store_wf(s: oxigraph::MemoryStore) -> bool;

/// The triples a ground Turtle document denotes. For a document that
/// names blank nodes this is unconstrained: the store labels such
/// nodes freshly on every load, so only a ground document's triples
/// are a function of its bytes alone.
pub uninterp spec fn turtle_triples(doc: Seq<u8>) -> Set<TripleView>;

/// Whether a byte string is a well-formed Turtle document, a function
/// of its bytes alone.
pub uninterp spec fn turtle_wf(doc: Seq<u8>) -> bool;

/// Whether a Turtle document is ground: it names no blank nodes.
pub uninterp spec fn turtle_ground(doc: Seq<u8>) -> bool;

/// Whether a character string is a valid absolute IRI, as the store's
/// node constructor decides it.
pub uninterp spec fn valid_iri(s: Seq<char>) -> bool;

/// Every named term of the triple is a valid IRI; literals are always
/// storable.
pub open spec fn valid_triple(t: TripleView) -> bool {
    &&& valid_iri(t.subject)
    &&& valid_iri(t.predicate)
    &&& match t.object {
        TripleObjectView::Node(iri) => valid_iri(iri),
        TripleObjectView::Text(_) => true,
    }
}

/// The in-memory triple store the graph is assembled in.
pub struct TripleStore {
    pub inner: oxigraph::MemoryStore,
}

impl TripleStore {
    /// What this store holds.
    pub open spec fn triples(&self) -> Set<TripleView> {
        store_triples(self.inner)
    }

    /// Relies on `MemoryStore::new`: a fresh store holds nothing.
    #[verifier::external_body]
    pub fn new() -> (r: TripleStore)
        ensures
            store_triples(r.inner) == Set::<TripleView>::empty(),
            store_wf(r.inner),
    {
        TripleStore { inner: oxigraph::MemoryStore::new() }
    }

    /// Relies on `MemoryStore::load_graph` with the Turtle format: it
    /// succeeds exactly on well-formed Turtle, and for a ground
    /// document its triples then join the store's. A ground document's
    /// terms come out of the parser validated, so they serialize as
    /// they parse; a document with blank nodes gets fresh labels on
    /// every load and so leaves the store ill-formed for dumping.
    #[verifier::external_body]
    pub fn load_turtle(&mut self, text: &str) -> (r: Result<(), GraphError>)
        ensures
            r is Ok <==> turtle_wf(text.spec_bytes()),
            match r {
                Ok(u) => store_wf(final(self).inner) == (store_wf(old(self).inner)
                    && turtle_ground(text.spec_bytes())) && (turtle_ground(text.spec_bytes())
                    ==> store_triples(final(self).inner) == store_triples(
                    old(self).inner,
                ).union(turtle_triples(text.spec_bytes()))),
                Err(e) => e == GraphError,
            },
    {
        let outcome = self.inner.load_graph(
            text.as_bytes(),
            GraphFormat::Turtle,
            &GraphName::DefaultGraph,
            None,
        );
        match outcome {
            Ok(()) => Ok(()),
            Err(_) => Err(GraphError),
        }
    }

    /// Relies on `NamedNode::new` (IRI validation) and
    /// `MemoryStore::insert`: exactly when every named term is a valid
    /// IRI, the quad built from the triple joins the store's contents;
    /// a rejected triple leaves the store as it was.
    #[verifier::external_body]
    pub fn insert_triple(&mut self, t: &Triple) -> (r: Result<(), GraphError>)
        ensures
            r is Ok <==> (valid_iri(t@.subject) && valid_iri(t@.predicate) && (match t@.object {
                TripleObjectView::Node(iri) => valid_iri(iri),
                TripleObjectView::Text(_) => true,
            })),
            store_wf(final(self).inner) == store_wf(old(self).inner),
            match r {
                Ok(u) => store_triples(final(self).inner) == store_triples(
                    old(self).inner,
                ).insert(t@),
                Err(e) => e == GraphError && store_triples(final(self).inner) == store_triples(
                    old(self).inner,
                ),
            },
    {
        let subject = match NamedNode::new(t.subject.clone()) { Ok(s) => s, Err(_) => return Err(GraphError) };
        let predicate = match NamedNode::new(t.predicate.clone()) { Ok(p) => p, Err(_) => return Err(GraphError) };
        let object: Term = match &t.object {
            TripleObject::Node(i) => match NamedNode::new(i.clone()) { Ok(n) => n.into(), Err(_) => return Err(GraphError) },
            TripleObject::Text(text) => Literal::new_simple_literal(text.clone()).into(),
        };
        self.inner.insert(Quad::new(subject, predicate, object, GraphName::DefaultGraph));
        Ok(())
    }

    /// Relies on `MemoryStore::dump_graph` with the Turtle format: of
    /// a store whose terms all serialize as they parse, the dump is a
    /// well-formed document denoting exactly the store's triples, in
    /// no promised order.
    #[verifier::external_body]
    pub fn dump_turtle(&self) -> (r: Result<Vec<u8>, GraphError>)
        requires
            store_wf(self.inner),
        ensures
            match r {
                Ok(bytes) => turtle_wf(bytes@) && turtle_triples(bytes@) == store_triples(
                    self.inner,
                ),
                Err(e) => e == GraphError,
            },
    {
        let mut buffer: Vec<u8> = Vec::new();
        let outcome =
            self.inner.dump_graph(&mut buffer, GraphFormat::Turtle, &GraphName::DefaultGraph);
        match outcome {
            Ok(()) => Ok(buffer),
            Err(_) => Err(GraphError),
        }
    }
}

proof fn lemma_to_set_push<A>(s: Seq<A>, x: A)
    ensures
        s.push(x).to_set() == s.to_set().insert(x),
{
    assert forall|y: A| s.push(x).to_set().contains(y) implies s.to_set().insert(x).contains(
        y,
    ) by {
        let i = choose|i: int| 0 <= i < s.push(x).len() && s.push(x)[i] == y;
        if i < s.len() {
            assert(s[i] == y);
        }
    }
    assert forall|y: A| s.to_set().insert(x).contains(y) implies s.push(x).to_set().contains(
        y,
    ) by {
        if s.to_set().contains(y) {
            let i = choose|i: int| 0 <= i < s.len() && s[i] == y;
            assert(s.push(x)[i] == y);
        } else {
            assert(s.push(x)[s.len() as int] == y);
        }
    }
    assert(s.push(x).to_set() =~= s.to_set().insert(x));
}

/// Assemble the store for an export: the ontology first, then every
/// graph triple. It succeeds exactly when the ontology is well-formed
/// Turtle and every triple's named terms are valid IRIs.
#[verifier::loop_isolation(false)]
pub fn assemble_store(ontology: &str, triples: &Vec<Triple>) -> (r: Result<
    TripleStore,
    GraphError,
>)
    ensures
        match r {
            Ok(store) => store_wf(store.inner) == turtle_ground(ontology.spec_bytes())
                && turtle_wf(ontology.spec_bytes()) && (forall|i: int|
                0 <= i < triples@.len() ==> valid_triple(#[trigger] triples@[i]@)) && (
            turtle_ground(ontology.spec_bytes()) ==> store.triples() == turtle_triples(
                ontology.spec_bytes(),
            ).union(triples@.map_values(|t: Triple| t@).to_set())),
            Err(e) => e == GraphError && (!turtle_wf(ontology.spec_bytes()) || exists|i: int|
                0 <= i < triples@.len() && !valid_triple(#[trigger] triples@[i]@)),
        },
{
    let mut store = TripleStore::new();
    match store.load_turtle(ontology) {
        Ok(u) => {},
        Err(e) => {
            return Err(e);
        },
    }
    let mut i: usize = 0;
    proof {
        assert(triples@.map_values(|t: Triple| t@).take(0) =~= Seq::<TripleView>::empty());
        assert(Seq::<TripleView>::empty().to_set() =~= Set::<TripleView>::empty());
        if turtle_ground(ontology.spec_bytes()) {
            assert(store.triples() =~= turtle_triples(ontology.spec_bytes()).union(
                triples@.map_values(|t: Triple| t@).take(0).to_set(),
            ));
        }
    }
    while i < triples.len()
        invariant
            i <= triples.len(),
            store_wf(store.inner) == turtle_ground(ontology.spec_bytes()),
            forall|k: int| 0 <= k < i ==> valid_triple(#[trigger] triples@[k]@),
            turtle_ground(ontology.spec_bytes()) ==> store.triples() == turtle_triples(
                ontology.spec_bytes(),
            ).union(triples@.map_values(|t: Triple| t@).take(i as int).to_set()),
        decreases triples.len() - i,
    {
        let ghost views = triples@.map_values(|t: Triple| t@);
        match store.insert_triple(&triples[i]) {
            Ok(u) => {},
            Err(e) => {
                return Err(e);
            },
        }
        proof {
            assert(views.take(i + 1) =~= views.take(i as int).push(views[i as int]));
            lemma_to_set_push(views.take(i as int), views[i as int]);
            if turtle_ground(ontology.spec_bytes()) {
                assert(store.triples() =~= turtle_triples(ontology.spec_bytes()).union(
                    views.take(i + 1).to_set(),
                ));
            }
        }
        i += 1;
    }
    proof {
        assert(triples@.map_values(|t: Triple| t@).take(triples@.len() as int)
            =~= triples@.map_values(|t: Triple| t@));
    }
    Ok(store)
}

/// The export content: the ontology text followed by the serialized
/// graph, whose bytes denote exactly the store's triples.
pub fn export_content(ontology: &str, store: &TripleStore) -> (r: Result<Vec<u8>, GraphError>)
    requires
        store_wf(store.inner),
    ensures
        match r {
            Ok(bytes) => bytes@.len() >= ontology.spec_bytes().len() && bytes@.subrange(
                0,
                ontology.spec_bytes().len() as int,
            ) == ontology.spec_bytes() && turtle_triples(
                bytes@.subrange(ontology.spec_bytes().len() as int, bytes@.len() as int),
            ) == store.triples(),
            Err(e) => e == GraphError,
        },
{
    let mut out = ontology.as_bytes_vec();
    let mut dumped = match store.dump_turtle() {
        Ok(b) => b,
        Err(e) => {
            return Err(e);
        },
    };
    let ghost head = out@;
    let ghost tail = dumped@;
    out.append(&mut dumped);
    proof {
        assert(out@.subrange(0, head.len() as int) =~= head);
        assert(out@.subrange(head.len() as int, out@.len() as int) =~= tail);
    }
    Ok(out)
}

/// The triples denoted by a set of host addresses.
pub open spec fn hosts_triples(hs: Set<Seq<char>>) -> Set<TripleView> {
    Set::new(
        |t: TripleView|
            exists|h: Seq<char>| hs.contains(h) && #[trigger] host_triples(h).contains(t),
    )
}

proof fn lemma_to_set_concat<A>(a: Seq<A>, b: Seq<A>)
    ensures
        (a + b).to_set() == a.to_set().union(b.to_set()),
{
    assert forall|x: A| (a + b).to_set().contains(x) implies a.to_set().union(
        b.to_set(),
    ).contains(x) by {
        let i = choose|i: int| 0 <= i < (a + b).len() && (a + b)[i] == x;
        if i < a.len() {
            assert(a[i] == x);
        } else {
            assert(b[i - a.len()] == x);
        }
    }
    assert forall|x: A| a.to_set().union(b.to_set()).contains(x) implies (a
        + b).to_set().contains(x) by {
        if a.to_set().contains(x) {
            let i = choose|i: int| 0 <= i < a.len() && a[i] == x;
            assert((a + b)[i] == x);
        } else {
            let i = choose|i: int| 0 <= i < b.len() && b[i] == x;
            assert((a + b)[a.len() + i] == x);
        }
    }
    assert((a + b).to_set() =~= a.to_set().union(b.to_set()));
}

proof fn lemma_graph_triples_as_set(hosts: Seq<Seq<char>>)
    ensures
        graph_triples(hosts).to_set() == hosts_triples(hosts.to_set()),
    decreases hosts.len(),
{
    if hosts.len() == 0 {
        assert forall|t: TripleView| !hosts_triples(hosts.to_set()).contains(t) by {
            assert(forall|h: Seq<char>| !hosts.to_set().contains(h));
        }
        assert(graph_triples(hosts).to_set() =~= hosts_triples(hosts.to_set()));
    } else {
        let front = hosts.drop_last();
        let last = hosts.last();
        lemma_graph_triples_as_set(front);
        lemma_to_set_concat(graph_triples(front), host_triples(last));
        assert forall|t: TripleView| graph_triples(hosts).to_set().contains(t) implies
            hosts_triples(hosts.to_set()).contains(t) by {
            if hosts_triples(front.to_set()).contains(t) {
                let h = choose|h: Seq<char>|
                    front.to_set().contains(h) && #[trigger] host_triples(h).contains(t);
                let i = choose|i: int| 0 <= i < front.len() && front[i] == h;
                assert(hosts[i] == h);
                assert(hosts.to_set().contains(h));
            } else {
                assert(host_triples(last).to_set().contains(t));
                assert(host_triples(last).contains(t));
                assert(hosts[hosts.len() - 1] == last);
                assert(hosts.to_set().contains(last));
            }
        }
        assert forall|t: TripleView| hosts_triples(hosts.to_set()).contains(t) implies
            graph_triples(hosts).to_set().contains(t) by {
            let h = choose|h: Seq<char>|
                hosts.to_set().contains(h) && #[trigger] host_triples(h).contains(t);
            let i = choose|i: int| 0 <= i < hosts.len() && hosts[i] == h;
            if i < hosts.len() - 1 {
                assert(front[i] == h);
                assert(front.to_set().contains(h));
                assert(hosts_triples(front.to_set()).contains(t));
            } else {
                assert(h == last);
                assert(host_triples(last).to_set().contains(t));
            }
        }
        assert(graph_triples(hosts).to_set() =~= hosts_triples(hosts.to_set()));
    }
}

/// The graph depends only on which addresses were collected: host
/// sequences holding the same addresses — in any order, with any
/// repetition — denote the same triple set.
pub proof fn lemma_graph_determined_by_hosts(h1: Seq<Seq<char>>, h2: Seq<Seq<char>>)
    requires
        h1.to_set() == h2.to_set(),
    ensures
        graph_triples(h1).to_set() == graph_triples(h2).to_set(),
{
    lemma_graph_triples_as_set(h1);
    lemma_graph_triples_as_set(h2);
}

proof fn lemma_hosts_of_collected(c: CollectedTwins)
    ensures
        collected_hosts(c.entries_seq()).to_set() == c@.dom(),
{
    let hosts = collected_hosts(c.entries_seq());
    assert forall|k: Seq<char>| hosts.to_set().contains(k) implies c@.dom().contains(k) by {
        let i = choose|i: int| 0 <= i < hosts.len() && hosts[i] == k;
        assert((c.entries_seq()[i]).0@ == k);
        lemma_collected_keys(c, k);
    }
    assert forall|k: Seq<char>| c@.dom().contains(k) implies hosts.to_set().contains(k) by {
        lemma_collected_keys(c, k);
        let i = choose|i: int|
            0 <= i < c.entries_seq().len() && (#[trigger] c.entries_seq()[i]).0@ == k;
        assert(hosts[i] == k);
    }
    assert(hosts.to_set() =~= c@.dom());
}

/// Export determinism: collections holding the same host addresses
/// denote the same graph, whatever order the outcomes were collected
/// in — the serialized files may order triples differently, but the
/// triple sets they denote are equal.
pub proof fn lemma_export_determined_by_collected(a: CollectedTwins, b: CollectedTwins)
    requires
        a@.dom() == b@.dom(),
    ensures
        graph_triples(collected_hosts(a.entries_seq())).to_set() == graph_triples(
            collected_hosts(b.entries_seq()),
        ).to_set(),
{
    lemma_hosts_of_collected(a);
    lemma_hosts_of_collected(b);
    lemma_graph_determined_by_hosts(
        collected_hosts(a.entries_seq()),
        collected_hosts(b.entries_seq()),
    );
}

/// The fixed ontology the export is seeded with.
pub fn ontology_text() -> &'static str {
    "\n@prefix rdf: <http://www.w3.org/1999/02/22-rdf-syntax-ns#> .\n@prefix rdfs: <http://www.w3.org/2000/01/rdf-schema#> .\n@prefix owl: <http://www.w3.org/2002/07/owl#> .\n@prefix xsd: <http://www.w3.org/2001/XMLSchema#> .\n@prefix diddy: <https://data.iotics.com/diddy/> .\n\ndiddy:Host rdf:type rdf:Class .\n\ndiddy:address rdf:type rdf:Property ;\n        rdfs:label \"Host Address\"@en ;\n        rdfs:domain diddy:Host ;\n        rdfs:range xsd:string .\n\ndiddy:DID rdf:type rdf:Class .\n\ndiddy:keyName rdf:type rdf:Property ;\n        rdfs:label \"Key Name\"@en ;\n        rdfs:domain diddy:DID ;\n        rdfs:range xsd:string .\n\ndiddy:updateTime rdf:type rdf:Property ;\n        rdfs:label \"Update Time\"@en ;\n        rdfs:domain diddy:DID ;\n        rdfs:range xsd:dateTime .\n\ndiddy:Twin rdf:type rdf:Class ;\n        rdfs:subClassOf diddy:DID .\n\ndiddy:livesIn rdf:type rdf:Property ;\n        rdfs:label \"Lives In\"@en ;\n        rdfs:domain diddy:Twin ;\n        rdfs:range diddy:Host .\n\ndiddy:controlledBy rdf:type rdf:Property ;\n        rdfs:label \"Controlled By\"@en ;\n        rdfs:domain diddy:Twin ;\n        rdfs:range diddy:Agent .\n\ndiddy:Agent rdf:type rdf:Class ;\n        rdfs:subClassOf diddy:DID .\n"
}

} // verus!
