//! The coordinator of the fan-out discovery engine.
//!
//! The coordinator owns the only mutable aggregate state. It counts
//! every discovered host, spawns one worker per host (the driver does
//! the spawning; the coordinator does the counting), receives exactly
//! one outcome per worker in whatever order the workers finish, emits
//! the data of one printed line per populated outcome, and decides
//! completion: finalization fires exactly once, at the first moment
//! the discovery stream has closed and every spawned worker has
//! reported back.

use vstd::prelude::*;

use vstd::pervasive::VecAdditionalExecFns;

use crate::resolver::{TwinDidDocument, TwinDidDocumentView};

verus! {

/// One host discovered by the directory stream. An absent
/// `remote_host_id` means the record stands for the local host itself.
#[derive(Debug, Clone)]
pub struct DiscoveredHost {
    pub remote_host_id: Option<String>,
}

/// Asks the coordinator to account for one discovered host.
#[derive(Debug, Clone)]
pub struct ProcessHostMessage {
    pub payload: DiscoveredHost,
    pub token: String,
}

/// A worker's populated outcome: the host identifier, the display
/// address, an optional version marker, an optional twin count, and
/// the resolved twin documents (knowledge-graph mode only).
#[derive(Debug)]
pub struct HostResultMessage {
    pub host_did: String,
    pub url: String,
    pub version: String,
    pub twins_count: Option<usize>,
    pub twins: Vec<TwinDidDocument>,
}

/// A worker's explicit empty outcome: no usable address was found.
#[derive(Debug, Clone)]
pub struct HostEmptyResultMessage;

/// Asks the coordinator to build and export the knowledge graph.
#[derive(Debug, Clone)]
pub struct GenerateKbMessage;

/// The data of one printed report line: the running sequence number
/// and the fields of the outcome it reports.
#[derive(Debug)]
pub struct PrintRecord {
    pub seq: u64,
    pub host_did: String,
    pub url: String,
    pub version: String,
    pub twins_count: Option<usize>,
}

/// What the coordinator produces when all work is complete.
#[derive(Debug, Clone, PartialEq, Eq, Structural)]
pub enum CoordinatorMode {
    /// Print the report lines and terminate.
    Report,
    /// Additionally collect every twin list and build the graph.
    KnowledgeGraph,
}

/// The view of a twin list.
pub open spec fn twins_view(ts: Seq<TwinDidDocument>) -> Seq<TwinDidDocumentView> {
    ts.map_values(|t: TwinDidDocument| t@)
}

/// The host addresses of a collected entry sequence, in order.
pub open spec fn collected_hosts(s: Seq<(String, Vec<TwinDidDocument>)>) -> Seq<Seq<char>> {
    s.map_values(|p: (String, Vec<TwinDidDocument>)| p.0@)
}

/// The map denoted by the collected (address, twin list) pairs.
pub open spec fn map_of_collected(s: Seq<(String, Vec<TwinDidDocument>)>) -> Map<
    Seq<char>,
    Seq<TwinDidDocumentView>,
>
    decreases s.len(),
{
    if s.len() == 0 {
        Map::empty()
    } else {
        map_of_collected(s.drop_last()).insert(
            s.last().0@,
            twins_view(s.last().1@),
        )
    }
}

proof fn lemma_map_of_collected_keys(s: Seq<(String, Vec<TwinDidDocument>)>, k: Seq<char>)
    ensures
        map_of_collected(s).contains_key(k) <==> exists|i: int|
            0 <= i < s.len() && (#[trigger] s[i]).0@ == k,
    decreases s.len(),
{
    if s.len() > 0 {
        lemma_map_of_collected_keys(s.drop_last(), k);
        if s.last().0@ == k {
            assert(s[s.len() - 1].0@ == k);
        } else if map_of_collected(s).contains_key(k) {
            let i = choose|i: int|
                0 <= i < s.drop_last().len() && (#[trigger] s.drop_last()[i]).0@ == k;
            assert(s[i].0@ == k);
        } else {
            assert forall|i: int| 0 <= i < s.len() implies (#[trigger] s[i]).0@ != k by {
                if i < s.len() - 1 {
                    assert(s.drop_last()[i] == s[i]);
                }
            }
        }
    }
}

proof fn lemma_map_of_collected_update(
    s: Seq<(String, Vec<TwinDidDocument>)>,
    i: int,
    p: (String, Vec<TwinDidDocument>),
)
    requires
        0 <= i < s.len(),
        forall|a: int, b: int|
            0 <= a < b < s.len() ==> (#[trigger] s[a]).0@ != (#[trigger] s[b]).0@,
        p.0@ == s[i].0@,
    ensures
        map_of_collected(s.update(i, p)) == map_of_collected(s).insert(
            p.0@,
            twins_view(p.1@),
        ),
    decreases s.len(),
{
    let v = twins_view(p.1@);
    if i == s.len() - 1 {
        assert(s.update(i, p).drop_last() =~= s.drop_last());
        assert(s.update(i, p).last() == p);
        assert(map_of_collected(s.drop_last()).insert(s.last().0@, twins_view(s.last().1@)).insert(p.0@, v) =~= map_of_collected(s.drop_last()).insert(p.0@, v));
    } else {
        assert(s.update(i, p).drop_last() =~= s.drop_last().update(i, p));
        assert(s.drop_last()[i] == s[i]);
        lemma_map_of_collected_update(s.drop_last(), i, p);
        assert(s.update(i, p).last() == s.last());
        assert(s[i].0@ != s.last().0@);
        assert(map_of_collected(s.drop_last()).insert(p.0@, v).insert(s.last().0@, twins_view(s.last().1@)) =~= map_of_collected(s.drop_last()).insert(
            s.last().0@,
            twins_view(s.last().1@),
        ).insert(p.0@, v));
    }
}

/// The per-host twin lists collected for the knowledge graph, keyed by
/// host address, later insertions for the same address replacing
/// earlier ones.
pub struct CollectedTwins {
    entries: Vec<(String, Vec<TwinDidDocument>)>,
}

impl View for CollectedTwins {
    type V = Map<Seq<char>, Seq<TwinDidDocumentView>>;

    closed spec fn view(&self) -> Map<Seq<char>, Seq<TwinDidDocumentView>> {
        map_of_collected(self.entries@)
    }
}

impl CollectedTwins {
    /// Each host address has at most one entry.
    pub closed spec fn wf(&self) -> bool {
        forall|a: int, b: int|
            0 <= a < b < self.entries@.len() ==> (#[trigger] self.entries@[a]).0@ != (
            #[trigger] self.entries@[b]).0@
    }

    /// An empty collection.
    pub fn new() -> (r: CollectedTwins)
        ensures
            r.wf(),
            r@ == Map::<Seq<char>, Seq<TwinDidDocumentView>>::empty(),
    {
        CollectedTwins { entries: Vec::new() }
    }

    /// How many host addresses hold an entry.
    pub fn host_count(&self) -> (r: usize)
        requires
            self.wf(),
        ensures
            r == self@.dom().len(),
    {
        proof {
            lemma_collected_len(self.entries@);
        }
        self.entries.len()
    }

    /// Record the twin list of one host address, replacing any earlier
    /// list for the same address.
    #[verifier::loop_isolation(false)]
    pub fn record(&mut self, url: String, twins: Vec<TwinDidDocument>)
        requires
            old(self).wf(),
        ensures
            final(self).wf(),
            final(self)@ == old(self)@.insert(
                url@,
                twins_view(twins@),
            ),
    {
        let n = self.entries.len();
        let mut i: usize = 0;
        while i < n
            invariant
                i <= n,
                self.entries@ == old(self).entries@,
                n == self.entries@.len(),
                self.wf(),
                forall|k: int| 0 <= k < i ==> (#[trigger] self.entries@[k]).0@ != url@,
            decreases n - i,
        {
            if crate::text::str_eq(self.entries[i].0.as_str(), url.as_str()) {
                proof {
                    lemma_map_of_collected_update(
                        self.entries@,
                        i as int,
                        (url, twins),
                    );
                }
                self.entries.set(i, (url, twins));
                return ;
            }
            i += 1;
        }
        proof {
            lemma_map_of_collected_keys(self.entries@, url@);
        }
        let ghost before = self.entries@;
        self.entries.push((url, twins));
        proof {
            assert(self.entries@.drop_last() =~= before);
        }
    }

    /// The collected pairs, for the graph fold: each address once, with
    /// its final twin list.
    pub fn entries(&self) -> (r: &Vec<(String, Vec<TwinDidDocument>)>)
        requires
            self.wf(),
        ensures
            forall|a: int, b: int|
                0 <= a < b < r@.len() ==> (#[trigger] r@[a]).0@ != (#[trigger] r@[b]).0@,
            forall|i: int|
                0 <= i < r@.len() ==> self@.contains_key((#[trigger] r@[i]).0@) && self@[r@[i].0@]
                    == twins_view(r@[i].1@),
            r@.len() == self@.dom().len(),
            r@ == self.entries_seq(),
    {
        proof {
            assert forall|i: int| 0 <= i < self.entries@.len() implies self@.contains_key(
                (#[trigger] self.entries@[i]).0@,
            ) && self@[self.entries@[i].0@] == twins_view(self.entries@[i].1@) by {
                lemma_collected_value(self.entries@, i);
            }
            lemma_collected_len(self.entries@);
        }
        &self.entries
    }
}

/// The total number of twins over a sequence of collected entries.
pub open spec fn twins_total(s: Seq<(String, Vec<TwinDidDocument>)>) -> int
    decreases s.len(),
{
    if s.len() == 0 {
        0
    } else {
        twins_total(s.drop_last()) + s.last().1@.len()
    }
}

proof fn lemma_twins_total_nonneg(s: Seq<(String, Vec<TwinDidDocument>)>)
    ensures
        twins_total(s) >= 0,
    decreases s.len(),
{
    if s.len() > 0 {
        lemma_twins_total_nonneg(s.drop_last());
    }
}

impl CollectedTwins {
    /// The total number of twins collected over all hosts, capped at
    /// `u64::MAX`.
    #[verifier::loop_isolation(false)]
    pub fn twin_total(&self) -> (r: u64)
        ensures
            r == if twins_total(self.entries_seq()) > u64::MAX {
                u64::MAX as int
            } else {
                twins_total(self.entries_seq())
            },
    {
        let mut total: u64 = 0;
        let mut i: usize = 0;
        let n = self.entries.len();
        proof {
            assert(self.entries@.take(0) =~= Seq::empty());
        }
        while i < n
            invariant
                i <= n,
                n == self.entries@.len(),
                total == if twins_total(self.entries@.take(i as int)) > u64::MAX {
                    u64::MAX as int
                } else {
                    twins_total(self.entries@.take(i as int))
                },
            decreases n - i,
        {
            proof {
                assert(self.entries@.take(i + 1).drop_last() =~= self.entries@.take(i as int));
                assert(self.entries@.take(i + 1).last() == self.entries@[i as int]);
                lemma_twins_total_nonneg(self.entries@.take(i as int));
            }
            let here = self.entries[i].1.len();
            total = total.saturating_add(here as u64);
            i += 1;
        }
        proof {
            assert(self.entries@.take(n as int) =~= self.entries@);
        }
        total
    }

    /// The raw entry sequence the totals above speak of.
    pub closed spec fn entries_seq(&self) -> Seq<(String, Vec<TwinDidDocument>)> {
        self.entries@
    }
}

/// A collection holds an address exactly when one of its entries
/// carries it.
pub proof fn lemma_collected_keys(c: CollectedTwins, k: Seq<char>)
    ensures
        c@.contains_key(k) <==> exists|i: int|
            0 <= i < c.entries_seq().len() && (#[trigger] c.entries_seq()[i]).0@ == k,
{
    lemma_map_of_collected_keys(c.entries@, k);
    assert(c.entries_seq() == c.entries@);
    if c@.contains_key(k) {
        let i = choose|i: int| 0 <= i < c.entries@.len() && (#[trigger] c.entries@[i]).0@ == k;
        assert(0 <= i < c.entries_seq().len() && (c.entries_seq()[i]).0@ == k);
    }
    if exists|i: int| 0 <= i < c.entries_seq().len() && (#[trigger] c.entries_seq()[i]).0@
        == k {
        let i = choose|i: int|
            0 <= i < c.entries_seq().len() && (#[trigger] c.entries_seq()[i]).0@ == k;
        assert((c.entries@[i]).0@ == k);
    }
}

proof fn lemma_collected_value(s: Seq<(String, Vec<TwinDidDocument>)>, i: int)
    requires
        0 <= i < s.len(),
        forall|a: int, b: int|
            0 <= a < b < s.len() ==> (#[trigger] s[a]).0@ != (#[trigger] s[b]).0@,
    ensures
        map_of_collected(s).contains_key(s[i].0@),
        map_of_collected(s)[s[i].0@] == twins_view(s[i].1@),
    decreases s.len(),
{
    lemma_map_of_collected_keys(s, s[i].0@);
    if i < s.len() - 1 {
        assert(s.drop_last()[i] == s[i]);
        lemma_collected_value(s.drop_last(), i);
        assert(s[i].0@ != s.last().0@);
    }
}

proof fn lemma_collected_len(s: Seq<(String, Vec<TwinDidDocument>)>)
    requires
        forall|a: int, b: int|
            0 <= a < b < s.len() ==> (#[trigger] s[a]).0@ != (#[trigger] s[b]).0@,
    ensures
        map_of_collected(s).dom().len() == s.len(),
        map_of_collected(s).dom().finite(),
    decreases s.len(),
{
    if s.len() > 0 {
        lemma_collected_len(s.drop_last());
        lemma_map_of_collected_keys(s.drop_last(), s.last().0@);
        assert(forall|i: int|
            0 <= i < s.drop_last().len() ==> (#[trigger] s.drop_last()[i]).0@ != s.last().0@);
        assert(!map_of_collected(s.drop_last()).contains_key(s.last().0@));
        vstd::set::axiom_set_insert_len(
            map_of_collected(s.drop_last()).dom(),
            s.last().0@,
        );
        assert(map_of_collected(s).dom() =~= map_of_collected(s.drop_last()).dom().insert(
            s.last().0@,
        ));
    }
}

/// An abstract coordinator event: a host was discovered, a worker
/// outcome (populated or empty) was received, or the discovery stream
/// signalled that no further hosts will arrive.
pub enum CoordEvent {
    Discovered,
    Handled,
    Closed,
}

/// The counters and flags that decide completion.
pub struct CountState {
    pub found: int,
    pub handled: int,
    pub closed: bool,
    pub finalized: bool,
}

/// The state before any event.
pub open spec fn initial_counts() -> CountState {
    CountState { found: 0, handled: 0, closed: false, finalized: false }
}

/// How one event changes the completion state. Finalization requires
/// both the counter equality and the closed stream, and latches.
pub open spec fn step_state(s: CountState, e: CoordEvent) -> CountState {
    match e {
        CoordEvent::Discovered => CountState { found: s.found + 1, ..s },
        CoordEvent::Handled => CountState {
            handled: s.handled + 1,
            finalized: s.finalized || (s.closed && s.handled + 1 == s.found),
            ..s
        },
        CoordEvent::Closed => CountState {
            closed: true,
            finalized: s.finalized || s.handled == s.found,
            ..s
        },
    }
}

/// Whether one event makes finalization fire: the latch flips.
pub open spec fn step_fires(s: CountState, e: CoordEvent) -> bool {
    !s.finalized && step_state(s, e).finalized
}

/// The state after a sequence of events.
pub open spec fn run_state(events: Seq<CoordEvent>) -> CountState
    decreases events.len(),
{
    if events.len() == 0 {
        initial_counts()
    } else {
        step_state(run_state(events.drop_last()), events.last())
    }
}

/// How many events of a run made finalization fire.
pub open spec fn fire_count(events: Seq<CoordEvent>) -> int
    decreases events.len(),
{
    if events.len() == 0 {
        0
    } else {
        fire_count(events.drop_last()) + if step_fires(
            run_state(events.drop_last()),
            events.last(),
        ) {
            1int
        } else {
            0
        }
    }
}

/// How many times event `e` occurs in `s`.
pub open spec fn count_events(s: Seq<CoordEvent>, e: CoordEvent) -> int
    decreases s.len(),
{
    if s.len() == 0 {
        0
    } else {
        count_events(s.drop_last(), e) + if s.last() == e {
            1int
        } else {
            0
        }
    }
}

/// A complete run of the engine on `n` discovered hosts, in any
/// interleaving: every discovery precedes the stream close, every
/// outcome follows its discovery (never more outcomes than
/// discoveries), and exactly one close arrives.
pub open spec fn complete_run(events: Seq<CoordEvent>, n: int) -> bool {
    &&& count_events(events, CoordEvent::Discovered) == n
    &&& count_events(events, CoordEvent::Handled) == n
    &&& count_events(events, CoordEvent::Closed) == 1
    &&& forall|k: int|
        0 <= k <= events.len() ==> count_events(
            #[trigger] events.take(k),
            CoordEvent::Handled,
        ) <= count_events(events.take(k), CoordEvent::Discovered)
    &&& forall|k: int|
        0 <= k <= events.len() ==> (count_events(#[trigger] events.take(k), CoordEvent::Closed)
            == 1 ==> count_events(events.take(k), CoordEvent::Discovered) == n)
}

proof fn lemma_count_nonneg(s: Seq<CoordEvent>, e: CoordEvent)
    ensures
        count_events(s, e) >= 0,
    decreases s.len(),
{
    if s.len() > 0 {
        lemma_count_nonneg(s.drop_last(), e);
    }
}

proof fn lemma_count_take_succ(s: Seq<CoordEvent>, e: CoordEvent, k: int)
    requires
        0 <= k < s.len(),
    ensures
        count_events(s.take(k + 1), e) == count_events(s.take(k), e) + if s[k] == e {
            1int
        } else {
            0
        },
{
    assert(s.take(k + 1).drop_last() =~= s.take(k));
    assert(s.take(k + 1).last() == s[k]);
}

proof fn lemma_count_take_le(s: Seq<CoordEvent>, e: CoordEvent, k: int)
    requires
        0 <= k <= s.len(),
    ensures
        count_events(s.take(k), e) <= count_events(s, e),
    decreases s.len() - k,
{
    if k == s.len() {
        assert(s.take(k) =~= s);
    } else {
        lemma_count_take_succ(s, e, k);
        lemma_count_take_le(s, e, k + 1);
    }
}

proof fn lemma_run_invariant(events: Seq<CoordEvent>, n: int, k: int)
    requires
        complete_run(events, n),
        0 <= k <= events.len(),
    ensures
        ({
            let s = run_state(events.take(k));
            &&& s.found == count_events(events.take(k), CoordEvent::Discovered)
            &&& s.handled == count_events(events.take(k), CoordEvent::Handled)
            &&& s.closed == (count_events(events.take(k), CoordEvent::Closed) == 1)
            &&& s.finalized == (s.closed && s.handled == s.found)
            &&& fire_count(events.take(k)) == if s.finalized {
                1int
            } else {
                0
            }
        }),
    decreases k,
{
    if k == 0 {
        assert(events.take(0) =~= Seq::<CoordEvent>::empty());
    } else {
        lemma_run_invariant(events, n, k - 1);
        let p = events.take(k - 1);
        let s = run_state(p);
        let ev = events[k - 1];
        assert(events.take(k).drop_last() =~= p);
        assert(events.take(k).last() == ev);
        lemma_count_take_succ(events, CoordEvent::Discovered, k - 1);
        lemma_count_take_succ(events, CoordEvent::Handled, k - 1);
        lemma_count_take_succ(events, CoordEvent::Closed, k - 1);
        lemma_count_nonneg(p, CoordEvent::Closed);
        lemma_count_take_le(events, CoordEvent::Closed, k - 1);
        match ev {
            CoordEvent::Discovered => {
                if s.closed {
                    // a discovery after the close would exceed the run's
                    // total number of discoveries
                    assert(count_events(p, CoordEvent::Discovered) == n);
                    lemma_count_take_le(events, CoordEvent::Discovered, k);
                    assert(false);
                }
            },
            CoordEvent::Handled => {
                if s.finalized {
                    // the causality bound: never more outcomes than
                    // discoveries in any prefix
                    assert(count_events(events.take(k), CoordEvent::Handled) <= count_events(
                        events.take(k),
                        CoordEvent::Discovered,
                    ));
                    assert(false);
                }
            },
            CoordEvent::Closed => {
                if s.closed {
                    // a second close would exceed the run's single close
                    lemma_count_take_le(events, CoordEvent::Closed, k);
                    assert(false);
                }
            },
        }
    }
}

/// Fan-out completion: over any complete run on `n` discovered hosts —
/// whatever order the outcomes arrive in relative to discoveries and
/// to the stream close — the handled counter reaches exactly `n` and
/// finalization fires exactly once.
pub proof fn theorem_fanout_completion(events: Seq<CoordEvent>, n: int)
    requires
        n >= 0,
        complete_run(events, n),
    ensures
        run_state(events).found == n,
        run_state(events).handled == n,
        run_state(events).finalized,
        fire_count(events) == 1,
{
    lemma_run_invariant(events, n, events.len() as int);
    assert(events.take(events.len() as int) =~= events);
}

/// The coordinator's aggregate state: the two counters, the stream and
/// finalization flags, and (in knowledge-graph mode) the collected
/// twin lists. Mutated only by the methods below, one event at a time.
pub struct Coordinator {
    pub mode: CoordinatorMode,
    pub hosts_found: u64,
    pub hosts_handled: u64,
    pub stream_closed: bool,
    pub finalized: bool,
    pub collected: CollectedTwins,
}

impl Coordinator {
    /// The abstract completion state of this coordinator.
    pub open spec fn counts(&self) -> CountState {
        CountState {
            found: self.hosts_found as int,
            handled: self.hosts_handled as int,
            closed: self.stream_closed,
            finalized: self.finalized,
        }
    }

    /// Never more outcomes than discoveries; finalized only when closed
    /// with all outcomes in; the collection well formed.
    pub open spec fn wf(&self) -> bool {
        &&& self.hosts_handled <= self.hosts_found
        &&& (self.finalized ==> (self.stream_closed && self.hosts_handled == self.hosts_found))
        &&& self.collected.wf()
    }

    /// A fresh coordinator: nothing found, nothing handled, stream
    /// open, not finalized, nothing collected.
    pub fn new(mode: CoordinatorMode) -> (r: Coordinator)
        ensures
            r.wf(),
            r.counts() == initial_counts(),
            r.mode == mode,
            r.collected@ == Map::<Seq<char>, Seq<TwinDidDocumentView>>::empty(),
    {
        Coordinator {
            mode,
            hosts_found: 0,
            hosts_handled: 0,
            stream_closed: false,
            finalized: false,
            collected: CollectedTwins::new(),
        }
    }

    /// Account for one discovered host; the caller then spawns the
    /// worker, fire-and-forget. Discoveries only arrive while the
    /// stream is open.
    pub fn on_host_discovered(&mut self)
        requires
            old(self).wf(),
            !old(self).stream_closed,
            old(self).hosts_found < u64::MAX,
        ensures
            final(self).wf(),
            final(self).hosts_found == old(self).hosts_found + 1,
            final(self).counts() == step_state(old(self).counts(), CoordEvent::Discovered),
            final(self).mode == old(self).mode,
            final(self).collected == old(self).collected,
    {
        self.hosts_found = self.hosts_found + 1;
    }

    /// Account for one populated worker outcome: returns the data of
    /// the line to print, and whether finalization fires now. In
    /// knowledge-graph mode the twin list is collected under the
    /// host's address.
    pub fn on_host_result(&mut self, message: HostResultMessage) -> (r: (PrintRecord, bool))
        requires
            old(self).wf(),
            old(self).hosts_handled < old(self).hosts_found,
        ensures
            final(self).wf(),
            final(self).hosts_handled == old(self).hosts_handled + 1,
            final(self).hosts_found == old(self).hosts_found,
            final(self).counts() == step_state(old(self).counts(), CoordEvent::Handled),
            r.1 == step_fires(old(self).counts(), CoordEvent::Handled),
            r.0.seq == final(self).hosts_handled,
            r.0.host_did == message.host_did,
            r.0.url == message.url,
            r.0.version == message.version,
            r.0.twins_count == message.twins_count,
            final(self).mode == old(self).mode,
            final(self).collected@ == if old(self).mode == CoordinatorMode::KnowledgeGraph {
                old(self).collected@.insert(message.url@, twins_view(message.twins@))
            } else {
                old(self).collected@
            },
    {
        self.hosts_handled = self.hosts_handled + 1;
        let record = PrintRecord {
            seq: self.hosts_handled,
            host_did: message.host_did,
            url: message.url.clone(),
            version: message.version,
            twins_count: message.twins_count,
        };
        if self.mode == CoordinatorMode::KnowledgeGraph {
            self.collected.record(message.url, message.twins);
        }
        let fires = self.stream_closed && self.hosts_found == self.hosts_handled
            && !self.finalized;
        if fires {
            self.finalized = true;
        }
        (record, fires)
    }

    /// Account for one explicit empty outcome: no line is printed,
    /// nothing is collected; returns whether finalization fires now.
    pub fn on_host_empty_result(&mut self, _message: HostEmptyResultMessage) -> (fires: bool)
        requires
            old(self).wf(),
            old(self).hosts_handled < old(self).hosts_found,
        ensures
            final(self).wf(),
            final(self).hosts_handled == old(self).hosts_handled + 1,
            final(self).hosts_found == old(self).hosts_found,
            final(self).counts() == step_state(old(self).counts(), CoordEvent::Handled),
            fires == step_fires(old(self).counts(), CoordEvent::Handled),
            final(self).mode == old(self).mode,
            final(self).collected == old(self).collected,
    {
        self.hosts_handled = self.hosts_handled + 1;
        let fires = self.stream_closed && self.hosts_found == self.hosts_handled
            && !self.finalized;
        if fires {
            self.finalized = true;
        }
        fires
    }

    /// Record that the discovery stream will produce no further hosts,
    /// whether it ended normally or failed; returns whether
    /// finalization fires now.
    pub fn on_stream_closed(&mut self) -> (fires: bool)
        requires
            old(self).wf(),
            !old(self).stream_closed,
        ensures
            final(self).wf(),
            final(self).counts() == step_state(old(self).counts(), CoordEvent::Closed),
            fires == step_fires(old(self).counts(), CoordEvent::Closed),
            final(self).mode == old(self).mode,
            final(self).collected == old(self).collected,
    {
        self.stream_closed = true;
        let fires = self.hosts_found == self.hosts_handled && !self.finalized;
        if fires {
            self.finalized = true;
        }
        fires
    }
}

} // verus!
