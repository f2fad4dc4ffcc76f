//! The per-host enrichment worker's decisions.
//!
//! One worker runs per discovered host, fully independently: it plans
//! how the host's address is obtained (a name-service lookup for a
//! remote host, pure derivation from local configuration for the local
//! host), reads the lookup's answer out of the name server's text
//! output, decodes the optional version payload, and assembles exactly
//! one outcome — populated when an address was found, empty otherwise.
//! The driver performs the lookup and the fetches; every decision
//! about their results is made here.

use vstd::prelude::*;

use crate::coordinator::HostResultMessage;
use crate::json::{json_get, json_str, json_of, parse_json, JsonData};
use crate::resolver::{str_entry, ResolveError, TwinDidDocument};
use crate::text::{
    find_char_from, first_char_at_or_after, last_char_in, remove_all, removed_all, rfind_char_in,
};

verus! {

/// How a worker is to obtain its host's address: ask the
/// name-resolution side channel for a remote host, or use the address
/// derived from local configuration for the local host.
#[derive(Debug)]
pub enum AddressPlan {
    Local(String),
    Lookup(String),
}

/// The address derived from the configured local host address: the
/// scheme prefix and the port suffix removed.
pub open spec fn local_address(host_address: Seq<char>) -> Seq<char> {
    removed_all(removed_all(host_address, "https://"@), ":10001"@)
}

/// Decide a host's identifier and address plan. A record without a
/// remote identifier stands for the local host: its identifier is the
/// `?` placeholder and its address comes from configuration alone —
/// the side channel is never consulted for it.
pub fn plan_host(remote_host_id: &Option<String>, local_host_address: &str) -> (r: (
    String,
    AddressPlan,
))
    ensures
        match remote_host_id {
            Some(id) => r.0@ == id@ && (r.1 matches AddressPlan::Lookup(did) && did@ == id@),
            None => r.0@ == "?"@ && (r.1 matches AddressPlan::Local(url) && url@
                == local_address(local_host_address@)),
        },
{
    match remote_host_id {
        Some(id) => (id.clone(), AddressPlan::Lookup(id.clone())),
        None => {
            proof {
                reveal_strlit("https://");
                reveal_strlit(":10001");
            }
            let stripped = remove_all(local_host_address, "https://");
            let url = remove_all(stripped.as_str(), ":10001");
            (String::from_str("?"), AddressPlan::Local(url))
        },
    }
}

/// The marker a name server's text answer carries before the quoted
/// address.
pub open spec fn txt_marker() -> Seq<char> {
    seq!['I', 'N', ' ', 'T', 'X', 'T', ' ', '"']
}

/// The address captured from the answer text, scanning from position
/// `i`: at the first occurrence of the marker that is followed by a
/// closing quote on the same line, everything up to the last quote of
/// that line.
pub open spec fn txt_url_from(s: Seq<char>, i: int) -> Option<Seq<char>>
    decreases s.len() - i,
    when 0 <= i <= s.len()
{
    if i + 8 > s.len() {
        None
    } else if s.subrange(i, i + 8) == txt_marker() {
        let line_end = first_char_at_or_after(s, '\n', i + 8);
        match last_char_in(s, '"', i + 8, line_end) {
            Some(j) => Some(s.subrange(i + 8, j)),
            None => txt_url_from(s, i + 1),
        }
    } else {
        txt_url_from(s, i + 1)
    }
}

/// The address captured from a name server's whole text answer.
pub open spec fn txt_url(s: Seq<char>) -> Option<Seq<char>> {
    txt_url_from(s, 0)
}

/// Whether the marker stands at position `i` of `s`.
fn marker_at(s: &str, i: usize, n: usize) -> (r: bool)
    requires
        n == s@.len(),
        i + 8 <= n,
    ensures
        r <==> s@.subrange(i as int, i + 8) == txt_marker(),
{
    let ghost sub = s@.subrange(i as int, i + 8);
    proof {
        assert(sub[0] == s@[i as int]);
        assert(sub[1] == s@[i + 1]);
        assert(sub[2] == s@[i + 2]);
        assert(sub[3] == s@[i + 3]);
        assert(sub[4] == s@[i + 4]);
        assert(sub[5] == s@[i + 5]);
        assert(sub[6] == s@[i + 6]);
        assert(sub[7] == s@[i + 7]);
    }
    let r = s.get_char(i) == 'I' && s.get_char(i + 1) == 'N' && s.get_char(i + 2) == ' '
        && s.get_char(i + 3) == 'T' && s.get_char(i + 4) == 'X' && s.get_char(i + 5) == 'T'
        && s.get_char(i + 6) == ' ' && s.get_char(i + 7) == '"';
    proof {
        if r {
            assert(sub =~= txt_marker());
        }
    }
    r
}

/// Read the quoted address out of the name server's text answer, as
/// the side channel's answer parser: the capture starts after the
/// first marker whose line holds a closing quote, and ends at the last
/// quote of that line. `None` when no line matches.
#[verifier::loop_isolation(false)]
pub fn parse_txt_record(output: &str) -> (r: Option<String>)
    ensures
        match r {
            Some(u) => txt_url(output@) == Some(u@),
            None => txt_url(output@) is None,
        },
{
    let n = output.unicode_len();
    if n < 8 {
        return None;
    }
    let mut i: usize = 0;
    while i <= n - 8
        invariant
            i <= n - 7,
            txt_url_from(output@, i as int) == txt_url(output@),
        decreases n - i,
    {
        if marker_at(output, i, n) {
            let line_end = find_char_from(output, '\n', i + 8);
            proof {
                crate::text::lemma_first_char_bounds(output@, '\n', i + 8);
                crate::text::lemma_last_char_bounds(
                    output@,
                    '"',
                    i + 8,
                    first_char_at_or_after(output@, '\n', i + 8),
                );
            }
            match rfind_char_in(output, '"', i + 8, line_end) {
                Some(j) => {
                    return Some(output.substring_char(i + 8, j).to_owned());
                },
                None => {},
            }
        }
        i += 1;
    }
    None
}

/// The string version field of a small JSON payload; `None` when the
/// payload is not an object with a string `version`.
pub open spec fn version_of_payload(bytes: Seq<u8>) -> Option<Seq<char>> {
    match json_of(bytes) {
        Some(j) => match j {
            JsonData::Obj(m) => str_entry(m, "version"@),
            _ => None,
        },
        None => None,
    }
}

/// Decode the version endpoint's payload. Any failure means "no
/// version" and never escalates.
pub fn parse_version_payload(bytes: &[u8]) -> (r: Option<String>)
    ensures
        match r {
            Some(v) => version_of_payload(bytes@) == Some(v@),
            None => version_of_payload(bytes@) is None,
        },
{
    let v = match parse_json(bytes) {
        Some(v) => v,
        None => {
            return None;
        },
    };
    let field = match json_get(&v, "version") {
        Some(f) => f,
        None => {
            return None;
        },
    };
    json_str(field)
}

/// Keep the successfully resolved documents of a twin list, in order;
/// a failed resolution is skipped and costs its siblings nothing.
pub open spec fn resolved_twins(s: Seq<Result<TwinDidDocument, ResolveError>>) -> Seq<
    TwinDidDocument,
>
    decreases s.len(),
{
    if s.len() == 0 {
        Seq::empty()
    } else {
        match s[0] {
            Ok(t) => seq![t] + resolved_twins(s.skip(1)),
            Err(_) => resolved_twins(s.skip(1)),
        }
    }
}

/// Keep the successfully resolved twin documents, in order, skipping
/// every failed resolution.
#[verifier::loop_isolation(false)]
pub fn fold_twin_results(results: Vec<Result<TwinDidDocument, ResolveError>>) -> (r: Vec<
    TwinDidDocument,
>)
    ensures
        r@ == resolved_twins(results@),
{
    let ghost orig = results@;
    let mut results = results;
    let mut out: Vec<TwinDidDocument> = Vec::new();
    proof {
        assert(out@ + resolved_twins(orig) =~= resolved_twins(orig));
    }
    while results.len() > 0
        invariant
            out@ + resolved_twins(results@) == resolved_twins(orig),
        decreases results.len(),
    {
        let ghost before = results@;
        let head = results.remove(0);
        proof {
            assert(results@ =~= before.skip(1));
        }
        match head {
            Ok(t) => {
                let ghost out_before = out@;
                out.push(t);
                proof {
                    assert(out@ + resolved_twins(results@) =~= out_before + (seq![t]
                        + resolved_twins(before.skip(1))));
                }
            },
            Err(_) => {},
        }
    }
    proof {
        assert(out@ + resolved_twins(results@) =~= out@);
    }
    out
}

/// The configured host address of a network deployment decides which
/// name domain the lookup queries.
#[derive(Debug, Clone, PartialEq, Eq, Structural)]
pub enum NetworkType {
    Prod,
    Dev,
}

/// The domain a remote host's address lookup queries: the host
/// identifier under the network's name space.
pub fn lookup_domain(host_did: &str, network_type: &NetworkType) -> (r: String)
    ensures
        match network_type {
            NetworkType::Dev => r@ == host_did@ + ".dev.iotics.space"@,
            NetworkType::Prod => r@ == host_did@ + ".iotics.space"@,
        },
{
    let mut out = host_did.to_owned();
    match network_type {
        NetworkType::Dev => out.append(".dev.iotics.space"),
        NetworkType::Prod => out.append(".iotics.space"),
    }
    out
}

/// The twin-registry endpoint of a resolved host address.
pub fn api_endpoint(url: &str) -> (r: String)
    ensures
        r@ == "https://"@ + url@ + ":10001"@,
{
    let mut out = String::from_str("https://");
    out.append(url);
    out.append(":10001");
    out
}

/// The well-known version endpoint of a resolved host address.
pub fn version_endpoint(url: &str) -> (r: String)
    ensures
        r@ == "https://"@ + url@ + "/index.json"@,
{
    let mut out = String::from_str("https://");
    out.append(url);
    out.append("/index.json");
    out
}

/// Assemble a worker's one outcome. Only a missing address produces
/// the empty outcome (`None`); a missing version degrades to an empty
/// string, and absent twin data stays absent. The display address is
/// the resolved one with the network domain removed.
pub fn worker_outcome(
    host_did: String,
    address: Option<String>,
    version: Option<String>,
    twins_count: Option<usize>,
    twins: Vec<TwinDidDocument>,
) -> (r: Option<HostResultMessage>)
    ensures
        match address {
            Some(url) => r matches Some(msg) && msg.host_did == host_did && msg.url@
                == removed_all(url@, ".iotics.space"@) && msg.version@ == (match version {
                Some(v) => v@,
                None => Seq::<char>::empty(),
            }) && msg.twins_count == twins_count && msg.twins == twins,
            None => r is None,
        },
{
    let url = match address {
        Some(u) => u,
        None => {
            return None;
        },
    };
    proof {
        reveal_strlit(".iotics.space");
    }
    let display_url = remove_all(url.as_str(), ".iotics.space");
    let version = match version {
        Some(v) => v,
        None => String::new(),
    };
    Some(HostResultMessage { host_did, url: display_url, version, twins_count, twins })
}

} // verus!
