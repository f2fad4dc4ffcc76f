//! The identity-document resolver with its write-once cache.
//!
//! A twin's identity document arrives as a signed bearer token whose
//! second dot-separated segment is a base64 payload holding the raw
//! document JSON. The resolver extracts that payload, decodes it,
//! checks the document's shape, splits the issuer and every delegation
//! controller on the first `#`, and memoizes the raw document bytes in
//! a cache keyed by the twin identifier so a later resolution of the
//! same identifier never refetches.

use vstd::prelude::*;

use crate::json::{
    json_array, json_get, json_i64, json_is_null, json_str, json_of, json_value, parse_json,
    JsonData,
};
use crate::text::{split_first, split_once_char, str_eq};

verus! {

/// An agent permitted to control or authenticate as a twin.
#[derive(Debug, Clone)]
pub struct TwinDelegation {
    pub did: String,
    pub key_name: String,
}

pub struct TwinDelegationView {
    pub did: Seq<char>,
    pub key_name: Seq<char>,
}

impl View for TwinDelegation {
    type V = TwinDelegationView;

    open spec fn view(&self) -> TwinDelegationView {
        TwinDelegationView { did: self.did@, key_name: self.key_name@ }
    }
}

/// A parsed identity document: the twin's identifier and signing key
/// (split out of the issuer string), the last update time in
/// milliseconds since the epoch, and the delegation edges.
#[derive(Debug, Clone)]
pub struct TwinDidDocument {
    pub did: String,
    pub key_name: String,
    pub update_time: i64,
    pub delegations: Vec<TwinDelegation>,
}

pub struct TwinDidDocumentView {
    pub did: Seq<char>,
    pub key_name: Seq<char>,
    pub update_time: int,
    pub delegations: Seq<TwinDelegationView>,
}

impl View for TwinDidDocument {
    type V = TwinDidDocumentView;

    open spec fn view(&self) -> TwinDidDocumentView {
        TwinDidDocumentView {
            did: self.did@,
            key_name: self.key_name@,
            update_time: self.update_time as int,
            delegations: self.delegations@.map_values(|d: TwinDelegation| d@),
        }
    }
}

/// Why a single twin's resolution failed. Every variant makes the
/// caller skip that twin; none aborts the enclosing host.
#[derive(Debug, Clone, PartialEq, Eq, Structural)]
pub enum ResolveError {
    /// The resolver service could not be reached or answered badly.
    Transport,
    /// The token has no payload segment, or the payload is not base64.
    MalformedToken,
    /// The payload or cached entry is not a document of the expected shape.
    MalformedDocument,
    /// An issuer or controller string holds no `#`.
    MalformedIdentifier,
}

/// The raw decoded document, before issuer and controllers are split:
/// the issuer string, the document type marker, the update time, and
/// the controller strings of the `delegateControl` entries followed by
/// those of the `delegateAuthentication` entries.
#[derive(Debug, Clone)]
pub struct RawDocument {
    pub issuer: String,
    pub did_type: String,
    pub update_time: i64,
    pub controllers: Vec<String>,
}

pub struct RawDocumentView {
    pub issuer: Seq<char>,
    pub did_type: Seq<char>,
    pub update_time: int,
    pub controllers: Seq<Seq<char>>,
}

impl View for RawDocument {
    type V = RawDocumentView;

    open spec fn view(&self) -> RawDocumentView {
        RawDocumentView {
            issuer: self.issuer@,
            did_type: self.did_type@,
            update_time: self.update_time as int,
            controllers: self.controllers@.map_values(|c: String| c@),
        }
    }
}

/// The string field `key` of object `m`, when present with that type.
pub open spec fn str_entry(m: Map<Seq<char>, JsonData>, key: Seq<char>) -> Option<Seq<char>> {
    if m.contains_key(key) {
        match m[key] {
            JsonData::Str(s) => Some(s),
            _ => None,
        }
    } else {
        None
    }
}

/// The integer field `key` of object `m`, when present, integral and
/// within `i64` range.
pub open spec fn time_entry(m: Map<Seq<char>, JsonData>, key: Seq<char>) -> Option<int> {
    if m.contains_key(key) {
        match m[key] {
            JsonData::Num(n) => if i64::MIN <= n <= i64::MAX {
                Some(n)
            } else {
                None
            },
            _ => None,
        }
    } else {
        None
    }
}

/// The controller string of one delegation entry: the entry must be an
/// object with a string `controller` field.
pub open spec fn controller_of(e: JsonData) -> Option<Seq<char>> {
    match e {
        JsonData::Obj(m) => str_entry(m, "controller"@),
        _ => None,
    }
}

/// The controller strings of a delegation list, in order; `None` as
/// soon as one entry is malformed.
pub open spec fn controllers_list(items: Seq<JsonData>) -> Option<Seq<Seq<char>>>
    decreases items.len(),
{
    if items.len() == 0 {
        Some(Seq::empty())
    } else {
        match controller_of(items[0]) {
            Some(c) => match controllers_list(items.skip(1)) {
                Some(rest) => Some(seq![c] + rest),
                None => None,
            },
            None => None,
        }
    }
}

/// A delegation list field: an absent or `null` field is an empty
/// list, an array is read entry by entry, anything else is malformed.
pub open spec fn delegation_field(m: Map<Seq<char>, JsonData>, key: Seq<char>) -> Option<
    Seq<Seq<char>>,
> {
    if !m.contains_key(key) {
        Some(Seq::empty())
    } else {
        match m[key] {
            JsonData::Null => Some(Seq::empty()),
            JsonData::Arr(items) => controllers_list(items),
            _ => None,
        }
    }
}

/// The raw document a JSON value describes: an object with a string
/// `iss` and an object `doc` holding `updateTime`, `ioticsDIDType`,
/// and the two optional delegation lists.
pub open spec fn document_of_json(j: JsonData) -> Option<RawDocumentView> {
    match j {
        JsonData::Obj(top) => match str_entry(top, "iss"@) {
            Some(issuer) => {
                if top.contains_key("doc"@) {
                    match top["doc"@] {
                        JsonData::Obj(doc) => match (
                            time_entry(doc, "updateTime"@),
                            str_entry(doc, "ioticsDIDType"@),
                        ) {
                            (Some(t), Some(ty)) => match (
                                delegation_field(doc, "delegateControl"@),
                                delegation_field(doc, "delegateAuthentication"@),
                            ) {
                                (Some(dc), Some(da)) => Some(
                                    RawDocumentView {
                                        issuer: issuer,
                                        did_type: ty,
                                        update_time: t,
                                        controllers: dc + da,
                                    },
                                ),
                                _ => None,
                            },
                            _ => None,
                        },
                        _ => None,
                    }
                } else {
                    None
                }
            },
            None => None,
        },
        _ => None,
    }
}

/// The raw document a byte string decodes to, if it is valid JSON of
/// the expected shape.
pub open spec fn parsed_document(bytes: Seq<u8>) -> Option<RawDocumentView> {
    match json_of(bytes) {
        Some(j) => document_of_json(j),
        None => None,
    }
}

/// An identifier split at its first `#` into a DID and a key name.
pub open spec fn split_identifier_spec(s: Seq<char>) -> Option<TwinDelegationView> {
    match split_first(s, '#') {
        Some(parts) => Some(TwinDelegationView { did: parts.0, key_name: parts.1 }),
        None => None,
    }
}

/// The delegations of a controller list; `None` as soon as one
/// controller string holds no `#`.
pub open spec fn delegations_of(controllers: Seq<Seq<char>>) -> Option<Seq<TwinDelegationView>>
    decreases controllers.len(),
{
    if controllers.len() == 0 {
        Some(Seq::empty())
    } else {
        match split_identifier_spec(controllers[0]) {
            Some(d) => match delegations_of(controllers.skip(1)) {
                Some(rest) => Some(seq![d] + rest),
                None => None,
            },
            None => None,
        }
    }
}

/// The parsed twin document of a raw document: issuer and every
/// controller split on the first `#`.
pub open spec fn twin_from_document(d: RawDocumentView) -> Option<TwinDidDocumentView> {
    match (split_identifier_spec(d.issuer), delegations_of(d.controllers)) {
        (Some(owner), Some(ds)) => Some(
            TwinDidDocumentView {
                did: owner.did,
                key_name: owner.key_name,
                update_time: d.update_time,
                delegations: ds,
            },
        ),
        _ => None,
    }
}

/// The twin document a raw byte string decodes to.
pub open spec fn twin_of_bytes(bytes: Seq<u8>) -> Option<TwinDidDocumentView> {
    match parsed_document(bytes) {
        Some(d) => twin_from_document(d),
        None => None,
    }
}

/// Split an identifier string on its first `#` into a DID and a key
/// name; a structural error when no `#` is present.
pub fn split_identifier(s: &str) -> (r: Result<TwinDelegation, ResolveError>)
    ensures
        match r {
            Ok(d) => split_identifier_spec(s@) == Some(d@),
            Err(e) => split_identifier_spec(s@) is None && e == ResolveError::MalformedIdentifier,
        },
{
    match split_once_char(s, '#') {
        Some(parts) => Ok(TwinDelegation { did: parts.0, key_name: parts.1 }),
        None => Err(ResolveError::MalformedIdentifier),
    }
}

/// The payload of a bearer token: the part between the first and the
/// second `.`, or everything after the first `.` when there is no
/// second; `None` when the token holds no `.` at all.
pub open spec fn payload_segment(t: Seq<char>) -> Option<Seq<char>> {
    match split_first(t, '.') {
        Some(parts) => match split_first(parts.1, '.') {
            Some(inner) => Some(inner.0),
            None => Some(parts.1),
        },
        None => None,
    }
}

/// Extract the payload segment of a token; a token without segments is
/// malformed.
pub fn token_payload(token: &str) -> (r: Result<String, ResolveError>)
    ensures
        match r {
            Ok(p) => payload_segment(token@) == Some(p@),
            Err(e) => payload_segment(token@) is None && e == ResolveError::MalformedToken,
        },
{
    match split_once_char(token, '.') {
        Some(parts) => match split_once_char(parts.1.as_str(), '.') {
            Some(inner) => Ok(inner.0),
            None => Ok(parts.1),
        },
        None => Err(ResolveError::MalformedToken),
    }
}

/// What a character string decodes to under standard base64; `None`
/// when it is not valid base64.
pub uninterp spec fn base64_decoded(s: Seq<char>) -> Option<Seq<u8>>;

/// Relies on the `base64` crate's `STANDARD` engine: decoding is a
/// function of the input characters alone, failing exactly on input
/// that is not canonical padded base64.
#[verifier::external_body]
fn decode_base64(s: &str) -> (r: Option<Vec<u8>>)
    ensures
        match r {
            Some(v) => base64_decoded(s@) == Some(v@),
            None => base64_decoded(s@) is None,
        },
{
    base64::Engine::decode(&base64::engine::general_purpose::STANDARD, s).ok()
}

/// The raw document bytes carried by a token: its payload segment,
/// base64-decoded.
pub open spec fn token_document_bytes(t: Seq<char>) -> Option<Seq<u8>> {
    match payload_segment(t) {
        Some(p) => base64_decoded(p),
        None => None,
    }
}

/// Recover the raw document bytes from a bearer token.
pub fn decode_token(token: &str) -> (r: Result<Vec<u8>, ResolveError>)
    ensures
        match r {
            Ok(b) => token_document_bytes(token@) == Some(b@),
            Err(e) => token_document_bytes(token@) is None && e == ResolveError::MalformedToken,
        },
{
    let payload = match token_payload(token) {
        Ok(p) => p,
        Err(e) => {
            return Err(e);
        },
    };
    match decode_base64(payload.as_str()) {
        Some(bytes) => Ok(bytes),
        None => Err(ResolveError::MalformedToken),
    }
}

/// The controller string of entry `e`, with a default for the error
/// case so sequences of controllers can be described pointwise.
pub open spec fn controller_val(e: JsonData) -> Seq<char> {
    match controller_of(e) {
        Some(c) => c,
        None => Seq::empty(),
    }
}

proof fn lemma_controllers_list_pointwise(s: Seq<JsonData>)
    ensures
        (forall|k: int| 0 <= k < s.len() ==> controller_of(#[trigger] s[k]) is Some)
            ==> controllers_list(s) == Some(Seq::new(s.len(), |k: int| controller_val(s[k]))),
        (exists|k: int| 0 <= k < s.len() && controller_of(#[trigger] s[k]) is None)
            ==> controllers_list(s) is None,
    decreases s.len(),
{
    if s.len() > 0 {
        lemma_controllers_list_pointwise(s.skip(1));
        assert forall|k: int| 0 <= k < s.skip(1).len() implies #[trigger] s.skip(1)[k] == s[k
            + 1] by {}
        if forall|k: int| 0 <= k < s.len() ==> controller_of(#[trigger] s[k]) is Some {
            assert(controllers_list(s.skip(1)) == Some(
                Seq::new(s.skip(1).len(), |k: int| controller_val(s.skip(1)[k])),
            ));
            assert(seq![controller_val(s[0])] + Seq::new(
                s.skip(1).len(),
                |k: int| controller_val(s.skip(1)[k]),
            ) =~= Seq::new(s.len(), |k: int| controller_val(s[k])));
        } else {
            let k = choose|k: int| 0 <= k < s.len() && controller_of(#[trigger] s[k]) is None;
            if k == 0 {
            } else {
                assert(controller_of(s.skip(1)[k - 1]) is None);
            }
        }
    }
}

/// Read one delegation list field of the document object: absent or
/// `null` means no delegations; an array is read entry by entry.
#[verifier::loop_isolation(false)]
fn delegation_list(doc: &serde_json::Value, key: &str) -> (r: Result<Vec<String>, ResolveError>)
    requires
        json_value(*doc) matches JsonData::Obj(_),
    ensures
        json_value(*doc) matches JsonData::Obj(m) && (match r {
            Ok(cs) => delegation_field(m, key@) == Some(cs@.map_values(|c: String| c@)),
            Err(e) => delegation_field(m, key@) is None && e == ResolveError::MalformedDocument,
        }),
{
    let ghost m = json_value(*doc)->Obj_0;
    let field = match json_get(doc, key) {
        Some(f) => f,
        None => {
            let empty: Vec<String> = Vec::new();
            proof {
                assert(empty@.map_values(|c: String| c@) =~= Seq::<Seq<char>>::empty());
            }
            return Ok(empty);
        },
    };
    if json_is_null(field) {
        let empty: Vec<String> = Vec::new();
        proof {
            assert(empty@.map_values(|c: String| c@) =~= Seq::<Seq<char>>::empty());
        }
        return Ok(empty);
    }
    let items = match json_array(field) {
        Some(a) => a,
        None => {
            return Err(ResolveError::MalformedDocument);
        },
    };
    let ghost s = json_value(*field)->Arr_0;
    let mut out: Vec<String> = Vec::new();
    let mut i: usize = 0;
    while i < items.len()
        invariant
            i <= items.len(),
            items@.len() == s.len(),
            forall|k: int| 0 <= k < s.len() ==> json_value(items@[k]) == s[k],
            out@.len() == i,
            forall|k: int|
                0 <= k < i ==> controller_of(#[trigger] s[k]) == Some(
                    out@.map_values(|c: String| c@)[k],
                ),
        decreases items.len() - i,
    {
        let entry = &items[i];
        let c_field = match json_get(entry, "controller") {
            Some(f) => f,
            None => {
                proof {
                    assert(controller_of(s[i as int]) is None);
                    lemma_controllers_list_pointwise(s);
                }
                return Err(ResolveError::MalformedDocument);
            },
        };
        let c = match json_str(c_field) {
            Some(cs) => cs,
            None => {
                proof {
                    assert(controller_of(s[i as int]) is None);
                    lemma_controllers_list_pointwise(s);
                }
                return Err(ResolveError::MalformedDocument);
            },
        };
        proof {
            assert(controller_of(s[i as int]) == Some(c@));
        }
        let ghost old_out = out@;
        out.push(c);
        proof {
            assert(out@.map_values(|c: String| c@) =~= old_out.map_values(|c: String| c@).push(
                c@,
            ));
        }
        i += 1;
    }
    proof {
        lemma_controllers_list_pointwise(s);
        assert(out@.map_values(|c: String| c@) =~= Seq::new(
            s.len(),
            |k: int| controller_val(s[k]),
        ));
    }
    Ok(out)
}

/// Check the shape of a parsed document and pull its fields out.
pub fn decode_document_value(v: &serde_json::Value) -> (r: Result<RawDocument, ResolveError>)
    ensures
        match r {
            Ok(d) => document_of_json(json_value(*v)) == Some(d@),
            Err(e) => document_of_json(json_value(*v)) is None && e
                == ResolveError::MalformedDocument,
        },
{
    let iss_field = match json_get(v, "iss") {
        Some(f) => f,
        None => {
            return Err(ResolveError::MalformedDocument);
        },
    };
    let issuer = match json_str(iss_field) {
        Some(s) => s,
        None => {
            return Err(ResolveError::MalformedDocument);
        },
    };
    let doc_field = match json_get(v, "doc") {
        Some(f) => f,
        None => {
            return Err(ResolveError::MalformedDocument);
        },
    };
    let t_field = match json_get(doc_field, "updateTime") {
        Some(f) => f,
        None => {
            return Err(ResolveError::MalformedDocument);
        },
    };
    let update_time = match json_i64(t_field) {
        Some(t) => t,
        None => {
            return Err(ResolveError::MalformedDocument);
        },
    };
    let ty_field = match json_get(doc_field, "ioticsDIDType") {
        Some(f) => f,
        None => {
            return Err(ResolveError::MalformedDocument);
        },
    };
    let did_type = match json_str(ty_field) {
        Some(s) => s,
        None => {
            return Err(ResolveError::MalformedDocument);
        },
    };
    let mut controllers = match delegation_list(doc_field, "delegateControl") {
        Ok(cs) => cs,
        Err(e) => {
            return Err(e);
        },
    };
    let mut auth = match delegation_list(doc_field, "delegateAuthentication") {
        Ok(cs) => cs,
        Err(e) => {
            return Err(e);
        },
    };
    let ghost dc = controllers@.map_values(|c: String| c@);
    let ghost da = auth@.map_values(|c: String| c@);
    controllers.append(&mut auth);
    proof {
        assert(controllers@.map_values(|c: String| c@) =~= dc + da);
    }
    Ok(RawDocument { issuer, did_type, update_time, controllers })
}

/// Decode raw document bytes: parse them as JSON and check the shape.
pub fn decode_document(bytes: &[u8]) -> (r: Result<RawDocument, ResolveError>)
    ensures
        match r {
            Ok(d) => parsed_document(bytes@) == Some(d@),
            Err(e) => parsed_document(bytes@) is None && e == ResolveError::MalformedDocument,
        },
{
    let v = match parse_json(bytes) {
        Some(v) => v,
        None => {
            return Err(ResolveError::MalformedDocument);
        },
    };
    decode_document_value(&v)
}

/// The delegation of controller string `c`, with a default for the
/// error case.
pub open spec fn delegation_val(c: Seq<char>) -> TwinDelegationView {
    match split_identifier_spec(c) {
        Some(d) => d,
        None => TwinDelegationView { did: Seq::empty(), key_name: Seq::empty() },
    }
}

proof fn lemma_delegations_pointwise(s: Seq<Seq<char>>)
    ensures
        (forall|k: int| 0 <= k < s.len() ==> split_identifier_spec(#[trigger] s[k]) is Some)
            ==> delegations_of(s) == Some(Seq::new(s.len(), |k: int| delegation_val(s[k]))),
        (exists|k: int| 0 <= k < s.len() && split_identifier_spec(#[trigger] s[k]) is None)
            ==> delegations_of(s) is None,
    decreases s.len(),
{
    if s.len() > 0 {
        lemma_delegations_pointwise(s.skip(1));
        assert forall|k: int| 0 <= k < s.skip(1).len() implies #[trigger] s.skip(1)[k] == s[k
            + 1] by {}
        if forall|k: int| 0 <= k < s.len() ==> split_identifier_spec(#[trigger] s[k]) is Some {
            assert(seq![delegation_val(s[0])] + Seq::new(
                s.skip(1).len(),
                |k: int| delegation_val(s.skip(1)[k]),
            ) =~= Seq::new(s.len(), |k: int| delegation_val(s[k])));
        } else {
            let k = choose|k: int|
                0 <= k < s.len() && split_identifier_spec(#[trigger] s[k]) is None;
            if k != 0 {
                assert(split_identifier_spec(s.skip(1)[k - 1]) is None);
            }
        }
    }
}

/// Split the issuer and every controller of a raw document; a
/// structural error when any of them holds no `#`.
#[verifier::loop_isolation(false)]
pub fn build_twin_document(d: &RawDocument) -> (r: Result<TwinDidDocument, ResolveError>)
    ensures
        match r {
            Ok(t) => twin_from_document(d@) == Some(t@),
            Err(e) => twin_from_document(d@) is None && e == ResolveError::MalformedIdentifier,
        },
{
    let ghost cs = d@.controllers;
    let mut delegations: Vec<TwinDelegation> = Vec::new();
    let mut i: usize = 0;
    while i < d.controllers.len()
        invariant
            i <= d.controllers.len(),
            cs == d@.controllers,
            cs.len() == d.controllers@.len(),
            forall|k: int| 0 <= k < cs.len() ==> cs[k] == d.controllers@[k]@,
            delegations@.len() == i,
            forall|k: int|
                0 <= k < i ==> split_identifier_spec(#[trigger] cs[k]) == Some(
                    delegations@.map_values(|x: TwinDelegation| x@)[k],
                ),
        decreases d.controllers.len() - i,
    {
        let c = &d.controllers[i];
        match split_identifier(c.as_str()) {
            Ok(delegation) => {
                let ghost old_ds = delegations@;
                delegations.push(delegation);
                proof {
                    assert(delegations@.map_values(|x: TwinDelegation| x@) =~= old_ds.map_values(
                        |x: TwinDelegation| x@,
                    ).push(delegation@));
                }
            },
            Err(e) => {
                proof {
                    assert(split_identifier_spec(cs[i as int]) is None);
                    lemma_delegations_pointwise(cs);
                }
                return Err(ResolveError::MalformedIdentifier);
            },
        }
        i += 1;
    }
    proof {
        lemma_delegations_pointwise(cs);
        assert(delegations@.map_values(|x: TwinDelegation| x@) =~= Seq::new(
            cs.len(),
            |k: int| delegation_val(cs[k]),
        ));
    }
    let owner = match split_identifier(d.issuer.as_str()) {
        Ok(o) => o,
        Err(e) => {
            return Err(e);
        },
    };
    Ok(TwinDidDocument {
        did: owner.did,
        key_name: owner.key_name,
        update_time: d.update_time,
        delegations,
    })
}

/// The map an association list of cache entries denotes.
pub open spec fn map_of_entries(s: Seq<(String, Vec<u8>)>) -> Map<Seq<char>, Seq<u8>>
    decreases s.len(),
{
    if s.len() == 0 {
        Map::empty()
    } else {
        map_of_entries(s.drop_last()).insert(s.last().0@, s.last().1@)
    }
}

proof fn lemma_map_of_entries_keys(s: Seq<(String, Vec<u8>)>, k: Seq<char>)
    ensures
        map_of_entries(s).contains_key(k) <==> exists|i: int|
            0 <= i < s.len() && (#[trigger] s[i]).0@ == k,
    decreases s.len(),
{
    if s.len() > 0 {
        lemma_map_of_entries_keys(s.drop_last(), k);
        if s.last().0@ == k {
            assert(s[s.len() - 1].0@ == k);
        } else if map_of_entries(s).contains_key(k) {
            let i = choose|i: int| 0 <= i < s.drop_last().len() && (#[trigger] s.drop_last()[i]).0@
                == k;
            assert(s[i].0@ == k);
        } else {
            assert forall|i: int| 0 <= i < s.len() implies (#[trigger] s[i]).0@ != k by {
                if i < s.len() - 1 {
                    assert(s.drop_last()[i] == s[i]);
                }
            }
        }
    }
}

proof fn lemma_map_of_entries_value(s: Seq<(String, Vec<u8>)>, i: int)
    requires
        0 <= i < s.len(),
        forall|a: int, b: int|
            0 <= a < b < s.len() ==> (#[trigger] s[a]).0@ != (#[trigger] s[b]).0@,
    ensures
        map_of_entries(s).contains_key(s[i].0@),
        map_of_entries(s)[s[i].0@] == s[i].1@,
    decreases s.len(),
{
    lemma_map_of_entries_keys(s, s[i].0@);
    if i == s.len() - 1 {
    } else {
        assert(s.drop_last()[i] == s[i]);
        lemma_map_of_entries_value(s.drop_last(), i);
        assert(s[i].0@ != s.last().0@);
    }
}

/// The write-once memo of raw document bytes, keyed by twin
/// identifier. The driver mirrors it to one file per identifier; this
/// type carries the contents the files denote.
pub struct ResolverCache {
    entries: Vec<(String, Vec<u8>)>,
}

impl View for ResolverCache {
    type V = Map<Seq<char>, Seq<u8>>;

    closed spec fn view(&self) -> Map<Seq<char>, Seq<u8>> {
        map_of_entries(self.entries@)
    }
}

impl ResolverCache {
    /// Each identifier has at most one entry.
    pub closed spec fn wf(&self) -> bool {
        forall|a: int, b: int|
            0 <= a < b < self.entries@.len() ==> (#[trigger] self.entries@[a]).0@ != (
            #[trigger] self.entries@[b]).0@
    }

    /// An empty cache.
    pub fn new() -> (r: ResolverCache)
        ensures
            r.wf(),
            r@ == Map::<Seq<char>, Seq<u8>>::empty(),
    {
        ResolverCache { entries: Vec::new() }
    }

    /// The raw document bytes cached for `did`, if any.
    pub fn lookup(&self, did: &str) -> (r: Option<&Vec<u8>>)
        requires
            self.wf(),
        ensures
            match r {
                Some(b) => self@.contains_key(did@) && b@ == self@[did@],
                None => !self@.contains_key(did@),
            },
    {
        let n = self.entries.len();
        let mut i: usize = 0;
        while i < n
            invariant
                i <= n,
                n == self.entries@.len(),
                self.wf(),
                forall|k: int| 0 <= k < i ==> (#[trigger] self.entries@[k]).0@ != did@,
            decreases n - i,
        {
            if str_eq(self.entries[i].0.as_str(), did) {
                proof {
                    lemma_map_of_entries_value(self.entries@, i as int);
                }
                return Some(&self.entries[i].1);
            }
            i += 1;
        }
        proof {
            lemma_map_of_entries_keys(self.entries@, did@);
        }
        None
    }

    /// Record the raw document bytes for a not-yet-cached `did`.
    pub fn insert(&mut self, did: &str, bytes: Vec<u8>)
        requires
            old(self).wf(),
            !old(self)@.contains_key(did@),
        ensures
            final(self).wf(),
            final(self)@ == old(self)@.insert(did@, bytes@),
    {
        proof {
            lemma_map_of_entries_keys(self.entries@, did@);
        }
        let ghost before = self.entries@;
        self.entries.push((did.to_owned(), bytes));
        proof {
            assert(self.entries@.drop_last() =~= before);
        }
    }
}

/// The error reported for raw document bytes that do not decode to a
/// twin document.
pub open spec fn document_error(bytes: Seq<u8>) -> ResolveError {
    if parsed_document(bytes) is None {
        ResolveError::MalformedDocument
    } else {
        ResolveError::MalformedIdentifier
    }
}

/// Decode raw document bytes all the way to a twin document.
pub fn parse_document_bytes(bytes: &[u8]) -> (r: Result<TwinDidDocument, ResolveError>)
    ensures
        match r {
            Ok(t) => twin_of_bytes(bytes@) == Some(t@),
            Err(e) => twin_of_bytes(bytes@) is None && e == document_error(bytes@),
        },
{
    let raw = match decode_document(bytes) {
        Ok(d) => d,
        Err(e) => {
            return Err(e);
        },
    };
    build_twin_document(&raw)
}

/// Resolve `did` against the cache alone: `None` means a cache miss,
/// so the caller must fetch a token and call [`resolve_fetched`];
/// `Some` carries the decoding of the cached bytes, with no fetch.
pub fn resolve_from_cache(cache: &ResolverCache, did: &str) -> (r: Option<
    Result<TwinDidDocument, ResolveError>,
>)
    requires
        cache.wf(),
    ensures
        match r {
            Some(res) => cache@.contains_key(did@) && (match res {
                Ok(t) => twin_of_bytes(cache@[did@]) == Some(t@),
                Err(e) => twin_of_bytes(cache@[did@]) is None && e == document_error(
                    cache@[did@],
                ),
            }),
            None => !cache@.contains_key(did@),
        },
{
    match cache.lookup(did) {
        Some(bytes) => Some(parse_document_bytes(bytes.as_slice())),
        None => None,
    }
}

/// Resolve `did` after a cache miss, from the outcome of the token
/// fetch. A transport error or a malformed token leaves the cache
/// untouched; once the payload decodes to a well-formed document its
/// raw bytes are memoized, whether or not the identifier split then
/// succeeds.
pub fn resolve_fetched(
    cache: &mut ResolverCache,
    did: &str,
    fetched: Result<String, ResolveError>,
) -> (r: Result<TwinDidDocument, ResolveError>)
    requires
        old(cache).wf(),
        !old(cache)@.contains_key(did@),
    ensures
        final(cache).wf(),
        match fetched {
            Err(e) => r == Err::<TwinDidDocument, ResolveError>(e) && final(cache)@ == old(cache)@,
            Ok(token) => match token_document_bytes(token@) {
                None => r == Err::<TwinDidDocument, ResolveError>(ResolveError::MalformedToken)
                    && final(cache)@ == old(cache)@,
                Some(bytes) => match parsed_document(bytes) {
                    None => r == Err::<TwinDidDocument, ResolveError>(
                        ResolveError::MalformedDocument,
                    ) && final(cache)@ == old(cache)@,
                    Some(d) => final(cache)@ == old(cache)@.insert(did@, bytes) && (match r {
                        Ok(t) => twin_from_document(d) == Some(t@),
                        Err(e) => twin_from_document(d) is None && e
                            == ResolveError::MalformedIdentifier,
                    }),
                },
            },
        },
{
    let token = match fetched {
        Ok(t) => t,
        Err(e) => {
            return Err(e);
        },
    };
    let bytes = match decode_token(token.as_str()) {
        Ok(b) => b,
        Err(e) => {
            return Err(e);
        },
    };
    let raw = match decode_document(bytes.as_slice()) {
        Ok(d) => d,
        Err(e) => {
            return Err(e);
        },
    };
    cache.insert(did, bytes);
    build_twin_document(&raw)
}

/// The resolver-service URL a twin's token is fetched from: the
/// configured resolver address plus the discovery path and the
/// identifier.
pub fn discover_endpoint(resolver_address: &str, did: &str) -> (r: String)
    ensures
        r@ == resolver_address@ + "/1.0/discover/"@ + did@,
{
    let mut out = resolver_address.to_owned();
    out.append("/1.0/discover/");
    out.append(did);
    out
}

/// Round trip: the raw bytes cached after a fetch are returned
/// verbatim by the cache-hit path, so re-reading them decodes to
/// exactly the twin document the fetched token decoded to.
pub proof fn lemma_cache_round_trip(
    cache: Map<Seq<char>, Seq<u8>>,
    did: Seq<char>,
    token: Seq<char>,
)
    requires
        token_document_bytes(token) is Some,
    ensures
        ({
            let bytes = token_document_bytes(token)->Some_0;
            let warmed = cache.insert(did, bytes);
            warmed.contains_key(did) && warmed[did] == bytes && twin_of_bytes(warmed[did])
                == twin_of_bytes(bytes)
        }),
{
}

/// Idempotence: a cold resolution (fetch, decode, memoize) and a warm
/// resolution of the same identifier straight afterwards decode the
/// same bytes, so they yield the same twin document or the same
/// structural error.
pub proof fn lemma_resolution_idempotent(
    cache: Map<Seq<char>, Seq<u8>>,
    did: Seq<char>,
    token: Seq<char>,
)
    requires
        token_document_bytes(token) is Some,
        parsed_document(token_document_bytes(token)->Some_0) is Some,
    ensures
        ({
            let bytes = token_document_bytes(token)->Some_0;
            let cold = twin_from_document(parsed_document(bytes)->Some_0);
            let warmed = cache.insert(did, bytes);
            warmed.contains_key(did) && twin_of_bytes(warmed[did]) == cold
        }),
{
}

} // verus!
