//! The read-through lookup protocol.
//!
//! A lookup first probes the store: a blank key is rejected, a present key is
//! answered from the store with no side effect, an absent key is a miss. The
//! caller then fetches from the upstream and hands the raw status and body to
//! `lookup_complete`, which validates them and populates the store.

use vstd::prelude::*;
use vstd::string::*;
use crate::errors::AppError;
use crate::errors::ErrorKind;
use crate::errors::ErrorModel;
use crate::errors::upstream_failure_message;
use crate::store::CacheEntry;
use crate::store::CacheStore;
use crate::store::EntryModel;
use crate::store::contains_key;
use crate::store::entry_of;
use crate::store::unique_keys;
use crate::store::lemma_key_idx;
use crate::store::lemma_entry_of_member;

verus! {

/// Name for what `serde_json::from_str::<Value>` decides: whether the text
/// parses as one JSON value. The outcome is a function of the text alone.
pub uninterp spec fn json_well_formed(s: Seq<char>) -> bool;

/// Relies on serde_json::from_str::<serde_json::Value>, which tries to parse
/// the whole text as one JSON value: whether it succeeds depends on the text
/// alone, on nothing in the environment.
#[verifier::external_body]
fn json_check(s: &str) -> (r: bool)
    ensures
        r == json_well_formed(s@),
{
    serde_json::from_str::<serde_json::Value>(s).is_ok()
}

/// An ASCII whitespace character.
pub open spec fn spacelike(c: char) -> bool {
    c == ' ' || c == '\t' || c == '\n' || c == '\r'
}

/// A key that trims to nothing: every character is whitespace.
pub open spec fn is_blank(s: Seq<char>) -> bool {
    forall|i: int| 0 <= i < s.len() ==> spacelike(s[i])
}

/// Whether the key trims to nothing, in which case the lookup rejects it.
pub fn key_is_blank(key: &str) -> (b: bool)
    ensures
        b == is_blank(key@),
{
    let n = key.unicode_len();
    let mut i: usize = 0;
    while i < n
        invariant
            n == key@.len(),
            i <= n,
            forall|j: int| 0 <= j < i ==> spacelike(key@[j]),
        decreases n - i,
    {
        let c = key.get_char(i);
        if !(c == ' ' || c == '\t' || c == '\n' || c == '\r') {
            return false;
        }
        i += 1;
    }
    true
}

/// What probing the store for a key answers.
pub enum Probe {
    /// The key was rejected; no further work happens.
    Invalid(AppError),
    /// The key is cached; the stored payload is served as is.
    Hit(String),
    /// The key is absent; the caller goes to the upstream.
    Miss,
}

/// The mathematical image of a probe answer.
#[verifier::ext_equal]
pub enum ProbeModel {
    Invalid(ErrorModel),
    Hit(Seq<char>),
    Miss,
}

impl View for Probe {
    type V = ProbeModel;

    open spec fn view(&self) -> ProbeModel {
        match self {
            Probe::Invalid(e) => ProbeModel::Invalid(e@),
            Probe::Hit(p) => ProbeModel::Hit(p@),
            Probe::Miss => ProbeModel::Miss,
        }
    }
}

/// What a probe answers: a blank key is rejected with the fixed 400-class
/// message, a present key hits and serves the stored payload, an absent key
/// is a miss.
pub open spec fn probe_spec(s: Seq<EntryModel>, k: Seq<char>) -> ProbeModel {
    if is_blank(k) {
        ProbeModel::Invalid(
            ErrorModel { kind: ErrorKind::Validation, message: "Country name is required"@ },
        )
    } else if contains_key(s, k) {
        ProbeModel::Hit(entry_of(s, k).payload)
    } else {
        ProbeModel::Miss
    }
}

/// The first step of a lookup: an effect-free probe of the store.
pub fn lookup_probe(store: &CacheStore, key: &String) -> (p: Probe)
    requires
        store.wf(),
    ensures
        p@ == probe_spec(store@, key@),
{
    if key_is_blank(key.as_str()) {
        Probe::Invalid(AppError::bad_request("Country name is required"))
    } else {
        match store.get(key) {
            Some(e) => Probe::Hit(e.payload.clone()),
            None => Probe::Miss,
        }
    }
}

/// The upstream lookup URL for one key under one base URL.
pub open spec fn lookup_url(base: Seq<char>, name: Seq<char>) -> Seq<char> {
    base + "/v3.1/name/"@ + name
}

/// Builds the URL the upstream client fetches on a miss.
pub fn request_url(base: &str, name: &str) -> (r: String)
    ensures
        r@ == lookup_url(base@, name@),
{
    let mut u = String::from_str(base);
    u.append("/v3.1/name/");
    u.append(name);
    u
}

/// What processing the raw upstream answer yields: a non-success status is an
/// upstream failure carrying the status, a malformed body is a validation
/// failure, and otherwise the body is served verbatim.
pub open spec fn process_spec(status: nat, body: Seq<char>) -> Result<Seq<char>, ErrorModel> {
    if status != 200 {
        Err(
            ErrorModel {
                kind: ErrorKind::Upstream,
                message: upstream_failure_message(status, body),
            },
        )
    } else if !json_well_formed(body) {
        Err(
            ErrorModel {
                kind: ErrorKind::Validation,
                message: "Upstream returned a malformed payload"@,
            },
        )
    } else {
        Ok(body)
    }
}

/// Validates the raw upstream answer: HTTP-success semantics and a
/// well-formed serialized body.
pub fn process_upstream_response(status: u16, body: String) -> (r: Result<String, AppError>)
    ensures
        match r {
            Ok(p) => process_spec(status as nat, body@) == Ok::<Seq<char>, ErrorModel>(p@),
            Err(e) => process_spec(status as nat, body@) == Err::<Seq<char>, ErrorModel>(e@),
        },
{
    if status != 200 {
        Err(AppError::upstream_failure(status, body.as_str()))
    } else if !json_check(body.as_str()) {
        Err(AppError::bad_request("Upstream returned a malformed payload"))
    } else {
        Ok(body)
    }
}

/// What completing a miss does to the store and answers: on a validation or
/// upstream failure the store is untouched; on success the payload is served,
/// and recorded under the key with the current time unless the key appeared
/// meanwhile.
pub open spec fn complete_spec(
    s: Seq<EntryModel>,
    k: Seq<char>,
    status: nat,
    body: Seq<char>,
    now: int,
) -> (Seq<EntryModel>, Result<Seq<char>, ErrorModel>) {
    match process_spec(status, body) {
        Err(e) => (s, Err(e)),
        Ok(p) => if contains_key(s, k) {
            (s, Ok(p))
        } else {
            (s.push(EntryModel { key: k, payload: p, created_at: now }), Ok(p))
        },
    }
}

/// The second step of a lookup, after a miss: validate the raw upstream
/// answer, record the payload once under the key, and serve it. A failure
/// leaves the store untouched and no entry is ever overwritten.
pub fn lookup_complete(
    store: &mut CacheStore,
    key: &String,
    status: u16,
    body: String,
    now: i64,
) -> (r: Result<String, AppError>)
    requires
        old(store).wf(),
        !is_blank(key@),
    ensures
        final(store).wf(),
        final(store)@ == complete_spec(old(store)@, key@, status as nat, body@, now as int).0,
        match r {
            Ok(p) => complete_spec(old(store)@, key@, status as nat, body@, now as int).1
                == Ok::<Seq<char>, ErrorModel>(p@),
            Err(e) => complete_spec(old(store)@, key@, status as nat, body@, now as int).1
                == Err::<Seq<char>, ErrorModel>(e@),
        },
{
    match process_upstream_response(status, body) {
        Err(e) => Err(e),
        Ok(payload) => {
            if store.get(key).is_none() {
                store.insert(
                    CacheEntry { key: key.clone(), payload: payload.clone(), created_at: now },
                );
            }
            Ok(payload)
        },
    }
}

/// Read-through, first law: a never-before-seen key misses; completing the
/// miss with a successful, well-formed upstream answer records the payload
/// once, and a second lookup hits, serving the identical payload with no
/// further upstream call and the recorded time unchanged.
pub proof fn lemma_miss_then_hit(
    s: Seq<EntryModel>,
    k: Seq<char>,
    body: Seq<char>,
    now: int,
)
    requires
        unique_keys(s),
        !is_blank(k),
        !contains_key(s, k),
        json_well_formed(body),
    ensures
        probe_spec(s, k) == ProbeModel::Miss,
        complete_spec(s, k, 200, body, now).1 == Ok::<Seq<char>, ErrorModel>(body),
        complete_spec(s, k, 200, body, now).0 == s.push(
            EntryModel { key: k, payload: body, created_at: now },
        ),
        probe_spec(complete_spec(s, k, 200, body, now).0, k) == ProbeModel::Hit(body),
        entry_of(complete_spec(s, k, 200, body, now).0, k).created_at == now,
        unique_keys(complete_spec(s, k, 200, body, now).0),
{
    let e = EntryModel { key: k, payload: body, created_at: now };
    let s1 = s.push(e);
    assert(complete_spec(s, k, 200, body, now).0 == s1);
    lemma_key_idx(s, k);
    assert forall|i: int, j: int| 0 <= i < j < s1.len() implies s1[i].key != s1[j].key by {
        if j == s.len() {
            assert(s[i].key != k);
        }
    }
    lemma_entry_of_member(s1, k, s.len() as int);
}

/// Read-through, second law: a hit has no side effect on the store, so the
/// recorded payload and time read after any number of hits are the ones
/// recorded at insertion. A probe takes the store immutably; this law states
/// that a hit answers exactly the stored entry.
pub proof fn lemma_hit_serves_stored_entry(s: Seq<EntryModel>, k: Seq<char>)
    requires
        !is_blank(k),
        contains_key(s, k),
    ensures
        probe_spec(s, k) == ProbeModel::Hit(entry_of(s, k).payload),
{
}

/// Serving is independent of persistence: what a completed lookup answers is
/// exactly what processing the raw upstream answer yields, whatever the store
/// holds. The response is determined before the write, so a skipped write —
/// the durable one is best-effort — never changes or fails the request.
pub proof fn lemma_completion_serves_processed_answer(
    s: Seq<EntryModel>,
    k: Seq<char>,
    status: nat,
    body: Seq<char>,
    now: int,
)
    ensures
        complete_spec(s, k, status, body, now).1 == process_spec(status, body),
{
}

/// No update in place: completing a lookup for a key that is already stored
/// never touches the store, whatever the upstream answered — the payload and
/// the recorded time under the key stay those of the first insertion.
pub proof fn lemma_no_update_in_place(
    s: Seq<EntryModel>,
    k: Seq<char>,
    status: nat,
    body: Seq<char>,
    now: int,
)
    requires
        contains_key(s, k),
    ensures
        complete_spec(s, k, status, body, now).0 == s,
{
}

} // verus!
