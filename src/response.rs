//! Reading the two enrichment services' JSON answers into plain values, and
//! checking that a validator identity is a well-formed public key.
use crate::enrichment::LatencyRecord;
use vstd::prelude::*;

verus! {

#[verifier::external_type_specification]
#[verifier::external_body]
pub struct ExJsonValue(serde_json::Value);

/// A JSON value as plain data. A number keeps its value only when it is a
/// `u64`; an object keeps its members in the order the parser gave them.
pub enum Json {
    Null,
    Bool(bool),
    Number(Option<u64>),
    Str(String),
    Array(Vec<Json>),
    Object(Vec<(String, Json)>),
}

/// The text is accepted as JSON by the parser (well-formed, and nested no
/// deeper than the parser allows).
pub uninterp spec fn is_json_text(s: Seq<char>) -> bool;

/// The value that the parser reads from a text it accepts.
pub uninterp spec fn json_of(s: Seq<char>) -> Json;

/// The text is the base58 form of a 32-byte public key.
pub uninterp spec fn is_pubkey_text(s: Seq<char>) -> bool;

/// The first member named `key` among `fields`.
pub open spec fn field_of(fields: Seq<(String, Json)>, key: Seq<char>) -> Option<Json>
    decreases fields.len(),
{
    if fields.len() == 0 {
        None
    } else if fields[0].0@ == key {
        Some(fields[0].1)
    } else {
        field_of(fields.drop_first(), key)
    }
}

/// The member `key` of `j`, when `j` is an object that has one.
pub open spec fn member_of(j: Json, key: Seq<char>) -> Option<Json> {
    match j {
        Json::Object(fields) => field_of(fields@, key),
        _ => None,
    }
}

/// The elements of `j`, when it is an array.
pub open spec fn elements_of(j: Option<Json>) -> Option<Seq<Json>> {
    match j {
        Some(Json::Array(a)) => Some(a@),
        _ => None,
    }
}

/// The text of `j`, when it is a string.
pub open spec fn text_of(j: Option<Json>) -> Option<Seq<char>> {
    match j {
        Some(Json::Str(s)) => Some(s@),
        _ => None,
    }
}

/// The value of `j`, when it is a number that is a `u64`.
pub open spec fn u64_of(j: Option<Json>) -> Option<u64> {
    match j {
        Some(Json::Number(n)) => n,
        _ => None,
    }
}

/// The identities of the skip list in `j`: `data.validators[].identity_pubkey`.
pub open spec fn skip_list_of(j: Json) -> Option<Seq<Option<Seq<char>>>> {
    match member_of(j, "data"@) {
        Some(d) => match elements_of(member_of(d, "validators"@)) {
            Some(a) => Some(a.map_values(|e: Json| text_of(member_of(e, "identity_pubkey"@)))),
            None => None,
        },
        None => None,
    }
}

/// The leaderboard record that element `e` of `records[]` gives.
pub open spec fn record_of(e: Json) -> (Option<Seq<char>>, Option<u64>, Option<u64>) {
    (
        text_of(member_of(e, "nodeAddress"@)),
        u64_of(member_of(e, "totalLatency"@)),
        u64_of(member_of(e, "votedSlots"@)),
    )
}

/// The leaderboard records in `j`: `records[]`.
pub open spec fn records_of(j: Json) -> Option<Seq<(Option<Seq<char>>, Option<u64>, Option<u64>)>> {
    match elements_of(member_of(j, "records"@)) {
        Some(a) => Some(a.map_values(|e: Json| record_of(e))),
        None => None,
    }
}

/// The view of an optional string.
pub open spec fn opt_text(o: Option<String>) -> Option<Seq<char>> {
    match o {
        Some(s) => Some(s@),
        None => None,
    }
}

/// The view of a skip list as read.
pub open spec fn skip_list_view(l: Option<Vec<Option<String>>>) -> Option<Seq<Option<Seq<char>>>> {
    match l {
        Some(v) => Some(v@.map_values(|o: Option<String>| opt_text(o))),
        None => None,
    }
}

/// The view of one leaderboard record.
pub open spec fn latency_record_view(r: LatencyRecord) -> (Option<Seq<char>>, Option<u64>, Option<u64>) {
    (opt_text(r.node_address), r.total_latency, r.voted_slots)
}

/// The view of the leaderboard records as read.
pub open spec fn records_view(l: Option<Vec<LatencyRecord>>) -> Option<Seq<(Option<Seq<char>>, Option<u64>, Option<u64>)>> {
    match l {
        Some(v) => Some(v@.map_values(|r: LatencyRecord| latency_record_view(r))),
        None => None,
    }
}

/// Why an answer of a service could not be read.
pub enum ResponseError {
    /// The body is not JSON.
    MalformedJson,
}

/// Why the validator identity given was refused.
pub enum InputError {
    InvalidPubkey,
}

/// Relies on `serde_json::from_str::<Value>`: `Some` exactly on the text it
/// accepts, holding the value it reads.
#[verifier::external_body]
fn parse_json(text: &str) -> (r: Option<Json>)
    ensures
        r is Some == is_json_text(text@),
        r matches Some(j) ==> j == json_of(text@),
{
    match serde_json::from_str::<serde_json::Value>(text) {
        Ok(v) => Some(json_from_value(v)),
        Err(_) => None,
    }
}

/// Relies on the variants of `serde_json::Value` and on `Number::as_u64`:
/// moves a parsed value into `Json`, one variant for each.
#[verifier::external_body]
fn json_from_value(v: serde_json::Value) -> (r: Json) {
    match v {
        serde_json::Value::Null => Json::Null,
        serde_json::Value::Bool(b) => Json::Bool(b),
        serde_json::Value::Number(n) => Json::Number(n.as_u64()),
        serde_json::Value::String(s) => Json::Str(s),
        serde_json::Value::Array(a) => Json::Array(a.into_iter().map(json_from_value).collect()),
        serde_json::Value::Object(o) => Json::Object(o.into_iter().map(|(k, x)| (k, json_from_value(x))).collect()),
    }
}

/// Relies on `Pubkey::from_str` of solana-sdk: it accepts base58 text of a
/// 32-byte key, and refuses anything longer than 44 bytes.
#[verifier::external_body]
fn parses_as_pubkey(s: &str) -> (r: bool)
    ensures
        r == is_pubkey_text(s@),
        s@.len() > 44 ==> !r,
{
    <solana_sdk::pubkey::Pubkey as std::str::FromStr>::from_str(s).is_ok()
}

/// Accepts `identity` only when it is a well-formed public key.
pub fn check_validator_identity(identity: &str) -> (r: Result<(), InputError>)
    ensures
        r.is_ok() == is_pubkey_text(identity@),
        identity@.len() > 44 ==> r.is_err(),
{
    if parses_as_pubkey(identity) {
        Ok(())
    } else {
        Err(InputError::InvalidPubkey)
    }
}

/// The value behind an optional reference.
pub open spec fn deref_json(j: Option<&Json>) -> Option<Json> {
    match j {
        Some(x) => Some(*x),
        None => None,
    }
}

/// The first member named `key` among `fields`.
fn field<'a>(fields: &'a Vec<(String, Json)>, key: &String) -> (r: Option<&'a Json>)
    ensures
        deref_json(r) == field_of(fields@, key@),
{
    let n = fields.len();
    let mut i: usize = 0;
    assert(fields@.subrange(0, n as int) =~= fields@);
    while i < n
        invariant
            n == fields@.len(),
            i <= n,
            field_of(fields@, key@) == field_of(fields@.subrange(i as int, n as int), key@),
        decreases n - i,
    {
        let ghost rest = fields@.subrange(i as int, n as int);
        assert(rest[0] == fields@[i as int]);
        assert(rest.drop_first() =~= fields@.subrange(i + 1, n as int));
        if fields[i].0 == *key {
            return Some(&fields[i].1);
        }
        i = i + 1;
    }
    assert(fields@.subrange(n as int, n as int).len() == 0);
    None
}

/// The member `key` of `j`, when `j` is an object that has one.
fn member<'a>(j: Option<&'a Json>, key: &String) -> (r: Option<&'a Json>)
    ensures
        deref_json(r) == match deref_json(j) {
            Some(x) => member_of(x, key@),
            None => None,
        },
{
    match j {
        Some(Json::Object(fields)) => field(fields, key),
        _ => None,
    }
}

/// The elements of `j`, when it is an array.
fn elements<'a>(j: Option<&'a Json>) -> (r: Option<&'a Vec<Json>>)
    ensures
        match r {
            Some(a) => elements_of(deref_json(j)) == Some(a@),
            None => elements_of(deref_json(j)) is None,
        },
{
    match j {
        Some(Json::Array(a)) => Some(a),
        _ => None,
    }
}

/// The text of `j`, when it is a string.
fn text(j: Option<&Json>) -> (r: Option<String>)
    ensures
        opt_text(r) == text_of(deref_json(j)),
{
    match j {
        Some(Json::Str(s)) => Some(s.clone()),
        _ => None,
    }
}

/// The value of `j`, when it is a number that is a `u64`.
fn number(j: Option<&Json>) -> (r: Option<u64>)
    ensures
        r == u64_of(deref_json(j)),
{
    match j {
        Some(Json::Number(n)) => *n,
        _ => None,
    }
}

/// Reads the skip list, `data.validators[].identity_pubkey`. An error exactly
/// when the body is not JSON; `Ok(None)` when the list is missing; an entry
/// without a string identity is `None`.
pub fn parse_skip_list(body: &str) -> (r: Result<Option<Vec<Option<String>>>, ResponseError>)
    ensures
        !is_json_text(body@) ==> r is Err,
        is_json_text(body@) ==> (r matches Ok(l) && skip_list_view(l) == skip_list_of(json_of(body@))),
{
    let json = match parse_json(body) {
        Some(v) => v,
        None => return Err(ResponseError::MalformedJson),
    };
    let data = match member(Some(&json), &"data".to_owned()) {
        Some(d) => d,
        None => return Ok(None),
    };
    let list = match elements(member(Some(data), &"validators".to_owned())) {
        Some(a) => a,
        None => return Ok(None),
    };
    let key = "identity_pubkey".to_owned();
    let mut ids: Vec<Option<String>> = Vec::new();
    let mut i: usize = 0;
    while i < list.len()
        invariant
            i <= list.len(),
            key@ == "identity_pubkey"@,
            ids@.len() == i,
            forall|k: int| 0 <= k < i ==> opt_text(#[trigger] ids@[k]) == text_of(member_of(list@[k], key@)),
        decreases list.len() - i,
    {
        ids.push(text(member(Some(&list[i]), &key)));
        i = i + 1;
    }
    let r = Some(ids);
    assert(skip_list_view(r).unwrap() =~= list@.map_values(
        |e: Json| text_of(member_of(e, "identity_pubkey"@)),
    ));
    Ok(r)
}

/// Reads the leaderboard, `records[]` with `nodeAddress`, `totalLatency` and
/// `votedSlots`. An error exactly when the body is not JSON; `Ok(None)` when
/// the records are missing; a field that is absent or of another kind is `None`.
pub fn parse_latency_records(body: &str) -> (r: Result<Option<Vec<LatencyRecord>>, ResponseError>)
    ensures
        !is_json_text(body@) ==> r is Err,
        is_json_text(body@) ==> (r matches Ok(l) && records_view(l) == records_of(json_of(body@))),
{
    let json = match parse_json(body) {
        Some(v) => v,
        None => return Err(ResponseError::MalformedJson),
    };
    let list = match elements(member(Some(&json), &"records".to_owned())) {
        Some(a) => a,
        None => return Ok(None),
    };
    let address = "nodeAddress".to_owned();
    let total = "totalLatency".to_owned();
    let voted = "votedSlots".to_owned();
    let mut records: Vec<LatencyRecord> = Vec::new();
    let mut i: usize = 0;
    while i < list.len()
        invariant
            i <= list.len(),
            address@ == "nodeAddress"@,
            total@ == "totalLatency"@,
            voted@ == "votedSlots"@,
            records@.len() == i,
            forall|k: int| 0 <= k < i ==> latency_record_view(#[trigger] records@[k]) == record_of(list@[k]),
        decreases list.len() - i,
    {
        let item = Some(&list[i]);
        records.push(
            LatencyRecord {
                node_address: text(member(item, &address)),
                total_latency: number(member(item, &total)),
                voted_slots: number(member(item, &voted)),
            },
        );
        i = i + 1;
    }
    let r = Some(records);
    assert(records_view(r).unwrap() =~= list@.map_values(|e: Json| record_of(e)));
    Ok(r)
}

} // verus!
