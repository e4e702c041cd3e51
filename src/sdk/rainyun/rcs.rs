//! # Rainyun RCS
//!
//! Firewall rules of a cloud server. The API modifies one rule per call.
use vstd::prelude::*;

use crate::sdk::rainyun::util::{request_builder, rule_url, BasicRequest};
use crate::sdk::request::{headers_ok, HttpMethod, RequestError, SignedRequest};
use crate::util::{name_set, name_set_contents, pair_views, NameSet, str_eq};

verus! {

/// The rule list of a server.
#[derive(Debug)]
pub struct DescribeFirewallRulesResponse {
    pub records: Vec<Record>,
}

/// A firewall rule of a server; `description` names it.
#[derive(Debug)]
pub struct Record {
    pub id: u32,
    pub is_enable: bool,
    pub pos: u32,
    pub source_address: String,
    pub dest_port: String,
    pub protocol: String,
    pub action: String,
    pub description: String,
}

/// A firewall rule as plain values.
pub struct RecordView {
    pub id: u32,
    pub is_enable: bool,
    pub pos: u32,
    pub source_address: Seq<char>,
    pub dest_port: Seq<char>,
    pub protocol: Seq<char>,
    pub action: Seq<char>,
    pub description: Seq<char>,
}

impl View for Record {
    type V = RecordView;

    open spec fn view(&self) -> RecordView {
        RecordView {
            id: self.id,
            is_enable: self.is_enable,
            pos: self.pos,
            source_address: self.source_address@,
            dest_port: self.dest_port@,
            protocol: self.protocol@,
            action: self.action@,
            description: self.description@,
        }
    }
}

impl Clone for Record {
    fn clone(&self) -> (r: Self)
        ensures
            r == *self,
    {
        Record {
            id: self.id,
            is_enable: self.is_enable,
            pos: self.pos,
            source_address: self.source_address.clone(),
            dest_port: self.dest_port.clone(),
            protocol: self.protocol.clone(),
            action: self.action.clone(),
            description: self.description.clone(),
        }
    }
}

/// The views of a list of rules.
pub open spec fn record_views(records: Seq<Record>) -> Seq<RecordView> {
    records.map_values(|r: Record| r@)
}

/// A rule must change when it is managed, an address is given, and its
/// source differs from that address.
pub open spec fn needs_update(r: RecordView, ip: Seq<char>, names: Set<Seq<char>>) -> bool {
    names.contains(r.description) && ip.len() > 0 && r.source_address != ip
}

/// The rules that must change, in their order, each with its source set to
/// `ip`.
pub open spec fn records_to_update(
    records: Seq<RecordView>,
    ip: Seq<char>,
    names: Set<Seq<char>>,
) -> Seq<RecordView>
    decreases records.len(),
{
    if records.len() == 0 {
        seq![]
    } else {
        let before = records_to_update(records.drop_last(), ip, names);
        let r = records.last();
        if needs_update(r, ip, names) {
            before.push(RecordView { source_address: ip, ..r })
        } else {
            before
        }
    }
}

/// ### Compare rules
///
/// Returns the managed rules (those whose description is in
/// `matched_descriptions`) whose source differs from `current_ipv4`, with
/// the source replaced, and whether there is any. An empty `current_ipv4`
/// changes nothing.
pub fn compare_rules(
    records: &[Record],
    current_ipv4: &str,
    matched_descriptions: &[String],
) -> (r: (Vec<Record>, bool))
    ensures
        record_views(r.0@) == records_to_update(
            record_views(records@),
            current_ipv4@,
            name_set(matched_descriptions@),
        ),
        r.1 == (r.0@.len() > 0),
{
    let matched_set = NameSet::from_names(matched_descriptions);
    let ghost names = name_set(matched_descriptions@);
    let ghost all = record_views(records@);
    let mut require_update = false;
    let mut modified: Vec<Record> = Vec::new();
    let mut i: usize = 0;
    while i < records.len()
        invariant
            0 <= i <= records@.len(),
            all == record_views(records@),
            name_set_contents(matched_set) == names,
            record_views(modified@) == records_to_update(all.take(i as int), current_ipv4@, names),
            require_update == (modified@.len() > 0),
        decreases records@.len() - i,
    {
        let record = &records[i];
        assert(all.take(i + 1).drop_last() =~= all.take(i as int));
        assert(all.take(i + 1).last() == record@);
        if matched_set.contains(record.description.as_str()) && !current_ipv4.is_empty()
            && !str_eq(record.source_address.as_str(), current_ipv4) {
            let ghost before = modified@;
            let mut changed = record.clone();
            changed.source_address = current_ipv4.to_owned();
            modified.push(changed);
            require_update = true;
            assert(record_views(modified@) =~= record_views(before).push(changed@));
        }
        i = i + 1;
    }
    assert(all.take(records@.len() as int) =~= all);
    (modified, require_update)
}

} // verus!

verus! {

/// `x` is one of the rules, needing update, after its update.
pub open spec fn updated_from(
    x: RecordView,
    rules: Seq<RecordView>,
    ip: Seq<char>,
    names: Set<Seq<char>>,
) -> bool {
    exists|i: int|
        0 <= i < rules.len() && needs_update(rules[i], ip, names) && x == RecordView {
            source_address: ip,
            ..#[trigger] rules[i]
        }
}

proof fn lemma_updates_from(rules: Seq<RecordView>, ip: Seq<char>, names: Set<Seq<char>>)
    ensures
        forall|j: int|
            0 <= j < records_to_update(rules, ip, names).len() ==> updated_from(
                #[trigger] records_to_update(rules, ip, names)[j],
                rules,
                ip,
                names,
            ),
    decreases rules.len(),
{
    if rules.len() > 0 {
        let d = rules.drop_last();
        lemma_updates_from(d, ip, names);
        let out = records_to_update(rules, ip, names);
        let before = records_to_update(d, ip, names);
        assert forall|j: int| 0 <= j < out.len() implies updated_from(
            #[trigger] out[j],
            rules,
            ip,
            names,
        ) by {
            if j < before.len() {
                assert(out[j] == before[j]);
                assert(updated_from(before[j], d, ip, names));
                let i = choose|i: int|
                    0 <= i < d.len() && needs_update(d[i], ip, names) && before[j] == RecordView {
                        source_address: ip,
                        ..#[trigger] d[i]
                    };
                assert(rules[i] == d[i]);
            } else {
                assert(needs_update(rules.last(), ip, names));
                assert(out[j] == RecordView { source_address: ip, ..rules[rules.len() - 1] });
            }
        }
    }
}

proof fn lemma_no_updates(rules: Seq<RecordView>, ip: Seq<char>, names: Set<Seq<char>>)
    requires
        forall|i: int| 0 <= i < rules.len() ==> !needs_update(#[trigger] rules[i], ip, names),
    ensures
        records_to_update(rules, ip, names).len() == 0,
    decreases rules.len(),
{
    if rules.len() > 0 {
        let d = rules.drop_last();
        assert forall|i: int| 0 <= i < d.len() implies !needs_update(#[trigger] d[i], ip, names) by {
            assert(d[i] == rules[i]);
        }
        lemma_no_updates(d, ip, names);
        assert(!needs_update(rules[rules.len() - 1], ip, names));
    }
}

/// Comparing again with the same address changes nothing: the rules
/// returned by a comparison need no further update.
pub proof fn lemma_compare_rules_converges(rules: Seq<RecordView>, ip: Seq<char>, names: Set<Seq<char>>)
    ensures
        records_to_update(records_to_update(rules, ip, names), ip, names).len() == 0,
{
    let out = records_to_update(rules, ip, names);
    lemma_updates_from(rules, ip, names);
    assert forall|j: int| 0 <= j < out.len() implies !needs_update(#[trigger] out[j], ip, names) by {
        assert(updated_from(out[j], rules, ip, names));
    }
    lemma_no_updates(out, ip, names);
}

/// Only managed rules are ever returned for update: each returned rule's
/// description is one of the names.
pub proof fn lemma_compare_rules_managed_only(rules: Seq<RecordView>, ip: Seq<char>, names: Set<Seq<char>>)
    ensures
        forall|j: int|
            0 <= j < records_to_update(rules, ip, names).len() ==> names.contains((#[trigger] records_to_update(rules, ip, names)[j]).description),
{
    lemma_updates_from(rules, ip, names);
    let out = records_to_update(rules, ip, names);
    assert forall|j: int| 0 <= j < out.len() implies names.contains((#[trigger] out[j]).description) by {
        assert(updated_from(out[j], rules, ip, names));
    }
}

} // verus!

verus! {

// ---------------------------------------------------------------------------
// Requests
/// `r` is the outcome of building a request to the rule URL of a server
/// with the API key: the request when the key is an accepted header value,
/// else that error.
pub open spec fn built_as(
    r: Result<SignedRequest, RequestError>,
    method: HttpMethod,
    instance_id: Seq<char>,
    token: Seq<char>,
    query: Seq<char>,
    payload: Seq<char>,
) -> bool {
    let headers = seq![("x-api-key"@, token)];
    match r {
        Ok(req) => {
            &&& headers_ok(headers)
            &&& req.method == method
            &&& req.url@ == rule_url(instance_id, query)
            &&& pair_views(req.headers@) == headers
            &&& req.query@.len() == 0
            &&& req.body@ == payload
        },
        Err(e) => e == RequestError::InvalidHeaderValue && !headers_ok(headers),
    }
}

/// ### Request the rule list
///
/// `GET` of the rule URL with `?options=null`.
pub fn list_rules_request(instance_id: &str, token: &str) -> (r: Result<SignedRequest, RequestError>)
    ensures
        built_as(r, HttpMethod::Get, instance_id@, token@, "?options=null"@, ""@),
{
    request_builder(
        BasicRequest {
            payload: String::from_str(""),
            method: HttpMethod::Get,
            query: Some(String::from_str("?options=null")),
            instance_id,
            token,
        },
    )
}

/// ### Request a rule change
///
/// `POST` of one rule, as JSON in `payload`, to the rule URL; the API takes
/// one rule per request.
pub fn modify_rule_request(instance_id: &str, token: &str, payload: String) -> (r: Result<
    SignedRequest,
    RequestError,
>)
    ensures
        built_as(r, HttpMethod::Post, instance_id@, token@, ""@, payload@),
{
    let r = request_builder(
        BasicRequest { payload, method: HttpMethod::Post, query: None, instance_id, token },
    );
    assert(Seq::<char>::empty() =~= ""@) by {
        reveal_strlit("");
    }
    r
}

} // verus!
