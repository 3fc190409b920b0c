//! A proposal states what the accepted records say, all of it and nothing else.

use crate::bag::gathered_from;
use crate::generate::coherence::key_borne;
use crate::generate::conflicts::{
    clashes, contested, contested_lines, fact_keys, facts_conflict, run_lines, subjects_conflict,
};
use crate::generate::bundle::{checked_bundle, values_of};
use crate::generate::fields::{refused, FaultModel};
use crate::generate::parse::{parsed_bundle, parsed_line, BundleLine, Parsed};
use crate::generate::propose::{
    access_candidate, bearing_scopes, bearing_sources, bears, camera_candidates, cameras,
    candidates_of, capability_keys, descriptor_candidate, distinct_profiles, first_given,
    first_labels, label_candidate, operation_candidate, operation_candidates, profile_candidate,
    topic_key, with_labels, with_profiles, with_properties, with_property, CameraKey, CapabilityKey,
    CapabilityModel, Part, Topic,
};
use crate::generate::report::{accepted_headers, accepted_records, checked_lines, judged_lines};
use crate::generate::verdict::{
    accepted_line, accepted_record, coded, codes_apart, headers_gathered, line_coded, line_header,
    nothing_rejected, proposed_from, records_gathered, spot, spot_found, spot_holds,
};
use crate::generate::claims::ProfileModel;
use crate::generate::write::{
    label_models, profiles_of, scopes_of, AssertionModel, CandidateModel, LabelModel,
};
use crate::text::views;
use crate::generate::{CandidateAssertion, Proposal, ProposalCandidate};
use crate::observation::{
    BundleHeader, CapabilityRecord, CapabilityValueProfile, ExecutionContext, ObservationLine,
};
use crate::order::{arranged, arranged_is_sorted, entered_rises, keys_rise, models_of, Keyed};
use vstd::prelude::*;

verus! {

/// Whether line `k` of bundle `b` decodes to a record.
pub open spec fn decodes_to(
    bundles: Seq<Vec<BundleLine>>,
    b: int,
    k: int,
    line: ObservationLine,
) -> bool {
    &&& 0 <= b < bundles.len()
    &&& 0 <= k < bundles[b]@.len()
    &&& bundles[b]@[k].decoded == Ok::<ObservationLine, String>(line)
}

/// The records that are accepted, in their order.
spec fn records_in(bundles: Seq<Vec<BundleLine>>) -> Seq<ObservationLine> {
    arranged::<ObservationLine>(
        accepted_records(judged_lines(bundles), judged_lines(bundles).len() as int),
    )
}

/// The headers that are accepted, in their order.
spec fn headers_in(bundles: Seq<Vec<BundleLine>>) -> Seq<BundleHeader> {
    arranged::<BundleHeader>(
        accepted_headers(judged_lines(bundles), judged_lines(bundles).len() as int),
    )
}

/// A line of an accepted bundle holds what it decodes to.
proof fn line_holds(bundles: Seq<Vec<BundleLine>>, p: Proposal, b: int, k: int, line: ObservationLine)
    requires
        proposed_from(p, bundles),
        decodes_to(bundles, b, k, line),
    ensures
        0 <= spot(bundles, b, k) < judged_lines(bundles).len(),
        judged_lines(bundles)[spot(bundles, b, k)].value == Some(line),
        judged_lines(bundles)[spot(bundles, b, k)].faults.len() == 0,
{
    spot_holds(bundles, b, k);
    let i = spot(bundles, b, k);
    accepted_line(bundles, i);
    let lines = judged_lines(bundles);
    nothing_rejected(lines, lines.len() as int, i);
    let parsed = parsed_bundle(bundles[b]@);
    assert(parsed[k] == parsed_line(bundles[b]@[k]));
    assert(checked_lines(bundles)[i].value == parsed[k].value);
    faults_only_grow(bundles[b]@, k);
}

/// Checking a line against its bundle drops no fault.
proof fn faults_only_grow(lines: Seq<BundleLine>, k: int)
    requires
        0 <= k < lines.len(),
        checked_bundle(parsed_bundle(lines))[k].faults.len() == 0,
    ensures
        parsed_line(lines[k]).faults.len() == 0,
{
    let parsed = parsed_bundle(lines);
    codes_apart();
    assert(coded(parsed[k].faults));
    line_coded(values_of(parsed), k, parsed[k].faults);
}

/// What an accepted line decodes to is among the records.
proof fn record_listed(bundles: Seq<Vec<BundleLine>>, p: Proposal, b: int, k: int, line: ObservationLine)
    requires
        proposed_from(p, bundles),
        decodes_to(bundles, b, k, line),
        line !is BundleHeader,
    ensures
        records_in(bundles).contains(line),
{
    broadcast use vstd::seq_lib::group_to_multiset_ensures;

    let lines = judged_lines(bundles);
    line_holds(bundles, p, b, k, line);
    record_gathered(lines, lines.len() as int, spot(bundles, b, k));
    let all = accepted_records(lines, lines.len() as int);
    arranged_is_sorted::<ObservationLine>(all);
    assert(all.to_multiset().count(line) > 0);
    assert(records_in(bundles).to_multiset().count(line) > 0);
}

/// The record of an accepted line is among those of all lines.
proof fn record_gathered(lines: Seq<Parsed>, n: int, i: int)
    requires
        0 <= i < n <= lines.len(),
        lines[i].value is Some,
        lines[i].value->0 !is BundleHeader,
        lines[i].faults.len() == 0,
    ensures
        accepted_records(lines, n).contains(lines[i].value->0),
    decreases n,
{
    let front = accepted_records(lines, n - 1);
    let all = accepted_records(lines, n);
    if i == n - 1 {
        assert(all[front.len() as int] == lines[i].value->0);
    } else {
        record_gathered(lines, n - 1, i);
        let j = front.index_of(lines[i].value->0);
        assert(all[j] == front[j]);
    }
}

/// The header of an accepted line is among those of all lines.
proof fn header_gathered(lines: Seq<Parsed>, n: int, i: int, h: BundleHeader)
    requires
        0 <= i < n <= lines.len(),
        lines[i].value == Some(ObservationLine::BundleHeader(h)),
        lines[i].faults.len() == 0,
    ensures
        accepted_headers(lines, n).contains(h),
    decreases n,
{
    let front = accepted_headers(lines, n - 1);
    let all = accepted_headers(lines, n);
    if i == n - 1 {
        assert(all[front.len() as int] == h);
    } else {
        header_gathered(lines, n - 1, i, h);
        let j = front.index_of(h);
        assert(all[j] == front[j]);
    }
}

/// What is judged is what a line decodes to.
proof fn judged_decodes(bundles: Seq<Vec<BundleLine>>, i: int) -> (r: (int, int))
    requires
        0 <= i < judged_lines(bundles).len(),
        judged_lines(bundles)[i].value is Some,
    ensures
        decodes_to(bundles, r.0, r.1, judged_lines(bundles)[i].value->0),
{
    let (b, k) = spot_found(bundles, i);
    spot_holds(bundles, b, k);
    let parsed = parsed_bundle(bundles[b]@);
    assert(checked_lines(bundles)[i].value == judged_lines(bundles)[i].value);
    assert(checked_lines(bundles)[i].value == parsed[k].value);
    assert(bundles[b]@.len() > 0);
    assert(parsed[k] == parsed_line(bundles[b]@[k]));
    (b, k)
}

/// A record is what some line decodes to.
proof fn record_decoded(bundles: Seq<Vec<BundleLine>>, line: ObservationLine) -> (r: (int, int))
    requires
        records_in(bundles).contains(line),
    ensures
        decodes_to(bundles, r.0, r.1, line),
{
    broadcast use vstd::seq_lib::group_to_multiset_ensures;

    let lines = judged_lines(bundles);
    let n = lines.len() as int;
    let all = accepted_records(lines, n);
    arranged_is_sorted::<ObservationLine>(all);
    assert(records_in(bundles).to_multiset().count(line) > 0);
    assert(all.contains(line));
    records_gathered(lines, n);
    assert(lines.take(n) == lines);
    let i = gathered_from(lines, |l: Parsed| accepted_record(l), line);
    assert(accepted_record(lines[i]).contains(line));
    judged_decodes(bundles, i)
}

/// A header is what some line decodes to.
proof fn header_decoded(bundles: Seq<Vec<BundleLine>>, h: BundleHeader) -> (r: (int, int))
    requires
        headers_in(bundles).contains(h),
    ensures
        decodes_to(bundles, r.0, r.1, ObservationLine::BundleHeader(h)),
{
    broadcast use vstd::seq_lib::group_to_multiset_ensures;

    let lines = judged_lines(bundles);
    let n = lines.len() as int;
    let all = accepted_headers(lines, n);
    arranged_is_sorted::<BundleHeader>(all);
    assert(headers_in(bundles).to_multiset().count(h) > 0);
    assert(all.contains(h));
    headers_gathered(lines, n);
    assert(lines.take(n) == lines);
    let i = gathered_from(lines, |l: Parsed| line_header(l), h);
    assert(line_header(lines[i]).contains(h));
    judged_decodes(bundles, i)
}

/// A refusal that leaves no fault was none.
proof fn nothing_refused(f: Seq<FaultModel>, broken: bool, code: Seq<char>, message: Seq<char>)
    requires
        refused(f, broken, code, message).len() == 0,
    ensures
        !broken,
        f.len() == 0,
{
}

/// Facts of accepted lines on one property do not conflict, in one scope or across scopes.
proof fn accepted_facts_agree(
    bundles: Seq<Vec<BundleLine>>,
    p: Proposal,
    i: int,
    j: int,
    x: Box<CapabilityRecord>,
    y: Box<CapabilityRecord>,
)
    requires
        proposed_from(p, bundles),
        0 <= i < j < judged_lines(bundles).len(),
        judged_lines(bundles)[i].value == Some(ObservationLine::Capability(x)),
        judged_lines(bundles)[j].value == Some(ObservationLine::Capability(y)),
        x.subject is Property,
        y.subject is Property,
        x.subject->Property_code@ == y.subject->Property_code@,
    ensures
        !subjects_conflict(x.subject, y.subject),
{
    let start = run_lines(checked_lines(bundles));
    let lines = judged_lines(bundles);
    let middle = contested_lines(
        start,
        true,
        "O400"@,
        "conflicting capability fact in one exact scope"@,
    );
    let v = values_of(start);
    assert(values_of(middle) =~= v);
    nothing_rejected(lines, lines.len() as int, i);
    nothing_refused(
        middle[i].faults,
        contested(values_of(middle), false, i),
        "O401"@,
        "capability facts conflict across scopes that the manifest cannot represent"@,
    );
    nothing_refused(
        start[i].faults,
        contested(v, true, i),
        "O400"@,
        "conflicting capability fact in one exact scope"@,
    );
    assert(v[i] == Some(ObservationLine::Capability(x)));
    assert(v[j] == Some(ObservationLine::Capability(y)));
    let scoped = x.common.context@ == y.common.context@;
    let keys = fact_keys(v, scoped);
    assert(keys[i] is Some && keys[i] == keys[j]);
    assert(!contested(v, scoped, i));
    assert(!clashes(v, scoped, i)) by {
        assert(keys[i] == keys[i]);
    }
    assert(!facts_conflict(v[i], v[j], scoped));
}

/// Whether a record is on the property, supported or not.
pub open spec fn on_property(line: ObservationLine, code: Seq<char>, supported: bool) -> bool {
    line matches ObservationLine::Capability(r) && r.subject is Property
        && r.subject->Property_code@ == code && r.subject->Property_supported == supported
}

/// Whether a record is on the operation, supported or not.
pub open spec fn on_operation(line: ObservationLine, code: Seq<char>, supported: bool) -> bool {
    line matches ObservationLine::Capability(r) && r.subject is Operation
        && r.subject->Operation_code@ == code && r.subject->Operation_supported == supported
}

/// What bears on a property is on it.
proof fn bearing_is_on(line: ObservationLine, key: CapabilityModel)
    ensures
        bears(line, Topic::Property, key, Part::Capability) == on_property(line, key.0, key.1),
        bears(line, Topic::Operation, key, Part::Capability) == on_operation(line, key.0, key.1),
        (topic_key(line, Topic::Property) == Some(key)) == on_property(line, key.0, key.1),
        (topic_key(line, Topic::Operation) == Some(key)) == on_operation(line, key.0, key.1),
{
}

/// The type that records give a property is that of one of them, and there is one where one of them
/// gives one; the same holds of the access and of the descriptor.
proof fn first_given_is_given(records: Seq<ObservationLine>, key: CapabilityModel, n: int)
    requires
        0 <= n <= records.len(),
    ensures
        ({
            let g = first_given(records, key, n);
            &&& g.0 is Some ==> exists|i: int|
                0 <= i < n && on_property(#[trigger] records[i], key.0, key.1) && (
                records[i]->Capability_0.subject->property_type matches Some(t) && t@ == g.0->0)
            &&& g.1 is Some ==> exists|i: int|
                0 <= i < n && on_property(#[trigger] records[i], key.0, key.1) && (
                records[i]->Capability_0.subject->access matches Some(t) && t@ == g.1->0)
            &&& g.2 is Some ==> exists|i: int|
                0 <= i < n && on_property(#[trigger] records[i], key.0, key.1) && (
                records[i]->Capability_0.subject->descriptor matches Some(d) && d@ == g.2->0)
            &&& forall|i: int|
                0 <= i < n && on_property(#[trigger] records[i], key.0, key.1) ==> {
                    let s = records[i]->Capability_0.subject;
                    &&& s->property_type is Some ==> g.0 is Some
                    &&& s->access is Some ==> g.1 is Some
                    &&& s->descriptor is Some ==> g.2 is Some
                }
        }),
    decreases n,
{
    if n > 0 {
        first_given_is_given(records, key, n - 1);
        bearing_is_on(records[n - 1], key);
        let f = first_given(records, key, n - 1);
        let g = first_given(records, key, n);
        let last = records[n - 1];
        if g.0 is Some && f.0 is Some {
            let i = choose|i: int|
                0 <= i < n - 1 && on_property(#[trigger] records[i], key.0, key.1) && (
                records[i]->Capability_0.subject->property_type matches Some(t) && t@ == f.0->0);
            assert(on_property(records[i], key.0, key.1));
        }
        if g.1 is Some && f.1 is Some {
            let i = choose|i: int|
                0 <= i < n - 1 && on_property(#[trigger] records[i], key.0, key.1) && (
                records[i]->Capability_0.subject->access matches Some(t) && t@ == f.1->0);
            assert(on_property(records[i], key.0, key.1));
        }
        if g.2 is Some && f.2 is Some {
            let i = choose|i: int|
                0 <= i < n - 1 && on_property(#[trigger] records[i], key.0, key.1) && (
                records[i]->Capability_0.subject->descriptor matches Some(d) && d@ == f.2->0);
            assert(on_property(records[i], key.0, key.1));
        }
        assert(on_property(last, key.0, key.1) || g == f);
    }
}

/// The keys of capabilities are those of the records.
proof fn key_listed(records: Seq<ObservationLine>, topic: Topic, n: int, i: int)
    requires
        0 <= i < n <= records.len(),
        topic_key(records[i], topic) is Some,
    ensures
        capability_keys(records, topic, n).contains(topic_key(records[i], topic)->0),
    decreases n,
{
    let key = topic_key(records[i], topic)->0;
    let front = capability_keys(records, topic, n - 1);
    let all = capability_keys(records, topic, n);
    key_borne(records, topic, n - 1);
    match topic_key(records[n - 1], topic) {
        Some(last) => {
            entered_rises::<CapabilityKey>(front, last);
            if i == n - 1 {
                let j = choose|j: int|
                    0 <= j < all.len() && CapabilityKey::key_of(#[trigger] all[j])
                        == CapabilityKey::key_of(key);
                assert(all[j] == key);
            } else {
                key_listed(records, topic, n - 1, i);
                let j = front.index_of(key);
                assert(all.contains(front[j]));
            }
        },
        None => {
            key_listed(records, topic, n - 1, i);
        },
    }
}

/// Where a capability was observed.
spec fn context_of(line: ObservationLine) -> (Seq<char>, Seq<char>, Seq<char>) {
    let c = line->Capability_0.common.context;
    (c.connection@, c.mode@, c.state@)
}

/// Who a capability record is.
spec fn identity_of(line: ObservationLine) -> Seq<char> {
    let c = line->Capability_0.common;
    c.run_id@ + ":"@ + c.record_id@
}

/// The scopes of a candidate are the contexts of the records that bear on it.
proof fn scopes_listed(
    records: Seq<ObservationLine>,
    topic: Topic,
    key: CapabilityModel,
    part: Part,
    n: int,
)
    requires
        0 <= n <= records.len(),
    ensures
        keys_rise::<ExecutionContext>(bearing_scopes(records, topic, key, part, n)),
        forall|i: int|
            0 <= i < n && bears(#[trigger] records[i], topic, key, part) ==> bearing_scopes(
                records,
                topic,
                key,
                part,
                n,
            ).contains(context_of(records[i])),
        forall|k: int|
            0 <= k < bearing_scopes(records, topic, key, part, n).len() ==> exists|i: int|
                0 <= i < n && bears(#[trigger] records[i], topic, key, part) && context_of(records[i])
                    == #[trigger] bearing_scopes(records, topic, key, part, n)[k],
    decreases n,
{
    if n > 0 {
        scopes_listed(records, topic, key, part, n - 1);
        let front = bearing_scopes(records, topic, key, part, n - 1);
        let all = bearing_scopes(records, topic, key, part, n);
        let last = context_of(records[n - 1]);
        let borne = bears(records[n - 1], topic, key, part);
        if borne {
            entered_rises::<ExecutionContext>(front, last);
            let j = choose|j: int|
                0 <= j < all.len() && ExecutionContext::key_of(#[trigger] all[j]) == ExecutionContext::key_of(last);
            assert(all[j] == last);
        }
        assert forall|i: int| 0 <= i < n && bears(#[trigger] records[i], topic, key, part) implies
            all.contains(context_of(records[i])) by {
            if i < n - 1 && borne {
                let x = front.index_of(context_of(records[i]));
                assert(all.contains(front[x]));
            }
        }
        assert forall|k: int| 0 <= k < all.len() implies exists|i: int|
            0 <= i < n && bears(#[trigger] records[i], topic, key, part) && context_of(records[i])
                == #[trigger] all[k] by {
            if !borne || front.contains(all[k]) {
                let x = front.index_of(all[k]);
                assert(front[x] == all[k]);
                let i = choose|i: int|
                    0 <= i < n - 1 && bears(#[trigger] records[i], topic, key, part) && context_of(
                        records[i],
                    ) == front[x];
                assert(bears(records[i], topic, key, part));
            } else {
                assert(all[k] == last);
                assert(borne);
            }
        }
    }
}

/// The sources of a candidate are the identities of the records that bear on it.
proof fn sources_listed(
    records: Seq<ObservationLine>,
    topic: Topic,
    key: CapabilityModel,
    part: Part,
    n: int,
)
    requires
        0 <= n <= records.len(),
    ensures
        keys_rise::<String>(bearing_sources(records, topic, key, part, n)),
        forall|i: int|
            0 <= i < n && bears(#[trigger] records[i], topic, key, part) ==> bearing_sources(
                records,
                topic,
                key,
                part,
                n,
            ).contains(identity_of(records[i])),
        forall|k: int|
            0 <= k < bearing_sources(records, topic, key, part, n).len() ==> exists|i: int|
                0 <= i < n && bears(#[trigger] records[i], topic, key, part) && identity_of(records[i])
                    == #[trigger] bearing_sources(records, topic, key, part, n)[k],
    decreases n,
{
    if n > 0 {
        sources_listed(records, topic, key, part, n - 1);
        let front = bearing_sources(records, topic, key, part, n - 1);
        let all = bearing_sources(records, topic, key, part, n);
        let last = identity_of(records[n - 1]);
        let borne = bears(records[n - 1], topic, key, part);
        if borne {
            entered_rises::<String>(front, last);
            let j = choose|j: int|
                0 <= j < all.len() && String::key_of(#[trigger] all[j]) == String::key_of(last);
            assert(all[j] == last);
        }
        assert forall|i: int| 0 <= i < n && bears(#[trigger] records[i], topic, key, part) implies
            all.contains(identity_of(records[i])) by {
            if i < n - 1 && borne {
                let x = front.index_of(identity_of(records[i]));
                assert(all.contains(front[x]));
            }
        }
        assert forall|k: int| 0 <= k < all.len() implies exists|i: int|
            0 <= i < n && bears(#[trigger] records[i], topic, key, part) && identity_of(records[i])
                == #[trigger] all[k] by {
            if !borne || front.contains(all[k]) {
                let x = front.index_of(all[k]);
                assert(front[x] == all[k]);
                let i = choose|i: int|
                    0 <= i < n - 1 && bears(#[trigger] records[i], topic, key, part) && identity_of(
                        records[i],
                    ) == front[x];
                assert(bears(records[i], topic, key, part));
            } else {
                assert(all[k] == last);
                assert(borne);
            }
        }
    }
}

/// Whether a candidate is one of the four on a property.
spec fn about_property(
    c: CandidateModel,
    records: Seq<ObservationLine>,
    key: CapabilityModel,
) -> bool {
    let n = records.len() as int;
    ||| c == access_candidate(records, key)
    ||| c == descriptor_candidate(records, key) && first_given(records, key, n).2 is Some
    ||| c == label_candidate(records, key) && first_labels(records, key, n).len() > 0
    ||| c == profile_candidate(records, key) && distinct_profiles(records, key, n).len() > 0
}

/// The candidates of properties are those on each property, behind the others.
proof fn properties_listed(c: Seq<CandidateModel>, records: Seq<ObservationLine>, i: int)
    requires
        0 <= i,
    ensures
        ({
            let keys = capability_keys(records, Topic::Property, records.len() as int);
            let n = records.len() as int;
            let all = with_properties(c, records, i);
            &&& forall|k: int| 0 <= k < c.len() ==> all.contains(#[trigger] c[k])
            &&& forall|k: int|
                i <= k < keys.len() ==> {
                    let key = #[trigger] keys[k];
                    &&& all.contains(access_candidate(records, key))
                    &&& first_given(records, key, n).2 is Some ==> all.contains(
                        descriptor_candidate(records, key),
                    )
                    &&& first_labels(records, key, n).len() > 0 ==> all.contains(
                        label_candidate(records, key),
                    )
                    &&& distinct_profiles(records, key, n).len() > 0 ==> all.contains(
                        profile_candidate(records, key),
                    )
                }
            &&& forall|j: int|
                0 <= j < all.len() ==> c.contains(#[trigger] all[j]) || exists|k: int|
                    i <= k < keys.len() && about_property(all[j], records, #[trigger] keys[k])
        }),
    decreases capability_keys(records, Topic::Property, records.len() as int).len() - i,
{
    let keys = capability_keys(records, Topic::Property, records.len() as int);
    let n = records.len() as int;
    let all = with_properties(c, records, i);
    if i < keys.len() {
        let key = keys[i];
        let d = with_property(c, records, key);
        arranged_is_sorted::<CapabilityValueProfile>(distinct_profiles(records, key, n));
        properties_listed(d, records, i + 1);
        property_listed(c, records, key);
        assert(all == with_properties(d, records, i + 1));
        assert forall|k: int| 0 <= k < c.len() implies all.contains(#[trigger] c[k]) by {
            let x = d.index_of(c[k]);
            assert(all.contains(d[x]));
        }
        assert forall|k: int| i <= k < keys.len() implies {
            let key = #[trigger] keys[k];
            &&& all.contains(access_candidate(records, key))
            &&& first_given(records, key, n).2 is Some ==> all.contains(
                descriptor_candidate(records, key),
            )
            &&& first_labels(records, key, n).len() > 0 ==> all.contains(
                label_candidate(records, key),
            )
            &&& distinct_profiles(records, key, n).len() > 0 ==> all.contains(
                profile_candidate(records, key),
            )
        } by {
            if k == i {
                let x = d.index_of(access_candidate(records, key));
                assert(all.contains(d[x]));
                if first_given(records, key, n).2 is Some {
                    let x = d.index_of(descriptor_candidate(records, key));
                    assert(all.contains(d[x]));
                }
                if first_labels(records, key, n).len() > 0 {
                    let x = d.index_of(label_candidate(records, key));
                    assert(all.contains(d[x]));
                }
                if distinct_profiles(records, key, n).len() > 0 {
                    let x = d.index_of(profile_candidate(records, key));
                    assert(all.contains(d[x]));
                }
            }
        }
        assert forall|j: int| 0 <= j < all.len() implies c.contains(#[trigger] all[j]) || exists|
            k: int,
        |
            i <= k < keys.len() && about_property(all[j], records, #[trigger] keys[k]) by {
            if d.contains(all[j]) {
                let x = d.index_of(all[j]);
                assert(c.contains(d[x]) || about_property(d[x], records, keys[i]));
            } else {
                let k = choose|k: int|
                    i + 1 <= k < keys.len() && about_property(all[j], records, #[trigger] keys[k]);
                assert(about_property(all[j], records, keys[k]));
            }
        }
    } else {
        assert(all == c);
    }
}

/// The candidates of one property stand behind the others.
proof fn property_listed(
    c: Seq<CandidateModel>,
    records: Seq<ObservationLine>,
    key: CapabilityModel,
)
    ensures
        ({
            let n = records.len() as int;
            let d = with_property(c, records, key);
            &&& forall|k: int| 0 <= k < c.len() ==> d.contains(#[trigger] c[k])
            &&& d.contains(access_candidate(records, key))
            &&& first_given(records, key, n).2 is Some ==> d.contains(
                descriptor_candidate(records, key),
            )
            &&& first_labels(records, key, n).len() > 0 ==> d.contains(
                label_candidate(records, key),
            )
            &&& distinct_profiles(records, key, n).len() > 0 ==> d.contains(
                profile_candidate(records, key),
            )
            &&& forall|k: int|
                0 <= k < d.len() ==> c.contains(#[trigger] d[k]) || about_property(
                    d[k],
                    records,
                    key,
                )
        }),
{
    let n = records.len() as int;
    let d = with_property(c, records, key);
    arranged_is_sorted::<CapabilityValueProfile>(distinct_profiles(records, key, n));
    assert forall|k: int| 0 <= k < c.len() implies d.contains(#[trigger] c[k]) by {
        assert(d[k] == c[k]);
    }
    let a = c.len() as int;
    assert(d[a] == access_candidate(records, key));
    let b = if first_given(records, key, n).2 is Some {
        a + 1
    } else {
        a
    };
    if first_given(records, key, n).2 is Some {
        assert(d[a + 1] == descriptor_candidate(records, key));
    }
    let e = if first_labels(records, key, n).len() > 0 {
        b + 1
    } else {
        b
    };
    if first_labels(records, key, n).len() > 0 {
        assert(d[b + 1] == label_candidate(records, key));
    }
    if distinct_profiles(records, key, n).len() > 0 {
        assert(d[e + 1] == profile_candidate(records, key));
    }
    assert forall|k: int| 0 <= k < d.len() implies c.contains(#[trigger] d[k]) || about_property(
        d[k],
        records,
        key,
    ) by {
        if k < c.len() {
            assert(d[k] == c[k]);
        }
    }
}

/// Putting entries into labels keeps the labels and adds those of values that they do not name.
proof fn labels_put_in(v: Seq<LabelModel>, entries: Seq<(String, String)>, n: int)
    requires
        keys_rise::<(String, String)>(v),
        0 <= n <= entries.len(),
    ensures
        keys_rise::<(String, String)>(with_labels(v, entries, n)),
        forall|i: int| 0 <= i < v.len() ==> with_labels(v, entries, n).contains(#[trigger] v[i]),
        forall|i: int|
            0 <= i < n ==> exists|j: int|
                0 <= j < with_labels(v, entries, n).len() && (#[trigger] with_labels(
                    v,
                    entries,
                    n,
                )[j]).0 == (#[trigger] entries[i]).0@,
        forall|j: int|
            0 <= j < with_labels(v, entries, n).len() ==> v.contains(
                #[trigger] with_labels(v, entries, n)[j],
            ) || exists|i: int|
                0 <= i < n && with_labels(v, entries, n)[j] == ((#[trigger] entries[i]).0@, entries[i].1@),
    decreases n,
{
    let all = with_labels(v, entries, n);
    if n > 0 {
        labels_put_in(v, entries, n - 1);
        let front = with_labels(v, entries, n - 1);
        let x = (entries[n - 1].0@, entries[n - 1].1@);
        entered_rises::<(String, String)>(front, x);
        let h = choose|h: int|
            0 <= h < all.len() && <(String, String)>::key_of(#[trigger] all[h]) == <(
                String,
                String,
            )>::key_of(x);
        assert(all[h].0 == entries[n - 1].0@);
        assert forall|i: int| 0 <= i < v.len() implies all.contains(#[trigger] v[i]) by {
            let y = front.index_of(v[i]);
            assert(all.contains(front[y]));
        }
        assert forall|i: int| 0 <= i < n implies exists|j: int|
            0 <= j < all.len() && (#[trigger] all[j]).0 == (#[trigger] entries[i]).0@ by {
            if i < n - 1 {
                let j = choose|j: int|
                    0 <= j < front.len() && (#[trigger] front[j]).0 == entries[i].0@;
                let y = all.index_of(front[j]);
                assert(all.contains(front[j]));
                assert(all[y].0 == entries[i].0@);
            }
        }
        assert forall|j: int| 0 <= j < all.len() implies v.contains(#[trigger] all[j]) || exists|
            i: int,
        |
            0 <= i < n && all[j] == ((#[trigger] entries[i]).0@, entries[i].1@) by {
            if front.contains(all[j]) {
                let y = front.index_of(all[j]);
                if !v.contains(front[y]) {
                    let i = choose|i: int|
                        0 <= i < n - 1 && front[y] == ((#[trigger] entries[i]).0@, entries[i].1@);
                    assert(entries[i].0@ == all[j].0);
                }
            } else {
                assert(all[j] == x);
            }
        }
    } else {
        assert forall|j: int| 0 <= j < all.len() implies v.contains(#[trigger] all[j]) by {
            assert(all[j] == v[j]);
        }
        assert forall|i: int| 0 <= i < v.len() implies all.contains(#[trigger] v[i]) by {
            assert(all[i] == v[i]);
        }
    }
}

/// Whether a record gives the property a label: the value, and its name.
pub open spec fn gives_label(
    line: ObservationLine,
    code: Seq<char>,
    supported: bool,
    value: Seq<char>,
    name: Seq<char>,
) -> bool {
    on_property(line, code, supported) && exists|k: int|
        0 <= k < line->Capability_0.subject->labels.entries().len() && (
        #[trigger] line->Capability_0.subject->labels.entries()[k]).0@ == value
            && line->Capability_0.subject->labels.entries()[k].1@ == name
}

/// Whether a record gives the property a value profile.
pub open spec fn gives_profile(
    line: ObservationLine,
    code: Seq<char>,
    supported: bool,
    m: ProfileModel,
) -> bool {
    on_property(line, code, supported) && exists|k: int|
        0 <= k < line->Capability_0.subject->value_profiles@.len() && (
        #[trigger] line->Capability_0.subject->value_profiles@[k])@ == m
}

/// The labels that records give a property name every value that one of them names, and each label
/// is one of theirs.
proof fn first_labels_are_given(records: Seq<ObservationLine>, key: CapabilityModel, n: int)
    requires
        0 <= n <= records.len(),
    ensures
        keys_rise::<(String, String)>(first_labels(records, key, n)),
        forall|i: int, value: Seq<char>, name: Seq<char>|
            0 <= i < n && #[trigger] gives_label(records[i], key.0, key.1, value, name) ==> exists|
                j: int,
            |
                0 <= j < first_labels(records, key, n).len() && (#[trigger] first_labels(
                    records,
                    key,
                    n,
                )[j]).0 == value,
        forall|j: int|
            0 <= j < first_labels(records, key, n).len() ==> exists|i: int|
                0 <= i < n && gives_label(
                    #[trigger] records[i],
                    key.0,
                    key.1,
                    (#[trigger] first_labels(records, key, n)[j]).0,
                    first_labels(records, key, n)[j].1,
                ),
    decreases n,
{
    let all = first_labels(records, key, n);
    if n > 0 {
        first_labels_are_given(records, key, n - 1);
        let front = first_labels(records, key, n - 1);
        bearing_is_on(records[n - 1], key);
        let borne = on_property(records[n - 1], key.0, key.1);
        let e = records[n - 1]->Capability_0.subject->labels.entries();
        if borne {
            labels_put_in(front, e, e.len() as int);
            assert(all == with_labels(front, e, e.len() as int));
        } else {
            assert(all == front);
        }
        assert forall|i: int, value: Seq<char>, name: Seq<char>|
            0 <= i < n && #[trigger] gives_label(records[i], key.0, key.1, value, name) implies exists|
            j: int,
        |
            0 <= j < all.len() && (#[trigger] all[j]).0 == value by {
            if i == n - 1 {
                let k = choose|k: int|
                    0 <= k < e.len() && (#[trigger] e[k]).0@ == value && e[k].1@ == name;
                let j = choose|j: int| 0 <= j < all.len() && (#[trigger] all[j]).0 == e[k].0@;
                assert(all[j].0 == value);
            } else {
                let j = choose|j: int| 0 <= j < front.len() && (#[trigger] front[j]).0 == value;
                assert(all.contains(front[j])) by {
                    assert(borne || all[j] == front[j]);
                }
                let y = all.index_of(front[j]);
                assert(all[y].0 == value);
            }
        }
        assert forall|j: int| 0 <= j < all.len() implies exists|i: int|
            0 <= i < n && gives_label(
                #[trigger] records[i],
                key.0,
                key.1,
                (#[trigger] all[j]).0,
                all[j].1,
            ) by {
            if !borne || front.contains(all[j]) {
                let y = front.index_of(all[j]);
                assert(front[y] == all[j]);
                let i = choose|i: int|
                    0 <= i < n - 1 && gives_label(
                        #[trigger] records[i],
                        key.0,
                        key.1,
                        front[y].0,
                        front[y].1,
                    );
                assert(gives_label(records[i], key.0, key.1, all[j].0, all[j].1));
            } else {
                let k = choose|k: int|
                    0 <= k < e.len() && all[j] == ((#[trigger] e[k]).0@, e[k].1@);
                assert(e[k].0@ == all[j].0 && e[k].1@ == all[j].1);
                assert(gives_label(records[n - 1], key.0, key.1, all[j].0, all[j].1));
            }
        }
    }
}

/// Adding profiles keeps those that are there, adds each that is not, and nothing else.
proof fn profiles_put_in(v: Seq<ProfileModel>, more: Seq<CapabilityValueProfile>, n: int)
    requires
        0 <= n <= more.len(),
    ensures
        forall|i: int| 0 <= i < v.len() ==> with_profiles(v, more, n).contains(#[trigger] v[i]),
        forall|i: int| 0 <= i < n ==> with_profiles(v, more, n).contains((#[trigger] more[i])@),
        forall|j: int|
            0 <= j < with_profiles(v, more, n).len() ==> v.contains(
                #[trigger] with_profiles(v, more, n)[j],
            ) || exists|i: int| 0 <= i < n && with_profiles(v, more, n)[j] == (#[trigger] more[i])@,
    decreases n,
{
    let all = with_profiles(v, more, n);
    if n > 0 {
        profiles_put_in(v, more, n - 1);
        let front = with_profiles(v, more, n - 1);
        assert forall|x: ProfileModel| front.contains(x) implies #[trigger] all.contains(x) by {
            let y = front.index_of(x);
            assert(all[y] == x);
        }
        if !front.contains(more[n - 1]@) {
            assert(all[front.len() as int] == more[n - 1]@);
        }
        assert(all.contains(more[n - 1]@));
        assert forall|j: int| 0 <= j < all.len() implies v.contains(#[trigger] all[j]) || exists|
            i: int,
        |
            0 <= i < n && all[j] == (#[trigger] more[i])@ by {
            if j < front.len() {
                assert(front[j] == all[j]);
                if !v.contains(front[j]) {
                    let i = choose|i: int| 0 <= i < n - 1 && front[j] == (#[trigger] more[i])@;
                    assert(all[j] == more[i]@);
                }
            } else {
                assert(all[j] == more[n - 1]@);
            }
        }
    } else {
        assert forall|j: int| 0 <= j < all.len() implies v.contains(#[trigger] all[j]) by {
            assert(all[j] == v[j]);
        }
        assert forall|i: int| 0 <= i < v.len() implies all.contains(#[trigger] v[i]) by {
            assert(all[i] == v[i]);
        }
    }
}

/// The value profiles that records give a property are all of theirs, and no others.
proof fn distinct_profiles_are_given(records: Seq<ObservationLine>, key: CapabilityModel, n: int)
    requires
        0 <= n <= records.len(),
    ensures
        forall|i: int, m: ProfileModel|
            0 <= i < n && #[trigger] gives_profile(records[i], key.0, key.1, m)
                ==> distinct_profiles(records, key, n).contains(m),
        forall|j: int|
            0 <= j < distinct_profiles(records, key, n).len() ==> exists|i: int|
                0 <= i < n && gives_profile(
                    #[trigger] records[i],
                    key.0,
                    key.1,
                    #[trigger] distinct_profiles(records, key, n)[j],
                ),
    decreases n,
{
    let all = distinct_profiles(records, key, n);
    if n > 0 {
        distinct_profiles_are_given(records, key, n - 1);
        let front = distinct_profiles(records, key, n - 1);
        bearing_is_on(records[n - 1], key);
        let borne = on_property(records[n - 1], key.0, key.1);
        let e = records[n - 1]->Capability_0.subject->value_profiles@;
        if borne {
            profiles_put_in(front, e, e.len() as int);
            assert(all == with_profiles(front, e, e.len() as int));
        } else {
            assert(all == front);
        }
        assert forall|i: int, m: ProfileModel|
            0 <= i < n && #[trigger] gives_profile(records[i], key.0, key.1, m) implies all.contains(
            m,
        ) by {
            if i == n - 1 {
                let k = choose|k: int| 0 <= k < e.len() && (#[trigger] e[k])@ == m;
                assert(all.contains(e[k]@));
            } else {
                assert(front.contains(m));
                let y = front.index_of(m);
                assert(front[y] == m);
                assert(all.contains(front[y])) by {
                    assert(borne || all[y] == front[y]);
                }
            }
        }
        assert forall|j: int| 0 <= j < all.len() implies exists|i: int|
            0 <= i < n && gives_profile(
                #[trigger] records[i],
                key.0,
                key.1,
                #[trigger] all[j],
            ) by {
            if !borne || front.contains(all[j]) {
                let y = front.index_of(all[j]);
                assert(front[y] == all[j]);
                let i = choose|i: int|
                    0 <= i < n - 1 && gives_profile(#[trigger] records[i], key.0, key.1, front[y]);
                assert(gives_profile(records[i], key.0, key.1, all[j]));
            } else {
                let k = choose|k: int| 0 <= k < e.len() && all[j] == (#[trigger] e[k])@;
                assert(e[k]@ == all[j]);
                assert(gives_profile(records[n - 1], key.0, key.1, all[j]));
            }
        }
    }
}

/// A candidate that headers and records give is one of the proposal's.
proof fn candidate_stated(bundles: Seq<Vec<BundleLine>>, p: Proposal, c: CandidateModel) -> (i: int)
    requires
        proposed_from(p, bundles),
        candidates_of(headers_in(bundles), records_in(bundles)).contains(c),
    ensures
        0 <= i < p.candidates@.len(),
        p.candidates@[i].model() == c,
{
    broadcast use vstd::seq_lib::group_to_multiset_ensures;

    let given = candidates_of(headers_in(bundles), records_in(bundles));
    let all = models_of(p.candidates@);
    arranged_is_sorted::<ProposalCandidate>(given);
    assert(given.to_multiset().count(c) > 0);
    assert(all.contains(c));
    all.index_of(c)
}

/// A candidate of a proposal is one that headers and records give.
proof fn candidate_given(bundles: Seq<Vec<BundleLine>>, p: Proposal, i: int)
    requires
        proposed_from(p, bundles),
        0 <= i < p.candidates@.len(),
    ensures
        candidates_of(headers_in(bundles), records_in(bundles)).contains(p.candidates@[i].model()),
{
    broadcast use vstd::seq_lib::group_to_multiset_ensures;

    let given = candidates_of(headers_in(bundles), records_in(bundles));
    let all = models_of(p.candidates@);
    arranged_is_sorted::<ProposalCandidate>(given);
    assert(all[i] == p.candidates@[i].model());
    assert(all.contains(all[i]));
    assert(all.to_multiset().count(all[i]) > 0);
}

/// The candidates of cameras and of operations are among all.
proof fn others_listed(headers: Seq<BundleHeader>, records: Seq<ObservationLine>)
    ensures
        ({
            let a = camera_candidates(headers, cameras(headers, headers.len() as int).len() as int);
            let keys = capability_keys(records, Topic::Operation, records.len() as int);
            let b = operation_candidates(records, keys.len() as int);
            let all = candidates_of(headers, records);
            let props = capability_keys(records, Topic::Property, records.len() as int);
            &&& forall|k: int| 0 <= k < a.len() ==> all.contains(#[trigger] a[k])
            &&& forall|k: int| 0 <= k < b.len() ==> all.contains(#[trigger] b[k])
            &&& forall|j: int|
                0 <= j < all.len() ==> a.contains(#[trigger] all[j]) || b.contains(all[j])
                    || exists|k: int|
                    0 <= k < props.len() && about_property(all[j], records, #[trigger] props[k])
        }),
{
    let a = camera_candidates(headers, cameras(headers, headers.len() as int).len() as int);
    let keys = capability_keys(records, Topic::Operation, records.len() as int);
    let b = operation_candidates(records, keys.len() as int);
    let all = candidates_of(headers, records);
    let props = capability_keys(records, Topic::Property, records.len() as int);
    let c = a + b;
    properties_listed(c, records, 0);
    assert forall|k: int| 0 <= k < a.len() implies all.contains(#[trigger] a[k]) by {
        assert(c[k] == a[k]);
    }
    assert forall|k: int| 0 <= k < b.len() implies all.contains(#[trigger] b[k]) by {
        assert(c[a.len() + k] == b[k]);
    }
    assert forall|j: int| 0 <= j < all.len() implies a.contains(#[trigger] all[j]) || b.contains(
        all[j],
    ) || exists|k: int|
        0 <= k < props.len() && about_property(all[j], records, #[trigger] props[k]) by {
        if c.contains(all[j]) {
            let x = c.index_of(all[j]);
            if x < a.len() {
                assert(a[x] == all[j]);
            } else {
                assert(b[x - a.len()] == all[j]);
            }
        }
    }
}

/// The candidate of each operation is among those of all.
proof fn operations_listed(records: Seq<ObservationLine>, n: int)
    requires
        0 <= n <= capability_keys(records, Topic::Operation, records.len() as int).len(),
    ensures
        ({
            let keys = capability_keys(records, Topic::Operation, records.len() as int);
            let all = operation_candidates(records, n);
            all.len() == n && forall|k: int|
                0 <= k < n ==> #[trigger] all[k] == operation_candidate(records, keys[k])
        }),
    decreases n,
{
    if n > 0 {
        operations_listed(records, n - 1);
    }
}

/// The candidate of each camera is among those of all.
proof fn cameras_listed(headers: Seq<BundleHeader>, n: int)
    requires
        0 <= n <= cameras(headers, headers.len() as int).len(),
    ensures
        ({
            let found = cameras(headers, headers.len() as int);
            let all = camera_candidates(headers, n);
            all.len() == n && forall|k: int|
                0 <= k < n ==> (#[trigger] all[k]).assertion == (AssertionModel::CameraIdentity {
                    manufacturer: found[k].0,
                    model: found[k].1,
                    firmware: found[k].2,
                })
        }),
    decreases n,
{
    if n > 0 {
        cameras_listed(headers, n - 1);
    }
}

/// The cameras are those that the headers name.
proof fn cameras_named(headers: Seq<BundleHeader>, n: int)
    requires
        0 <= n <= headers.len(),
    ensures
        keys_rise::<CameraKey>(cameras(headers, n)),
        forall|i: int|
            0 <= i < n ==> cameras(headers, n).contains(
                (
                    (#[trigger] headers[i]).camera.manufacturer@,
                    headers[i].camera.model@,
                    headers[i].camera.firmware@,
                ),
            ),
        forall|k: int|
            0 <= k < cameras(headers, n).len() ==> exists|i: int|
                0 <= i < n && (#[trigger] cameras(headers, n)[k]) == (
                    (#[trigger] headers[i]).camera.manufacturer@,
                    headers[i].camera.model@,
                    headers[i].camera.firmware@,
                ),
    decreases n,
{
    if n > 0 {
        cameras_named(headers, n - 1);
        let front = cameras(headers, n - 1);
        let all = cameras(headers, n);
        let c = headers[n - 1].camera;
        let x = (c.manufacturer@, c.model@, c.firmware@);
        entered_rises::<CameraKey>(front, x);
        let h = choose|h: int|
            0 <= h < all.len() && CameraKey::key_of(#[trigger] all[h]) == CameraKey::key_of(x);
        assert(all[h] == x);
        assert forall|i: int| 0 <= i < n implies all.contains(
            (
                (#[trigger] headers[i]).camera.manufacturer@,
                headers[i].camera.model@,
                headers[i].camera.firmware@,
            ),
        ) by {
            if i < n - 1 {
                let y = front.index_of(
                    (
                        headers[i].camera.manufacturer@,
                        headers[i].camera.model@,
                        headers[i].camera.firmware@,
                    ),
                );
                assert(all.contains(front[y]));
            }
        }
        assert forall|k: int| 0 <= k < all.len() implies exists|i: int|
            0 <= i < n && (#[trigger] all[k]) == (
                (#[trigger] headers[i]).camera.manufacturer@,
                headers[i].camera.model@,
                headers[i].camera.firmware@,
            ) by {
            if front.contains(all[k]) {
                let y = front.index_of(all[k]);
                assert(front[y] == all[k]);
                let i = choose|i: int|
                    0 <= i < n - 1 && front[y] == (
                        (#[trigger] headers[i]).camera.manufacturer@,
                        headers[i].camera.model@,
                        headers[i].camera.firmware@,
                    );
                assert(headers[i].camera.manufacturer@ == all[k].0);
            } else {
                assert(headers[n - 1].camera.manufacturer@ == all[k].0);
            }
        }
    }
}

/// Whether a candidate asserts something of the property, supported or not.
pub open spec fn asserts_property(a: CandidateAssertion, code: Seq<char>, supported: bool) -> bool {
    a is Property && a->Property_code@ == code && a->Property_supported == supported
}

/// Whether a candidate is scoped where a record was observed, and names the record as a source.
pub open spec fn draws_on(c: ProposalCandidate, scopes: Seq<ExecutionContext>, r: CapabilityRecord) -> bool {
    &&& exists|j: int|
        0 <= j < scopes.len() && (#[trigger] scopes[j]).connection@ == r.common.context.connection@
            && scopes[j].mode@ == r.common.context.mode@ && scopes[j].state@
            == r.common.context.state@
    &&& exists|j: int|
        0 <= j < c.source_records@.len() && (#[trigger] c.source_records@[j])@
            == r.common.run_id@ + ":"@ + r.common.record_id@
}

/// What holds of the candidate with a model that lists a record's scope and identity.
proof fn draws_on_listed(
    c: ProposalCandidate,
    scopes: Seq<ExecutionContext>,
    r: CapabilityRecord,
)
    requires
        scopes_of(scopes).contains(
            (
                r.common.context.connection@,
                r.common.context.mode@,
                r.common.context.state@,
            ),
        ),
        views(c.source_records@).contains(r.common.run_id@ + ":"@ + r.common.record_id@),
    ensures
        draws_on(c, scopes, r),
{
    let j = scopes_of(scopes).index_of(
        (r.common.context.connection@, r.common.context.mode@, r.common.context.state@),
    );
    assert(scopes_of(scopes)[j] == scopes[j]@);
    assert(scopes[j].connection@ == r.common.context.connection@);
    let k = views(c.source_records@).index_of(r.common.run_id@ + ":"@ + r.common.record_id@);
    assert(views(c.source_records@)[k] == c.source_records@[k]@);
    assert(c.source_records@[k]@ == r.common.run_id@ + ":"@ + r.common.record_id@);
}

/// Two accepted records on one property that both give a type or an access give the same.
proof fn accepted_texts_agree(
    bundles: Seq<Vec<BundleLine>>,
    p: Proposal,
    x: Box<CapabilityRecord>,
    y: Box<CapabilityRecord>,
    b: int,
    k: int,
    c: int,
    l: int,
)
    requires
        proposed_from(p, bundles),
        decodes_to(bundles, b, k, ObservationLine::Capability(x)),
        decodes_to(bundles, c, l, ObservationLine::Capability(y)),
        x.subject is Property,
        y.subject is Property,
        x.subject->Property_code@ == y.subject->Property_code@,
    ensures
        x.subject->Property_supported == y.subject->Property_supported,
        x.subject->access is Some && y.subject->access is Some ==> x.subject->access->0@
            == y.subject->access->0@,
        x.subject->property_type is Some && y.subject->property_type is Some
            ==> x.subject->property_type->0@ == y.subject->property_type->0@,
{
    line_holds(bundles, p, b, k, ObservationLine::Capability(x));
    line_holds(bundles, p, c, l, ObservationLine::Capability(y));
    let i = spot(bundles, b, k);
    let j = spot(bundles, c, l);
    if i < j {
        accepted_facts_agree(bundles, p, i, j, x, y);
    } else if j < i {
        accepted_facts_agree(bundles, p, j, i, y, x);
    }
}

/// Every accepted record on a property is drawn on by a candidate for the property: it asserts the
/// type that the record gives, where it gives one, and the access that the record gives, where it
/// gives one; it is scoped where the record was observed, and names it as a source.
pub proof fn types_and_accesses_are_proposed(
    bundles: Seq<Vec<BundleLine>>,
    p: Proposal,
    b: int,
    k: int,
    r: Box<CapabilityRecord>,
) -> (i: int)
    requires
        proposed_from(p, bundles),
        decodes_to(bundles, b, k, ObservationLine::Capability(r)),
        r.subject is Property,
    ensures
        0 <= i < p.candidates@.len(),
        ({
            let a = p.candidates@[i].assertion;
            let s = r.subject;
            &&& asserts_property(a, s->Property_code@, s->Property_supported)
            &&& s->property_type is Some ==> a->property_type is Some && a->property_type->0@
                == s->property_type->0@
            &&& s->access is Some ==> a->access is Some && a->access->0@ == s->access->0@
            &&& draws_on(p.candidates@[i], a->Property_scopes@, *r)
        }),
{
    let line = ObservationLine::Capability(r);
    let records = records_in(bundles);
    let n = records.len() as int;
    let s = r.subject;
    let key = (s->Property_code@, s->Property_supported);
    record_listed(bundles, p, b, k, line);
    let x = records.index_of(line);
    assert(on_property(records[x], key.0, key.1));
    bearing_is_on(records[x], key);
    key_listed(records, Topic::Property, n, x);
    let keys = capability_keys(records, Topic::Property, n);
    let h = keys.index_of(key);
    assert(keys[h] == key);
    let a = camera_candidates(
        headers_in(bundles),
        cameras(headers_in(bundles), headers_in(bundles).len() as int).len() as int,
    );
    let o = operation_candidates(
        records,
        capability_keys(records, Topic::Operation, n).len() as int,
    );
    properties_listed(a + o, records, 0);
    let c = access_candidate(records, key);
    let i = candidate_stated(bundles, p, c);
    first_given_is_given(records, key, n);
    scopes_listed(records, Topic::Property, key, Part::Capability, n);
    sources_listed(records, Topic::Property, key, Part::Capability, n);
    assert(context_of(records[x]) == (
        r.common.context.connection@,
        r.common.context.mode@,
        r.common.context.state@,
    ));
    let stated = p.candidates@[i].assertion;
    assert(stated@ == c.assertion);
    draws_on_listed(p.candidates@[i], stated->Property_scopes@, *r);
    let g = first_given(records, key, n);
    if s->property_type is Some {
        let j = choose|j: int|
            0 <= j < n && on_property(#[trigger] records[j], key.0, key.1) && (
            records[j]->Capability_0.subject->property_type matches Some(t) && t@ == g.0->0);
        assert(records.contains(records[j]));
        let (d, l) = record_decoded(bundles, records[j]);
        accepted_texts_agree(bundles, p, r, records[j]->Capability_0, b, k, d, l);
    }
    if s->access is Some {
        let j = choose|j: int|
            0 <= j < n && on_property(#[trigger] records[j], key.0, key.1) && (
            records[j]->Capability_0.subject->access matches Some(t) && t@ == g.1->0);
        assert(records.contains(records[j]));
        let (d, l) = record_decoded(bundles, records[j]);
        accepted_texts_agree(bundles, p, r, records[j]->Capability_0, b, k, d, l);
    }
    i
}

/// Where an accepted record on a property gives a descriptor, a candidate for the property asserts
/// one that an accepted record on the property gives.
pub proof fn descriptors_are_proposed(
    bundles: Seq<Vec<BundleLine>>,
    p: Proposal,
    b: int,
    k: int,
    r: Box<CapabilityRecord>,
) -> (i: int)
    requires
        proposed_from(p, bundles),
        decodes_to(bundles, b, k, ObservationLine::Capability(r)),
        r.subject is Property,
        r.subject->descriptor is Some,
    ensures
        0 <= i < p.candidates@.len(),
        ({
            let a = p.candidates@[i].assertion;
            let s = r.subject;
            &&& asserts_property(a, s->Property_code@, s->Property_supported)
            &&& a->descriptor is Some
            &&& draws_on(p.candidates@[i], a->Property_scopes@, *r)
        }),
{
    let line = ObservationLine::Capability(r);
    let records = records_in(bundles);
    let n = records.len() as int;
    let s = r.subject;
    let key = (s->Property_code@, s->Property_supported);
    record_listed(bundles, p, b, k, line);
    let x = records.index_of(line);
    assert(on_property(records[x], key.0, key.1));
    bearing_is_on(records[x], key);
    key_listed(records, Topic::Property, n, x);
    let keys = capability_keys(records, Topic::Property, n);
    let h = keys.index_of(key);
    assert(keys[h] == key);
    let a = camera_candidates(
        headers_in(bundles),
        cameras(headers_in(bundles), headers_in(bundles).len() as int).len() as int,
    );
    let o = operation_candidates(
        records,
        capability_keys(records, Topic::Operation, n).len() as int,
    );
    properties_listed(a + o, records, 0);
    first_given_is_given(records, key, n);
    let c = descriptor_candidate(records, key);
    let i = candidate_stated(bundles, p, c);
    scopes_listed(records, Topic::Property, key, Part::Capability, n);
    sources_listed(records, Topic::Property, key, Part::Capability, n);
    assert(context_of(records[x]) == (
        r.common.context.connection@,
        r.common.context.mode@,
        r.common.context.state@,
    ));
    let stated = p.candidates@[i].assertion;
    assert(stated@ == c.assertion);
    draws_on_listed(p.candidates@[i], stated->Property_scopes@, *r);
    i
}

/// Each value that an accepted record on a property names is named by a candidate for the property
/// that draws on the record.
pub proof fn labels_are_proposed(
    bundles: Seq<Vec<BundleLine>>,
    p: Proposal,
    b: int,
    k: int,
    r: Box<CapabilityRecord>,
    e: int,
) -> (r2: (int, int))
    requires
        proposed_from(p, bundles),
        decodes_to(bundles, b, k, ObservationLine::Capability(r)),
        r.subject is Property,
        0 <= e < r.subject->labels.entries().len(),
    ensures
        0 <= r2.0 < p.candidates@.len(),
        ({
            let a = p.candidates@[r2.0].assertion;
            let s = r.subject;
            &&& asserts_property(a, s->Property_code@, s->Property_supported)
            &&& 0 <= r2.1 < a->labels.entries().len()
            &&& a->labels.entries()[r2.1].0@ == s->labels.entries()[e].0@
            &&& draws_on(p.candidates@[r2.0], a->Property_scopes@, *r)
        }),
{
    let line = ObservationLine::Capability(r);
    let records = records_in(bundles);
    let n = records.len() as int;
    let s = r.subject;
    let key = (s->Property_code@, s->Property_supported);
    record_listed(bundles, p, b, k, line);
    let x = records.index_of(line);
    assert(on_property(records[x], key.0, key.1));
    bearing_is_on(records[x], key);
    key_listed(records, Topic::Property, n, x);
    let keys = capability_keys(records, Topic::Property, n);
    let h = keys.index_of(key);
    assert(keys[h] == key);
    let a = camera_candidates(
        headers_in(bundles),
        cameras(headers_in(bundles), headers_in(bundles).len() as int).len() as int,
    );
    let o = operation_candidates(
        records,
        capability_keys(records, Topic::Operation, n).len() as int,
    );
    properties_listed(a + o, records, 0);
    first_labels_are_given(records, key, n);
    let entry = s->labels.entries()[e];
    assert(records[x]->Capability_0.subject->labels.entries()[e].0@ == entry.0@);
    assert(gives_label(records[x], key.0, key.1, entry.0@, entry.1@));
    let all = first_labels(records, key, n);
    let j = choose|j: int| 0 <= j < all.len() && (#[trigger] all[j]).0 == entry.0@;
    assert(all[j].0 == entry.0@);
    let c = label_candidate(records, key);
    let i = candidate_stated(bundles, p, c);
    scopes_listed(records, Topic::Property, key, Part::Labels, n);
    sources_listed(records, Topic::Property, key, Part::Labels, n);
    assert(bears(records[x], Topic::Property, key, Part::Labels));
    assert(context_of(records[x]) == (
        r.common.context.connection@,
        r.common.context.mode@,
        r.common.context.state@,
    ));
    let stated = p.candidates@[i].assertion;
    assert(stated@ == c.assertion);
    assert(label_models(stated->labels.entries()) == all);
    assert(label_models(stated->labels.entries())[j].0 == stated->labels.entries()[j].0@);
    draws_on_listed(p.candidates@[i], stated->Property_scopes@, *r);
    (i, j)
}

/// Each value profile that an accepted record on a property gives is asserted by a candidate for the
/// property that draws on the record.
pub proof fn profiles_are_proposed(
    bundles: Seq<Vec<BundleLine>>,
    p: Proposal,
    b: int,
    k: int,
    r: Box<CapabilityRecord>,
    e: int,
) -> (r2: (int, int))
    requires
        proposed_from(p, bundles),
        decodes_to(bundles, b, k, ObservationLine::Capability(r)),
        r.subject is Property,
        0 <= e < r.subject->value_profiles@.len(),
    ensures
        0 <= r2.0 < p.candidates@.len(),
        ({
            let a = p.candidates@[r2.0].assertion;
            let s = r.subject;
            &&& asserts_property(a, s->Property_code@, s->Property_supported)
            &&& 0 <= r2.1 < a->value_profiles@.len()
            &&& a->value_profiles@[r2.1]@ == s->value_profiles@[e]@
            &&& draws_on(p.candidates@[r2.0], a->Property_scopes@, *r)
        }),
{
    broadcast use vstd::seq_lib::group_to_multiset_ensures;

    let line = ObservationLine::Capability(r);
    let records = records_in(bundles);
    let n = records.len() as int;
    let s = r.subject;
    let key = (s->Property_code@, s->Property_supported);
    record_listed(bundles, p, b, k, line);
    let x = records.index_of(line);
    assert(on_property(records[x], key.0, key.1));
    bearing_is_on(records[x], key);
    key_listed(records, Topic::Property, n, x);
    let keys = capability_keys(records, Topic::Property, n);
    let h = keys.index_of(key);
    assert(keys[h] == key);
    let a = camera_candidates(
        headers_in(bundles),
        cameras(headers_in(bundles), headers_in(bundles).len() as int).len() as int,
    );
    let o = operation_candidates(
        records,
        capability_keys(records, Topic::Operation, n).len() as int,
    );
    properties_listed(a + o, records, 0);
    distinct_profiles_are_given(records, key, n);
    let m = s->value_profiles@[e]@;
    assert(records[x]->Capability_0.subject->value_profiles@[e]@ == m);
    assert(gives_profile(records[x], key.0, key.1, m));
    let given = distinct_profiles(records, key, n);
    let all = arranged::<CapabilityValueProfile>(given);
    arranged_is_sorted::<CapabilityValueProfile>(given);
    assert(given.to_multiset().count(m) > 0);
    assert(all.contains(m));
    let j = all.index_of(m);
    let c = profile_candidate(records, key);
    let i = candidate_stated(bundles, p, c);
    scopes_listed(records, Topic::Property, key, Part::Profiles, n);
    sources_listed(records, Topic::Property, key, Part::Profiles, n);
    assert(bears(records[x], Topic::Property, key, Part::Profiles));
    assert(context_of(records[x]) == (
        r.common.context.connection@,
        r.common.context.mode@,
        r.common.context.state@,
    ));
    let stated = p.candidates@[i].assertion;
    assert(stated@ == c.assertion);
    assert(profiles_of(stated->value_profiles@) == all);
    assert(profiles_of(stated->value_profiles@)[j] == stated->value_profiles@[j]@);
    draws_on_listed(p.candidates@[i], stated->Property_scopes@, *r);
    (i, j)
}

/// Every accepted record on an operation is drawn on by a candidate for the operation, supported or
/// not as the record says.
pub proof fn operations_are_proposed(
    bundles: Seq<Vec<BundleLine>>,
    p: Proposal,
    b: int,
    k: int,
    r: Box<CapabilityRecord>,
) -> (i: int)
    requires
        proposed_from(p, bundles),
        decodes_to(bundles, b, k, ObservationLine::Capability(r)),
        r.subject is Operation,
    ensures
        0 <= i < p.candidates@.len(),
        ({
            let a = p.candidates@[i].assertion;
            &&& a is Operation
            &&& a->Operation_code@ == r.subject->Operation_code@
            &&& a->Operation_supported == r.subject->Operation_supported
            &&& draws_on(p.candidates@[i], a->Operation_scopes@, *r)
        }),
{
    let line = ObservationLine::Capability(r);
    let records = records_in(bundles);
    let n = records.len() as int;
    let key = (r.subject->Operation_code@, r.subject->Operation_supported);
    record_listed(bundles, p, b, k, line);
    let x = records.index_of(line);
    assert(on_operation(records[x], key.0, key.1));
    bearing_is_on(records[x], key);
    key_listed(records, Topic::Operation, n, x);
    let keys = capability_keys(records, Topic::Operation, n);
    let h = keys.index_of(key);
    operations_listed(records, keys.len() as int);
    others_listed(headers_in(bundles), records);
    let c = operation_candidate(records, key);
    assert(operation_candidates(records, keys.len() as int)[h] == c);
    let i = candidate_stated(bundles, p, c);
    scopes_listed(records, Topic::Operation, key, Part::Capability, n);
    sources_listed(records, Topic::Operation, key, Part::Capability, n);
    assert(context_of(records[x]) == (
        r.common.context.connection@,
        r.common.context.mode@,
        r.common.context.state@,
    ));
    let stated = p.candidates@[i].assertion;
    assert(stated@ == c.assertion);
    draws_on_listed(p.candidates@[i], stated->Operation_scopes@, *r);
    i
}

/// The camera of every accepted header is proposed under its names.
pub proof fn cameras_are_proposed(
    bundles: Seq<Vec<BundleLine>>,
    p: Proposal,
    b: int,
    k: int,
    h: BundleHeader,
) -> (i: int)
    requires
        proposed_from(p, bundles),
        decodes_to(bundles, b, k, ObservationLine::BundleHeader(h)),
    ensures
        0 <= i < p.candidates@.len(),
        ({
            let a = p.candidates@[i].assertion;
            &&& a is CameraIdentity
            &&& a->manufacturer@ == h.camera.manufacturer@
            &&& a->model@ == h.camera.model@
            &&& a->firmware@ == h.camera.firmware@
        }),
{
    broadcast use vstd::seq_lib::group_to_multiset_ensures;

    let lines = judged_lines(bundles);
    let n = lines.len() as int;
    line_holds(bundles, p, b, k, ObservationLine::BundleHeader(h));
    header_gathered(lines, n, spot(bundles, b, k), h);
    let given = accepted_headers(lines, n);
    let headers = headers_in(bundles);
    arranged_is_sorted::<BundleHeader>(given);
    assert(given.to_multiset().count(h) > 0);
    assert(headers.contains(h));
    let x = headers.index_of(h);
    cameras_named(headers, headers.len() as int);
    let found = cameras(headers, headers.len() as int);
    assert(headers[x].camera.manufacturer@ == h.camera.manufacturer@);
    let y = found.index_of((h.camera.manufacturer@, h.camera.model@, h.camera.firmware@));
    cameras_listed(headers, found.len() as int);
    others_listed(headers, records_in(bundles));
    let c = camera_candidates(headers, found.len() as int)[y];
    let i = candidate_stated(bundles, p, c);
    assert(p.candidates@[i].assertion@ == c.assertion);
    i
}

/// A candidate for a property is one of the four on the property.
proof fn property_candidate_key(bundles: Seq<Vec<BundleLine>>, p: Proposal, i: int) -> (key: CapabilityModel)
    requires
        proposed_from(p, bundles),
        0 <= i < p.candidates@.len(),
        p.candidates@[i].assertion is Property,
    ensures
        about_property(p.candidates@[i].model(), records_in(bundles), key),
        p.candidates@[i].assertion->Property_code@ == key.0,
        p.candidates@[i].assertion->Property_supported == key.1,
{
    let records = records_in(bundles);
    let headers = headers_in(bundles);
    let n = records.len() as int;
    let a = p.candidates@[i].assertion;
    let m = p.candidates@[i].model();
    candidate_given(bundles, p, i);
    others_listed(headers, records);
    let all = candidates_of(headers, records);
    let y = all.index_of(m);
    let found = cameras(headers, headers.len() as int);
    cameras_listed(headers, found.len() as int);
    let ops = capability_keys(records, Topic::Operation, n);
    operations_listed(records, ops.len() as int);
    let cams = camera_candidates(headers, found.len() as int);
    let oper = operation_candidates(records, ops.len() as int);
    assert(m.assertion == a@);
    if cams.contains(m) {
        let x = cams.index_of(m);
        assert(cams[x] == m);
        assert(false);
    }
    if oper.contains(m) {
        let x = oper.index_of(m);
        assert(oper[x] == m);
        assert(false);
    }
    let keys = capability_keys(records, Topic::Property, n);
    let h = choose|h: int|
        0 <= h < keys.len() && about_property(all[y], records, #[trigger] keys[h]);
    assert(about_property(m, records, keys[h]));
    keys[h]
}

/// A proposal invents no type, access or descriptor: each that a candidate for a property asserts is
/// given by a line that decodes to a record on the property, supported or not as the candidate says.
pub proof fn proposed_types_are_given(bundles: Seq<Vec<BundleLine>>, p: Proposal, i: int)
    requires
        proposed_from(p, bundles),
        0 <= i < p.candidates@.len(),
        p.candidates@[i].assertion is Property,
    ensures
        ({
            let a = p.candidates@[i].assertion;
            let code = a->Property_code@;
            let supported = a->Property_supported;
            &&& a->property_type is Some ==> exists|b: int, k: int, line: ObservationLine| #[trigger]
                decodes_to(bundles, b, k, line) && on_property(line, code, supported) && (
                line->Capability_0.subject->property_type matches Some(t) && t@
                    == a->property_type->0@)
            &&& a->access is Some ==> exists|b: int, k: int, line: ObservationLine| #[trigger]
                decodes_to(bundles, b, k, line) && on_property(line, code, supported) && (
                line->Capability_0.subject->access matches Some(t) && t@ == a->access->0@)
            &&& a->descriptor is Some ==> exists|b: int, k: int, line: ObservationLine| #[trigger]
                decodes_to(bundles, b, k, line) && on_property(line, code, supported) && (
                line->Capability_0.subject->descriptor matches Some(d) && d@ == a->descriptor->0@)
        }),
{
    let records = records_in(bundles);
    let n = records.len() as int;
    let a = p.candidates@[i].assertion;
    let key = property_candidate_key(bundles, p, i);
    assert(p.candidates@[i].model().assertion == a@);
    first_given_is_given(records, key, n);
    let g = first_given(records, key, n);
    if a->property_type is Some {
        let j = choose|j: int|
            0 <= j < n && on_property(#[trigger] records[j], key.0, key.1) && (
            records[j]->Capability_0.subject->property_type matches Some(t) && t@ == g.0->0);
        assert(records.contains(records[j]));
        let (b, k) = record_decoded(bundles, records[j]);
        assert(decodes_to(bundles, b, k, records[j]));
    }
    if a->access is Some {
        let j = choose|j: int|
            0 <= j < n && on_property(#[trigger] records[j], key.0, key.1) && (
            records[j]->Capability_0.subject->access matches Some(t) && t@ == g.1->0);
        assert(records.contains(records[j]));
        let (b, k) = record_decoded(bundles, records[j]);
        assert(decodes_to(bundles, b, k, records[j]));
    }
    if a->descriptor is Some {
        let j = choose|j: int|
            0 <= j < n && on_property(#[trigger] records[j], key.0, key.1) && (
            records[j]->Capability_0.subject->descriptor matches Some(d) && d@ == g.2->0);
        assert(records.contains(records[j]));
        let (b, k) = record_decoded(bundles, records[j]);
        assert(decodes_to(bundles, b, k, records[j]));
    }
}

/// A proposal invents no label: each that a candidate for a property asserts is given by a line that
/// decodes to a record on the property.
pub proof fn proposed_labels_are_given(
    bundles: Seq<Vec<BundleLine>>,
    p: Proposal,
    i: int,
    e: int,
) -> (r: (int, int, ObservationLine))
    requires
        proposed_from(p, bundles),
        0 <= i < p.candidates@.len(),
        p.candidates@[i].assertion is Property,
        0 <= e < p.candidates@[i].assertion->labels.entries().len(),
    ensures
        decodes_to(bundles, r.0, r.1, r.2),
        ({
            let a = p.candidates@[i].assertion;
            gives_label(
                r.2,
                a->Property_code@,
                a->Property_supported,
                a->labels.entries()[e].0@,
                a->labels.entries()[e].1@,
            )
        }),
{
    let records = records_in(bundles);
    let n = records.len() as int;
    let a = p.candidates@[i].assertion;
    let key = property_candidate_key(bundles, p, i);
    assert(p.candidates@[i].model().assertion == a@);
    let labels = first_labels(records, key, n);
    let x = label_models(a->labels.entries());
    assert(x[e] == (a->labels.entries()[e].0@, a->labels.entries()[e].1@));
    assert(x.len() > 0);
    assert(x == labels);
    let j = label_giver(records, key, e);
    assert(records.contains(records[j]));
    let (b, k) = record_decoded(bundles, records[j]);
    (b, k, records[j])
}

/// The record that gives a label.
proof fn label_giver(records: Seq<ObservationLine>, key: CapabilityModel, e: int) -> (j: int)
    requires
        0 <= e < first_labels(records, key, records.len() as int).len(),
    ensures
        0 <= j < records.len(),
        gives_label(
            records[j],
            key.0,
            key.1,
            first_labels(records, key, records.len() as int)[e].0,
            first_labels(records, key, records.len() as int)[e].1,
        ),
{
    let n = records.len() as int;
    first_labels_are_given(records, key, n);
    let labels = first_labels(records, key, n);
    choose|j: int|
        0 <= j < n && gives_label(#[trigger] records[j], key.0, key.1, labels[e].0, labels[e].1)
}

/// A proposal invents no value profile: each that a candidate for a property asserts is given by a
/// line that decodes to a record on the property.
pub proof fn proposed_profiles_are_given(
    bundles: Seq<Vec<BundleLine>>,
    p: Proposal,
    i: int,
    e: int,
) -> (r: (int, int, ObservationLine))
    requires
        proposed_from(p, bundles),
        0 <= i < p.candidates@.len(),
        p.candidates@[i].assertion is Property,
        0 <= e < p.candidates@[i].assertion->value_profiles@.len(),
    ensures
        decodes_to(bundles, r.0, r.1, r.2),
        ({
            let a = p.candidates@[i].assertion;
            gives_profile(
                r.2,
                a->Property_code@,
                a->Property_supported,
                a->value_profiles@[e]@,
            )
        }),
{
    let records = records_in(bundles);
    let n = records.len() as int;
    let a = p.candidates@[i].assertion;
    let key = property_candidate_key(bundles, p, i);
    assert(p.candidates@[i].model().assertion == a@);
    let x = profiles_of(a->value_profiles@);
    assert(x[e] == a->value_profiles@[e]@);
    assert(x.len() > 0);
    assert(x == arranged::<CapabilityValueProfile>(distinct_profiles(records, key, n)));
    let j = profile_giver(records, key, e);
    assert(records.contains(records[j]));
    let (b, k) = record_decoded(bundles, records[j]);
    (b, k, records[j])
}

/// The record that gives a value profile.
proof fn profile_giver(records: Seq<ObservationLine>, key: CapabilityModel, e: int) -> (j: int)
    requires
        0 <= e < arranged::<CapabilityValueProfile>(
            distinct_profiles(records, key, records.len() as int),
        ).len(),
    ensures
        0 <= j < records.len(),
        gives_profile(
            records[j],
            key.0,
            key.1,
            arranged::<CapabilityValueProfile>(
                distinct_profiles(records, key, records.len() as int),
            )[e],
        ),
{
    broadcast use vstd::seq_lib::group_to_multiset_ensures;

    let n = records.len() as int;
    distinct_profiles_are_given(records, key, n);
    let given = distinct_profiles(records, key, n);
    let sorted = arranged::<CapabilityValueProfile>(given);
    arranged_is_sorted::<CapabilityValueProfile>(given);
    assert(sorted.contains(sorted[e]));
    assert(sorted.to_multiset().count(sorted[e]) > 0);
    let z = given.index_of(sorted[e]);
    assert(given[z] == sorted[e]);
    choose|j: int| 0 <= j < n && gives_profile(#[trigger] records[j], key.0, key.1, given[z])
}

/// A candidate for an operation or a camera is what a line decodes to says.
pub proof fn other_candidates_invent_nothing(bundles: Seq<Vec<BundleLine>>, p: Proposal, i: int)
    requires
        proposed_from(p, bundles),
        0 <= i < p.candidates@.len(),
    ensures
        ({
            let a = p.candidates@[i].assertion;
            &&& a is Operation ==> exists|b: int, k: int, line: ObservationLine| #[trigger]
                decodes_to(bundles, b, k, line) && on_operation(
                    line,
                    a->Operation_code@,
                    a->Operation_supported,
                )
            &&& a is CameraIdentity ==> exists|b: int, k: int, h: BundleHeader| #[trigger]
                decodes_to(bundles, b, k, ObservationLine::BundleHeader(h)) && a->manufacturer@
                    == h.camera.manufacturer@ && a->model@ == h.camera.model@ && a->firmware@
                    == h.camera.firmware@
        }),
{
    let records = records_in(bundles);
    let headers = headers_in(bundles);
    let n = records.len() as int;
    let a = p.candidates@[i].assertion;
    let m = p.candidates@[i].model();
    candidate_given(bundles, p, i);
    others_listed(headers, records);
    let all = candidates_of(headers, records);
    let y = all.index_of(m);
    let found = cameras(headers, headers.len() as int);
    cameras_listed(headers, found.len() as int);
    let ops = capability_keys(records, Topic::Operation, n);
    operations_listed(records, ops.len() as int);
    let cams = camera_candidates(headers, found.len() as int);
    let oper = operation_candidates(records, ops.len() as int);
    assert(m.assertion == a@);
    if a is Operation {
        assert(!cams.contains(m)) by {
            if cams.contains(m) {
                let x = cams.index_of(m);
                assert(cams[x] == m);
            }
        }
        let x = oper.index_of(m);
        assert(oper[x] == m);
        key_borne(records, Topic::Operation, n);
        let key = ops[x];
        let j = choose|j: int|
            0 <= j < n && bears(#[trigger] records[j], Topic::Operation, ops[x], Part::Capability);
        bearing_is_on(records[j], key);
        assert(records.contains(records[j]));
        let (b, k) = record_decoded(bundles, records[j]);
        assert(decodes_to(bundles, b, k, records[j]));
    }
    if a is CameraIdentity {
        assert(!oper.contains(m)) by {
            if oper.contains(m) {
                let x = oper.index_of(m);
                assert(oper[x] == m);
            }
        }
        let x = cams.index_of(m);
        assert(cams[x] == m);
        cameras_named(headers, headers.len() as int);
        let j = choose|j: int|
            0 <= j < headers.len() && found[x] == (
                (#[trigger] headers[j]).camera.manufacturer@,
                headers[j].camera.model@,
                headers[j].camera.firmware@,
            );
        assert(headers.contains(headers[j]));
        let (b, k) = header_decoded(bundles, headers[j]);
        assert(decodes_to(bundles, b, k, ObservationLine::BundleHeader(headers[j])));
    }
}

} // verus!
