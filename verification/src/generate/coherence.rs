//! What a proposal made from bundles holds: its candidates and its records refer to each other.

use crate::bag::gathered_from;
use crate::generate::conflicts::capability_of;
use crate::generate::integrity::{
    backlink_violation, candidate_for, candidate_ids, candidate_violation, candidates_violation,
    integrity_violation, link_for, link_identities, link_violation, links_violation,
    source_violation,
};
use crate::generate::parse::{parsed_bundle, parsed_line, record_identity, BundleLine, Parsed};
use crate::generate::propose::{
    access_candidate, bearing_sources, bears, camera_candidates, cameras, candidates_of,
    capability_keys, descriptor_candidate, distinct_profiles, first_labels, header_sources,
    label_candidate, link_model, link_models, linked_ids, operation_candidate, operation_candidates,
    profile_candidate, proposes, push_if, topic_key, with_labels, with_profiles, with_properties,
    with_property, CapabilityKey, CapabilityModel, Part, Topic,
};
use crate::generate::report::{
    acceptance, accepted_headers, accepted_records, all_dispositions, checked_lines, judged_lines,
    DispositionModel,
};
use crate::generate::verdict::{
    accepted_record, headers_gathered, line_header, nothing_rejected, proposed_from,
    records_gathered, spot_found, spot_holds,
};
use crate::generate::write::{candidate_id, links_of, CandidateModel, LinkModel};
use crate::generate::{Proposal, ProposalCandidate, ProposalRecordStatus, RecordDisposition};
use crate::json::json_text_member;
use crate::observation::{
    line_record, line_run, BundleHeader, CapabilitySubject, CapabilityValueProfile, ObservationLine,
};
use crate::order::{
    arranged, arranged_is_sorted, entered, entered_rises, key_lt, keys_ascend, keys_rise, models_of,
    Keyed,
};
use crate::sorted::texts_ascend;
use crate::text::{text_lt, text_lt_irreflexive, text_lt_total};
use vstd::prelude::*;

verus! {

/// Whether a text is the identity of one of the headers or records.
pub open spec fn identifies(
    headers: Seq<BundleHeader>,
    records: Seq<ObservationLine>,
    t: Seq<char>,
) -> bool {
    ||| exists|i: int|
        0 <= i < headers.len() && t == record_identity(
            (#[trigger] headers[i]).run_id@,
            headers[i].record_id@,
        )
    ||| exists|i: int|
        0 <= i < records.len() && t == record_identity(
            line_run(#[trigger] records[i]),
            line_record(records[i]),
        )
}

/// A row whose keys rise is an ascending row of texts.
proof fn rising_texts_ascend(s: Seq<Seq<char>>)
    requires
        keys_rise::<String>(s),
    ensures
        texts_ascend(s),
{
    assert forall|i: int, j: int|
        #![trigger s[i], s[j]]
        0 <= i < j < s.len() implies text_lt(s[i], s[j]) by {
        assert(key_lt(String::key_of(s[i]), String::key_of(s[j])));
        text_lt_irreflexive(Seq::<char>::empty());
    }
}

/// Whether a row is fit to be the sources of a candidate.
pub open spec fn sound_sources(
    headers: Seq<BundleHeader>,
    records: Seq<ObservationLine>,
    s: Seq<Seq<char>>,
) -> bool {
    &&& keys_rise::<String>(s)
    &&& forall|i: int| 0 <= i < s.len() ==> identifies(headers, records, #[trigger] s[i])
}

/// Entering an identity leaves sources sound, and there is one.
proof fn entered_source(
    headers: Seq<BundleHeader>,
    records: Seq<ObservationLine>,
    s: Seq<Seq<char>>,
    t: Seq<char>,
)
    requires
        sound_sources(headers, records, s),
        identifies(headers, records, t),
    ensures
        sound_sources(headers, records, entered::<String>(s, t)),
        entered::<String>(s, t).len() > 0,
{
    entered_rises::<String>(s, t);
    let r = entered::<String>(s, t);
    assert forall|i: int| 0 <= i < r.len() implies identifies(headers, records, #[trigger] r[i]) by {
        if r[i] != t {
            let k = s.index_of(r[i]);
            assert(identifies(headers, records, s[k]));
        }
    }
}

/// The identities of headers are sound sources.
proof fn header_sources_sound(
    headers: Seq<BundleHeader>,
    records: Seq<ObservationLine>,
    n: int,
)
    requires
        0 <= n <= headers.len(),
    ensures
        sound_sources(headers, records, header_sources(headers, n)),
        n > 0 ==> header_sources(headers, n).len() > 0,
    decreases n,
{
    if n > 0 {
        header_sources_sound(headers, records, n - 1);
        let h = headers[n - 1];
        assert(identifies(headers, records, record_identity(h.run_id@, h.record_id@)));
        entered_source(
            headers,
            records,
            header_sources(headers, n - 1),
            record_identity(h.run_id@, h.record_id@),
        );
    }
}

/// The identities of the records that bear on something are sound sources.
proof fn bearing_sources_sound(
    headers: Seq<BundleHeader>,
    records: Seq<ObservationLine>,
    topic: Topic,
    key: CapabilityModel,
    part: Part,
    n: int,
)
    requires
        0 <= n <= records.len(),
    ensures
        sound_sources(headers, records, bearing_sources(records, topic, key, part, n)),
        (exists|i: int| 0 <= i < n && bears(#[trigger] records[i], topic, key, part))
            ==> bearing_sources(records, topic, key, part, n).len() > 0,
    decreases n,
{
    if n > 0 {
        bearing_sources_sound(headers, records, topic, key, part, n - 1);
        let front = bearing_sources(records, topic, key, part, n - 1);
        let line = records[n - 1];
        if bears(line, topic, key, part) {
            let common = capability_of(Some(line))->0.common;
            let t = record_identity(common.run_id@, common.record_id@);
            assert(t == record_identity(line_run(records[n - 1]), line_record(records[n - 1])));
            assert(identifies(headers, records, t));
            entered_source(headers, records, front, t);
        } else if exists|i: int| 0 <= i < n && bears(#[trigger] records[i], topic, key, part) {
            let i = choose|i: int| 0 <= i < n && bears(#[trigger] records[i], topic, key, part);
            assert(i < n - 1);
        }
    }
}

/// What capabilities are keyed by is what a record is keyed by.
pub proof fn key_borne(records: Seq<ObservationLine>, topic: Topic, n: int)
    requires
        0 <= n <= records.len(),
    ensures
        keys_rise::<CapabilityKey>(capability_keys(records, topic, n)),
        forall|k: int|
            0 <= k < capability_keys(records, topic, n).len() ==> exists|i: int|
                0 <= i < n && bears(
                    #[trigger] records[i],
                    topic,
                    #[trigger] capability_keys(records, topic, n)[k],
                    Part::Capability,
                ),
    decreases n,
{
    if n > 0 {
        key_borne(records, topic, n - 1);
        let front = capability_keys(records, topic, n - 1);
        let all = capability_keys(records, topic, n);
        match topic_key(records[n - 1], topic) {
            Some(key) => {
                entered_rises::<CapabilityKey>(front, key);
            },
            None => {},
        }
        assert forall|k: int| 0 <= k < all.len() implies exists|i: int|
            0 <= i < n && bears(#[trigger] records[i], topic, #[trigger] all[k], Part::Capability) by {
            if front.contains(all[k]) {
                let j = front.index_of(all[k]);
                assert(front[j] == all[k]);
                let i = choose|i: int|
                    0 <= i < n - 1 && bears(#[trigger] records[i], topic, front[j], Part::Capability);
                assert(bears(records[i], topic, all[k], Part::Capability));
            } else {
                assert(bears(records[n - 1], topic, all[k], Part::Capability));
            }
        }
    }
}

/// Labels come from a record that has some.
proof fn labels_borne(records: Seq<ObservationLine>, key: CapabilityModel, n: int)
    requires
        0 <= n <= records.len(),
        first_labels(records, key, n).len() > 0,
    ensures
        exists|i: int| 0 <= i < n && bears(#[trigger] records[i], Topic::Property, key, Part::Labels),
    decreases n,
{
    let front = first_labels(records, key, n - 1);
    if bears(records[n - 1], Topic::Property, key, Part::Labels) {
    } else {
        if bears(records[n - 1], Topic::Property, key, Part::Capability) {
            match capability_of(Some(records[n - 1]))->0.subject {
                CapabilitySubject::Property { labels, .. } => {
                    assert(labels.entries().len() == 0);
                    assert(with_labels(front, labels.entries(), 0) == front);
                },
                _ => {},
            }
        }
        labels_borne(records, key, n - 1);
        let i = choose|i: int|
            0 <= i < n - 1 && bears(#[trigger] records[i], Topic::Property, key, Part::Labels);
        assert(bears(records[i], Topic::Property, key, Part::Labels));
    }
}

/// Value profiles come from a record that has some.
proof fn profiles_borne(records: Seq<ObservationLine>, key: CapabilityModel, n: int)
    requires
        0 <= n <= records.len(),
        distinct_profiles(records, key, n).len() > 0,
    ensures
        exists|i: int|
            0 <= i < n && bears(#[trigger] records[i], Topic::Property, key, Part::Profiles),
    decreases n,
{
    let front = distinct_profiles(records, key, n - 1);
    if bears(records[n - 1], Topic::Property, key, Part::Profiles) {
    } else {
        if bears(records[n - 1], Topic::Property, key, Part::Capability) {
            match capability_of(Some(records[n - 1]))->0.subject {
                CapabilitySubject::Property { value_profiles, .. } => {
                    assert(value_profiles@.len() == 0);
                    assert(with_profiles(front, value_profiles@, 0) == front);
                },
                _ => {},
            }
        }
        profiles_borne(records, key, n - 1);
        let i = choose|i: int|
            0 <= i < n - 1 && bears(#[trigger] records[i], Topic::Property, key, Part::Profiles);
        assert(bears(records[i], Topic::Property, key, Part::Profiles));
    }
}

/// Whether a candidate has the id of its assertion, and draws on headers or records, in order.
pub open spec fn sound_candidate(
    headers: Seq<BundleHeader>,
    records: Seq<ObservationLine>,
    c: CandidateModel,
) -> bool {
    &&& c.id == candidate_id(c.assertion)
    &&& sound_sources(headers, records, c.sources)
    &&& c.sources.len() > 0
}

/// Whether every candidate of a row is sound.
pub open spec fn sound_candidates(
    headers: Seq<BundleHeader>,
    records: Seq<ObservationLine>,
    c: Seq<CandidateModel>,
) -> bool {
    forall|i: int| 0 <= i < c.len() ==> sound_candidate(headers, records, #[trigger] c[i])
}

/// A sound candidate behind sound ones leaves them sound.
proof fn pushed_sound(
    headers: Seq<BundleHeader>,
    records: Seq<ObservationLine>,
    c: Seq<CandidateModel>,
    there: bool,
    x: CandidateModel,
)
    requires
        sound_candidates(headers, records, c),
        there ==> sound_candidate(headers, records, x),
    ensures
        sound_candidates(headers, records, push_if(c, there, x)),
{
    let r = push_if(c, there, x);
    assert forall|i: int| 0 <= i < r.len() implies sound_candidate(
        headers,
        records,
        #[trigger] r[i],
    ) by {
        if i < c.len() {
            assert(r[i] == c[i]);
        }
    }
}

/// The candidates for cameras are sound.
proof fn cameras_sound(headers: Seq<BundleHeader>, records: Seq<ObservationLine>, n: int)
    requires
        0 <= n <= cameras(headers, headers.len() as int).len(),
    ensures
        sound_candidates(headers, records, camera_candidates(headers, n)),
    decreases n,
{
    if n > 0 {
        cameras_sound(headers, records, n - 1);
        header_sources_sound(headers, records, headers.len() as int);
        assert(headers.len() > 0);
        let front = camera_candidates(headers, n - 1);
        let all = camera_candidates(headers, n);
        assert(all == push_if(front, true, all.last()));
        pushed_sound(headers, records, front, true, all.last());
    }
}

/// The candidates for operations are sound.
proof fn operations_sound(headers: Seq<BundleHeader>, records: Seq<ObservationLine>, n: int)
    requires
        0 <= n <= capability_keys(records, Topic::Operation, records.len() as int).len(),
    ensures
        sound_candidates(headers, records, operation_candidates(records, n)),
    decreases n,
{
    if n > 0 {
        operations_sound(headers, records, n - 1);
        let m = records.len() as int;
        let key = capability_keys(records, Topic::Operation, m)[n - 1];
        key_borne(records, Topic::Operation, m);
        let i = choose|i: int|
            0 <= i < m && bears(#[trigger] records[i], Topic::Operation, key, Part::Capability);
        assert(bears(records[i], Topic::Operation, key, Part::Capability));
        bearing_sources_sound(headers, records, Topic::Operation, key, Part::Capability, m);
        let front = operation_candidates(records, n - 1);
        let x = operation_candidate(records, key);
        pushed_sound(headers, records, front, true, x);
        assert(operation_candidates(records, n) == push_if(front, true, x));
    }
}

/// The candidates for a property are sound.
proof fn property_sound(
    headers: Seq<BundleHeader>,
    records: Seq<ObservationLine>,
    c: Seq<CandidateModel>,
    k: int,
)
    requires
        sound_candidates(headers, records, c),
        0 <= k < capability_keys(records, Topic::Property, records.len() as int).len(),
    ensures
        sound_candidates(
            headers,
            records,
            with_property(
                c,
                records,
                capability_keys(records, Topic::Property, records.len() as int)[k],
            ),
        ),
{
    let n = records.len() as int;
    let key = capability_keys(records, Topic::Property, n)[k];
    key_borne(records, Topic::Property, n);
    let i = choose|i: int|
        0 <= i < n && bears(#[trigger] records[i], Topic::Property, key, Part::Capability);
    assert(bears(records[i], Topic::Property, key, Part::Capability));
    bearing_sources_sound(headers, records, Topic::Property, key, Part::Capability, n);
    let c1 = c.push(access_candidate(records, key));
    assert(c1 == push_if(c, true, access_candidate(records, key)));
    pushed_sound(headers, records, c, true, access_candidate(records, key));
    let described = crate::generate::propose::first_given(records, key, n).2 is Some;
    pushed_sound(headers, records, c1, described, descriptor_candidate(records, key));
    let c2 = push_if(c1, described, descriptor_candidate(records, key));
    let labelled = first_labels(records, key, n).len() > 0;
    if labelled {
        labels_borne(records, key, n);
        bearing_sources_sound(headers, records, Topic::Property, key, Part::Labels, n);
    }
    pushed_sound(headers, records, c2, labelled, label_candidate(records, key));
    let c3 = push_if(c2, labelled, label_candidate(records, key));
    let profiles = distinct_profiles(records, key, n);
    arranged_is_sorted::<CapabilityValueProfile>(profiles);
    let profiled = arranged::<CapabilityValueProfile>(profiles).len() > 0;
    if profiled {
        profiles_borne(records, key, n);
        bearing_sources_sound(headers, records, Topic::Property, key, Part::Profiles, n);
    }
    pushed_sound(headers, records, c3, profiled, profile_candidate(records, key));
}

/// The candidates for properties are sound.
proof fn properties_sound(
    headers: Seq<BundleHeader>,
    records: Seq<ObservationLine>,
    c: Seq<CandidateModel>,
    i: int,
)
    requires
        sound_candidates(headers, records, c),
        0 <= i,
    ensures
        sound_candidates(headers, records, with_properties(c, records, i)),
    decreases capability_keys(records, Topic::Property, records.len() as int).len() - i,
{
    let keys = capability_keys(records, Topic::Property, records.len() as int);
    if i < keys.len() {
        property_sound(headers, records, c, i);
        properties_sound(headers, records, with_property(c, records, keys[i]), i + 1);
    }
}

/// The candidates that headers and records give are sound.
proof fn all_sound(headers: Seq<BundleHeader>, records: Seq<ObservationLine>)
    ensures
        sound_candidates(headers, records, candidates_of(headers, records)),
{
    let m = cameras(headers, headers.len() as int).len() as int;
    let n = capability_keys(records, Topic::Operation, records.len() as int).len() as int;
    cameras_sound(headers, records, m);
    operations_sound(headers, records, n);
    let a = camera_candidates(headers, m);
    let b = operation_candidates(records, n);
    assert forall|i: int| 0 <= i < (a + b).len() implies sound_candidate(
        headers,
        records,
        #[trigger] (a + b)[i],
    ) by {
        if i < a.len() {
            assert((a + b)[i] == a[i]);
        } else {
            assert((a + b)[i] == b[i - a.len()]);
        }
    }
    properties_sound(headers, records, a + b, 0);
}

/// The ids that a record is linked to are those of the candidates that draw on it, in order.
proof fn linked_in_order(c: Seq<CandidateModel>, identity: Seq<char>, n: int)
    requires
        texts_ascend(candidate_ids(c)),
        0 <= n <= c.len(),
    ensures
        texts_ascend(linked_ids(c, identity, n)),
        forall|k: int|
            0 <= k < linked_ids(c, identity, n).len() ==> exists|i: int|
                0 <= i < n && #[trigger] c[i].id == #[trigger] linked_ids(c, identity, n)[k]
                    && c[i].sources.contains(identity),
        forall|i: int|
            0 <= i < n && c[i].sources.contains(identity) ==> linked_ids(
                c,
                identity,
                n,
            ).contains(#[trigger] c[i].id),
    decreases n,
{
    if n > 0 {
        linked_in_order(c, identity, n - 1);
        let front = linked_ids(c, identity, n - 1);
        let all = linked_ids(c, identity, n);
        let x = c[n - 1];
        let ids = candidate_ids(c);
        assert forall|i: int, j: int|
            #![trigger all[i], all[j]]
            0 <= i < j < all.len() implies text_lt(all[i], all[j]) by {
            if j < front.len() {
                assert(all[i] == front[i] && all[j] == front[j]);
            } else {
                assert(all[i] == front[i]);
                let k = choose|k: int|
                    0 <= k < n - 1 && #[trigger] c[k].id == front[i] && c[k].sources.contains(
                        identity,
                    );
                assert(ids[k] == c[k].id && ids[n - 1] == x.id);
                assert(text_lt(ids[k], ids[n - 1]));
            }
        }
        assert forall|k: int| 0 <= k < all.len() implies exists|i: int|
            0 <= i < n && #[trigger] c[i].id == #[trigger] all[k] && c[i].sources.contains(
                identity,
            ) by {
            if k < front.len() {
                assert(all[k] == front[k]);
                let i = choose|i: int|
                    0 <= i < n - 1 && #[trigger] c[i].id == front[k] && c[i].sources.contains(
                        identity,
                    );
                assert(c[i].id == all[k]);
            } else {
                assert(c[n - 1].id == all[k]);
            }
        }
        assert forall|i: int| 0 <= i < n && c[i].sources.contains(identity) implies all.contains(
            #[trigger] c[i].id,
        ) by {
            if i < n - 1 {
                assert(front.contains(c[i].id));
                let k = front.index_of(c[i].id);
                assert(all[k] == c[i].id);
            } else {
                assert(all[all.len() - 1] == c[i].id);
            }
        }
    }
}

/// A candidate is found by its id.
proof fn candidate_found(c: Seq<CandidateModel>, i: int, k: int)
    requires
        texts_ascend(candidate_ids(c)),
        0 <= i <= k < c.len(),
    ensures
        candidate_for(c, c[k].id, i) == Some(c[k]),
    decreases k - i,
{
    if i < k {
        let ids = candidate_ids(c);
        assert(ids[i] == c[i].id && ids[k] == c[k].id);
        assert(text_lt(ids[i], ids[k]));
        text_lt_irreflexive(c[k].id);
        candidate_found(c, i + 1, k);
    }
}

/// A record is found by its identity.
proof fn link_found(l: Seq<LinkModel>, i: int, k: int)
    requires
        texts_ascend(link_identities(l)),
        0 <= i <= k < l.len(),
    ensures
        link_for(l, l[k].identity, i) == Some(l[k]),
    decreases k - i,
{
    if i < k {
        let ids = link_identities(l);
        assert(ids[i] == l[i].identity && ids[k] == l[k].identity);
        assert(text_lt(ids[i], ids[k]));
        text_lt_irreflexive(l[k].identity);
        link_found(l, i + 1, k);
    }
}

/// Whether every source of every candidate is the identity of a record.
pub open spec fn sources_linked(c: Seq<CandidateModel>, l: Seq<LinkModel>) -> bool {
    forall|i: int, k: int|
        #![trigger c[i].sources[k]]
        0 <= i < c.len() && 0 <= k < c[i].sources.len() ==> exists|j: int|
            0 <= j < l.len() && #[trigger] l[j].identity == c[i].sources[k]
}

/// Whether each record is linked to the candidates that draw on it.
pub open spec fn records_linked(c: Seq<CandidateModel>, l: Seq<LinkModel>) -> bool {
    forall|j: int| 0 <= j < l.len() ==> #[trigger] l[j] == link_model(c, l[j].identity)
}

/// The sources of a candidate that is in the row are linked back to it.
proof fn sources_coherent(c: Seq<CandidateModel>, l: Seq<LinkModel>, i: int, k: int)
    requires
        texts_ascend(candidate_ids(c)),
        texts_ascend(link_identities(l)),
        sources_linked(c, l),
        records_linked(c, l),
        0 <= i < c.len(),
        0 <= k,
    ensures
        source_violation(c[i], l, k) is None,
    decreases c[i].sources.len() - k,
{
    if k < c[i].sources.len() {
        let source = c[i].sources[k];
        let j = choose|j: int| 0 <= j < l.len() && #[trigger] l[j].identity == c[i].sources[k];
        link_found(l, 0, j);
        assert(c[i].sources.contains(source));
        linked_in_order(c, source, c.len() as int);
        assert(l[j] == link_model(c, source));
        assert(l[j].candidates.contains(c[i].id));
        sources_coherent(c, l, i, k + 1);
    }
}

/// Sound candidates from `i` on are coherent with the records.
proof fn candidates_coherent(
    headers: Seq<BundleHeader>,
    records: Seq<ObservationLine>,
    c: Seq<CandidateModel>,
    l: Seq<LinkModel>,
    i: int,
)
    requires
        sound_candidates(headers, records, c),
        texts_ascend(candidate_ids(c)),
        texts_ascend(link_identities(l)),
        sources_linked(c, l),
        records_linked(c, l),
        0 <= i,
    ensures
        candidates_violation(c, l, i) is None,
    decreases c.len() - i,
{
    if i < c.len() {
        assert(sound_candidate(headers, records, c[i]));
        rising_texts_ascend(c[i].sources);
        sources_coherent(c, l, i, 0);
        assert(candidate_violation(c[i], l) is None);
        candidates_coherent(headers, records, c, l, i + 1);
    }
}

/// The candidates that a record is linked to draw on it.
proof fn backlinks_coherent(c: Seq<CandidateModel>, l: LinkModel, k: int)
    requires
        texts_ascend(candidate_ids(c)),
        l == link_model(c, l.identity),
        0 <= k,
    ensures
        backlink_violation(l, c, k) is None,
    decreases l.candidates.len() - k,
{
    if k < l.candidates.len() {
        linked_in_order(c, l.identity, c.len() as int);
        let i = choose|i: int|
            0 <= i < c.len() && #[trigger] c[i].id == linked_ids(
                c,
                l.identity,
                c.len() as int,
            )[k] && c[i].sources.contains(l.identity);
        candidate_found(c, 0, i);
        backlinks_coherent(c, l, k + 1);
    }
}

/// Records from `i` on are coherent with the candidates.
proof fn links_coherent(c: Seq<CandidateModel>, l: Seq<LinkModel>, i: int)
    requires
        texts_ascend(candidate_ids(c)),
        records_linked(c, l),
        0 <= i,
    ensures
        links_violation(l, c, i) is None,
    decreases l.len() - i,
{
    if i < l.len() {
        assert(l[i] == link_model(c, l[i].identity));
        linked_in_order(c, l[i].identity, c.len() as int);
        backlinks_coherent(c, l[i], 0);
        assert(link_violation(l[i], c) is None);
        links_coherent(c, l, i + 1);
    }
}

/// Whether a line that was read names in its text the run and the record that it was read into.
pub open spec fn faithful(line: BundleLine) -> bool {
    match line.decoded {
        Ok(v) => json_text_member(line.text@, "recordId"@) == Ok::<Option<Seq<char>>, Seq<char>>(
            Some(line_record(v)),
        ) && json_text_member(line.text@, "runId"@) == Ok::<Option<Seq<char>>, Seq<char>>(
            Some(line_run(v)),
        ),
        Err(_) => true,
    }
}

/// Whether every line of the bundles is faithful.
pub open spec fn all_faithful(bundles: Seq<Vec<BundleLine>>) -> bool {
    forall|i: int, j: int|
        #![trigger bundles[i]@[j]]
        0 <= i < bundles.len() && 0 <= j < bundles[i]@.len() ==> faithful(bundles[i]@[j])
}

/// A faithful line is known by the run and the record that it holds.
proof fn faithful_identity(bundles: Seq<Vec<BundleLine>>, i: int)
    requires
        all_faithful(bundles),
        0 <= i < judged_lines(bundles).len(),
        judged_lines(bundles)[i].value is Some,
    ensures
        judged_lines(bundles)[i].identity == record_identity(
            line_run(judged_lines(bundles)[i].value->0),
            line_record(judged_lines(bundles)[i].value->0),
        ),
{
    let (b, k) = spot_found(bundles, i);
    spot_holds(bundles, b, k);
    assert(checked_lines(bundles)[i].value == judged_lines(bundles)[i].value);
    assert(checked_lines(bundles)[i].identity == judged_lines(bundles)[i].identity);
    let own = bundles[b]@;
    if own.len() > 0 {
        assert(parsed_bundle(own)[k] == parsed_line(own[k]));
        assert(faithful(bundles[b]@[k]));
    }
}

/// The identity of what an accepted line holds is that of a disposition.
proof fn disposed(bundles: Seq<Vec<BundleLine>>, i: int, dispositions: Seq<DispositionModel>) -> (d: int)
    requires
        all_faithful(bundles),
        0 <= i < judged_lines(bundles).len(),
        judged_lines(bundles)[i].value is Some,
        judged_lines(bundles)[i].faults.len() == 0,
        dispositions == arranged::<RecordDisposition>(
            all_dispositions(judged_lines(bundles), judged_lines(bundles).len() as int),
        ),
    ensures
        0 <= d < dispositions.len(),
        dispositions[d].identity == record_identity(
            line_run(judged_lines(bundles)[i].value->0),
            line_record(judged_lines(bundles)[i].value->0),
        ),
{
    broadcast use vstd::seq_lib::group_to_multiset_ensures;

    let lines = judged_lines(bundles);
    let n = lines.len() as int;
    faithful_identity(bundles, i);
    let all = all_dispositions(lines, n);
    let x = acceptance(lines[i].identity);
    acceptance_listed(lines, n, i);
    arranged_is_sorted::<RecordDisposition>(all);
    assert(all.to_multiset().count(x) > 0);
    assert(dispositions.contains(x));
    dispositions.index_of(x)
}

/// An accepted line is listed as accepted.
proof fn acceptance_listed(lines: Seq<Parsed>, n: int, i: int)
    requires
        0 <= i < n <= lines.len(),
        lines[i].faults.len() == 0,
    ensures
        all_dispositions(lines, n).contains(acceptance(lines[i].identity)),
    decreases n,
{
    let front = all_dispositions(lines, n - 1);
    let all = all_dispositions(lines, n);
    if i == n - 1 {
        assert(all[front.len() as int] == acceptance(lines[i].identity));
    } else {
        acceptance_listed(lines, n - 1, i);
        let k = front.index_of(acceptance(lines[i].identity));
        assert(all[k] == front[k]);
    }
}

/// What identifies a header or a record of accepted bundles is the identity of a disposition.
proof fn identity_disposed(
    bundles: Seq<Vec<BundleLine>>,
    headers: Seq<BundleHeader>,
    records: Seq<ObservationLine>,
    dispositions: Seq<DispositionModel>,
    t: Seq<char>,
) -> (d: int)
    requires
        all_faithful(bundles),
        ({
            let lines = judged_lines(bundles);
            let n = lines.len() as int;
            &&& headers == arranged::<BundleHeader>(accepted_headers(lines, n))
            &&& records == arranged::<ObservationLine>(accepted_records(lines, n))
            &&& dispositions == arranged::<RecordDisposition>(all_dispositions(lines, n))
        }),
        identifies(headers, records, t),
    ensures
        0 <= d < dispositions.len(),
        dispositions[d].identity == t,
{
    broadcast use vstd::seq_lib::group_to_multiset_ensures;

    let lines = judged_lines(bundles);
    let n = lines.len() as int;
    assert(lines.take(n) == lines);
    if exists|i: int|
        0 <= i < headers.len() && t == record_identity(
            (#[trigger] headers[i]).run_id@,
            headers[i].record_id@,
        ) {
        let i = choose|i: int|
            0 <= i < headers.len() && t == record_identity(
                (#[trigger] headers[i]).run_id@,
                headers[i].record_id@,
            );
        let all = accepted_headers(lines, n);
        arranged_is_sorted::<BundleHeader>(all);
        assert(headers.contains(headers[i]));
        assert(headers.to_multiset().count(headers[i]) > 0);
        assert(all.contains(headers[i]));
        headers_gathered(lines, n);
        let f = |l: Parsed| line_header(l);
        let k = gathered_from(lines, f, headers[i]);
        assert(line_header(lines[k]).contains(headers[i]));
        disposed(bundles, k, dispositions)
    } else {
        let i = choose|i: int|
            0 <= i < records.len() && t == record_identity(
                line_run(#[trigger] records[i]),
                line_record(records[i]),
            );
        let all = accepted_records(lines, n);
        arranged_is_sorted::<ObservationLine>(all);
        assert(records.contains(records[i]));
        assert(records.to_multiset().count(records[i]) > 0);
        assert(all.contains(records[i]));
        records_gathered(lines, n);
        let f = |l: Parsed| accepted_record(l);
        let k = gathered_from(lines, f, records[i]);
        assert(accepted_record(lines[k]).contains(records[i]));
        disposed(bundles, k, dispositions)
    }
}

/// Ids in ascending order without repeats rise.
proof fn sorted_ids_ascend(c: Seq<CandidateModel>)
    requires
        keys_ascend::<ProposalCandidate>(c),
        candidate_ids(c).no_duplicates(),
    ensures
        texts_ascend(candidate_ids(c)),
{
    let ids = candidate_ids(c);
    assert forall|i: int, j: int|
        #![trigger ids[i], ids[j]]
        0 <= i < j < ids.len() implies text_lt(ids[i], ids[j]) by {
        assert(ids[i] == c[i].id && ids[j] == c[j].id);
        assert(!key_lt(ProposalCandidate::key_of(c[j]), ProposalCandidate::key_of(c[i])));
        text_lt_total(ids[i], ids[j]);
    }
}

/// Identities in ascending order without repeats rise.
proof fn sorted_identities_ascend(
    c: Seq<CandidateModel>,
    dispositions: Seq<DispositionModel>,
)
    requires
        keys_ascend::<RecordDisposition>(dispositions),
        link_identities(link_models(c, dispositions)).no_duplicates(),
    ensures
        texts_ascend(link_identities(link_models(c, dispositions))),
{
    let l = link_models(c, dispositions);
    let ids = link_identities(l);
    assert forall|i: int, j: int|
        #![trigger ids[i], ids[j]]
        0 <= i < j < ids.len() implies text_lt(ids[i], ids[j]) by {
        assert(ids[i] == dispositions[i].identity && ids[j] == dispositions[j].identity);
        assert(!key_lt(
            RecordDisposition::key_of(dispositions[j]),
            RecordDisposition::key_of(dispositions[i]),
        ));
        text_lt_total(ids[i], ids[j]);
    }
}

/// Sorted candidates of headers and records are sound.
proof fn sorted_sound(headers: Seq<BundleHeader>, records: Seq<ObservationLine>)
    ensures
        sound_candidates(
            headers,
            records,
            arranged::<ProposalCandidate>(candidates_of(headers, records)),
        ),
{
    broadcast use vstd::seq_lib::group_to_multiset_ensures;

    let given = candidates_of(headers, records);
    let c = arranged::<ProposalCandidate>(given);
    arranged_is_sorted::<ProposalCandidate>(given);
    all_sound(headers, records);
    assert forall|i: int| 0 <= i < c.len() implies sound_candidate(
        headers,
        records,
        #[trigger] c[i],
    ) by {
        assert(c.contains(c[i]));
        assert(c.to_multiset().count(c[i]) > 0);
        assert(given.contains(c[i]));
        let k = given.index_of(c[i]);
        assert(sound_candidate(headers, records, given[k]));
    }
}

/// The candidates of a proposal are sorted by their ids. Each has the id of its assertion, and its
/// sources are some, in ascending order, none twice.
pub proof fn candidates_have_sources(
    p: Proposal,
    headers: Seq<BundleHeader>,
    records: Seq<ObservationLine>,
    dispositions: Seq<DispositionModel>,
)
    requires
        proposes(p, headers, records, dispositions),
    ensures
        keys_ascend::<ProposalCandidate>(models_of(p.candidates@)),
        forall|i: int|
            0 <= i < p.candidates@.len() ==> {
                let c = #[trigger] models_of(p.candidates@)[i];
                c.id == candidate_id(c.assertion) && c.sources.len() > 0 && texts_ascend(c.sources)
            },
{
    let c = models_of(p.candidates@);
    arranged_is_sorted::<ProposalCandidate>(candidates_of(headers, records));
    sorted_sound(headers, records);
    assert forall|i: int| 0 <= i < p.candidates@.len() implies {
        let x = #[trigger] models_of(p.candidates@)[i];
        x.id == candidate_id(x.assertion) && x.sources.len() > 0 && texts_ascend(x.sources)
    } by {
        assert(sound_candidate(headers, records, c[i]));
    }
}

/// A record is linked to a candidate exactly where some candidate draws on it.
proof fn linked_where_drawn_on(c: Seq<CandidateModel>, identity: Seq<char>, n: int)
    requires
        0 <= n <= c.len(),
    ensures
        (linked_ids(c, identity, n).len() > 0) == exists|i: int|
            0 <= i < n && (#[trigger] c[i]).sources.contains(identity),
    decreases n,
{
    if n > 0 {
        linked_where_drawn_on(c, identity, n - 1);
        if linked_ids(c, identity, n - 1).len() > 0 {
            let i = choose|i: int|
                0 <= i < n - 1 && (#[trigger] c[i]).sources.contains(identity);
            assert(c[i].sources.contains(identity));
        }
        if c[n - 1].sources.contains(identity) {
            assert(linked_ids(c, identity, n).len() > 0);
        }
    }
}

/// Without a fault, a line has one disposition.
proof fn accepted_dispositions(lines: Seq<Parsed>, n: int)
    requires
        0 <= n <= lines.len(),
        forall|i: int| 0 <= i < lines.len() ==> (#[trigger] lines[i]).faults.len() == 0,
    ensures
        all_dispositions(lines, n).len() == n,
    decreases n,
{
    if n > 0 {
        accepted_dispositions(lines, n - 1);
        assert(lines[n - 1].faults.len() == 0);
    }
}

/// A proposal made from bundles disposes of every line: it has one entry for each, and the entry is
/// `Proposed` exactly where some candidate draws on the line.
pub proof fn every_line_is_disposed_of(bundles: Seq<Vec<BundleLine>>, p: Proposal)
    requires
        proposed_from(p, bundles),
    ensures
        p.record_dispositions@.len() == judged_lines(bundles).len(),
        forall|k: int|
            0 <= k < p.record_dispositions@.len() ==> ((
            #[trigger] p.record_dispositions@[k]).status == ProposalRecordStatus::Proposed) == exists|
                i: int,
            |
                0 <= i < p.candidates@.len() && (
                #[trigger] models_of(p.candidates@)[i]).sources.contains(
                    p.record_dispositions@[k].identity@,
                ),
{
    let lines = judged_lines(bundles);
    let n = lines.len() as int;
    let given = all_dispositions(lines, n);
    let c = models_of(p.candidates@);
    let l = links_of(p.record_dispositions@);
    arranged_is_sorted::<RecordDisposition>(given);
    assert forall|i: int| 0 <= i < n implies (#[trigger] lines[i]).faults.len() == 0 by {
        nothing_rejected(lines, n, i);
    }
    accepted_dispositions(lines, n);
    assert forall|k: int| 0 <= k < p.record_dispositions@.len() implies ((
    #[trigger] p.record_dispositions@[k]).status == ProposalRecordStatus::Proposed) == exists|
        i: int,
    |
        0 <= i < p.candidates@.len() && (#[trigger] models_of(p.candidates@)[i]).sources.contains(
            p.record_dispositions@[k].identity@,
        ) by {
        let d = p.record_dispositions@[k];
        assert(l[k].status == d.status && l[k].identity == d.identity@);
        linked_where_drawn_on(c, d.identity@, c.len() as int);
    }
}

/// A proposal made from bundles is what its digests say, so that a review can bind to it. This holds
/// where the lines name the records that they were read into, no two assertions have one digest, and
/// no two records have one identity.
pub proof fn proposals_are_coherent(bundles: Seq<Vec<BundleLine>>, p: Proposal)
    requires
        proposed_from(p, bundles),
        all_faithful(bundles),
        candidate_ids(models_of(p.candidates@)).no_duplicates(),
        link_identities(links_of(p.record_dispositions@)).no_duplicates(),
    ensures
        integrity_violation(p) is None,
{
    broadcast use vstd::seq_lib::group_to_multiset_ensures;

    let lines = judged_lines(bundles);
    let n = lines.len() as int;
    let headers = arranged::<BundleHeader>(accepted_headers(lines, n));
    let records = arranged::<ObservationLine>(accepted_records(lines, n));
    let dispositions = arranged::<RecordDisposition>(all_dispositions(lines, n));
    let given = candidates_of(headers, records);
    let c = arranged::<ProposalCandidate>(given);
    let l = link_models(c, dispositions);
    arranged_is_sorted::<ProposalCandidate>(given);
    arranged_is_sorted::<RecordDisposition>(all_dispositions(lines, n));
    sorted_ids_ascend(c);
    sorted_identities_ascend(c, dispositions);
    sorted_sound(headers, records);
    assert(sources_linked(c, l)) by {
        assert forall|i: int, k: int|
            #![trigger c[i].sources[k]]
            0 <= i < c.len() && 0 <= k < c[i].sources.len() implies exists|j: int|
            0 <= j < l.len() && #[trigger] l[j].identity == c[i].sources[k] by {
            assert(sound_candidate(headers, records, c[i]));
            assert(identifies(headers, records, c[i].sources[k]));
            let d = identity_disposed(
                bundles,
                headers,
                records,
                dispositions,
                c[i].sources[k],
            );
            assert(l[d].identity == c[i].sources[k]);
        }
    }
    assert(records_linked(c, l));
    candidates_coherent(headers, records, c, l, 0);
    links_coherent(c, l, 0);
}

} // verus!
