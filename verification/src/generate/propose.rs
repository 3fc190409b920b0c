//! From accepted observations to a proposal.

use crate::generate::claims::{
    copy_context, copy_descriptor, copy_profile, same_profile, DescriptorModel, ProfileModel, Scope,
};
use crate::generate::conflicts::capability_of;
use crate::generate::parse::{record_identity, BundleLine};
use crate::generate::report::{
    accepted_headers, accepted_records, all_dispositions, judged_lines, reports_on, tally,
    validate_bundles, DispositionModel, Tally,
};
use crate::generate::write::{
    candidate_id, contents_digest, digest_json, label_models, links_of, optional_descriptor,
    profiles_of, proposal_digest, scopes_of, AssertionModel, CandidateModel, LabelModel, LinkModel,
    Written,
};
use crate::generate::{
    CandidateAssertion, Proposal, ProposalCandidate, ProposalRecordDisposition,
    ProposalRecordStatus, RecordDisposition, ValidatedObservations, ValidationReport,
    PROPOSAL_SCHEMA,
};
use crate::name_map::{ascending, NameMap};
use crate::observation::{
    BundleHeader, CapabilityDescriptor, CapabilityRecord, CapabilitySubject,
    CapabilityValueProfile, ExecutionContext, ObservationLine, OBSERVATION_SCHEMA_VERSION,
};
use crate::order::{
    arrange, arranged, enter, entered, entered_rises, keys_rise, models_of, texts_before, Keyed,
    SortKey,
};
use crate::text::{
    copy_option, copy_texts, join3, optional_text, precedes, same, text_lt_irreflexive, views,
};
use vstd::prelude::*;

verus! {

/// A camera as a header names it.
pub struct CameraKey {
    pub manufacturer: String,
    pub model: String,
    pub firmware: String,
}

/// A camera: manufacturer, model and firmware.
pub type CameraModel = (Seq<char>, Seq<char>, Seq<char>);

impl Keyed for CameraKey {
    type Model = CameraModel;

    open spec fn model(&self) -> CameraModel {
        (self.manufacturer@, self.model@, self.firmware@)
    }

    open spec fn key_of(m: CameraModel) -> SortKey {
        SortKey { major: m.0, minor: m.1, number: 0, last: m.2 }
    }

    fn sorts_before(&self, other: &Self) -> (r: bool) {
        texts_before(
            (self.manufacturer.as_str(), self.model.as_str(), self.firmware.as_str()),
            (other.manufacturer.as_str(), other.model.as_str(), other.firmware.as_str()),
        )
    }
}

impl Keyed for ExecutionContext {
    type Model = Scope;

    open spec fn model(&self) -> Scope {
        self@
    }

    open spec fn key_of(m: Scope) -> SortKey {
        SortKey { major: m.0, minor: m.1, number: 0, last: m.2 }
    }

    fn sorts_before(&self, other: &Self) -> (r: bool) {
        texts_before(
            (self.connection.as_str(), self.mode.as_str(), self.state.as_str()),
            (other.connection.as_str(), other.mode.as_str(), other.state.as_str()),
        )
    }
}

/// What a capability is keyed by.
pub struct CapabilityKey {
    pub code: String,
    pub supported: bool,
}

/// The code of a capability, and whether it is supported.
pub type CapabilityModel = (Seq<char>, bool);

impl Keyed for CapabilityKey {
    type Model = CapabilityModel;

    open spec fn model(&self) -> CapabilityModel {
        (self.code@, self.supported)
    }

    open spec fn key_of(m: CapabilityModel) -> SortKey {
        SortKey {
            major: m.0,
            minor: Seq::empty(),
            number: if m.1 {
                1
            } else {
                0
            },
            last: Seq::empty(),
        }
    }

    fn sorts_before(&self, other: &Self) -> (r: bool) {
        proof {
            text_lt_irreflexive(Seq::<char>::empty());
        }
        if !same(self.code.as_str(), other.code.as_str()) {
            precedes(self.code.as_str(), other.code.as_str())
        } else {
            !self.supported && other.supported
        }
    }
}

impl Keyed for (String, String) {
    type Model = LabelModel;

    open spec fn model(&self) -> LabelModel {
        (self.0@, self.1@)
    }

    open spec fn key_of(m: LabelModel) -> SortKey {
        SortKey { major: m.0, minor: Seq::empty(), number: 0, last: Seq::empty() }
    }

    fn sorts_before(&self, other: &Self) -> (r: bool) {
        proof {
            text_lt_irreflexive(self.0@);
            text_lt_irreflexive(Seq::<char>::empty());
        }
        precedes(self.0.as_str(), other.0.as_str())
    }
}

/// The cameras that the first `n` headers name, in ascending order.
pub open spec fn cameras(headers: Seq<BundleHeader>, n: int) -> Seq<CameraModel>
    decreases n,
{
    if n <= 0 || n > headers.len() {
        Seq::empty()
    } else {
        let c = headers[n - 1].camera;
        entered::<CameraKey>(cameras(headers, n - 1), (c.manufacturer@, c.model@, c.firmware@))
    }
}

/// The cameras that the headers name, in ascending order.
fn collect_cameras(headers: &Vec<BundleHeader>) -> (r: Vec<CameraKey>)
    ensures
        models_of(r@) == cameras(headers@, headers@.len() as int),
{
    let mut out: Vec<CameraKey> = Vec::new();
    proof {
        assert(models_of(out@) == Seq::<CameraModel>::empty());
    }
    let mut i: usize = 0;
    while i < headers.len()
        invariant
            i <= headers.len(),
            models_of(out@) == cameras(headers@, i as int),
        decreases headers.len() - i,
    {
        let c = &headers[i].camera;
        enter(
            &mut out,
            CameraKey {
                manufacturer: c.manufacturer.clone(),
                model: c.model.clone(),
                firmware: c.firmware.clone(),
            },
        );
        i = i + 1;
    }
    out
}

/// The identities of the first `n` headers, in ascending order.
pub open spec fn header_sources(headers: Seq<BundleHeader>, n: int) -> Seq<Seq<char>>
    decreases n,
{
    if n <= 0 || n > headers.len() {
        Seq::empty()
    } else {
        entered::<String>(
            header_sources(headers, n - 1),
            record_identity(headers[n - 1].run_id@, headers[n - 1].record_id@),
        )
    }
}

/// The identities of the headers, in ascending order.
fn collect_header_sources(headers: &Vec<BundleHeader>) -> (r: Vec<String>)
    ensures
        views(r@) == header_sources(headers@, headers@.len() as int),
{
    let mut out: Vec<String> = Vec::new();
    proof {
        assert(models_of(out@) == Seq::<Seq<char>>::empty());
    }
    let mut i: usize = 0;
    while i < headers.len()
        invariant
            i <= headers.len(),
            models_of(out@) == header_sources(headers@, i as int),
        decreases headers.len() - i,
    {
        enter(
            &mut out,
            join3(headers[i].run_id.as_str(), ":", headers[i].record_id.as_str()),
        );
        i = i + 1;
    }
    proof {
        assert(models_of(out@) == views(out@));
    }
    out
}

/// What a candidate can be about.
#[derive(Debug, Clone, Copy, PartialEq, Eq, Structural)]
pub enum Topic {
    Operation,
    Property,
}

/// The part of a capability record that a candidate draws on.
#[derive(Debug, Clone, Copy, PartialEq, Eq, Structural)]
pub enum Part {
    Capability,
    Labels,
    Profiles,
}

/// What the capability in a record is keyed by, where it is on the topic.
pub open spec fn topic_key(line: ObservationLine, topic: Topic) -> Option<CapabilityModel> {
    match (capability_of(Some(line)), topic) {
        (Some(r), Topic::Operation) => match r.subject {
            CapabilitySubject::Operation { code, supported, .. } => Some((code@, supported)),
            _ => None,
        },
        (Some(r), Topic::Property) => match r.subject {
            CapabilitySubject::Property { code, supported, .. } => Some((code@, supported)),
            _ => None,
        },
        (None, _) => None,
    }
}

/// Whether a capability record has the part.
pub open spec fn has_part(r: CapabilityRecord, part: Part) -> bool {
    match part {
        Part::Capability => true,
        Part::Labels => r.subject matches CapabilitySubject::Property { labels, .. }
            && labels.entries().len() > 0,
        Part::Profiles => r.subject matches CapabilitySubject::Property { value_profiles, .. }
            && value_profiles@.len() > 0,
    }
}

/// Whether a record bears on the part of the capability.
pub open spec fn bears(
    line: ObservationLine,
    topic: Topic,
    key: CapabilityModel,
    part: Part,
) -> bool {
    topic_key(line, topic) == Some(key) && has_part(capability_of(Some(line))->0, part)
}

/// What the capability in a record is keyed by, where it is on the topic.
fn find_topic_key(line: &ObservationLine, topic: Topic) -> (r: Option<CapabilityKey>)
    ensures
        match r {
            Some(k) => topic_key(*line, topic) == Some(k.model()),
            None => topic_key(*line, topic) is None,
        },
{
    match line {
        ObservationLine::Capability(r) => match &r.subject {
            CapabilitySubject::Operation { code, supported, .. } => if topic == Topic::Operation {
                Some(CapabilityKey { code: code.clone(), supported: *supported })
            } else {
                None
            },
            CapabilitySubject::Property { code, supported, .. } => if topic == Topic::Property {
                Some(CapabilityKey { code: code.clone(), supported: *supported })
            } else {
                None
            },
            CapabilitySubject::Identity { .. } => None,
        },
        _ => None,
    }
}

/// The record's capability, where it bears on the part of the capability.
fn find_bearing<'a>(
    line: &'a ObservationLine,
    topic: Topic,
    key: &CapabilityKey,
    part: Part,
) -> (r: Option<&'a CapabilityRecord>)
    ensures
        match r {
            Some(c) => bears(*line, topic, key.model(), part) && capability_of(Some(*line)) == Some(
                *c,
            ),
            None => !bears(*line, topic, key.model(), part),
        },
{
    match find_topic_key(line, topic) {
        None => None,
        Some(k) => {
            if !same(k.code.as_str(), key.code.as_str()) || k.supported != key.supported {
                return None;
            }
            match line {
                ObservationLine::Capability(c) => {
                    let there = match part {
                        Part::Capability => true,
                        Part::Labels => match &c.subject {
                            CapabilitySubject::Property { labels, .. } => !labels.is_empty(),
                            _ => false,
                        },
                        Part::Profiles => match &c.subject {
                            CapabilitySubject::Property { value_profiles, .. } => {
                                value_profiles.len() > 0
                            },
                            _ => false,
                        },
                    };
                    if there {
                        Some(c)
                    } else {
                        None
                    }
                },
                _ => None,
            }
        },
    }
}

/// What the capabilities on the topic in the first `n` records are keyed by, in ascending order.
pub open spec fn capability_keys(records: Seq<ObservationLine>, topic: Topic, n: int) -> Seq<
    CapabilityModel,
>
    decreases n,
{
    if n <= 0 || n > records.len() {
        Seq::empty()
    } else {
        let front = capability_keys(records, topic, n - 1);
        match topic_key(records[n - 1], topic) {
            Some(key) => entered::<CapabilityKey>(front, key),
            None => front,
        }
    }
}

/// What the capabilities on the topic are keyed by, in ascending order.
fn collect_keys(records: &Vec<ObservationLine>, topic: Topic) -> (r: Vec<CapabilityKey>)
    ensures
        models_of(r@) == capability_keys(records@, topic, records@.len() as int),
{
    let mut out: Vec<CapabilityKey> = Vec::new();
    proof {
        assert(models_of(out@) == Seq::<CapabilityModel>::empty());
    }
    let mut i: usize = 0;
    while i < records.len()
        invariant
            i <= records.len(),
            models_of(out@) == capability_keys(records@, topic, i as int),
        decreases records.len() - i,
    {
        match find_topic_key(&records[i], topic) {
            Some(key) => enter(&mut out, key),
            None => {},
        }
        i = i + 1;
    }
    out
}

/// The scopes in which the first `n` records bear on the part, in ascending order.
pub open spec fn bearing_scopes(
    records: Seq<ObservationLine>,
    topic: Topic,
    key: CapabilityModel,
    part: Part,
    n: int,
) -> Seq<Scope>
    decreases n,
{
    if n <= 0 || n > records.len() {
        Seq::empty()
    } else {
        let front = bearing_scopes(records, topic, key, part, n - 1);
        if bears(records[n - 1], topic, key, part) {
            entered::<ExecutionContext>(
                front,
                capability_of(Some(records[n - 1]))->0.common.context@,
            )
        } else {
            front
        }
    }
}

/// The scopes in which records bear on the part, in ascending order.
fn collect_scopes(
    records: &Vec<ObservationLine>,
    topic: Topic,
    key: &CapabilityKey,
    part: Part,
) -> (r: Vec<ExecutionContext>)
    ensures
        scopes_of(r@) == bearing_scopes(
            records@,
            topic,
            key.model(),
            part,
            records@.len() as int,
        ),
{
    let mut out: Vec<ExecutionContext> = Vec::new();
    proof {
        assert(models_of(out@) == Seq::<Scope>::empty());
    }
    let mut i: usize = 0;
    while i < records.len()
        invariant
            i <= records.len(),
            models_of(out@) == bearing_scopes(records@, topic, key.model(), part, i as int),
        decreases records.len() - i,
    {
        match find_bearing(&records[i], topic, key, part) {
            Some(c) => enter(&mut out, copy_context(&c.common.context)),
            None => {},
        }
        i = i + 1;
    }
    proof {
        assert(models_of(out@) == scopes_of(out@));
    }
    out
}

/// The identities of the first `n` records that bear on the part, in ascending order.
pub open spec fn bearing_sources(
    records: Seq<ObservationLine>,
    topic: Topic,
    key: CapabilityModel,
    part: Part,
    n: int,
) -> Seq<Seq<char>>
    decreases n,
{
    if n <= 0 || n > records.len() {
        Seq::empty()
    } else {
        let front = bearing_sources(records, topic, key, part, n - 1);
        if bears(records[n - 1], topic, key, part) {
            let common = capability_of(Some(records[n - 1]))->0.common;
            entered::<String>(front, record_identity(common.run_id@, common.record_id@))
        } else {
            front
        }
    }
}

/// The identities of the records that bear on the part, in ascending order.
fn collect_sources(
    records: &Vec<ObservationLine>,
    topic: Topic,
    key: &CapabilityKey,
    part: Part,
) -> (r: Vec<String>)
    ensures
        views(r@) == bearing_sources(records@, topic, key.model(), part, records@.len() as int),
{
    let mut out: Vec<String> = Vec::new();
    proof {
        assert(models_of(out@) == Seq::<Seq<char>>::empty());
    }
    let mut i: usize = 0;
    while i < records.len()
        invariant
            i <= records.len(),
            models_of(out@) == bearing_sources(records@, topic, key.model(), part, i as int),
        decreases records.len() - i,
    {
        match find_bearing(&records[i], topic, key, part) {
            Some(c) => enter(
                &mut out,
                join3(c.common.run_id.as_str(), ":", c.common.record_id.as_str()),
            ),
            None => {},
        }
        i = i + 1;
    }
    proof {
        assert(models_of(out@) == views(out@));
    }
    out
}

/// The type, access and descriptor that a capability record gives a property.
pub open spec fn given(r: CapabilityRecord) -> (
    Option<Seq<char>>,
    Option<Seq<char>>,
    Option<DescriptorModel>,
) {
    match r.subject {
        CapabilitySubject::Property { property_type, access, descriptor, .. } => (
            optional_text(property_type),
            optional_text(access),
            optional_descriptor(descriptor),
        ),
        _ => (None, None, None),
    }
}

/// The first of two optional values that is there.
pub open spec fn either<T>(a: Option<T>, b: Option<T>) -> Option<T> {
    if a is Some {
        a
    } else {
        b
    }
}

/// The first type, access and descriptor that the first `n` records give the property.
pub open spec fn first_given(
    records: Seq<ObservationLine>,
    key: CapabilityModel,
    n: int,
) -> (Option<Seq<char>>, Option<Seq<char>>, Option<DescriptorModel>)
    decreases n,
{
    if n <= 0 || n > records.len() {
        (None, None, None)
    } else {
        let front = first_given(records, key, n - 1);
        if bears(records[n - 1], Topic::Property, key, Part::Capability) {
            let g = given(capability_of(Some(records[n - 1]))->0);
            (either(front.0, g.0), either(front.1, g.1), either(front.2, g.2))
        } else {
            front
        }
    }
}

/// A copy of an optional descriptor.
fn copy_optional_descriptor(o: &Option<CapabilityDescriptor>) -> (r: Option<CapabilityDescriptor>)
    ensures
        optional_descriptor(r) == optional_descriptor(*o),
{
    match o {
        Some(d) => Some(copy_descriptor(d)),
        None => None,
    }
}

/// The first type, access and descriptor that records give the property.
fn collect_given(records: &Vec<ObservationLine>, key: &CapabilityKey) -> (r: (
    Option<String>,
    Option<String>,
    Option<CapabilityDescriptor>,
))
    ensures
        (optional_text(r.0), optional_text(r.1), optional_descriptor(r.2)) == first_given(
            records@,
            key.model(),
            records@.len() as int,
        ),
{
    let mut kind: Option<String> = None;
    let mut access: Option<String> = None;
    let mut descriptor: Option<CapabilityDescriptor> = None;
    let mut i: usize = 0;
    while i < records.len()
        invariant
            i <= records.len(),
            (optional_text(kind), optional_text(access), optional_descriptor(descriptor))
                == first_given(records@, key.model(), i as int),
        decreases records.len() - i,
    {
        match find_bearing(&records[i], Topic::Property, key, Part::Capability) {
            Some(c) => match &c.subject {
                CapabilitySubject::Property {
                    property_type: own_type,
                    access: own_access,
                    descriptor: own_descriptor,
                    ..
                } => {
                    if kind.is_none() {
                        kind = copy_option(own_type);
                    }
                    if access.is_none() {
                        access = copy_option(own_access);
                    }
                    if descriptor.is_none() {
                        descriptor = copy_optional_descriptor(own_descriptor);
                    }
                },
                _ => {},
            },
            None => {},
        }
        i = i + 1;
    }
    (kind, access, descriptor)
}

/// The labels `v`, with the first `n` entries where they name a value that `v` does not.
pub open spec fn with_labels(
    v: Seq<LabelModel>,
    entries: Seq<(String, String)>,
    n: int,
) -> Seq<LabelModel>
    decreases n,
{
    if n <= 0 || n > entries.len() {
        v
    } else {
        entered::<(String, String)>(
            with_labels(v, entries, n - 1),
            (entries[n - 1].0@, entries[n - 1].1@),
        )
    }
}

/// The labels that the first `n` records give the property, the first name of a value kept.
pub open spec fn first_labels(
    records: Seq<ObservationLine>,
    key: CapabilityModel,
    n: int,
) -> Seq<LabelModel>
    decreases n,
{
    if n <= 0 || n > records.len() {
        Seq::empty()
    } else {
        let front = first_labels(records, key, n - 1);
        if bears(records[n - 1], Topic::Property, key, Part::Capability) {
            match capability_of(Some(records[n - 1]))->0.subject {
                CapabilitySubject::Property { labels, .. } => with_labels(
                    front,
                    labels.entries(),
                    labels.entries().len() as int,
                ),
                _ => front,
            }
        } else {
            front
        }
    }
}

/// Rising labels are an ascending row of entries.
proof fn labels_ascend(v: Seq<(String, String)>)
    requires
        keys_rise::<(String, String)>(models_of(v)),
    ensures
        ascending(v),
{
    let m = models_of(v);
    assert forall|i: int, j: int| #![trigger v[i], v[j]] 0 <= i < j < v.len() implies
        crate::text::text_lt(v[i].0@, v[j].0@) by {
        assert(m[i] == v[i].model() && m[j] == v[j].model());
        text_lt_irreflexive(Seq::<char>::empty());
    }
}

/// The labels that records give the property, the first name of a value kept.
fn collect_labels(records: &Vec<ObservationLine>, key: &CapabilityKey) -> (r: NameMap<String>)
    ensures
        label_models(r.entries()) == first_labels(records@, key.model(), records@.len() as int),
{
    let mut out: Vec<(String, String)> = Vec::new();
    proof {
        assert(models_of(out@) == Seq::<LabelModel>::empty());
    }
    let mut i: usize = 0;
    while i < records.len()
        invariant
            i <= records.len(),
            keys_rise::<(String, String)>(models_of(out@)),
            models_of(out@) == first_labels(records@, key.model(), i as int),
        decreases records.len() - i,
    {
        match find_bearing(&records[i], Topic::Property, key, Part::Capability) {
            Some(c) => match &c.subject {
                CapabilitySubject::Property { labels, .. } => {
                    let ghost front = models_of(out@);
                    let mut k: usize = 0;
                    while k < labels.len()
                        invariant
                            k <= labels.entries().len(),
                            keys_rise::<(String, String)>(models_of(out@)),
                            models_of(out@) == with_labels(front, labels.entries(), k as int),
                        decreases labels.entries().len() - k,
                    {
                        let ghost before = models_of(out@);
                        let e = (labels.key_at(k).clone(), labels.value_at(k).clone());
                        proof {
                            entered_rises::<(String, String)>(before, e.model());
                        }
                        enter(&mut out, e);
                        k = k + 1;
                    }
                },
                _ => {},
            },
            None => {},
        }
        i = i + 1;
    }
    proof {
        labels_ascend(out@);
        assert(models_of(out@) == label_models(out@));
    }
    NameMap::from_ascending(out)
}

/// The profiles `v` with the first `n` of `more` behind them, each once.
pub open spec fn with_profiles(
    v: Seq<ProfileModel>,
    more: Seq<CapabilityValueProfile>,
    n: int,
) -> Seq<ProfileModel>
    decreases n,
{
    if n <= 0 || n > more.len() {
        v
    } else {
        let front = with_profiles(v, more, n - 1);
        if front.contains(more[n - 1]@) {
            front
        } else {
            front.push(more[n - 1]@)
        }
    }
}

/// The value profiles that the first `n` records give the property, each once.
pub open spec fn distinct_profiles(
    records: Seq<ObservationLine>,
    key: CapabilityModel,
    n: int,
) -> Seq<ProfileModel>
    decreases n,
{
    if n <= 0 || n > records.len() {
        Seq::empty()
    } else {
        let front = distinct_profiles(records, key, n - 1);
        if bears(records[n - 1], Topic::Property, key, Part::Capability) {
            match capability_of(Some(records[n - 1]))->0.subject {
                CapabilitySubject::Property { value_profiles, .. } => with_profiles(
                    front,
                    value_profiles@,
                    value_profiles@.len() as int,
                ),
                _ => front,
            }
        } else {
            front
        }
    }
}

/// Whether a row holds a value profile.
fn holds_profile(v: &Vec<CapabilityValueProfile>, p: &CapabilityValueProfile) -> (r: bool)
    ensures
        r == profiles_of(v@).contains(p@),
{
    let ghost all = profiles_of(v@);
    let mut i: usize = 0;
    while i < v.len()
        invariant
            all == profiles_of(v@),
            i <= v.len(),
            forall|k: int| 0 <= k < i ==> #[trigger] all[k] != p@,
        decreases v.len() - i,
    {
        if same_profile(&v[i], p) {
            proof {
                assert(all[i as int] == p@);
            }
            return true;
        }
        i = i + 1;
    }
    false
}

/// The value profiles that records give the property, each once, in the order of their JSON.
fn collect_profiles(records: &Vec<ObservationLine>, key: &CapabilityKey) -> (r: Vec<
    CapabilityValueProfile,
>)
    ensures
        profiles_of(r@) == arranged::<CapabilityValueProfile>(
            distinct_profiles(records@, key.model(), records@.len() as int),
        ),
{
    let mut out: Vec<CapabilityValueProfile> = Vec::new();
    proof {
        assert(profiles_of(out@) == Seq::<ProfileModel>::empty());
    }
    let mut i: usize = 0;
    while i < records.len()
        invariant
            i <= records.len(),
            profiles_of(out@) == distinct_profiles(records@, key.model(), i as int),
        decreases records.len() - i,
    {
        match find_bearing(&records[i], Topic::Property, key, Part::Capability) {
            Some(c) => match &c.subject {
                CapabilitySubject::Property { value_profiles, .. } => {
                    let ghost front = profiles_of(out@);
                    let mut k: usize = 0;
                    while k < value_profiles.len()
                        invariant
                            k <= value_profiles@.len(),
                            profiles_of(out@) == with_profiles(front, value_profiles@, k as int),
                        decreases value_profiles@.len() - k,
                    {
                        if !holds_profile(&out, &value_profiles[k]) {
                            let ghost before = out@;
                            out.push(copy_profile(&value_profiles[k]));
                            proof {
                                assert(profiles_of(out@) == profiles_of(before).push(
                                    value_profiles@[k as int]@,
                                ));
                            }
                        }
                        k = k + 1;
                    }
                },
                _ => {},
            },
            None => {},
        }
        i = i + 1;
    }
    proof {
        assert(models_of(out@) == profiles_of(out@));
    }
    let sorted = arrange(out);
    proof {
        assert(models_of(sorted@) == profiles_of(sorted@));
    }
    sorted
}

/// The candidate for an assertion.
pub open spec fn candidate_model(a: AssertionModel, sources: Seq<Seq<char>>) -> CandidateModel {
    CandidateModel { id: candidate_id(a), assertion: a, sources }
}

/// The candidate for an assertion. The sources are in ascending order, without repeats.
fn candidate(assertion: CandidateAssertion, source_records: Vec<String>) -> (r: ProposalCandidate)
    ensures
        r.model() == candidate_model(assertion@, views(source_records@)),
{
    let id = digest_json(&assertion.to_json());
    ProposalCandidate { id, assertion, source_records }
}

/// The candidates for the first `n` cameras.
pub open spec fn camera_candidates(headers: Seq<BundleHeader>, n: int) -> Seq<CandidateModel>
    decreases n,
{
    let all = cameras(headers, headers.len() as int);
    if n <= 0 || n > all.len() {
        Seq::empty()
    } else {
        camera_candidates(headers, n - 1).push(
            candidate_model(
                AssertionModel::CameraIdentity {
                    manufacturer: all[n - 1].0,
                    model: all[n - 1].1,
                    firmware: all[n - 1].2,
                },
                header_sources(headers, headers.len() as int),
            ),
        )
    }
}

/// The candidate for an operation.
pub open spec fn operation_candidate(
    records: Seq<ObservationLine>,
    key: CapabilityModel,
) -> CandidateModel {
    let n = records.len() as int;
    candidate_model(
        AssertionModel::Operation {
            code: key.0,
            supported: key.1,
            scopes: bearing_scopes(records, Topic::Operation, key, Part::Capability, n),
        },
        bearing_sources(records, Topic::Operation, key, Part::Capability, n),
    )
}

/// The candidates for the first `n` operations.
pub open spec fn operation_candidates(records: Seq<ObservationLine>, n: int) -> Seq<CandidateModel>
    decreases n,
{
    let keys = capability_keys(records, Topic::Operation, records.len() as int);
    if n <= 0 || n > keys.len() {
        Seq::empty()
    } else {
        operation_candidates(records, n - 1).push(operation_candidate(records, keys[n - 1]))
    }
}

/// The candidate for the type and access of a property.
pub open spec fn access_candidate(
    records: Seq<ObservationLine>,
    key: CapabilityModel,
) -> CandidateModel {
    let n = records.len() as int;
    let g = first_given(records, key, n);
    candidate_model(
        AssertionModel::Property {
            code: key.0,
            supported: key.1,
            property_type: g.0,
            access: g.1,
            descriptor: None,
            labels: Seq::empty(),
            profiles: Seq::empty(),
            scopes: bearing_scopes(records, Topic::Property, key, Part::Capability, n),
        },
        bearing_sources(records, Topic::Property, key, Part::Capability, n),
    )
}

/// The candidate for the descriptor of a property.
pub open spec fn descriptor_candidate(
    records: Seq<ObservationLine>,
    key: CapabilityModel,
) -> CandidateModel {
    let n = records.len() as int;
    candidate_model(
        AssertionModel::Property {
            code: key.0,
            supported: key.1,
            property_type: None,
            access: None,
            descriptor: first_given(records, key, n).2,
            labels: Seq::empty(),
            profiles: Seq::empty(),
            scopes: bearing_scopes(records, Topic::Property, key, Part::Capability, n),
        },
        bearing_sources(records, Topic::Property, key, Part::Capability, n),
    )
}

/// The candidate for the labels of a property.
pub open spec fn label_candidate(
    records: Seq<ObservationLine>,
    key: CapabilityModel,
) -> CandidateModel {
    let n = records.len() as int;
    candidate_model(
        AssertionModel::Property {
            code: key.0,
            supported: key.1,
            property_type: None,
            access: None,
            descriptor: None,
            labels: first_labels(records, key, n),
            profiles: Seq::empty(),
            scopes: bearing_scopes(records, Topic::Property, key, Part::Labels, n),
        },
        bearing_sources(records, Topic::Property, key, Part::Labels, n),
    )
}

/// The candidate for the value profiles of a property.
pub open spec fn profile_candidate(
    records: Seq<ObservationLine>,
    key: CapabilityModel,
) -> CandidateModel {
    let n = records.len() as int;
    candidate_model(
        AssertionModel::Property {
            code: key.0,
            supported: key.1,
            property_type: None,
            access: None,
            descriptor: None,
            labels: Seq::empty(),
            profiles: arranged::<CapabilityValueProfile>(distinct_profiles(records, key, n)),
            scopes: bearing_scopes(records, Topic::Property, key, Part::Profiles, n),
        },
        bearing_sources(records, Topic::Property, key, Part::Profiles, n),
    )
}

/// The row with an element behind it, where `there` holds.
pub open spec fn push_if<T>(s: Seq<T>, there: bool, x: T) -> Seq<T> {
    if there {
        s.push(x)
    } else {
        s
    }
}

/// The candidates `c` with those for a property behind them.
pub open spec fn with_property(
    c: Seq<CandidateModel>,
    records: Seq<ObservationLine>,
    key: CapabilityModel,
) -> Seq<CandidateModel> {
    let n = records.len() as int;
    let c1 = c.push(access_candidate(records, key));
    let c2 = push_if(
        c1,
        first_given(records, key, n).2 is Some,
        descriptor_candidate(records, key),
    );
    let c3 = push_if(
        c2,
        first_labels(records, key, n).len() > 0,
        label_candidate(records, key),
    );
    push_if(
        c3,
        arranged::<CapabilityValueProfile>(distinct_profiles(records, key, n)).len() > 0,
        profile_candidate(records, key),
    )
}

/// The candidates `c` with those for the properties from `i` on behind them.
pub open spec fn with_properties(
    c: Seq<CandidateModel>,
    records: Seq<ObservationLine>,
    i: int,
) -> Seq<CandidateModel>
    decreases capability_keys(records, Topic::Property, records.len() as int).len() - i,
{
    let keys = capability_keys(records, Topic::Property, records.len() as int);
    if i < 0 || i >= keys.len() {
        c
    } else {
        with_properties(with_property(c, records, keys[i]), records, i + 1)
    }
}

/// The candidates that headers and records give.
pub open spec fn candidates_of(
    headers: Seq<BundleHeader>,
    records: Seq<ObservationLine>,
) -> Seq<CandidateModel> {
    with_properties(
        camera_candidates(headers, cameras(headers, headers.len() as int).len() as int)
            + operation_candidates(
            records,
            capability_keys(records, Topic::Operation, records.len() as int).len() as int,
        ),
        records,
        0,
    )
}

/// Adds a candidate.
fn push_candidate(out: &mut Vec<ProposalCandidate>, c: ProposalCandidate)
    ensures
        models_of(final(out)@) == models_of(old(out)@).push(c.model()),
{
    let ghost before = out@;
    out.push(c);
    proof {
        assert(models_of(out@) == models_of(before).push(c.model()));
    }
}

/// Adds the candidates for the cameras.
fn propose_cameras(headers: &Vec<BundleHeader>, out: &mut Vec<ProposalCandidate>)
    ensures
        models_of(final(out)@) == models_of(old(out)@) + camera_candidates(
            headers@,
            cameras(headers@, headers@.len() as int).len() as int,
        ),
{
    let ghost start = models_of(out@);
    let found = collect_cameras(headers);
    let sources = collect_header_sources(headers);
    let mut i: usize = 0;
    proof {
        assert(start + camera_candidates(headers@, 0) == start);
        assert(models_of(found@).len() == found@.len());
    }
    while i < found.len()
        invariant
            start == models_of(old(out)@),
            models_of(found@) == cameras(headers@, headers@.len() as int),
            found@.len() == cameras(headers@, headers@.len() as int).len(),
            views(sources@) == header_sources(headers@, headers@.len() as int),
            i <= found@.len(),
            models_of(out@) == start + camera_candidates(headers@, i as int),
        decreases found@.len() - i,
    {
        proof {
            assert(models_of(found@)[i as int] == found@[i as int].model());
        }
        let c = candidate(
            CandidateAssertion::CameraIdentity {
                manufacturer: found[i].manufacturer.clone(),
                model: found[i].model.clone(),
                firmware: found[i].firmware.clone(),
            },
            copy_texts(&sources),
        );
        push_candidate(out, c);
        proof {
            assert(models_of(out@) == start + camera_candidates(headers@, i + 1));
        }
        i = i + 1;
    }
}

/// Adds the candidates for the operations.
fn propose_operations(records: &Vec<ObservationLine>, out: &mut Vec<ProposalCandidate>)
    ensures
        models_of(final(out)@) == models_of(old(out)@) + operation_candidates(
            records@,
            capability_keys(records@, Topic::Operation, records@.len() as int).len() as int,
        ),
{
    let ghost start = models_of(out@);
    let keys = collect_keys(records, Topic::Operation);
    let mut i: usize = 0;
    proof {
        assert(start + operation_candidates(records@, 0) == start);
        assert(models_of(keys@).len() == keys@.len());
    }
    while i < keys.len()
        invariant
            start == models_of(old(out)@),
            models_of(keys@) == capability_keys(
                records@,
                Topic::Operation,
                records@.len() as int,
            ),
            models_of(keys@).len() == keys@.len(),
            i <= keys@.len(),
            models_of(out@) == start + operation_candidates(records@, i as int),
        decreases keys@.len() - i,
    {
        let key = &keys[i];
        proof {
            assert(models_of(keys@)[i as int] == key.model());
        }
        let scopes = collect_scopes(records, Topic::Operation, key, Part::Capability);
        let sources = collect_sources(records, Topic::Operation, key, Part::Capability);
        let c = candidate(
            CandidateAssertion::Operation {
                code: key.code.clone(),
                supported: key.supported,
                scopes,
            },
            sources,
        );
        push_candidate(out, c);
        proof {
            assert(models_of(out@) == start + operation_candidates(records@, i + 1));
        }
        i = i + 1;
    }
}

/// An empty set of labels.
fn no_labels() -> (r: NameMap<String>)
    ensures
        label_models(r.entries()) == Seq::<LabelModel>::empty(),
{
    let r = NameMap::new();
    proof {
        assert(label_models(r.entries()) == Seq::<LabelModel>::empty());
    }
    r
}

/// An empty row of value profiles.
fn no_profiles() -> (r: Vec<CapabilityValueProfile>)
    ensures
        profiles_of(r@) == Seq::<ProfileModel>::empty(),
{
    let r: Vec<CapabilityValueProfile> = Vec::new();
    proof {
        assert(profiles_of(r@) == Seq::<ProfileModel>::empty());
    }
    r
}

/// Adds the candidates for a property.
fn propose_property(
    records: &Vec<ObservationLine>,
    key: &CapabilityKey,
    out: &mut Vec<ProposalCandidate>,
)
    ensures
        models_of(final(out)@) == with_property(models_of(old(out)@), records@, key.model()),
{
    let (property_type, access, descriptor) = collect_given(records, key);
    let labels = collect_labels(records, key);
    let value_profiles = collect_profiles(records, key);
    proof {
        assert(label_models(labels.entries()).len() == labels.entries().len());
        assert(profiles_of(value_profiles@).len() == value_profiles@.len());
    }
    push_candidate(
        out,
        candidate(
            CandidateAssertion::Property {
                code: key.code.clone(),
                supported: key.supported,
                property_type,
                access,
                descriptor: None,
                labels: no_labels(),
                value_profiles: no_profiles(),
                scopes: collect_scopes(records, Topic::Property, key, Part::Capability),
            },
            collect_sources(records, Topic::Property, key, Part::Capability),
        ),
    );
    if descriptor.is_some() {
        push_candidate(
            out,
            candidate(
                CandidateAssertion::Property {
                    code: key.code.clone(),
                    supported: key.supported,
                    property_type: None,
                    access: None,
                    descriptor,
                    labels: no_labels(),
                    value_profiles: no_profiles(),
                    scopes: collect_scopes(records, Topic::Property, key, Part::Capability),
                },
                collect_sources(records, Topic::Property, key, Part::Capability),
            ),
        );
    }
    if !labels.is_empty() {
        push_candidate(
            out,
            candidate(
                CandidateAssertion::Property {
                    code: key.code.clone(),
                    supported: key.supported,
                    property_type: None,
                    access: None,
                    descriptor: None,
                    labels,
                    value_profiles: no_profiles(),
                    scopes: collect_scopes(records, Topic::Property, key, Part::Labels),
                },
                collect_sources(records, Topic::Property, key, Part::Labels),
            ),
        );
    }
    if value_profiles.len() > 0 {
        push_candidate(
            out,
            candidate(
                CandidateAssertion::Property {
                    code: key.code.clone(),
                    supported: key.supported,
                    property_type: None,
                    access: None,
                    descriptor: None,
                    labels: no_labels(),
                    value_profiles,
                    scopes: collect_scopes(records, Topic::Property, key, Part::Profiles),
                },
                collect_sources(records, Topic::Property, key, Part::Profiles),
            ),
        );
    }
}

/// The candidates that headers and records give, in the order of their ids.
fn collect_candidates(headers: &Vec<BundleHeader>, records: &Vec<ObservationLine>) -> (r: Vec<
    ProposalCandidate,
>)
    ensures
        models_of(r@) == arranged::<ProposalCandidate>(candidates_of(headers@, records@)),
{
    let mut out: Vec<ProposalCandidate> = Vec::new();
    proof {
        assert(models_of(out@) == Seq::<CandidateModel>::empty());
    }
    propose_cameras(headers, &mut out);
    propose_operations(records, &mut out);
    let ghost start = models_of(out@);
    let keys = collect_keys(records, Topic::Property);
    let mut i: usize = 0;
    proof {
        assert(models_of(keys@).len() == keys@.len());
        assert(start == camera_candidates(
            headers@,
            cameras(headers@, headers@.len() as int).len() as int,
        ) + operation_candidates(
            records@,
            capability_keys(records@, Topic::Operation, records@.len() as int).len() as int,
        ));
    }
    while i < keys.len()
        invariant
            models_of(keys@) == capability_keys(records@, Topic::Property, records@.len() as int),
            models_of(keys@).len() == keys@.len(),
            i <= keys@.len(),
            with_properties(models_of(out@), records@, i as int) == with_properties(
                start,
                records@,
                0,
            ),
        decreases keys@.len() - i,
    {
        proof {
            assert(models_of(keys@)[i as int] == keys@[i as int].model());
        }
        propose_property(records, &keys[i], &mut out);
        i = i + 1;
    }
    arrange(out)
}

/// The ids of the first `n` candidates that draw on the record.
pub open spec fn linked_ids(c: Seq<CandidateModel>, identity: Seq<char>, n: int) -> Seq<Seq<char>>
    decreases n,
{
    if n <= 0 || n > c.len() {
        Seq::empty()
    } else {
        push_if(
            linked_ids(c, identity, n - 1),
            c[n - 1].sources.contains(identity),
            c[n - 1].id,
        )
    }
}

/// The disposition of a record in a proposal.
pub open spec fn link_model(c: Seq<CandidateModel>, identity: Seq<char>) -> LinkModel {
    let ids = linked_ids(c, identity, c.len() as int);
    LinkModel {
        identity,
        status: if ids.len() == 0 {
            ProposalRecordStatus::EvidenceOnly
        } else {
            ProposalRecordStatus::Proposed
        },
        candidates: ids,
    }
}

/// The dispositions of records in a proposal.
pub open spec fn link_models(
    c: Seq<CandidateModel>,
    dispositions: Seq<DispositionModel>,
) -> Seq<LinkModel> {
    Seq::new(dispositions.len(), |i: int| link_model(c, dispositions[i].identity))
}

/// The disposition of a record in a proposal.
fn link_record(candidates: &Vec<ProposalCandidate>, identity: &str) -> (r:
    ProposalRecordDisposition)
    ensures
        r@ == link_model(models_of(candidates@), identity@),
{
    let mut ids: Vec<String> = Vec::new();
    let ghost all = models_of(candidates@);
    proof {
        assert(views(ids@) == Seq::<Seq<char>>::empty());
    }
    let mut i: usize = 0;
    while i < candidates.len()
        invariant
            all == models_of(candidates@),
            i <= candidates.len(),
            views(ids@) == linked_ids(all, identity@, i as int),
        decreases candidates.len() - i,
    {
        proof {
            assert(all[i as int] == candidates@[i as int].model());
        }
        let linked = holds(&candidates[i].source_records, identity);
        if linked {
            let ghost before = ids@;
            ids.push(candidates[i].id.clone());
            proof {
                assert(views(ids@) == views(before).push(all[i as int].id));
            }
        }
        i = i + 1;
    }
    let status = if ids.len() == 0 {
        ProposalRecordStatus::EvidenceOnly
    } else {
        ProposalRecordStatus::Proposed
    };
    proof {
        assert(views(ids@).len() == ids@.len());
    }
    ProposalRecordDisposition { identity: identity.to_owned(), status, candidate_ids: ids }
}

/// Whether a row holds a text.
pub(crate) fn holds(v: &Vec<String>, s: &str) -> (r: bool)
    ensures
        r == views(v@).contains(s@),
{
    let ghost all = views(v@);
    let mut i: usize = 0;
    while i < v.len()
        invariant
            all == views(v@),
            i <= v.len(),
            forall|k: int| 0 <= k < i ==> #[trigger] all[k] != s@,
        decreases v.len() - i,
    {
        if same(v[i].as_str(), s) {
            proof {
                assert(all[i as int] == s@);
            }
            return true;
        }
        i = i + 1;
    }
    false
}

/// The dispositions of records in a proposal.
fn link_records(candidates: &Vec<ProposalCandidate>, dispositions: &Vec<RecordDisposition>) -> (r:
    Vec<ProposalRecordDisposition>)
    ensures
        links_of(r@) == link_models(models_of(candidates@), models_of(dispositions@)),
{
    let mut out: Vec<ProposalRecordDisposition> = Vec::new();
    let ghost all = link_models(models_of(candidates@), models_of(dispositions@));
    proof {
        assert(links_of(out@) == all.take(0));
    }
    let mut i: usize = 0;
    while i < dispositions.len()
        invariant
            all == link_models(models_of(candidates@), models_of(dispositions@)),
            i <= dispositions@.len(),
            links_of(out@) == all.take(i as int),
        decreases dispositions@.len() - i,
    {
        let ghost before = out@;
        out.push(link_record(candidates, dispositions[i].identity.as_str()));
        proof {
            assert(models_of(dispositions@)[i as int] == dispositions@[i as int].model());
            assert(links_of(out@) == links_of(before).push(all[i as int]));
            assert(all.take(i + 1) == all.take(i as int).push(all[i as int]));
        }
        i = i + 1;
    }
    proof {
        assert(all.take(dispositions@.len() as int) == all);
    }
    out
}

/// Whether a proposal is the one that headers, records and dispositions give.
pub open spec fn proposes(
    p: Proposal,
    headers: Seq<BundleHeader>,
    records: Seq<ObservationLine>,
    dispositions: Seq<DispositionModel>,
) -> bool {
    let candidates = arranged::<ProposalCandidate>(candidates_of(headers, records));
    let links = link_models(candidates, dispositions);
    &&& p.schema@ == PROPOSAL_SCHEMA@
    &&& p.observation_schema@ == OBSERVATION_SCHEMA_VERSION@
    &&& models_of(p.candidates@) == candidates
    &&& links_of(p.record_dispositions@) == links
    &&& p.digest@ == contents_digest(candidates, links)
}

/// The proposal that validated observations give.
pub fn propose_validated(validated: &ValidatedObservations) -> (r: Proposal)
    ensures
        proposes(
            r,
            validated.headers@,
            validated.records@,
            models_of(validated.report.dispositions@),
        ),
{
    let candidates = collect_candidates(&validated.headers, &validated.records);
    let record_dispositions = link_records(&candidates, &validated.report.dispositions);
    let digest = proposal_digest(&candidates, &record_dispositions);
    Proposal {
        schema: PROPOSAL_SCHEMA.to_owned(),
        observation_schema: OBSERVATION_SCHEMA_VERSION.to_owned(),
        candidates,
        record_dispositions,
        digest,
    }
}

/// Produces a deterministic proposal. A rejected line prevents any candidate, rather than leaving
/// the candidates of the lines that are accepted.
pub fn propose(bundles: Vec<Vec<BundleLine>>) -> (r: Result<Proposal, ValidationReport>)
    ensures
        ({
            let lines = judged_lines(bundles@);
            let n = lines.len() as int;
            match r {
                Ok(p) => tally(lines, Tally::Rejected, n) == 0 && proposes(
                    p,
                    arranged::<BundleHeader>(accepted_headers(lines, n)),
                    arranged::<ObservationLine>(accepted_records(lines, n)),
                    arranged::<RecordDisposition>(all_dispositions(lines, n)),
                ),
                Err(report) => reports_on(report, lines) && report.rejected > 0,
            }
        }),
{
    match validate_bundles(bundles) {
        Ok(validated) => Ok(propose_validated(&validated)),
        Err(report) => Err(report),
    }
}

} // verus!
