//! Proposals and reports as JSON.

use crate::digest::{sha256, sha256_text};
use crate::generate::claims::{DescriptorModel, ProfileModel, RowModel, Scope};
use crate::generate::report::DispositionModel;
use crate::generate::{
    CandidateAssertion, Proposal, ProposalCandidate, ProposalRecordDisposition,
    ProposalRecordStatus, RecordDisposition, ValidationReport, ValidationStatus, PROPOSAL_SCHEMA,
};
use crate::json::{
    array, array_of_texts, compact, compact_text, int_json, member_models, models, number_json,
    object, option_json, optional_json, pretty, pretty_text, push_item, push_member, text_json,
    texts_json, Json, JsonModel,
};
use crate::name_map::NameMap;
use crate::observation::{
    CapabilityDescriptor, CapabilityValueProfile, CapabilityValueProfileRow, ExecutionContext,
    OBSERVATION_SCHEMA_VERSION,
};
use crate::order::{models_of, Keyed, SortKey};
use crate::text::{optional_text, precedes, text_lt_irreflexive, views};
use vstd::prelude::*;
use vstd::utf8::encode_utf8;

verus! {

/// What has a JSON form.
pub trait Written: Sized {
    /// The JSON form.
    spec fn json(&self) -> JsonModel;

    /// The JSON form.
    fn to_json(&self) -> (r: Json)
        ensures
            r@ == self.json(),
    ;
}

/// The JSON forms of a row.
pub open spec fn jsons<T: Written>(v: Seq<T>) -> Seq<JsonModel> {
    Seq::new(v.len(), |i: int| v[i].json())
}

/// The array of the JSON forms of a row.
fn array_of<T: Written>(v: &Vec<T>) -> (r: Json)
    ensures
        r@ == JsonModel::Array(jsons(v@)),
{
    let mut out: Vec<Json> = Vec::new();
    let mut i: usize = 0;
    proof {
        assert(models(out@) == jsons(v@).take(0));
    }
    while i < v.len()
        invariant
            i <= v.len(),
            models(out@) == jsons(v@).take(i as int),
        decreases v.len() - i,
    {
        push_item(&mut out, v[i].to_json());
        proof {
            assert(jsons(v@).take(i + 1) == jsons(v@).take(i as int).push(jsons(v@)[i as int]));
        }
        i = i + 1;
    }
    proof {
        assert(jsons(v@).take(v@.len() as int) == jsons(v@));
    }
    array(out)
}

/// An object without members.
fn no_members() -> (r: Vec<(String, Json)>)
    ensures
        member_models(r@) == Seq::<(Seq<char>, JsonModel)>::empty(),
{
    let out: Vec<(String, Json)> = Vec::new();
    proof {
        assert(member_models(out@) == Seq::<(Seq<char>, JsonModel)>::empty());
    }
    out
}

/// The JSON form of a scope.
pub open spec fn scope_json(s: Scope) -> JsonModel {
    JsonModel::Object(
        seq![
            ("connection"@, JsonModel::Text(s.0)),
            ("mode"@, JsonModel::Text(s.1)),
            ("state"@, JsonModel::Text(s.2)),
        ],
    )
}

impl Written for ExecutionContext {
    open spec fn json(&self) -> JsonModel {
        scope_json(self@)
    }

    fn to_json(&self) -> (r: Json) {
        let mut m = no_members();
        push_member(&mut m, "connection", text_json(self.connection.as_str()));
        push_member(&mut m, "mode", text_json(self.mode.as_str()));
        push_member(&mut m, "state", text_json(self.state.as_str()));
        proof {
            assert(member_models(m@) == self.json()->Object_0);
        }
        object(m)
    }
}

impl Written for i64 {
    open spec fn json(&self) -> JsonModel {
        int_json(*self)
    }

    fn to_json(&self) -> (r: Json) {
        number_json(*self)
    }
}

/// The JSON form of an optional number: the number, or null.
pub open spec fn optional_number(o: Option<i64>) -> JsonModel {
    match o {
        Some(n) => int_json(n),
        None => JsonModel::Null,
    }
}

/// The JSON form of a profile row.
pub open spec fn row_json(m: RowModel) -> JsonModel {
    JsonModel::Object(
        seq![
            ("label"@, JsonModel::Text(m.label)),
            ("raw"@, int_json(m.raw)),
            ("legal"@, JsonModel::Bool(m.legal)),
            ("aliases"@, JsonModel::Array(jsons(m.aliases))),
            ("writeStoreRaw"@, optional_number(m.write_store_raw)),
        ],
    )
}

impl Written for CapabilityValueProfileRow {
    open spec fn json(&self) -> JsonModel {
        row_json(self@)
    }

    fn to_json(&self) -> (r: Json) {
        let stored = match self.write_store_raw {
            Some(n) => number_json(n),
            None => Json::Null,
        };
        let mut m = no_members();
        push_member(&mut m, "label", text_json(self.label.as_str()));
        push_member(&mut m, "raw", number_json(self.raw));
        push_member(&mut m, "legal", Json::Bool(self.legal));
        push_member(&mut m, "aliases", array_of(&self.aliases));
        push_member(&mut m, "writeStoreRaw", stored);
        proof {
            assert(member_models(m@) == self.json()->Object_0);
        }
        object(m)
    }
}

/// The JSON form of a value profile.
pub open spec fn profile_json(m: ProfileModel) -> JsonModel {
    JsonModel::Object(
        seq![
            ("connection"@, optional_json(m.connection)),
            ("mode"@, optional_json(m.mode)),
            ("rows"@, JsonModel::Array(Seq::new(m.rows.len(), |i: int| row_json(m.rows[i])))),
            ("evidence"@, texts_json(m.evidence)),
        ],
    )
}

impl Written for CapabilityValueProfile {
    open spec fn json(&self) -> JsonModel {
        profile_json(self@)
    }

    fn to_json(&self) -> (r: Json) {
        proof {
            assert(jsons(self.rows@) == Seq::new(
                self@.rows.len(),
                |i: int| row_json(self@.rows[i]),
            ));
        }
        let mut m = no_members();
        push_member(&mut m, "connection", option_json(&self.connection));
        push_member(&mut m, "mode", option_json(&self.mode));
        push_member(&mut m, "rows", array_of(&self.rows));
        push_member(&mut m, "evidence", array_of_texts(&self.evidence));
        proof {
            assert(member_models(m@) == self.json()->Object_0);
        }
        object(m)
    }
}

/// The text by which value profiles are sorted: their compact JSON.
pub open spec fn profile_text(m: ProfileModel) -> Seq<char> {
    compact(profile_json(m))
}

impl Keyed for CapabilityValueProfile {
    type Model = ProfileModel;

    open spec fn model(&self) -> ProfileModel {
        self@
    }

    open spec fn key_of(m: ProfileModel) -> SortKey {
        SortKey { major: profile_text(m), minor: Seq::empty(), number: 0, last: Seq::empty() }
    }

    fn sorts_before(&self, other: &Self) -> (r: bool) {
        proof {
            text_lt_irreflexive(profile_text(self@));
            text_lt_irreflexive(Seq::<char>::empty());
        }
        precedes(
            compact_text(&self.to_json()).as_str(),
            compact_text(&other.to_json()).as_str(),
        )
    }
}

/// The JSON form of a descriptor, or null.
pub open spec fn descriptor_json(o: Option<DescriptorModel>) -> JsonModel {
    match o {
        Some(d) => JsonModel::Object(
            seq![("form"@, JsonModel::Text(d.form)), ("values"@, JsonModel::Array(d.values))],
        ),
        None => JsonModel::Null,
    }
}

/// What an optional descriptor says.
pub open spec fn optional_descriptor(o: Option<CapabilityDescriptor>) -> Option<DescriptorModel> {
    match o {
        Some(d) => Some(d@),
        None => None,
    }
}

impl Written for Json {
    open spec fn json(&self) -> JsonModel {
        self@
    }

    fn to_json(&self) -> (r: Json) {
        self.clone()
    }
}

/// The JSON form of a descriptor, or null.
fn write_descriptor(o: &Option<CapabilityDescriptor>) -> (r: Json)
    ensures
        r@ == descriptor_json(optional_descriptor(*o)),
{
    match o {
        Some(d) => {
            proof {
                assert(jsons(d.values@) == models(d.values@));
            }
            let mut m = no_members();
            push_member(&mut m, "form", text_json(d.form.as_str()));
            push_member(&mut m, "values", array_of(&d.values));
            proof {
                assert(member_models(m@) == descriptor_json(Some(d@))->Object_0);
            }
            object(m)
        },
        None => Json::Null,
    }
}

/// The label of a value: the value and its name.
pub type LabelModel = (Seq<char>, Seq<char>);

/// The labels of a row of entries.
pub open spec fn label_models(v: Seq<(String, String)>) -> Seq<LabelModel> {
    Seq::new(v.len(), |i: int| (v[i].0@, v[i].1@))
}

/// The JSON form of labels.
pub open spec fn labels_json(v: Seq<LabelModel>) -> JsonModel {
    JsonModel::Object(Seq::new(v.len(), |i: int| (v[i].0, JsonModel::Text(v[i].1))))
}

/// The JSON form of labels.
fn write_labels(labels: &NameMap<String>) -> (r: Json)
    ensures
        r@ == labels_json(label_models(labels.entries())),
{
    let ghost all = labels_json(label_models(labels.entries()))->Object_0;
    let mut out = no_members();
    let mut i: usize = 0;
    proof {
        assert(member_models(out@) == all.take(0));
    }
    while i < labels.len()
        invariant
            all == labels_json(label_models(labels.entries()))->Object_0,
            i <= labels.entries().len(),
            member_models(out@) == all.take(i as int),
        decreases labels.entries().len() - i,
    {
        push_member(&mut out, labels.key_at(i).as_str(), text_json(labels.value_at(i).as_str()));
        proof {
            assert(all.take(i + 1) == all.take(i as int).push(all[i as int]));
        }
        i = i + 1;
    }
    proof {
        assert(all.take(labels.entries().len() as int) == all);
    }
    object(out)
}

/// What a candidate asserts.
pub enum AssertionModel {
    CameraIdentity { manufacturer: Seq<char>, model: Seq<char>, firmware: Seq<char> },
    Operation { code: Seq<char>, supported: bool, scopes: Seq<Scope> },
    Property {
        code: Seq<char>,
        supported: bool,
        property_type: Option<Seq<char>>,
        access: Option<Seq<char>>,
        descriptor: Option<DescriptorModel>,
        labels: Seq<LabelModel>,
        profiles: Seq<ProfileModel>,
        scopes: Seq<Scope>,
    },
}

/// The scopes of a row of contexts.
pub open spec fn scopes_of(v: Seq<ExecutionContext>) -> Seq<Scope> {
    Seq::new(v.len(), |i: int| v[i]@)
}

/// What a row of value profiles says.
pub open spec fn profiles_of(v: Seq<CapabilityValueProfile>) -> Seq<ProfileModel> {
    Seq::new(v.len(), |i: int| v[i]@)
}

impl View for CandidateAssertion {
    type V = AssertionModel;

    open spec fn view(&self) -> AssertionModel {
        match *self {
            CandidateAssertion::CameraIdentity {
                manufacturer,
                model,
                firmware,
            } => AssertionModel::CameraIdentity {
                manufacturer: manufacturer@,
                model: model@,
                firmware: firmware@,
            },
            CandidateAssertion::Operation { code, supported, scopes } => AssertionModel::Operation {
                code: code@,
                supported,
                scopes: scopes_of(scopes@),
            },
            CandidateAssertion::Property {
                code,
                supported,
                property_type,
                access,
                descriptor,
                labels,
                value_profiles,
                scopes,
            } => AssertionModel::Property {
                code: code@,
                supported,
                property_type: optional_text(property_type),
                access: optional_text(access),
                descriptor: optional_descriptor(descriptor),
                labels: label_models(labels.entries()),
                profiles: profiles_of(value_profiles@),
                scopes: scopes_of(scopes@),
            },
        }
    }
}

/// The JSON form of scopes.
pub open spec fn scopes_json(v: Seq<Scope>) -> JsonModel {
    JsonModel::Array(Seq::new(v.len(), |i: int| scope_json(v[i])))
}

/// The JSON form of value profiles.
pub open spec fn profiles_json(v: Seq<ProfileModel>) -> JsonModel {
    JsonModel::Array(Seq::new(v.len(), |i: int| profile_json(v[i])))
}

/// The JSON form of an assertion.
pub open spec fn assertion_json(a: AssertionModel) -> JsonModel {
    match a {
        AssertionModel::CameraIdentity { manufacturer, model, firmware } => JsonModel::Object(
            seq![
                ("kind"@, JsonModel::Text("cameraIdentity"@)),
                ("manufacturer"@, JsonModel::Text(manufacturer)),
                ("model"@, JsonModel::Text(model)),
                ("firmware"@, JsonModel::Text(firmware)),
            ],
        ),
        AssertionModel::Operation { code, supported, scopes } => JsonModel::Object(
            seq![
                ("kind"@, JsonModel::Text("operation"@)),
                ("code"@, JsonModel::Text(code)),
                ("supported"@, JsonModel::Bool(supported)),
                ("scopes"@, scopes_json(scopes)),
            ],
        ),
        AssertionModel::Property {
            code,
            supported,
            property_type,
            access,
            descriptor,
            labels,
            profiles,
            scopes,
        } => JsonModel::Object(
            seq![
                ("kind"@, JsonModel::Text("property"@)),
                ("code"@, JsonModel::Text(code)),
                ("supported"@, JsonModel::Bool(supported)),
                ("propertyType"@, optional_json(property_type)),
                ("access"@, optional_json(access)),
                ("descriptor"@, descriptor_json(descriptor)),
                ("labels"@, labels_json(labels)),
                ("valueProfiles"@, profiles_json(profiles)),
                ("scopes"@, scopes_json(scopes)),
            ],
        ),
    }
}

/// The JSON form of scopes.
fn write_scopes(v: &Vec<ExecutionContext>) -> (r: Json)
    ensures
        r@ == scopes_json(scopes_of(v@)),
{
    proof {
        assert(jsons(v@) == Seq::new(v@.len(), |i: int| scope_json(scopes_of(v@)[i])));
    }
    array_of(v)
}

/// The JSON form of value profiles.
fn write_profiles(v: &Vec<CapabilityValueProfile>) -> (r: Json)
    ensures
        r@ == profiles_json(profiles_of(v@)),
{
    proof {
        assert(jsons(v@) == Seq::new(v@.len(), |i: int| profile_json(profiles_of(v@)[i])));
    }
    array_of(v)
}

impl Written for CandidateAssertion {
    open spec fn json(&self) -> JsonModel {
        assertion_json(self@)
    }

    fn to_json(&self) -> (r: Json) {
        let mut m = no_members();
        match self {
            CandidateAssertion::CameraIdentity { manufacturer, model, firmware } => {
                push_member(&mut m, "kind", text_json("cameraIdentity"));
                push_member(&mut m, "manufacturer", text_json(manufacturer.as_str()));
                push_member(&mut m, "model", text_json(model.as_str()));
                push_member(&mut m, "firmware", text_json(firmware.as_str()));
            },
            CandidateAssertion::Operation { code, supported, scopes } => {
                push_member(&mut m, "kind", text_json("operation"));
                push_member(&mut m, "code", text_json(code.as_str()));
                push_member(&mut m, "supported", Json::Bool(*supported));
                push_member(&mut m, "scopes", write_scopes(scopes));
            },
            CandidateAssertion::Property {
                code,
                supported,
                property_type,
                access,
                descriptor,
                labels,
                value_profiles,
                scopes,
            } => {
                push_member(&mut m, "kind", text_json("property"));
                push_member(&mut m, "code", text_json(code.as_str()));
                push_member(&mut m, "supported", Json::Bool(*supported));
                push_member(&mut m, "propertyType", option_json(property_type));
                push_member(&mut m, "access", option_json(access));
                push_member(&mut m, "descriptor", write_descriptor(descriptor));
                push_member(&mut m, "labels", write_labels(labels));
                push_member(&mut m, "valueProfiles", write_profiles(value_profiles));
                push_member(&mut m, "scopes", write_scopes(scopes));
            },
        }
        proof {
            assert(member_models(m@) == self.json()->Object_0);
        }
        object(m)
    }
}

/// The SHA-256 digest of the compact text of a JSON value.
pub open spec fn json_digest(j: JsonModel) -> Seq<char> {
    sha256_text(encode_utf8(compact(j)))
}

/// The SHA-256 digest of the compact text of a JSON value.
pub(crate) fn digest_json(j: &Json) -> (r: String)
    ensures
        r@ == json_digest(j@),
{
    let text = compact_text(j);
    sha256(text.as_str().as_bytes())
}

/// The id of a candidate: the digest of what it asserts.
pub open spec fn candidate_id(a: AssertionModel) -> Seq<char> {
    json_digest(assertion_json(a))
}

/// What a candidate says.
pub struct CandidateModel {
    pub id: Seq<char>,
    pub assertion: AssertionModel,
    pub sources: Seq<Seq<char>>,
}

impl Keyed for ProposalCandidate {
    type Model = CandidateModel;

    open spec fn model(&self) -> CandidateModel {
        CandidateModel {
            id: self.id@,
            assertion: self.assertion@,
            sources: views(self.source_records@),
        }
    }

    open spec fn key_of(m: CandidateModel) -> SortKey {
        SortKey { major: m.id, minor: Seq::empty(), number: 0, last: Seq::empty() }
    }

    fn sorts_before(&self, other: &Self) -> (r: bool) {
        proof {
            text_lt_irreflexive(self.id@);
            text_lt_irreflexive(Seq::<char>::empty());
        }
        precedes(self.id.as_str(), other.id.as_str())
    }
}

/// The JSON form of a candidate.
pub open spec fn candidate_json(m: CandidateModel) -> JsonModel {
    JsonModel::Object(
        seq![
            ("id"@, JsonModel::Text(m.id)),
            ("assertion"@, assertion_json(m.assertion)),
            ("sourceRecords"@, texts_json(m.sources)),
        ],
    )
}

impl Written for ProposalCandidate {
    open spec fn json(&self) -> JsonModel {
        candidate_json(self.model())
    }

    fn to_json(&self) -> (r: Json) {
        let mut m = no_members();
        push_member(&mut m, "id", text_json(self.id.as_str()));
        push_member(&mut m, "assertion", self.assertion.to_json());
        push_member(&mut m, "sourceRecords", array_of_texts(&self.source_records));
        proof {
            assert(member_models(m@) == self.json()->Object_0);
        }
        object(m)
    }
}

/// What the disposition of a record in a proposal says.
pub struct LinkModel {
    pub identity: Seq<char>,
    pub status: ProposalRecordStatus,
    pub candidates: Seq<Seq<char>>,
}

impl View for ProposalRecordDisposition {
    type V = LinkModel;

    open spec fn view(&self) -> LinkModel {
        LinkModel {
            identity: self.identity@,
            status: self.status,
            candidates: views(self.candidate_ids@),
        }
    }
}

/// What the dispositions of records in a proposal say.
pub open spec fn links_of(v: Seq<ProposalRecordDisposition>) -> Seq<LinkModel> {
    Seq::new(v.len(), |i: int| v[i]@)
}

/// The name of a record's status in a proposal.
pub open spec fn record_status_name(s: ProposalRecordStatus) -> Seq<char> {
    match s {
        ProposalRecordStatus::Proposed => "proposed"@,
        ProposalRecordStatus::EvidenceOnly => "evidenceOnly"@,
    }
}

/// The JSON form of a record's disposition in a proposal.
pub open spec fn link_json(m: LinkModel) -> JsonModel {
    JsonModel::Object(
        seq![
            ("identity"@, JsonModel::Text(m.identity)),
            ("status"@, JsonModel::Text(record_status_name(m.status))),
            ("candidateIds"@, texts_json(m.candidates)),
        ],
    )
}

impl Written for ProposalRecordDisposition {
    open spec fn json(&self) -> JsonModel {
        link_json(self@)
    }

    fn to_json(&self) -> (r: Json) {
        let status = match self.status {
            ProposalRecordStatus::Proposed => "proposed",
            ProposalRecordStatus::EvidenceOnly => "evidenceOnly",
        };
        let mut m = no_members();
        push_member(&mut m, "identity", text_json(self.identity.as_str()));
        push_member(&mut m, "status", text_json(status));
        push_member(&mut m, "candidateIds", array_of_texts(&self.candidate_ids));
        proof {
            assert(member_models(m@) == self.json()->Object_0);
        }
        object(m)
    }
}

/// The members of a proposal that its digest covers.
pub open spec fn core_members(
    schema: Seq<char>,
    observation_schema: Seq<char>,
    candidates: Seq<CandidateModel>,
    links: Seq<LinkModel>,
) -> Seq<(Seq<char>, JsonModel)> {
    seq![
        ("schema"@, JsonModel::Text(schema)),
        ("observationSchema"@, JsonModel::Text(observation_schema)),
        (
            "candidates"@,
            JsonModel::Array(Seq::new(candidates.len(), |i: int| candidate_json(candidates[i]))),
        ),
        (
            "recordDispositions"@,
            JsonModel::Array(Seq::new(links.len(), |i: int| link_json(links[i]))),
        ),
    ]
}

/// The digest of a proposal's contents.
pub open spec fn contents_digest(
    candidates: Seq<CandidateModel>,
    links: Seq<LinkModel>,
) -> Seq<char> {
    json_digest(
        JsonModel::Object(
            core_members(PROPOSAL_SCHEMA@, OBSERVATION_SCHEMA_VERSION@, candidates, links),
        ),
    )
}

/// The members of a proposal that its digest covers.
fn write_core(
    schema: &str,
    observation_schema: &str,
    candidates: &Vec<ProposalCandidate>,
    links: &Vec<ProposalRecordDisposition>,
) -> (r: Vec<(String, Json)>)
    ensures
        member_models(r@) == core_members(
            schema@,
            observation_schema@,
            models_of(candidates@),
            links_of(links@),
        ),
{
    proof {
        assert(jsons(candidates@) == Seq::new(
            models_of(candidates@).len(),
            |i: int| candidate_json(models_of(candidates@)[i]),
        ));
        assert(jsons(links@) == Seq::new(
            links_of(links@).len(),
            |i: int| link_json(links_of(links@)[i]),
        ));
    }
    let mut m = no_members();
    push_member(&mut m, "schema", text_json(schema));
    push_member(&mut m, "observationSchema", text_json(observation_schema));
    push_member(&mut m, "candidates", array_of(candidates));
    push_member(&mut m, "recordDispositions", array_of(links));
    m
}

/// The digest of a proposal's contents.
pub(crate) fn proposal_digest(
    candidates: &Vec<ProposalCandidate>,
    links: &Vec<ProposalRecordDisposition>,
) -> (r: String)
    ensures
        r@ == contents_digest(models_of(candidates@), links_of(links@)),
{
    digest_json(
        &object(write_core(PROPOSAL_SCHEMA, OBSERVATION_SCHEMA_VERSION, candidates, links)),
    )
}

/// The JSON form of a proposal.
pub open spec fn proposal_form(p: Proposal) -> JsonModel {
    JsonModel::Object(
        core_members(
            p.schema@,
            p.observation_schema@,
            models_of(p.candidates@),
            links_of(p.record_dispositions@),
        ).push(("digest"@, JsonModel::Text(p.digest@))),
    )
}

/// A proposal as indented JSON with a line break at its end.
pub fn proposal_json(proposal: &Proposal) -> (r: String)
    ensures
        r@ == pretty(proposal_form(*proposal), Seq::empty()) + "\n"@,
{
    let mut m = write_core(
        proposal.schema.as_str(),
        proposal.observation_schema.as_str(),
        &proposal.candidates,
        &proposal.record_dispositions,
    );
    push_member(&mut m, "digest", text_json(proposal.digest.as_str()));
    proof {
        reveal_strlit("");
        assert(""@ == Seq::<char>::empty());
    }
    pretty_text(&object(m), "").concat("\n")
}

/// The name of a validation status.
pub open spec fn status_name(s: ValidationStatus) -> Seq<char> {
    match s {
        ValidationStatus::Accepted => "accepted"@,
        ValidationStatus::Rejected => "rejected"@,
    }
}

/// The JSON form of a disposition.
pub open spec fn disposition_json(m: DispositionModel) -> JsonModel {
    JsonModel::Object(
        seq![
            ("identity"@, JsonModel::Text(m.identity)),
            ("status"@, JsonModel::Text(status_name(m.status))),
            ("code"@, JsonModel::Text(m.code)),
            ("message"@, JsonModel::Text(m.message)),
        ],
    )
}

impl Written for RecordDisposition {
    open spec fn json(&self) -> JsonModel {
        disposition_json(self.model())
    }

    fn to_json(&self) -> (r: Json) {
        let status = match self.status {
            ValidationStatus::Accepted => "accepted",
            ValidationStatus::Rejected => "rejected",
        };
        let mut m = no_members();
        push_member(&mut m, "identity", text_json(self.identity.as_str()));
        push_member(&mut m, "status", text_json(status));
        push_member(&mut m, "code", text_json(self.code.as_str()));
        push_member(&mut m, "message", text_json(self.message.as_str()));
        proof {
            assert(member_models(m@) == self.json()->Object_0);
        }
        object(m)
    }
}

/// The JSON form of a report.
pub open spec fn report_form(r: ValidationReport) -> JsonModel {
    JsonModel::Object(
        seq![
            ("schema"@, JsonModel::Text(r.schema@)),
            ("totalNonblank"@, JsonModel::Unsigned(r.total_nonblank as u64)),
            ("accepted"@, JsonModel::Unsigned(r.accepted as u64)),
            ("rejected"@, JsonModel::Unsigned(r.rejected as u64)),
            ("dispositions"@, JsonModel::Array(jsons(r.dispositions@))),
        ],
    )
}

/// A report as indented JSON with a line break at its end.
pub fn validation_report_json(report: &ValidationReport) -> (r: String)
    ensures
        r@ == pretty(report_form(*report), Seq::empty()) + "\n"@,
{
    let mut m = no_members();
    push_member(&mut m, "schema", text_json(report.schema.as_str()));
    push_member(&mut m, "totalNonblank", Json::Unsigned(report.total_nonblank as u64));
    push_member(&mut m, "accepted", Json::Unsigned(report.accepted as u64));
    push_member(&mut m, "rejected", Json::Unsigned(report.rejected as u64));
    push_member(&mut m, "dispositions", array_of(&report.dispositions));
    proof {
        assert(member_models(m@) == report_form(*report)->Object_0);
        reveal_strlit("");
        assert(""@ == Seq::<char>::empty());
    }
    pretty_text(&object(m), "").concat("\n")
}

} // verus!
