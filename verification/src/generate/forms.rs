//! How lines are counted, and how proposals and reports are written.

use crate::generate::apply::manifest_refusal;
use crate::generate::claims::{ProfileModel, RowModel, Scope};
use crate::generate::parse::Parsed;
use crate::generate::report::{accepted_headers, accepted_records, tally, DispositionModel, Tally};
use crate::generate::write::{
    assertion_json, candidate_id, candidate_json, contents_digest, disposition_json, link_json,
    profile_json, proposal_form, record_status_name, report_form, row_json, scope_json,
    status_name, AssertionModel, CandidateModel, LinkModel,
};
use crate::generate::{Proposal, ValidationReport};
use crate::json::{int_json, JsonModel};
use crate::model::CameraManifest;
use crate::observation::ObservationLine;
use crate::validate::entries::manifest_violation;
use vstd::prelude::*;

verus! {

/// A line is counted where it holds a record; as accepted where nothing is wrong with it too; as
/// rejected where something is.
pub proof fn lines_are_counted_by_their_faults(lines: Seq<Parsed>, l: Parsed)
    ensures
        ({
            let n = lines.len() as int;
            let all = lines.push(l);
            &&& tally(all, Tally::Nonblank, n + 1) == tally(lines, Tally::Nonblank, n) + (
            if l.counts {
                1nat
            } else {
                0
            })
            &&& tally(all, Tally::Accepted, n + 1) == tally(lines, Tally::Accepted, n) + (
            if l.counts && l.faults.len() == 0 {
                1nat
            } else {
                0
            })
            &&& tally(all, Tally::Rejected, n + 1) == tally(lines, Tally::Rejected, n) + (
            if l.faults.len() > 0 {
                1nat
            } else {
                0
            })
        }),
{
    let n = lines.len() as int;
    let all = lines.push(l);
    same_tally(lines, all, Tally::Nonblank, n);
    same_tally(lines, all, Tally::Accepted, n);
    same_tally(lines, all, Tally::Rejected, n);
}

/// The lines behind do not count for those before.
proof fn same_tally(a: Seq<Parsed>, b: Seq<Parsed>, t: Tally, n: int)
    requires
        n <= a.len() <= b.len(),
        forall|i: int| 0 <= i < n ==> #[trigger] b[i] == a[i],
    ensures
        tally(a, t, n) == tally(b, t, n),
    decreases n,
{
    if n > 0 {
        assert(b[n - 1] == a[n - 1]);
        same_tally(a, b, t, n - 1);
    }
}

/// The records that go on are those that nothing is wrong with, headers apart.
pub proof fn sound_records_go_on(lines: Seq<Parsed>, n: int, v: ObservationLine)
    requires
        0 <= n <= lines.len(),
    ensures
        accepted_records(lines, n).contains(v) <==> v !is BundleHeader && exists|i: int|
            0 <= i < n && (#[trigger] lines[i]).value == Some(v) && lines[i].faults.len() == 0,
    decreases n,
{
    if n > 0 {
        sound_records_go_on(lines, n - 1, v);
        let front = accepted_records(lines, n - 1);
        let all = accepted_records(lines, n);
        if all.contains(v) && !front.contains(v) {
            let i = all.index_of(v);
            assert(i == front.len());
            assert(lines[n - 1].value == Some(v));
        }
        if front.contains(v) {
            let i = front.index_of(v);
            assert(all[i] == v);
        }
        if v !is BundleHeader && lines[n - 1].value == Some(v) && lines[n - 1].faults.len() == 0 {
            assert(all[front.len() as int] == v);
        }
    }
}

/// The headers that go on are those that nothing is wrong with.
pub proof fn sound_headers_go_on(
    lines: Seq<Parsed>,
    n: int,
    h: crate::observation::BundleHeader,
)
    requires
        0 <= n <= lines.len(),
    ensures
        accepted_headers(lines, n).contains(h) <==> exists|i: int|
            0 <= i < n && (#[trigger] lines[i]).value == Some(ObservationLine::BundleHeader(h))
                && lines[i].faults.len() == 0,
    decreases n,
{
    if n > 0 {
        sound_headers_go_on(lines, n - 1, h);
        let front = accepted_headers(lines, n - 1);
        let all = accepted_headers(lines, n);
        if all.contains(h) && !front.contains(h) {
            let i = all.index_of(h);
            assert(i == front.len());
            assert(lines[n - 1].value == Some(ObservationLine::BundleHeader(h)));
        }
        if front.contains(h) {
            let i = front.index_of(h);
            assert(all[i] == h);
        }
        if lines[n - 1].value == Some(ObservationLine::BundleHeader(h)) && lines[n - 1].faults.len()
            == 0 {
            assert(all[front.len() as int] == h);
        }
    }
}

/// A manifest is refused for another schema, or for a rule that it breaks.
pub proof fn manifests_are_refused_for_schema_or_rule(m: CameraManifest)
    ensures
        manifest_refusal(m) is None <==> m.schema@ == "camera-config/v1"@ && manifest_violation(m)
            is None,
{
}

/// A number is written with its sign.
pub proof fn numbers_are_written_with_their_sign(n: i64)
    ensures
        n < 0 ==> int_json(n) == JsonModel::Negative(n),
        n >= 0 ==> int_json(n) == JsonModel::Unsigned(n as u64),
{
}

/// A scope is written by its three parts.
pub proof fn scopes_are_written_by_their_parts(s: Scope)
    ensures
        scope_json(s) == JsonModel::Object(
            seq![
                ("connection"@, JsonModel::Text(s.0)),
                ("mode"@, JsonModel::Text(s.1)),
                ("state"@, JsonModel::Text(s.2)),
            ],
        ),
{
}

/// A row of a profile is written with all that it says.
pub proof fn rows_are_written_whole(m: RowModel)
    ensures
        ({
            let o = row_json(m)->Object_0;
            &&& row_json(m) is Object && o.len() == 5
            &&& o[0] == ("label"@, JsonModel::Text(m.label))
            &&& o[1] == ("raw"@, int_json(m.raw))
            &&& o[2] == ("legal"@, JsonModel::Bool(m.legal))
            &&& o[3].0 == "aliases"@ && o[3].1->Array_0.len() == m.aliases.len()
            &&& o[4].0 == "writeStoreRaw"@
            &&& m.write_store_raw is None ==> o[4].1 == JsonModel::Null
            &&& m.write_store_raw is Some ==> o[4].1 == int_json(m.write_store_raw->0)
        }),
{
}

/// A profile is written with where it holds, its rows in their order and its evidence.
pub proof fn profiles_are_written_whole(m: ProfileModel, k: int)
    ensures
        ({
            let o = profile_json(m)->Object_0;
            &&& profile_json(m) is Object && o.len() == 4
            &&& o[0].0 == "connection"@
            &&& m.connection is Some ==> o[0].1 == JsonModel::Text(m.connection->0)
            &&& m.connection is None ==> o[0].1 == JsonModel::Null
            &&& o[1].0 == "mode"@
            &&& m.mode is Some ==> o[1].1 == JsonModel::Text(m.mode->0)
            &&& m.mode is None ==> o[1].1 == JsonModel::Null
            &&& o[2].0 == "rows"@ && o[2].1->Array_0.len() == m.rows.len()
            &&& 0 <= k < m.rows.len() ==> o[2].1->Array_0[k] == row_json(m.rows[k])
            &&& o[3].0 == "evidence"@ && o[3].1->Array_0.len() == m.evidence.len()
            &&& 0 <= k < m.evidence.len() ==> o[3].1->Array_0[k] == JsonModel::Text(m.evidence[k])
        }),
{
}

/// What is asserted is written with its kind and all that it says.
pub proof fn assertions_are_written_whole(a: AssertionModel)
    ensures
        a matches AssertionModel::CameraIdentity { manufacturer, model, firmware }
            ==> assertion_json(a) == JsonModel::Object(
            seq![
                ("kind"@, JsonModel::Text("cameraIdentity"@)),
                ("manufacturer"@, JsonModel::Text(manufacturer)),
                ("model"@, JsonModel::Text(model)),
                ("firmware"@, JsonModel::Text(firmware)),
            ],
        ),
        a matches AssertionModel::Operation { code, supported, scopes } ==> ({
            let o = assertion_json(a)->Object_0;
            &&& o.len() == 4
            &&& o[0] == ("kind"@, JsonModel::Text("operation"@))
            &&& o[1] == ("code"@, JsonModel::Text(code))
            &&& o[2] == ("supported"@, JsonModel::Bool(supported))
            &&& o[3].0 == "scopes"@ && o[3].1->Array_0.len() == scopes.len()
        }),
        a matches AssertionModel::Property {
            code,
            supported,
            property_type,
            access,
            descriptor,
            labels,
            profiles,
            scopes,
        } ==> ({
            let o = assertion_json(a)->Object_0;
            &&& o.len() == 9
            &&& o[0] == ("kind"@, JsonModel::Text("property"@))
            &&& o[1] == ("code"@, JsonModel::Text(code))
            &&& o[2] == ("supported"@, JsonModel::Bool(supported))
            &&& o[3].0 == "propertyType"@ && (property_type is Some ==> o[3].1 == JsonModel::Text(
                property_type->0,
            )) && (property_type is None ==> o[3].1 == JsonModel::Null)
            &&& o[4].0 == "access"@ && (access is Some ==> o[4].1 == JsonModel::Text(access->0))
                && (access is None ==> o[4].1 == JsonModel::Null)
            &&& o[5].0 == "descriptor"@ && (descriptor is None <==> o[5].1 == JsonModel::Null)
            &&& o[6].0 == "labels"@ && o[6].1->Object_0.len() == labels.len()
            &&& o[7].0 == "valueProfiles"@ && o[7].1->Array_0.len() == profiles.len()
            &&& o[8].0 == "scopes"@ && o[8].1->Array_0.len() == scopes.len()
        }),
{
}

/// A candidate is written with its id, what it asserts and where it comes from; a record with its
/// status and the candidates that it gave.
pub proof fn candidates_and_links_are_written_whole(m: CandidateModel, l: LinkModel)
    ensures
        ({
            let o = candidate_json(m)->Object_0;
            &&& o.len() == 3
            &&& o[0] == ("id"@, JsonModel::Text(m.id))
            &&& o[1] == ("assertion"@, assertion_json(m.assertion))
            &&& o[2].0 == "sourceRecords"@ && o[2].1->Array_0.len() == m.sources.len()
        }),
        ({
            let o = link_json(l)->Object_0;
            &&& o.len() == 3
            &&& o[0] == ("identity"@, JsonModel::Text(l.identity))
            &&& o[1] == ("status"@, JsonModel::Text(record_status_name(l.status)))
            &&& o[2].0 == "candidateIds"@ && o[2].1->Array_0.len() == l.candidates.len()
        }),
{
}

/// A proposal is written with its schemas, its candidates, its records and its digest.
pub proof fn proposals_are_written_whole(p: Proposal)
    ensures
        ({
            let o = proposal_form(p)->Object_0;
            &&& o.len() == 5
            &&& o[0] == ("schema"@, JsonModel::Text(p.schema@))
            &&& o[1] == ("observationSchema"@, JsonModel::Text(p.observation_schema@))
            &&& o[2].0 == "candidates"@ && o[2].1->Array_0.len() == p.candidates@.len()
            &&& o[3].0 == "recordDispositions"@ && o[3].1->Array_0.len()
                == p.record_dispositions@.len()
            &&& o[4] == ("digest"@, JsonModel::Text(p.digest@))
        }),
{
}

/// The id of a candidate is the digest of what it asserts, and the digest of a proposal that of its
/// schemas, its candidates and its records.
pub proof fn ids_are_digests_of_contents(
    a: AssertionModel,
    candidates: Seq<CandidateModel>,
    links: Seq<LinkModel>,
)
    ensures
        candidate_id(a) == crate::digest::sha256_text(
            vstd::utf8::encode_utf8(crate::json::compact(assertion_json(a))),
        ),
        contents_digest(candidates, links) == crate::digest::sha256_text(
            vstd::utf8::encode_utf8(
                crate::json::compact(
                    JsonModel::Object(
                        seq![
                            ("schema"@, JsonModel::Text("camera-config-proposal/v1"@)),
                            ("observationSchema"@, JsonModel::Text("camera-observation/v1"@)),
                            (
                                "candidates"@,
                                JsonModel::Array(
                                    Seq::new(
                                        candidates.len(),
                                        |i: int| candidate_json(candidates[i]),
                                    ),
                                ),
                            ),
                            (
                                "recordDispositions"@,
                                JsonModel::Array(
                                    Seq::new(links.len(), |i: int| link_json(links[i])),
                                ),
                            ),
                        ],
                    ),
                ),
            ),
        ),
{
}

/// A report is written with its schema, its counts and its lines, each by its identity, status, code
/// and message.
pub proof fn reports_are_written_whole(r: ValidationReport, d: DispositionModel)
    ensures
        ({
            let o = report_form(r)->Object_0;
            &&& o.len() == 5
            &&& o[0] == ("schema"@, JsonModel::Text(r.schema@))
            &&& o[1] == ("totalNonblank"@, JsonModel::Unsigned(r.total_nonblank as u64))
            &&& o[2] == ("accepted"@, JsonModel::Unsigned(r.accepted as u64))
            &&& o[3] == ("rejected"@, JsonModel::Unsigned(r.rejected as u64))
            &&& o[4].0 == "dispositions"@ && o[4].1->Array_0.len() == r.dispositions@.len()
        }),
        disposition_json(d) == JsonModel::Object(
            seq![
                ("identity"@, JsonModel::Text(d.identity)),
                ("status"@, JsonModel::Text(status_name(d.status))),
                ("code"@, JsonModel::Text(d.code)),
                ("message"@, JsonModel::Text(d.message)),
            ],
        ),
{
}

} // verus!
