//! What lines are rejected for together, and how a report lists it.

use crate::generate::{RecordDisposition, ValidationReport, ValidationStatus};
use crate::generate::bundle::{
    correlation_keys, header_count, id_keys, is_header, line_faults, ordinal_keys, repeats,
    values_of,
};
use crate::generate::conflicts::{
    clashes, contested, contested_lines, fact_keys, facts_conflict, global_key, run_keys, run_lines,
    scoped_key, subjects_conflict,
};
use crate::generate::faults::{codes_are_numbered, number, refused_has};
use crate::generate::fields::{refused, FaultModel};
use crate::generate::parse::{parsed_bundle, parsed_line, BundleLine, Parsed};
use crate::generate::report::{
    acceptance, all_dispositions, checked_lines, judged_lines, line_dispositions, rejection,
    reports_on,
};
use crate::generate::verdict::{spot, spot_holds};
use crate::json::{json_text_member, same_json};
use crate::observation::{
    line_ordinal, line_record, line_run, CapabilityRecord, CapabilitySubject, ObservationLine,
};
use crate::order::{arranged_is_sorted, models_of, Keyed};
use vstd::prelude::*;

verus! {

/// Two capability facts on one thing conflict where one says that it is supported and the other that
/// it is not, or where both give a type, an access or a descriptor and do not give the same, or name
/// a value differently, or give other rows for one connection and mode.
pub proof fn facts_conflict_where_they_disagree(x: CapabilitySubject, y: CapabilitySubject)
    ensures
        x is Identity && y is Identity ==> (subjects_conflict(x, y) <==> x->device_version@
            != y->device_version@),
        x is Operation && y is Operation ==> (subjects_conflict(x, y) <==> x->Operation_supported
            != y->Operation_supported),
        x is Property && y is Property ==> (subjects_conflict(x, y) <==> {
            ||| x->Property_supported != y->Property_supported
            ||| x->property_type is Some && y->property_type is Some && x->property_type->0@
                != y->property_type->0@
            ||| x->access is Some && y->access is Some && x->access->0@ != y->access->0@
            ||| x->descriptor is Some && y->descriptor is Some && !same_enumeration(x, y)
            ||| exists|i: int|
                0 <= i < x->labels.entries().len() && named_apart(x, y, i)
            ||| exists|i: int, j: int|
                0 <= i < x->value_profiles@.len() && 0 <= j < y->value_profiles@.len()
                    && #[trigger] rows_apart(x, y, i, j)
        }),
{
    if x is Property && y is Property {
        let a = x->value_profiles@;
        let b = y->value_profiles@;
        if exists|i: int, j: int|
            0 <= i < a.len() && 0 <= j < b.len() && #[trigger] rows_apart(x, y, i, j) {
            let (i, j) = choose|i: int, j: int|
                0 <= i < a.len() && 0 <= j < b.len() && #[trigger] rows_apart(x, y, i, j);
            assert(crate::generate::conflicts::profile_conflict(a[i], b[j]));
        }
        if crate::generate::conflicts::profiles_conflict(a, b) {
            let (i, j) = choose|i: int, j: int|
                #![trigger a[i], b[j]]
                0 <= i < a.len() && 0 <= j < b.len()
                    && crate::generate::conflicts::profile_conflict(a[i], b[j]);
            assert(rows_apart(x, y, i, j));
        }
        let e = x->labels.entries();
        if exists|i: int| 0 <= i < e.len() && named_apart(x, y, i) {
            let i = choose|i: int| 0 <= i < e.len() && named_apart(x, y, i);
            assert(crate::generate::conflicts::named_otherwise(y->labels, e[i]));
        }
        if crate::generate::conflicts::labels_conflict(x->labels, y->labels) {
            let i = choose|i: int|
                0 <= i < e.len() && crate::generate::conflicts::named_otherwise(
                    y->labels,
                    #[trigger] e[i],
                );
            assert(named_apart(x, y, i));
        }
    }
}

/// Whether two descriptors have one form and the same values.
pub open spec fn same_enumeration(x: CapabilitySubject, y: CapabilitySubject) -> bool {
    let a = x->descriptor->0;
    let b = y->descriptor->0;
    &&& a.form@ == b.form@
    &&& a.values@.len() == b.values@.len()
    &&& forall|i: int|
        0 <= i < a@.values.len() ==> same_json(#[trigger] a@.values[i], b@.values[i])
}

/// Whether the value of label `i` of one fact is named otherwise by the other.
pub open spec fn named_apart(x: CapabilitySubject, y: CapabilitySubject, i: int) -> bool {
    let e = x->labels.entries()[i];
    y->labels.at(e.0@) is Some && y->labels.at(e.0@)->0@ != e.1@
}

/// Whether two profiles are of one connection and mode and do not have the same rows.
pub open spec fn rows_apart(x: CapabilitySubject, y: CapabilitySubject, i: int, j: int) -> bool {
    let a = x->value_profiles@[i]@;
    let b = y->value_profiles@[j]@;
    a.connection == b.connection && a.mode == b.mode && a.rows != b.rows
}

/// The faults that a line has from its bundle are those that it is judged by, but for those of runs
/// and conflicts.
proof fn judged_has(bundles: Seq<Vec<BundleLine>>, i: int, x: FaultModel)
    requires
        0 <= i < checked_lines(bundles).len(),
    ensures
        judged_lines(bundles).len() == checked_lines(bundles).len(),
        judged_lines(bundles)[i].value == checked_lines(bundles)[i].value,
        judged_lines(bundles)[i].identity == checked_lines(bundles)[i].identity,
        ({
            let v = values_of(checked_lines(bundles));
            judged_lines(bundles)[i].faults.contains(x) <==> {
                ||| checked_lines(bundles)[i].faults.contains(x)
                ||| repeats(run_keys(v), i) && x == ("O013"@, "duplicate runId across bundles"@)
                ||| contested(v, true, i) && x == (
                    "O400"@,
                    "conflicting capability fact in one exact scope"@,
                )
                ||| contested(v, false, i) && x == (
                    "O401"@,
                    "capability facts conflict across scopes that the manifest cannot represent"@,
                )
            }
        }),
{
    broadcast use refused_has;

    let start = checked_lines(bundles);
    let v = values_of(start);
    let runs = run_lines(start);
    assert(values_of(runs) =~= v);
    let middle = contested_lines(
        runs,
        true,
        "O400"@,
        "conflicting capability fact in one exact scope"@,
    );
    assert(values_of(middle) =~= v);
    assert(middle[i].faults == refused(
        runs[i].faults,
        contested(v, true, i),
        "O400"@,
        "conflicting capability fact in one exact scope"@,
    ));
}

/// What a line is rejected for by itself is what it is rejected for in the end; runs and conflicts
/// only add to it.
pub proof fn judgement_adds_to_the_line(
    bundles: Seq<Vec<BundleLine>>,
    b: int,
    k: int,
    x: FaultModel,
)
    requires
        0 <= b < bundles.len(),
        0 <= k < bundles[b]@.len(),
    ensures
        0 <= spot(bundles, b, k) < judged_lines(bundles).len(),
        ({
            let parsed = parsed_bundle(bundles[b]@);
            let own = line_faults(values_of(parsed), k, parsed_line(bundles[b]@[k]).faults);
            let all = judged_lines(bundles)[spot(bundles, b, k)].faults;
            &&& own.contains(x) ==> all.contains(x)
            &&& all.contains(x) && number(x.0) != 13 && number(x.0) != 400 && number(x.0) != 401
                ==> own.contains(x)
        }),
{
    codes_are_numbered();
    spot_holds(bundles, b, k);
    let i = spot(bundles, b, k);
    judged_has(bundles, i, x);
    let parsed = parsed_bundle(bundles[b]@);
    assert(parsed[k] == parsed_line(bundles[b]@[k]));
}

/// Two facts on one operation or property that conflict are both rejected: for a conflict in one
/// scope where they were observed in the same, else for one across scopes.
pub proof fn conflicting_facts_are_rejected(
    bundles: Seq<Vec<BundleLine>>,
    i: int,
    j: int,
    x: Box<CapabilityRecord>,
    y: Box<CapabilityRecord>,
)
    requires
        0 <= i < j < judged_lines(bundles).len(),
        judged_lines(bundles)[i].value == Some(ObservationLine::Capability(x)),
        judged_lines(bundles)[j].value == Some(ObservationLine::Capability(y)),
        subjects_conflict(x.subject, y.subject),
        x.subject is Property && y.subject is Property && x.subject->Property_code@
            == y.subject->Property_code@ || x.subject is Operation && y.subject is Operation
            && x.subject->Operation_code@ == y.subject->Operation_code@,
    ensures
        ({
            let a = x.common.context;
            let b = y.common.context;
            let same = a.connection@ == b.connection@ && a.mode@ == b.mode@ && a.state@ == b.state@;
            let fault = if same {
                ("O400"@, "conflicting capability fact in one exact scope"@)
            } else {
                (
                    "O401"@,
                    "capability facts conflict across scopes that the manifest cannot represent"@,
                )
            };
            judged_lines(bundles)[i].faults.contains(fault)
                && judged_lines(bundles)[j].faults.contains(fault)
        }),
{
    let v = values_of(checked_lines(bundles));
    let a = x.common.context;
    let b = y.common.context;
    let same = a.connection@ == b.connection@ && a.mode@ == b.mode@ && a.state@ == b.state@;
    let fault = if same {
        ("O400"@, "conflicting capability fact in one exact scope"@)
    } else {
        (
            "O401"@,
            "capability facts conflict across scopes that the manifest cannot represent"@,
        )
    };
    judged_has(bundles, i, fault);
    judged_has(bundles, j, fault);
    assert(v[i] == Some(ObservationLine::Capability(x)));
    assert(v[j] == Some(ObservationLine::Capability(y)));
    let keys = fact_keys(v, same);
    assert(keys[i] is Some && keys[i] == keys[j]);
    assert(facts_conflict(v[i], v[j], same));
    assert(clashes(v, same, i));
    assert(contested(v, same, i)) by {
        assert(keys[i] == keys[i]);
    }
    assert(contested(v, same, j)) by {
        assert(keys[i] == keys[j]);
    }
}

/// Where no two facts conflict, no line is rejected for a conflict.
pub proof fn agreeing_facts_are_no_conflict(bundles: Seq<Vec<BundleLine>>, k: int)
    requires
        0 <= k < judged_lines(bundles).len(),
        forall|i: int, j: int, x: Box<CapabilityRecord>, y: Box<CapabilityRecord>|
            0 <= i < j < judged_lines(bundles).len() && #[trigger] judged_lines(bundles)[i].value
                == Some(ObservationLine::Capability(x)) && #[trigger] judged_lines(bundles)[j].value
                == Some(ObservationLine::Capability(y)) ==> !#[trigger] subjects_conflict(
                x.subject,
                y.subject,
            ),
    ensures
        judged_lines(bundles)[k].faults.contains(
            ("O400"@, "conflicting capability fact in one exact scope"@),
        ) ==> checked_lines(bundles)[k].faults.contains(
            ("O400"@, "conflicting capability fact in one exact scope"@),
        ),
        judged_lines(bundles)[k].faults.contains(
            (
                "O401"@,
                "capability facts conflict across scopes that the manifest cannot represent"@,
            ),
        ) ==> checked_lines(bundles)[k].faults.contains(
            (
                "O401"@,
                "capability facts conflict across scopes that the manifest cannot represent"@,
            ),
        ),
{
    codes_are_numbered();
    let v = values_of(checked_lines(bundles));
    judged_has(bundles, k, ("O400"@, "conflicting capability fact in one exact scope"@));
    judged_has(
        bundles,
        k,
        (
            "O401"@,
            "capability facts conflict across scopes that the manifest cannot represent"@,
        ),
    );
    assert forall|scoped: bool| !#[trigger] contested(v, scoped, k) by {
        if contested(v, scoped, k) {
            let keys = fact_keys(v, scoped);
            let p = choose|p: int|
                0 <= p < v.len() && #[trigger] keys[p] == keys[k] && clashes(v, scoped, p);
            let q = choose|q: int|
                p < q < v.len() && #[trigger] keys[q] == keys[p] && facts_conflict(
                    v[p],
                    v[q],
                    scoped,
                );
            let x = v[p]->0->Capability_0;
            let y = v[q]->0->Capability_0;
            judged_has(bundles, p, ("O400"@, ""@));
            judged_has(bundles, q, ("O400"@, ""@));
            assert(judged_lines(bundles)[p].value == Some(ObservationLine::Capability(x)));
            assert(judged_lines(bundles)[q].value == Some(ObservationLine::Capability(y)));
            assert(subjects_conflict(x.subject, y.subject));
        }
    }
}

/// A header is rejected for its run exactly where another header, of whatever bundle, names the same
/// run.
pub proof fn runs_are_recorded_once(
    bundles: Seq<Vec<BundleLine>>,
    i: int,
    h: crate::observation::BundleHeader,
)
    requires
        0 <= i < checked_lines(bundles).len(),
        checked_lines(bundles)[i].value == Some(ObservationLine::BundleHeader(h)),
        !checked_lines(bundles)[i].faults.contains(("O013"@, "duplicate runId across bundles"@)),
    ensures
        i < judged_lines(bundles).len(),
        judged_lines(bundles)[i].faults.contains(("O013"@, "duplicate runId across bundles"@))
            <==> exists|j: int|
            0 <= j < checked_lines(bundles).len() && j != i && (#[trigger] checked_lines(
                bundles,
            )[j].value) is Some && checked_lines(bundles)[j].value->0 is BundleHeader
                && checked_lines(bundles)[j].value->0->BundleHeader_0.run_id@ == h.run_id@,
{
    codes_are_numbered();
    let lines = checked_lines(bundles);
    let v = values_of(lines);
    let keys = run_keys(v);
    judged_has(bundles, i, ("O013"@, "duplicate runId across bundles"@));
    assert(keys[i] == Some(h.run_id@));
    if repeats(keys, i) {
        let j = choose|j: int| 0 <= j < keys.len() && j != i && #[trigger] keys[j] == keys[i];
        assert(lines[j].value is Some);
    }
    if exists|j: int|
        0 <= j < lines.len() && j != i && (#[trigger] lines[j].value) is Some && lines[j].value->0
            is BundleHeader && lines[j].value->0->BundleHeader_0.run_id@ == h.run_id@ {
        let j = choose|j: int|
            0 <= j < lines.len() && j != i && (#[trigger] lines[j].value) is Some
                && lines[j].value->0 is BundleHeader && lines[j].value->0->BundleHeader_0.run_id@
                == h.run_id@;
        assert(keys[j] == keys[i]);
    }
}

/// A header among the lines is counted.
proof fn header_counted(v: Seq<Option<ObservationLine>>, i: int, k: int)
    requires
        0 <= i <= k < v.len(),
        is_header(v[k]),
    ensures
        header_count(v, i) >= 1,
    decreases k - i,
{
    if i < k {
        header_counted(v, i + 1, k);
    }
}

/// Two headers among the lines are counted as two.
proof fn two_headers_counted(v: Seq<Option<ObservationLine>>, i: int, k: int, l: int)
    requires
        0 <= i <= k < l < v.len(),
        is_header(v[k]),
        is_header(v[l]),
    ensures
        header_count(v, i) >= 2,
    decreases k - i,
{
    if i < k {
        two_headers_counted(v, i + 1, k, l);
    } else {
        header_counted(v, k + 1, l);
    }
}

/// Without a header there is none to count.
proof fn none_counted(v: Seq<Option<ObservationLine>>, i: int)
    requires
        0 <= i,
        forall|j: int| i <= j < v.len() ==> !is_header(#[trigger] v[j]),
    ensures
        header_count(v, i) == 0,
    decreases v.len() - i,
{
    if i < v.len() {
        assert(!is_header(v[i]));
        none_counted(v, i + 1);
    }
}

/// Every line of a bundle without a header, or with two, is rejected.
pub proof fn bundles_need_one_header(
    v: Seq<Option<ObservationLine>>,
    i: int,
    f: Seq<FaultModel>,
    k: int,
    l: int,
)
    requires
        0 <= i < v.len(),
        (0 <= k < l < v.len() && v[k] is Some && v[k]->0 is BundleHeader && v[l] is Some && v[l]->0
            is BundleHeader) || (forall|j: int|
            0 <= j < v.len() ==> !((#[trigger] v[j]) is Some && v[j]->0 is BundleHeader)),
    ensures
        exists|x: FaultModel| x.0 == "O010"@ && #[trigger] line_faults(v, i, f).contains(x),
{
    broadcast use refused_has;

    if 0 <= k < l < v.len() && v[k] is Some && v[k]->0 is BundleHeader && v[l] is Some && v[l]->0
        is BundleHeader {
        two_headers_counted(v, 0, k, l);
    } else {
        assert forall|j: int| 0 <= j < v.len() implies !is_header(#[trigger] v[j]) by {
            assert(!(v[j] is Some && v[j]->0 is BundleHeader));
        }
        none_counted(v, 0);
    }
    let x = ("O010"@, crate::generate::bundle::header_message(header_count(v, 0)));
    assert(line_faults(v, i, f).contains(x));
}

/// The disposition of a line is among those of all.
proof fn disposition_listed(lines: Seq<Parsed>, n: int, i: int, k: int)
    requires
        0 <= i < n <= lines.len(),
        0 <= k < line_dispositions(lines[i]).len(),
    ensures
        all_dispositions(lines, n).contains(line_dispositions(lines[i])[k]),
    decreases n,
{
    let front = all_dispositions(lines, n - 1);
    let all = all_dispositions(lines, n);
    let x = line_dispositions(lines[i])[k];
    if i == n - 1 {
        assert(all[front.len() + k] == x);
    } else {
        disposition_listed(lines, n - 1, i, k);
        let j = front.index_of(x);
        assert(all[j] == x);
    }
}

/// A report lists every line: one that has no fault as accepted, under the code `O000`, and one that
/// has some as rejected, once for each, under its code and with its message.
pub proof fn reports_list_every_line(
    r: ValidationReport,
    bundles: Seq<Vec<BundleLine>>,
    i: int,
    x: FaultModel,
)
    requires
        reports_on(r, judged_lines(bundles)),
        0 <= i < judged_lines(bundles).len(),
    ensures
        r.schema@ == "camera-observation-validation/v1"@,
        judged_lines(bundles)[i].faults.len() == 0 ==> exists|d: int|
            0 <= d < r.dispositions@.len() && (#[trigger] r.dispositions@[d]).identity@
                == judged_lines(bundles)[i].identity && r.dispositions@[d].status
                == ValidationStatus::Accepted && r.dispositions@[d].code@ == "O000"@,
        judged_lines(bundles)[i].faults.contains(x) ==> exists|d: int|
            0 <= d < r.dispositions@.len() && (#[trigger] r.dispositions@[d]).identity@
                == judged_lines(bundles)[i].identity && r.dispositions@[d].status
                == ValidationStatus::Rejected && r.dispositions@[d].code@ == x.0
                && r.dispositions@[d].message@ == x.1,
{
    broadcast use vstd::seq_lib::group_to_multiset_ensures;

    let lines = judged_lines(bundles);
    let n = lines.len() as int;
    let given = all_dispositions(lines, n);
    let sorted = models_of(r.dispositions@);
    arranged_is_sorted::<RecordDisposition>(given);
    let l = lines[i];
    if l.faults.len() == 0 {
        let m = acceptance(l.identity);
        assert(line_dispositions(l)[0] == m);
        disposition_listed(lines, n, i, 0);
        assert(given.to_multiset().count(m) > 0);
        assert(sorted.contains(m));
        let d = sorted.index_of(m);
        assert(r.dispositions@[d].model() == m);
        assert(r.dispositions@[d].identity@ == l.identity);
    }
    if l.faults.contains(x) {
        let k = l.faults.index_of(x);
        let m = rejection(l.identity, x);
        assert(line_dispositions(l)[k] == m);
        disposition_listed(lines, n, i, k);
        assert(given.to_multiset().count(m) > 0);
        assert(sorted.contains(m));
        let d = sorted.index_of(m);
        assert(r.dispositions@[d].model() == m);
        assert(r.dispositions@[d].identity@ == l.identity);
    }
}

/// A line that is no JSON, that has no schema or another than that of observations, or that does not
/// decode holds no record and is rejected; any other holds the record that it decodes to, and has no
/// fault of its own. A line is known by the run and the record that its text names.
pub proof fn lines_hold_what_they_decode_to(line: BundleLine, record: Seq<char>, run: Seq<char>)
    ensures
        ({
            let l = parsed_line(line);
            let named = json_text_member(line.text@, "recordId"@);
            let ran = json_text_member(line.text@, "runId"@);
            let schema = json_text_member(line.text@, "schema"@);
            &&& l.counts
            &&& (named is Err || ran is Err || schema is Err) ==> l.value is None && l.faults.len()
                == 1 && l.faults[0].0 == "O001"@
            &&& named is Ok && ran is Ok && schema is Ok ==> {
                &&& named == Ok::<Option<Seq<char>>, Seq<char>>(Some(record)) && ran == Ok::<
                    Option<Seq<char>>,
                    Seq<char>,
                >(Some(run)) ==> l.identity == run + ":"@ + record
                &&& schema->Ok_0 is None ==> l.value is None && l.faults.len() == 1
                    && l.faults[0].0 == "O002"@
                &&& schema->Ok_0 is Some && schema->Ok_0->0 != "camera-observation/v1"@ ==> l.value
                    is None && l.faults.len() == 1 && l.faults[0].0 == "O002"@
                &&& schema->Ok_0 == Some("camera-observation/v1"@) && line.decoded is Ok
                    ==> l.value == Some(line.decoded->Ok_0) && l.faults.len() == 0
                &&& schema->Ok_0 == Some("camera-observation/v1"@) && line.decoded is Err
                    ==> l.value is None && l.faults.len() == 1 && l.faults[0].0 == "O003"@
            }
        }),
{
}

/// A line is known by the run and the record that it names, by the record alone under an unknown run
/// where it names none, and by the digest of its text where it names no record or is no JSON.
pub proof fn lines_are_known_by_what_they_name(line: BundleLine, record: Seq<char>)
    ensures
        ({
            let l = parsed_line(line);
            let named = json_text_member(line.text@, "recordId"@);
            let ran = json_text_member(line.text@, "runId"@);
            let schema = json_text_member(line.text@, "schema"@);
            let raw = "raw:"@ + crate::digest::sha256_text(
                vstd::utf8::encode_utf8(line.text@),
            );
            &&& named == Ok::<Option<Seq<char>>, Seq<char>>(Some(record)) && ran == Ok::<
                Option<Seq<char>>,
                Seq<char>,
            >(None) && schema is Ok ==> l.identity == "unknown-run"@ + ":"@ + record
            &&& named == Ok::<Option<Seq<char>>, Seq<char>>(None) && ran is Ok && schema is Ok
                ==> l.identity == raw
            &&& named is Err || ran is Err || schema is Err ==> l.identity == raw
        }),
{
}

/// Two records of a run repeat each other where they have one id, or one ordinal, or are transactions
/// of one connection, session, endpoint set and number.
pub proof fn records_repeat_each_other(
    v: Seq<Option<ObservationLine>>,
    run: Seq<char>,
    i: int,
    j: int,
)
    requires
        0 <= i < v.len(),
        0 <= j < v.len(),
        i != j,
        v[i] is Some,
        v[j] is Some,
        line_run(v[i]->0) == run,
        line_run(v[j]->0) == run,
    ensures
        line_record(v[i]->0) == line_record(v[j]->0) ==> repeats(id_keys(v, run), i),
        line_ordinal(v[i]->0) == line_ordinal(v[j]->0) ==> repeats(ordinal_keys(v, run), i),
        v[i]->0 matches ObservationLine::PtpTransaction(a) ==> (v[j]->0 matches
            ObservationLine::PtpTransaction(b) ==> (a.connection_instance@
            == b.connection_instance@ && a.session@ == b.session@ && a.endpoint_set@
            == b.endpoint_set@ && a.transaction_id == b.transaction_id ==> repeats(
            correlation_keys(v, run),
            i,
        ))),
{
    assert(id_keys(v, run)[j] == Some(line_record(v[j]->0)));
    assert(ordinal_keys(v, run)[j] == Some(line_ordinal(v[j]->0)));
    assert(correlation_keys(v, run)[j] == correlation_keys(v, run)[j]);
}

/// Records that differ in these from all others of the run repeat none.
pub proof fn different_records_repeat_none(
    v: Seq<Option<ObservationLine>>,
    run: Seq<char>,
    i: int,
)
    requires
        0 <= i < v.len(),
    ensures
        repeats(id_keys(v, run), i) ==> v[i] is Some && line_run(v[i]->0) == run && exists|j: int|
            0 <= j < v.len() && j != i && (#[trigger] v[j]) is Some && line_run(v[j]->0) == run
                && line_record(v[j]->0) == line_record(v[i]->0),
        repeats(ordinal_keys(v, run), i) ==> v[i] is Some && line_run(v[i]->0) == run && exists|
            j: int,
        |
            0 <= j < v.len() && j != i && (#[trigger] v[j]) is Some && line_run(v[j]->0) == run
                && line_ordinal(v[j]->0) == line_ordinal(v[i]->0),
        repeats(correlation_keys(v, run), i) ==> (v[i] matches Some(
            ObservationLine::PtpTransaction(a),
        ) && a.common.run_id@ == run && exists|j: int|
            0 <= j < v.len() && j != i && ((#[trigger] v[j]) matches Some(
                ObservationLine::PtpTransaction(b),
            ) && b.common.run_id@ == run && a.connection_instance@ == b.connection_instance@
                && a.session@ == b.session@ && a.endpoint_set@ == b.endpoint_set@
                && a.transaction_id == b.transaction_id)),
{
    let ids = id_keys(v, run);
    let ordinals = ordinal_keys(v, run);
    let keys = correlation_keys(v, run);
    if repeats(ids, i) {
        let j = choose|j: int| 0 <= j < ids.len() && j != i && #[trigger] ids[j] == ids[i];
        assert(v[j] is Some);
    }
    if repeats(ordinals, i) {
        let j = choose|j: int|
            0 <= j < ordinals.len() && j != i && #[trigger] ordinals[j] == ordinals[i];
        assert(v[j] is Some);
    }
    if repeats(keys, i) {
        let j = choose|j: int| 0 <= j < keys.len() && j != i && #[trigger] keys[j] == keys[i];
        assert(v[j] is Some);
    }
}

/// A fact is about its operation or property, and in one scope by connection, mode and state too; the
/// identity of a camera is compared in one scope only.
pub proof fn facts_are_about_their_subject(r: CapabilityRecord)
    ensures
        ({
            let v = Some(ObservationLine::Capability(Box::new(r)));
            let about = match r.subject {
                CapabilitySubject::Identity { .. } => "identity:"@ + "camera"@,
                CapabilitySubject::Operation { code, .. } => "operation:"@ + code@,
                CapabilitySubject::Property { code, .. } => "property:"@ + code@,
            };
            &&& scoped_key(v) == Some(
                about + ":"@ + r.common.context.connection@ + ":"@ + r.common.context.mode@ + ":"@
                    + r.common.context.state@,
            )
            &&& r.subject is Identity ==> global_key(v) is None
            &&& r.subject !is Identity ==> global_key(v) == Some(about)
        }),
{
}

} // verus!
