//! The checks on several bundles together: runs and capability facts.

use crate::generate::bundle::{repeats, values_of, with_faults};
use crate::generate::claims::{equal_descriptor, same_context, same_descriptor, same_rows};
use crate::generate::fields::{refuse, refused};
use crate::generate::parse::{line_values, parsed_lines, Parsed, ParsedLine};
use crate::name_map::NameMap;
use crate::observation::{
    CapabilityDescriptor, CapabilityRecord, CapabilitySubject, CapabilityValueProfile,
    ObservationLine,
};
use crate::text::{join2, optional_text, same, same_option};
use vstd::prelude::*;

verus! {

/// Whether both texts are there and differ.
pub open spec fn texts_conflict(a: Option<String>, b: Option<String>) -> bool {
    a is Some && b is Some && optional_text(a) != optional_text(b)
}

/// Whether both descriptors are there and differ.
pub open spec fn descriptors_conflict(
    a: Option<CapabilityDescriptor>,
    b: Option<CapabilityDescriptor>,
) -> bool {
    a is Some && b is Some && !same_descriptor(a->0@, b->0@)
}

/// Whether a value is named differently by the two sets of labels.
pub open spec fn labels_conflict(a: NameMap<String>, b: NameMap<String>) -> bool {
    exists|i: int|
        0 <= i < a.entries().len() && named_otherwise(b, #[trigger] a.entries()[i])
}

/// Whether `m` names the value of an entry, and not as the entry does.
pub open spec fn named_otherwise(m: NameMap<String>, e: (String, String)) -> bool {
    m.at(e.0@) matches Some(label) && label@ != e.1@
}

/// Whether two value profiles are of one connection and mode and have other rows.
pub open spec fn profile_conflict(a: CapabilityValueProfile, b: CapabilityValueProfile) -> bool {
    a@.connection == b@.connection && a@.mode == b@.mode && a@.rows != b@.rows
}

/// Whether a value profile of one row conflicts with one of the other.
pub open spec fn profiles_conflict(
    a: Seq<CapabilityValueProfile>,
    b: Seq<CapabilityValueProfile>,
) -> bool {
    exists|i: int, j: int|
        #![trigger a[i], b[j]]
        0 <= i < a.len() && 0 <= j < b.len() && profile_conflict(a[i], b[j])
}

/// Whether two capability facts cannot both hold.
pub open spec fn subjects_conflict(a: CapabilitySubject, b: CapabilitySubject) -> bool {
    match (a, b) {
        (
            CapabilitySubject::Identity { device_version: x },
            CapabilitySubject::Identity { device_version: y },
        ) => x@ != y@,
        (
            CapabilitySubject::Operation { supported: x, .. },
            CapabilitySubject::Operation { supported: y, .. },
        ) => x != y,
        (
            CapabilitySubject::Property {
                supported: x,
                property_type: x_type,
                access: x_access,
                descriptor: x_descriptor,
                labels: x_labels,
                value_profiles: x_profiles,
                ..
            },
            CapabilitySubject::Property {
                supported: y,
                property_type: y_type,
                access: y_access,
                descriptor: y_descriptor,
                labels: y_labels,
                value_profiles: y_profiles,
                ..
            },
        ) => x != y || texts_conflict(x_type, y_type) || texts_conflict(x_access, y_access)
            || descriptors_conflict(x_descriptor, y_descriptor) || labels_conflict(
            x_labels,
            y_labels,
        ) || profiles_conflict(x_profiles@, y_profiles@),
        _ => true,
    }
}

/// Whether both texts are there and differ.
fn option_conflicts(a: &Option<String>, b: &Option<String>) -> (r: bool)
    ensures
        r == texts_conflict(*a, *b),
{
    a.is_some() && b.is_some() && !same_option(a, b)
}

/// Whether both descriptors are there and differ.
fn descriptor_conflicts(a: &Option<CapabilityDescriptor>, b: &Option<CapabilityDescriptor>) -> (r:
    bool)
    ensures
        r == descriptors_conflict(*a, *b),
{
    match (a, b) {
        (Some(x), Some(y)) => !equal_descriptor(x, y),
        _ => false,
    }
}

/// Whether a value is named differently by the two sets of labels.
fn label_conflicts(a: &NameMap<String>, b: &NameMap<String>) -> (r: bool)
    ensures
        r == labels_conflict(*a, *b),
{
    let mut i: usize = 0;
    while i < a.len()
        invariant
            i <= a.entries().len(),
            forall|k: int| 0 <= k < i ==> !named_otherwise(*b, #[trigger] a.entries()[k]),
        decreases a.entries().len() - i,
    {
        match b.get(a.key_at(i).as_str()) {
            Some(label) => {
                if !same(label.as_str(), a.value_at(i).as_str()) {
                    proof {
                        assert(named_otherwise(*b, a.entries()[i as int]));
                    }
                    return true;
                }
            },
            None => {},
        }
        i = i + 1;
    }
    false
}

/// Whether a value profile of one row conflicts with one of the other.
fn profile_conflicts(a: &Vec<CapabilityValueProfile>, b: &Vec<CapabilityValueProfile>) -> (r: bool)
    ensures
        r == profiles_conflict(a@, b@),
{
    let mut i: usize = 0;
    while i < a.len()
        invariant
            i <= a.len(),
            forall|x: int, y: int|
                #![trigger a@[x], b@[y]]
                0 <= x < i && 0 <= y < b@.len() ==> !profile_conflict(a@[x], b@[y]),
        decreases a.len() - i,
    {
        let mut j: usize = 0;
        while j < b.len()
            invariant
                i < a.len(),
                j <= b.len(),
                forall|y: int|
                    0 <= y < j ==> !profile_conflict(a@[i as int], #[trigger] b@[y]),
            decreases b.len() - j,
        {
            if same_option(&a[i].connection, &b[j].connection) && same_option(
                &a[i].mode,
                &b[j].mode,
            ) && !same_rows(&a[i].rows, &b[j].rows) {
                proof {
                    assert(profile_conflict(a@[i as int], b@[j as int]));
                }
                return true;
            }
            j = j + 1;
        }
        i = i + 1;
    }
    false
}

/// Whether two capability facts cannot both hold.
fn capability_subjects_conflict(left: &CapabilitySubject, right: &CapabilitySubject) -> (r: bool)
    ensures
        r == subjects_conflict(*left, *right),
{
    match (left, right) {
        (
            CapabilitySubject::Identity { device_version: x },
            CapabilitySubject::Identity { device_version: y },
        ) => !same(x.as_str(), y.as_str()),
        (
            CapabilitySubject::Operation { supported: x, .. },
            CapabilitySubject::Operation { supported: y, .. },
        ) => *x != *y,
        (
            CapabilitySubject::Property {
                supported: x,
                property_type: x_type,
                access: x_access,
                descriptor: x_descriptor,
                labels: x_labels,
                value_profiles: x_profiles,
                ..
            },
            CapabilitySubject::Property {
                supported: y,
                property_type: y_type,
                access: y_access,
                descriptor: y_descriptor,
                labels: y_labels,
                value_profiles: y_profiles,
                ..
            },
        ) => *x != *y || option_conflicts(x_type, y_type) || option_conflicts(x_access, y_access)
            || descriptor_conflicts(x_descriptor, y_descriptor) || label_conflicts(
            x_labels,
            y_labels,
        ) || profile_conflicts(x_profiles, y_profiles),
        _ => true,
    }
}

/// The capability record that a line holds.
pub open spec fn capability_of(v: Option<ObservationLine>) -> Option<CapabilityRecord> {
    match v {
        Some(ObservationLine::Capability(r)) => Some(*r),
        _ => None,
    }
}

/// What a capability fact is about.
pub open spec fn subject_name(s: CapabilitySubject) -> Seq<char> {
    match s {
        CapabilitySubject::Identity { .. } => "identity:"@ + "camera"@,
        CapabilitySubject::Operation { code, .. } => "operation:"@ + code@,
        CapabilitySubject::Property { code, .. } => "property:"@ + code@,
    }
}

/// What a capability fact is about, whatever its scope. A camera's identity is not compared across
/// scopes.
pub open spec fn global_key(v: Option<ObservationLine>) -> Option<Seq<char>> {
    match capability_of(v) {
        Some(r) => if r.subject is Identity {
            None
        } else {
            Some(subject_name(r.subject))
        },
        None => None,
    }
}

/// What a capability fact is about, in its scope.
pub open spec fn scoped_key(v: Option<ObservationLine>) -> Option<Seq<char>> {
    match capability_of(v) {
        Some(r) => Some(
            subject_name(r.subject) + ":"@ + r.common.context.connection@ + ":"@
                + r.common.context.mode@ + ":"@ + r.common.context.state@,
        ),
        None => None,
    }
}

/// What each line's capability fact is about.
pub open spec fn fact_keys(v: Seq<Option<ObservationLine>>, scoped: bool) -> Seq<
    Option<Seq<char>>,
> {
    Seq::new(
        v.len(),
        |i: int|
            if scoped {
                scoped_key(v[i])
            } else {
                global_key(v[i])
            },
    )
}

/// Whether two capability facts cannot both hold: in one scope, or in different ones.
pub open spec fn facts_conflict(
    a: Option<ObservationLine>,
    b: Option<ObservationLine>,
    scoped: bool,
) -> bool {
    match (capability_of(a), capability_of(b)) {
        (Some(x), Some(y)) => subjects_conflict(x.subject, y.subject) && (scoped
            || x.common.context@ != y.common.context@),
        _ => false,
    }
}

/// Whether the fact of line `p` conflicts with one on the same thing further on.
pub open spec fn clashes(v: Seq<Option<ObservationLine>>, scoped: bool, p: int) -> bool {
    fact_keys(v, scoped)[p] is Some && exists|q: int|
        p < q < v.len() && #[trigger] fact_keys(v, scoped)[q] == fact_keys(v, scoped)[p]
            && facts_conflict(v[p], v[q], scoped)
}

/// Whether two facts on the thing that the fact of line `i` is about conflict.
pub open spec fn contested(v: Seq<Option<ObservationLine>>, scoped: bool, i: int) -> bool {
    fact_keys(v, scoped)[i] is Some && exists|p: int|
        0 <= p < v.len() && #[trigger] fact_keys(v, scoped)[p] == fact_keys(v, scoped)[i]
            && clashes(v, scoped, p)
}

/// What a capability fact is about.
fn subject_text(s: &CapabilitySubject) -> (r: String)
    ensures
        r@ == subject_name(*s),
{
    match s {
        CapabilitySubject::Identity { .. } => join2("identity:", "camera"),
        CapabilitySubject::Operation { code, .. } => join2("operation:", code.as_str()),
        CapabilitySubject::Property { code, .. } => join2("property:", code.as_str()),
    }
}

/// What a line's capability fact is about.
fn fact_key(v: &Option<ObservationLine>, scoped: bool) -> (r: Option<String>)
    ensures
        optional_text(r) == (if scoped {
            scoped_key(*v)
        } else {
            global_key(*v)
        }),
{
    match v {
        Some(ObservationLine::Capability(record)) => {
            let name = subject_text(&record.subject);
            if scoped {
                let context = &record.common.context;
                Some(
                    name.concat(":").concat(context.connection.as_str()).concat(":").concat(
                        context.mode.as_str(),
                    ).concat(":").concat(context.state.as_str()),
                )
            } else {
                match &record.subject {
                    CapabilitySubject::Identity { .. } => None,
                    _ => Some(name),
                }
            }
        },
        _ => None,
    }
}

/// The texts of a row of keys.
pub open spec fn key_texts(v: Seq<Option<String>>) -> Seq<Option<Seq<char>>> {
    Seq::new(v.len(), |i: int| optional_text(v[i]))
}

/// What each line's capability fact is about.
fn find_keys(lines: &Vec<ParsedLine>, scoped: bool) -> (r: Vec<Option<String>>)
    ensures
        key_texts(r@) == fact_keys(line_values(lines@), scoped),
{
    let mut out: Vec<Option<String>> = Vec::new();
    let ghost keys = fact_keys(line_values(lines@), scoped);
    let mut i: usize = 0;
    while i < lines.len()
        invariant
            keys == fact_keys(line_values(lines@), scoped),
            i <= lines@.len(),
            out@.len() == i,
            forall|k: int| 0 <= k < i ==> optional_text(#[trigger] out@[k]) == keys[k],
        decreases lines@.len() - i,
    {
        proof {
            assert(line_values(lines@)[i as int] == lines@[i as int].value);
        }
        out.push(fact_key(&lines[i].value, scoped));
        i = i + 1;
    }
    proof {
        assert(key_texts(out@) == keys);
    }
    out
}

/// Whether two capability facts cannot both hold.
fn find_conflict(a: &Option<ObservationLine>, b: &Option<ObservationLine>, scoped: bool) -> (r:
    bool)
    ensures
        r == facts_conflict(*a, *b, scoped),
{
    match (a, b) {
        (
            Some(ObservationLine::Capability(x)),
            Some(ObservationLine::Capability(y)),
        ) => capability_subjects_conflict(&x.subject, &y.subject) && (scoped || !same_context(
            &x.common.context,
            &y.common.context,
        )),
        _ => false,
    }
}

/// Which lines hold a fact that conflicts with one on the same thing further on.
fn find_clashes(lines: &Vec<ParsedLine>, keys: &Vec<Option<String>>, scoped: bool) -> (r: Vec<bool>)
    requires
        key_texts(keys@) == fact_keys(line_values(lines@), scoped),
    ensures
        r@.len() == lines@.len(),
        forall|p: int|
            0 <= p < r@.len() ==> #[trigger] r@[p] == clashes(line_values(lines@), scoped, p),
{
    let ghost v = line_values(lines@);
    let ghost all = fact_keys(v, scoped);
    proof {
        assert(key_texts(keys@).len() == all.len());
    }
    let mut out: Vec<bool> = Vec::new();
    let mut p: usize = 0;
    while p < lines.len()
        invariant
            v == line_values(lines@),
            all == fact_keys(v, scoped),
            key_texts(keys@) == all,
            keys@.len() == lines@.len(),
            p <= lines@.len(),
            out@.len() == p,
            forall|k: int| 0 <= k < p ==> #[trigger] out@[k] == clashes(v, scoped, k),
        decreases lines@.len() - p,
    {
        let mut found = false;
        proof {
            assert(key_texts(keys@)[p as int] == optional_text(keys@[p as int]));
            assert(v[p as int] == lines@[p as int].value);
        }
        if keys[p].is_some() {
            let mut q: usize = p + 1;
            while q < lines.len()
                invariant
                    v == line_values(lines@),
                    all == fact_keys(v, scoped),
                    key_texts(keys@) == all,
                    keys@.len() == lines@.len(),
                    p < q <= lines@.len(),
                    v[p as int] == lines@[p as int].value,
                    all[p as int] == optional_text(keys@[p as int]),
                    found == exists|k: int|
                        p < k < q && #[trigger] all[k] == all[p as int] && facts_conflict(
                            v[p as int],
                            v[k],
                            scoped,
                        ),
                decreases lines@.len() - q,
            {
                proof {
                    assert(key_texts(keys@)[q as int] == optional_text(keys@[q as int]));
                    assert(v[q as int] == lines@[q as int].value);
                    assert(all[q as int] == optional_text(keys@[q as int]));
                }
                if same_option(&keys[q], &keys[p]) && find_conflict(
                    &lines[p].value,
                    &lines[q].value,
                    scoped,
                ) {
                    found = true;
                }
                q = q + 1;
            }
        }
        out.push(found);
        p = p + 1;
    }
    out
}

/// Which lines hold a fact on a thing on which two facts conflict.
fn find_contested(lines: &Vec<ParsedLine>, scoped: bool) -> (r: Vec<bool>)
    ensures
        r@.len() == lines@.len(),
        forall|i: int|
            0 <= i < r@.len() ==> #[trigger] r@[i] == contested(line_values(lines@), scoped, i),
{
    let ghost v = line_values(lines@);
    let ghost all = fact_keys(v, scoped);
    let keys = find_keys(lines, scoped);
    proof {
        assert(key_texts(keys@).len() == all.len());
    }
    let clash = find_clashes(lines, &keys, scoped);
    let mut out: Vec<bool> = Vec::new();
    let mut i: usize = 0;
    while i < lines.len()
        invariant
            v == line_values(lines@),
            all == fact_keys(v, scoped),
            key_texts(keys@) == all,
            keys@.len() == lines@.len(),
            clash@.len() == lines@.len(),
            forall|p: int| 0 <= p < clash@.len() ==> #[trigger] clash@[p] == clashes(v, scoped, p),
            i <= lines@.len(),
            out@.len() == i,
            forall|k: int| 0 <= k < i ==> #[trigger] out@[k] == contested(v, scoped, k),
        decreases lines@.len() - i,
    {
        let mut found = false;
        proof {
            assert(key_texts(keys@)[i as int] == optional_text(keys@[i as int]));
        }
        if keys[i].is_some() {
            let mut p: usize = 0;
            while p < lines.len()
                invariant
                    v == line_values(lines@),
                    all == fact_keys(v, scoped),
                    key_texts(keys@) == all,
                    keys@.len() == lines@.len(),
                    clash@.len() == lines@.len(),
                    forall|p: int|
                        0 <= p < clash@.len() ==> #[trigger] clash@[p] == clashes(v, scoped, p),
                    i < lines@.len(),
                    p <= lines@.len(),
                    all[i as int] == optional_text(keys@[i as int]),
                    found == exists|k: int|
                        0 <= k < p && #[trigger] all[k] == all[i as int] && clashes(v, scoped, k),
                decreases lines@.len() - p,
            {
                proof {
                    assert(key_texts(keys@)[p as int] == optional_text(keys@[p as int]));
                    assert(all[p as int] == optional_text(keys@[p as int]));
                    assert(clash@[p as int] == clashes(v, scoped, p as int));
                }
                if clash[p] && same_option(&keys[p], &keys[i]) {
                    found = true;
                }
                p = p + 1;
            }
        }
        out.push(found);
        i = i + 1;
    }
    out
}

/// The lines with the fault on a contested fact.
pub open spec fn contested_lines(
    lines: Seq<Parsed>,
    scoped: bool,
    code: Seq<char>,
    message: Seq<char>,
) -> Seq<Parsed> {
    Seq::new(
        lines.len(),
        |i: int|
            with_faults(
                lines[i],
                refused(
                    lines[i].faults,
                    contested(values_of(lines), scoped, i),
                    code,
                    message,
                ),
            ),
    )
}

/// Refuses the lines that a flag marks.
fn refuse_marked(lines: &mut Vec<ParsedLine>, marks: &Vec<bool>, code: &str, message: &str)
    requires
        marks@.len() == old(lines)@.len(),
    ensures
        parsed_lines(final(lines)@) == Seq::new(
            old(lines)@.len(),
            |i: int|
                with_faults(
                    old(lines)@[i]@,
                    refused(old(lines)@[i]@.faults, marks@[i], code@, message@),
                ),
        ),
{
    let ghost start = lines@;
    let mut i: usize = 0;
    while i < lines.len()
        invariant
            start == old(lines)@,
            lines@.len() == start.len(),
            marks@.len() == start.len(),
            i <= lines@.len(),
            forall|k: int|
                0 <= k < start.len() ==> #[trigger] lines@[k]@ == (if k < i {
                    with_faults(
                        start[k]@,
                        refused(start[k]@.faults, marks@[k], code@, message@),
                    )
                } else {
                    start[k]@
                }),
        decreases lines@.len() - i,
    {
        let ghost before = lines@;
        proof {
            assert(before[i as int]@ == start[i as int]@);
        }
        if marks[i] {
            refuse(&mut lines[i].faults, code, message.to_owned());
        }
        proof {
            assert(lines@[i as int]@ == with_faults(
                start[i as int]@,
                refused(start[i as int]@.faults, marks@[i as int], code@, message@),
            ));
            assert forall|k: int| 0 <= k < start.len() && k != i implies #[trigger] lines@[k]@
                == before[k]@ by {}
        }
        i = i + 1;
    }
}

/// The lines with the faults on contested facts.
pub open spec fn conflict_lines(lines: Seq<Parsed>) -> Seq<Parsed> {
    contested_lines(
        contested_lines(
            lines,
            true,
            "O400"@,
            "conflicting capability fact in one exact scope"@,
        ),
        false,
        "O401"@,
        "capability facts conflict across scopes that the manifest cannot represent"@,
    )
}

/// Refuses every capability fact on a thing on which two facts conflict, in one scope or across
/// scopes.
pub(crate) fn validate_conflicts(lines: &mut Vec<ParsedLine>)
    ensures
        parsed_lines(final(lines)@) == conflict_lines(parsed_lines(old(lines)@)),
{
    let ghost start = parsed_lines(lines@);
    let scoped = find_contested(lines, true);
    proof {
        assert(line_values(lines@) == values_of(start));
    }
    refuse_marked(lines, &scoped, "O400", "conflicting capability fact in one exact scope");
    let ghost middle = parsed_lines(lines@);
    proof {
        assert(middle == contested_lines(
            start,
            true,
            "O400"@,
            "conflicting capability fact in one exact scope"@,
        ));
        assert(line_values(lines@) == values_of(middle));
    }
    let global = find_contested(lines, false);
    refuse_marked(
        lines,
        &global,
        "O401",
        "capability facts conflict across scopes that the manifest cannot represent",
    );
    proof {
        assert(parsed_lines(lines@) == contested_lines(
            middle,
            false,
            "O401"@,
            "capability facts conflict across scopes that the manifest cannot represent"@,
        ));
    }
}

/// The run that a header names.
pub open spec fn run_key(v: Option<ObservationLine>) -> Option<Seq<char>> {
    match v {
        Some(ObservationLine::BundleHeader(h)) => Some(h.run_id@),
        _ => None,
    }
}

/// The runs that the headers among the lines name.
pub open spec fn run_keys(v: Seq<Option<ObservationLine>>) -> Seq<Option<Seq<char>>> {
    Seq::new(v.len(), |i: int| run_key(v[i]))
}

/// The lines with the fault on a run that two headers name.
pub open spec fn run_lines(lines: Seq<Parsed>) -> Seq<Parsed> {
    Seq::new(
        lines.len(),
        |i: int|
            with_faults(
                lines[i],
                refused(
                    lines[i].faults,
                    repeats(run_keys(values_of(lines)), i),
                    "O013"@,
                    "duplicate runId across bundles"@,
                ),
            ),
    )
}

/// Whether another header names the run of line `i`.
fn find_repeated_run(lines: &Vec<ParsedLine>, i: usize) -> (r: bool)
    requires
        i < lines@.len(),
    ensures
        r == repeats(run_keys(line_values(lines@)), i as int),
{
    let ghost v = line_values(lines@);
    let ghost keys = run_keys(v);
    proof {
        assert(v[i as int] == lines@[i as int].value);
    }
    match &lines[i].value {
        Some(ObservationLine::BundleHeader(own)) => {
            let mut j: usize = 0;
            while j < lines.len()
                invariant
                    v == line_values(lines@),
                    keys == run_keys(v),
                    i < lines@.len(),
                    j <= lines@.len(),
                    keys[i as int] == Some(own.run_id@),
                    forall|k: int| 0 <= k < j && k != i ==> #[trigger] keys[k] != keys[i as int],
                decreases lines@.len() - j,
            {
                proof {
                    assert(v[j as int] == lines@[j as int].value);
                    assert(keys[j as int] == run_key(v[j as int]));
                }
                if j != i {
                    match &lines[j].value {
                        Some(ObservationLine::BundleHeader(other)) => {
                            if same(other.run_id.as_str(), own.run_id.as_str()) {
                                return true;
                            }
                        },
                        _ => {},
                    }
                }
                j = j + 1;
            }
            false
        },
        _ => false,
    }
}

/// Refuses every header whose run another header names.
pub(crate) fn validate_duplicate_runs(lines: &mut Vec<ParsedLine>)
    ensures
        parsed_lines(final(lines)@) == run_lines(parsed_lines(old(lines)@)),
{
    let ghost start = parsed_lines(lines@);
    let ghost v = line_values(lines@);
    let mut marks: Vec<bool> = Vec::new();
    let mut i: usize = 0;
    while i < lines.len()
        invariant
            parsed_lines(lines@) == start,
            start == parsed_lines(old(lines)@),
            v == line_values(lines@),
            i <= lines@.len(),
            marks@.len() == i,
            forall|k: int| 0 <= k < i ==> #[trigger] marks@[k] == repeats(run_keys(v), k),
        decreases lines@.len() - i,
    {
        marks.push(find_repeated_run(lines, i));
        i = i + 1;
    }
    proof {
        assert(v == values_of(start));
    }
    refuse_marked(lines, &marks, "O013", "duplicate runId across bundles");
    proof {
        assert(parsed_lines(lines@) == run_lines(start));
    }
}

} // verus!
