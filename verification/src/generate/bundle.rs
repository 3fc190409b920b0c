//! The checks on a bundle, and on several bundles together.

use crate::generate::fields::{
    context_faults, fault_models, identifier_faults, ranges_faults, refuse, refused,
    validate_context, validate_identifier, validate_ranges, Fault, FaultModel,
};
use crate::generate::parse::{line_values, parsed_lines, Parsed, ParsedLine};
use crate::generate::records::{
    find_clock, has_clock, header_faults, record_faults, validate_header, validate_record,
};
use crate::observation::{
    line_common, line_ordinal, line_record, line_run, line_schema, BundleHeader, ObservationLine,
    OBSERVATION_SCHEMA_VERSION,
};
use crate::text::{debug_text, decimal, join2, same, text_debug, u64_text};
use vstd::prelude::*;

verus! {

/// Whether a line holds a header.
pub open spec fn is_header(v: Option<ObservationLine>) -> bool {
    v matches Some(l) && l is BundleHeader
}

/// How many of the lines from `i` on hold a header.
pub open spec fn header_count(v: Seq<Option<ObservationLine>>, i: int) -> nat
    decreases v.len() - i,
{
    if i < 0 || i >= v.len() {
        0
    } else if is_header(v[i]) {
        1 + header_count(v, i + 1)
    } else {
        header_count(v, i + 1)
    }
}

/// The first line at `i` or after it that holds a header.
pub open spec fn header_index(v: Seq<Option<ObservationLine>>, i: int) -> int
    decreases v.len() - i,
{
    if i < 0 || i >= v.len() || is_header(v[i]) {
        i
    } else {
        header_index(v, i + 1)
    }
}

/// The header at an index.
pub open spec fn header_at(v: Seq<Option<ObservationLine>>, h: int) -> BundleHeader {
    v[h]->0->BundleHeader_0
}

/// The first line at `i` or after it that holds a header does.
proof fn header_index_bounds(v: Seq<Option<ObservationLine>>, i: int)
    requires
        0 <= i <= v.len(),
    ensures
        i <= header_index(v, i) <= v.len(),
        header_index(v, i) < v.len() ==> is_header(v[header_index(v, i)]),
        (header_index(v, i) < v.len()) == (header_count(v, i) > 0),
    decreases v.len() - i,
{
    if i < v.len() && !is_header(v[i]) {
        header_index_bounds(v, i + 1);
    }
}

/// How many lines hold a header, and the first that does.
fn find_header(lines: &Vec<ParsedLine>) -> (r: (usize, usize))
    ensures
        r.0 == header_count(line_values(lines@), 0),
        r.1 == header_index(line_values(lines@), 0),
        r.0 > 0 ==> r.1 < lines@.len() && is_header(lines@[r.1 as int].value),
{
    let mut count: usize = 0;
    let mut at: usize = lines.len();
    let ghost v = line_values(lines@);
    let mut n: usize = lines.len();
    while n > 0
        invariant
            v == line_values(lines@),
            n <= lines.len(),
            count <= lines.len() - n,
            count == header_count(v, n as int),
            at == header_index(v, n as int),
        decreases n,
    {
        n = n - 1;
        proof {
            assert(v[n as int] == lines@[n as int].value);
            header_index_bounds(v, n + 1);
        }
        match &lines[n].value {
            Some(ObservationLine::BundleHeader(_)) => {
                count = count + 1;
                at = n;
            },
            _ => {},
        }
    }
    proof {
        header_index_bounds(v, 0);
    }
    (count, at)
}

/// Whether another line has the key of line `i`.
pub open spec fn repeats<K>(keys: Seq<Option<K>>, i: int) -> bool {
    keys[i] is Some && exists|j: int|
        0 <= j < keys.len() && j != i && #[trigger] keys[j] == keys[i]
}

/// The id of a line of the run.
pub open spec fn id_key(v: Option<ObservationLine>, run: Seq<char>) -> Option<Seq<char>> {
    match v {
        Some(l) => if line_run(l) == run {
            Some(line_record(l))
        } else {
            None
        },
        None => None,
    }
}

/// The ordinal of a line of the run.
pub open spec fn ordinal_key(v: Option<ObservationLine>, run: Seq<char>) -> Option<u64> {
    match v {
        Some(l) => if line_run(l) == run {
            Some(line_ordinal(l))
        } else {
            None
        },
        None => None,
    }
}

/// What a transaction of the run is correlated by: connection instance, session, endpoint set and
/// transaction id.
pub open spec fn correlation_key(v: Option<ObservationLine>, run: Seq<char>) -> Option<
    (Seq<char>, Seq<char>, Seq<char>, u32),
> {
    match v {
        Some(ObservationLine::PtpTransaction(t)) => if t.common.run_id@ == run {
            Some((t.connection_instance@, t.session@, t.endpoint_set@, t.transaction_id))
        } else {
            None
        },
        _ => None,
    }
}

/// The ids of the lines of the run.
pub open spec fn id_keys(v: Seq<Option<ObservationLine>>, run: Seq<char>) -> Seq<
    Option<Seq<char>>,
> {
    Seq::new(v.len(), |i: int| id_key(v[i], run))
}

/// The ordinals of the lines of the run.
pub open spec fn ordinal_keys(v: Seq<Option<ObservationLine>>, run: Seq<char>) -> Seq<Option<u64>> {
    Seq::new(v.len(), |i: int| ordinal_key(v[i], run))
}

/// The correlations of the lines of the run.
pub open spec fn correlation_keys(v: Seq<Option<ObservationLine>>, run: Seq<char>) -> Seq<
    Option<(Seq<char>, Seq<char>, Seq<char>, u32)>,
> {
    Seq::new(v.len(), |i: int| correlation_key(v[i], run))
}

/// The three ways in which line `i` repeats another of its run: by id, by ordinal, by correlation.
fn find_repeats(lines: &Vec<ParsedLine>, run: &str, i: usize) -> (r: (bool, bool, bool))
    requires
        i < lines@.len(),
    ensures
        r.0 == repeats(id_keys(line_values(lines@), run@), i as int),
        r.1 == repeats(ordinal_keys(line_values(lines@), run@), i as int),
        r.2 == repeats(correlation_keys(line_values(lines@), run@), i as int),
{
    let ghost v = line_values(lines@);
    let ghost ids = id_keys(v, run@);
    let ghost ordinals = ordinal_keys(v, run@);
    let ghost correlations = correlation_keys(v, run@);
    let mut by_id = false;
    let mut by_ordinal = false;
    let mut by_correlation = false;
    proof {
        assert(v[i as int] == lines@[i as int].value);
    }
    match &lines[i].value {
        None => {},
        Some(own) => {
            if same(own.run_id(), run) {
                let mut j: usize = 0;
                while j < lines.len()
                    invariant
                        i < lines@.len(),
                        j <= lines@.len(),
                        v == line_values(lines@),
                        ids == id_keys(v, run@),
                        ordinals == ordinal_keys(v, run@),
                        correlations == correlation_keys(v, run@),
                        v[i as int] == Some(*own),
                        line_run(*own) == run@,
                        by_id == exists|k: int|
                            0 <= k < j && k != i && #[trigger] ids[k] == ids[i as int],
                        by_ordinal == exists|k: int|
                            0 <= k < j && k != i && #[trigger] ordinals[k] == ordinals[i as int],
                        by_correlation == (correlations[i as int] is Some && exists|k: int|
                            0 <= k < j && k != i && #[trigger] correlations[k]
                                == correlations[i as int]),
                    decreases lines@.len() - j,
                {
                    proof {
                        assert(v[j as int] == lines@[j as int].value);
                        assert(ids[j as int] == id_key(v[j as int], run@));
                        assert(ordinals[j as int] == ordinal_key(v[j as int], run@));
                        assert(correlations[j as int] == correlation_key(v[j as int], run@));
                        assert(correlations[i as int] == correlation_key(v[i as int], run@));
                    }
                    if j != i {
                        match &lines[j].value {
                            None => {},
                            Some(other) => {
                                if same(other.run_id(), run) {
                                    if same(other.record_id(), own.record_id()) {
                                        by_id = true;
                                    }
                                    if other.ordinal() == own.ordinal() {
                                        by_ordinal = true;
                                    }
                                    match (own, other) {
                                        (
                                            ObservationLine::PtpTransaction(a),
                                            ObservationLine::PtpTransaction(b),
                                        ) => {
                                            if same(
                                                a.connection_instance.as_str(),
                                                b.connection_instance.as_str(),
                                            ) && same(a.session.as_str(), b.session.as_str())
                                                && same(
                                                a.endpoint_set.as_str(),
                                                b.endpoint_set.as_str(),
                                            ) && a.transaction_id == b.transaction_id {
                                                by_correlation = true;
                                            }
                                        },
                                        _ => {},
                                    }
                                }
                            },
                        }
                    }
                    j = j + 1;
                }
            }
        },
    }
    (by_id, by_ordinal, by_correlation)
}

/// The faults behind a line as the bundle's header.
pub open spec fn leading_faults(
    v: Seq<Option<ObservationLine>>,
    h: int,
    i: int,
    f: Seq<FaultModel>,
) -> Seq<FaultModel> {
    if i != h {
        f
    } else {
        let header = header_at(v, h);
        let f1 = refused(f, h != 0, "O011"@, "bundle header must be the first nonblank record"@);
        let f2 = refused(f1, header.ordinal != 0, "O012"@, "bundle header ordinal must be zero"@);
        let f3 = identifier_faults(header.run_id@, "runId"@, f2);
        let f4 = identifier_faults(header.record_id@, "recordId"@, f3);
        header_faults(header, f4)
    }
}

/// The faults behind a line that repeats another of its run.
pub open spec fn repeat_faults(
    v: Seq<Option<ObservationLine>>,
    run: Seq<char>,
    i: int,
    f: Seq<FaultModel>,
) -> Seq<FaultModel> {
    let f1 = refused(f, repeats(id_keys(v, run), i), "O020"@, "duplicate recordId within run"@);
    let f2 = refused(
        f1,
        repeats(ordinal_keys(v, run), i),
        "O021"@,
        "duplicate ordinal within run"@,
    );
    refused(
        f2,
        repeats(correlation_keys(v, run), i),
        "O022"@,
        "duplicate PTP transaction correlation identity"@,
    )
}

/// The faults behind what a line says of itself.
pub open spec fn value_faults(
    v: Seq<Option<ObservationLine>>,
    header: BundleHeader,
    line: ObservationLine,
    f: Seq<FaultModel>,
) -> Seq<FaultModel> {
    let run = header.run_id@;
    let clocks = header.capture.clocks@;
    let f1 = refused(
        f,
        line_schema(line) != OBSERVATION_SCHEMA_VERSION@,
        "O002"@,
        "record schema discriminator is not canonical"@,
    );
    let f2 = refused(
        f1,
        line_run(line) != run,
        "O014"@,
        "record runId does not match its bundle header"@,
    );
    let f3 = identifier_faults(line_record(line), "recordId"@, f2);
    let f4 = refused(
        f3,
        line !is BundleHeader && line_ordinal(line) == 0,
        "O023"@,
        "non-header ordinal must be positive"@,
    );
    match line_common(line) {
        None => f4,
        Some(common) => {
            let f5 = refused(
                f4,
                !has_clock(clocks, common.time.clock@, clocks.len() as int),
                "O030"@,
                "unknown clock "@ + text_debug(common.time.clock@),
            );
            let f6 = context_faults(common.context, f5);
            let f7 = ranges_faults(
                common.artifact_ranges@,
                header.capture.artifacts@,
                f6,
                0,
            );
            record_faults(line, header.capture, v, run, f7)
        },
    }
}

/// The message on a bundle that has not one header.
pub open spec fn header_message(count: nat) -> Seq<char> {
    "bundle requires exactly one header; found "@ + decimal(count as int)
}

/// The faults behind line `i` of a bundle.
pub open spec fn line_faults(
    v: Seq<Option<ObservationLine>>,
    i: int,
    f: Seq<FaultModel>,
) -> Seq<FaultModel> {
    let count = header_count(v, 0);
    let h = header_index(v, 0);
    if count != 1 {
        refused(f, true, "O010"@, header_message(count))
    } else {
        let header = header_at(v, h);
        let f1 = repeat_faults(v, header.run_id@, i, leading_faults(v, h, i, f));
        match v[i] {
            None => f1,
            Some(line) => value_faults(v, header, line, f1),
        }
    }
}

/// The records that a row of lines holds.
pub open spec fn values_of(lines: Seq<Parsed>) -> Seq<Option<ObservationLine>> {
    Seq::new(lines.len(), |i: int| lines[i].value)
}

/// A line with other faults.
pub open spec fn with_faults(line: Parsed, f: Seq<FaultModel>) -> Parsed {
    Parsed { identity: line.identity, value: line.value, faults: f, counts: line.counts }
}

/// The lines of a bundle with their faults.
pub open spec fn checked_bundle(lines: Seq<Parsed>) -> Seq<Parsed> {
    Seq::new(
        lines.len(),
        |i: int| with_faults(lines[i], line_faults(values_of(lines), i, lines[i].faults)),
    )
}

/// Refuses what a line says of itself.
fn validate_value(
    lines: &Vec<ParsedLine>,
    header: &BundleHeader,
    line: &ObservationLine,
    faults: &mut Vec<Fault>,
)
    ensures
        fault_models(final(faults)@) == value_faults(
            line_values(lines@),
            *header,
            *line,
            fault_models(old(faults)@),
        ),
{
    let run = header.run_id.as_str();
    if !same(line.schema(), OBSERVATION_SCHEMA_VERSION) {
        refuse(faults, "O002", "record schema discriminator is not canonical".to_owned());
    }
    if !same(line.run_id(), run) {
        refuse(faults, "O014", "record runId does not match its bundle header".to_owned());
    }
    validate_identifier(line.record_id(), "recordId", faults);
    let leads = match line {
        ObservationLine::BundleHeader(_) => true,
        _ => false,
    };
    if !leads && line.ordinal() == 0 {
        refuse(faults, "O023", "non-header ordinal must be positive".to_owned());
    }
    match line.common() {
        None => {},
        Some(common) => {
            let clock = common.time.clock.as_str();
            if !find_clock(&header.capture.clocks, clock, header.capture.clocks.len()) {
                refuse(faults, "O030", join2("unknown clock ", debug_text(clock).as_str()));
            }
            validate_context(&common.context, faults);
            validate_ranges(&common.artifact_ranges, &header.capture.artifacts, faults);
            validate_record(line, &header.capture, lines, run, faults);
        },
    }
}

/// Refuses line `i` of a bundle with one header, at `h`.
fn validate_line(lines: &Vec<ParsedLine>, h: usize, i: usize, faults: &mut Vec<Fault>)
    requires
        i < lines@.len(),
        h < lines@.len(),
        h == header_index(line_values(lines@), 0),
        is_header(lines@[h as int].value),
        header_count(line_values(lines@), 0) == 1,
    ensures
        fault_models(final(faults)@) == line_faults(
            line_values(lines@),
            i as int,
            fault_models(old(faults)@),
        ),
{
    proof {
        assert(line_values(lines@)[h as int] == lines@[h as int].value);
        assert(line_values(lines@)[i as int] == lines@[i as int].value);
    }
    match &lines[h].value {
        Some(ObservationLine::BundleHeader(header)) => {
            if i == h {
                if h != 0 {
                    refuse(
                        faults,
                        "O011",
                        "bundle header must be the first nonblank record".to_owned(),
                    );
                }
                if header.ordinal != 0 {
                    refuse(faults, "O012", "bundle header ordinal must be zero".to_owned());
                }
                validate_identifier(header.run_id.as_str(), "runId", faults);
                validate_identifier(header.record_id.as_str(), "recordId", faults);
                validate_header(header, faults);
            }
            let (by_id, by_ordinal, by_correlation) = find_repeats(
                lines,
                header.run_id.as_str(),
                i,
            );
            if by_id {
                refuse(faults, "O020", "duplicate recordId within run".to_owned());
            }
            if by_ordinal {
                refuse(faults, "O021", "duplicate ordinal within run".to_owned());
            }
            if by_correlation {
                refuse(
                    faults,
                    "O022",
                    "duplicate PTP transaction correlation identity".to_owned(),
                );
            }
            match &lines[i].value {
                None => {},
                Some(line) => validate_value(lines, header, line, faults),
            }
        },
        _ => {},
    }
}

/// Refuses the lines of a bundle that does not have one header, at its start, or whose records do
/// not agree with it or with each other.
pub(crate) fn validate_bundle(lines: &mut Vec<ParsedLine>)
    ensures
        parsed_lines(final(lines)@) == checked_bundle(parsed_lines(old(lines)@)),
{
    let ghost start = parsed_lines(lines@);
    let ghost v = values_of(start);
    proof {
        assert(line_values(lines@) == v);
    }
    let (count, h) = find_header(lines);
    let mut i: usize = 0;
    while i < lines.len()
        invariant
            start == parsed_lines(old(lines)@),
            v == values_of(start),
            line_values(lines@) == v,
            lines@.len() == start.len(),
            i <= lines@.len(),
            count == header_count(v, 0),
            h == header_index(v, 0),
            count > 0 ==> h < lines@.len() && is_header(v[h as int]),
            forall|k: int|
                0 <= k < start.len() ==> #[trigger] lines@[k]@ == (if k < i {
                    checked_bundle(start)[k]
                } else {
                    start[k]
                }),
        decreases lines@.len() - i,
    {
        let ghost before = lines@;
        let mut faults: Vec<Fault> = Vec::new();
        std::mem::swap(&mut lines[i].faults, &mut faults);
        proof {
            assert(line_values(lines@) == v);
            assert(start[i as int] == before[i as int]@);
            assert(line_values(lines@)[h as int] == v[h as int]);
        }
        if count != 1 {
            refuse(
                &mut faults,
                "O010",
                join2(
                    "bundle requires exactly one header; found ",
                    u64_text(count as u64).as_str(),
                ),
            );
        } else {
            validate_line(lines, h, i, &mut faults);
        }
        lines[i].faults = faults;
        proof {
            assert(line_values(lines@) == v);
            assert(lines@[i as int]@ == checked_bundle(start)[i as int]);
        }
        i = i + 1;
    }
    proof {
        assert(parsed_lines(lines@) == checked_bundle(start));
    }
}

} // verus!
