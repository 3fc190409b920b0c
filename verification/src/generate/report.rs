//! The verdict on a set of bundles.

use crate::generate::bundle::{checked_bundle, validate_bundle};
use crate::generate::conflicts::{
    conflict_lines, run_lines, validate_conflicts, validate_duplicate_runs,
};
use crate::generate::fields::FaultModel;
use crate::generate::parse::{
    parse_bundle, parsed_bundle, parsed_lines, BundleLine, Parsed, ParsedLine,
};
use crate::generate::{
    RecordDisposition, ValidatedObservations, ValidationReport, ValidationStatus,
    VALIDATION_REPORT_SCHEMA,
};
use crate::observation::{line_ordinal, line_record, line_run, BundleHeader, ObservationLine};
use crate::order::{arrange, arranged, models_of, texts_before, Keyed, SortKey};
use crate::text::{precedes, same, text_lt_irreflexive};
use vstd::prelude::*;

verus! {

/// What a disposition says.
pub struct DispositionModel {
    pub identity: Seq<char>,
    pub status: ValidationStatus,
    pub code: Seq<char>,
    pub message: Seq<char>,
}

impl Keyed for RecordDisposition {
    type Model = DispositionModel;

    open spec fn model(&self) -> DispositionModel {
        DispositionModel {
            identity: self.identity@,
            status: self.status,
            code: self.code@,
            message: self.message@,
        }
    }

    open spec fn key_of(m: DispositionModel) -> SortKey {
        SortKey { major: m.identity, minor: m.code, number: 0, last: m.message }
    }

    fn sorts_before(&self, other: &Self) -> (r: bool) {
        texts_before(
            (self.identity.as_str(), self.code.as_str(), self.message.as_str()),
            (other.identity.as_str(), other.code.as_str(), other.message.as_str()),
        )
    }
}

impl Keyed for BundleHeader {
    type Model = BundleHeader;

    open spec fn model(&self) -> BundleHeader {
        *self
    }

    open spec fn key_of(m: BundleHeader) -> SortKey {
        SortKey { major: m.run_id@, minor: Seq::empty(), number: 0, last: Seq::empty() }
    }

    fn sorts_before(&self, other: &Self) -> (r: bool) {
        proof {
            text_lt_irreflexive(self.run_id@);
            text_lt_irreflexive(Seq::<char>::empty());
        }
        precedes(self.run_id.as_str(), other.run_id.as_str())
    }
}

impl Keyed for ObservationLine {
    type Model = ObservationLine;

    open spec fn model(&self) -> ObservationLine {
        *self
    }

    open spec fn key_of(m: ObservationLine) -> SortKey {
        SortKey {
            major: line_run(m),
            minor: Seq::empty(),
            number: line_ordinal(m) as int,
            last: line_record(m),
        }
    }

    fn sorts_before(&self, other: &Self) -> (r: bool) {
        if !same(self.run_id(), other.run_id()) {
            precedes(self.run_id(), other.run_id())
        } else if self.ordinal() != other.ordinal() {
            self.ordinal() < other.ordinal()
        } else {
            precedes(self.record_id(), other.record_id())
        }
    }
}

/// The lines of the bundles, each checked against its bundle.
pub open spec fn checked_lines(bundles: Seq<Vec<BundleLine>>) -> Seq<Parsed>
    decreases bundles.len(),
{
    if bundles.len() == 0 {
        Seq::empty()
    } else {
        checked_lines(bundles.drop_last()) + checked_bundle(parsed_bundle(bundles.last()@))
    }
}

/// The lines of the bundles with all their faults.
pub open spec fn judged_lines(bundles: Seq<Vec<BundleLine>>) -> Seq<Parsed> {
    conflict_lines(run_lines(checked_lines(bundles)))
}

/// What a report counts.
pub enum Tally {
    Nonblank,
    Accepted,
    Rejected,
}

/// Whether a line counts.
pub open spec fn counts_as(l: Parsed, t: Tally) -> bool {
    match t {
        Tally::Nonblank => l.counts,
        Tally::Accepted => l.counts && l.faults.len() == 0,
        Tally::Rejected => l.faults.len() > 0,
    }
}

/// How many of the first `n` lines count.
pub open spec fn tally(lines: Seq<Parsed>, t: Tally, n: int) -> nat
    decreases n,
{
    if n <= 0 || n > lines.len() {
        0
    } else if counts_as(lines[n - 1], t) {
        tally(lines, t, n - 1) + 1
    } else {
        tally(lines, t, n - 1)
    }
}

/// The disposition of an accepted line.
pub open spec fn acceptance(identity: Seq<char>) -> DispositionModel {
    DispositionModel {
        identity,
        status: ValidationStatus::Accepted,
        code: "O000"@,
        message: "accepted"@,
    }
}

/// The disposition for a fault.
pub open spec fn rejection(identity: Seq<char>, f: FaultModel) -> DispositionModel {
    DispositionModel { identity, status: ValidationStatus::Rejected, code: f.0, message: f.1 }
}

/// The dispositions of a line.
pub open spec fn line_dispositions(l: Parsed) -> Seq<DispositionModel> {
    if l.faults.len() == 0 {
        seq![acceptance(l.identity)]
    } else {
        Seq::new(l.faults.len(), |i: int| rejection(l.identity, l.faults[i]))
    }
}

/// The dispositions of the first `n` lines.
pub open spec fn all_dispositions(lines: Seq<Parsed>, n: int) -> Seq<DispositionModel>
    decreases n,
{
    if n <= 0 || n > lines.len() {
        Seq::empty()
    } else {
        all_dispositions(lines, n - 1) + line_dispositions(lines[n - 1])
    }
}

/// The headers among the first `n` lines that are accepted.
pub open spec fn accepted_headers(lines: Seq<Parsed>, n: int) -> Seq<BundleHeader>
    decreases n,
{
    if n <= 0 || n > lines.len() {
        Seq::empty()
    } else {
        let front = accepted_headers(lines, n - 1);
        match lines[n - 1].value {
            Some(ObservationLine::BundleHeader(h)) => if lines[n - 1].faults.len() == 0 {
                front.push(h)
            } else {
                front
            },
            _ => front,
        }
    }
}

/// The records among the first `n` lines that are accepted.
pub open spec fn accepted_records(lines: Seq<Parsed>, n: int) -> Seq<ObservationLine>
    decreases n,
{
    if n <= 0 || n > lines.len() {
        Seq::empty()
    } else {
        let front = accepted_records(lines, n - 1);
        match lines[n - 1].value {
            Some(v) => if lines[n - 1].faults.len() == 0 && v !is BundleHeader {
                front.push(v)
            } else {
                front
            },
            None => front,
        }
    }
}

/// Whether a report is the report on the lines.
pub open spec fn reports_on(r: ValidationReport, lines: Seq<Parsed>) -> bool {
    let n = lines.len() as int;
    &&& r.schema@ == VALIDATION_REPORT_SCHEMA@
    &&& r.total_nonblank == tally(lines, Tally::Nonblank, n)
    &&& r.accepted == tally(lines, Tally::Accepted, n)
    &&& r.rejected == tally(lines, Tally::Rejected, n)
    &&& models_of(r.dispositions@) == arranged::<RecordDisposition>(all_dispositions(lines, n))
}

/// Whether the observations are those that the lines hold.
pub open spec fn observes(o: ValidatedObservations, lines: Seq<Parsed>) -> bool {
    let n = lines.len() as int;
    &&& o.headers@ == arranged::<BundleHeader>(accepted_headers(lines, n))
    &&& o.records@ == arranged::<ObservationLine>(accepted_records(lines, n))
    &&& reports_on(o.report, lines)
}

impl ValidationReport {
    /// Whether nothing was rejected.
    pub fn is_valid(&self) -> (r: bool)
        ensures
            r == (self.rejected == 0),
    {
        self.rejected == 0
    }
}

/// The lines of the bundles, each checked against its bundle.
fn check_bundles(bundles: Vec<Vec<BundleLine>>) -> (r: Vec<ParsedLine>)
    ensures
        parsed_lines(r@) == checked_lines(bundles@),
{
    let mut out: Vec<ParsedLine> = Vec::new();
    let ghost all = bundles@;
    proof {
        assert(all.take(0) == Seq::<Vec<BundleLine>>::empty());
        assert(parsed_lines(out@) == Seq::<Parsed>::empty());
    }
    for bundle in it: bundles
        invariant
            it.seq() == all,
            parsed_lines(out@) == checked_lines(all.take(it.index() as int)),
    {
        let ghost k = it.index() as int;
        let ghost before = out@;
        proof {
            assert(bundle == all[k]);
            assert(all.take(k + 1).drop_last() == all.take(k));
            assert(all.take(k + 1).last() == bundle);
        }
        let mut lines = parse_bundle(bundle);
        validate_bundle(&mut lines);
        let ghost added = lines@;
        out.append(&mut lines);
        proof {
            assert(out@ == before + added);
            assert(parsed_lines(out@) == parsed_lines(before) + parsed_lines(added));
        }
    }
    proof {
        assert(all.take(all.len() as int) == all);
    }
    out
}

/// The dispositions of a line, behind those before it.
fn dispose(line: &ParsedLine, out: &mut Vec<RecordDisposition>)
    ensures
        models_of(final(out)@) == models_of(old(out)@) + line_dispositions(line@),
{
    let ghost start = models_of(out@);
    if line.faults.len() == 0 {
        let ghost before = out@;
        out.push(
            RecordDisposition {
                identity: line.identity.clone(),
                status: ValidationStatus::Accepted,
                code: "O000".to_owned(),
                message: "accepted".to_owned(),
            },
        );
        proof {
            assert(models_of(out@) == start.push(acceptance(line.identity@)));
            assert(start.push(acceptance(line.identity@)) == start + line_dispositions(line@));
        }
        return;
    }
    let ghost added = line_dispositions(line@);
    let mut i: usize = 0;
    proof {
        assert(start + added.take(0) == start);
    }
    while i < line.faults.len()
        invariant
            start == models_of(old(out)@),
            added == line_dispositions(line@),
            added.len() == line.faults@.len(),
            line.faults@.len() > 0,
            i <= line.faults@.len(),
            models_of(out@) == start + added.take(i as int),
        decreases line.faults@.len() - i,
    {
        let fault = &line.faults[i];
        let ghost before = out@;
        out.push(
            RecordDisposition {
                identity: line.identity.clone(),
                status: ValidationStatus::Rejected,
                code: fault.code.clone(),
                message: fault.message.clone(),
            },
        );
        proof {
            assert(line@.faults[i as int] == (fault.code@, fault.message@));
            assert(out@.last().model() == added[i as int]);
            assert(models_of(out@) == models_of(before).push(added[i as int]));
            assert(added.take(i + 1) == added.take(i as int).push(added[i as int]));
            assert(models_of(out@) == start + added.take(i + 1));
        }
        i = i + 1;
    }
    proof {
        assert(added.take(added.len() as int) == added);
    }
}

/// Validates one or more independent bundles, each given by its nonblank lines. Either every line
/// of every bundle is accepted, or nothing is.
pub fn validate_bundles(bundles: Vec<Vec<BundleLine>>) -> (r: Result<
    ValidatedObservations,
    ValidationReport,
>)
    ensures
        match r {
            Ok(o) => observes(o, judged_lines(bundles@)) && o.report.rejected == 0,
            Err(report) => reports_on(report, judged_lines(bundles@)) && report.rejected > 0,
        },
{
    let mut lines = check_bundles(bundles);
    validate_duplicate_runs(&mut lines);
    validate_conflicts(&mut lines);
    let ghost all = parsed_lines(lines@);
    let total: usize = lines.len();
    let mut total_nonblank: usize = 0;
    let mut accepted: usize = 0;
    let mut rejected: usize = 0;
    let mut dispositions: Vec<RecordDisposition> = Vec::new();
    let mut headers: Vec<BundleHeader> = Vec::new();
    let mut records: Vec<ObservationLine> = Vec::new();
    proof {
        assert(models_of(dispositions@) == Seq::<DispositionModel>::empty());
    }
    for line in it: lines
        invariant
            parsed_lines(it.seq()) == all,
            total == all.len(),
            total_nonblank <= it.index(),
            accepted <= it.index(),
            rejected <= it.index(),
            total_nonblank == tally(all, Tally::Nonblank, it.index() as int),
            accepted == tally(all, Tally::Accepted, it.index() as int),
            rejected == tally(all, Tally::Rejected, it.index() as int),
            models_of(dispositions@) == all_dispositions(all, it.index() as int),
            headers@ == accepted_headers(all, it.index() as int),
            records@ == accepted_records(all, it.index() as int),
    {
        let ghost k = it.index() as int;
        proof {
            assert(all[k] == line@);
        }
        if line.counts_as_record {
            total_nonblank = total_nonblank + 1;
        }
        dispose(&line, &mut dispositions);
        if line.faults.len() == 0 {
            if line.counts_as_record {
                accepted = accepted + 1;
            }
            match line.value {
                Some(ObservationLine::BundleHeader(header)) => {
                    headers.push(header);
                },
                Some(value) => {
                    records.push(value);
                },
                None => {},
            }
        } else {
            rejected = rejected + 1;
        }
    }
    let ghost h = headers@;
    let ghost r = records@;
    let headers = arrange(headers);
    let records = arrange(records);
    proof {
        assert(models_of(h) == h);
        assert(models_of(r) == r);
        assert(models_of(headers@) == headers@);
        assert(models_of(records@) == records@);
    }
    let report = ValidationReport {
        schema: VALIDATION_REPORT_SCHEMA.to_owned(),
        total_nonblank,
        accepted,
        rejected,
        dispositions: arrange(dispositions),
    };
    if report.is_valid() {
        Ok(ValidatedObservations { headers, records, report })
    } else {
        Err(report)
    }
}

} // verus!
