//! What every report and every proposal accounts for.

use crate::generate::bundle::checked_bundle;
use crate::generate::conflicts::run_lines;
use crate::generate::parse::{parsed_bundle, BundleLine, Parsed};
use crate::generate::report::{
    all_dispositions, checked_lines, judged_lines, reports_on, tally, Tally,
};
use crate::generate::verdict::{checked_coded, coded, judged_coded};
use crate::generate::{RecordDisposition, ValidationReport};
use crate::order::{arranged_is_sorted, keys_ascend, models_of};
use vstd::prelude::*;

verus! {

/// How many lines the bundles have.
pub open spec fn line_total(bundles: Seq<Vec<BundleLine>>) -> nat
    decreases bundles.len(),
{
    if bundles.len() == 0 {
        0
    } else {
        line_total(bundles.drop_last()) + bundles.last()@.len()
    }
}

/// Whether every bundle has a line.
pub open spec fn all_filled(bundles: Seq<Vec<BundleLine>>) -> bool {
    forall|b: int| 0 <= b < bundles.len() ==> (#[trigger] bundles[b])@.len() > 0
}

/// Every line of bundles that have one is a record.
proof fn checked_count(bundles: Seq<Vec<BundleLine>>)
    requires
        all_filled(bundles),
    ensures
        checked_lines(bundles).len() == line_total(bundles),
        forall|i: int| 0 <= i < checked_lines(bundles).len() ==> (#[trigger] checked_lines(bundles)[i]).counts,
    decreases bundles.len(),
{
    if bundles.len() > 0 {
        let last = bundles.len() - 1;
        assert(all_filled(bundles.drop_last())) by {
            assert forall|b: int| 0 <= b < bundles.drop_last().len() implies (
            #[trigger] bundles.drop_last()[b])@.len() > 0 by {
                assert(bundles.drop_last()[b] == bundles[b]);
            }
        }
        checked_count(bundles.drop_last());
        assert(bundles[last]@.len() > 0);
        let front = checked_lines(bundles.drop_last());
        let own = checked_bundle(parsed_bundle(bundles.last()@));
        assert forall|i: int| 0 <= i < checked_lines(bundles).len() implies (
        #[trigger] checked_lines(bundles)[i]).counts by {
            if i < front.len() {
                assert(checked_lines(bundles)[i] == front[i]);
            } else {
                assert(checked_lines(bundles)[i] == own[i - front.len()]);
            }
        }
    }
}

/// Where every line is a record, each is accepted or rejected.
proof fn tallies_add_up(lines: Seq<Parsed>, n: int)
    requires
        0 <= n <= lines.len(),
        forall|i: int| 0 <= i < lines.len() ==> (#[trigger] lines[i]).counts,
    ensures
        tally(lines, Tally::Nonblank, n) == n,
        tally(lines, Tally::Accepted, n) + tally(lines, Tally::Rejected, n) == n,
    decreases n,
{
    if n > 0 {
        tallies_add_up(lines, n - 1);
        assert(lines[n - 1].counts);
    }
}

/// Every line is accounted for: where each bundle has a line, the accepted and the rejected lines
/// together are the nonblank lines of the bundles.
pub proof fn every_line_is_accounted_for(bundles: Seq<Vec<BundleLine>>, r: ValidationReport)
    requires
        reports_on(r, judged_lines(bundles)),
        all_filled(bundles),
    ensures
        r.total_nonblank == line_total(bundles),
        r.accepted + r.rejected == r.total_nonblank,
{
    checked_count(bundles);
    let checked = checked_lines(bundles);
    let lines = judged_lines(bundles);
    assert(lines.len() == checked.len());
    assert forall|i: int| 0 <= i < lines.len() implies (#[trigger] lines[i]).counts by {
        assert(checked[i].counts);
        assert(run_lines(checked)[i].counts);
    }
    tallies_add_up(lines, lines.len() as int);
}

/// The faults of a line are distinct, and none has the code of an acceptance.
pub proof fn faults_are_distinct(bundles: Seq<Vec<BundleLine>>, i: int)
    requires
        0 <= i < judged_lines(bundles).len(),
    ensures
        judged_lines(bundles)[i].faults.no_duplicates(),
        forall|k: int|
            0 <= k < judged_lines(bundles)[i].faults.len() ==> (
            #[trigger] judged_lines(bundles)[i].faults[k]).0 != "O000"@,
{
    checked_coded(bundles);
    judged_coded(checked_lines(bundles));
    assert(coded(judged_lines(bundles)[i].faults));
}

/// A report lists the dispositions of all lines and no others, in the order of identity, code and
/// message: one acceptance for a line without a fault, and one rejection for each fault of another.
pub proof fn dispositions_are_listed_in_order(bundles: Seq<Vec<BundleLine>>, r: ValidationReport)
    requires
        reports_on(r, judged_lines(bundles)),
    ensures
        keys_ascend::<RecordDisposition>(models_of(r.dispositions@)),
        models_of(r.dispositions@).to_multiset() == all_dispositions(
            judged_lines(bundles),
            judged_lines(bundles).len() as int,
        ).to_multiset(),
{
    arranged_is_sorted::<RecordDisposition>(
        all_dispositions(judged_lines(bundles), judged_lines(bundles).len() as int),
    );
}

} // verus!
