//! Where the candidates of a proposal come from.

use crate::generate::propose::{header_sources, link_model, linked_ids, proposes};
use crate::generate::report::DispositionModel;
use crate::generate::write::{links_of, CandidateModel};
use crate::generate::{Proposal, ProposalRecordStatus};
use crate::observation::{BundleHeader, ObservationLine};
use crate::order::{entered_rises, keys_rise, Keyed};
use vstd::prelude::*;

verus! {

/// The identity of a camera comes from all headers, each known by its run and its record, and from
/// nothing else.
pub proof fn cameras_come_from_all_headers(headers: Seq<BundleHeader>, n: int)
    requires
        0 <= n <= headers.len(),
    ensures
        keys_rise::<String>(header_sources(headers, n)),
        forall|i: int|
            0 <= i < n ==> header_sources(headers, n).contains(
                (#[trigger] headers[i]).run_id@ + ":"@ + headers[i].record_id@,
            ),
        forall|k: int|
            0 <= k < header_sources(headers, n).len() ==> exists|i: int|
                0 <= i < n && (#[trigger] headers[i]).run_id@ + ":"@ + headers[i].record_id@
                    == #[trigger] header_sources(headers, n)[k],
    decreases n,
{
    if n > 0 {
        cameras_come_from_all_headers(headers, n - 1);
        let front = header_sources(headers, n - 1);
        let all = header_sources(headers, n);
        let x = headers[n - 1].run_id@ + ":"@ + headers[n - 1].record_id@;
        entered_rises::<String>(front, x);
        let h = choose|h: int|
            0 <= h < all.len() && String::key_of(#[trigger] all[h]) == String::key_of(x);
        assert(all[h] == x);
        assert forall|i: int| 0 <= i < n implies all.contains(
            (#[trigger] headers[i]).run_id@ + ":"@ + headers[i].record_id@,
        ) by {
            if i < n - 1 {
                let y = front.index_of(headers[i].run_id@ + ":"@ + headers[i].record_id@);
                assert(all.contains(front[y]));
            }
        }
        assert forall|k: int| 0 <= k < all.len() implies exists|i: int|
            0 <= i < n && (#[trigger] headers[i]).run_id@ + ":"@ + headers[i].record_id@
                == #[trigger] all[k] by {
            if front.contains(all[k]) {
                let y = front.index_of(all[k]);
                assert(front[y] == all[k]);
                let i = choose|i: int|
                    0 <= i < n - 1 && (#[trigger] headers[i]).run_id@ + ":"@ + headers[i].record_id@
                        == front[y];
                assert(headers[i].run_id@ + ":"@ + headers[i].record_id@ == all[k]);
            } else {
                assert(headers[n - 1].run_id@ + ":"@ + headers[n - 1].record_id@ == all[k]);
            }
        }
    }
}

/// A record is linked to the candidates that name it as a source, and to no others.
proof fn links_are_to_those_that_name_it(
    c: Seq<CandidateModel>,
    identity: Seq<char>,
    n: int,
    id: Seq<char>,
)
    requires
        0 <= n <= c.len(),
    ensures
        linked_ids(c, identity, n).contains(id) <==> exists|i: int|
            0 <= i < n && (#[trigger] c[i]).id == id && c[i].sources.contains(identity),
    decreases n,
{
    if n > 0 {
        links_are_to_those_that_name_it(c, identity, n - 1, id);
        let front = linked_ids(c, identity, n - 1);
        let all = linked_ids(c, identity, n);
        if front.contains(id) {
            let x = front.index_of(id);
            assert(all[x] == id);
        }
        if c[n - 1].sources.contains(identity) && c[n - 1].id == id {
            assert(all[front.len() as int] == id);
        }
        if all.contains(id) && !front.contains(id) {
            let x = all.index_of(id);
            assert(x == front.len());
            assert(c[n - 1].id == id);
        }
    }
}

/// What a proposal says of a record: that it was proposed from, with the candidates that name it as
/// a source, or that it is evidence only, where none does.
pub proof fn records_are_linked_to_what_they_gave(
    c: Seq<CandidateModel>,
    identity: Seq<char>,
    id: Seq<char>,
)
    ensures
        link_model(c, identity).identity == identity,
        link_model(c, identity).candidates.contains(id) <==> exists|i: int|
            0 <= i < c.len() && (#[trigger] c[i]).id == id && c[i].sources.contains(identity),
        link_model(c, identity).status == ProposalRecordStatus::Proposed
            <==> link_model(c, identity).candidates.len() > 0,
        link_model(c, identity).status == ProposalRecordStatus::EvidenceOnly
            <==> link_model(c, identity).candidates.len() == 0,
{
    links_are_to_those_that_name_it(c, identity, c.len() as int, id);
}

/// A proposal has a disposition for every line that was disposed of, in their order, and is of the
/// schemas that it names.
pub proof fn proposals_dispose_of_every_line(
    p: Proposal,
    headers: Seq<BundleHeader>,
    records: Seq<ObservationLine>,
    dispositions: Seq<DispositionModel>,
    k: int,
)
    requires
        proposes(p, headers, records, dispositions),
    ensures
        p.schema@ == "camera-config-proposal/v1"@,
        p.observation_schema@ == "camera-observation/v1"@,
        p.record_dispositions@.len() == dispositions.len(),
        0 <= k < dispositions.len() ==> p.record_dispositions@[k].identity@
            == dispositions[k].identity,
{
    let l = links_of(p.record_dispositions@);
    assert(l.len() == dispositions.len());
    if 0 <= k < dispositions.len() {
        assert(l[k] == p.record_dispositions@[k]@);
        assert(l[k].identity == dispositions[k].identity);
    }
}

} // verus!
