//! Whether a proposal is what its digests say, and whether a review covers it.

use crate::generate::propose::holds;
use crate::generate::write::{
    candidate_id, contents_digest, digest_json, links_of, proposal_digest, CandidateModel,
    LinkModel, Written,
};
use crate::generate::{
    GenerationError, Proposal, ProposalCandidate, ProposalRecordDisposition, ProposalRecordStatus,
    ProposalReview, ReviewDisposition, PROPOSAL_SCHEMA, REVIEW_SCHEMA,
};
use crate::name_map::NameMap;
use crate::observation::OBSERVATION_SCHEMA_VERSION;
use crate::order::{models_of, Keyed};
use crate::sorted::texts_ascend;
use crate::text::{
    debug_text, debug_texts, join3, join4, precedes, same, text_debug, text_lt, text_lt_transitive,
    texts_debug, views,
};
use crate::validate::{broken_if, first};
use vstd::prelude::*;

verus! {

/// Whether a row of texts is strictly ascending.
fn ascends(v: &Vec<String>) -> (r: bool)
    ensures
        r == texts_ascend(views(v@)),
{
    let ghost all = views(v@);
    let mut i: usize = 1;
    while i < v.len()
        invariant
            all == views(v@),
            1 <= i,
            forall|a: int, b: int|
                #![trigger all[a], all[b]]
                0 <= a < b < i && b < all.len() ==> text_lt(all[a], all[b]),
        decreases v.len() - i,
    {
        if !precedes(v[i - 1].as_str(), v[i].as_str()) {
            proof {
                assert(!text_lt(all[i - 1], all[i as int]));
            }
            return false;
        }
        proof {
            assert forall|a: int, b: int|
                #![trigger all[a], all[b]]
                0 <= a < b < i + 1 && b < all.len() implies text_lt(all[a], all[b]) by {
                if b == i && a < i - 1 {
                    assert(text_lt(all[a], all[i - 1]));
                    text_lt_transitive(all[a], all[i - 1], all[i as int]);
                }
            }
        }
        i = i + 1;
    }
    true
}

/// The ids of candidates.
pub open spec fn candidate_ids(c: Seq<CandidateModel>) -> Seq<Seq<char>> {
    Seq::new(c.len(), |i: int| c[i].id)
}

/// The identities of records.
pub open spec fn link_identities(l: Seq<LinkModel>) -> Seq<Seq<char>> {
    Seq::new(l.len(), |i: int| l[i].identity)
}

/// The ids of candidates.
pub(crate) fn collect_ids(v: &Vec<ProposalCandidate>) -> (r: Vec<String>)
    ensures
        views(r@) == candidate_ids(models_of(v@)),
{
    let mut out: Vec<String> = Vec::new();
    let mut i: usize = 0;
    while i < v.len()
        invariant
            i <= v.len(),
            out@.len() == i,
            forall|k: int| 0 <= k < i ==> #[trigger] out@[k]@ == v@[k].id@,
        decreases v.len() - i,
    {
        out.push(v[i].id.clone());
        i = i + 1;
    }
    proof {
        assert(views(out@) == candidate_ids(models_of(v@)));
    }
    out
}

/// The identities of records.
fn collect_identities(v: &Vec<ProposalRecordDisposition>) -> (r: Vec<String>)
    ensures
        views(r@) == link_identities(links_of(v@)),
{
    let mut out: Vec<String> = Vec::new();
    let mut i: usize = 0;
    while i < v.len()
        invariant
            i <= v.len(),
            out@.len() == i,
            forall|k: int| 0 <= k < i ==> #[trigger] out@[k]@ == v@[k].identity@,
        decreases v.len() - i,
    {
        out.push(v[i].identity.clone());
        i = i + 1;
    }
    proof {
        assert(views(out@) == link_identities(links_of(v@)));
    }
    out
}

/// The disposition of a record, at `i` or after it.
pub open spec fn link_for(l: Seq<LinkModel>, identity: Seq<char>, i: int) -> Option<LinkModel>
    decreases l.len() - i,
{
    if i < 0 || i >= l.len() {
        None
    } else if l[i].identity == identity {
        Some(l[i])
    } else {
        link_for(l, identity, i + 1)
    }
}

/// The candidate with an id, at `i` or after it.
pub open spec fn candidate_for(c: Seq<CandidateModel>, id: Seq<char>, i: int) -> Option<
    CandidateModel,
>
    decreases c.len() - i,
{
    if i < 0 || i >= c.len() {
        None
    } else if c[i].id == id {
        Some(c[i])
    } else {
        candidate_for(c, id, i + 1)
    }
}

/// The disposition of a record.
fn find_link<'a>(v: &'a Vec<ProposalRecordDisposition>, identity: &str) -> (r: Option<
    &'a ProposalRecordDisposition,
>)
    ensures
        link_for(links_of(v@), identity@, 0) == match r {
            Some(l) => Some(l@),
            None => None,
        },
{
    let mut i: usize = 0;
    while i < v.len()
        invariant
            i <= v.len(),
            link_for(links_of(v@), identity@, 0) == link_for(links_of(v@), identity@, i as int),
        decreases v.len() - i,
    {
        proof {
            assert(links_of(v@)[i as int] == v@[i as int]@);
        }
        if same(v[i].identity.as_str(), identity) {
            return Some(&v[i]);
        }
        i = i + 1;
    }
    None
}

/// The candidate with an id.
fn find_candidate<'a>(v: &'a Vec<ProposalCandidate>, id: &str) -> (r: Option<&'a ProposalCandidate>)
    ensures
        candidate_for(models_of(v@), id@, 0) == match r {
            Some(c) => Some(c.model()),
            None => None,
        },
{
    let mut i: usize = 0;
    while i < v.len()
        invariant
            i <= v.len(),
            candidate_for(models_of(v@), id@, 0) == candidate_for(models_of(v@), id@, i as int),
        decreases v.len() - i,
    {
        proof {
            assert(models_of(v@)[i as int] == v@[i as int].model());
        }
        if same(v[i].id.as_str(), id) {
            return Some(&v[i]);
        }
        i = i + 1;
    }
    None
}

/// Whether a verdict reports the violation `v`, or none where there is none.
pub open spec fn reports_integrity(r: Result<(), GenerationError>, v: Option<Seq<char>>) -> bool {
    match v {
        None => r is Ok,
        Some(t) => r matches Err(GenerationError::ProposalIntegrity(m)) && m@ == t,
    }
}

/// The violation by a source of a candidate, from source `k` on.
pub open spec fn source_violation(c: CandidateModel, l: Seq<LinkModel>, k: int) -> Option<Seq<char>>
    decreases c.sources.len() - k,
{
    if k < 0 || k >= c.sources.len() {
        None
    } else {
        let source = c.sources[k];
        let own = match link_for(l, source, 0) {
            None => Some(
                "candidate "@ + text_debug(c.id) + " references undisposed record "@ + text_debug(
                    source,
                ),
            ),
            Some(link) => broken_if(
                !link.candidates.contains(c.id),
                "record "@ + text_debug(source) + " does not link back to candidate "@
                    + text_debug(c.id),
            ),
        };
        first(own, source_violation(c, l, k + 1))
    }
}

/// The violation by a candidate.
pub open spec fn candidate_violation(c: CandidateModel, l: Seq<LinkModel>) -> Option<Seq<char>> {
    first(
        broken_if(
            c.id != candidate_id(c.assertion) || !texts_ascend(c.sources) || c.sources.len() == 0,
            "candidate "@ + text_debug(c.id) + " has an invalid id or source list"@,
        ),
        source_violation(c, l, 0),
    )
}

/// The violation by a candidate, from candidate `i` on.
pub open spec fn candidates_violation(
    c: Seq<CandidateModel>,
    l: Seq<LinkModel>,
    i: int,
) -> Option<Seq<char>>
    decreases c.len() - i,
{
    if i < 0 || i >= c.len() {
        None
    } else {
        first(candidate_violation(c[i], l), candidates_violation(c, l, i + 1))
    }
}

/// The violation by a candidate id of a record, from id `k` on.
pub open spec fn backlink_violation(l: LinkModel, c: Seq<CandidateModel>, k: int) -> Option<
    Seq<char>,
>
    decreases l.candidates.len() - k,
{
    if k < 0 || k >= l.candidates.len() {
        None
    } else {
        let id = l.candidates[k];
        let own = match candidate_for(c, id, 0) {
            None => Some(
                "record "@ + text_debug(l.identity) + " references unknown candidate "@
                    + text_debug(id),
            ),
            Some(candidate) => broken_if(
                !candidate.sources.contains(l.identity),
                "candidate "@ + text_debug(id) + " does not link back to record "@ + text_debug(
                    l.identity,
                ),
            ),
        };
        first(own, backlink_violation(l, c, k + 1))
    }
}

/// The violation by the disposition of a record.
pub open spec fn link_violation(l: LinkModel, c: Seq<CandidateModel>) -> Option<Seq<char>> {
    first(
        broken_if(
            !texts_ascend(l.candidates) || (l.status == ProposalRecordStatus::Proposed) != (
            l.candidates.len() > 0),
            "record "@ + text_debug(l.identity) + " has an incoherent disposition"@,
        ),
        backlink_violation(l, c, 0),
    )
}

/// The violation by the disposition of a record, from record `i` on.
pub open spec fn links_violation(l: Seq<LinkModel>, c: Seq<CandidateModel>, i: int) -> Option<
    Seq<char>,
>
    decreases l.len() - i,
{
    if i < 0 || i >= l.len() {
        None
    } else {
        first(link_violation(l[i], c), links_violation(l, c, i + 1))
    }
}

/// How a proposal is not what its digests say.
pub open spec fn integrity_violation(p: Proposal) -> Option<Seq<char>> {
    let c = models_of(p.candidates@);
    let l = links_of(p.record_dispositions@);
    first(
        broken_if(
            p.schema@ != PROPOSAL_SCHEMA@ || p.observation_schema@ != OBSERVATION_SCHEMA_VERSION@,
            "proposal uses an unknown schema discriminator"@,
        ),
        first(
            broken_if(
                !texts_ascend(candidate_ids(c)),
                "candidate ids must be unique and sorted"@,
            ),
            first(
                broken_if(
                    !texts_ascend(link_identities(l)),
                    "record dispositions must have unique sorted identities"@,
                ),
                first(
                    candidates_violation(c, l, 0),
                    first(
                        links_violation(l, c, 0),
                        broken_if(
                            p.digest@ != contents_digest(c, l),
                            "proposal digest "@ + text_debug(p.digest@)
                                + " does not match its contents"@,
                        ),
                    ),
                ),
            ),
        ),
    )
}

/// A violation of a proposal's integrity.
fn broken(message: String) -> (r: Result<(), GenerationError>)
    ensures
        reports_integrity(r, Some(message@)),
{
    Err(GenerationError::ProposalIntegrity(message))
}

/// Checks the sources of a candidate.
fn require_sources(c: &ProposalCandidate, links: &Vec<ProposalRecordDisposition>) -> (r: Result<
    (),
    GenerationError,
>)
    ensures
        reports_integrity(r, source_violation(c.model(), links_of(links@), 0)),
{
    let ghost m = c.model();
    let ghost l = links_of(links@);
    let mut k: usize = 0;
    while k < c.source_records.len()
        invariant
            m == c.model(),
            l == links_of(links@),
            k <= c.source_records@.len(),
            source_violation(m, l, 0) == source_violation(m, l, k as int),
        decreases c.source_records@.len() - k,
    {
        let source = c.source_records[k].as_str();
        proof {
            assert(m.sources[k as int] == source@);
        }
        match find_link(links, source) {
            None => {
                return broken(
                    join4(
                        "candidate ",
                        debug_text(c.id.as_str()).as_str(),
                        " references undisposed record ",
                        debug_text(source).as_str(),
                    ),
                );
            },
            Some(link) => {
                if !holds(&link.candidate_ids, c.id.as_str()) {
                    return broken(
                        join4(
                            "record ",
                            debug_text(source).as_str(),
                            " does not link back to candidate ",
                            debug_text(c.id.as_str()).as_str(),
                        ),
                    );
                }
            },
        }
        k = k + 1;
    }
    Ok(())
}

/// Checks the candidates of a record.
fn require_backlinks(
    link: &ProposalRecordDisposition,
    candidates: &Vec<ProposalCandidate>,
) -> (r: Result<(), GenerationError>)
    ensures
        reports_integrity(r, backlink_violation(link@, models_of(candidates@), 0)),
{
    let ghost m = link@;
    let ghost c = models_of(candidates@);
    let mut k: usize = 0;
    while k < link.candidate_ids.len()
        invariant
            m == link@,
            c == models_of(candidates@),
            k <= link.candidate_ids@.len(),
            backlink_violation(m, c, 0) == backlink_violation(m, c, k as int),
        decreases link.candidate_ids@.len() - k,
    {
        let id = link.candidate_ids[k].as_str();
        proof {
            assert(m.candidates[k as int] == id@);
        }
        match find_candidate(candidates, id) {
            None => {
                return broken(
                    join4(
                        "record ",
                        debug_text(link.identity.as_str()).as_str(),
                        " references unknown candidate ",
                        debug_text(id).as_str(),
                    ),
                );
            },
            Some(candidate) => {
                if !holds(&candidate.source_records, link.identity.as_str()) {
                    return broken(
                        join4(
                            "candidate ",
                            debug_text(id).as_str(),
                            " does not link back to record ",
                            debug_text(link.identity.as_str()).as_str(),
                        ),
                    );
                }
            },
        }
        k = k + 1;
    }
    Ok(())
}

/// Checks the candidates of a proposal.
fn require_candidates(
    candidates: &Vec<ProposalCandidate>,
    links: &Vec<ProposalRecordDisposition>,
) -> (r: Result<(), GenerationError>)
    ensures
        reports_integrity(r, candidates_violation(models_of(candidates@), links_of(links@), 0)),
{
    let ghost c = models_of(candidates@);
    let ghost l = links_of(links@);
    let mut i: usize = 0;
    while i < candidates.len()
        invariant
            c == models_of(candidates@),
            l == links_of(links@),
            i <= candidates@.len(),
            candidates_violation(c, l, 0) == candidates_violation(c, l, i as int),
        decreases candidates@.len() - i,
    {
        let candidate = &candidates[i];
        proof {
            assert(c[i as int] == candidate.model());
            assert(views(candidate.source_records@).len() == candidate.source_records@.len());
        }
        let expected = digest_json(&candidate.assertion.to_json());
        if !same(candidate.id.as_str(), expected.as_str()) || !ascends(&candidate.source_records)
            || candidate.source_records.len() == 0 {
            return broken(
                join3(
                    "candidate ",
                    debug_text(candidate.id.as_str()).as_str(),
                    " has an invalid id or source list",
                ),
            );
        }
        match require_sources(candidate, links) {
            Err(e) => {
                return Err(e);
            },
            Ok(_) => {},
        }
        i = i + 1;
    }
    Ok(())
}

/// Checks the dispositions of the records of a proposal.
fn require_links(
    links: &Vec<ProposalRecordDisposition>,
    candidates: &Vec<ProposalCandidate>,
) -> (r: Result<(), GenerationError>)
    ensures
        reports_integrity(r, links_violation(links_of(links@), models_of(candidates@), 0)),
{
    let ghost c = models_of(candidates@);
    let ghost l = links_of(links@);
    let mut i: usize = 0;
    while i < links.len()
        invariant
            c == models_of(candidates@),
            l == links_of(links@),
            i <= links@.len(),
            links_violation(l, c, 0) == links_violation(l, c, i as int),
        decreases links@.len() - i,
    {
        let link = &links[i];
        proof {
            assert(l[i as int] == link@);
            assert(views(link.candidate_ids@).len() == link.candidate_ids@.len());
        }
        if !ascends(&link.candidate_ids) || (link.status == ProposalRecordStatus::Proposed) != (
        link.candidate_ids.len() > 0) {
            return broken(
                join3(
                    "record ",
                    debug_text(link.identity.as_str()).as_str(),
                    " has an incoherent disposition",
                ),
            );
        }
        match require_backlinks(link, candidates) {
            Err(e) => {
                return Err(e);
            },
            Ok(_) => {},
        }
        i = i + 1;
    }
    Ok(())
}

/// Checks that a proposal is what its digests say.
pub(crate) fn require_proposal_integrity(proposal: &Proposal) -> (r: Result<(), GenerationError>)
    ensures
        reports_integrity(r, integrity_violation(*proposal)),
{
    if !same(proposal.schema.as_str(), PROPOSAL_SCHEMA) || !same(
        proposal.observation_schema.as_str(),
        OBSERVATION_SCHEMA_VERSION,
    ) {
        return broken("proposal uses an unknown schema discriminator".to_owned());
    }
    if !ascends(&collect_ids(&proposal.candidates)) {
        return broken("candidate ids must be unique and sorted".to_owned());
    }
    if !ascends(&collect_identities(&proposal.record_dispositions)) {
        return broken("record dispositions must have unique sorted identities".to_owned());
    }
    match require_candidates(&proposal.candidates, &proposal.record_dispositions) {
        Err(e) => {
            return Err(e);
        },
        Ok(_) => {},
    }
    match require_links(&proposal.record_dispositions, &proposal.candidates) {
        Err(e) => {
            return Err(e);
        },
        Ok(_) => {},
    }
    let expected = proposal_digest(&proposal.candidates, &proposal.record_dispositions);
    if !same(proposal.digest.as_str(), expected.as_str()) {
        return broken(
            join3(
                "proposal digest ",
                debug_text(proposal.digest.as_str()).as_str(),
                " does not match its contents",
            ),
        );
    }
    Ok(())
}

/// The first `n` ids that no decision is on.
pub open spec fn undecided(
    ids: Seq<Seq<char>>,
    decisions: NameMap<ReviewDisposition>,
    n: int,
) -> Seq<Seq<char>>
    decreases n,
{
    if n <= 0 || n > ids.len() {
        Seq::empty()
    } else if decisions.has(ids[n - 1]) {
        undecided(ids, decisions, n - 1)
    } else {
        undecided(ids, decisions, n - 1).push(ids[n - 1])
    }
}

/// The first `n` decisions that are on no id.
pub open spec fn unasked(
    ids: Seq<Seq<char>>,
    decisions: NameMap<ReviewDisposition>,
    n: int,
) -> Seq<Seq<char>>
    decreases n,
{
    let entries = decisions.entries();
    if n <= 0 || n > entries.len() {
        Seq::empty()
    } else if ids.contains(entries[n - 1].0@) {
        unasked(ids, decisions, n - 1)
    } else {
        unasked(ids, decisions, n - 1).push(entries[n - 1].0@)
    }
}

/// How a review does not decide exactly on the candidates.
pub open spec fn coverage_violation(
    ids: Seq<Seq<char>>,
    decisions: NameMap<ReviewDisposition>,
) -> Option<Seq<char>> {
    let missing = undecided(ids, decisions, ids.len() as int);
    let extra = unasked(ids, decisions, decisions.entries().len() as int);
    broken_if(
        missing.len() > 0 || extra.len() > 0,
        "missing="@ + texts_debug(missing) + ", extra="@ + texts_debug(extra),
    )
}

/// Checks that a review decides exactly on the candidates.
fn require_coverage(ids: &Vec<String>, decisions: &NameMap<ReviewDisposition>) -> (r: Option<String>)
    ensures
        coverage_violation(views(ids@), *decisions) == match r {
            Some(m) => Some(m@),
            None => None,
        },
{
    let ghost all = views(ids@);
    let mut missing: Vec<String> = Vec::new();
    let mut extra: Vec<String> = Vec::new();
    proof {
        assert(views(missing@) == Seq::<Seq<char>>::empty());
        assert(views(extra@) == Seq::<Seq<char>>::empty());
    }
    let mut i: usize = 0;
    while i < ids.len()
        invariant
            all == views(ids@),
            i <= ids@.len(),
            views(missing@) == undecided(all, *decisions, i as int),
        decreases ids@.len() - i,
    {
        if !decisions.contains_key(ids[i].as_str()) {
            let ghost before = missing@;
            missing.push(ids[i].clone());
            proof {
                assert(views(missing@) == views(before).push(all[i as int]));
            }
        }
        i = i + 1;
    }
    let mut k: usize = 0;
    while k < decisions.len()
        invariant
            all == views(ids@),
            k <= decisions.entries().len(),
            views(extra@) == unasked(all, *decisions, k as int),
        decreases decisions.entries().len() - k,
    {
        if !holds(ids, decisions.key_at(k).as_str()) {
            let ghost before = extra@;
            extra.push(decisions.key_at(k).clone());
            proof {
                assert(views(extra@) == views(before).push(decisions.entries()[k as int].0@));
            }
        }
        k = k + 1;
    }
    proof {
        assert(views(missing@).len() == missing@.len());
        assert(views(extra@).len() == extra@.len());
    }
    if missing.len() > 0 || extra.len() > 0 {
        Some(
            join4(
                "missing=",
                debug_texts(&missing).as_str(),
                ", extra=",
                debug_texts(&extra).as_str(),
            ),
        )
    } else {
        None
    }
}

/// Whether an error says why a review does not bind to a proposal; `None` where it does.
pub open spec fn review_refused(
    proposal: Proposal,
    review: ProposalReview,
    e: Option<GenerationError>,
) -> bool {
    let ids = candidate_ids(models_of(proposal.candidates@));
    if integrity_violation(proposal) is Some {
        e matches Some(GenerationError::ProposalIntegrity(m)) && m@ == integrity_violation(
            proposal,
        )->0
    } else if review.schema@ != REVIEW_SCHEMA@ {
        e matches Some(GenerationError::ReviewSchema { found, expected }) && found@
            == review.schema@ && expected@ == REVIEW_SCHEMA@
    } else if review.proposal_digest@ != proposal.digest@ {
        e matches Some(GenerationError::ReviewDigest { found, expected }) && found@
            == review.proposal_digest@ && expected@ == proposal.digest@
    } else if coverage_violation(ids, review.decisions) is Some {
        e matches Some(GenerationError::ReviewCoverage(m)) && m@ == coverage_violation(
            ids,
            review.decisions,
        )->0
    } else {
        e is None
    }
}

/// Checks that a review binds to a proposal: the proposal is what its digests say, and the review
/// is of it and decides exactly on its candidates.
pub(crate) fn require_review(proposal: &Proposal, review: &ProposalReview) -> (r: Result<
    (),
    GenerationError,
>)
    ensures
        match r {
            Ok(_) => review_refused(*proposal, *review, None),
            Err(e) => review_refused(*proposal, *review, Some(e)),
        },
{
    match require_proposal_integrity(proposal) {
        Err(e) => {
            return Err(e);
        },
        Ok(_) => {},
    }
    if !same(review.schema.as_str(), REVIEW_SCHEMA) {
        return Err(
            GenerationError::ReviewSchema {
                found: review.schema.clone(),
                expected: REVIEW_SCHEMA.to_owned(),
            },
        );
    }
    if !same(review.proposal_digest.as_str(), proposal.digest.as_str()) {
        return Err(
            GenerationError::ReviewDigest {
                found: review.proposal_digest.clone(),
                expected: proposal.digest.clone(),
            },
        );
    }
    let ids = collect_ids(&proposal.candidates);
    match require_coverage(&ids, &review.decisions) {
        Some(message) => Err(GenerationError::ReviewCoverage(message)),
        None => Ok(()),
    }
}

/// Where a review decides exactly on the candidates, every candidate has a decision.
pub proof fn coverage_decides(
    ids: Seq<Seq<char>>,
    decisions: NameMap<ReviewDisposition>,
    n: int,
    i: int,
)
    requires
        0 <= i < n <= ids.len(),
        undecided(ids, decisions, n).len() == 0,
    ensures
        decisions.has(ids[i]),
    decreases n,
{
    if i < n - 1 {
        coverage_decides(ids, decisions, n - 1, i);
    }
}

} // verus!
