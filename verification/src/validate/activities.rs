//! Rules on connection activities.

use crate::activity::{
    activity_id, conflicting, valid_activity_id, ConnectionActivityBinding,
    ConnectionActivityDescriptor, ConnectionActivityHostEstablishment, ConnectionActivitySequence,
};
use crate::error::ManifestError;
use crate::model::{Connection, SocketRole};
use crate::text::{decimal, join2, join3, join4, join6, same, u64_text};
use crate::validate::{first, index_path, indexed, reports};
use vstd::prelude::*;

verus! {

/// The descriptors behind a row of references.
pub open spec fn all(v: Seq<&ConnectionActivityDescriptor>) -> Seq<ConnectionActivityDescriptor> {
    Seq::new(v.len(), |i: int| *v[i])
}

/// The descriptors seen behind a part of a manifest, or the first violation in it.
pub enum Scan {
    Seen(Seq<ConnectionActivityDescriptor>),
    Broken(Seq<char>),
}

/// Whether a verdict and the descriptors seen agree with a scan.
pub open spec fn scans(
    r: Result<(), ManifestError>,
    seen: Seq<&ConnectionActivityDescriptor>,
    s: Scan,
) -> bool {
    match s {
        Scan::Seen(d) => r is Ok && all(seen) == d,
        Scan::Broken(t) => r matches Err(ManifestError::Contract(m)) && m@ == t,
    }
}

/// Whether a descriptor seen before conflicts with `d`.
pub open spec fn conflict_before(
    seen: Seq<ConnectionActivityDescriptor>,
    d: ConnectionActivityDescriptor,
) -> bool {
    exists|i: int| 0 <= i < seen.len() && conflicting(#[trigger] seen[i], d)
}

/// The scan of the descriptors of `acts` from `i` on: each agrees with the earlier descriptors of
/// its activity.
pub open spec fn consistent_scan(
    acts: Seq<ConnectionActivityDescriptor>,
    seen: Seq<ConnectionActivityDescriptor>,
    path: Seq<char>,
    i: int,
) -> Scan
    decreases acts.len() - i,
{
    if i < 0 || i >= acts.len() {
        Scan::Seen(seen)
    } else if conflict_before(seen, acts[i]) {
        Scan::Broken(
            path + " activity '"@ + acts[i].id@ + "@"@ + decimal(acts[i].version as int)
                + "' metadata differs or binding identity differs from another descriptor"@,
        )
    } else {
        consistent_scan(acts, seen.push(acts[i]), path, i + 1)
    }
}

/// Whether a descriptor seen before conflicts with `d`.
fn conflicts_before(
    seen: &Vec<&ConnectionActivityDescriptor>,
    d: &ConnectionActivityDescriptor,
) -> (r: bool)
    ensures
        r == conflict_before(all(seen@), *d),
{
    let mut i: usize = 0;
    while i < seen.len()
        invariant
            i <= seen.len(),
            forall|j: int| 0 <= j < i ==> !conflicting(#[trigger] all(seen@)[j], *d),
        decreases seen.len() - i,
    {
        proof {
            assert(all(seen@)[i as int] == *seen@[i as int]);
        }
        if seen[i].conflicts_with(d) {
            return true;
        }
        i = i + 1;
    }
    false
}

/// Checks that descriptors of one activity agree, and adds those of `acts` to the ones seen.
pub(crate) fn require_consistent_activity_metadata<'a>(
    seen: &mut Vec<&'a ConnectionActivityDescriptor>,
    acts: &'a Vec<ConnectionActivityDescriptor>,
    path: &str,
) -> (r: Result<(), ManifestError>)
    ensures
        scans(r, final(seen)@, consistent_scan(acts@, all(old(seen)@), path@, 0)),
{
    let ghost start = all(seen@);
    let mut i: usize = 0;
    while i < acts.len()
        invariant
            i <= acts.len(),
            start == all(old(seen)@),
            consistent_scan(acts@, start, path@, 0) == consistent_scan(
                acts@,
                all(seen@),
                path@,
                i as int,
            ),
        decreases acts.len() - i,
    {
        let d = &acts[i];
        if conflicts_before(seen, d) {
            let head = join4(path, " activity '", d.id.as_str(), "@");
            return Err(
                ManifestError::Contract(
                    join3(head.as_str(), u64_text(d.version as u64).as_str(), "' metadata differs or binding identity differs from another descriptor"),
                ),
            );
        }
        let ghost before = seen@;
        seen.push(d);
        proof {
            assert(all(seen@) == all(before).push(*d));
        }
        i = i + 1;
    }
    Ok(())
}

/// Whether an activity before `i` has the id of activity `i`.
pub open spec fn id_before(acts: Seq<ConnectionActivityDescriptor>, i: int) -> bool {
    exists|j: int| 0 <= j < i && (#[trigger] acts[j]).id@ == acts[i].id@
}

/// Whether an activity before `i` has the id of activity `i`.
fn repeats_id(acts: &Vec<ConnectionActivityDescriptor>, i: usize) -> (r: bool)
    requires
        i < acts.len(),
    ensures
        r == id_before(acts@, i as int),
{
    let mut j: usize = 0;
    while j < i
        invariant
            j <= i < acts.len(),
            forall|k: int| 0 <= k < j ==> (#[trigger] acts@[k]).id@ != acts@[i as int].id@,
        decreases i - j,
    {
        if same(acts[j].id.as_str(), acts[i].id.as_str()) {
            return true;
        }
        j = j + 1;
    }
    false
}

/// The violation of the rules on an executor activity, where the spans before it end at `next`.
pub open spec fn executor_activity_violation(
    acts: Seq<ConnectionActivityDescriptor>,
    path: Seq<char>,
    next: u32,
    i: int,
) -> Option<Seq<char>> {
    let here = indexed(path, "["@, i);
    let d = acts[i];
    if !activity_id(d.id@) || id_before(acts, i) {
        Some(here + ".id must be unique with at least two dot-delimited segments"@)
    } else if d.version == 0 || d.default_expected_duration_ms == 0 {
        Some(here + " version and defaultExpectedDurationMs must be > 0"@)
    } else {
        match d.binding {
            ConnectionActivityBinding::ExecutorSpan(b) => if b.executor_span.sequence
                != ConnectionActivitySequence::Steps {
                Some(here + ".executorSpan.sequence must be steps"@)
            } else if b.executor_span.start_step != next || b.executor_span.end_step_exclusive
                <= b.executor_span.start_step {
                Some(
                    here + ".executorSpan must continue ordered coverage at step "@ + decimal(
                        next as int,
                    ),
                )
            } else {
                None
            },
            _ => Some(here + " must use executorSpan"@),
        }
    }
}

/// The end of the executor span of an activity.
pub open spec fn span_end(d: ConnectionActivityDescriptor) -> u32 {
    match d.binding {
        ConnectionActivityBinding::ExecutorSpan(b) => b.executor_span.end_step_exclusive,
        _ => 0,
    }
}

/// The start of the executor span of an activity.
pub open spec fn span_start(d: ConnectionActivityDescriptor) -> u32 {
    match d.binding {
        ConnectionActivityBinding::ExecutorSpan(b) => b.executor_span.start_step,
        _ => 0,
    }
}

/// The violation of the rules on executor activities, from `i` on: their spans cover the steps in
/// order, without a gap.
pub open spec fn executor_activities_violation(
    acts: Seq<ConnectionActivityDescriptor>,
    step_count: int,
    path: Seq<char>,
    next: u32,
    i: int,
) -> Option<Seq<char>>
    decreases acts.len() - i,
{
    if i < 0 || i >= acts.len() {
        if acts.len() > 0 && next != step_count {
            Some(
                path + " covers "@ + decimal(next as int) + " of "@ + decimal(step_count)
                    + " top-level steps"@,
            )
        } else {
            None
        }
    } else {
        match executor_activity_violation(acts, path, next, i) {
            Some(t) => Some(t),
            None => executor_activities_violation(
                acts,
                step_count,
                path,
                span_end(acts[i]),
                i + 1,
            ),
        }
    }
}

/// Checks one executor activity and gives the end of its span.
fn require_valid_executor_activity(
    acts: &Vec<ConnectionActivityDescriptor>,
    path: &str,
    next: u32,
    i: usize,
) -> (r: Result<u32, ManifestError>)
    requires
        i < acts.len(),
    ensures
        match executor_activity_violation(acts@, path@, next, i as int) {
            None => r == Ok::<u32, ManifestError>(span_end(acts@[i as int])),
            Some(t) => r matches Err(ManifestError::Contract(m)) && m@ == t,
        },
{
    let here = index_path(path, "[", i);
    let d = &acts[i];
    if !valid_activity_id(d.id.as_str()) || repeats_id(acts, i) {
        return Err(
            ManifestError::Contract(
                join2(here.as_str(), ".id must be unique with at least two dot-delimited segments"),
            ),
        );
    }
    if d.version == 0 || d.default_expected_duration_ms == 0 {
        return Err(
            ManifestError::Contract(
                join2(here.as_str(), " version and defaultExpectedDurationMs must be > 0"),
            ),
        );
    }
    match &d.binding {
        ConnectionActivityBinding::ExecutorSpan(b) => {
            let span = &b.executor_span;
            if span.sequence != ConnectionActivitySequence::Steps {
                return Err(
                    ManifestError::Contract(
                        join2(here.as_str(), ".executorSpan.sequence must be steps"),
                    ),
                );
            }
            if span.start_step != next || span.end_step_exclusive <= span.start_step {
                return Err(
                    ManifestError::Contract(
                        join3(here.as_str(), ".executorSpan must continue ordered coverage at step ", u64_text(next as u64).as_str()),
                    ),
                );
            }
            Ok(span.end_step_exclusive)
        },
        _ => {
            return Err(
                ManifestError::Contract(
                    join2(here.as_str(), " must use executorSpan"),
                ),
            );
        },
    }
}

/// Checks the executor activities over a row of steps.
pub(crate) fn require_valid_executor_activities(
    activities: &Vec<ConnectionActivityDescriptor>,
    step_count: usize,
    path: &str,
) -> (r: Result<(), ManifestError>)
    ensures
        reports(
            r,
            executor_activities_violation(activities@, step_count as int, path@, 0, 0),
        ),
{
    let mut next: u32 = 0;
    let mut i: usize = 0;
    while i < activities.len()
        invariant
            i <= activities.len(),
            executor_activities_violation(activities@, step_count as int, path@, 0, 0)
                == executor_activities_violation(
                activities@,
                step_count as int,
                path@,
                next,
                i as int,
            ),
        decreases activities.len() - i,
    {
        let end = match require_valid_executor_activity(activities, path, next, i) {
            Err(e) => {
                return Err(e);
            },
            Ok(v) => v,
        };
        next = end;
        i = i + 1;
    }
    if activities.len() > 0 && next as u64 != step_count as u64 {
        return Err(
            ManifestError::Contract(
                join6(path, " covers ", u64_text(next as u64).as_str(), " of ", u64_text(step_count as u64).as_str(), " top-level steps"),
            ),
        );
    }
    Ok(())
}

/// The checkpoint name of a host activity.
pub open spec fn checkpoint_name(d: ConnectionActivityDescriptor) -> Option<Seq<char>> {
    match d.binding {
        ConnectionActivityBinding::HostCheckpoint(b) => Some(b.host_checkpoint.name@),
        _ => None,
    }
}

/// The network scope of a host activity.
pub open spec fn network_scope(d: ConnectionActivityDescriptor) -> Option<Seq<char>> {
    match d.binding {
        ConnectionActivityBinding::HostEstablishment(b) => match b.host_establishment {
            ConnectionActivityHostEstablishment::NetworkIdentityExact { network_identity_exact } =>
                Some(network_identity_exact.expected_scope@),
            _ => None,
        },
        _ => None,
    }
}

/// Whether a host activity opens the retained session.
pub open spec fn retains_session(d: ConnectionActivityDescriptor) -> bool {
    match d.binding {
        ConnectionActivityBinding::HostEstablishment(b) => b.host_establishment
            is RetainedSessionOpen,
        _ => false,
    }
}

/// Whether an activity before `i` has the checkpoint of activity `i`.
pub open spec fn checkpoint_before(acts: Seq<ConnectionActivityDescriptor>, i: int) -> bool {
    exists|j: int| 0 <= j < i && checkpoint_name(#[trigger] acts[j]) == checkpoint_name(acts[i])
}

/// Whether an activity before `i` has the network scope of activity `i`.
pub open spec fn scope_before(acts: Seq<ConnectionActivityDescriptor>, i: int) -> bool {
    exists|j: int| 0 <= j < i && network_scope(#[trigger] acts[j]) == network_scope(acts[i])
}

/// Whether an activity before `i` opens the retained session.
pub open spec fn session_before(acts: Seq<ConnectionActivityDescriptor>, i: int) -> bool {
    exists|j: int| 0 <= j < i && retains_session(#[trigger] acts[j])
}

/// The violation of the rules on the binding of host activity `i`.
pub open spec fn host_binding_violation(
    acts: Seq<ConnectionActivityDescriptor>,
    path: Seq<char>,
    i: int,
) -> Option<Seq<char>> {
    match acts[i].binding {
        ConnectionActivityBinding::HostCheckpoint(b) => if b.host_checkpoint.name@.len() == 0 {
            Some(path + ".hostCheckpoint.name must not be empty"@)
        } else if checkpoint_before(acts, i) {
            Some(
                path + ".hostCheckpoint.name duplicates checkpoint '"@ + b.host_checkpoint.name@
                    + "'"@,
            )
        } else {
            None
        },
        ConnectionActivityBinding::HostEstablishment(b) => match b.host_establishment {
            ConnectionActivityHostEstablishment::NetworkIdentityExact { network_identity_exact } =>
                if network_identity_exact.expected_scope@.len() == 0 {
                Some(
                    path
                        + ".hostEstablishment.networkIdentityExact.expectedScope must not be empty"@,
                )
            } else if scope_before(acts, i) {
                Some(
                    path
                        + ".hostEstablishment.networkIdentityExact.expectedScope duplicates exact network gate '"@
                        + network_identity_exact.expected_scope@ + "'"@,
                )
            } else {
                None
            },
            ConnectionActivityHostEstablishment::RetainedSessionOpen { retained_session_open } => if retained_session_open.socket_role
                != SocketRole::Command {
                Some(
                    path
                        + ".hostEstablishment.retainedSessionOpen.socketRole must be command"@,
                )
            } else if session_before(acts, i) {
                Some(
                    path
                        + ".hostEstablishment.retainedSessionOpen.socketRole duplicates retained session gate 'Command'"@,
                )
            } else {
                None
            },
        },
        ConnectionActivityBinding::ExecutorSpan(_) => Some(
            path + " must use hostCheckpoint or hostEstablishment"@,
        ),
    }
}

/// The violation of the rules on the host activities of a connection, from `i` on.
pub open spec fn host_activities_violation(
    acts: Seq<ConnectionActivityDescriptor>,
    id: Seq<char>,
    i: int,
) -> Option<Seq<char>>
    decreases acts.len() - i,
{
    if i < 0 || i >= acts.len() {
        None
    } else {
        let path = indexed("connections."@ + id, ".activities["@, i);
        let d = acts[i];
        if !activity_id(d.id@) {
            Some(path + ".id must contain at least two non-empty dot-delimited segments"@)
        } else if id_before(acts, i) {
            Some(path + ".id duplicates activity '"@ + d.id@ + "'"@)
        } else if d.version == 0 {
            Some(path + ".version must be > 0"@)
        } else if d.default_expected_duration_ms == 0 {
            Some(path + ".defaultExpectedDurationMs must be > 0"@)
        } else {
            first(
                host_binding_violation(acts, path, i),
                host_activities_violation(acts, id, i + 1),
            )
        }
    }
}

/// Whether an activity before `i` has the checkpoint `name`.
fn has_checkpoint_before(
    acts: &Vec<ConnectionActivityDescriptor>,
    name: &str,
    i: usize,
) -> (r: bool)
    requires
        i < acts.len(),
        checkpoint_name(acts@[i as int]) == Some(name@),
    ensures
        r == checkpoint_before(acts@, i as int),
{
    let mut j: usize = 0;
    while j < i
        invariant
            j <= i < acts.len(),
            checkpoint_name(acts@[i as int]) == Some(name@),
            forall|k: int|
                0 <= k < j ==> checkpoint_name(#[trigger] acts@[k]) != checkpoint_name(
                    acts@[i as int],
                ),
        decreases i - j,
    {
        if let ConnectionActivityBinding::HostCheckpoint(b) = &acts[j].binding {
            if same(b.host_checkpoint.name.as_str(), name) {
                return true;
            }
        }
        j = j + 1;
    }
    false
}

/// Whether an activity before `i` has the network scope `scope`.
fn has_scope_before(acts: &Vec<ConnectionActivityDescriptor>, scope: &str, i: usize) -> (r: bool)
    requires
        i < acts.len(),
        network_scope(acts@[i as int]) == Some(scope@),
    ensures
        r == scope_before(acts@, i as int),
{
    let mut j: usize = 0;
    while j < i
        invariant
            j <= i < acts.len(),
            network_scope(acts@[i as int]) == Some(scope@),
            forall|k: int|
                0 <= k < j ==> network_scope(#[trigger] acts@[k]) != network_scope(
                    acts@[i as int],
                ),
        decreases i - j,
    {
        if let ConnectionActivityBinding::HostEstablishment(b) = &acts[j].binding {
            if let ConnectionActivityHostEstablishment::NetworkIdentityExact {
                network_identity_exact,
            } = &b.host_establishment {
                if same(network_identity_exact.expected_scope.as_str(), scope) {
                    return true;
                }
            }
        }
        j = j + 1;
    }
    false
}

/// Whether an activity before `i` opens the retained session.
fn has_session_before(acts: &Vec<ConnectionActivityDescriptor>, i: usize) -> (r: bool)
    requires
        i < acts.len(),
    ensures
        r == session_before(acts@, i as int),
{
    let mut j: usize = 0;
    while j < i
        invariant
            j <= i < acts.len(),
            forall|k: int| 0 <= k < j ==> !retains_session(#[trigger] acts@[k]),
        decreases i - j,
    {
        if let ConnectionActivityBinding::HostEstablishment(b) = &acts[j].binding {
            if let ConnectionActivityHostEstablishment::RetainedSessionOpen { .. } =
                &b.host_establishment {
                return true;
            }
        }
        j = j + 1;
    }
    false
}

/// Checks the binding of a host activity.
fn require_valid_host_binding(
    acts: &Vec<ConnectionActivityDescriptor>,
    path: &str,
    i: usize,
) -> (r: Result<(), ManifestError>)
    requires
        i < acts.len(),
    ensures
        reports(r, host_binding_violation(acts@, path@, i as int)),
{
    match &acts[i].binding {
        ConnectionActivityBinding::HostCheckpoint(b) => {
            let name = b.host_checkpoint.name.as_str();
            if name.unicode_len() == 0 {
                return Err(
                    ManifestError::Contract(
                        join2(path, ".hostCheckpoint.name must not be empty"),
                    ),
                );
            }
            if has_checkpoint_before(acts, name, i) {
                return Err(
                    ManifestError::Contract(
                        join4(path, ".hostCheckpoint.name duplicates checkpoint '", name, "'"),
                    ),
                );
            }
        },
        ConnectionActivityBinding::HostEstablishment(b) => match &b.host_establishment {
            ConnectionActivityHostEstablishment::NetworkIdentityExact { network_identity_exact } => {
                let scope = network_identity_exact.expected_scope.as_str();
                if scope.unicode_len() == 0 {
                    return Err(
                        ManifestError::Contract(
                            join2(path, ".hostEstablishment.networkIdentityExact.expectedScope must not be empty"),
                        ),
                    );
                }
                if has_scope_before(acts, scope, i) {
                    return Err(
                        ManifestError::Contract(
                            join4(path, ".hostEstablishment.networkIdentityExact.expectedScope duplicates exact network gate '", scope, "'"),
                        ),
                    );
                }
            },
            ConnectionActivityHostEstablishment::RetainedSessionOpen { retained_session_open } => {
                if retained_session_open.socket_role != SocketRole::Command {
                    return Err(
                        ManifestError::Contract(
                            join2(path, ".hostEstablishment.retainedSessionOpen.socketRole must be command"),
                        ),
                    );
                }
                if has_session_before(acts, i) {
                    return Err(
                        ManifestError::Contract(
                            join2(path, ".hostEstablishment.retainedSessionOpen.socketRole duplicates retained session gate 'Command'"),
                        ),
                    );
                }
            },
        },
        ConnectionActivityBinding::ExecutorSpan(_) => {
            return Err(
                ManifestError::Contract(
                    join2(path, " must use hostCheckpoint or hostEstablishment"),
                ),
            );
        },
    }
    Ok(())
}

/// Checks the host activities of a connection.
pub(crate) fn require_valid_host_activities(connection: &Connection, connection_id: &str) -> (r:
    Result<(), ManifestError>)
    ensures
        reports(r, host_activities_violation(connection.activities@, connection_id@, 0)),
{
    let acts = &connection.activities;
    let base = join2("connections.", connection_id);
    let mut i: usize = 0;
    while i < acts.len()
        invariant
            *acts == connection.activities,
            base@ == "connections."@ + connection_id@,
            i <= acts.len(),
            host_activities_violation(acts@, connection_id@, 0) == host_activities_violation(
                acts@,
                connection_id@,
                i as int,
            ),
        decreases acts.len() - i,
    {
        let path = index_path(base.as_str(), ".activities[", i);
        let d = &acts[i];
        if !valid_activity_id(d.id.as_str()) {
            return Err(
                ManifestError::Contract(
                    join2(path.as_str(), ".id must contain at least two non-empty dot-delimited segments"),
                ),
            );
        }
        if repeats_id(acts, i) {
            return Err(
                ManifestError::Contract(
                    join4(path.as_str(), ".id duplicates activity '", d.id.as_str(), "'"),
                ),
            );
        }
        if d.version == 0 {
            return Err(
                ManifestError::Contract(
                    join2(path.as_str(), ".version must be > 0"),
                ),
            );
        }
        if d.default_expected_duration_ms == 0 {
            return Err(
                ManifestError::Contract(
                    join2(path.as_str(), ".defaultExpectedDurationMs must be > 0"),
                ),
            );
        }
        match require_valid_host_binding(acts, path.as_str(), i) {
            Err(e) => {
                return Err(e);
            },
            Ok(_) => {},
        }
        i = i + 1;
    }
    Ok(())
}

proof fn executor_spans_follow(
    acts: Seq<ConnectionActivityDescriptor>,
    step_count: int,
    path: Seq<char>,
    next: u32,
    i: int,
)
    requires
        0 <= i <= acts.len(),
        executor_activities_violation(acts, step_count, path, next, i) is None,
    ensures
        i < acts.len() ==> span_start(acts[i]) == next,
        forall|j: int| i <= j < acts.len() ==> span_start(#[trigger] acts[j]) < span_end(acts[j]),
        forall|j: int|
            i <= j < acts.len() - 1 ==> span_end(#[trigger] acts[j]) == span_start(acts[j + 1]),
        acts.len() > 0 ==> (if i < acts.len() { span_end(acts.last()) } else { next })
            == step_count,
    decreases acts.len() - i,
{
    if i < acts.len() {
        executor_spans_follow(acts, step_count, path, span_end(acts[i]), i + 1);
    }
}

/// Where executor activities are accepted, their spans divide the steps: the first begins at the
/// first step, each is filled and begins where the one before it ends, and the last ends behind
/// the last step.
pub proof fn executor_spans_divide_the_steps(
    acts: Seq<ConnectionActivityDescriptor>,
    step_count: int,
    path: Seq<char>,
)
    requires
        acts.len() > 0,
        executor_activities_violation(acts, step_count, path, 0, 0) is None,
    ensures
        span_start(acts[0]) == 0,
        forall|j: int| 0 <= j < acts.len() ==> span_start(#[trigger] acts[j]) < span_end(acts[j]),
        forall|j: int|
            0 <= j < acts.len() - 1 ==> span_end(#[trigger] acts[j]) == span_start(acts[j + 1]),
        span_end(acts.last()) == step_count,
{
    executor_spans_follow(acts, step_count, path, 0, 0);
}

} // verus!
