//! What the rules on steps, activities and actions accept.

use crate::activity::{
    activity_id, conflicting, contract_of, id_segment, ConnectionActivityBinding,
    ConnectionActivityDescriptor, ConnectionActivityHostEstablishment, ConnectionActivitySequence,
};
use crate::model::{
    declared, hex_code, Action, ActionEffect, ActionInitiatorParameter,
    ActionInitiatorParameterKind, ActionParameter, ActionResponder, AwaitSource, CameraManifest,
    Capture, CaptureSource, Loop, MissingRuntimeValue, ModeEntry, Property,
    PropertyTransitionTerminal, ResponderMutation, RuntimeSetPropValue, SocketBindings, SocketRole,
    Step, StepRetry,
};
use crate::query::coded;
use crate::text::{split_text, trimmed};
use crate::validate::indexed;
use crate::validate::accepted::reads;
use crate::validate::actions::{
    action_roles_violation, declaration_of, default_outside, enqueue_violation, name_before,
    objects_range, param_named, responder_params_violation, runtime_reference_violation,
    scalar_bounds, scalar_fits, transition_mutation_violation, triggers_violation,
};
use crate::validate::activities::{
    checkpoint_before, consistent_scan, executor_activities_violation, executor_activity_violation,
    host_activities_violation, host_binding_violation, id_before, scope_before, session_before,
};
use crate::validate::entries::{cold_entry, reestablish_violation};
use crate::validate::steps::{
    await_capture_violation, bound_after, bound_after_branches, bound_after_retry, bound_after_step,
    bound_inside, capture_violation, captured_arrays, has_loop, open_channel_violation,
    open_channels_violation, response_code_violation, retry_violation, runtime_value_violation,
    step_has_loop, step_runtime_value_violation, step_shape_violation,
};
use vstd::prelude::*;

verus! {

/// One where a field is set, zero where it is not.
pub open spec fn one_if(set: bool) -> int {
    if set {
        1
    } else {
        0
    }
}

/// A step names one action and no more.
pub proof fn steps_name_one_action(s: Step, here: Seq<char>)
    ensures
        step_shape_violation(s, here) is None ==> one_if(s.set_prop is Some) + one_if(
            s.get_prop is Some,
        ) + one_if(s.read_echo is Some) + one_if(s.send_op is Some) + one_if(
            s.open_channel is Some,
        ) + one_if(s.reopen_session is Some) + one_if(s.close_session is Some) + one_if(
            s.await_until is Some,
        ) + one_if(s.retry is Some) + one_if(s.loop_step is Some) + one_if(s.if_step is Some) == 1,
        one_if(s.set_prop is Some) + one_if(s.get_prop is Some) + one_if(s.read_echo is Some)
            + one_if(s.send_op is Some) + one_if(s.open_channel is Some) + one_if(
            s.reopen_session is Some,
        ) + one_if(s.close_session is Some) + one_if(s.await_until is Some) + one_if(
            s.retry is Some,
        ) + one_if(s.loop_step is Some) + one_if(s.if_step is Some) == 1 && s.captures@.len() == 0
            ==> step_shape_violation(s, here) is None,
{
    reveal(crate::model::present);
}

/// An awaiting step captures values of properties only, and only where it polls one.
pub proof fn awaits_capture_what_they_poll(s: Step, here: Seq<char>)
    ensures
        await_capture_violation(s, here) is None <==> s.await_until is None || s.captures@.len()
            == 0 || {
            &&& match s.await_until->0.source {
                AwaitSource::Poll { .. } => true,
                AwaitSource::Event { then_poll, .. } => then_poll is Some,
            }
            &&& forall|i: int|
                0 <= i < s.captures@.len() ==> (#[trigger] s.captures@[i]).source
                    == CaptureSource::PropValue
        },
{
}

/// The id of a transaction is captured from one operation that must succeed, an array from an
/// operation or a property that must; both under a name, an array under one of its own.
pub proof fn captures_come_from_what_succeeds(
    s: Step,
    c: Capture,
    here: Seq<char>,
    names: Set<Seq<char>>,
)
    ensures
        c.source == CaptureSource::TransactionId ==> (capture_violation(s, c, here, names) is None
            <==> s.send_op is Some && s.repeat == 1 && !s.tolerant && trimmed(c.bind@).len() > 0),
        c.source == CaptureSource::PtpU32Array ==> (capture_violation(s, c, here, names) is None
            <==> (s.get_prop is Some || s.send_op is Some) && !s.tolerant && trimmed(c.bind@).len()
            > 0 && !names.contains(c.bind@)),
        c.source != CaptureSource::TransactionId && c.source != CaptureSource::PtpU32Array
            ==> capture_violation(s, c, here, names) is None,
{
}

/// What a step captures as an array is bound by it, each under a name of its own.
pub proof fn captured_arrays_are_bound(
    s: Step,
    here: Seq<char>,
    names: Set<Seq<char>>,
    i: int,
)
    requires
        0 <= i,
        captured_arrays(s, here, names, i) is Names,
    ensures
        ({
            let out = captured_arrays(s, here, names, i)->Names_0;
            &&& forall|k: int|
                i <= k < s.captures@.len() && (#[trigger] s.captures@[k]).source
                    == CaptureSource::PtpU32Array ==> out.contains(s.captures@[k].bind@)
            &&& forall|n: Seq<char>| names.contains(n) ==> #[trigger] out.contains(n)
            &&& forall|n: Seq<char>| #[trigger]
                out.contains(n) ==> names.contains(n) || exists|k: int|
                    i <= k < s.captures@.len() && (#[trigger] s.captures@[k]).source
                        == CaptureSource::PtpU32Array && s.captures@[k].bind@ == n
        }),
        forall|k: int|
            i <= k < s.captures@.len() && (#[trigger] s.captures@[k]).source
                == CaptureSource::PtpU32Array ==> !names.contains(s.captures@[k].bind@),
        forall|j: int, k: int|
            #![trigger s.captures@[j], s.captures@[k]]
            i <= j < k < s.captures@.len() && s.captures@[j].source == CaptureSource::PtpU32Array
                && s.captures@[k].source == CaptureSource::PtpU32Array ==> s.captures@[j].bind@
                != s.captures@[k].bind@,
    decreases s.captures@.len() - i,
{
    if i < s.captures@.len() {
        let c = s.captures@[i];
        let next = if c.source == CaptureSource::PtpU32Array {
            names.insert(c.bind@)
        } else {
            names
        };
        captured_arrays_are_bound(s, here, next, i + 1);
        let out = captured_arrays(s, here, names, i)->Names_0;
        assert forall|n: Seq<char>| #[trigger] out.contains(n) implies names.contains(n) || exists|
            k: int,
        |
            i <= k < s.captures@.len() && (#[trigger] s.captures@[k]).source
                == CaptureSource::PtpU32Array && s.captures@[k].bind@ == n by {
            if next.contains(n) && !names.contains(n) {
                assert(s.captures@[i].bind@ == n);
            } else if !next.contains(n) {
                let k = choose|k: int|
                    i + 1 <= k < s.captures@.len() && (#[trigger] s.captures@[k]).source
                        == CaptureSource::PtpU32Array && s.captures@[k].bind@ == n;
                assert(s.captures@[k].bind@ == n);
            }
        }
        assert forall|j: int, k: int|
            #![trigger s.captures@[j], s.captures@[k]]
            i <= j < k < s.captures@.len() && s.captures@[j].source == CaptureSource::PtpU32Array
                && s.captures@[k].source == CaptureSource::PtpU32Array implies s.captures@[j].bind@
            != s.captures@[k].bind@ by {
            if j == i {
                assert(next.contains(c.bind@));
                assert(!next.contains(s.captures@[k].bind@));
            }
        }
    }
}

/// A retry has steps, none of them a loop, attempts, and failures that it answers, by codes or by
/// their class.
pub proof fn retries_answer_failures(r: StepRetry, here: Seq<char>)
    ensures
        retry_violation(r, here) is None <==> {
            &&& r.steps@.len() > 0
            &&& r.when_response_codes@.len() > 0 || r.when_failure_classes@.len() > 0
            &&& r.max_attempts > 0
            &&& forall|k: int| 0 <= k < r.steps@.len() ==> !step_has_loop(#[trigger] r.steps@[k])
            &&& forall|k: int|
                0 <= k < r.when_response_codes@.len() ==> hex_code(
                    (#[trigger] r.when_response_codes@[k])@,
                ) is Some
        },
{
    response_codes_checked(r.when_response_codes@, here, 0);
    let steps = r.steps@;
    if has_loop(steps) {
        let i = choose|i: int| 0 <= i < steps.len() && step_has_loop(steps[i]);
        assert(step_has_loop(steps[i]));
    }
}

/// All response codes are checked.
proof fn response_codes_checked(codes: Seq<String>, here: Seq<char>, i: int)
    requires
        0 <= i,
    ensures
        response_code_violation(codes, here, i) is None <==> forall|k: int|
            i <= k < codes.len() ==> hex_code((#[trigger] codes[k])@) is Some,
    decreases codes.len() - i,
{
    if i < codes.len() {
        response_codes_checked(codes, here, i + 1);
        assert(hex_code(codes[i]@) is Some ==> true);
    }
}

/// A loop counts wherever it stands: in a step, or in the steps that it retries, runs while it
/// awaits, or runs on a condition.
pub proof fn loops_count_at_any_depth(s: Step, k: int)
    ensures
        s.loop_step is Some ==> step_has_loop(s),
        s.retry is Some && 0 <= k < s.retry->0.steps@.len() && step_has_loop(s.retry->0.steps@[k])
            ==> step_has_loop(s),
        s.await_until is Some && 0 <= k < s.await_until->0.on_each@.len() && step_has_loop(
            s.await_until->0.on_each@[k],
        ) ==> step_has_loop(s),
        s.if_step is Some && 0 <= k < s.if_step->0.then_steps@.len() && step_has_loop(
            s.if_step->0.then_steps@[k],
        ) ==> step_has_loop(s),
        s.if_step is Some && 0 <= k < s.if_step->0.else_steps@.len() && step_has_loop(
            s.if_step->0.else_steps@[k],
        ) ==> step_has_loop(s),
        s.loop_step is None && s.retry is None && s.await_until is None && s.if_step is None
            ==> !step_has_loop(s),
{
    reveal_with_fuel(has_loop, 2);
    if let Some(r) = s.retry {
        if 0 <= k < r.steps@.len() && step_has_loop(r.steps@[k]) {
            assert(has_loop(r.steps@));
        }
    }
    if let Some(a) = s.await_until {
        if 0 <= k < a.on_each@.len() && step_has_loop(a.on_each@[k]) {
            assert(has_loop(a.on_each@));
        }
    }
    if let Some(c) = s.if_step {
        if 0 <= k < c.then_steps@.len() && step_has_loop(c.then_steps@[k]) {
            assert(has_loop(c.then_steps@));
        }
        if 0 <= k < c.else_steps@.len() && step_has_loop(c.else_steps@[k]) {
            assert(has_loop(c.else_steps@));
        }
    }
}

/// Steps keep the rules one by one, each with what is bound behind those before it; what is bound
/// stays so.
pub proof fn steps_keep_what_is_bound(
    steps: Seq<Step>,
    path: Seq<char>,
    names: Set<Seq<char>>,
    i: int,
)
    requires
        0 <= i,
        bound_after(steps, path, names, i) is Names,
    ensures
        names.subset_of(bound_after(steps, path, names, i)->Names_0),
    decreases steps, steps.len() - i,
{
    if i < steps.len() {
        let next = bound_after_step(steps[i], indexed(path, ".steps["@, i), names);
        step_keeps_what_is_bound(steps[i], indexed(path, ".steps["@, i), names);
        steps_keep_what_is_bound(steps, path, next->Names_0, i + 1);
    }
}

/// What is bound before a step is bound behind it, and so is what it captures as an array.
pub proof fn step_keeps_what_is_bound(s: Step, here: Seq<char>, names: Set<Seq<char>>)
    requires
        bound_after_step(s, here, names) is Names,
    ensures
        names.subset_of(bound_after_step(s, here, names)->Names_0),
        forall|k: int|
            0 <= k < s.captures@.len() && (#[trigger] s.captures@[k]).source
                == CaptureSource::PtpU32Array ==> bound_after_step(
                s,
                here,
                names,
            )->Names_0.contains(s.captures@[k].bind@),
    decreases s, 2int,
{
    let arrays = captured_arrays(s, here, Set::empty(), 0)->Names_0;
    captured_arrays_are_bound(s, here, Set::empty(), 0);
    let all = names.union(arrays);
    let retried = bound_after_retry(s, here, all)->Names_0;
    if let Some(r) = s.retry {
        steps_keep_what_is_bound(r.steps@, here + ".retry"@, all, 0);
    }
    assert(all.subset_of(retried));
    if let Some(c) = s.if_step {
        steps_keep_what_is_bound(c.then_steps@, here + ".if.then"@, retried, 0);
        steps_keep_what_is_bound(c.else_steps@, here + ".if.else"@, retried, 0);
    }
}

/// A loop runs over what is bound before it.
pub proof fn loops_run_over_what_is_bound(s: Step, here: Seq<char>, names: Set<Seq<char>>)
    ensures
        match s.loop_step {
            Some(Loop::ForEach { collection, body, .. }) => bound_inside(s, here, names) is None
                ==> names.contains(collection@) && bound_after(
                body@,
                here + ".loop"@,
                names,
                0,
            ) is Names,
            Some(Loop::Chunk { body, .. }) => bound_inside(s, here, names) is None ==> bound_after(
                body@,
                here + ".loop"@,
                names,
                0,
            ) is Names,
            None => true,
        },
        s.await_until is Some && bound_inside(s, here, names) is None ==> bound_after(
            s.await_until->0.on_each@,
            here + ".awaitUntil"@,
            names,
            0,
        ) is Names,
        s.loop_step is None && s.await_until is None ==> bound_inside(s, here, names) is None,
{
}

/// Behind a condition only what both branches bind is bound.
pub proof fn branches_bind_what_both_bind(
    s: Step,
    here: Seq<char>,
    names: Set<Seq<char>>,
    n: Seq<char>,
)
    requires
        s.if_step is Some,
        bound_after_branches(s, here, names) is Names,
    ensures
        ({
            let yes = bound_after(s.if_step->0.then_steps@, here + ".if.then"@, names, 0);
            let no = bound_after(s.if_step->0.else_steps@, here + ".if.else"@, names, 0);
            &&& yes is Names
            &&& no is Names
            &&& bound_after_branches(s, here, names)->Names_0.contains(n)
                <==> yes->Names_0.contains(n) && no->Names_0.contains(n)
        }),
{
}

/// Steps that may fail bind nothing by retrying.
pub proof fn tolerant_retries_bind_nothing(s: Step, here: Seq<char>, names: Set<Seq<char>>)
    requires
        s.retry is Some,
        bound_after_retry(s, here, names) is Names,
    ensures
        retry_violation(s.retry->0, here) is None,
        bound_after(s.retry->0.steps@, here + ".retry"@, names, 0) == bound_after_retry(
            s,
            here,
            names,
        ),
        s.tolerant ==> bound_after_retry(s, here, names)->Names_0 == names,
{
}

/// Every step is checked for values that only an action can give, at any depth.
pub proof fn runtime_values_are_found_at_any_depth(s: Step, here: Seq<char>)
    ensures
        step_runtime_value_violation(s, here) is None <==> {
            &&& !(s.value is Some && s.value->0 is Runtime)
            &&& s.await_until is Some ==> runtime_value_violation(
                s.await_until->0.on_each@,
                here + ".awaitUntil"@,
                0,
            ) is None
            &&& s.retry is Some ==> runtime_value_violation(
                s.retry->0.steps@,
                here + ".retry"@,
                0,
            ) is None
            &&& match s.loop_step {
                Some(Loop::ForEach { body, .. }) => runtime_value_violation(
                    body@,
                    here + ".loop"@,
                    0,
                ) is None,
                Some(Loop::Chunk { body, .. }) => runtime_value_violation(
                    body@,
                    here + ".loop"@,
                    0,
                ) is None,
                None => true,
            }
            &&& s.if_step is Some ==> runtime_value_violation(
                s.if_step->0.then_steps@,
                here + ".if.then"@,
                0,
            ) is None && runtime_value_violation(
                s.if_step->0.else_steps@,
                here + ".if.else"@,
                0,
            ) is None
        },
{
}

/// All steps are checked for such values.
pub proof fn every_step_is_checked_for_runtime_values(steps: Seq<Step>, path: Seq<char>, i: int, k: int)
    requires
        0 <= i <= k < steps.len(),
        runtime_value_violation(steps, path, i) is None,
    ensures
        step_runtime_value_violation(steps[k], indexed(path, ".steps["@, k)) is None,
    decreases k - i,
{
    if i < k {
        every_step_is_checked_for_runtime_values(steps, path, i + 1, k);
    }
}

/// A channel is opened at the top level, is not the command channel, and is one that the connection
/// binds, behind a step whose order can be enforced.
pub proof fn channels_open_behind_strict_steps(
    role: SocketRole,
    bindings: Option<SocketBindings>,
    here: Seq<char>,
    allowed: bool,
    behind: bool,
)
    ensures
        open_channel_violation(role, bindings, here, allowed, behind) is None <==> {
            &&& allowed
            &&& behind
            &&& bindings is Some
            &&& role == SocketRole::Event ==> bindings->0.event is Some
            &&& role == SocketRole::LiveView ==> bindings->0.live_view is Some
            &&& role != SocketRole::Command
        },
{
}

/// Whether the order behind a step can be enforced: it must succeed, and is a set, a read, or an
/// operation whose parameters are known.
pub open spec fn strict(s: Step) -> bool {
    &&& !s.tolerant
    &&& s.set_prop is Some || s.get_prop is Some || (s.send_op is Some && forall|i: int|
        0 <= i < s.params@.len() ==> (#[trigger] s.params@[i]) is Literal)
}

/// In steps that are accepted, every step that opens a channel keeps that rule: the last step before
/// it that opens none is strict.
pub proof fn every_channel_is_checked(
    steps: Seq<Step>,
    bindings: Option<SocketBindings>,
    path: Seq<char>,
    allowed: bool,
    behind: bool,
    i: int,
    k: int,
)
    requires
        0 <= i <= k < steps.len(),
        open_channels_violation(steps, bindings, path, allowed, behind, i) is None,
        steps[k].open_channel is Some,
    ensures
        allowed,
        steps[k].open_channel != Some(SocketRole::Command),
        bindings is Some,
        steps[k].open_channel == Some(SocketRole::Event) ==> bindings->0.event is Some,
        steps[k].open_channel == Some(SocketRole::LiveView) ==> bindings->0.live_view is Some,
        behind || exists|j: int|
            i <= j < k && strict(#[trigger] steps[j]) && steps[j].open_channel is None && forall|
                x: int,
            |
                j < x < k ==> (#[trigger] steps[x]).open_channel is Some,
        forall|j: int|
            i <= j < k && (#[trigger] steps[j]).open_channel is None && (forall|x: int|
                j < x < k ==> (#[trigger] steps[x]).open_channel is Some) ==> strict(steps[j]),
    decreases k - i,
{
    if i < k {
        let s = steps[i];
        let next = if s.open_channel is Some {
            behind
        } else {
            strict(s)
        };
        every_channel_is_checked(steps, bindings, path, allowed, next, i + 1, k);
        if !behind {
            if exists|j: int|
                i + 1 <= j < k && strict(#[trigger] steps[j]) && steps[j].open_channel is None
                    && forall|x: int| j < x < k ==> (#[trigger] steps[x]).open_channel is Some {
            } else {
                assert(strict(steps[i]) && steps[i].open_channel is None);
                assert forall|x: int| i < x < k implies (#[trigger] steps[x]).open_channel is Some by {
                    if steps[x].open_channel is None {
                        last_silent(steps, x, k);
                    }
                }
            }
        }
        assert forall|j: int|
            i <= j < k && (#[trigger] steps[j]).open_channel is None && (forall|x: int|
                j < x < k ==> (#[trigger] steps[x]).open_channel is Some) implies strict(
            steps[j],
        ) by {
            if j == i && !strict(steps[i]) {
                let y = choose|y: int|
                    i + 1 <= y < k && strict(#[trigger] steps[y]) && steps[y].open_channel is None
                        && forall|x: int| y < x < k ==> (#[trigger] steps[x]).open_channel is Some;
                assert(steps[y].open_channel is None);
            }
        }
    }
}

/// Where a step opens no channel there is a last one that does not.
proof fn last_silent(steps: Seq<Step>, x: int, k: int)
    requires
        0 <= x < k < steps.len(),
        steps[x].open_channel is None,
    ensures
        exists|j: int|
            x <= j < k && (#[trigger] steps[j]).open_channel is None && forall|y: int|
                j < y < k ==> (#[trigger] steps[y]).open_channel is Some,
    decreases k - x,
{
    if forall|y: int| x < y < k ==> (#[trigger] steps[y]).open_channel is Some {
        assert(steps[x].open_channel is None);
    } else {
        let y = choose|y: int| x < y < k && (#[trigger] steps[y]).open_channel is None;
        last_silent(steps, y, k);
        let j = choose|j: int|
            y <= j < k && (#[trigger] steps[j]).open_channel is None && forall|z: int|
                j < z < k ==> (#[trigger] steps[z]).open_channel is Some;
        assert(steps[j].open_channel is None);
    }
}

/// The id of an activity has two or more segments, filled with letters, digits, `-` and `_`.
pub proof fn activity_ids_are_segmented(s: Seq<char>, i: int, k: int)
    requires
        activity_id(s),
    ensures
        split_text(s, '.').len() >= 2,
        0 <= i < split_text(s, '.').len() ==> split_text(s, '.')[i].len() > 0 && (0 <= k
            < split_text(s, '.')[i].len() ==> {
            let c = split_text(s, '.')[i][k];
            'a' <= c <= 'z' || 'A' <= c <= 'Z' || '0' <= c <= '9' || c == '-' || c == '_'
        }),
{
    let parts = split_text(s, '.');
    if 0 <= i < parts.len() {
        assert(id_segment(parts[i]));
    }
}

/// The activities of an executor have ids of their own, a version and a duration, and each covers
/// steps, from where the one before it ends.
pub proof fn executor_activities_cover_steps(
    acts: Seq<ConnectionActivityDescriptor>,
    path: Seq<char>,
    next: u32,
    i: int,
)
    requires
        0 <= i < acts.len(),
    ensures
        executor_activity_violation(acts, path, next, i) is None <==> {
            let d = acts[i];
            &&& activity_id(d.id@)
            &&& forall|j: int| 0 <= j < i ==> (#[trigger] acts[j]).id@ != d.id@
            &&& d.version > 0
            &&& d.default_expected_duration_ms > 0
            &&& d.binding matches ConnectionActivityBinding::ExecutorSpan(b) && {
                &&& b.executor_span.sequence == ConnectionActivitySequence::Steps
                &&& b.executor_span.start_step == next
                &&& b.executor_span.start_step < b.executor_span.end_step_exclusive
            }
        },
{
}

/// Every activity of an executor is checked, and the last ends where the steps do.
pub proof fn every_executor_activity_is_checked(
    acts: Seq<ConnectionActivityDescriptor>,
    step_count: int,
    path: Seq<char>,
    next: u32,
    i: int,
    k: int,
)
    requires
        0 <= i <= k < acts.len(),
        executor_activities_violation(acts, step_count, path, next, i) is None,
    ensures
        exists|from: u32| (#[trigger] executor_activity_violation(acts, path, from, k)) is None,
        acts.last().binding matches ConnectionActivityBinding::ExecutorSpan(b)
            && b.executor_span.end_step_exclusive == step_count,
    decreases acts.len() - i,
{
    let end = crate::validate::activities::span_end(acts[i]);
    if i < k {
        every_executor_activity_is_checked(acts, step_count, path, end, i + 1, k);
    } else {
        assert(executor_activity_violation(acts, path, next, k) is None);
        if i + 1 < acts.len() {
            every_executor_activity_is_checked(acts, step_count, path, end, i + 1, i + 1);
        } else {
            assert(executor_activities_violation(acts, step_count, path, end, i + 1) is None);
            assert(acts.last() == acts[i]);
        }
    }
}

/// The binding of an activity of the host: a named checkpoint, an exact network scope, or the one
/// retained session, on the command socket; each once.
pub proof fn host_activities_are_bound_once(
    acts: Seq<ConnectionActivityDescriptor>,
    path: Seq<char>,
    i: int,
)
    requires
        0 <= i < acts.len(),
    ensures
        host_binding_violation(acts, path, i) is None <==> match acts[i].binding {
            ConnectionActivityBinding::ExecutorSpan(_) => false,
            ConnectionActivityBinding::HostCheckpoint(b) => b.host_checkpoint.name@.len() > 0
                && forall|j: int|
                0 <= j < i ==> !((#[trigger] acts[j]).binding matches
                    ConnectionActivityBinding::HostCheckpoint(c) && c.host_checkpoint.name@
                    == b.host_checkpoint.name@),
            ConnectionActivityBinding::HostEstablishment(b) => match b.host_establishment {
                ConnectionActivityHostEstablishment::NetworkIdentityExact {
                    network_identity_exact,
                } => network_identity_exact.expected_scope@.len() > 0 && forall|j: int|
                    0 <= j < i ==> !has_scope(
                        #[trigger] acts[j],
                        network_identity_exact.expected_scope@,
                    ),
                ConnectionActivityHostEstablishment::RetainedSessionOpen {
                    retained_session_open,
                } => retained_session_open.socket_role == SocketRole::Command && forall|j: int|
                    0 <= j < i ==> !((#[trigger] acts[j]).binding matches
                        ConnectionActivityBinding::HostEstablishment(c) && c.host_establishment
                        is RetainedSessionOpen),
            },
        },
{
    match acts[i].binding {
        ConnectionActivityBinding::HostCheckpoint(b) => {
            if !checkpoint_before(acts, i) {
                assert forall|j: int| 0 <= j < i implies !((#[trigger] acts[j]).binding matches
                    ConnectionActivityBinding::HostCheckpoint(c) && c.host_checkpoint.name@
                    == b.host_checkpoint.name@) by {
                    let _ = crate::validate::activities::checkpoint_name(acts[j]);
                }
            }
        },
        ConnectionActivityBinding::HostEstablishment(_) => {
            if !scope_before(acts, i) {
                assert forall|j: int, s: Seq<char>|
                    0 <= j < i && crate::validate::activities::network_scope(acts[i]) == Some(
                        s,
                    ) implies !has_scope(#[trigger] acts[j], s) || !(#[trigger] s.len() >= 0) by {
                }
            }
            if !session_before(acts, i) {
                assert forall|j: int| 0 <= j < i implies !((#[trigger] acts[j]).binding matches
                    ConnectionActivityBinding::HostEstablishment(c) && c.host_establishment
                    is RetainedSessionOpen) by {
                    assert(!crate::validate::activities::retains_session(acts[j]));
                }
            }
        },
        _ => {},
    }
}

/// Whether an activity holds the exact network scope.
pub open spec fn has_scope(d: ConnectionActivityDescriptor, scope: Seq<char>) -> bool {
    d.binding matches ConnectionActivityBinding::HostEstablishment(b) && b.host_establishment
        matches ConnectionActivityHostEstablishment::NetworkIdentityExact { network_identity_exact }
        && network_identity_exact.expected_scope@ == scope
}

/// Every activity of the host has an id of its own, a version and a duration, and a binding that
/// keeps its rules.
pub proof fn every_host_activity_is_checked(
    acts: Seq<ConnectionActivityDescriptor>,
    id: Seq<char>,
    i: int,
    k: int,
)
    requires
        0 <= i <= k < acts.len(),
        host_activities_violation(acts, id, i) is None,
    ensures
        activity_id(acts[k].id@),
        forall|j: int| 0 <= j < k ==> (#[trigger] acts[j]).id@ != acts[k].id@,
        acts[k].version > 0,
        acts[k].default_expected_duration_ms > 0,
        host_binding_violation(acts, indexed("connections."@ + id, ".activities["@, k), k) is None,
    decreases k - i,
{
    if i < k {
        every_host_activity_is_checked(acts, id, i + 1, k);
    } else {
        assert(!id_before(acts, i));
    }
}

/// Descriptors of one version of an activity agree in all that they must share.
pub proof fn descriptors_of_one_activity_agree(
    acts: Seq<ConnectionActivityDescriptor>,
    seen: Seq<ConnectionActivityDescriptor>,
    path: Seq<char>,
    i: int,
)
    requires
        0 <= i <= acts.len(),
        consistent_scan(acts, seen, path, i) is Seen,
    ensures
        consistent_scan(acts, seen, path, i)->Seen_0 == seen + acts.skip(i),
        forall|j: int, k: int|
            #![trigger seen[j], acts[k]]
            0 <= j < seen.len() && i <= k < acts.len() ==> agree(seen[j], acts[k]),
        forall|j: int, k: int|
            #![trigger acts[j], acts[k]]
            i <= j < k < acts.len() ==> agree(acts[j], acts[k]),
    decreases acts.len() - i,
{
    if i < acts.len() {
        let more = seen.push(acts[i]);
        descriptors_of_one_activity_agree(acts, more, path, i + 1);
        assert(more + acts.skip(i + 1) =~= seen + acts.skip(i));
        assert forall|j: int, k: int|
            #![trigger seen[j], acts[k]]
            0 <= j < seen.len() && i <= k < acts.len() implies agree(seen[j], acts[k]) by {
            if k == i {
                assert(!conflicting(seen[j], acts[i]));
            } else {
                assert(more[j] == seen[j]);
            }
        }
        assert forall|j: int, k: int|
            #![trigger acts[j], acts[k]]
            i <= j < k < acts.len() implies agree(acts[j], acts[k]) by {
            if j == i {
                assert(more[seen.len() as int] == acts[i]);
            }
        }
    } else {
        assert(seen + acts.skip(i) =~= seen);
    }
}

/// Whether two descriptors are of different activities, or of different versions, or have the same
/// duration, the same need of the user and the same obligation, and a binding of one kind.
pub open spec fn agree(
    a: ConnectionActivityDescriptor,
    b: ConnectionActivityDescriptor,
) -> bool {
    a.id@ == b.id@ && a.version == b.version ==> {
        &&& a.default_expected_duration_ms == b.default_expected_duration_ms
        &&& a.interaction_required == b.interaction_required
        &&& a.optional == b.optional
        &&& contract_of(a).role == contract_of(b).role
        &&& contract_of(a).identity == contract_of(b).identity
    }
}

/// The types of a number bound its values.
pub proof fn scalar_types_bound_their_values(p: Property, value: i64)
    ensures
        reads(p.ptype, "u8"@) ==> (scalar_fits(p, value) <==> 0 <= value <= 255),
        reads(p.ptype, "u16"@) ==> (scalar_fits(p, value) <==> 0 <= value <= 65535),
        reads(p.ptype, "u32"@) ==> (scalar_fits(p, value) <==> 0 <= value <= 4294967295),
        reads(p.ptype, "u64"@) ==> (scalar_fits(p, value) <==> 0 <= value),
        reads(p.ptype, "i16"@) ==> (scalar_fits(p, value) <==> -32768 <= value <= 32767),
        reads(p.ptype, "i32"@) ==> (scalar_fits(p, value) <==> -2147483648 <= value
            <= 2147483647),
        p.ptype is None ==> !scalar_fits(p, value),
        reads(p.ptype, "str"@) ==> !scalar_fits(p, value),
{
    reveal_strlit("u8");
    reveal_strlit("u16");
    reveal_strlit("u32");
    reveal_strlit("u64");
    reveal_strlit("i16");
    reveal_strlit("i32");
    reveal_strlit("str");
    assert("u8"@.len() == 2);
    assert("u16"@[0] == 'u' && "u16"@[1] == '1');
    assert("u32"@[0] == 'u' && "u32"@[1] == '3');
    assert("u64"@[0] == 'u' && "u64"@[1] == '6');
    assert("i16"@[0] == 'i' && "i16"@[1] == '1');
    assert("i32"@[0] == 'i' && "i32"@[1] == '3');
    assert("str"@[0] == 's' && "str"@.len() == 3);
}

/// A trigger of an action is one effect; where it makes objects available it makes no fewer than the
/// least and no more than the greatest.
pub proof fn triggers_are_one_effect(t: Seq<ActionEffect>, path: Seq<char>, i: int)
    requires
        0 <= i,
    ensures
        triggers_violation(t, path, i) is None <==> forall|k: int|
            i <= k < t.len() ==> trigger_kept(#[trigger] t[k]),
    decreases t.len() - i,
{
    reveal(crate::model::present);
    if i < t.len() {
        triggers_are_one_effect(t, path, i + 1);
        assert(trigger_kept(t[i]) ==> true);
    }
}

/// Whether a trigger keeps its rules.
pub open spec fn trigger_kept(e: ActionEffect) -> bool {
    &&& one_if(e.objects_available is Some) + one_if(e.postview_event is Some) + one_if(
        e.live_view_stream is Some,
    ) == 1
    &&& e.objects_available is Some ==> e.objects_available->0.min <= e.objects_available->0.max
}

/// Whether a parameter of a responder keeps its rules.
pub open spec fn parameter_kept(params: Seq<ActionParameter>, k: int) -> bool {
    let p = params[k];
    &&& p.name@.len() > 0
    &&& forall|j: int| 0 <= j < k ==> (#[trigger] params[j]).name@ != p.name@
    &&& p.min is Some && p.max is Some ==> p.min->0 <= p.max->0
    &&& p.default is Some && p.min is Some ==> p.min->0 <= p.default->0
    &&& p.default is Some && p.max is Some ==> p.default->0 <= p.max->0
}

/// The parameters of a responder have names of their own, and bounds that their default keeps.
pub proof fn responders_bound_their_parameters(
    params: Seq<ActionParameter>,
    path: Seq<char>,
    i: int,
    k: int,
)
    requires
        0 <= i <= k < params.len(),
        responder_params_violation(params, path, i) is None,
    ensures
        parameter_kept(params, k),
    decreases k - i,
{
    if i < k {
        responders_bound_their_parameters(params, path, i + 1, k);
    } else {
        assert(!name_before(params, i));
        assert(!default_outside(params[i]));
    }
}

/// Parameters that keep the rules are accepted.
pub proof fn kept_parameters_are_accepted(params: Seq<ActionParameter>, path: Seq<char>, i: int)
    requires
        0 <= i,
        forall|k: int| i <= k < params.len() ==> #[trigger] parameter_kept(params, k),
    ensures
        responder_params_violation(params, path, i) is None,
    decreases params.len() - i,
{
    if i < params.len() {
        assert(parameter_kept(params, i));
        kept_parameters_are_accepted(params, path, i + 1);
    }
}

/// A parameter is found under its name.
proof fn named_found(params: Seq<ActionParameter>, name: Seq<char>, i: int)
    requires
        0 <= i,
    ensures
        param_named(params, name, i) matches Some(p) ==> exists|k: int|
            i <= k < params.len() && #[trigger] params[k] == p && p.name@ == name,
        param_named(params, name, i) is None <==> forall|k: int|
            i <= k < params.len() ==> (#[trigger] params[k]).name@ != name,
    decreases params.len() - i,
{
    if i < params.len() {
        named_found(params, name, i + 1);
        if params[i].name@ != name && param_named(params, name, i + 1) is Some {
            let p = param_named(params, name, i + 1)->0;
            let k = choose|k: int| i + 1 <= k < params.len() && #[trigger] params[k] == p;
            assert(params[k] == p);
        }
    }
}

/// The first range of objects is that of a trigger.
proof fn range_found(t: Seq<ActionEffect>, i: int)
    requires
        0 <= i,
    ensures
        objects_range(t, i) matches Some(r) ==> exists|k: int|
            i <= k < t.len() && (#[trigger] t[k]).objects_available == Some(r),
        objects_range(t, i) is None <==> forall|k: int|
            i <= k < t.len() ==> (#[trigger] t[k]).objects_available is None,
    decreases t.len() - i,
{
    if i < t.len() {
        range_found(t, i + 1);
        if t[i].objects_available is Some {
            assert(t[i].objects_available == objects_range(t, i));
        } else if objects_range(t, i + 1) is Some {
            let r = objects_range(t, i + 1)->0;
            let k = choose|k: int|
                i + 1 <= k < t.len() && (#[trigger] t[k]).objects_available == Some(r);
            assert(t[k].objects_available == Some(r));
        }
    }
}

/// Objects are enqueued as many as a parameter of the responder says, whose bounds are those of the
/// objects that a trigger makes available.
pub proof fn enqueued_objects_are_counted_by_a_parameter(
    action: Action,
    responder: ActionResponder,
    count: Seq<char>,
    path: Seq<char>,
) -> (r: (int, int))
    requires
        enqueue_violation(action, responder, count, path) is None,
    ensures
        0 <= r.0 < responder.params@.len(),
        0 <= r.1 < action.triggers@.len(),
        responder.params@[r.0].name@ == count,
        action.triggers@[r.1].objects_available is Some,
        responder.params@[r.0].min == Some(action.triggers@[r.1].objects_available->0.min),
        responder.params@[r.0].max == Some(action.triggers@[r.1].objects_available->0.max),
{
    let params = responder.params@;
    let t = action.triggers@;
    named_found(params, count, 0);
    range_found(t, 0);
    let p = param_named(params, count, 0)->0;
    let o = objects_range(t, 0)->0;
    let k = choose|k: int| 0 <= k < params.len() && #[trigger] params[k] == p && p.name@ == count;
    let j = choose|j: int| 0 <= j < t.len() && (#[trigger] t[j]).objects_available == Some(o);
    (k, j)
}

/// A property passes from and to values that its type can hold, and is a number on its own. Where
/// the value that it ends at is a parameter, the parameter's bounds lie in those of the type.
pub proof fn transitions_stay_within_the_type(
    m: CameraManifest,
    responder: ActionResponder,
    target: Seq<char>,
    initial: Option<i64>,
    terminal: PropertyTransitionTerminal,
    path: Seq<char>,
)
    requires
        transition_mutation_violation(m, responder, target, initial, terminal, path) is None,
    ensures
        hex_code(target) is Some,
        coded(m.properties, hex_code(target)->0) is Some,
        ({
            let p = coded(m.properties, hex_code(target)->0)->0;
            &&& p.payload is None
            &&& scalar_bounds(p.ptype) is Some
            &&& initial is Some ==> scalar_fits(p, initial->0)
            &&& terminal matches PropertyTransitionTerminal::Fixed { value } ==> scalar_fits(
                p,
                value,
            )
            &&& terminal matches PropertyTransitionTerminal::Parameter { parameter } ==> exists|
                k: int,
            |
                0 <= k < responder.params@.len() && (#[trigger] responder.params@[k]).name@
                    == parameter@ && (scalar_bounds(p.ptype)->0).0 <= (
                if responder.params@[k].min is Some {
                    responder.params@[k].min->0 as int
                } else {
                    0
                }) && (if responder.params@[k].max is Some {
                    responder.params@[k].max->0 as int
                } else {
                    4294967295
                }) <= (scalar_bounds(p.ptype)->0).1
        }),
{
    match terminal {
        PropertyTransitionTerminal::Parameter { parameter } => {
            let params = responder.params@;
            named_found(params, parameter@, 0);
            let d = param_named(params, parameter@, 0)->0;
            let k = choose|k: int|
                0 <= k < params.len() && #[trigger] params[k] == d && d.name@ == parameter@;
            assert(params[k].name@ == parameter@);
        },
        _ => {},
    }
}

/// An action has a side that takes it; the names of what its initiator takes are filled and occur
/// once; its triggers and its responder keep their rules.
pub proof fn actions_are_taken_by_someone(m: CameraManifest, a: Action, path: Seq<char>)
    requires
        action_roles_violation(m, a, path) is None,
    ensures
        a.initiator is Some || a.responder is Some,
        a.initiator is Some ==> {
            let p = a.initiator->0.params@;
            &&& forall|i: int| 0 <= i < p.len() ==> declared(#[trigger] p[i]).name@.len() > 0
            &&& forall|i: int, j: int|
                #![trigger p[i], p[j]]
                0 <= i < j < p.len() ==> declared(p[i]).name@ != declared(p[j]).name@
        },
        triggers_violation(a.triggers@, path, 0) is None,
        a.responder is Some ==> responder_params_violation(a.responder->0.params@, path, 0) is None,
        a.responder is Some ==> match a.responder->0.mutation {
            ResponderMutation::EnqueueObjects { count_param } => enqueue_violation(
                a,
                a.responder->0,
                count_param@,
                path,
            ) is None,
            ResponderMutation::PropertyTransition { target, initial, terminal, .. } =>
                transition_mutation_violation(
                m,
                a.responder->0,
                target@,
                initial,
                terminal,
                path,
            ) is None,
        },
{
}

/// The declaration of a name is one of the parameters with it.
proof fn declaration_found(params: Seq<ActionInitiatorParameter>, name: Seq<char>, n: int)
    requires
        0 <= n <= params.len(),
    ensures
        declaration_of(params, name, n) matches Some(d) ==> d.name@ == name && exists|k: int|
            0 <= k < n && declared(#[trigger] params[k]) == d,
        declaration_of(params, name, n) is None <==> forall|k: int|
            0 <= k < n ==> declared(#[trigger] params[k]).name@ != name,
    decreases n,
{
    if n > 0 {
        declaration_found(params, name, n - 1);
        if declared(params[n - 1]).name@ == name {
            assert(declared(params[n - 1]).name@ == name);
        } else if declaration_of(params, name, n - 1) is Some {
            let d = declaration_of(params, name, n - 1)->0;
            let k = choose|k: int| 0 <= k < n - 1 && declared(#[trigger] params[k]) == d;
            assert(declared(params[k]) == d);
        }
    }
}

/// A value that is only known when an action is taken is one of its initiator's parameters, which
/// may be missing only where it is optional, and sets a declared property of its kind.
pub proof fn runtime_values_are_parameters(
    m: CameraManifest,
    params: Seq<ActionInitiatorParameter>,
    s: Step,
    reference: RuntimeSetPropValue,
    here: Seq<char>,
) -> (k: int)
    requires
        runtime_reference_violation(m, params, s, reference, here) is None,
    ensures
        0 <= k < params.len(),
        declared(params[k]).name@ == reference.runtime@,
        reference.if_missing == MissingRuntimeValue::Skip ==> !declared(params[k]).required,
        s.set_prop is Some,
        hex_code(s.set_prop->0@) is Some,
        coded(m.properties, hex_code(s.set_prop->0@)->0) is Some,
        ({
            let p = coded(m.properties, hex_code(s.set_prop->0@)->0)->0;
            &&& declared(params[k]).kind == ActionInitiatorParameterKind::String ==> reads(
                p.ptype,
                "str"@,
            )
            &&& declared(params[k]).kind == ActionInitiatorParameterKind::U64 ==> scalar_bounds(
                p.ptype,
            ) is Some
        }),
{
    declaration_found(params, reference.runtime@, params.len() as int);
    let d = declaration_of(params, reference.runtime@, params.len() as int)->0;
    let k = choose|k: int| 0 <= k < params.len() && declared(#[trigger] params[k]) == d;
    k
}

/// A bare name declares a required number of 64 bits.
pub proof fn bare_names_are_required_numbers(p: ActionInitiatorParameter)
    ensures
        p matches ActionInitiatorParameter::Shorthand(name) ==> declared(p).name@ == name@
            && declared(p).kind == ActionInitiatorParameterKind::U64 && declared(p).required,
        p matches ActionInitiatorParameter::Expanded(d) ==> declared(p) == d,
{
}

/// An entry that leaves the session leaves a connection that can be established again, to a mode
/// that the first cold entry reaches by PTP.
pub proof fn sessions_are_left_for_good_reason(
    c: crate::model::Connection,
    e: ModeEntry,
    path: Seq<char>,
)
    ensures
        e.execution is ReestablishConnection ==> (reestablish_violation(c, e, path) is None <==> {
            &&& c.establishment is Some
            &&& exists|k: int|
                0 <= k < c.entries@.len() && #[trigger] first_cold(c.entries@, e.to@, 0, k)
                    && c.entries@[k].execution is Ptp
        }),
        !(e.execution is ReestablishConnection) ==> reestablish_violation(c, e, path) is None,
{
    cold_found(c.entries@, e.to@, 0);
}

/// The cold entry to a mode is the first that leads to it from no mode.
proof fn cold_found(entries: Seq<ModeEntry>, to: Seq<char>, i: int)
    requires
        0 <= i,
    ensures
        cold_entry(entries, to, i) matches Some(e) ==> exists|k: int|
            i <= k < entries.len() && #[trigger] entries[k] == e && first_cold(entries, to, i, k),
        forall|k: int|
            i <= k < entries.len() && #[trigger] first_cold(entries, to, i, k) ==> cold_entry(
                entries,
                to,
                i,
            ) == Some(entries[k]),
    decreases entries.len() - i,
{
    if i < entries.len() {
        cold_found(entries, to, i + 1);
        if entries[i].to@ == to && entries[i].from is None {
            assert(first_cold(entries, to, i, i));
            assert(entries[i] == entries[i]);
        } else {
            assert forall|k: int| i <= k < entries.len() && #[trigger] first_cold(
                entries,
                to,
                i,
                k,
            ) implies cold_entry(entries, to, i) == Some(entries[k]) by {
                assert(first_cold(entries, to, i + 1, k));
            }
            if cold_entry(entries, to, i + 1) is Some {
                let e = cold_entry(entries, to, i + 1)->0;
                let k = choose|k: int|
                    i + 1 <= k < entries.len() && #[trigger] entries[k] == e && first_cold(
                        entries,
                        to,
                        i + 1,
                        k,
                    );
                assert(first_cold(entries, to, i, k));
                assert(entries[k] == e);
            }
        }
    }
}

/// Whether entry `k` is the first, from `i` on, that leads to a mode from no mode.
pub open spec fn first_cold(entries: Seq<ModeEntry>, to: Seq<char>, i: int, k: int) -> bool {
    &&& entries[k].to@ == to
    &&& entries[k].from is None
    &&& forall|j: int| i <= j < k ==> !((#[trigger] entries[j]).to@ == to && entries[j].from is None)
}

} // verus!
