//! Rules on PTP step sequences.

use crate::error::ManifestError;
use crate::model::{
    gate_matchable, hex_code, parse_hex_code, role_binding, step_action_count, AwaitSource, Capture,
    CaptureSource, Loop, SetPropValue, SocketBindings, SocketRole, Step, StepRetry,
};
use crate::text::{
    contains_text, holds_text, join2, join4, trim, trimmed,
};
use crate::validate::{first, index_path, indexed, reports, text_set};
use vstd::prelude::*;

verus! {

/// Whether a loop stands in the steps, at any depth.
pub open spec fn has_loop(steps: Seq<Step>) -> bool
    decreases steps,
{
    exists|i: int| 0 <= i < steps.len() && step_has_loop(steps[i])
}

/// Whether a step is a loop or holds one.
pub open spec fn step_has_loop(s: Step) -> bool
    decreases s,
{
    ||| s.loop_step is Some
    ||| s.retry matches Some(r) && has_loop(r.steps@)
    ||| s.await_until matches Some(a) && has_loop(a.on_each@)
    ||| s.if_step matches Some(c) && (has_loop(c.then_steps@) || has_loop(c.else_steps@))
}

/// Whether a loop stands in the steps, at any depth.
fn contains_ptp_loop(steps: &Vec<Step>) -> (r: bool)
    ensures
        r == has_loop(steps@),
    decreases steps,
{
    let mut i: usize = 0;
    while i < steps.len()
        invariant
            i <= steps.len(),
            forall|j: int| 0 <= j < i ==> !step_has_loop(steps@[j]),
        decreases steps.len() - i,
    {
        proof {
            assert(decreases_to!(steps@ => steps@[i as int]));
        }
        if step_contains_loop(&steps[i]) {
            return true;
        }
        i = i + 1;
    }
    false
}

/// Whether a step is a loop or holds one.
fn step_contains_loop(s: &Step) -> (r: bool)
    ensures
        r == step_has_loop(*s),
    decreases s,
{
    if s.loop_step.is_some() {
        return true;
    }
    if let Some(retry) = &s.retry {
        if contains_ptp_loop(&retry.steps) {
            return true;
        }
    }
    if let Some(await_until) = &s.await_until {
        if contains_ptp_loop(&await_until.on_each) {
            return true;
        }
    }
    if let Some(condition) = &s.if_step {
        if contains_ptp_loop(&condition.then_steps) {
            return true;
        }
        if contains_ptp_loop(&condition.else_steps) {
            return true;
        }
    }
    false
}

/// The violation of the rule that no step sets a property from a runtime slot.
pub open spec fn runtime_value_violation(steps: Seq<Step>, path: Seq<char>, i: int) -> Option<
    Seq<char>,
>
    decreases steps, steps.len() - i,
{
    if i < 0 || i >= steps.len() {
        None
    } else {
        first(
            step_runtime_value_violation(steps[i], indexed(path, ".steps["@, i)),
            runtime_value_violation(steps, path, i + 1),
        )
    }
}

/// The violation of that rule by one step or by a step that it holds.
pub open spec fn step_runtime_value_violation(s: Step, here: Seq<char>) -> Option<Seq<char>>
    decreases s, 0int,
{
    if s.value matches Some(v) && v is Runtime {
        Some(
            here
                + ".value runtime references require an action initiator parameter declaration"@,
        )
    } else {
        first(
            match s.await_until {
                Some(a) => runtime_value_violation(a.on_each@, here + ".awaitUntil"@, 0),
                None => None,
            },
            first(
                match s.retry {
                    Some(r) => runtime_value_violation(r.steps@, here + ".retry"@, 0),
                    None => None,
                },
                first(
                    match s.loop_step {
                        Some(Loop::ForEach { body, .. }) => runtime_value_violation(
                            body@,
                            here + ".loop"@,
                            0,
                        ),
                        Some(Loop::Chunk { body, .. }) => runtime_value_violation(
                            body@,
                            here + ".loop"@,
                            0,
                        ),
                        None => None,
                    },
                    match s.if_step {
                        Some(c) => first(
                            runtime_value_violation(c.then_steps@, here + ".if.then"@, 0),
                            runtime_value_violation(c.else_steps@, here + ".if.else"@, 0),
                        ),
                        None => None,
                    },
                ),
            ),
        )
    }
}

/// Checks that no step sets a property from a runtime slot.
pub(crate) fn require_no_runtime_set_props(steps: &Vec<Step>, path: &str) -> (r: Result<
    (),
    ManifestError,
>)
    ensures
        reports(r, runtime_value_violation(steps@, path@, 0)),
    decreases steps, 1int,
{
    let mut i: usize = 0;
    while i < steps.len()
        invariant
            i <= steps.len(),
            runtime_value_violation(steps@, path@, 0) == runtime_value_violation(
                steps@,
                path@,
                i as int,
            ),
        decreases steps.len() - i,
    {
        proof {
            assert(decreases_to!(steps@ => steps@[i as int]));
        }
        let here = index_path(path, ".steps[", i);
        match require_no_runtime_set_prop(&steps[i], here.as_str()) {
            Err(e) => {
                return Err(e);
            },
            Ok(_) => {},
        }
        i = i + 1;
    }
    Ok(())
}

/// Checks that a step, and every step that it holds, sets no property from a runtime slot.
fn require_no_runtime_set_prop(s: &Step, here: &str) -> (r: Result<(), ManifestError>)
    ensures
        reports(r, step_runtime_value_violation(*s, here@)),
    decreases s, 0int,
{
    if let Some(SetPropValue::Runtime(_)) = &s.value {
        return Err(
            ManifestError::Contract(
                join2(
                    here,
                    ".value runtime references require an action initiator parameter declaration",
                ),
            ),
        );
    }
    if let Some(a) = &s.await_until {
        match require_no_runtime_set_props(&a.on_each, join2(here, ".awaitUntil").as_str()) {
            Err(e) => {
                return Err(e);
            },
            Ok(_) => {},
        }
    }
    if let Some(retry) = &s.retry {
        match require_no_runtime_set_props(&retry.steps, join2(here, ".retry").as_str()) {
            Err(e) => {
                return Err(e);
            },
            Ok(_) => {},
        }
    }
    match &s.loop_step {
        Some(Loop::ForEach { body, .. }) => {
            match require_no_runtime_set_props(body, join2(here, ".loop").as_str()) {
                Err(e) => {
                    return Err(e);
                },
                Ok(_) => {},
            }
        },
        Some(Loop::Chunk { body, .. }) => {
            match require_no_runtime_set_props(body, join2(here, ".loop").as_str()) {
                Err(e) => {
                    return Err(e);
                },
                Ok(_) => {},
            }
        },
        None => {},
    }
    if let Some(c) = &s.if_step {
        match require_no_runtime_set_props(&c.then_steps, join2(here, ".if.then").as_str()) {
            Err(e) => {
                return Err(e);
            },
            Ok(_) => {},
        }
        match require_no_runtime_set_props(&c.else_steps, join2(here, ".if.else").as_str()) {
            Err(e) => {
                return Err(e);
            },
            Ok(_) => {},
        }
    }
    Ok(())
}

/// The collections that are bound behind a row of steps, or the first violation in it.
pub enum Bound {
    Names(Set<Seq<char>>),
    Broken(Seq<char>),
}

/// Whether a verdict with the bound names agrees with `b`.
pub open spec fn binds(r: Result<Vec<String>, ManifestError>, b: Bound) -> bool {
    match b {
        Bound::Names(s) => r matches Ok(v) && text_set(v@) == s,
        Bound::Broken(t) => r matches Err(ManifestError::Contract(m)) && m@ == t,
    }
}

/// Whether an await reads a property value.
pub open spec fn polls_value(s: AwaitSource) -> bool {
    match s {
        AwaitSource::Poll { .. } => true,
        AwaitSource::Event { then_poll, .. } => then_poll is Some,
    }
}

/// The violation of the rules on the captures of an await.
pub open spec fn await_capture_violation(s: Step, here: Seq<char>) -> Option<Seq<char>> {
    if s.await_until matches Some(a) && s.captures@.len() > 0 {
        if !polls_value(s.await_until->0.source) {
            Some(here + ".captures require awaitUntil poll or event thenPoll"@)
        } else if exists|i: int|
            0 <= i < s.captures@.len() && (#[trigger] s.captures@[i]).source
                != CaptureSource::PropValue {
            Some(here + ".captures on awaitUntil support only propValue"@)
        } else {
            None
        }
    } else {
        None
    }
}

/// The violation of the rules on one capture, where `names` are the arrays captured before it.
pub open spec fn capture_violation(
    s: Step,
    c: Capture,
    here: Seq<char>,
    names: Set<Seq<char>>,
) -> Option<Seq<char>> {
    if c.source == CaptureSource::TransactionId {
        if s.send_op is None {
            Some(here + " transactionId capture requires sendOp"@)
        } else if s.repeat != 1 {
            Some(here + " transactionId capture requires an unrepeated sendOp"@)
        } else if s.tolerant {
            Some(here + " transactionId capture must not be tolerant"@)
        } else if trimmed(c.bind@).len() == 0 {
            Some(here + " transactionId capture bind must not be empty"@)
        } else {
            None
        }
    } else if c.source == CaptureSource::PtpU32Array {
        if s.get_prop is None && s.send_op is None {
            Some(here + " ptpU32Array capture requires getProp or sendOp"@)
        } else if s.tolerant {
            Some(here + " ptpU32Array capture must not be tolerant"@)
        } else if trimmed(c.bind@).len() == 0 {
            Some(here + " ptpU32Array capture bind must not be empty"@)
        } else if names.contains(c.bind@) {
            Some(here + " repeats ptpU32Array capture bind '"@ + c.bind@ + "'"@)
        } else {
            None
        }
    } else {
        None
    }
}

/// The arrays that the captures of a step bind from capture `i` on, or the first violation.
pub open spec fn captured_arrays(s: Step, here: Seq<char>, names: Set<Seq<char>>, i: int) -> Bound
    decreases s.captures@.len() - i,
{
    if i < 0 || i >= s.captures@.len() {
        Bound::Names(names)
    } else {
        let c = s.captures@[i];
        match capture_violation(s, c, here, names) {
            Some(t) => Bound::Broken(t),
            None => captured_arrays(
                s,
                here,
                if c.source == CaptureSource::PtpU32Array {
                    names.insert(c.bind@)
                } else {
                    names
                },
                i + 1,
            ),
        }
    }
}

/// The first response code of a retry, from `i` on, that is none.
pub open spec fn response_code_violation(codes: Seq<String>, here: Seq<char>, i: int) -> Option<
    Seq<char>,
>
    decreases codes.len() - i,
{
    if i < 0 || i >= codes.len() {
        None
    } else if hex_code(codes[i]@) is None {
        Some(here + ".retry has invalid response code '"@ + codes[i]@ + "'"@)
    } else {
        response_code_violation(codes, here, i + 1)
    }
}

/// The violation of the rules on a retry, its steps apart.
pub open spec fn retry_violation(r: StepRetry, here: Seq<char>) -> Option<Seq<char>> {
    if r.steps@.len() == 0 {
        Some(here + ".retry steps must not be empty"@)
    } else if r.when_response_codes@.len() == 0 && r.when_failure_classes@.len() == 0 {
        Some(
            here
                + ".retry must select at least one of whenResponseCodes/whenFailureClasses"@,
        )
    } else if r.max_attempts == 0 {
        Some(here + ".retry maxAttempts must be at least one"@)
    } else if has_loop(r.steps@) {
        Some(
            here
                + ".retry must not contain loop; put retry inside the per-element body"@,
        )
    } else {
        response_code_violation(r.when_response_codes@, here, 0)
    }
}

/// The violation of the rules on a step, those on the steps that it holds apart.
pub open spec fn step_shape_violation(s: Step, here: Seq<char>) -> Option<Seq<char>> {
    if step_action_count(s) != 1 {
        Some(here + " must contain exactly one action"@)
    } else {
        await_capture_violation(s, here)
    }
}

/// The collections that are definitely bound behind the steps from `i` on, where `names` are bound
/// before them; or the first violation.
///
/// A step binds the arrays that it captures, and what its retried steps bind. What an awaited or
/// looped step binds is bound only inside. Behind a conditional, what both branches bind is bound.
pub open spec fn bound_after(
    steps: Seq<Step>,
    path: Seq<char>,
    names: Set<Seq<char>>,
    i: int,
) -> Bound
    decreases steps, steps.len() - i,
{
    if i < 0 || i >= steps.len() {
        Bound::Names(names)
    } else {
        match bound_after_step(steps[i], indexed(path, ".steps["@, i), names) {
            Bound::Broken(t) => Bound::Broken(t),
            Bound::Names(next) => bound_after(steps, path, next, i + 1),
        }
    }
}

/// The collections that are definitely bound behind one step, or the first violation in it.
pub open spec fn bound_after_step(s: Step, here: Seq<char>, names: Set<Seq<char>>) -> Bound
    decreases s, 2int,
{
    match step_shape_violation(s, here) {
        Some(t) => Bound::Broken(t),
        None => match captured_arrays(s, here, Set::empty(), 0) {
            Bound::Broken(t) => Bound::Broken(t),
            Bound::Names(arrays) => match bound_after_retry(s, here, names.union(arrays)) {
                Bound::Broken(t) => Bound::Broken(t),
                Bound::Names(next) => match bound_inside(s, here, next) {
                    Some(t) => Bound::Broken(t),
                    None => bound_after_branches(s, here, next),
                },
            },
        },
    }
}

/// The collections that are bound behind the retried steps of a step.
pub open spec fn bound_after_retry(s: Step, here: Seq<char>, names: Set<Seq<char>>) -> Bound
    decreases s, 1int,
{
    match s.retry {
        None => Bound::Names(names),
        Some(r) => match retry_violation(r, here) {
            Some(t) => Bound::Broken(t),
            None => match bound_after(r.steps@, here + ".retry"@, names, 0) {
                Bound::Broken(t) => Bound::Broken(t),
                Bound::Names(after) => if s.tolerant && after != names {
                    Bound::Broken(
                        here + ".retry captures a collection and must not be tolerant"@,
                    )
                } else {
                    Bound::Names(after)
                },
            },
        },
    }
}

/// The first violation in the steps that a step awaits with or loops over.
pub open spec fn bound_inside(s: Step, here: Seq<char>, names: Set<Seq<char>>) -> Option<Seq<char>>
    decreases s, 1int,
{
    first(
        match s.await_until {
            None => None,
            Some(a) => match bound_after(a.on_each@, here + ".awaitUntil"@, names, 0) {
                Bound::Broken(t) => Some(t),
                Bound::Names(_) => None,
            },
        },
        match s.loop_step {
            None => None,
            Some(Loop::ForEach { collection, body, .. }) => if !names.contains(collection@) {
                Some(
                    here + ".loop forEach collection '"@ + collection@
                        + "' is not definitely bound"@,
                )
            } else {
                match bound_after(body@, here + ".loop"@, names, 0) {
                    Bound::Broken(t) => Some(t),
                    Bound::Names(_) => None,
                }
            },
            Some(Loop::Chunk { body, .. }) => match bound_after(body@, here + ".loop"@, names, 0) {
                Bound::Broken(t) => Some(t),
                Bound::Names(_) => None,
            },
        },
    )
}

/// The collections that are bound behind the branches of a conditional step.
pub open spec fn bound_after_branches(s: Step, here: Seq<char>, names: Set<Seq<char>>) -> Bound
    decreases s, 1int,
{
    match s.if_step {
        None => Bound::Names(names),
        Some(c) => match bound_after(c.then_steps@, here + ".if.then"@, names, 0) {
            Bound::Broken(t) => Bound::Broken(t),
            Bound::Names(taken) => match bound_after(c.else_steps@, here + ".if.else"@, names, 0) {
                Bound::Broken(t) => Bound::Broken(t),
                Bound::Names(other) => Bound::Names(taken.intersect(other)),
            },
        },
    }
}

/// The violation of the rules on a row of PTP steps.
pub open spec fn ptp_steps_violation(steps: Seq<Step>, path: Seq<char>) -> Option<Seq<char>> {
    match bound_after(steps, path, Set::empty(), 0) {
        Bound::Broken(t) => Some(t),
        Bound::Names(_) => None,
    }
}

/// Whether a text is white space alone.
pub(crate) fn blank(s: &str) -> (r: bool)
    ensures
        r == (trimmed(s@).len() == 0),
{
    trim(s).unicode_len() == 0
}

/// A copy of a row of texts.
pub(crate) fn copy_texts(v: &Vec<String>) -> (r: Vec<String>)
    ensures
        text_set(r@) == text_set(v@),
        r@ == v@,
{
    let mut out: Vec<String> = Vec::new();
    let mut i: usize = 0;
    while i < v.len()
        invariant
            i <= v.len(),
            out@ == v@.take(i as int),
        decreases v.len() - i,
    {
        out.push(v[i].clone());
        proof {
            assert(v@.take(i + 1) == v@.take(i as int).push(v@[i as int]));
        }
        i = i + 1;
    }
    proof {
        assert(v@.take(v@.len() as int) == v@);
    }
    out
}

/// Adds a text to a row of texts.
fn add_text(v: &mut Vec<String>, s: String)
    ensures
        text_set(final(v)@) == text_set(old(v)@).insert(s@),
{
    let ghost before = v@;
    v.push(s);
    proof {
        assert forall|t: Seq<char>| text_set(v@).contains(t) == text_set(before).insert(
            s@,
        ).contains(t) by {
            if holds_text(before, t) {
                let i = choose|i: int| 0 <= i < before.len() && (#[trigger] before[i])@ == t;
                assert(v@[i]@ == t);
            }
            if t == s@ {
                assert(v@[before.len() as int]@ == t);
            }
            if holds_text(v@, t) {
                let i = choose|i: int| 0 <= i < v@.len() && (#[trigger] v@[i])@ == t;
                if i < before.len() {
                    assert(before[i]@ == t);
                }
            }
        }
    }
}

/// Whether every text of `a` is one of `b`.
fn texts_within(a: &Vec<String>, b: &Vec<String>) -> (r: bool)
    ensures
        r == text_set(a@).subset_of(text_set(b@)),
{
    let mut i: usize = 0;
    while i < a.len()
        invariant
            i <= a.len(),
            forall|j: int| 0 <= j < i ==> holds_text(b@, (#[trigger] a@[j])@),
        decreases a.len() - i,
    {
        if !contains_text(b, a[i].as_str()) {
            proof {
                assert(text_set(a@).contains(a@[i as int]@));
            }
            return false;
        }
        i = i + 1;
    }
    true
}

/// The texts of `a` and of `b`.
fn union_texts(a: &Vec<String>, b: &Vec<String>) -> (r: Vec<String>)
    ensures
        text_set(r@) == text_set(a@).union(text_set(b@)),
{
    let mut out = copy_texts(a);
    let mut i: usize = 0;
    proof {
        assert(b@.take(0) == Seq::<String>::empty());
        assert(text_set(b@.take(0)) == Set::<Seq<char>>::empty());
        assert(text_set(a@).union(text_set(b@.take(0))) == text_set(a@));
    }
    while i < b.len()
        invariant
            i <= b.len(),
            text_set(out@) == text_set(a@).union(text_set(b@.take(i as int))),
        decreases b.len() - i,
    {
        add_text(&mut out, b[i].clone());
        proof {
            text_set_grows(b@, i as int);
            assert(text_set(out@) == text_set(a@).union(text_set(b@.take(i + 1))));
        }
        i = i + 1;
    }
    proof {
        assert(b@.take(b@.len() as int) == b@);
    }
    out
}

/// The texts of the first `i + 1` strings are those of the first `i` and the next one.
proof fn text_set_grows(v: Seq<String>, i: int)
    requires
        0 <= i < v.len(),
    ensures
        text_set(v.take(i + 1)) == text_set(v.take(i)).insert(v[i]@),
{
    assert forall|t: Seq<char>| text_set(v.take(i + 1)).contains(t) == text_set(v.take(i)).insert(
        v[i]@,
    ).contains(t) by {
        if holds_text(v.take(i + 1), t) {
            let j = choose|j: int|
                0 <= j < v.take(i + 1).len() && (#[trigger] v.take(i + 1)[j])@ == t;
            if j < i {
                assert(v.take(i)[j]@ == t);
            }
        }
        if holds_text(v.take(i), t) {
            let j = choose|j: int| 0 <= j < v.take(i).len() && (#[trigger] v.take(i)[j])@ == t;
            assert(v.take(i + 1)[j]@ == t);
        }
        if t == v[i]@ {
            assert(v.take(i + 1)[i]@ == t);
        }
    }
}

/// The texts that are in `a` and in `b`.
fn common_texts(a: &Vec<String>, b: &Vec<String>) -> (r: Vec<String>)
    ensures
        text_set(r@) == text_set(a@).intersect(text_set(b@)),
{
    let mut out: Vec<String> = Vec::new();
    let mut i: usize = 0;
    proof {
        assert(text_set(a@.take(0)) == Set::<Seq<char>>::empty());
        assert(text_set(out@) == text_set(a@.take(0)).intersect(text_set(b@)));
    }
    while i < a.len()
        invariant
            i <= a.len(),
            text_set(out@) == text_set(a@.take(i as int)).intersect(text_set(b@)),
        decreases a.len() - i,
    {
        proof {
            text_set_grows(a@, i as int);
        }
        if contains_text(b, a[i].as_str()) {
            add_text(&mut out, a[i].clone());
        }
        proof {
            assert(text_set(out@) == text_set(a@.take(i + 1)).intersect(text_set(b@)));
        }
        i = i + 1;
    }
    proof {
        assert(a@.take(a@.len() as int) == a@);
    }
    out
}

/// Checks the rules on the captures of an await.
fn require_valid_await_captures(s: &Step, here: &str) -> (r: Result<(), ManifestError>)
    ensures
        reports(r, await_capture_violation(*s, here@)),
{
    if let Some(a) = &s.await_until {
        if s.captures.len() > 0 {
            let polled = match &a.source {
                AwaitSource::Poll { .. } => true,
                AwaitSource::Event { then_poll, .. } => then_poll.is_some(),
            };
            if !polled {
                return Err(
                    ManifestError::Contract(
                        join2(here, ".captures require awaitUntil poll or event thenPoll"),
                    ),
                );
            }
            let mut i: usize = 0;
            while i < s.captures.len()
                invariant
                    i <= s.captures.len(),
                    s.captures@.len() > 0,
                    s.await_until is Some,
                    polls_value(s.await_until->0.source),
                    forall|j: int|
                        0 <= j < i ==> (#[trigger] s.captures@[j]).source
                            == CaptureSource::PropValue,
                decreases s.captures.len() - i,
            {
                if s.captures[i].source != CaptureSource::PropValue {
                    return Err(
                        ManifestError::Contract(
                            join2(here, ".captures on awaitUntil support only propValue"),
                        ),
                    );
                }
                i = i + 1;
            }
        }
    }
    Ok(())
}

/// Checks the rules on one capture.
fn require_valid_capture(s: &Step, c: &Capture, here: &str, names: &Vec<String>) -> (r: Result<
    (),
    ManifestError,
>)
    ensures
        reports(r, capture_violation(*s, *c, here@, text_set(names@))),
{
    if c.source == CaptureSource::TransactionId {
        if s.send_op.is_none() {
            return Err(
                ManifestError::Contract(
                    join2(here, " transactionId capture requires sendOp"),
                ),
            );
        }
        if s.repeat != 1 {
            return Err(
                ManifestError::Contract(
                    join2(here, " transactionId capture requires an unrepeated sendOp"),
                ),
            );
        }
        if s.tolerant {
            return Err(
                ManifestError::Contract(
                    join2(here, " transactionId capture must not be tolerant"),
                ),
            );
        }
        if blank(c.bind.as_str()) {
            return Err(
                ManifestError::Contract(
                    join2(here, " transactionId capture bind must not be empty"),
                ),
            );
        }
    }
    if c.source == CaptureSource::PtpU32Array {
        if s.get_prop.is_none() && s.send_op.is_none() {
            return Err(
                ManifestError::Contract(
                    join2(here, " ptpU32Array capture requires getProp or sendOp"),
                ),
            );
        }
        if s.tolerant {
            return Err(
                ManifestError::Contract(
                    join2(here, " ptpU32Array capture must not be tolerant"),
                ),
            );
        }
        if blank(c.bind.as_str()) {
            return Err(
                ManifestError::Contract(
                    join2(here, " ptpU32Array capture bind must not be empty"),
                ),
            );
        }
        if contains_text(names, c.bind.as_str()) {
            return Err(
                ManifestError::Contract(
                    join4(here, " repeats ptpU32Array capture bind '", c.bind.as_str(), "'"),
                ),
            );
        }
    }
    Ok(())
}

/// Checks the captures of a step and gives the arrays that they bind.
fn require_valid_captures(s: &Step, here: &str) -> (r: Result<Vec<String>, ManifestError>)
    ensures
        binds(r, captured_arrays(*s, here@, Set::empty(), 0)),
{
    let mut names: Vec<String> = Vec::new();
    let mut i: usize = 0;
    proof {
        assert(text_set(names@) == Set::<Seq<char>>::empty());
    }
    while i < s.captures.len()
        invariant
            i <= s.captures.len(),
            captured_arrays(*s, here@, Set::empty(), 0) == captured_arrays(
                *s,
                here@,
                text_set(names@),
                i as int,
            ),
        decreases s.captures.len() - i,
    {
        let c = &s.captures[i];
        match require_valid_capture(s, c, here, &names) {
            Err(e) => {
                return Err(e);
            },
            Ok(_) => {},
        }
        if c.source == CaptureSource::PtpU32Array {
            add_text(&mut names, c.bind.clone());
        }
        i = i + 1;
    }
    Ok(names)
}

/// Checks the rules on a retry, its steps apart.
fn require_valid_retry(retry: &StepRetry, here: &str) -> (r: Result<(), ManifestError>)
    ensures
        reports(r, retry_violation(*retry, here@)),
{
    if retry.steps.len() == 0 {
        return Err(
            ManifestError::Contract(
                join2(here, ".retry steps must not be empty"),
            ),
        );
    }
    if retry.when_response_codes.len() == 0 && retry.when_failure_classes.len() == 0 {
        return Err(
            ManifestError::Contract(
                join2(here, ".retry must select at least one of whenResponseCodes/whenFailureClasses"),
            ),
        );
    }
    if retry.max_attempts == 0 {
        return Err(
            ManifestError::Contract(
                join2(here, ".retry maxAttempts must be at least one"),
            ),
        );
    }
    if contains_ptp_loop(&retry.steps) {
        return Err(
            ManifestError::Contract(
                join2(here, ".retry must not contain loop; put retry inside the per-element body"),
            ),
        );
    }
    let mut i: usize = 0;
    while i < retry.when_response_codes.len()
        invariant
            i <= retry.when_response_codes.len(),
            retry_violation(*retry, here@) == response_code_violation(
                retry.when_response_codes@,
                here@,
                i as int,
            ),
        decreases retry.when_response_codes.len() - i,
    {
        let code = retry.when_response_codes[i].as_str();
        if parse_hex_code(code).is_none() {
            return Err(
                ManifestError::Contract(
                    join4(here, ".retry has invalid response code '", code, "'"),
                ),
            );
        }
        i = i + 1;
    }
    Ok(())
}

/// Checks a row of PTP steps.
pub(crate) fn require_valid_ptp_steps(steps: &Vec<Step>, path: &str) -> (r: Result<
    (),
    ManifestError,
>)
    ensures
        reports(r, ptp_steps_violation(steps@, path@)),
{
    let none: Vec<String> = Vec::new();
    proof {
        assert(text_set(none@) == Set::<Seq<char>>::empty());
    }
    match require_valid_ptp_steps_with_collections(steps, path, &none) {
        Err(e) => {
            return Err(e);
        },
        Ok(_) => {},
    }
    Ok(())
}

/// Checks a row of PTP steps behind which `names` are bound, and gives what is bound behind them.
fn require_valid_ptp_steps_with_collections(
    steps: &Vec<Step>,
    path: &str,
    names: &Vec<String>,
) -> (r: Result<Vec<String>, ManifestError>)
    ensures
        binds(r, bound_after(steps@, path@, text_set(names@), 0)),
    decreases steps, 3int,
{
    let mut held = copy_texts(names);
    let mut i: usize = 0;
    while i < steps.len()
        invariant
            i <= steps.len(),
            bound_after(steps@, path@, text_set(names@), 0) == bound_after(
                steps@,
                path@,
                text_set(held@),
                i as int,
            ),
        decreases steps.len() - i,
    {
        proof {
            assert(decreases_to!(steps@ => steps@[i as int]));
        }
        let here = index_path(path, ".steps[", i);
        let next = match require_valid_ptp_step(&steps[i], here.as_str(), &held) {
            Err(e) => {
                return Err(e);
            },
            Ok(v) => v,
        };
        held = next;
        i = i + 1;
    }
    Ok(held)
}

/// Checks one PTP step and gives what is bound behind it.
fn require_valid_ptp_step(s: &Step, here: &str, names: &Vec<String>) -> (r: Result<
    Vec<String>,
    ManifestError,
>)
    ensures
        binds(r, bound_after_step(*s, here@, text_set(names@))),
    decreases s, 2int,
{
    if !s.is_well_formed() {
        return Err(
            ManifestError::Contract(
                join2(here, " must contain exactly one action"),
            ),
        );
    }
    match require_valid_await_captures(s, here) {
        Err(e) => {
            return Err(e);
        },
        Ok(_) => {},
    }
    let arrays = match require_valid_captures(s, here) {
        Err(e) => {
            return Err(e);
        },
        Ok(v) => v,
    };
    let held = union_texts(names, &arrays);
    let next = match require_valid_retried_steps(s, here, &held) {
        Err(e) => {
            return Err(e);
        },
        Ok(v) => v,
    };
    match require_valid_inner_steps(s, here, &next) {
        Err(e) => {
            return Err(e);
        },
        Ok(_) => {},
    }
    require_valid_branches(s, here, &next)
}

/// Checks the retry of a step and gives what is bound behind it.
fn require_valid_retried_steps(s: &Step, here: &str, names: &Vec<String>) -> (r: Result<
    Vec<String>,
    ManifestError,
>)
    ensures
        binds(r, bound_after_retry(*s, here@, text_set(names@))),
    decreases s, 1int,
{
    match &s.retry {
        None => Ok(copy_texts(names)),
        Some(retry) => {
            match require_valid_retry(retry, here) {
                Err(e) => {
                    return Err(e);
                },
                Ok(_) => {},
            }
            let after = match require_valid_ptp_steps_with_collections(&retry.steps, join2(here, ".retry").as_str(), names) {
                Err(e) => {
                    return Err(e);
                },
                Ok(v) => v,
            };
            if s.tolerant && !(texts_within(&after, names) && texts_within(names, &after)) {
                return Err(
                    ManifestError::Contract(
                        join2(here, ".retry captures a collection and must not be tolerant"),
                    ),
                );
            }
            proof {
                if s.tolerant {
                    assert(text_set(after@) == text_set(names@));
                }
            }
            Ok(after)
        },
    }
}

/// Checks the steps that a step awaits with or loops over.
fn require_valid_inner_steps(s: &Step, here: &str, names: &Vec<String>) -> (r: Result<
    (),
    ManifestError,
>)
    ensures
        reports(r, bound_inside(*s, here@, text_set(names@))),
    decreases s, 1int,
{
    if let Some(a) = &s.await_until {
        match require_valid_ptp_steps_with_collections(&a.on_each, join2(here, ".awaitUntil").as_str(), names) {
            Err(e) => {
                return Err(e);
            },
            Ok(_) => {},
        }
    }
    match &s.loop_step {
        None => {},
        Some(Loop::ForEach { collection, body, .. }) => {
            if !contains_text(names, collection.as_str()) {
                return Err(
                    ManifestError::Contract(
                        join4(here, ".loop forEach collection '", collection.as_str(), "' is not definitely bound"),
                    ),
                );
            }
            match require_valid_ptp_steps_with_collections(body, join2(here, ".loop").as_str(), names) {
                Err(e) => {
                    return Err(e);
                },
                Ok(_) => {},
            }
        },
        Some(Loop::Chunk { body, .. }) => {
            match require_valid_ptp_steps_with_collections(body, join2(here, ".loop").as_str(), names) {
                Err(e) => {
                    return Err(e);
                },
                Ok(_) => {},
            }
        },
    }
    Ok(())
}

/// Checks the branches of a conditional step and gives what is bound behind them.
fn require_valid_branches(s: &Step, here: &str, names: &Vec<String>) -> (r: Result<
    Vec<String>,
    ManifestError,
>)
    ensures
        binds(r, bound_after_branches(*s, here@, text_set(names@))),
    decreases s, 1int,
{
    match &s.if_step {
        None => Ok(copy_texts(names)),
        Some(c) => {
            let taken = match require_valid_ptp_steps_with_collections(&c.then_steps, join2(here, ".if.then").as_str(), names) {
                Err(e) => {
                    return Err(e);
                },
                Ok(v) => v,
            };
            let other = match require_valid_ptp_steps_with_collections(&c.else_steps, join2(here, ".if.else").as_str(), names) {
                Err(e) => {
                    return Err(e);
                },
                Ok(v) => v,
            };
            Ok(common_texts(&taken, &other))
        },
    }
}

/// The port that a connection binds to a role, if it binds one.
pub open spec fn bound_port(b: Option<SocketBindings>, role: SocketRole) -> bool {
    b matches Some(x) && role_binding(x, role) is Some
}

/// The name of a socket role.
pub open spec fn role_text(role: SocketRole) -> Seq<char> {
    match role {
        SocketRole::Command => "Command"@,
        SocketRole::Event => "Event"@,
        SocketRole::LiveView => "LiveView"@,
    }
}

/// The name of a socket role.
pub(crate) fn role_name(role: SocketRole) -> (r: &'static str)
    ensures
        r@ == role_text(role),
{
    match role {
        SocketRole::Command => "Command",
        SocketRole::Event => "Event",
        SocketRole::LiveView => "LiveView",
    }
}

/// Whether a simulator can enforce the order behind a step.
pub open spec fn enforceable(s: Step) -> bool {
    !s.tolerant && gate_matchable(s)
}

/// The violation of the rules on a step that opens a channel.
pub open spec fn open_channel_violation(
    role: SocketRole,
    bindings: Option<SocketBindings>,
    here: Seq<char>,
    allowed: bool,
    behind_strict_step: bool,
) -> Option<Seq<char>> {
    if !allowed {
        Some(
            here
                + ".openChannel is only valid as a top-level mode-entry or action step"@,
        )
    } else if role == SocketRole::Command {
        Some(
            here
                + ".openChannel cannot open the command channel; it is established before plan execution"@,
        )
    } else if !bound_port(bindings, role) {
        Some(
            here + ".openChannel role '"@ + role_text(role)
                + "' has no socket binding on its connection"@,
        )
    } else if !behind_strict_step {
        Some(
            here
                + ".openChannel requires a preceding strict wire step so simulators can enforce its causal boundary"@,
        )
    } else {
        None
    }
}

/// The violation of the rules on open-channel steps, in the steps from `i` on. A channel may be
/// opened at the top level only, and only directly behind a strict wire step; a step that opens
/// one leaves open whether such a step stands before the next.
pub open spec fn open_channels_violation(
    steps: Seq<Step>,
    bindings: Option<SocketBindings>,
    path: Seq<char>,
    allowed: bool,
    behind_strict_step: bool,
    i: int,
) -> Option<Seq<char>>
    decreases steps, steps.len() - i,
{
    if i < 0 || i >= steps.len() {
        None
    } else {
        let here = indexed(path, ".steps["@, i);
        match steps[i].open_channel {
            Some(role) => first(
                open_channel_violation(role, bindings, here, allowed, behind_strict_step),
                open_channels_violation(
                    steps,
                    bindings,
                    path,
                    allowed,
                    behind_strict_step,
                    i + 1,
                ),
            ),
            None => first(
                inner_channels_violation(steps[i], bindings, here),
                open_channels_violation(
                    steps,
                    bindings,
                    path,
                    allowed,
                    enforceable(steps[i]),
                    i + 1,
                ),
            ),
        }
    }
}

/// The violation of those rules in the steps that a step holds.
pub open spec fn inner_channels_violation(
    s: Step,
    bindings: Option<SocketBindings>,
    here: Seq<char>,
) -> Option<Seq<char>>
    decreases s, 0int,
{
    first(
        match s.retry {
            Some(r) => open_channels_violation(
                r.steps@,
                bindings,
                here + ".retry"@,
                false,
                false,
                0,
            ),
            None => None,
        },
        first(
            match s.await_until {
                Some(a) => open_channels_violation(
                    a.on_each@,
                    bindings,
                    here + ".awaitUntil"@,
                    false,
                    false,
                    0,
                ),
                None => None,
            },
            first(
                match s.loop_step {
                    Some(Loop::ForEach { body, .. }) => open_channels_violation(
                        body@,
                        bindings,
                        here + ".loop"@,
                        false,
                        false,
                        0,
                    ),
                    Some(Loop::Chunk { body, .. }) => open_channels_violation(
                        body@,
                        bindings,
                        here + ".loop"@,
                        false,
                        false,
                        0,
                    ),
                    None => None,
                },
                match s.if_step {
                    Some(c) => first(
                        open_channels_violation(
                            c.then_steps@,
                            bindings,
                            here + ".if.then"@,
                            false,
                            false,
                            0,
                        ),
                        open_channels_violation(
                            c.else_steps@,
                            bindings,
                            here + ".if.else"@,
                            false,
                            false,
                            0,
                        ),
                    ),
                    None => None,
                },
            ),
        ),
    )
}

/// Checks the rules on one step that opens a channel.
fn require_valid_open_channel(
    role: SocketRole,
    bindings: &Option<SocketBindings>,
    here: &str,
    allowed: bool,
    behind_strict_step: bool,
) -> (r: Result<(), ManifestError>)
    ensures
        reports(
            r,
            open_channel_violation(role, *bindings, here@, allowed, behind_strict_step),
        ),
{
    if !allowed {
        return Err(
            ManifestError::Contract(
                join2(here, ".openChannel is only valid as a top-level mode-entry or action step"),
            ),
        );
    }
    if role == SocketRole::Command {
        return Err(
            ManifestError::Contract(
                join2(here, ".openChannel cannot open the command channel; it is established before plan execution"),
            ),
        );
    }
    let bound = match bindings {
        None => false,
        Some(b) => b.port_for(role).is_some(),
    };
    if !bound {
        return Err(
            ManifestError::Contract(
                join4(here, ".openChannel role '", role_name(role), "' has no socket binding on its connection"),
            ),
        );
    }
    if !behind_strict_step {
        return Err(
            ManifestError::Contract(
                join2(here, ".openChannel requires a preceding strict wire step so simulators can enforce its causal boundary"),
            ),
        );
    }
    Ok(())
}

/// Checks the rules on open-channel steps.
pub(crate) fn require_valid_open_channels(
    steps: &Vec<Step>,
    bindings: &Option<SocketBindings>,
    path: &str,
    top_level_allowed: bool,
) -> (r: Result<(), ManifestError>)
    ensures
        reports(
            r,
            open_channels_violation(steps@, *bindings, path@, top_level_allowed, false, 0),
        ),
    decreases steps, 1int,
{
    let mut behind_strict_step = false;
    let mut i: usize = 0;
    while i < steps.len()
        invariant
            i <= steps.len(),
            open_channels_violation(steps@, *bindings, path@, top_level_allowed, false, 0)
                == open_channels_violation(
                steps@,
                *bindings,
                path@,
                top_level_allowed,
                behind_strict_step,
                i as int,
            ),
        decreases steps.len() - i,
    {
        proof {
            assert(decreases_to!(steps@ => steps@[i as int]));
        }
        let step = &steps[i];
        let here = index_path(path, ".steps[", i);
        match step.open_channel {
            Some(role) => {
                match require_valid_open_channel(role, bindings, here.as_str(), top_level_allowed, behind_strict_step) {
                    Err(e) => {
                        return Err(e);
                    },
                    Ok(_) => {},
                }
            },
            None => {
                match require_valid_inner_channels(step, bindings, here.as_str()) {
                    Err(e) => {
                        return Err(e);
                    },
                    Ok(_) => {},
                }
                behind_strict_step = !step.tolerant && step.is_sequence_gate_matchable();
            },
        }
        i = i + 1;
    }
    Ok(())
}

/// Checks those rules in the steps that a step holds.
fn require_valid_inner_channels(
    s: &Step,
    bindings: &Option<SocketBindings>,
    here: &str,
) -> (r: Result<(), ManifestError>)
    ensures
        reports(r, inner_channels_violation(*s, *bindings, here@)),
    decreases s, 0int,
{
    if let Some(retry) = &s.retry {
        match require_valid_open_channels(&retry.steps, bindings, join2(here, ".retry").as_str(), false) {
            Err(e) => {
                return Err(e);
            },
            Ok(_) => {},
        }
    }
    if let Some(a) = &s.await_until {
        match require_valid_open_channels(&a.on_each, bindings, join2(here, ".awaitUntil").as_str(), false) {
            Err(e) => {
                return Err(e);
            },
            Ok(_) => {},
        }
    }
    match &s.loop_step {
        Some(Loop::ForEach { body, .. }) => {
            match require_valid_open_channels(body, bindings, join2(here, ".loop").as_str(), false) {
                Err(e) => {
                    return Err(e);
                },
                Ok(_) => {},
            }
        },
        Some(Loop::Chunk { body, .. }) => {
            match require_valid_open_channels(body, bindings, join2(here, ".loop").as_str(), false) {
                Err(e) => {
                    return Err(e);
                },
                Ok(_) => {},
            }
        },
        None => {},
    }
    if let Some(c) = &s.if_step {
        match require_valid_open_channels(&c.then_steps, bindings, join2(here, ".if.then").as_str(), false) {
            Err(e) => {
                return Err(e);
            },
            Ok(_) => {},
        }
        match require_valid_open_channels(&c.else_steps, bindings, join2(here, ".if.else").as_str(), false) {
            Err(e) => {
                return Err(e);
            },
            Ok(_) => {},
        }
    }
    Ok(())
}

} // verus!
