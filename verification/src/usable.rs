//! What makes an operation, a mode or a connection usable.

use crate::model::{
    available_when_holds, hex_code, AvailableWhen, CameraManifest, Connection, Mode, Operation,
    VersionCond,
};
use crate::name_map::NameMap;
use crate::predicate::{holds, observed_pairs, observed_value, Leaf, Predicate};
use crate::query::{
    availability, availability_trace, available_ids_from, capabilities_of, coded, coded_from,
    connection_open,
    covers_connection, covers_mode, detected_from, path_of, Availability,
};
use crate::text::{
    digits_of, digits_value, is_digit, split_text, trimmed, unsigned_value, views,
};
use crate::version::{order_from, version_in_range, version_order, version_parts, VersionOrder, VersionScheme};
use vstd::prelude::*;

verus! {

/// Every entry of a mode set counts: the set covers the mode that the entry names and each mode below
/// it. A mode that no entry covers in this way is covered only by the empty set.
pub proof fn every_mode_entry_counts(modes: Seq<String>, mode: Seq<char>)
    ensures
        forall|i: int| 0 <= i < modes.len() ==> covers_mode(modes, #[trigger] modes[i]@),
        forall|i: int, below: Seq<char>|
            0 <= i < modes.len() ==> covers_mode(
                modes,
                #[trigger] (modes[i]@ + seq!['/'] + below),
            ),
        covers_mode(modes, mode) && modes.len() > 0 ==> exists|i: int|
            #![trigger modes[i]]
            0 <= i < modes.len() && (modes[i]@ == mode || exists|below: Seq<char>|
                mode == #[trigger] (modes[i]@ + seq!['/'] + below)),
        modes.len() == 0 ==> covers_mode(modes, mode),
{
    reveal_strlit("/");
    assert("/"@ == seq!['/']);
    assert forall|i: int, below: Seq<char>| 0 <= i < modes.len() implies covers_mode(
        modes,
        #[trigger] (modes[i]@ + seq!['/'] + below),
    ) by {
        let p = modes[i]@ + "/"@;
        let path = modes[i]@ + seq!['/'] + below;
        assert(path.take(p.len() as int) == p);
    }
    if covers_mode(modes, mode) && modes.len() > 0 {
        if forall|i: int| 0 <= i < modes.len() ==> (#[trigger] modes[i])@ != mode {
            let i = choose|i: int|
                0 <= i < modes.len() && crate::text::has_prefix(
                    mode,
                    (#[trigger] modes[i])@ + "/"@,
                );
            let p = modes[i]@ + "/"@;
            assert(mode == modes[i]@ + seq!['/'] + mode.skip(p.len() as int));
        }
    }
}

/// A connection set covers a connection that one of its entries names; the empty set covers every
/// one.
pub proof fn every_connection_entry_counts(connections: Seq<String>, id: Seq<char>)
    ensures
        covers_connection(connections, id) <==> connections.len() == 0 || exists|i: int|
            0 <= i < connections.len() && (#[trigger] connections[i])@ == id,
{
}

/// The operation of a code is the first whose key writes it.
proof fn coded_first<V>(s: Seq<(String, V)>, code: u16, i: int, k: int)
    requires
        0 <= i <= k <= s.len(),
        k == s.len() || hex_code(s[k].0@) == Some(code),
        forall|j: int| i <= j < k ==> hex_code((#[trigger] s[j]).0@) != Some(code),
    ensures
        coded_from(s, code, i) == (if k == s.len() {
            None
        } else {
            Some(s[k].1)
        }),
    decreases k - i,
{
    if i < k {
        assert(hex_code(s[i].0@) != Some(code));
        coded_first(s, code, i + 1, k);
    }
}

/// What stands under a code is the value of the first key that writes the code, and nothing where no
/// key does.
pub proof fn first_key_with_the_code_counts<V>(m: NameMap<V>, code: u16, k: int)
    ensures
        0 <= k < m.entries().len() && hex_code(m.entries()[k].0@) == Some(code) && (forall|j: int|
            0 <= j < k ==> hex_code((#[trigger] m.entries()[j]).0@) != Some(code)) ==> coded(m, code)
            == Some(m.entries()[k].1),
        (forall|j: int|
            0 <= j < m.entries().len() ==> hex_code((#[trigger] m.entries()[j]).0@) != Some(code))
            ==> coded(m, code) is None,
{
    let s = m.entries();
    if 0 <= k < s.len() && hex_code(s[k].0@) == Some(code) && (forall|j: int|
        0 <= j < k ==> hex_code((#[trigger] s[j]).0@) != Some(code)) {
        coded_first(s, code, 0, k);
    }
    if forall|j: int| 0 <= j < s.len() ==> hex_code((#[trigger] s[j]).0@) != Some(code) {
        coded_first(s, code, 0, s.len() as int);
    }
}

/// An operation is available exactly where it is defined, one of its connections is the connection
/// or it has none, one of its modes covers the mode or it has none, and its prerequisite holds or it
/// has none. Otherwise the answer names the first of these that fails.
pub proof fn availability_names_what_fails(
    m: CameraManifest,
    connection: Seq<char>,
    mode: Seq<char>,
    code: u16,
    observed: Map<u16, i64>,
    op: Operation,
)
    requires
        coded(m.operations, code) == Some(op),
    ensures
        ({
            let connected = op.connections@.len() == 0 || exists|i: int|
                0 <= i < op.connections@.len() && (#[trigger] op.connections@[i])@ == connection;
            let placed = covers_mode(op.modes@, mode);
            let met = op.requires is None || holds(op.requires->0, observed);
            let a = availability(m, connection, mode, code, observed);
            &&& a == Availability::Available <==> connected && placed && met
            &&& a == Availability::WrongConnection <==> !connected
            &&& a == Availability::WrongMode <==> connected && !placed
            &&& a == Availability::Blocked <==> connected && placed && !met
            &&& a != Availability::Unavailable
        }),
{
}

/// An operation that the manifest does not define is unavailable, and only such a one is.
pub proof fn undefined_operations_are_unavailable(
    m: CameraManifest,
    connection: Seq<char>,
    mode: Seq<char>,
    code: u16,
    observed: Map<u16, i64>,
)
    ensures
        availability(m, connection, mode, code, observed) == Availability::Unavailable
            <==> forall|j: int|
            0 <= j < m.operations.entries().len() ==> hex_code(
                (#[trigger] m.operations.entries()[j]).0@,
            ) != Some(code),
{
    let s = m.operations.entries();
    if forall|j: int| 0 <= j < s.len() ==> hex_code((#[trigger] s[j]).0@) != Some(code) {
        coded_first(s, code, 0, s.len() as int);
    } else {
        let j = choose|j: int| 0 <= j < s.len() && hex_code((#[trigger] s[j]).0@) == Some(code);
        coded_somewhere(s, code, 0, j);
    }
}

/// A code that some key writes stands for something.
proof fn coded_somewhere<V>(s: Seq<(String, V)>, code: u16, i: int, j: int)
    requires
        0 <= i <= j < s.len(),
        hex_code(s[j].0@) == Some(code),
    ensures
        coded_from(s, code, i) is Some,
    decreases j - i,
{
    if i < j && hex_code(s[i].0@) != Some(code) {
        coded_somewhere(s, code, i + 1, j);
    }
}

/// The explanation of an availability says the same as the answer, and whether the connection and
/// the mode alone fit.
pub proof fn explanation_agrees_with_the_answer(
    m: CameraManifest,
    connection: Seq<char>,
    mode: Seq<char>,
    code: u16,
    observed: Map<u16, i64>,
)
    ensures
        ({
            let t = availability_trace(m, connection, mode, code, observed);
            let a = availability(m, connection, mode, code, observed);
            &&& t.query == "operation_available"@ && t.connection == connection && t.mode == mode
                && t.op == code
            &&& a == Availability::Available ==> t.outcome == "Available"@ && t.reason
                == "available"@ && t.connection_ok && t.mode_ok
            &&& a == Availability::WrongConnection ==> t.outcome == "WrongConnection"@
                && !t.connection_ok
            &&& a == Availability::WrongMode ==> t.outcome == "WrongMode"@ && t.connection_ok
                && !t.mode_ok
            &&& a == Availability::Blocked ==> t.outcome == "Blocked"@ && t.connection_ok
                && t.mode_ok && t.requires is Some && !t.requires->0.passed
            &&& a == Availability::Unavailable ==> t.outcome == "Unavailable"@
                && !t.connection_ok && !t.mode_ok && t.requires is None
            &&& t.requires is Some ==> (a == Availability::Available || a == Availability::Blocked
                ==> (t.requires->0.passed <==> a == Availability::Available))
        }),
{
}

/// A comparison holds of an observed property exactly where every comparator that is set holds of
/// its value, under the mask where there is one. It does not hold of a property that was not
/// observed, nor where the code of the property is malformed.
pub proof fn comparisons_compare_the_masked_value(
    l: Leaf,
    view: Map<u16, i64>,
    code: u16,
    value: i64,
)
    ensures
        hex_code(l.prop@) is None ==> !holds(Predicate::Leaf(l), view),
        hex_code(l.prop@) == Some(code) && !view.contains_key(code) ==> !holds(
            Predicate::Leaf(l),
            view,
        ),
        hex_code(l.prop@) == Some(code) && view.contains_key(code) && view[code] == value ==> ({
            let seen = if l.mask is Some {
                value & l.mask->0
            } else {
                value
            };
            holds(Predicate::Leaf(l), view) <==> {
                &&& l.eq is None || l.eq->0 == seen
                &&& l.ne is None || l.ne->0 != seen
                &&& l.lt is None || seen < l.lt->0
                &&& l.gt is None || l.gt->0 < seen
            }
        }),
{
}

/// `all` holds exactly where every child does, `any` exactly where one does, and `not` exactly where
/// its child does not.
pub proof fn connectives_range_over_children(
    p: Predicate,
    v: Vec<Predicate>,
    view: Map<u16, i64>,
)
    ensures
        holds(Predicate::All { all: v }, view) <==> forall|i: int|
            0 <= i < v@.len() ==> holds(#[trigger] v@[i], view),
        holds(Predicate::Any { any: v }, view) <==> exists|i: int|
            0 <= i < v@.len() && holds(#[trigger] v@[i], view),
        holds(Predicate::Not { not: Box::new(p) }, view) <==> !holds(p, view),
{
    reveal_with_fuel(holds, 2);
    let all = Predicate::All { all: v };
    let any = Predicate::Any { any: v };
    assert(all->all == v && any->any == v);
}

/// Of several observations of one property the last counts, and the others do not change it.
pub proof fn last_observation_counts(pairs: Seq<(u16, i64)>, k: int)
    requires
        0 <= k < pairs.len(),
        forall|j: int| k < j < pairs.len() ==> (#[trigger] pairs[j]).0 != pairs[k].0,
    ensures
        observed_value(observed_pairs(pairs), pairs[k].0) == Some(pairs[k].1),
    decreases pairs.len(),
{
    if k < pairs.len() - 1 {
        let front = pairs.drop_last();
        assert forall|j: int| k < j < front.len() implies (#[trigger] front[j]).0 != front[k].0 by {
            assert(pairs[j].0 != pairs[k].0);
        }
        last_observation_counts(front, k);
        assert(pairs.last() == pairs[pairs.len() - 1]);
    }
}

/// A property that no observation is of was not observed.
pub proof fn unobserved_has_no_value(pairs: Seq<(u16, i64)>, code: u16)
    requires
        forall|j: int| 0 <= j < pairs.len() ==> (#[trigger] pairs[j]).0 != code,
    ensures
        observed_value(observed_pairs(pairs), code) is None,
    decreases pairs.len(),
{
    if pairs.len() > 0 {
        let front = pairs.drop_last();
        assert forall|j: int| 0 <= j < front.len() implies (#[trigger] front[j]).0 != code by {
            assert(pairs[j].0 != code);
        }
        unobserved_has_no_value(front, code);
        assert(pairs.last() == pairs[pairs.len() - 1]);
    }
}

/// The mode that is detected is the first, in key order, whose detection holds.
pub proof fn first_detected_mode_counts(
    s: Seq<(String, Mode)>,
    observed: Map<u16, i64>,
    i: int,
    k: int,
)
    requires
        0 <= i <= k <= s.len(),
        k < s.len() ==> s[k].1.detect is Some && holds(s[k].1.detect->0, observed),
        forall|j: int|
            i <= j < k ==> (#[trigger] s[j]).1.detect is None || !holds(
                s[j].1.detect->0,
                observed,
            ),
    ensures
        detected_from(s, observed, i) == (if k == s.len() {
            None
        } else {
            Some(s[k].0@)
        }),
    decreases k - i,
{
    if i < k {
        assert(s[i].1.detect is None || !holds(s[i].1.detect->0, observed));
        first_detected_mode_counts(s, observed, i + 1, k);
    }
}

/// Each segment of a mode path adds the capabilities of the mode that the path ends in there, behind
/// those of the segments before it.
pub proof fn each_level_adds_its_capabilities(
    m: CameraManifest,
    parts: Seq<Seq<char>>,
    n: int,
    mode: Mode,
)
    requires
        n > 0,
    ensures
        m.modes.at(path_of(parts, n)) == Some(mode) ==> capabilities_of(m, parts, n)
            == capabilities_of(m, parts, n - 1) + views(mode.capabilities@),
        m.modes.at(path_of(parts, n)) is None ==> capabilities_of(m, parts, n) == capabilities_of(
            m,
            parts,
            n - 1,
        ),
        capabilities_of(m, parts, 0) == Seq::<Seq<char>>::empty(),
        path_of(parts, 1) == parts[0],
        path_of(parts, n).len() > 0 ==> path_of(parts, n + 1) == path_of(parts, n) + seq!['/']
            + parts[n],
{
    reveal_strlit("/");
    assert("/"@ == seq!['/']);
    reveal_with_fuel(path_of, 2);
}

/// The number that digits of a base write reads back from the digits of the number.
pub proof fn written_code_reads_back(n: u16)
    ensures
        hex_code("0x"@ + digits_of(n as nat, 16)) == Some(n),
        hex_code(digits_of(n as nat, 16)) == Some(n),
{
    reveal_strlit("0x");
    let d = digits_of(n as nat, 16);
    digits_are_digits(n as nat);
    assert(is_digit(d[0], 16));
    assert(is_digit(d.last(), 16));
    let s = "0x"@ + d;
    assert(s[0] == '0' && s[1] == 'x');
    assert(s.last() == d.last());
    assert(trimmed(s) == s);
    assert(s.take(2) == "0x"@);
    assert(s.skip(2) == d);
    assert(trimmed(d) == d);
    if crate::text::has_prefix(d, "0x"@) {
        assert(d.take(2)[1] == 'x');
        assert(is_digit(d[1], 16));
    }
    reveal_strlit("0X");
    if crate::text::has_prefix(d, "0X"@) {
        assert(d.take(2)[1] == 'X');
        assert(is_digit(d[1], 16));
    }
}

/// The digits of a number are some, are digits, and write the number.
proof fn digits_are_digits(n: nat)
    ensures
        digits_of(n, 16).len() > 0,
        forall|i: int|
            0 <= i < digits_of(n, 16).len() ==> is_digit(#[trigger] digits_of(n, 16)[i], 16),
        digits_value(digits_of(n, 16), 16) == n,
    decreases n,
{
    let s = digits_of(n, 16);
    reveal_with_fuel(digits_value, 2);
    if n >= 16 {
        digits_are_digits(n / 16);
        assert(s.drop_last() == digits_of(n / 16, 16));
    } else {
        assert(s.drop_last() == Seq::<char>::empty());
    }
}

/// A firmware condition holds exactly where every comparison that it sets does: the equality by the
/// text, the others by the order of versions, which must be known.
pub proof fn firmware_conditions_compare(
    w: AvailableWhen,
    c: VersionCond,
    fw: Seq<char>,
    scheme: VersionScheme,
)
    ensures
        w.firmware is None ==> available_when_holds(w, fw, scheme),
        w.firmware == Some(c) ==> (available_when_holds(w, fw, scheme) <==> {
            &&& c.eq is None || c.eq->0@ == fw
            &&& c.lt is None || version_order(fw, c.lt->0@, scheme) == Some(VersionOrder::Less)
            &&& c.gt is None || version_order(fw, c.gt->0@, scheme) == Some(VersionOrder::Greater)
            &&& c.le is None || (version_order(fw, c.le->0@, scheme) is Some && version_order(
                fw,
                c.le->0@,
                scheme,
            )->0 != VersionOrder::Greater)
            &&& c.ge is None || (version_order(fw, c.ge->0@, scheme) is Some && version_order(
                fw,
                c.ge->0@,
                scheme,
            )->0 != VersionOrder::Less)
        }),
{
}

/// A connection without a condition is available under every firmware; one with a condition where
/// the condition holds.
pub proof fn conditions_decide_connections(c: Connection, fw: Seq<char>, scheme: VersionScheme)
    ensures
        c.available_when is None ==> connection_open(c, fw, scheme),
        c.available_when is Some ==> (connection_open(c, fw, scheme) <==> available_when_holds(
            c.available_when->0,
            fw,
            scheme,
        )),
{
}

/// The first component in which two versions differ decides their order, a missing one being zero.
pub proof fn first_difference_decides(a: Seq<int>, b: Seq<int>, i: int, k: int)
    requires
        0 <= i <= k,
        k < a.len() || k < b.len(),
        forall|j: int| i <= j < k ==> part(a, j) == part(b, j),
        part(a, k) != part(b, k),
    ensures
        order_from(a, b, i) == (if part(a, k) < part(b, k) {
            VersionOrder::Less
        } else {
            VersionOrder::Greater
        }),
    decreases k - i,
{
    if i < k {
        assert(part(a, i) == part(b, i));
        first_difference_decides(a, b, i + 1, k);
    }
}

/// Versions that differ in no component are equal.
pub proof fn no_difference_is_equality(a: Seq<int>, b: Seq<int>, i: int)
    requires
        0 <= i,
        forall|j: int| i <= j && (j < a.len() || j < b.len()) ==> part(a, j) == part(b, j),
    ensures
        order_from(a, b, i) == VersionOrder::Equal,
    decreases a.len() + b.len() - i,
{
    if i < a.len() || i < b.len() {
        assert(part(a, i) == part(b, i));
        no_difference_is_equality(a, b, i + 1);
    }
}

/// Component `i` of a version, and zero behind the last.
pub open spec fn part(v: Seq<int>, i: int) -> int {
    if i < v.len() {
        v[i]
    } else {
        0
    }
}

/// A range holds its lower bound and not its upper one, and each version between them. A version that
/// does not parse lies in it only where it is the text of a bound.
pub proof fn ranges_are_half_open(
    v: Seq<char>,
    lo: Seq<char>,
    hi: Seq<char>,
    scheme: VersionScheme,
)
    ensures
        version_parts(v, scheme) is Some ==> {
            &&& version_in_range(v, None, None, scheme)
            &&& version_in_range(v, Some(v), None, scheme)
            &&& !version_in_range(v, None, Some(v), scheme)
            &&& version_in_range(v, Some(lo), Some(hi), scheme) <==> version_in_range(
                v,
                Some(lo),
                None,
                scheme,
            ) && version_in_range(v, None, Some(hi), scheme)
            &&& version_order(v, lo, scheme) == Some(VersionOrder::Less) ==> !version_in_range(
                v,
                Some(lo),
                None,
                scheme,
            )
            &&& version_order(v, lo, scheme) == Some(VersionOrder::Greater) ==> version_in_range(
                v,
                Some(lo),
                None,
                scheme,
            )
            &&& version_in_range(v, None, Some(hi), scheme) <==> version_order(v, hi, scheme)
                == Some(VersionOrder::Less)
        },
        version_parts(v, scheme) is None ==> {
            &&& !version_in_range(v, None, None, scheme)
            &&& version_in_range(v, Some(lo), Some(hi), scheme) <==> v == lo || v == hi
        },
{
    if version_parts(v, scheme) is Some {
        crate::version::version_order_reflexive(v, scheme);
        let p = version_parts(v, scheme)->0;
        if version_order(v, lo, scheme) == Some(VersionOrder::Less) && v == lo {
            no_difference_is_equality(p, p, 0);
        }
    }
}

/// The connections that are available are those without a condition and those whose condition the
/// firmware meets, in their order.
pub proof fn available_connections_are_listed(
    s: Seq<(String, Connection)>,
    firmware: Seq<char>,
    scheme: VersionScheme,
    i: int,
    id: Seq<char>,
)
    requires
        0 <= i,
    ensures
        available_ids_from(s, firmware, scheme, i).contains(id) <==> exists|k: int|
            i <= k < s.len() && (#[trigger] s[k]).0@ == id && (s[k].1.available_when is None
                || available_when_holds(s[k].1.available_when->0, firmware, scheme)),
    decreases s.len() - i,
{
    if i < s.len() {
        available_connections_are_listed(s, firmware, scheme, i + 1, id);
        let rest = available_ids_from(s, firmware, scheme, i + 1);
        let all = available_ids_from(s, firmware, scheme, i);
        let open = s[i].1.available_when is None || available_when_holds(
            s[i].1.available_when->0,
            firmware,
            scheme,
        );
        if open {
            assert(all == seq![s[i].0@] + rest);
            if rest.contains(id) {
                let x = rest.index_of(id);
                assert(all[x + 1] == id);
            }
            if s[i].0@ == id {
                assert(all[0] == id);
            }
            if all.contains(id) {
                let x = all.index_of(id);
                if x > 0 {
                    assert(rest[x - 1] == id);
                }
            }
        } else {
            assert(all == rest);
        }
    }
}

/// The trace of an answer says what was asked, of which connection, mode and operation, which of the
/// two were met, and what the prerequisite gave.
pub proof fn traces_say_what_was_asked(
    m: CameraManifest,
    connection: Seq<char>,
    mode: Seq<char>,
    code: u16,
    observed: Map<u16, i64>,
)
    ensures
        ({
            let t = availability_trace(m, connection, mode, code, observed);
            let op = coded(m.operations, code);
            &&& t.query == "operation_available"@
            &&& t.connection == connection
            &&& t.mode == mode
            &&& t.op == code
            &&& op is None ==> !t.connection_ok && !t.mode_ok && t.requires is None
            &&& op is Some ==> {
                &&& t.connection_ok <==> covers_connection(op->0.connections@, connection)
                &&& t.mode_ok <==> covers_mode(op->0.modes@, mode)
                &&& op->0.requires is None ==> t.requires is None
                &&& op->0.requires is Some ==> t.requires is Some && t.requires->0.passed == holds(
                    op->0.requires->0,
                    observed,
                )
            }
        }),
{
}

/// A version is read part by part between dots, white space around a part and around the whole
/// apart; every part is a number.
pub proof fn versions_are_read_part_by_part(s: Seq<char>, scheme: VersionScheme, k: int)
    ensures
        ({
            let parts = split_text(trimmed(s), '.');
            &&& version_parts(s, scheme) is Some <==> trimmed(s).len() > 0 && forall|i: int|
                0 <= i < parts.len() ==> unsigned_value(
                    trimmed(#[trigger] parts[i]),
                    10,
                    0xffff_ffff_ffff_ffff,
                ) is Some
            &&& version_parts(s, scheme) is Some ==> version_parts(s, scheme)->0.len()
                == parts.len() && (0 <= k < parts.len() ==> unsigned_value(
                trimmed(parts[k]),
                10,
                0xffff_ffff_ffff_ffff,
            ) == Some(version_parts(s, scheme)->0[k]))
        }),
{
    let parts = split_text(trimmed(s), '.');
    if version_parts(s, scheme) is Some {
        assert forall|i: int| 0 <= i < parts.len() implies unsigned_value(
            trimmed(#[trigger] parts[i]),
            10,
            0xffff_ffff_ffff_ffff,
        ) is Some by {
            assert(crate::version::part_value(parts[i]) is Some);
        }
        if 0 <= k < parts.len() {
            assert(crate::version::part_value(parts[k]) is Some);
        }
    }
}

} // verus!
