//! What is found under a key, and what the parts of a declaration stand for.

use crate::action::{
    catalog_entries, connection_entries, entry_json, entry_model, parameter_json, with_actions,
    ActionAvailability, EntryModel, ParameterModel,
};
use crate::index::eval::{byte_items, digit_pairs, literal_bytes, scope_bytes, without_0x};
use crate::index::types::Encoding;
use crate::json::JsonModel;
use crate::model::{
    binding_condition, binding_port, hex_bytes, member_code, member_encoding, role_binding,
    source_of, widths_of, without_hex_prefix, Action, ActionVerb, CameraManifest, Connection,
    Descriptor, Payload, RecordMember, RecordValueEncoding, SocketBinding, SocketBindings,
    SocketRole, ValueSource,
};
use crate::name_map::{lookup_from, NameMap};
use crate::predicate::{leaf_effective, leaf_holds, leaf_observed, Leaf, Predicate};
use crate::rank_map::{ranked_from, Rank, RankMap};
use crate::text::{all_digits, digit_value, digits_of, has_prefix, is_digit, trimmed};
use crate::trace::{explained, hex_i64, leaf_record, leaf_records, test_parts};
use crate::yaml::{unsigned_of, YamlModel};
use vstd::prelude::*;

verus! {

/// What is under a name is what the first entry with it holds; under another there is nothing.
pub proof fn names_find_their_entry<V>(m: NameMap<V>, k: Seq<char>, i: int)
    ensures
        0 <= i < m.entries().len() && m.entries()[i].0@ == k && (forall|j: int|
            0 <= j < i ==> (#[trigger] m.entries()[j]).0@ != k) ==> m.at(k) == Some(
            m.entries()[i].1,
        ),
        (forall|j: int| 0 <= j < m.entries().len() ==> (#[trigger] m.entries()[j]).0@ != k)
            ==> m.at(k) is None,
        m.has(k) <==> exists|j: int|
            0 <= j < m.entries().len() && (#[trigger] m.entries()[j]).0@ == k,
{
    looked_up(m.entries(), k, 0);
    let s = m.entries();
    if 0 <= i < s.len() && s[i].0@ == k && (forall|j: int|
        0 <= j < i ==> (#[trigger] s[j]).0@ != k) {
        let x = choose|x: int|
            0 <= x < s.len() && (#[trigger] s[x]).0@ == k && m.at(k) == Some(s[x].1) && forall|
                j: int,
            |
                0 <= j < x ==> (#[trigger] s[j]).0@ != k;
        if x < i {
            assert(s[x].0@ != k);
        } else if i < x {
            assert(s[i].0@ != k);
        }
    }
}

/// What is looked up is the first entry with the name.
proof fn looked_up<V>(s: Seq<(String, V)>, k: Seq<char>, i: int)
    requires
        0 <= i,
    ensures
        lookup_from(s, k, i) is None <==> forall|j: int|
            i <= j < s.len() ==> (#[trigger] s[j]).0@ != k,
        lookup_from(s, k, i) is Some ==> exists|x: int|
            i <= x < s.len() && (#[trigger] s[x]).0@ == k && lookup_from(s, k, i) == Some(s[x].1)
                && forall|j: int| i <= j < x ==> (#[trigger] s[j]).0@ != k,
    decreases s.len() - i,
{
    if i < s.len() {
        looked_up(s, k, i + 1);
        if s[i].0@ == k {
            assert(s[i].0@ == k && lookup_from(s, k, i) == Some(s[i].1));
        } else if lookup_from(s, k, i + 1) is Some {
            let x = choose|x: int|
                i + 1 <= x < s.len() && (#[trigger] s[x]).0@ == k && lookup_from(s, k, i + 1)
                    == Some(s[x].1) && forall|j: int|
                    i + 1 <= j < x ==> (#[trigger] s[j]).0@ != k;
            assert(s[x].0@ == k);
        }
    }
}

/// What is under a variant is what the first entry with it holds.
pub proof fn variants_find_their_entry<K: Rank, V>(m: RankMap<K, V>, k: K, i: int)
    requires
        0 <= i < m.entries().len(),
        m.entries()[i].0 == k,
        forall|j: int| 0 <= j < i ==> (#[trigger] m.entries()[j]).0 != k,
    ensures
        m.at(k) == Some(m.entries()[i].1),
{
    ranked_up(m.entries(), k, 0, i);
}

/// The first entry with a variant is found.
proof fn ranked_up<K: Rank, V>(s: Seq<(K, V)>, k: K, i: int, x: int)
    requires
        0 <= i <= x < s.len(),
        s[x].0 == k,
        forall|j: int| i <= j < x ==> (#[trigger] s[j]).0 != k,
    ensures
        ranked_from(s, k, i) == Some(s[x].1),
    decreases x - i,
{
    if i < x {
        assert(s[i].0 != k);
        ranked_up(s, k, i + 1, x);
    }
}

/// The values of a descriptor come from where it says; where it does not, from the manifest if it
/// lists any, else from the camera.
pub proof fn values_come_from_where_they_are(d: Descriptor)
    ensures
        d.source is Some ==> source_of(d) == d.source->0,
        d.source is None && d.values@.len() > 0 ==> source_of(d) == ValueSource::Manifest,
        d.source is None && d.values@.len() == 0 ==> source_of(d) == ValueSource::Camera,
{
}

/// A record counts in two bytes, codes in two and holds values in four, unless it says otherwise.
pub proof fn records_have_usual_widths(p: Payload)
    ensures
        p.count_width is Some ==> widths_of(p).0 == p.count_width->0,
        p.count_width is None ==> widths_of(p).0 == 2,
        p.record is Some ==> widths_of(p).1 == p.record->0.code_width && widths_of(p).2
            == p.record->0.value_width,
        p.record is None ==> widths_of(p).1 == 2 && widths_of(p).2 == 4,
{
}

/// A member is under its code, and encoded as it says, or by the width of the record.
pub proof fn members_say_their_code(m: RecordMember, width: u8)
    ensures
        m matches RecordMember::Code(c) ==> member_code(m) == c && member_encoding(m, width)
            == (RecordValueEncoding::Fixed { width }),
        m matches RecordMember::Detailed(d) ==> member_code(m) == d.code && member_encoding(
            m,
            width,
        ) == d.encoding,
{
}

/// The socket of a role is the one that is bound to it, with its port and its condition.
pub proof fn sockets_are_bound_by_role(b: SocketBindings, s: SocketBinding)
    ensures
        role_binding(b, SocketRole::Command) == Some(b.command),
        role_binding(b, SocketRole::Event) == b.event,
        role_binding(b, SocketRole::LiveView) == b.live_view,
        s matches SocketBinding::Port(p) ==> binding_port(s) == p && binding_condition(s) is None,
        s matches SocketBinding::Descriptor(d) ==> binding_port(s) == d.port && binding_condition(s)
            == d.available_after,
{
}

/// Bytes are written by two hexadecimal digits each, the high one first, with or without a prefix;
/// there is at least one.
pub proof fn bytes_are_written_by_two_digits(s: Seq<char>, k: int)
    ensures
        ({
            let p = without_hex_prefix(s);
            &&& hex_bytes(s) is Some <==> p.len() > 0 && p.len() % 2 == 0 && forall|i: int|
                0 <= i < p.len() ==> is_digit(#[trigger] p[i], 16)
            &&& hex_bytes(s) is Some && 0 <= k < p.len() / 2 ==> hex_bytes(s)->0.len() == p.len()
                / 2 && hex_bytes(s)->0[k] == digit_value(p[2 * k])->0 * 16 + digit_value(
                p[2 * k + 1],
            )->0
        }),
        has_prefix(s, "0x"@) || has_prefix(s, "0X"@) ==> without_hex_prefix(s) == s.skip(2),
        !has_prefix(s, "0x"@) && !has_prefix(s, "0X"@) ==> without_hex_prefix(s) == s,
{
    let p = without_hex_prefix(s);
    if hex_bytes(s) is Some && 0 <= k < p.len() / 2 {
        assert(is_digit(p[2 * k], 16));
        assert(is_digit(p[2 * k + 1], 16));
        let a = digit_value(p[2 * k])->0;
        let b = digit_value(p[2 * k + 1])->0;
        assert(0 <= a < 16 && 0 <= b < 16);
        assert(0 <= a * 16 + b < 256);
    }
}

/// A literal is the bytes of its digits, or else its characters where it is to be a text; a number is
/// written in its encoding; a row is the bytes that it lists. Anything else is none.
pub proof fn literals_are_bytes(v: YamlModel, e: Option<Encoding>)
    ensures
        v matches YamlModel::Text(s) ==> ({
            let p = without_0x(trimmed(s));
            &&& all_digits(p, 16) && p.len() % 2 == 0 ==> literal_bytes(v, e) == digit_pairs(p)
                && literal_bytes(v, e) is Some
            &&& !(all_digits(p, 16) && p.len() % 2 == 0) && (e == Some(Encoding::Utf8) || e == Some(
                Encoding::Utf8Cstring,
            )) ==> literal_bytes(v, e) == Some(vstd::utf8::encode_utf8(s))
            &&& !(all_digits(p, 16) && p.len() % 2 == 0) && !(e == Some(Encoding::Utf8) || e
                == Some(Encoding::Utf8Cstring)) ==> literal_bytes(v, e) is None
        }),
        v is Unsigned && e is None ==> literal_bytes(v, e) is None,
        v matches YamlModel::Sequence(items) ==> literal_bytes(v, e) == byte_items(items, 0),
        v is Null || v is Bool || v is Negative || v is Float || v is Mapping ==> literal_bytes(
            v,
            e,
        ) is None,
{
}

/// A row of numbers up to 255 is the row of these bytes.
pub proof fn rows_of_numbers_are_bytes(v: Seq<YamlModel>, i: int)
    requires
        0 <= i <= v.len(),
    ensures
        byte_items(v, i) is Some <==> forall|k: int|
            i <= k < v.len() ==> unsigned_of(#[trigger] v[k]) is Some && unsigned_of(v[k])->0
                <= 255,
        byte_items(v, i) matches Some(b) ==> b.len() == v.len() - i && forall|k: int|
            i <= k < v.len() ==> b[k - i] == unsigned_of(#[trigger] v[k])->0,
    decreases v.len() - i,
{
    if i < v.len() {
        rows_of_numbers_are_bytes(v, i + 1);
        assert(unsigned_of(v[i]) == unsigned_of(v[i]));
        if byte_items(v, i) is Some {
            let b = byte_items(v, i)->0;
            let rest = byte_items(v, i + 1)->0;
            assert forall|k: int| i <= k < v.len() implies b[k - i] == unsigned_of(
                #[trigger] v[k],
            )->0 by {
                if k > i {
                    assert(b[k - i] == rest[k - (i + 1)]);
                }
            }
        }
    }
}

/// What a scope holds is a text where it is to be one; bytes, and what has no encoding, are digits
/// where they are an even number of them, and a text where not; a number is written in its encoding.
pub proof fn scopes_are_bytes(s: Seq<char>, e: Encoding)
    ensures
        scope_bytes(s, Some(Encoding::Utf8)) == Some(vstd::utf8::encode_utf8(s)),
        scope_bytes(s, Some(Encoding::Utf8Cstring)) == Some(vstd::utf8::encode_utf8(s)),
        scope_bytes(s, Some(Encoding::Ascii)) == Some(vstd::utf8::encode_utf8(s)),
        e == Encoding::Bytes || e == Encoding::BytesRaw || e == Encoding::BytesLe || e
            == Encoding::BytesBe ==> scope_bytes(s, Some(e)) == scope_bytes(s, None),
        ({
            let p = without_0x(s);
            &&& p.len() > 0 && p.len() % 2 == 0 && all_digits(p, 16) ==> scope_bytes(s, None)
                == digit_pairs(p)
            &&& !(p.len() > 0 && p.len() % 2 == 0 && all_digits(p, 16)) ==> scope_bytes(s, None)
                == Some(vstd::utf8::encode_utf8(s))
        }),
{
}

/// What is recorded of a leaf is what was observed and compared, and whether it holds; of a
/// predicate, all leaves from left to right.
pub proof fn leaves_are_recorded_as_they_are(l: Leaf, view: Map<u16, i64>)
    ensures
        leaf_record(l, view).prop == l.prop@,
        leaf_record(l, view).observed == leaf_observed(l, view),
        leaf_record(l, view).effective == leaf_effective(l, view),
        leaf_record(l, view).passed == leaf_holds(l, view),
        leaf_records(Predicate::Leaf(l), view) == seq![leaf_record(l, view)],
        explained(Predicate::Leaf(l), view).passed == leaf_holds(l, view),
        l.mask is None && l.eq is None && l.ne is None && l.lt is None && l.gt is None
            ==> test_parts(l).len() == 0,
        l.mask is Some && l.eq is Some && l.ne is None && l.lt is None && l.gt is None
            ==> test_parts(l) == seq![
            "mask 0x"@ + hex_i64(l.mask->0),
            "eq 0x"@ + hex_i64(l.eq->0),
        ],
        l.mask is None && l.eq is None && l.ne is Some && l.lt is Some && l.gt is Some
            ==> test_parts(l) == seq![
            "ne 0x"@ + hex_i64(l.ne->0),
            "lt 0x"@ + hex_i64(l.lt->0),
            "gt 0x"@ + hex_i64(l.gt->0),
        ],
{
}

/// A number is written in hexadecimal, a negative one as the number of 64 bits that it is.
pub proof fn traced_numbers_are_hexadecimal(n: i64)
    ensures
        n >= 0 ==> hex_i64(n) == digits_of(n as nat, 16),
        n < 0 ==> hex_i64(n) == digits_of((n + 0x1_0000_0000_0000_0000) as nat, 16),
{
}

/// The entries of the actions of a connection stand behind those before.
proof fn actions_listed(
    e: Seq<EntryModel>,
    connection: Seq<char>,
    actions: Seq<(ActionVerb, Action)>,
    n: int,
)
    requires
        0 <= n <= actions.len(),
    ensures
        with_actions(e, connection, actions, n).len() == e.len() + n,
        forall|k: int|
            0 <= k < e.len() ==> #[trigger] with_actions(e, connection, actions, n)[k] == e[k],
        forall|k: int|
            0 <= k < n ==> with_actions(e, connection, actions, n)[e.len() + k] == entry_model(
                connection,
                (#[trigger] actions[k]).0,
                actions[k].1,
            ),
    decreases n,
{
    if n > 0 {
        actions_listed(e, connection, actions, n - 1);
    }
}

/// The number of actions of the first `n` connections.
pub open spec fn action_count(c: Seq<(String, Connection)>, n: int) -> nat
    decreases n,
{
    if n <= 0 || n > c.len() {
        0
    } else {
        action_count(c, n - 1) + c[n - 1].1.actions.entries().len()
    }
}

/// The entries of the first connections.
proof fn connections_listed(c: Seq<(String, Connection)>, n: int)
    requires
        0 <= n <= c.len(),
    ensures
        connection_entries(c, n).len() == action_count(c, n),
        forall|i: int, k: int|
            #![trigger c[i].1.actions.entries()[k]]
            0 <= i < n && 0 <= k < c[i].1.actions.entries().len() ==> connection_entries(
                c,
                n,
            )[action_count(c, i) + k] == entry_model(
                c[i].0@,
                c[i].1.actions.entries()[k].0,
                c[i].1.actions.entries()[k].1,
            ),
        forall|i: int|
            0 <= i < n ==> action_count(c, i) + (#[trigger] c[i]).1.actions.entries().len()
                <= action_count(c, n),
    decreases n,
{
    if n > 0 {
        connections_listed(c, n - 1);
        let front = connection_entries(c, n - 1);
        let actions = c[n - 1].1.actions.entries();
        actions_listed(front, c[n - 1].0@, actions, actions.len() as int);
        let all = connection_entries(c, n);
        assert forall|i: int, k: int|
            #![trigger c[i].1.actions.entries()[k]]
            0 <= i < n && 0 <= k < c[i].1.actions.entries().len() implies all[action_count(c, i)
            + k] == entry_model(
            c[i].0@,
            c[i].1.actions.entries()[k].0,
            c[i].1.actions.entries()[k].1,
        ) by {
            if i < n - 1 {
                let x = action_count(c, i) + k;
                assert(c[i].1.actions.entries().len() + action_count(c, i) <= action_count(
                    c,
                    n - 1,
                ));
                assert(all[x] == front[x]);
            } else {
                assert(actions[k] == c[i].1.actions.entries()[k]);
            }
        }
    }
}

/// The catalog lists every action of every connection, in their order, and nothing else.
pub proof fn catalogs_list_every_action(m: CameraManifest, i: int, k: int)
    requires
        0 <= i < m.connections.entries().len(),
        0 <= k < m.connections.entries()[i].1.actions.entries().len(),
    ensures
        ({
            let c = m.connections.entries();
            let e = catalog_entries(m);
            &&& e.len() == action_count(c, c.len() as int)
            &&& action_count(c, i) + k < e.len()
            &&& e[action_count(c, i) + k] == entry_model(
                c[i].0@,
                c[i].1.actions.entries()[k].0,
                c[i].1.actions.entries()[k].1,
            )
            &&& e[action_count(c, i) + k].availability == ActionAvailability::Available
        }),
{
    let c = m.connections.entries();
    connections_listed(c, c.len() as int);
    assert(c[i] == m.connections.entries()[i]);
    assert(c[i].1.actions.entries()[k] == m.connections.entries()[i].1.actions.entries()[k]);
}

/// A parameter is written with its name, its kind and whether it is required, and with its default
/// and its bounds where it has them.
pub proof fn parameters_are_written_with_what_they_have(p: ParameterModel)
    ensures
        ({
            let m = parameter_json(p)->Object_0;
            &&& parameter_json(p) is Object
            &&& m[0] == ("name"@, JsonModel::Text(p.name))
            &&& m[1].0 == "kind"@
            &&& m[2] == ("required"@, JsonModel::Bool(p.required))
            &&& p.default is None && p.min is None && p.max is None ==> m.len() == 3
            &&& p.default is Some ==> m[3] == ("default"@, JsonModel::Unsigned(p.default->0))
            &&& p.default is None && p.min is Some ==> m[3] == (
                "min"@,
                JsonModel::Unsigned(p.min->0),
            )
            &&& p.default is Some && p.min is Some ==> m[4] == (
                "min"@,
                JsonModel::Unsigned(p.min->0),
            )
            &&& p.max is Some ==> m.last() == ("max"@, JsonModel::Unsigned(p.max->0))
        }),
{
}

/// An entry of the catalog is written with its action, its connection and its mode.
pub proof fn entries_are_written_with_what_they_say(e: EntryModel)
    ensures
        ({
            let m = entry_json(e)->Object_0;
            &&& entry_json(e) is Object
            &&& m[0] == ("actionId"@, JsonModel::Text(e.action_id))
            &&& m[1] == ("connection"@, JsonModel::Text(e.connection))
            &&& m[2] == ("mode"@, JsonModel::Text(e.mode))
            &&& m[3].0 == "supportedRoles"@ && m[3].1->Array_0.len() == e.roles.len()
            &&& m[4].0 == "parameters"@ && m[4].1->Array_0.len() == e.parameters.len()
            &&& m[5].0 == "triggers"@ && m[5].1->Array_0.len() == e.triggers.len()
        }),
{
}

} // verus!
