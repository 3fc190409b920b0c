//! YAML values, as a manifest or an index file holds them before it is read into records.

use crate::json::same_float;
use crate::text::same;
use vstd::prelude::*;

verus! {

/// A YAML number. A float is held by its canonical text.
#[derive(Debug, Clone, PartialEq, Eq)]
pub enum YamlNumber {
    Unsigned(u64),
    Negative(i64),
    Float { text: String },
}

/// A YAML value. A mapping keeps the order of its entries.
#[derive(Debug, PartialEq, Eq)]
pub enum Yaml {
    Null,
    Bool(bool),
    Number(YamlNumber),
    String(String),
    Sequence(Vec<Yaml>),
    Mapping(Vec<(Yaml, Yaml)>),
    Tagged { tag: String, value: Box<Yaml> },
}

/// What a YAML value is, apart from how it is stored.
pub enum YamlModel {
    Null,
    Bool(bool),
    Unsigned(u64),
    Negative(i64),
    Float(Seq<char>),
    Text(Seq<char>),
    Sequence(Seq<YamlModel>),
    Mapping(Seq<(YamlModel, YamlModel)>),
    Tagged(Seq<char>, Box<YamlModel>),
}

/// What a value is, apart from how it is stored.
pub open spec fn yaml_model(y: Yaml) -> YamlModel
    decreases y,
{
    match y {
        Yaml::Null => YamlModel::Null,
        Yaml::Bool(b) => YamlModel::Bool(b),
        Yaml::Number(YamlNumber::Unsigned(n)) => YamlModel::Unsigned(n),
        Yaml::Number(YamlNumber::Negative(n)) => YamlModel::Negative(n),
        Yaml::Number(YamlNumber::Float { text }) => YamlModel::Float(text@),
        Yaml::String(s) => YamlModel::Text(s@),
        Yaml::Sequence(v) => YamlModel::Sequence(
            Seq::new(
                v@.len(),
                |i: int|
                    if 0 <= i < v@.len() {
                        yaml_model(v@[i])
                    } else {
                        YamlModel::Null
                    },
            ),
        ),
        Yaml::Mapping(v) => YamlModel::Mapping(
            Seq::new(
                v@.len(),
                |i: int|
                    if 0 <= i < v@.len() {
                        (yaml_model(v@[i].0), yaml_model(v@[i].1))
                    } else {
                        (YamlModel::Null, YamlModel::Null)
                    },
            ),
        ),
        Yaml::Tagged { tag, value } => YamlModel::Tagged(tag@, Box::new(yaml_model(*value))),
    }
}

impl View for Yaml {
    type V = YamlModel;

    open spec fn view(&self) -> YamlModel {
        yaml_model(*self)
    }
}

/// The models of a row of values.
pub open spec fn item_models(v: Seq<Yaml>) -> Seq<YamlModel> {
    Seq::new(v.len(), |i: int| v[i]@)
}

/// The models of a row of entries.
pub open spec fn entry_models(v: Seq<(Yaml, Yaml)>) -> Seq<(YamlModel, YamlModel)> {
    Seq::new(v.len(), |i: int| (v[i].0@, v[i].1@))
}

/// The view of a sequence is the sequence of the views of its items.
pub proof fn sequence_view(v: Vec<Yaml>)
    ensures
        Yaml::Sequence(v)@ == YamlModel::Sequence(item_models(v@)),
{
    reveal_with_fuel(yaml_model, 2);
    assert(Yaml::Sequence(v)@->Sequence_0 == item_models(v@));
}

/// The view of a mapping is the mapping of the views of its entries.
pub proof fn mapping_view(v: Vec<(Yaml, Yaml)>)
    ensures
        Yaml::Mapping(v)@ == YamlModel::Mapping(entry_models(v@)),
{
    reveal_with_fuel(yaml_model, 2);
    assert(Yaml::Mapping(v)@->Mapping_0 == entry_models(v@));
}

/// A copy of a YAML value.
fn copy(y: &Yaml) -> (r: Yaml)
    ensures
        r@ == y@,
    decreases y,
{
    match y {
        Yaml::Null => Yaml::Null,
        Yaml::Bool(b) => Yaml::Bool(*b),
        Yaml::Number(YamlNumber::Unsigned(n)) => Yaml::Number(YamlNumber::Unsigned(*n)),
        Yaml::Number(YamlNumber::Negative(n)) => Yaml::Number(YamlNumber::Negative(*n)),
        Yaml::Number(YamlNumber::Float { text }) => Yaml::Number(
            YamlNumber::Float { text: text.clone() },
        ),
        Yaml::String(s) => Yaml::String(s.clone()),
        Yaml::Sequence(v) => {
            let mut out: Vec<Yaml> = Vec::new();
            let mut i: usize = 0;
            while i < v.len()
                invariant
                    *y == Yaml::Sequence(*v),
                    i <= v.len(),
                    out.len() == i,
                    forall|k: int| 0 <= k < i ==> (#[trigger] out@[k])@ == v@[k]@,
                decreases v.len() - i,
            {
                proof {
                    assert(decreases_to!(*y => y->Sequence_0));
                    assert(decreases_to!(v@ => v@[i as int]));
                }
                out.push(copy(&v[i]));
                i = i + 1;
            }
            proof {
                sequence_view(*v);
                sequence_view(out);
                assert(item_models(out@) == item_models(v@));
            }
            Yaml::Sequence(out)
        },
        Yaml::Mapping(v) => {
            let mut out: Vec<(Yaml, Yaml)> = Vec::new();
            let mut i: usize = 0;
            while i < v.len()
                invariant
                    *y == Yaml::Mapping(*v),
                    i <= v.len(),
                    out.len() == i,
                    forall|k: int|
                        0 <= k < i ==> (#[trigger] out@[k]).0@ == v@[k].0@ && out@[k].1@
                            == v@[k].1@,
                decreases v.len() - i,
            {
                proof {
                    assert(decreases_to!(*y => y->Mapping_0));
                    assert(decreases_to!(v@ => v@[i as int]));
                }
                out.push((copy(&v[i].0), copy(&v[i].1)));
                i = i + 1;
            }
            proof {
                mapping_view(*v);
                mapping_view(out);
                assert(entry_models(out@) == entry_models(v@));
            }
            Yaml::Mapping(out)
        },
        Yaml::Tagged { tag, value } => Yaml::Tagged {
            tag: tag.clone(),
            value: Box::new(copy(value)),
        },
    }
}

impl Clone for Yaml {
    fn clone(&self) -> (r: Self)
        ensures
            r@ == self@,
    {
        copy(self)
    }
}

/// The value within all tags.
pub open spec fn untagged(y: YamlModel) -> YamlModel
    decreases y,
{
    match y {
        YamlModel::Tagged(_, value) => untagged(*value),
        _ => y,
    }
}

/// `v` within the tags of `y`.
pub open spec fn retagged(y: YamlModel, v: YamlModel) -> YamlModel
    decreases y,
{
    match y {
        YamlModel::Tagged(tag, value) => YamlModel::Tagged(tag, Box::new(retagged(*value, v))),
        _ => v,
    }
}

/// The text that a value is.
pub open spec fn text_of(y: YamlModel) -> Option<Seq<char>> {
    match untagged(y) {
        YamlModel::Text(s) => Some(s),
        _ => None,
    }
}

/// The unsigned number that a value is.
pub open spec fn unsigned_of(y: YamlModel) -> Option<u64> {
    match untagged(y) {
        YamlModel::Unsigned(n) => Some(n),
        _ => None,
    }
}

/// The entries of the mapping that a value is.
pub open spec fn entries_of(y: YamlModel) -> Option<Seq<(YamlModel, YamlModel)>> {
    match untagged(y) {
        YamlModel::Mapping(m) => Some(m),
        _ => None,
    }
}

/// The first entry with the text `k` as its key, at `i` or after it; the length where there is none.
pub open spec fn key_index(m: Seq<(YamlModel, YamlModel)>, k: Seq<char>, i: int) -> int
    decreases m.len() - i,
{
    if i < 0 || i >= m.len() || m[i].0 == YamlModel::Text(k) {
        i
    } else {
        key_index(m, k, i + 1)
    }
}

/// The value under the text `k`.
pub open spec fn member(m: Seq<(YamlModel, YamlModel)>, k: Seq<char>) -> Option<YamlModel> {
    let i = key_index(m, k, 0);
    if i < m.len() {
        Some(m[i].1)
    } else {
        None
    }
}

/// The value under the text `k` in the mapping that a value is.
pub open spec fn field(y: YamlModel, k: Seq<char>) -> Option<YamlModel> {
    match entries_of(y) {
        Some(m) => member(m, k),
        None => None,
    }
}

/// The entries with `v` in place of the value under the text `k`.
pub open spec fn with_member(
    m: Seq<(YamlModel, YamlModel)>,
    k: Seq<char>,
    v: YamlModel,
) -> Seq<(YamlModel, YamlModel)> {
    let i = key_index(m, k, 0);
    m.update(i, (m[i].0, v))
}

/// The first entry with a key lies where the key is, and no earlier one has it.
pub proof fn key_index_bounds(m: Seq<(YamlModel, YamlModel)>, k: Seq<char>, i: int)
    requires
        0 <= i <= m.len(),
    ensures
        i <= key_index(m, k, i) <= m.len(),
        key_index(m, k, i) < m.len() ==> m[key_index(m, k, i)].0 == YamlModel::Text(k),
        forall|j: int| i <= j < key_index(m, k, i) ==> (#[trigger] m[j]).0 != YamlModel::Text(k),
    decreases m.len() - i,
{
    if i < m.len() && m[i].0 != YamlModel::Text(k) {
        key_index_bounds(m, k, i + 1);
    }
}

/// The first entry with a key is found from any start up to it.
proof fn key_index_from(m: Seq<(YamlModel, YamlModel)>, k: Seq<char>, i: int, p: int)
    requires
        0 <= i <= p <= m.len(),
        forall|j: int| i <= j < p ==> (#[trigger] m[j]).0 != YamlModel::Text(k),
        p < m.len() ==> m[p].0 == YamlModel::Text(k),
    ensures
        key_index(m, k, i) == p,
    decreases p - i,
{
    if i < p {
        assert(m[i].0 != YamlModel::Text(k));
        key_index_from(m, k, i + 1, p);
    }
}

/// Whether two YAML values are equal. The order of the entries of a mapping does not count.
pub open spec fn same_yaml(a: YamlModel, b: YamlModel) -> bool
    decreases a, 0int,
{
    match (a, b) {
        (YamlModel::Null, YamlModel::Null) => true,
        (YamlModel::Bool(x), YamlModel::Bool(y)) => x == y,
        (YamlModel::Unsigned(x), YamlModel::Unsigned(y)) => x == y,
        (YamlModel::Negative(x), YamlModel::Negative(y)) => x == y,
        (YamlModel::Float(x), YamlModel::Float(y)) => same_float(x, y),
        (YamlModel::Text(x), YamlModel::Text(y)) => x == y,
        (YamlModel::Sequence(x), YamlModel::Sequence(y)) => x.len() == y.len() && forall|i: int|
            0 <= i < x.len() ==> same_yaml(x[i], #[trigger] y[i]),
        (YamlModel::Mapping(x), YamlModel::Mapping(y)) => x.len() == y.len() && forall|i: int|
            0 <= i < x.len() ==> has_entry(#[trigger] x[i], y),
        (YamlModel::Tagged(s, x), YamlModel::Tagged(t, y)) => s == t && same_yaml(*x, *y),
        _ => false,
    }
}

/// Whether a mapping has an entry with an equal key and an equal value.
pub open spec fn has_entry(
    e: (YamlModel, YamlModel),
    m: Seq<(YamlModel, YamlModel)>,
) -> bool
    decreases e, 1int,
{
    exists|k: int|
        0 <= k < m.len() && same_yaml(e.0, (#[trigger] m[k]).0) && same_yaml(e.1, m[k].1)
}

/// Whether two YAML values are equal.
pub(crate) fn equal_yaml(a: &Yaml, b: &Yaml) -> (r: bool)
    ensures
        r == same_yaml(a@, b@),
    decreases a,
{
    match (a, b) {
        (Yaml::Null, Yaml::Null) => true,
        (Yaml::Bool(x), Yaml::Bool(y)) => *x == *y,
        (Yaml::Number(YamlNumber::Unsigned(x)), Yaml::Number(YamlNumber::Unsigned(y))) => *x == *y,
        (Yaml::Number(YamlNumber::Negative(x)), Yaml::Number(YamlNumber::Negative(y))) => *x == *y,
        (
            Yaml::Number(YamlNumber::Float { text: x }),
            Yaml::Number(YamlNumber::Float { text: y }),
        ) => {
            let x = x.as_str();
            let y = y.as_str();
            same(x, y) || ((same(x, "0.0") || same(x, "-0.0")) && (same(y, "0.0") || same(
                y,
                "-0.0",
            )))
        },
        (Yaml::String(x), Yaml::String(y)) => same(x.as_str(), y.as_str()),
        (Yaml::Sequence(x), Yaml::Sequence(y)) => {
            proof {
                sequence_view(*x);
                sequence_view(*y);
            }
            if x.len() != y.len() {
                return false;
            }
            let mut i: usize = 0;
            while i < x.len()
                invariant
                    *a == Yaml::Sequence(*x),
                    a@ == YamlModel::Sequence(item_models(x@)),
                    b@ == YamlModel::Sequence(item_models(y@)),
                    x.len() == y.len(),
                    i <= x.len(),
                    forall|k: int|
                        0 <= k < i ==> same_yaml(item_models(x@)[k], #[trigger] item_models(y@)[k]),
                decreases x.len() - i,
            {
                proof {
                    assert(decreases_to!(*a => a->Sequence_0));
                    assert(decreases_to!(x@ => x@[i as int]));
                    assert(item_models(x@)[i as int] == x@[i as int]@);
                    assert(item_models(y@)[i as int] == y@[i as int]@);
                }
                if !equal_yaml(&x[i], &y[i]) {
                    return false;
                }
                i = i + 1;
            }
            true
        },
        (Yaml::Mapping(x), Yaml::Mapping(y)) => {
            proof {
                mapping_view(*x);
                mapping_view(*y);
            }
            if x.len() != y.len() {
                return false;
            }
            let mut i: usize = 0;
            while i < x.len()
                invariant
                    *a == Yaml::Mapping(*x),
                    a@ == YamlModel::Mapping(entry_models(x@)),
                    b@ == YamlModel::Mapping(entry_models(y@)),
                    x.len() == y.len(),
                    i <= x.len(),
                    forall|k: int|
                        0 <= k < i ==> has_entry(#[trigger] entry_models(x@)[k], entry_models(y@)),
                decreases x.len() - i,
            {
                let ghost e = entry_models(x@)[i as int];
                let mut found = false;
                let mut n: usize = 0;
                while n < y.len() && !found
                    invariant
                        *a == Yaml::Mapping(*x),
                        i < x.len(),
                        n <= y.len(),
                        e == entry_models(x@)[i as int],
                        found == exists|k: int|
                            0 <= k < n && same_yaml(e.0, (#[trigger] entry_models(y@)[k]).0)
                                && same_yaml(e.1, entry_models(y@)[k].1),
                    decreases y.len() - n,
                {
                    proof {
                        assert(decreases_to!(*a => a->Mapping_0));
                        assert(decreases_to!(x@ => x@[i as int]));
                        assert(e == (x@[i as int].0@, x@[i as int].1@));
                        assert(entry_models(y@)[n as int] == (y@[n as int].0@, y@[n as int].1@));
                    }
                    found = equal_yaml(&x[i].0, &y[n].0) && equal_yaml(&x[i].1, &y[n].1);
                    n = n + 1;
                }
                assert(found == has_entry(e, entry_models(y@)));
                if !found {
                    return false;
                }
                i = i + 1;
            }
            true
        },
        (Yaml::Tagged { tag: s, value: x }, Yaml::Tagged { tag: t, value: y }) => same(
            s.as_str(),
            t.as_str(),
        ) && equal_yaml(x, y),
        _ => false,
    }
}

/// The value within all tags.
pub(crate) fn untag(y: &Yaml) -> (r: &Yaml)
    ensures
        r@ == untagged(y@),
        !(r is Tagged),
        decreases_to!(*y => *r) || *r == *y,
    decreases y,
{
    match y {
        Yaml::Tagged { value, .. } => untag(value),
        _ => y,
    }
}

/// `v` within the tags of `y`.
pub(crate) fn retag(y: &Yaml, v: Yaml) -> (r: Yaml)
    ensures
        r@ == retagged(y@, v@),
    decreases y,
{
    match y {
        Yaml::Tagged { tag, value } => Yaml::Tagged {
            tag: tag.clone(),
            value: Box::new(retag(value, v)),
        },
        _ => v,
    }
}

/// The text that a value is.
pub(crate) fn as_text(y: &Yaml) -> (r: Option<&String>)
    ensures
        text_of(y@) == match r {
            Some(s) => Some(s@),
            None => None,
        },
{
    match untag(y) {
        Yaml::String(s) => Some(s),
        _ => None,
    }
}

/// The unsigned number that a value is.
pub(crate) fn as_unsigned(y: &Yaml) -> (r: Option<u64>)
    ensures
        r == unsigned_of(y@),
{
    match untag(y) {
        Yaml::Number(YamlNumber::Unsigned(n)) => Some(*n),
        _ => None,
    }
}

/// The first entry with a text as its key; the length where there is none.
pub(crate) fn find_key(m: &Vec<(Yaml, Yaml)>, k: &str) -> (r: usize)
    ensures
        r == key_index(entry_models(m@), k@, 0),
        r <= m@.len(),
{
    let mut i: usize = 0;
    let ghost all = entry_models(m@);
    while i < m.len()
        invariant
            all == entry_models(m@),
            i <= m@.len(),
            key_index(all, k@, 0) == key_index(all, k@, i as int),
        decreases m@.len() - i,
    {
        proof {
            assert(all[i as int] == (m@[i as int].0@, m@[i as int].1@));
        }
        match &m[i].0 {
            Yaml::String(s) => {
                if same(s.as_str(), k) {
                    return i;
                }
            },
            _ => {},
        }
        i = i + 1;
    }
    i
}

/// The value under a text.
pub(crate) fn get_member<'a>(m: &'a Vec<(Yaml, Yaml)>, k: &str) -> (r: Option<&'a Yaml>)
    ensures
        member(entry_models(m@), k@) == match r {
            Some(v) => Some(v@),
            None => None,
        },
        r matches Some(v) ==> exists|i: int| 0 <= i < m@.len() && #[trigger] m@[i].1 == *v,
{
    let i: usize = find_key(m, k);
    if i < m.len() {
        Some(&m[i].1)
    } else {
        None
    }
}

/// The value under a text in the mapping that a value is.
pub(crate) fn get_field<'a>(y: &'a Yaml, k: &str) -> (r: Option<&'a Yaml>)
    ensures
        field(y@, k@) == match r {
            Some(v) => Some(v@),
            None => None,
        },
        r matches Some(v) ==> decreases_to!(*y => *v),
{
    let u = untag(y);
    match u {
        Yaml::Mapping(m) => {
            proof {
                mapping_view(*m);
            }
            let r = get_member(m, k);
            proof {
                if r is Some {
                    let i = choose|i: int| 0 <= i < m@.len() && #[trigger] m@[i].1 == *r->0;
                    assert(decreases_to!(*u => u->Mapping_0));
                    assert(decreases_to!(m@ => m@[i]));
                    assert(decreases_to!(m@[i] => m@[i].1));
                }
            }
            r
        },
        _ => None,
    }
}

/// A copy of entries.
pub(crate) fn copy_entries(m: &Vec<(Yaml, Yaml)>) -> (r: Vec<(Yaml, Yaml)>)
    ensures
        entry_models(r@) == entry_models(m@),
{
    let mut out: Vec<(Yaml, Yaml)> = Vec::new();
    let mut i: usize = 0;
    while i < m.len()
        invariant
            i <= m@.len(),
            out@.len() == i,
            forall|k: int|
                0 <= k < i ==> (#[trigger] out@[k]).0@ == m@[k].0@ && out@[k].1@ == m@[k].1@,
        decreases m@.len() - i,
    {
        out.push((copy(&m[i].0), copy(&m[i].1)));
        i = i + 1;
    }
    proof {
        assert(entry_models(out@) == entry_models(m@));
    }
    out
}

/// Puts `v` in place of the value under a text.
pub(crate) fn set_member(m: &mut Vec<(Yaml, Yaml)>, k: &str, v: Yaml)
    requires
        key_index(entry_models(old(m)@), k@, 0) < old(m)@.len(),
    ensures
        entry_models(final(m)@) == with_member(entry_models(old(m)@), k@, v@),
{
    let i: usize = find_key(m, k);
    let ghost before = m@;
    m[i].1 = v;
    proof {
        assert(entry_models(m@) == with_member(entry_models(before), k@, v@));
    }
}

/// A mapping with one entry taken out, and the last one in its place.
pub open spec fn swap_removed(
    m: Seq<(YamlModel, YamlModel)>,
    i: int,
) -> Seq<(YamlModel, YamlModel)> {
    m.update(i, m.last()).drop_last()
}

/// The first entry with a key equal to `k`, at `i` or after it; the length where there is none.
pub open spec fn equal_key(m: Seq<(YamlModel, YamlModel)>, k: YamlModel, i: int) -> int
    decreases m.len() - i,
{
    if i < 0 || i >= m.len() || same_yaml(m[i].0, k) {
        i
    } else {
        equal_key(m, k, i + 1)
    }
}

/// An overlay on a base. Mappings are merged key by key, anything else is replaced.
pub open spec fn merged(base: YamlModel, overlay: YamlModel) -> YamlModel
    decreases overlay, 0int,
{
    match (base, overlay) {
        (YamlModel::Mapping(b), YamlModel::Mapping(o)) => YamlModel::Mapping(
            merged_entries(b, o, 0),
        ),
        _ => overlay,
    }
}

/// The entries of an overlay, from `i` on, put on those of a base. A merged entry moves behind the
/// others.
pub open spec fn merged_entries(
    b: Seq<(YamlModel, YamlModel)>,
    o: Seq<(YamlModel, YamlModel)>,
    i: int,
) -> Seq<(YamlModel, YamlModel)>
    decreases o, o.len() - i,
{
    if i < 0 || i >= o.len() {
        b
    } else {
        let p = equal_key(b, o[i].0, 0);
        let next = if p < b.len() {
            swap_removed(b, p).push((o[i].0, merged(b[p].1, o[i].1)))
        } else {
            b.push(o[i])
        };
        merged_entries(next, o, i + 1)
    }
}

/// The first entry with an equal key; the length where there is none.
fn find_equal(m: &Vec<(Yaml, Yaml)>, k: &Yaml) -> (r: usize)
    ensures
        r == equal_key(entry_models(m@), k@, 0),
        r <= m@.len(),
{
    let mut i: usize = 0;
    let ghost all = entry_models(m@);
    while i < m.len()
        invariant
            all == entry_models(m@),
            i <= m@.len(),
            equal_key(all, k@, 0) == equal_key(all, k@, i as int),
        decreases m@.len() - i,
    {
        proof {
            assert(all[i as int] == (m@[i as int].0@, m@[i as int].1@));
        }
        if equal_yaml(&m[i].0, k) {
            return i;
        }
        i = i + 1;
    }
    i
}

/// Puts an overlay on a base: mappings are merged key by key, anything else is replaced by the
/// overlay.
pub fn merge_yaml(base: Yaml, overlay: &Yaml) -> (r: Yaml)
    ensures
        r@ == merged(base@, overlay@),
    decreases overlay,
{
    match (base, overlay) {
        (Yaml::Mapping(base_entries), Yaml::Mapping(o)) => {
            let ghost start = entry_models(base_entries@);
            let ghost all = entry_models(o@);
            proof {
                mapping_view(base_entries);
                mapping_view(*o);
            }
            let mut b = base_entries;
            let mut i: usize = 0;
            while i < o.len()
                invariant
                    *overlay == Yaml::Mapping(*o),
                    all == entry_models(o@),
                    i <= o@.len(),
                    merged_entries(start, all, 0) == merged_entries(
                        entry_models(b@),
                        all,
                        i as int,
                    ),
                decreases o@.len() - i,
            {
                proof {
                    assert(decreases_to!(*overlay => overlay->Mapping_0));
                    assert(decreases_to!(o@ => o@[i as int]));
                    assert(all[i as int] == (o@[i as int].0@, o@[i as int].1@));
                }
                let ghost before = b@;
                let p: usize = find_equal(&b, &o[i].0);
                if p < b.len() {
                    let (_, under) = b.swap_remove(p);
                    proof {
                        assert(entry_models(b@) == swap_removed(entry_models(before), p as int));
                    }
                    let value = merge_yaml(under, &o[i].1);
                    let ghost kept = b@;
                    b.push((copy(&o[i].0), value));
                    proof {
                        assert(entry_models(b@) == entry_models(kept).push(
                            (o@[i as int].0@, value@),
                        ));
                    }
                } else {
                    b.push((copy(&o[i].0), copy(&o[i].1)));
                    proof {
                        assert(entry_models(b@) == entry_models(before).push(all[i as int]));
                    }
                }
                i = i + 1;
            }
            proof {
                mapping_view(b);
            }
            Yaml::Mapping(b)
        },
        (_, _) => copy(overlay),
    }
}

/// Whether the keys of a mapping are texts, each once.
pub open spec fn text_keys(m: Seq<(YamlModel, YamlModel)>) -> bool {
    &&& forall|i: int| 0 <= i < m.len() ==> (#[trigger] m[i]).0 is Text
    &&& forall|i: int, j: int|
        #![trigger m[i], m[j]]
        0 <= i < m.len() && 0 <= j < m.len() && m[i].0 == m[j].0 ==> i == j
}

/// An entry is what its key gives.
proof fn member_found(m: Seq<(YamlModel, YamlModel)>, i: int)
    requires
        text_keys(m),
        0 <= i < m.len(),
    ensures
        member(m, m[i].0->Text_0) == Some(m[i].1),
{
    let k = m[i].0->Text_0;
    assert forall|j: int| 0 <= j < i implies (#[trigger] m[j]).0 != YamlModel::Text(k) by {
        assert(m[i].0 == YamlModel::Text(k));
    }
    key_index_from(m, k, 0, i);
}

/// What a key gives is an entry.
proof fn member_entry(m: Seq<(YamlModel, YamlModel)>, k: Seq<char>) -> (i: int)
    requires
        member(m, k) is Some,
    ensures
        0 <= i < m.len(),
        m[i] == (YamlModel::Text(k), member(m, k)->0),
{
    key_index_bounds(m, k, 0);
    key_index(m, k, 0)
}

/// The first entry with a key equal to a text is the first with that text.
proof fn equal_text_key(m: Seq<(YamlModel, YamlModel)>, k: Seq<char>, i: int)
    requires
        text_keys(m),
        0 <= i,
    ensures
        equal_key(m, YamlModel::Text(k), i) == key_index(m, k, i),
    decreases m.len() - i,
{
    if i < m.len() {
        assert(m[i].0 is Text);
        assert(same_yaml(m[i].0, YamlModel::Text(k)) == (m[i].0 == YamlModel::Text(k)));
        if m[i].0 != YamlModel::Text(k) {
            equal_text_key(m, k, i + 1);
        }
    }
}

/// The entries after one entry of the overlay.
pub open spec fn overlaid(
    b: Seq<(YamlModel, YamlModel)>,
    e: (YamlModel, YamlModel),
) -> Seq<(YamlModel, YamlModel)> {
    let p = equal_key(b, e.0, 0);
    if p < b.len() {
        swap_removed(b, p).push((e.0, merged(b[p].1, e.1)))
    } else {
        b.push(e)
    }
}

/// The value under a key in two mappings merged.
pub open spec fn merged_member(
    b: Option<YamlModel>,
    o: Option<YamlModel>,
) -> Option<YamlModel> {
    match (b, o) {
        (Some(x), Some(y)) => Some(merged(x, y)),
        (None, Some(y)) => Some(y),
        (x, None) => x,
    }
}

/// One entry of the overlay changes what its key gives, and nothing else.
proof fn overlaid_member(b: Seq<(YamlModel, YamlModel)>, e: (YamlModel, YamlModel), k: Seq<char>)
    requires
        text_keys(b),
        e.0 is Text,
    ensures
        text_keys(overlaid(b, e)),
        member(overlaid(b, e), k) == (if e.0 == YamlModel::Text(k) {
            merged_member(member(b, k), Some(e.1))
        } else {
            member(b, k)
        }),
{
    let own = e.0->Text_0;
    let r = overlaid(b, e);
    let n = b.len() as int;
    equal_text_key(b, own, 0);
    key_index_bounds(b, own, 0);
    let p = key_index(b, own, 0);
    if p < n {
        assert(r.len() == n);
        assert forall|j: int| 0 <= j < n - 1 implies #[trigger] r[j] == (if j == p {
            b[n - 1]
        } else {
            b[j]
        }) by {}
        assert forall|i: int, j: int|
            #![trigger r[i], r[j]]
            0 <= i < r.len() && 0 <= j < r.len() && r[i].0 == r[j].0 implies i == j by {
            let x = if i == n - 1 {
                p
            } else if i == p {
                n - 1
            } else {
                i
            };
            let y = if j == n - 1 {
                p
            } else if j == p {
                n - 1
            } else {
                j
            };
            assert(r[i].0 == b[x].0);
            assert(r[j].0 == b[y].0);
        }
        assert(text_keys(r));
        if e.0 == YamlModel::Text(k) {
            member_found(r, n - 1);
        } else if member(b, k) is Some {
            let i = member_entry(b, k);
            let j = if i == n - 1 {
                p
            } else {
                i
            };
            assert(i != p);
            assert(r[j] == b[i]);
            member_found(r, j);
        } else if member(r, k) is Some {
            let j = member_entry(r, k);
            let i = if j == p {
                n - 1
            } else {
                j
            };
            assert(r[j] == b[i]);
            member_found(b, i);
        }
    } else {
        assert forall|i: int, j: int|
            #![trigger r[i], r[j]]
            0 <= i < r.len() && 0 <= j < r.len() && r[i].0 == r[j].0 implies i == j by {
            if i < n && j < n {
                assert(r[i] == b[i] && r[j] == b[j]);
            } else if i < n {
                assert(b[i].0 != YamlModel::Text(own));
            } else if j < n {
                assert(b[j].0 != YamlModel::Text(own));
            }
        }
        assert(text_keys(r));
        if e.0 == YamlModel::Text(k) {
            assert(member(b, k) is None);
            member_found(r, n);
        } else if member(b, k) is Some {
            let i = member_entry(b, k);
            assert(r[i] == b[i]);
            member_found(r, i);
        } else if member(r, k) is Some {
            let j = member_entry(r, k);
            assert(r[j] == b[j]);
            member_found(b, j);
        }
    }
}

/// The entries of the overlay from `i` on change what their keys give, and nothing else.
proof fn merged_from(
    b: Seq<(YamlModel, YamlModel)>,
    o: Seq<(YamlModel, YamlModel)>,
    i: int,
    k: Seq<char>,
)
    requires
        text_keys(b),
        text_keys(o),
        0 <= i <= o.len(),
    ensures
        text_keys(merged_entries(b, o, i)),
        member(merged_entries(b, o, i), k) == (if key_index(o, k, i) < o.len() {
            merged_member(member(b, k), Some(o[key_index(o, k, i)].1))
        } else {
            member(b, k)
        }),
    decreases o.len() - i,
{
    if i < o.len() {
        assert(o[i].0 is Text);
        overlaid_member(b, o[i], k);
        let next = overlaid(b, o[i]);
        merged_from(next, o, i + 1, k);
        key_index_bounds(o, k, i + 1);
        let j = key_index(o, k, i + 1);
        if o[i].0 == YamlModel::Text(k) && j < o.len() {
            assert(o[j].0 == o[i].0);
        }
    }
}

/// Merging two mappings merges what they hold under a key, and keeps what only one of them holds.
pub proof fn merge_is_memberwise(
    b: Seq<(YamlModel, YamlModel)>,
    o: Seq<(YamlModel, YamlModel)>,
    k: Seq<char>,
)
    requires
        text_keys(b),
        text_keys(o),
    ensures
        merged(YamlModel::Mapping(b), YamlModel::Mapping(o)) matches YamlModel::Mapping(r)
            && text_keys(r) && member(r, k) == merged_member(member(b, k), member(o, k)),
{
    merged_from(b, o, 0, k);
}

} // verus!
