//! What capability records claim, apart from how it is stored.

use crate::json::{equal_json, models, same_json, Json, JsonModel};
use crate::observation::{
    CapabilityDescriptor, CapabilityValueProfile, CapabilityValueProfileRow, ExecutionContext,
};
use crate::text::{copy_option, copy_texts, optional_text, same, same_option, same_texts, views};
use vstd::prelude::*;

verus! {

/// A scope: its connection, its mode and its state.
pub type Scope = (Seq<char>, Seq<char>, Seq<char>);

impl View for ExecutionContext {
    type V = Scope;

    open spec fn view(&self) -> Scope {
        (self.connection@, self.mode@, self.state@)
    }
}

/// What a row of a value profile says.
pub struct RowModel {
    pub label: Seq<char>,
    pub raw: i64,
    pub legal: bool,
    pub aliases: Seq<i64>,
    pub write_store_raw: Option<i64>,
}

impl View for CapabilityValueProfileRow {
    type V = RowModel;

    open spec fn view(&self) -> RowModel {
        RowModel {
            label: self.label@,
            raw: self.raw,
            legal: self.legal,
            aliases: self.aliases@,
            write_store_raw: self.write_store_raw,
        }
    }
}

/// What the rows of a value profile say.
pub open spec fn row_models(v: Seq<CapabilityValueProfileRow>) -> Seq<RowModel> {
    Seq::new(v.len(), |i: int| v[i]@)
}

/// What a value profile says.
pub struct ProfileModel {
    pub connection: Option<Seq<char>>,
    pub mode: Option<Seq<char>>,
    pub rows: Seq<RowModel>,
    pub evidence: Seq<Seq<char>>,
}

impl View for CapabilityValueProfile {
    type V = ProfileModel;

    open spec fn view(&self) -> ProfileModel {
        ProfileModel {
            connection: optional_text(self.connection),
            mode: optional_text(self.mode),
            rows: row_models(self.rows@),
            evidence: views(self.evidence@),
        }
    }
}

/// What a descriptor says.
pub struct DescriptorModel {
    pub form: Seq<char>,
    pub values: Seq<JsonModel>,
}

impl View for CapabilityDescriptor {
    type V = DescriptorModel;

    open spec fn view(&self) -> DescriptorModel {
        DescriptorModel { form: self.form@, values: models(self.values@) }
    }
}

/// Whether two contexts are the same.
pub(crate) fn same_context(a: &ExecutionContext, b: &ExecutionContext) -> (r: bool)
    ensures
        r == (a@ == b@),
{
    same(a.connection.as_str(), b.connection.as_str()) && same(a.mode.as_str(), b.mode.as_str())
        && same(a.state.as_str(), b.state.as_str())
}

/// A copy of a context.
pub(crate) fn copy_context(c: &ExecutionContext) -> (r: ExecutionContext)
    ensures
        r == *c,
{
    ExecutionContext {
        connection: c.connection.clone(),
        mode: c.mode.clone(),
        state: c.state.clone(),
    }
}

/// Whether two rows of numbers are the same.
fn same_numbers(a: &Vec<i64>, b: &Vec<i64>) -> (r: bool)
    ensures
        r == (a@ == b@),
{
    if a.len() != b.len() {
        return false;
    }
    let mut i: usize = 0;
    while i < a.len()
        invariant
            a.len() == b.len(),
            i <= a.len(),
            forall|k: int| 0 <= k < i ==> #[trigger] a@[k] == b@[k],
        decreases a.len() - i,
    {
        if a[i] != b[i] {
            return false;
        }
        i = i + 1;
    }
    proof {
        assert(a@ == b@);
    }
    true
}

/// A copy of a row of numbers.
pub(crate) fn copy_numbers(v: &Vec<i64>) -> (r: Vec<i64>)
    ensures
        r@ == v@,
{
    let mut out: Vec<i64> = Vec::new();
    let mut i: usize = 0;
    while i < v.len()
        invariant
            i <= v.len(),
            out@ == v@.take(i as int),
        decreases v.len() - i,
    {
        out.push(v[i]);
        i = i + 1;
    }
    proof {
        assert(v@.take(v@.len() as int) == v@);
    }
    out
}

/// Whether two rows of profile rows are the same.
pub(crate) fn same_rows(
    a: &Vec<CapabilityValueProfileRow>,
    b: &Vec<CapabilityValueProfileRow>,
) -> (r: bool)
    ensures
        r == (row_models(a@) == row_models(b@)),
{
    if a.len() != b.len() {
        proof {
            assert(row_models(a@).len() != row_models(b@).len());
        }
        return false;
    }
    let mut i: usize = 0;
    while i < a.len()
        invariant
            a.len() == b.len(),
            i <= a.len(),
            forall|k: int| 0 <= k < i ==> #[trigger] row_models(a@)[k] == row_models(b@)[k],
        decreases a.len() - i,
    {
        let x = &a[i];
        let y = &b[i];
        proof {
            assert(row_models(a@)[i as int] == x@);
            assert(row_models(b@)[i as int] == y@);
        }
        if !(same(x.label.as_str(), y.label.as_str()) && x.raw == y.raw && x.legal == y.legal
            && same_numbers(&x.aliases, &y.aliases) && x.write_store_raw == y.write_store_raw) {
            return false;
        }
        i = i + 1;
    }
    proof {
        assert(row_models(a@) == row_models(b@));
    }
    true
}

/// A copy of a row of profile rows.
fn copy_rows(v: &Vec<CapabilityValueProfileRow>) -> (r: Vec<CapabilityValueProfileRow>)
    ensures
        row_models(r@) == row_models(v@),
{
    let mut out: Vec<CapabilityValueProfileRow> = Vec::new();
    let mut i: usize = 0;
    proof {
        assert(row_models(out@) == row_models(v@).take(0));
    }
    while i < v.len()
        invariant
            i <= v.len(),
            row_models(out@) == row_models(v@).take(i as int),
        decreases v.len() - i,
    {
        let ghost before = out@;
        out.push(
            CapabilityValueProfileRow {
                label: v[i].label.clone(),
                raw: v[i].raw,
                legal: v[i].legal,
                aliases: copy_numbers(&v[i].aliases),
                write_store_raw: v[i].write_store_raw,
            },
        );
        proof {
            assert(out@.last()@ == v@[i as int]@);
            assert(row_models(out@) == row_models(before).push(v@[i as int]@));
            assert(row_models(v@).take(i + 1) == row_models(v@).take(i as int).push(
                row_models(v@)[i as int],
            ));
        }
        i = i + 1;
    }
    proof {
        assert(row_models(v@).take(v@.len() as int) == row_models(v@));
    }
    out
}

/// Whether two value profiles are the same.
pub(crate) fn same_profile(a: &CapabilityValueProfile, b: &CapabilityValueProfile) -> (r: bool)
    ensures
        r == (a@ == b@),
{
    same_option(&a.connection, &b.connection) && same_option(&a.mode, &b.mode) && same_rows(
        &a.rows,
        &b.rows,
    ) && same_texts(&a.evidence, &b.evidence)
}

/// A copy of a value profile.
pub(crate) fn copy_profile(p: &CapabilityValueProfile) -> (r: CapabilityValueProfile)
    ensures
        r@ == p@,
{
    CapabilityValueProfile {
        connection: copy_option(&p.connection),
        mode: copy_option(&p.mode),
        rows: copy_rows(&p.rows),
        evidence: copy_texts(&p.evidence),
    }
}

/// Whether two descriptors are the same.
pub open spec fn same_descriptor(a: DescriptorModel, b: DescriptorModel) -> bool {
    a.form == b.form && a.values.len() == b.values.len() && forall|i: int|
        0 <= i < a.values.len() ==> same_json(#[trigger] a.values[i], b.values[i])
}

/// Whether two descriptors are the same.
pub(crate) fn equal_descriptor(a: &CapabilityDescriptor, b: &CapabilityDescriptor) -> (r: bool)
    ensures
        r == same_descriptor(a@, b@),
{
    if !same(a.form.as_str(), b.form.as_str()) || a.values.len() != b.values.len() {
        return false;
    }
    let mut i: usize = 0;
    while i < a.values.len()
        invariant
            a.values@.len() == b.values@.len(),
            i <= a.values@.len(),
            forall|k: int|
                0 <= k < i ==> same_json(#[trigger] models(a.values@)[k], models(b.values@)[k]),
        decreases a.values@.len() - i,
    {
        proof {
            assert(models(a.values@)[i as int] == a.values@[i as int]@);
            assert(models(b.values@)[i as int] == b.values@[i as int]@);
        }
        if !equal_json(&a.values[i], &b.values[i]) {
            return false;
        }
        i = i + 1;
    }
    true
}

/// A copy of a descriptor.
pub(crate) fn copy_descriptor(d: &CapabilityDescriptor) -> (r: CapabilityDescriptor)
    ensures
        r@ == d@,
{
    let mut out: Vec<Json> = Vec::new();
    let mut i: usize = 0;
    proof {
        assert(models(out@) == models(d.values@).take(0));
    }
    while i < d.values.len()
        invariant
            i <= d.values@.len(),
            models(out@) == models(d.values@).take(i as int),
        decreases d.values@.len() - i,
    {
        let ghost before = out@;
        out.push(d.values[i].clone());
        proof {
            assert(models(out@) == models(before).push(d.values@[i as int]@));
            assert(models(d.values@).take(i + 1) == models(d.values@).take(i as int).push(
                models(d.values@)[i as int],
            ));
        }
        i = i + 1;
    }
    proof {
        assert(models(d.values@).take(d.values@.len() as int) == models(d.values@));
    }
    CapabilityDescriptor { form: d.form.clone(), values: out }
}

} // verus!
