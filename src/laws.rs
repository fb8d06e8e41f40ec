//! Properties that relate the analysis functions to one another.
use vstd::prelude::*;
use crate::analysis::{
    bound_assoc, bound_override, bound_params, class_of, field_refs, needed_params,
    used_by_fields, FieldClass,
};
use crate::builder::{missing_upto, BuilderState};
use crate::plan::{builder_field, builder_outcome, debug_templates, BuilderField};
use crate::schema::{params_of, scan, TypeDescriptor};
use crate::type_expr::{
    assoc_refs, children, dedup, holds_same, idents, is_assoc_ref, is_bare_marker,
    is_param, kind_of, lemma_children_decrease, mentioned_below, mentions, path_of, same_below,
    same_type, TypeExpr,
};

verus! {

/// Planning depends on the description alone: equal descriptions give
/// equal classifications, bounds and plans.
pub proof fn plans_are_deterministic(d1: TypeDescriptor, d2: TypeDescriptor)
    requires
        d1 == d2,
    ensures
        builder_outcome(d1) == builder_outcome(d2),
        bound_override(d1) == bound_override(d2),
        debug_templates(d1, d1.fields@.len()) == debug_templates(d2, d2.fields@.len()),
        bound_params(d1) == bound_params(d2),
        bound_assoc(d1) == bound_assoc(d2),
{
}

/// Every field type gets exactly one of the four classes.
pub proof fn classification_is_total(t: TypeExpr, params: Seq<Seq<char>>)
    ensures
        class_of(t, params) == FieldClass::Required || class_of(t, params) == FieldClass::Optional
            || class_of(t, params) == FieldClass::Repeated || class_of(t, params)
            == FieldClass::Marker,
{
}

proof fn lemma_same_below_refl(t: TypeExpr, n: nat)
    requires
        n <= children(t).len(),
    ensures
        same_below(t, t, n),
    decreases t, n,
{
    if n > 0 {
        lemma_same_below_refl(t, (n - 1) as nat);
        let c = children(t)[n - 1];
        lemma_children_decrease(t, n - 1);
        lemma_same_below_refl(c, children(c).len());
    }
}

/// Every type is the same as itself.
pub proof fn lemma_same_type_refl(t: TypeExpr)
    ensures
        same_type(t, t),
{
    lemma_same_below_refl(t, children(t).len());
}

proof fn lemma_dedup_keeps(s: Seq<TypeExpr>, j: int)
    requires
        0 <= j < s.len(),
    ensures
        holds_same(dedup(s), s[j]),
    decreases s.len(),
{
    let d = dedup(s.drop_last());
    if j == s.len() - 1 {
        if !holds_same(d, s.last()) {
            lemma_same_type_refl(s.last());
            assert(d.push(s.last())[d.len() as int] == s.last());
        }
    } else {
        lemma_dedup_keeps(s.drop_last(), j);
        assert(s.drop_last()[j] == s[j]);
        let w = choose|w: int| 0 <= w < d.len() && same_type(d[w], s[j]);
        assert(d.push(s.last())[w] == d[w]);
    }
}

proof fn lemma_field_refs_hold(d: TypeDescriptor, n: nat, i: int)
    requires
        0 <= i < n <= d.fields@.len(),
        is_assoc_ref(d.fields@[i].ty, params_of(d)),
    ensures
        field_refs(d.fields@, n, params_of(d)).contains(d.fields@[i].ty),
    decreases n,
{
    let ps = params_of(d);
    let prev = field_refs(d.fields@, (n - 1) as nat, ps);
    let t = d.fields@[n - 1].ty;
    if i == n - 1 {
        let s = prev + assoc_refs(t, ps);
        assert(s[s.len() - 1] == t);
    } else {
        lemma_field_refs_hold(d, (n - 1) as nat, i);
        let w = choose|w: int| 0 <= w < prev.len() && prev[w] == d.fields@[i].ty;
        assert((prev + assoc_refs(t, ps))[w] == prev[w]);
    }
}

proof fn lemma_needed_params(d: TypeDescriptor, n: nat, k: int)
    requires
        n <= d.generics@.len(),
        0 <= k < n,
        n <= usize::MAX,
    ensures
        needed_params(d, n).contains(k as usize) == used_by_fields(d.fields@, d.generics@[k]@),
    decreases n,
{
    lemma_needed_params_below(d, n);
    let prev = needed_params(d, (n - 1) as nat);
    lemma_needed_params_below(d, (n - 1) as nat);
    if k < n - 1 {
        lemma_needed_params(d, (n - 1) as nat, k);
        if prev.contains(k as usize) {
            let w = choose|w: int| 0 <= w < prev.len() && prev[w] == k as usize;
            assert(needed_params(d, n)[w] == prev[w]);
        }
        if needed_params(d, n).contains(k as usize) {
            let w = choose|w: int| 0 <= w < needed_params(d, n).len() && needed_params(d, n)[w] == k as usize;
            if w >= prev.len() {
                assert(needed_params(d, n)[w] == (n - 1) as usize);
            } else {
                assert(prev[w] == k as usize);
            }
        }
    } else {
        if used_by_fields(d.fields@, d.generics@[k]@) {
            assert(needed_params(d, n)[prev.len() as int] == k as usize);
        } else {
            assert(needed_params(d, n) == prev);
            assert(!prev.contains(k as usize));
        }
    }
}

proof fn lemma_needed_params_below(d: TypeDescriptor, n: nat)
    requires
        n <= d.generics@.len(),
        n <= usize::MAX,
    ensures
        forall|j: int| 0 <= j < needed_params(d, n).len() ==> (needed_params(d, n)[j] as int) < n,
    decreases n,
{
    if n > 0 {
        lemma_needed_params_below(d, (n - 1) as nat);
        let prev = needed_params(d, (n - 1) as nat);
        let cur = needed_params(d, n);
        assert forall|j: int| 0 <= j < cur.len() implies (cur[j] as int) < n by {
            if j < prev.len() {
                assert(cur[j] == prev[j]);
            }
        }
    }
}

/// A type parameter used only as `PhantomData<P>` gets no formatting bound.
pub proof fn marker_only_param_is_not_bound(d: TypeDescriptor, k: int)
    requires
        0 <= k < d.generics@.len(),
        forall|j: int|
            0 <= j < d.fields@.len() ==> is_bare_marker(#[trigger] d.fields@[j].ty) || !mentions(
                d.fields@[j].ty,
                d.generics@[k]@,
            ),
    ensures
        !bound_params(d).contains(k as usize),
{
    assert(d.generics.len() <= usize::MAX);
    lemma_needed_params(d, d.generics@.len(), k);
}

/// A field of type `P::Assoc` puts the obligation on `P::Assoc` itself, and
/// none on `P` when no other field uses `P` directly.
pub proof fn assoc_field_bounds_assoc_type(d: TypeDescriptor, i: int, k: int)
    requires
        0 <= i < d.fields@.len(),
        0 <= k < d.generics@.len(),
        kind_of(d.fields@[i].ty) == 0,
        path_of(d.fields@[i].ty).len() >= 2,
        path_of(d.fields@[i].ty)[0] == d.generics@[k]@,
        children(d.fields@[i].ty).len() == 0,
        forall|j: int|
            0 <= j < d.fields@.len() && j != i ==> !mentions(
                #[trigger] d.fields@[j].ty,
                d.generics@[k]@,
            ),
    ensures
        holds_same(bound_assoc(d), d.fields@[i].ty),
        !bound_params(d).contains(k as usize),
{
    let t = d.fields@[i].ty;
    assert(idents(d.generics@)[k] == d.generics@[k]@);
    assert(is_param(path_of(t)[0], params_of(d)));
    lemma_field_refs_hold(d, d.fields@.len(), i);
    let refs = field_refs(d.fields@, d.fields@.len(), params_of(d));
    let w = choose|w: int| 0 <= w < refs.len() && refs[w] == t;
    lemma_dedup_keeps(refs, w);
    assert(!mentioned_below(t, 0, d.generics@[k]@));
    assert(!mentions(t, d.generics@[k]@));
    assert(d.generics.len() <= usize::MAX);
    lemma_needed_params(d, d.generics@.len(), k);
}

/// The bound override, when present, decides the bounds whatever the
/// fields are: descriptions with the same type annotations get the same
/// outcome.
pub proof fn override_ignores_fields(d1: TypeDescriptor, d2: TypeDescriptor)
    requires
        d1.attributes@ == d2.attributes@,
    ensures
        bound_override(d1) == bound_override(d2),
{
}

/// On a `Vec<T>` field, an appender named like the field itself adds no
/// appender: the field gets the bulk setter alone.
pub proof fn self_named_alias_adds_no_appender(d: TypeDescriptor, i: int, k: usize)
    requires
        0 <= i < d.fields@.len(),
        scan(
            d.fields@[i].attributes@,
            d.fields@[i].attributes@.len(),
            "each"@,
            Some(i as usize),
        ) == Ok::<Option<usize>, crate::schema::ConfigError>(Some(k)),
        d.fields@[i].attributes@[k as int].value@ == d.fields@[i].name@,
        class_of(d.fields@[i].ty, params_of(d)) == FieldClass::Repeated,
    ensures
        builder_field(d, i) == Ok::<BuilderField, crate::schema::ConfigError>(
            BuilderField { class: FieldClass::Repeated, appender: None },
        ),
{
}

proof fn lemma_missing_upto<V>(classes: Seq<FieldClass>, slots: Seq<Vec<V>>, n: nat, x: int)
    requires
        0 <= x < n <= slots.len(),
        n <= usize::MAX,
    ensures
        missing_upto(classes, slots, n).contains(x as usize) == (classes[x] == FieldClass::Required
            && slots[x]@.len() == 0),
    decreases n,
{
    lemma_missing_below(classes, slots, n);
    let prev = missing_upto(classes, slots, (n - 1) as nat);
    let cur = missing_upto(classes, slots, n);
    lemma_missing_below(classes, slots, (n - 1) as nat);
    if x < n - 1 {
        lemma_missing_upto(classes, slots, (n - 1) as nat, x);
        if prev.contains(x as usize) {
            let w = choose|w: int| 0 <= w < prev.len() && prev[w] == x as usize;
            assert(cur[w] == prev[w]);
        }
        if cur.contains(x as usize) {
            let w = choose|w: int| 0 <= w < cur.len() && cur[w] == x as usize;
            if w >= prev.len() {
                assert(cur[w] == (n - 1) as usize);
            } else {
                assert(prev[w] == x as usize);
            }
        }
    } else {
        if classes[x] == FieldClass::Required && slots[x]@.len() == 0 {
            assert(cur[prev.len() as int] == x as usize);
        } else {
            assert(cur == prev);
            assert(!prev.contains(x as usize));
        }
    }
}

proof fn lemma_missing_below<V>(classes: Seq<FieldClass>, slots: Seq<Vec<V>>, n: nat)
    requires
        n <= usize::MAX,
    ensures
        forall|j: int|
            0 <= j < missing_upto(classes, slots, n).len() ==> (missing_upto(classes, slots, n)[j] as int)
                < n,
    decreases n,
{
    if n > 0 {
        lemma_missing_below(classes, slots, (n - 1) as nat);
        let prev = missing_upto(classes, slots, (n - 1) as nat);
        let cur = missing_upto(classes, slots, n);
        assert forall|j: int| 0 <= j < cur.len() implies (cur[j] as int) < n by {
            if j < prev.len() {
                assert(cur[j] == prev[j]);
            }
        }
    }
}

/// A required field that was never set is reported when the value is built.
pub proof fn unset_required_field_is_reported<V>(b: BuilderState<V>, x: int)
    requires
        b.wf(),
        0 <= x < b.slots@.len(),
        b.classes@[x] == FieldClass::Required,
        b.slots@[x]@.len() == 0,
    ensures
        b.missing().contains(x as usize),
{
    assert(b.slots.len() <= usize::MAX);
    lemma_missing_upto(b.classes@, b.slots@, b.slots@.len(), x);
}

/// An optional field that was never set is not reported: it is built absent.
pub proof fn unset_optional_field_is_not_reported<V>(b: BuilderState<V>, x: int)
    requires
        b.wf(),
        0 <= x < b.slots@.len(),
        b.classes@[x] == FieldClass::Optional,
    ensures
        !b.missing().contains(x as usize),
{
    assert(b.slots.len() <= usize::MAX);
    lemma_missing_upto(b.classes@, b.slots@, b.slots@.len(), x);
}

} // verus!
