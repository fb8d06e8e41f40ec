use vstd::prelude::*;
use crate::analysis::FieldClass;
use crate::plan::{BuilderField, BuilderPlan};

verus! {

/// The storage of a builder that follows a plan: for each field, the values
/// given so far. A `Required` or `Optional` field holds at most one value, a
/// `Repeated` field any number, a `Marker` none.
pub struct BuilderState<V> {
    pub classes: Vec<FieldClass>,
    pub slots: Vec<Vec<V>>,
}

/// The indices among the first `n` fields that are required and unset.
pub open spec fn missing_upto<V>(classes: Seq<FieldClass>, slots: Seq<Vec<V>>, n: nat) -> Seq<usize>
    decreases n,
{
    if n == 0 {
        Seq::empty()
    } else {
        missing_upto(classes, slots, (n - 1) as nat) + if classes[n - 1] == FieldClass::Required
            && slots[n - 1]@.len() == 0 {
            seq![(n - 1) as usize]
        } else {
            Seq::empty()
        }
    }
}

impl<V> BuilderState<V> {
    /// One slot per class; single-valued slots hold at most one value, and
    /// marker slots none.
    pub open spec fn wf(&self) -> bool {
        &&& self.classes@.len() == self.slots@.len()
        &&& forall|i: int|
            0 <= i < self.slots@.len() && self.classes@[i] != FieldClass::Repeated ==> (
            #[trigger] self.slots@[i])@.len() <= 1
        &&& forall|i: int|
            0 <= i < self.slots@.len() && self.classes@[i] == FieldClass::Marker ==> (
            #[trigger] self.slots@[i])@.len() == 0
    }

    /// The required fields that are still unset, in declaration order.
    pub open spec fn missing(&self) -> Seq<usize> {
        missing_upto(self.classes@, self.slots@, self.slots@.len())
    }

    /// An empty builder for `plan`: every field unset, every sequence empty.
    pub fn new(plan: &BuilderPlan) -> (r: Self)
        ensures
            r.wf(),
            r.classes@ == plan.fields@.map_values(|f: BuilderField| f.class),
            forall|i: int| 0 <= i < r.slots@.len() ==> (#[trigger] r.slots@[i])@.len() == 0,
    {
        let mut classes: Vec<FieldClass> = Vec::new();
        let mut slots: Vec<Vec<V>> = Vec::new();
        let mut i: usize = 0;
        while i < plan.fields.len()
            invariant
                i <= plan.fields.len(),
                classes@ == plan.fields@.take(i as int).map_values(|f: BuilderField| f.class),
                slots@.len() == i,
                forall|j: int| 0 <= j < i ==> (#[trigger] slots@[j])@.len() == 0,
            decreases plan.fields.len() - i,
        {
            classes.push(plan.fields[i].class);
            slots.push(Vec::new());
            assert(plan.fields@.take(i + 1).map_values(|f: BuilderField| f.class) =~= plan.fields@.take(
                i as int,
            ).map_values(|f: BuilderField| f.class).push(plan.fields@[i as int].class));
            i += 1;
        }
        assert(plan.fields@.take(i as int) =~= plan.fields@);
        BuilderState { classes, slots }
    }

    /// Sets the value of a required or optional field, replacing any earlier one.
    pub fn set(&mut self, i: usize, value: V)
        requires
            old(self).wf(),
            i < old(self).slots@.len(),
            old(self).classes@[i as int] == FieldClass::Required || old(self).classes@[i as int]
                == FieldClass::Optional,
        ensures
            final(self).wf(),
            final(self).classes@ == old(self).classes@,
            final(self).slots@.len() == old(self).slots@.len(),
            final(self).slots@[i as int]@ == seq![value],
            forall|j: int|
                0 <= j < old(self).slots@.len() && j != i ==> final(self).slots@[j] == old(
                    self,
                ).slots@[j],
    {
        let mut v: Vec<V> = Vec::new();
        v.push(value);
        self.slots.set(i, v);
    }

    /// Replaces the whole sequence of a repeated field.
    pub fn set_all(&mut self, i: usize, values: Vec<V>)
        requires
            old(self).wf(),
            i < old(self).slots@.len(),
            old(self).classes@[i as int] == FieldClass::Repeated,
        ensures
            final(self).wf(),
            final(self).classes@ == old(self).classes@,
            final(self).slots@ == old(self).slots@.update(i as int, values),
    {
        self.slots.set(i, values);
    }

    /// Appends one element to a repeated field, keeping the earlier ones.
    pub fn append(&mut self, i: usize, value: V)
        requires
            old(self).wf(),
            i < old(self).slots@.len(),
            old(self).classes@[i as int] == FieldClass::Repeated,
        ensures
            final(self).wf(),
            final(self).classes@ == old(self).classes@,
            final(self).slots@.len() == old(self).slots@.len(),
            final(self).slots@[i as int]@ == old(self).slots@[i as int]@.push(value),
            forall|j: int|
                0 <= j < old(self).slots@.len() && j != i ==> final(self).slots@[j] == old(
                    self,
                ).slots@[j],
    {
        let mut cur = self.slots.remove(i);
        cur.push(value);
        self.slots.insert(i, cur);
    }

    /// Builds the value: every field's storage in declaration order, or the
    /// indices of all required fields that are unset.
    pub fn build(self) -> (r: Result<Vec<Vec<V>>, Vec<usize>>)
        requires
            self.wf(),
        ensures
            self.missing().len() == 0 ==> (r matches Ok(s) && s@ == self.slots@),
            self.missing().len() > 0 ==> (r matches Err(m) && m@ == self.missing()),
    {
        let mut missing: Vec<usize> = Vec::new();
        let mut i: usize = 0;
        while i < self.slots.len()
            invariant
                self.wf(),
                i <= self.slots@.len(),
                missing@ == missing_upto(self.classes@, self.slots@, i as nat),
            decreases self.slots.len() - i,
        {
            if self.classes[i] == FieldClass::Required && self.slots[i].len() == 0 {
                missing.push(i);
            }
            i += 1;
        }
        if missing.len() > 0 {
            Err(missing)
        } else {
            Ok(self.slots)
        }
    }
}

} // verus!
