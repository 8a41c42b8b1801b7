//! Instance counts: how many instances each class has, and how many arrays each
//! primitive type has.
use vstd::prelude::*;

use crate::heap_dump::{PrimitiveArrayType, SubRecord};
use crate::Id;

verus! {

/// How many instances class `e` has according to `s`: the count stored with it, or zero.
pub open spec fn class_count_in(s: Seq<(Id, u64)>, e: Id) -> int
    decreases s.len(),
{
    if s.len() == 0 {
        0
    } else if s.last().0 == e {
        s.last().1 as int
    } else {
        class_count_in(s.drop_last(), e)
    }
}

/// Every class is stored once, with a count of at least one.
pub open spec fn class_counts_wf(s: Seq<(Id, u64)>) -> bool {
    &&& forall|i: int, j: int| 0 <= i < j < s.len() ==> s[i].0 != s[j].0
    &&& forall|i: int| 0 <= i < s.len() ==> s[i].1 >= 1
}

proof fn lemma_class_count_bounds(s: Seq<(Id, u64)>, e: Id)
    ensures
        0 <= class_count_in(s, e) <= u64::MAX,
    decreases s.len(),
{
    if s.len() > 0 {
        lemma_class_count_bounds(s.drop_last(), e);
    }
}

proof fn lemma_class_count_at(s: Seq<(Id, u64)>, i: int)
    requires
        class_counts_wf(s),
        0 <= i < s.len(),
    ensures
        class_count_in(s, s[i].0) == s[i].1,
    decreases s.len(),
{
    if i < s.len() - 1 {
        lemma_class_count_at(s.drop_last(), i);
    }
}

proof fn lemma_class_count_absent(s: Seq<(Id, u64)>, e: Id)
    requires
        forall|i: int| 0 <= i < s.len() ==> s[i].0 != e,
    ensures
        class_count_in(s, e) == 0,
    decreases s.len(),
{
    if s.len() > 0 {
        lemma_class_count_absent(s.drop_last(), e);
    }
}

proof fn lemma_class_count_update(s: Seq<(Id, u64)>, i: int, v: u64, e: Id)
    requires
        class_counts_wf(s),
        0 <= i < s.len(),
        v >= 1,
    ensures
        class_count_in(s.update(i, (s[i].0, v)), e) == if e == s[i].0 { v as int } else { class_count_in(s, e) },
    decreases s.len(),
{
    let t = s.update(i, (s[i].0, v));
    if i < s.len() - 1 {
        assert(t.drop_last() =~= s.drop_last().update(i, (s[i].0, v)));
        lemma_class_count_update(s.drop_last(), i, v, e);
    } else {
        assert(t.drop_last() =~= s.drop_last());
        if e == s[i].0 {
        } else {
        }
    }
}

/// How many instances each class has.
pub struct ClassCounts {
    pub entries: Vec<(Id, u64)>,
}

impl ClassCounts {
    pub open spec fn wf(&self) -> bool {
        class_counts_wf(self.entries@)
    }

    pub open spec fn count(&self, e: Id) -> int {
        class_count_in(self.entries@, e)
    }

    pub fn new() -> (r: ClassCounts)
        ensures
            r.wf(),
            forall|e: Id| r.count(e) == 0,
    {
        ClassCounts { entries: Vec::new() }
    }

    fn position(&self, e: Id) -> (r: Option<usize>)
        requires
            self.wf(),
        ensures
            r matches Some(i) ==> i < self.entries@.len() && self.entries@[i as int].0 == e,
            r is None ==> forall|i: int| 0 <= i < self.entries@.len() ==> self.entries@[i].0 != e,
    {
        let mut i: usize = 0;
        while i < self.entries.len()
            invariant
                i <= self.entries@.len(),
                forall|j: int| 0 <= j < i ==> self.entries@[j].0 != e,
            decreases self.entries@.len() - i,
        {
            if self.entries[i].0 == e {
                return Some(i);
            }
            i = i + 1;
        }
        None
    }

    /// How many instances class `e` has.
    pub fn count_of(&self, e: Id) -> (r: u64)
        requires
            self.wf(),
        ensures
            r == self.count(e),
    {
        match self.position(e) {
            Some(i) => {
                proof {
                    lemma_class_count_at(self.entries@, i as int);
                }
                self.entries[i].1
            },
            None => {
                proof {
                    lemma_class_count_absent(self.entries@, e);
                }
                0
            },
        }
    }

    /// The number of distinct classes.
    pub fn len(&self) -> (r: usize)
        ensures
            r == self.entries@.len(),
    {
        self.entries.len()
    }

    /// Adds `n` instances of class `e`; a count stops at `u64::MAX`.
    pub fn add(&mut self, e: Id, n: u64)
        requires
            old(self).wf(),
            n >= 1,
        ensures
            final(self).wf(),
            final(self).count(e) == if old(self).count(e) + n <= u64::MAX { old(self).count(e) + n } else { u64::MAX as int },
            forall|o: Id| o != e ==> final(self).count(o) == old(self).count(o),
    {
        match self.position(e) {
            Some(i) => {
                let c = self.entries[i].1;
                let v = if c <= u64::MAX - n { c + n } else { u64::MAX };
                proof {
                    lemma_class_count_at(self.entries@, i as int);
                    assert forall|o: Id| #![auto] true implies class_count_in(self.entries@.update(i as int, (e, v)), o)
                        == if o == e { v as int } else { class_count_in(self.entries@, o) } by {
                        lemma_class_count_update(self.entries@, i as int, v, o);
                    }
                }
                self.entries.set(i, (e, v));
            },
            None => {
                proof {
                    lemma_class_count_absent(self.entries@, e);
                }
                let ghost before = self.entries@;
                self.entries.push((e, n));
                proof {
                    assert(self.entries@.drop_last() =~= before);
                }
            },
        }
    }

    /// Counts one more instance of class `e`.
    pub fn increment(&mut self, e: Id)
        requires
            old(self).wf(),
        ensures
            final(self).wf(),
            final(self).count(e) == if old(self).count(e) < u64::MAX { old(self).count(e) + 1 } else { u64::MAX as int },
            forall|o: Id| o != e ==> final(self).count(o) == old(self).count(o),
    {
        self.add(e, 1);
    }

    /// Adds the counts of `other` to these, as when the counts of parallel workers are
    /// combined.
    pub fn add_all(&mut self, other: &ClassCounts)
        requires
            old(self).wf(),
            other.wf(),
        ensures
            final(self).wf(),
            forall|e: Id| #[trigger] final(self).count(e) == if old(self).count(e) + other.count(e) <= u64::MAX {
                old(self).count(e) + other.count(e)
            } else {
                u64::MAX as int
            },
    {
        let ghost start = *self;
        let mut i: usize = 0;
        proof {
            assert forall|e: Id| #[trigger] self.count(e) == if start.count(e) + class_count_in(other.entries@.subrange(0, 0), e) <= u64::MAX {
                start.count(e) + class_count_in(other.entries@.subrange(0, 0), e)
            } else {
                u64::MAX as int
            } by {
                lemma_class_count_bounds(start.entries@, e);
                assert(other.entries@.subrange(0, 0).len() == 0);
            }
        }
        while i < other.entries.len()
            invariant
                i <= other.entries@.len(),
                self.wf(),
                other.wf(),
                start.wf(),
                forall|e: Id| #[trigger] self.count(e) == if start.count(e) + class_count_in(other.entries@.subrange(0, i as int), e) <= u64::MAX {
                    start.count(e) + class_count_in(other.entries@.subrange(0, i as int), e)
                } else {
                    u64::MAX as int
                },
            decreases other.entries@.len() - i,
        {
            let (e, n) = other.entries[i];
            let ghost before = *self;
            let ghost pre = other.entries@.subrange(0, i as int);
            let ghost post = other.entries@.subrange(0, i + 1);
            proof {
                assert(post.drop_last() =~= pre);
                assert forall|k: int| 0 <= k < pre.len() implies pre[k].0 != e by {
                    assert(pre[k] == other.entries@[k]);
                }
                lemma_class_count_absent(pre, e);
            }
            self.add(e, n);
            proof {
                assert forall|o: Id| #[trigger] self.count(o) == if start.count(o) + class_count_in(post, o) <= u64::MAX {
                    start.count(o) + class_count_in(post, o)
                } else {
                    u64::MAX as int
                } by {
                    if o != e {
                        assert(class_count_in(post, o) == class_count_in(pre, o));
                    }
                }
            }
            i = i + 1;
        }
        proof {
            assert(other.entries@.subrange(0, other.entries@.len() as int) =~= other.entries@);
        }
    }
}

/// The position of a primitive type in [`PrimitiveArrayType`]'s declaration order.
pub open spec fn spec_prim_index(t: PrimitiveArrayType) -> int {
    match t {
        PrimitiveArrayType::Boolean => 0,
        PrimitiveArrayType::Char => 1,
        PrimitiveArrayType::Float => 2,
        PrimitiveArrayType::Double => 3,
        PrimitiveArrayType::Byte => 4,
        PrimitiveArrayType::Short => 5,
        PrimitiveArrayType::Int => 6,
        PrimitiveArrayType::Long => 7,
    }
}

pub fn prim_index(t: PrimitiveArrayType) -> (r: usize)
    ensures
        r == spec_prim_index(t),
        r < 8,
{
    match t {
        PrimitiveArrayType::Boolean => 0,
        PrimitiveArrayType::Char => 1,
        PrimitiveArrayType::Float => 2,
        PrimitiveArrayType::Double => 3,
        PrimitiveArrayType::Byte => 4,
        PrimitiveArrayType::Short => 5,
        PrimitiveArrayType::Int => 6,
        PrimitiveArrayType::Long => 7,
    }
}

/// Instances and object arrays counted per class, primitive arrays per element type.
pub struct InstanceCounts {
    pub classes: ClassCounts,
    /// Entry `i` counts the arrays of the type at position `i` of [`PrimitiveArrayType`]'s
    /// declaration order.
    pub prim_arrays: Vec<u64>,
}

impl InstanceCounts {
    pub open spec fn wf(&self) -> bool {
        self.classes.wf() && self.prim_arrays@.len() == 8
    }

    pub fn new() -> (r: InstanceCounts)
        ensures
            r.wf(),
            forall|c: Id| r.classes.count(c) == 0,
            forall|i: int| 0 <= i < 8 ==> r.prim_arrays@[i] == 0,
    {
        let mut prim_arrays: Vec<u64> = Vec::new();
        while prim_arrays.len() < 8
            invariant
                prim_arrays@.len() <= 8,
                forall|i: int| 0 <= i < prim_arrays@.len() ==> prim_arrays@[i] == 0,
            decreases 8 - prim_arrays@.len(),
        {
            prim_arrays.push(0);
        }
        InstanceCounts { classes: ClassCounts::new(), prim_arrays }
    }

    /// Counts one sub-record: an instance or object array for its class, a primitive
    /// array for its element type; other sub-records change nothing. Counts stop at
    /// `u64::MAX`.
    pub fn count_sub_record(&mut self, sub: &SubRecord)
        requires
            old(self).wf(),
        ensures
            final(self).wf(),
            match sub {
                SubRecord::Instance(i) => final(self).prim_arrays@ == old(self).prim_arrays@
                    && final(self).classes.count(i.class_obj_id) == if old(self).classes.count(i.class_obj_id) < u64::MAX {
                        old(self).classes.count(i.class_obj_id) + 1
                    } else {
                        u64::MAX as int
                    } && forall|c: Id| c != i.class_obj_id ==> final(self).classes.count(c) == old(self).classes.count(c),
                SubRecord::ObjectArray(a) => final(self).prim_arrays@ == old(self).prim_arrays@
                    && final(self).classes.count(a.array_class_obj_id) == if old(self).classes.count(a.array_class_obj_id) < u64::MAX {
                        old(self).classes.count(a.array_class_obj_id) + 1
                    } else {
                        u64::MAX as int
                    } && forall|c: Id| c != a.array_class_obj_id ==> final(self).classes.count(c) == old(self).classes.count(c),
                SubRecord::PrimitiveArray(p) => (forall|c: Id| final(self).classes.count(c) == old(self).classes.count(c))
                    && final(self).prim_arrays@ == old(self).prim_arrays@.update(
                        spec_prim_index(p.primitive_type),
                        if old(self).prim_arrays@[spec_prim_index(p.primitive_type)] < u64::MAX {
                            (old(self).prim_arrays@[spec_prim_index(p.primitive_type)] + 1) as u64
                        } else {
                            u64::MAX
                        },
                    ),
                _ => final(self).classes.entries@ == old(self).classes.entries@ && final(self).prim_arrays@ == old(self).prim_arrays@,
            },
    {
        match sub {
            SubRecord::Instance(i) => self.classes.increment(i.class_obj_id),
            SubRecord::ObjectArray(a) => self.classes.increment(a.array_class_obj_id),
            SubRecord::PrimitiveArray(p) => {
                let k = prim_index(p.primitive_type);
                let c = self.prim_arrays[k];
                let v = if c < u64::MAX { c + 1 } else { u64::MAX };
                self.prim_arrays.set(k, v);
            },
            _ => {},
        }
    }

    /// Adds the counts of `other` to these, as when the counts of parallel workers are
    /// combined. Counts stop at `u64::MAX`.
    pub fn add_all(&mut self, other: &InstanceCounts)
        requires
            old(self).wf(),
            other.wf(),
        ensures
            final(self).wf(),
            forall|c: Id| #[trigger] final(self).classes.count(c) == if old(self).classes.count(c) + other.classes.count(c) <= u64::MAX {
                old(self).classes.count(c) + other.classes.count(c)
            } else {
                u64::MAX as int
            },
            forall|i: int| 0 <= i < 8 ==> #[trigger] final(self).prim_arrays@[i] == if old(self).prim_arrays@[i] + other.prim_arrays@[i] <= u64::MAX {
                old(self).prim_arrays@[i] + other.prim_arrays@[i]
            } else {
                u64::MAX as int
            },
    {
        self.classes.add_all(&other.classes);
        let ghost start = self.prim_arrays@;
        let mut i: usize = 0;
        while i < 8
            invariant
                i <= 8,
                self.classes.wf(),
                forall|c: Id| #[trigger] self.classes.count(c) == if old(self).classes.count(c) + other.classes.count(c) <= u64::MAX {
                    old(self).classes.count(c) + other.classes.count(c)
                } else {
                    u64::MAX as int
                },
                start == old(self).prim_arrays@,
                self.prim_arrays@.len() == 8,
                other.prim_arrays@.len() == 8,
                forall|k: int| i <= k < 8 ==> self.prim_arrays@[k] == start[k],
                forall|k: int| 0 <= k < i ==> #[trigger] self.prim_arrays@[k] == if start[k] + other.prim_arrays@[k] <= u64::MAX {
                    start[k] + other.prim_arrays@[k]
                } else {
                    u64::MAX as int
                },
            decreases 8 - i,
        {
            let a = self.prim_arrays[i];
            let b = other.prim_arrays[i];
            let v = if a <= u64::MAX - b { a + b } else { u64::MAX };
            self.prim_arrays.set(i, v);
            i = i + 1;
        }
    }
}

} // verus!
