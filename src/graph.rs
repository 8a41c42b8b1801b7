//! The reference-count graph: which class-level edges the references of a heap dump
//! make, and how many times each occurs.
use vstd::prelude::*;

use crate::class_view::{
    decode_instance_fields, find_class, spec_find_class, expanded_field_descriptors, spec_expanded_descriptors, spec_field_values, ClassInfo,
    HierarchyError,
};
use crate::heap_dump::{
    FieldValue, ObjectArray, PrimitiveArrayType, StaticFieldEntry, StaticFieldEntryParser, SubRecord,
};
use crate::merge::{keys_distinct, lookup_sorted, sorted_by_key, spec_value_of};
use crate::{spec_collect, Id, IdSize, NullableIdParser, ParseError};

verus! {

/// Where a reference starts: a kind of GC root, or a field or the contents of an object
/// of some class.
#[derive(Clone, Copy, Debug, PartialEq, Eq, Hash, Structural)]
pub enum HeapGraphSource {
    GcRootUnknown,
    GcRootThreadObj,
    GcRootJniGlobal,
    GcRootJniLocalRef,
    GcRootJavaStackFrame,
    GcRootNativeStack,
    GcRootSystemClass,
    GcRootThreadBlock,
    GcRootBusyMonitor,
    /// The static field at `field_offset` of a class.
    StaticField { class_obj_id: Id, field_offset: usize },
    /// The field at `field_offset` of the expanded descriptor chain of a class.
    InstanceField { class_obj_id: Id, field_offset: usize },
    /// An element of an object array of a class.
    ObjectArray { class_obj_id: Id },
}

/// What a reference points to.
#[derive(Clone, Copy, Debug, PartialEq, Eq, Hash, Structural)]
pub enum HeapGraphDest {
    InstanceOfClass { class_obj_id: Id },
    ClassObj { class_obj_id: Id },
    PrimitiveArray { prim_type: PrimitiveArrayType },
}

#[derive(Clone, Copy, Debug, PartialEq, Eq, Hash, Structural)]
pub struct GraphEdge {
    pub source: HeapGraphSource,
    pub dest: HeapGraphDest,
}

/// Where reference `r` points to, given what is known of `r`: the class of the object
/// it names (from the index), the type of the primitive array it names, and whether it
/// names a class object. A reference that none of these resolves has no destination.
pub open spec fn spec_destination(r: Id, class_of: Option<Id>, prim_type_of: Option<PrimitiveArrayType>, is_class_obj: bool) -> Option<HeapGraphDest> {
    match class_of {
        Some(c) => Some(HeapGraphDest::InstanceOfClass { class_obj_id: c }),
        None => match prim_type_of {
            Some(t) => Some(HeapGraphDest::PrimitiveArray { prim_type: t }),
            None => if is_class_obj {
                Some(HeapGraphDest::ClassObj { class_obj_id: r })
            } else {
                None
            },
        },
    }
}

pub fn resolve_destination(r: Id, class_of: Option<Id>, prim_type_of: Option<PrimitiveArrayType>, is_class_obj: bool)
    -> (d: Option<HeapGraphDest>)
    ensures
        d == spec_destination(r, class_of, prim_type_of, is_class_obj),
{
    match class_of {
        Some(c) => Some(HeapGraphDest::InstanceOfClass { class_obj_id: c }),
        None => match prim_type_of {
            Some(t) => Some(HeapGraphDest::PrimitiveArray { prim_type: t }),
            None => if is_class_obj {
                Some(HeapGraphDest::ClassObj { class_obj_id: r })
            } else {
                None
            },
        },
    }
}

/// The primitive type stored for object `r` among `prim_entries`, where the stored code
/// names one.
pub open spec fn spec_stored_prim_type(prim_entries: Seq<(u64, u64)>, r: Id) -> Option<PrimitiveArrayType> {
    match spec_value_of(prim_entries, r.id) {
        Some(code) => if code <= 0xFF {
            PrimitiveArrayType::spec_from_type_code(code as u8)
        } else {
            None
        },
        None => None,
    }
}

/// Resolves reference `r` without the on-disk index, from maps held in memory:
/// `class_entries` maps object ids to class ids, `prim_entries` maps object ids to
/// primitive type codes, both sorted by key, and `classes` are the known classes. The
/// rule is that of [`resolve_destination`].
pub fn resolve_in_memory(r: Id, class_entries: &Vec<(u64, u64)>, prim_entries: &Vec<(u64, u64)>, classes: &Vec<ClassInfo>)
    -> (d: Option<HeapGraphDest>)
    requires
        sorted_by_key(class_entries@),
        sorted_by_key(prim_entries@),
        keys_distinct(class_entries@),
        keys_distinct(prim_entries@),
    ensures
        d == spec_destination(
            r,
            match spec_value_of(class_entries@, r.id) {
                Some(c) => Some(Id { id: c }),
                None => None,
            },
            spec_stored_prim_type(prim_entries@, r),
            spec_find_class(classes@, r, 0) is Some,
        ),
{
    let class_of = match lookup_sorted(class_entries, r.id) {
        Some(c) => Some(Id { id: c }),
        None => None,
    };
    let prim_type_of = match lookup_sorted(prim_entries, r.id) {
        Some(code) => if code <= 0xFF {
            PrimitiveArrayType::from_type_code(code as u8)
        } else {
            None
        },
        None => None,
    };
    let is_class_obj = find_class(classes, r).is_some();
    resolve_destination(r, class_of, prim_type_of, is_class_obj)
}

/// A resolved destination is one of the three kinds, and a reference that nothing
/// resolves yields no edge.
pub proof fn lemma_destination_kinds(r: Id, class_of: Option<Id>, prim_type_of: Option<PrimitiveArrayType>, is_class_obj: bool)
    ensures
        spec_destination(r, class_of, prim_type_of, is_class_obj) matches Some(d) ==> (d matches HeapGraphDest::InstanceOfClass { class_obj_id } && class_of == Some(class_obj_id))
            || (d matches HeapGraphDest::PrimitiveArray { prim_type } && class_of is None && prim_type_of == Some(prim_type))
            || (d == HeapGraphDest::ClassObj { class_obj_id: r } && class_of is None && prim_type_of is None && is_class_obj),
        class_of is None && prim_type_of is None && !is_class_obj ==> spec_destination(r, class_of, prim_type_of, is_class_obj) is None,
{
}

/// The GC-root source and the object a GC-root sub-record refers to; `None` for other
/// sub-records and for a thread root without a thread object.
pub fn gc_root_reference(sub: &SubRecord) -> (r: Option<(HeapGraphSource, Id)>)
    ensures
        match sub {
            SubRecord::GcRootUnknown(g) => r == Some((HeapGraphSource::GcRootUnknown, g.obj_id)),
            SubRecord::GcRootThreadObj(g) => match g.thread_obj_id {
                Some(id) => r == Some((HeapGraphSource::GcRootThreadObj, id)),
                None => r is None,
            },
            SubRecord::GcRootJniGlobal(g) => r == Some((HeapGraphSource::GcRootJniGlobal, g.obj_id)),
            SubRecord::GcRootJniLocalRef(g) => r == Some((HeapGraphSource::GcRootJniLocalRef, g.obj_id)),
            SubRecord::GcRootJavaStackFrame(g) => r == Some((HeapGraphSource::GcRootJavaStackFrame, g.obj_id)),
            SubRecord::GcRootNativeStack(g) => r == Some((HeapGraphSource::GcRootNativeStack, g.obj_id)),
            SubRecord::GcRootSystemClass(g) => r == Some((HeapGraphSource::GcRootSystemClass, g.obj_id)),
            SubRecord::GcRootThreadBlock(g) => r == Some((HeapGraphSource::GcRootThreadBlock, g.obj_id)),
            SubRecord::GcRootBusyMonitor(g) => r == Some((HeapGraphSource::GcRootBusyMonitor, g.obj_id)),
            _ => r is None,
        },
{
    match sub {
        SubRecord::GcRootUnknown(g) => Some((HeapGraphSource::GcRootUnknown, g.obj_id)),
        SubRecord::GcRootThreadObj(g) => match g.thread_obj_id {
            Some(id) => Some((HeapGraphSource::GcRootThreadObj, id)),
            None => None,
        },
        SubRecord::GcRootJniGlobal(g) => Some((HeapGraphSource::GcRootJniGlobal, g.obj_id)),
        SubRecord::GcRootJniLocalRef(g) => Some((HeapGraphSource::GcRootJniLocalRef, g.obj_id)),
        SubRecord::GcRootJavaStackFrame(g) => Some((HeapGraphSource::GcRootJavaStackFrame, g.obj_id)),
        SubRecord::GcRootNativeStack(g) => Some((HeapGraphSource::GcRootNativeStack, g.obj_id)),
        SubRecord::GcRootSystemClass(g) => Some((HeapGraphSource::GcRootSystemClass, g.obj_id)),
        SubRecord::GcRootThreadBlock(g) => Some((HeapGraphSource::GcRootThreadBlock, g.obj_id)),
        SubRecord::GcRootBusyMonitor(g) => Some((HeapGraphSource::GcRootBusyMonitor, g.obj_id)),
        _ => None,
    }
}

/// The non-null object references among `values`, each with the source that
/// `source_at(i)` names for its position `i`.
pub open spec fn value_refs(values: Seq<FieldValue>, class_obj_id: Id, is_static: bool) -> Seq<(HeapGraphSource, Id)>
    decreases values.len(),
{
    if values.len() == 0 {
        Seq::empty()
    } else {
        let before = value_refs(values.drop_last(), class_obj_id, is_static);
        let i = (values.len() - 1) as usize;
        match values.last() {
            FieldValue::ObjectId(Some(id)) => before.push((
                if is_static {
                    HeapGraphSource::StaticField { class_obj_id, field_offset: i }
                } else {
                    HeapGraphSource::InstanceField { class_obj_id, field_offset: i }
                },
                id,
            )),
            _ => before,
        }
    }
}

fn refs_of_values(values: &Vec<FieldValue>, class_obj_id: Id, is_static: bool) -> (r: Vec<(HeapGraphSource, Id)>)
    ensures
        r@ == value_refs(values@, class_obj_id, is_static),
{
    let mut out: Vec<(HeapGraphSource, Id)> = Vec::new();
    let mut i: usize = 0;
    while i < values.len()
        invariant
            i <= values@.len(),
            out@ == value_refs(values@.subrange(0, i as int), class_obj_id, is_static),
        decreases values@.len() - i,
    {
        proof {
            assert(values@.subrange(0, i + 1).drop_last() =~= values@.subrange(0, i as int));
        }
        match values[i] {
            FieldValue::ObjectId(Some(id)) => {
                let source = if is_static {
                    HeapGraphSource::StaticField { class_obj_id, field_offset: i }
                } else {
                    HeapGraphSource::InstanceField { class_obj_id, field_offset: i }
                };
                out.push((source, id));
            },
            _ => {},
        }
        i = i + 1;
    }
    proof {
        assert(values@.subrange(0, values@.len() as int) =~= values@);
    }
    out
}

/// The values of static fields.
pub open spec fn static_values(fields: Seq<StaticFieldEntry>) -> Seq<FieldValue> {
    fields.map_values(|f: StaticFieldEntry| f.value)
}

/// The references held by a class's static fields, each from its field's position.
pub fn static_field_references(class: &ClassInfo) -> (r: Vec<(HeapGraphSource, Id)>)
    ensures
        r@ == value_refs(static_values(class.static_fields@), class.obj_id, true),
{
    let mut values: Vec<FieldValue> = Vec::new();
    let mut i: usize = 0;
    while i < class.static_fields.len()
        invariant
            i <= class.static_fields@.len(),
            values@ == static_values(class.static_fields@.subrange(0, i as int)),
        decreases class.static_fields@.len() - i,
    {
        values.push(class.static_fields[i].value);
        proof {
            assert(values@ =~= static_values(class.static_fields@.subrange(0, i + 1)));
        }
        i = i + 1;
    }
    proof {
        assert(class.static_fields@.subrange(0, class.static_fields@.len() as int) =~= class.static_fields@);
    }
    refs_of_values(&values, class.obj_id, true)
}

/// The references held by an instance's decoded field values (see
/// `class_view::decode_instance_fields`), each from its position in the expanded
/// descriptor chain of the instance's class.
pub fn instance_field_references(class_obj_id: Id, values: &Vec<FieldValue>) -> (r: Vec<(HeapGraphSource, Id)>)
    ensures
        r@ == value_refs(values@, class_obj_id, false),
{
    refs_of_values(values, class_obj_id, false)
}

/// The non-null elements of an object array.
pub open spec fn element_refs(elements: Seq<Option<Id>>, class_obj_id: Id) -> Seq<(HeapGraphSource, Id)>
    decreases elements.len(),
{
    if elements.len() == 0 {
        Seq::empty()
    } else {
        let before = element_refs(elements.drop_last(), class_obj_id);
        match elements.last() {
            Some(id) => before.push((HeapGraphSource::ObjectArray { class_obj_id }, id)),
            None => before,
        }
    }
}

/// The references held by the elements of an object array: one per non-null element.
pub fn object_array_references(array: &ObjectArray, id_size: IdSize) -> (r: Result<Vec<(HeapGraphSource, Id)>, ParseError>)
    ensures
        match spec_collect(NullableIdParser { id_size }, array.contents@, 0, array.num_elements as nat) {
            Ok(elements) => r matches Ok(v) && v@ == element_refs(elements, array.array_class_obj_id),
            Err(e) => r == Err::<Vec<(HeapGraphSource, Id)>, ParseError>(e),
        },
{
    let mut it = array.elements(id_size);
    let elements = it.collect_all()?;
    let mut out: Vec<(HeapGraphSource, Id)> = Vec::new();
    let mut i: usize = 0;
    while i < elements.len()
        invariant
            i <= elements@.len(),
            out@ == element_refs(elements@.subrange(0, i as int), array.array_class_obj_id),
        decreases elements@.len() - i,
    {
        proof {
            assert(elements@.subrange(0, i + 1).drop_last() =~= elements@.subrange(0, i as int));
        }
        match elements[i] {
            Some(id) => out.push((HeapGraphSource::ObjectArray { class_obj_id: array.array_class_obj_id }, id)),
            None => {},
        }
        i = i + 1;
    }
    proof {
        assert(elements@.subrange(0, elements@.len() as int) =~= elements@);
    }
    Ok(out)
}

/// Why the references of a sub-record could not be listed.
#[derive(Clone, Copy, Debug, PartialEq, Eq, Structural)]
pub enum ReferenceError {
    Parse(ParseError),
    Hierarchy(HierarchyError),
}

/// The references that sub-record `sub` makes, as `references_of` lists them, or why
/// they cannot be listed.
pub open spec fn spec_references(sub: SubRecord, classes: Seq<ClassInfo>, id_size: IdSize) -> Result<Seq<(HeapGraphSource, Id)>, ReferenceError> {
    match sub {
        SubRecord::Class(c) => match spec_collect(StaticFieldEntryParser { id_size: c.id_size }, c.static_fields@, 0, c.num_static_fields as nat) {
            Ok(fields) => Ok(value_refs(static_values(fields), c.obj_id, true)),
            Err(e) => Err(ReferenceError::Parse(e)),
        },
        SubRecord::Instance(i) => match spec_expanded_descriptors(classes, i.class_obj_id) {
            Err(e) => Err(ReferenceError::Hierarchy(e)),
            Ok(ds) => match spec_field_values(i.fields@, ds, 0, id_size) {
                Err(e) => Err(ReferenceError::Parse(e)),
                Ok((values, end)) => if end == i.fields@.len() {
                    Ok(value_refs(values, i.class_obj_id, false))
                } else {
                    Err(ReferenceError::Parse(ParseError::TrailingBytes))
                },
            },
        },
        SubRecord::ObjectArray(a) => match spec_collect(NullableIdParser { id_size }, a.contents@, 0, a.num_elements as nat) {
            Ok(elements) => Ok(element_refs(elements, a.array_class_obj_id)),
            Err(e) => Err(ReferenceError::Parse(e)),
        },
        SubRecord::PrimitiveArray(_) => Ok(Seq::empty()),
        SubRecord::GcRootThreadObj(g) => match g.thread_obj_id {
            Some(id) => Ok(seq![(HeapGraphSource::GcRootThreadObj, id)]),
            None => Ok(Seq::empty()),
        },
        SubRecord::GcRootUnknown(g) => Ok(seq![(HeapGraphSource::GcRootUnknown, g.obj_id)]),
        SubRecord::GcRootJniGlobal(g) => Ok(seq![(HeapGraphSource::GcRootJniGlobal, g.obj_id)]),
        SubRecord::GcRootJniLocalRef(g) => Ok(seq![(HeapGraphSource::GcRootJniLocalRef, g.obj_id)]),
        SubRecord::GcRootJavaStackFrame(g) => Ok(seq![(HeapGraphSource::GcRootJavaStackFrame, g.obj_id)]),
        SubRecord::GcRootNativeStack(g) => Ok(seq![(HeapGraphSource::GcRootNativeStack, g.obj_id)]),
        SubRecord::GcRootSystemClass(g) => Ok(seq![(HeapGraphSource::GcRootSystemClass, g.obj_id)]),
        SubRecord::GcRootThreadBlock(g) => Ok(seq![(HeapGraphSource::GcRootThreadBlock, g.obj_id)]),
        SubRecord::GcRootBusyMonitor(g) => Ok(seq![(HeapGraphSource::GcRootBusyMonitor, g.obj_id)]),
    }
}

/// Every reference that a sub-record makes, with its source: a GC root's object; each
/// non-null object value among a class's static fields; each non-null object value
/// among an instance's fields, decoded against its class's expanded descriptor chain;
/// each non-null element of an object array. Primitive arrays make none.
pub fn references_of(sub: &SubRecord, classes: &Vec<ClassInfo>, id_size: IdSize) -> (r: Result<Vec<(HeapGraphSource, Id)>, ReferenceError>)
    ensures
        match spec_references(*sub, classes@, id_size) {
            Ok(refs) => r matches Ok(v) && v@ == refs,
            Err(e) => r matches Err(x) && x == e,
        },
{
    match sub {
        SubRecord::Class(c) => {
            let mut it = c.static_fields();
            match it.collect_all() {
                Ok(fields) => {
                    let mut values: Vec<FieldValue> = Vec::new();
                    let mut i: usize = 0;
                    while i < fields.len()
                        invariant
                            i <= fields@.len(),
                            values@ == static_values(fields@.subrange(0, i as int)),
                        decreases fields@.len() - i,
                    {
                        values.push(fields[i].value);
                        proof {
                            assert(values@ =~= static_values(fields@.subrange(0, i + 1)));
                        }
                        i = i + 1;
                    }
                    proof {
                        assert(fields@.subrange(0, fields@.len() as int) =~= fields@);
                    }
                    Ok(refs_of_values(&values, c.obj_id, true))
                },
                Err(e) => Err(ReferenceError::Parse(e)),
            }
        },
        SubRecord::Instance(inst) => {
            let chain = match expanded_field_descriptors(classes, inst.class_obj_id) {
                Ok(ds) => ds,
                Err(e) => return Err(ReferenceError::Hierarchy(e)),
            };
            match decode_instance_fields(inst.fields, &chain, id_size) {
                Ok(values) => Ok(refs_of_values(&values, inst.class_obj_id, false)),
                Err(e) => Err(ReferenceError::Parse(e)),
            }
        },
        SubRecord::ObjectArray(a) => match object_array_references(a, id_size) {
            Ok(v) => Ok(v),
            Err(e) => Err(ReferenceError::Parse(e)),
        },
        SubRecord::PrimitiveArray(_) => Ok(Vec::new()),
        _ => {
            let mut out: Vec<(HeapGraphSource, Id)> = Vec::new();
            match gc_root_reference(sub) {
                Some(x) => {
                    out.push(x);
                    proof {
                        assert(out@ =~= seq![x]);
                    }
                },
                None => {},
            }
            Ok(out)
        },
    }
}

/// How often `e` occurs according to `s`: the count stored with it, or zero.
pub open spec fn count_in(s: Seq<(GraphEdge, u64)>, e: GraphEdge) -> int
    decreases s.len(),
{
    if s.len() == 0 {
        0
    } else if s.last().0 == e {
        s.last().1 as int
    } else {
        count_in(s.drop_last(), e)
    }
}

/// Every edge is stored once, with a count of at least one.
pub open spec fn counts_wf(s: Seq<(GraphEdge, u64)>) -> bool {
    &&& forall|i: int, j: int| 0 <= i < j < s.len() ==> s[i].0 != s[j].0
    &&& forall|i: int| 0 <= i < s.len() ==> s[i].1 >= 1
}

proof fn lemma_count_bounds(s: Seq<(GraphEdge, u64)>, e: GraphEdge)
    ensures
        0 <= count_in(s, e) <= u64::MAX,
    decreases s.len(),
{
    if s.len() > 0 {
        lemma_count_bounds(s.drop_last(), e);
    }
}

proof fn lemma_count_at(s: Seq<(GraphEdge, u64)>, i: int)
    requires
        counts_wf(s),
        0 <= i < s.len(),
    ensures
        count_in(s, s[i].0) == s[i].1,
    decreases s.len(),
{
    if i < s.len() - 1 {
        lemma_count_at(s.drop_last(), i);
    }
}

proof fn lemma_count_absent(s: Seq<(GraphEdge, u64)>, e: GraphEdge)
    requires
        forall|i: int| 0 <= i < s.len() ==> s[i].0 != e,
    ensures
        count_in(s, e) == 0,
    decreases s.len(),
{
    if s.len() > 0 {
        lemma_count_absent(s.drop_last(), e);
    }
}

proof fn lemma_count_update(s: Seq<(GraphEdge, u64)>, i: int, v: u64, e: GraphEdge)
    requires
        counts_wf(s),
        0 <= i < s.len(),
        v >= 1,
    ensures
        count_in(s.update(i, (s[i].0, v)), e) == if e == s[i].0 { v as int } else { count_in(s, e) },
    decreases s.len(),
{
    let t = s.update(i, (s[i].0, v));
    if i < s.len() - 1 {
        assert(t.drop_last() =~= s.drop_last().update(i, (s[i].0, v)));
        lemma_count_update(s.drop_last(), i, v, e);
    } else {
        assert(t.drop_last() =~= s.drop_last());
        if e == s[i].0 {
        } else {
        }
    }
}

/// How many times each edge occurred.
pub struct EdgeCounts {
    pub entries: Vec<(GraphEdge, u64)>,
}

impl EdgeCounts {
    pub open spec fn wf(&self) -> bool {
        counts_wf(self.entries@)
    }

    pub open spec fn count(&self, e: GraphEdge) -> int {
        count_in(self.entries@, e)
    }

    pub fn new() -> (r: EdgeCounts)
        ensures
            r.wf(),
            forall|e: GraphEdge| r.count(e) == 0,
    {
        EdgeCounts { entries: Vec::new() }
    }

    fn position(&self, e: GraphEdge) -> (r: Option<usize>)
        requires
            self.wf(),
        ensures
            r matches Some(i) ==> i < self.entries@.len() && self.entries@[i as int].0 == e,
            r is None ==> forall|i: int| 0 <= i < self.entries@.len() ==> self.entries@[i].0 != e,
    {
        let mut i: usize = 0;
        while i < self.entries.len()
            invariant
                i <= self.entries@.len(),
                forall|j: int| 0 <= j < i ==> self.entries@[j].0 != e,
            decreases self.entries@.len() - i,
        {
            if self.entries[i].0 == e {
                return Some(i);
            }
            i = i + 1;
        }
        None
    }

    /// How many times `e` occurred.
    pub fn count_of(&self, e: GraphEdge) -> (r: u64)
        requires
            self.wf(),
        ensures
            r == self.count(e),
    {
        match self.position(e) {
            Some(i) => {
                proof {
                    lemma_count_at(self.entries@, i as int);
                }
                self.entries[i].1
            },
            None => {
                proof {
                    lemma_count_absent(self.entries@, e);
                }
                0
            },
        }
    }

    /// The number of distinct edges.
    pub fn len(&self) -> (r: usize)
        ensures
            r == self.entries@.len(),
    {
        self.entries.len()
    }

    /// Adds `n` occurrences of `e`; a count stops at `u64::MAX`.
    pub fn add(&mut self, e: GraphEdge, n: u64)
        requires
            old(self).wf(),
            n >= 1,
        ensures
            final(self).wf(),
            final(self).count(e) == if old(self).count(e) + n <= u64::MAX { old(self).count(e) + n } else { u64::MAX as int },
            forall|o: GraphEdge| o != e ==> final(self).count(o) == old(self).count(o),
    {
        match self.position(e) {
            Some(i) => {
                let c = self.entries[i].1;
                let v = if c <= u64::MAX - n { c + n } else { u64::MAX };
                proof {
                    lemma_count_at(self.entries@, i as int);
                    assert forall|o: GraphEdge| #![auto] true implies count_in(self.entries@.update(i as int, (e, v)), o)
                        == if o == e { v as int } else { count_in(self.entries@, o) } by {
                        lemma_count_update(self.entries@, i as int, v, o);
                    }
                }
                self.entries.set(i, (e, v));
            },
            None => {
                proof {
                    lemma_count_absent(self.entries@, e);
                }
                let ghost before = self.entries@;
                self.entries.push((e, n));
                proof {
                    assert(self.entries@.drop_last() =~= before);
                }
            },
        }
    }

    /// Adds one occurrence of `e`.
    pub fn increment(&mut self, e: GraphEdge)
        requires
            old(self).wf(),
        ensures
            final(self).wf(),
            final(self).count(e) == if old(self).count(e) < u64::MAX { old(self).count(e) + 1 } else { u64::MAX as int },
            forall|o: GraphEdge| o != e ==> final(self).count(o) == old(self).count(o),
    {
        self.add(e, 1);
    }

    /// Adds the counts of `other` to these, as when the counts of parallel workers are
    /// combined.
    pub fn add_all(&mut self, other: &EdgeCounts)
        requires
            old(self).wf(),
            other.wf(),
        ensures
            final(self).wf(),
            forall|e: GraphEdge| #[trigger] final(self).count(e) == if old(self).count(e) + other.count(e) <= u64::MAX {
                old(self).count(e) + other.count(e)
            } else {
                u64::MAX as int
            },
    {
        let ghost start = *self;
        let mut i: usize = 0;
        proof {
            assert forall|e: GraphEdge| #[trigger] self.count(e) == if start.count(e) + count_in(other.entries@.subrange(0, 0), e) <= u64::MAX {
                start.count(e) + count_in(other.entries@.subrange(0, 0), e)
            } else {
                u64::MAX as int
            } by {
                lemma_count_bounds(start.entries@, e);
                assert(other.entries@.subrange(0, 0).len() == 0);
            }
        }
        while i < other.entries.len()
            invariant
                i <= other.entries@.len(),
                self.wf(),
                other.wf(),
                start.wf(),
                forall|e: GraphEdge| #[trigger] self.count(e) == if start.count(e) + count_in(other.entries@.subrange(0, i as int), e) <= u64::MAX {
                    start.count(e) + count_in(other.entries@.subrange(0, i as int), e)
                } else {
                    u64::MAX as int
                },
            decreases other.entries@.len() - i,
        {
            let (e, n) = other.entries[i];
            let ghost before = *self;
            let ghost pre = other.entries@.subrange(0, i as int);
            let ghost post = other.entries@.subrange(0, i + 1);
            proof {
                assert(post.drop_last() =~= pre);
                assert forall|k: int| 0 <= k < pre.len() implies pre[k].0 != e by {
                    assert(pre[k] == other.entries@[k]);
                }
                lemma_count_absent(pre, e);
            }
            self.add(e, n);
            proof {
                assert forall|o: GraphEdge| #[trigger] self.count(o) == if start.count(o) + count_in(post, o) <= u64::MAX {
                    start.count(o) + count_in(post, o)
                } else {
                    u64::MAX as int
                } by {
                    if o != e {
                        assert(count_in(post, o) == count_in(pre, o));
                    }
                }
            }
            i = i + 1;
        }
        proof {
            assert(other.entries@.subrange(0, other.entries@.len() as int) =~= other.entries@);
        }
    }

    /// Keeps only the edges that occurred at least `min` times.
    pub fn retain_at_least(&mut self, min: u64)
        requires
            old(self).wf(),
        ensures
            final(self).wf(),
            forall|e: GraphEdge| #[trigger] final(self).count(e) == if old(self).count(e) >= min { old(self).count(e) } else { 0 },
    {
        let ghost s = self.entries@;
        let mut kept: Vec<(GraphEdge, u64)> = Vec::new();
        let mut i: usize = 0;
        while i < self.entries.len()
            invariant
                i <= s.len(),
                self.entries@ == s,
                counts_wf(s),
                counts_wf(kept@),
                forall|k: int| #![trigger kept@[k]] 0 <= k < kept@.len() ==> exists|j: int| 0 <= j < i && #[trigger] s[j] == kept@[k],
                forall|e: GraphEdge| #[trigger] count_in(kept@, e) == if count_in(s.subrange(0, i as int), e) >= min {
                    count_in(s.subrange(0, i as int), e)
                } else {
                    0
                },
            decreases s.len() - i,
        {
            let (e, n) = self.entries[i];
            let ghost pre = s.subrange(0, i as int);
            let ghost post = s.subrange(0, i + 1);
            let ghost kept_before = kept@;
            proof {
                assert(post.drop_last() =~= pre);
                assert forall|k: int| 0 <= k < pre.len() implies pre[k].0 != e by {
                    assert(pre[k] == s[k]);
                }
                lemma_count_absent(pre, e);
                assert forall|k: int| 0 <= k < kept@.len() implies kept@[k].0 != e by {
                    let j = choose|j: int| 0 <= j < i && #[trigger] s[j] == kept@[k];
                }
            }
            if n >= min {
                kept.push((e, n));
                proof {
                    assert(kept@.drop_last() =~= kept_before);
                    assert forall|o: GraphEdge| #[trigger] count_in(kept@, o) == if count_in(post, o) >= min {
                        count_in(post, o)
                    } else {
                        0
                    } by {
                        assert(post.last() == s[i as int]);
                        if o != e {
                            assert(count_in(post, o) == count_in(pre, o));
                            assert(count_in(kept@, o) == count_in(kept_before, o));
                        }
                    }
                    assert forall|k: int| #![trigger kept@[k]] 0 <= k < kept@.len() implies exists|j: int| 0 <= j < i + 1 && #[trigger] s[j] == kept@[k] by {
                        if k < kept_before.len() {
                            let j = choose|j: int| 0 <= j < i && #[trigger] s[j] == kept_before[k];
                            assert(s[j] == kept@[k]);
                        } else {
                            assert(s[i as int] == kept@[k]);
                        }
                    }
                }
            } else {
                proof {
                    lemma_count_absent(kept@, e);
                    assert forall|o: GraphEdge| #[trigger] count_in(kept@, o) == if count_in(post, o) >= min {
                        count_in(post, o)
                    } else {
                        0
                    } by {
                        assert(post.last() == s[i as int]);
                        if o != e {
                            assert(count_in(post, o) == count_in(pre, o));
                        }
                    }
                    assert forall|k: int| #![trigger kept@[k]] 0 <= k < kept@.len() implies exists|j: int| 0 <= j < i + 1 && #[trigger] s[j] == kept@[k] by {
                        let j = choose|j: int| 0 <= j < i && #[trigger] s[j] == kept@[k];
                    }
                }
            }
            i = i + 1;
        }
        proof {
            assert(s.subrange(0, s.len() as int) =~= s);
        }
        self.entries = kept;
    }
}

/// The class an edge's source belongs to, if it is not a GC root.
pub open spec fn source_class(s: HeapGraphSource) -> Option<Id> {
    match s {
        HeapGraphSource::StaticField { class_obj_id, .. } => Some(class_obj_id),
        HeapGraphSource::InstanceField { class_obj_id, .. } => Some(class_obj_id),
        HeapGraphSource::ObjectArray { class_obj_id } => Some(class_obj_id),
        _ => None,
    }
}

/// The class an edge's destination belongs to, if it is not a primitive array.
pub open spec fn dest_class(d: HeapGraphDest) -> Option<Id> {
    match d {
        HeapGraphDest::InstanceOfClass { class_obj_id } => Some(class_obj_id),
        HeapGraphDest::ClassObj { class_obj_id } => Some(class_obj_id),
        HeapGraphDest::PrimitiveArray { .. } => None,
    }
}

pub open spec fn is_gc_root(s: HeapGraphSource) -> bool {
    source_class(s) is None
}

/// The nodes of a graph: each class, GC-root kind and primitive type that an edge
/// touches, once each.
pub struct GraphNodes {
    pub classes: Vec<Id>,
    pub gc_roots: Vec<HeapGraphSource>,
    pub prim_types: Vec<PrimitiveArrayType>,
}

fn push_class(v: &mut Vec<Id>, x: Id)
    ensures
        final(v)@.to_set() == old(v)@.to_set().insert(x),
        old(v)@.no_duplicates() ==> final(v)@.no_duplicates(),
{
    let mut i: usize = 0;
    while i < v.len()
        invariant
            i <= v@.len(),
            forall|j: int| 0 <= j < i ==> v@[j] != x,
        decreases v@.len() - i,
    {
        if v[i] == x {
            proof {
                assert(v@.to_set() =~= v@.to_set().insert(x));
            }
            return;
        }
        i = i + 1;
    }
    let ghost before = v@;
    v.push(x);
    proof {
        assert(v@.to_set() =~= before.to_set().insert(x)) by {
            assert forall|y: Id| v@.to_set().contains(y) <==> before.to_set().insert(x).contains(y) by {
                if y != x && v@.contains(y) {
                    let k = choose|k: int| 0 <= k < v@.len() && v@[k] == y;
                    assert(before[k] == y);
                }
                if before.contains(y) {
                    let k = choose|k: int| 0 <= k < before.len() && before[k] == y;
                    assert(v@[k] == y);
                }
                if y == x {
                    assert(v@[before.len() as int] == x);
                }
            }
        }
    }
}

fn push_gc_root(v: &mut Vec<HeapGraphSource>, x: HeapGraphSource)
    ensures
        final(v)@.to_set() == old(v)@.to_set().insert(x),
        old(v)@.no_duplicates() ==> final(v)@.no_duplicates(),
{
    let mut i: usize = 0;
    while i < v.len()
        invariant
            i <= v@.len(),
            forall|j: int| 0 <= j < i ==> v@[j] != x,
        decreases v@.len() - i,
    {
        if v[i] == x {
            proof {
                assert(v@.to_set() =~= v@.to_set().insert(x));
            }
            return;
        }
        i = i + 1;
    }
    let ghost before = v@;
    v.push(x);
    proof {
        assert(v@.to_set() =~= before.to_set().insert(x)) by {
            assert forall|y: HeapGraphSource| v@.to_set().contains(y) <==> before.to_set().insert(x).contains(y) by {
                if y != x && v@.contains(y) {
                    let k = choose|k: int| 0 <= k < v@.len() && v@[k] == y;
                    assert(before[k] == y);
                }
                if before.contains(y) {
                    let k = choose|k: int| 0 <= k < before.len() && before[k] == y;
                    assert(v@[k] == y);
                }
                if y == x {
                    assert(v@[before.len() as int] == x);
                }
            }
        }
    }
}

fn push_prim_type(v: &mut Vec<PrimitiveArrayType>, x: PrimitiveArrayType)
    ensures
        final(v)@.to_set() == old(v)@.to_set().insert(x),
        old(v)@.no_duplicates() ==> final(v)@.no_duplicates(),
{
    let mut i: usize = 0;
    while i < v.len()
        invariant
            i <= v@.len(),
            forall|j: int| 0 <= j < i ==> v@[j] != x,
        decreases v@.len() - i,
    {
        if v[i] == x {
            proof {
                assert(v@.to_set() =~= v@.to_set().insert(x));
            }
            return;
        }
        i = i + 1;
    }
    let ghost before = v@;
    v.push(x);
    proof {
        assert(v@.to_set() =~= before.to_set().insert(x)) by {
            assert forall|y: PrimitiveArrayType| v@.to_set().contains(y) <==> before.to_set().insert(x).contains(y) by {
                if y != x && v@.contains(y) {
                    let k = choose|k: int| 0 <= k < v@.len() && v@[k] == y;
                    assert(before[k] == y);
                }
                if before.contains(y) {
                    let k = choose|k: int| 0 <= k < before.len() && before[k] == y;
                    assert(v@[k] == y);
                }
                if y == x {
                    assert(v@[before.len() as int] == x);
                }
            }
        }
    }
}

/// The nodes that the edges of `counts` touch.
pub fn graph_nodes(counts: &EdgeCounts) -> (r: GraphNodes)
    ensures
        r.classes@.no_duplicates(),
        r.gc_roots@.no_duplicates(),
        r.prim_types@.no_duplicates(),
        forall|c: Id| r.classes@.contains(c) <==> exists|i: int| 0 <= i < counts.entries@.len()
            && (source_class(#[trigger] counts.entries@[i].0.source) == Some(c) || dest_class(counts.entries@[i].0.dest) == Some(c)),
        forall|g: HeapGraphSource| r.gc_roots@.contains(g) <==> exists|i: int| 0 <= i < counts.entries@.len()
            && is_gc_root(g) && #[trigger] counts.entries@[i].0.source == g,
        forall|t: PrimitiveArrayType| r.prim_types@.contains(t) <==> exists|i: int| 0 <= i < counts.entries@.len()
            && #[trigger] counts.entries@[i].0.dest == (HeapGraphDest::PrimitiveArray { prim_type: t }),
{
    let mut classes: Vec<Id> = Vec::new();
    let mut gc_roots: Vec<HeapGraphSource> = Vec::new();
    let mut prim_types: Vec<PrimitiveArrayType> = Vec::new();
    let mut i: usize = 0;
    let ghost es = counts.entries@;
    while i < counts.entries.len()
        invariant
            i <= es.len(),
            es == counts.entries@,
            classes@.no_duplicates(),
            gc_roots@.no_duplicates(),
            prim_types@.no_duplicates(),
            forall|c: Id| classes@.to_set().contains(c) <==> exists|k: int| 0 <= k < i
                && (source_class(#[trigger] es[k].0.source) == Some(c) || dest_class(es[k].0.dest) == Some(c)),
            forall|g: HeapGraphSource| gc_roots@.to_set().contains(g) <==> exists|k: int| 0 <= k < i
                && is_gc_root(g) && #[trigger] es[k].0.source == g,
            forall|t: PrimitiveArrayType| prim_types@.to_set().contains(t) <==> exists|k: int| 0 <= k < i
                && #[trigger] es[k].0.dest == (HeapGraphDest::PrimitiveArray { prim_type: t }),
        decreases es.len() - i,
    {
        let edge = counts.entries[i].0;
        match edge.source {
            HeapGraphSource::StaticField { class_obj_id, .. } => push_class(&mut classes, class_obj_id),
            HeapGraphSource::InstanceField { class_obj_id, .. } => push_class(&mut classes, class_obj_id),
            HeapGraphSource::ObjectArray { class_obj_id } => push_class(&mut classes, class_obj_id),
            _ => push_gc_root(&mut gc_roots, edge.source),
        }
        match edge.dest {
            HeapGraphDest::InstanceOfClass { class_obj_id } => push_class(&mut classes, class_obj_id),
            HeapGraphDest::ClassObj { class_obj_id } => push_class(&mut classes, class_obj_id),
            HeapGraphDest::PrimitiveArray { prim_type } => push_prim_type(&mut prim_types, prim_type),
        }
        proof {
            assert forall|c: Id| classes@.to_set().contains(c) <==> exists|k: int| 0 <= k < i + 1
                && (source_class(#[trigger] es[k].0.source) == Some(c) || dest_class(es[k].0.dest) == Some(c)) by {
                if source_class(es[i as int].0.source) == Some(c) || dest_class(es[i as int].0.dest) == Some(c) {
                    assert(0 <= i < i + 1);
                }
            }
            assert forall|g: HeapGraphSource| gc_roots@.to_set().contains(g) <==> exists|k: int| 0 <= k < i + 1
                && is_gc_root(g) && #[trigger] es[k].0.source == g by {
                if is_gc_root(g) && es[i as int].0.source == g {
                    assert(0 <= i < i + 1);
                }
            }
            assert forall|t: PrimitiveArrayType| prim_types@.to_set().contains(t) <==> exists|k: int| 0 <= k < i + 1
                && #[trigger] es[k].0.dest == (HeapGraphDest::PrimitiveArray { prim_type: t }) by {
                if es[i as int].0.dest == (HeapGraphDest::PrimitiveArray { prim_type: t }) {
                    assert(0 <= i < i + 1);
                }
            }
        }
        i = i + 1;
    }
    proof {
        assert forall|c: Id| classes@.contains(c) <==> exists|k: int| 0 <= k < es.len()
            && (source_class(#[trigger] es[k].0.source) == Some(c) || dest_class(es[k].0.dest) == Some(c)) by {
            assert(classes@.contains(c) <==> classes@.to_set().contains(c));
        }
        assert forall|g: HeapGraphSource| gc_roots@.contains(g) <==> exists|k: int| 0 <= k < es.len()
            && is_gc_root(g) && #[trigger] es[k].0.source == g by {
            assert(gc_roots@.contains(g) <==> gc_roots@.to_set().contains(g));
        }
        assert forall|t: PrimitiveArrayType| prim_types@.contains(t) <==> exists|k: int| 0 <= k < es.len()
            && #[trigger] es[k].0.dest == (HeapGraphDest::PrimitiveArray { prim_type: t }) by {
            assert(prim_types@.contains(t) <==> prim_types@.to_set().contains(t));
        }
    }
    GraphNodes { classes, gc_roots, prim_types }
}

} // verus!
