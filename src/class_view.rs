//! Per-class summaries, the expanded chain of field descriptors that lays out an
//! instance's field bytes, and the decoding of those bytes.
use vstd::prelude::*;

use crate::heap_dump::{Class, FieldDescriptor, FieldType, FieldValue, StaticFieldEntry};
use crate::{Id, IdSize, LoadClass, ParseError, Utf8};

verus! {

/// What the analyses keep of a class: its ids, instance size, static fields and the
/// descriptors of the fields it declares itself.
pub struct ClassInfo {
    pub obj_id: Id,
    pub super_class_obj_id: Option<Id>,
    pub instance_size_bytes: u32,
    pub static_fields: Vec<StaticFieldEntry>,
    pub instance_field_descriptors: Vec<FieldDescriptor>,
}

impl ClassInfo {
    /// Reads the static fields and field descriptors of a class sub-record.
    pub fn from_class(c: &Class) -> (r: Result<ClassInfo, ParseError>)
        ensures
            r matches Ok(info) ==> info.obj_id == c.obj_id && info.super_class_obj_id == c.super_class_obj_id
                && info.instance_size_bytes == c.instance_size_bytes
                && crate::spec_collect(crate::heap_dump::StaticFieldEntryParser { id_size: c.id_size }, c.static_fields@, 0, c.num_static_fields as nat)
                    == Ok::<Seq<StaticFieldEntry>, ParseError>(info.static_fields@)
                && crate::spec_collect(crate::heap_dump::FieldDescriptorParser { id_size: c.id_size }, c.instance_fields@, 0, c.num_instance_fields as nat)
                    == Ok::<Seq<FieldDescriptor>, ParseError>(info.instance_field_descriptors@),
            r is Err ==> crate::spec_collect(crate::heap_dump::StaticFieldEntryParser { id_size: c.id_size }, c.static_fields@, 0, c.num_static_fields as nat) is Err
                || crate::spec_collect(crate::heap_dump::FieldDescriptorParser { id_size: c.id_size }, c.instance_fields@, 0, c.num_instance_fields as nat) is Err,
    {
        let mut statics = c.static_fields();
        let static_fields = statics.collect_all()?;
        let mut descs = c.instance_field_descriptors();
        let instance_field_descriptors = descs.collect_all()?;
        Ok(ClassInfo {
            obj_id: c.obj_id,
            super_class_obj_id: c.super_class_obj_id,
            instance_size_bytes: c.instance_size_bytes,
            static_fields,
            instance_field_descriptors,
        })
    }
}

/// Why a class's chain of super classes cannot be followed.
#[derive(Clone, Copy, Debug, PartialEq, Eq, Structural)]
pub enum HierarchyError {
    /// No class with this id is known.
    MissingClass(Id),
    /// Following super classes from this class comes back to a class already seen.
    Cyclic(Id),
}

/// The first position at or after `i` of a class with id `id`.
pub open spec fn spec_find_class(cs: Seq<ClassInfo>, id: Id, i: int) -> Option<int>
    decreases cs.len() - i,
{
    if i < 0 || i >= cs.len() {
        None
    } else if cs[i].obj_id == id {
        Some(i)
    } else {
        spec_find_class(cs, id, i + 1)
    }
}

/// The descriptors of class `id` followed by those of its super classes, taking at most
/// `fuel` classes. A chain that ends after at most as many steps as there are classes
/// has no repeated class; one that does not end within that many steps has one.
pub open spec fn spec_chain(cs: Seq<ClassInfo>, id: Id, fuel: nat) -> Result<Seq<FieldDescriptor>, HierarchyError>
    decreases fuel,
{
    if fuel == 0 {
        Err(HierarchyError::Cyclic(id))
    } else {
        match spec_find_class(cs, id, 0) {
            None => Err(HierarchyError::MissingClass(id)),
            Some(i) => match cs[i].super_class_obj_id {
                None => Ok(cs[i].instance_field_descriptors@),
                Some(sup) => match spec_chain(cs, sup, (fuel - 1) as nat) {
                    Ok(rest) => Ok(cs[i].instance_field_descriptors@.add(rest)),
                    Err(e) => Err(e),
                },
            },
        }
    }
}

/// The expanded descriptor chain of class `id` among `cs`.
pub open spec fn spec_expanded_descriptors(cs: Seq<ClassInfo>, id: Id) -> Result<Seq<FieldDescriptor>, HierarchyError> {
    spec_chain(cs, id, cs.len())
}

/// The position of the first class with id `id`, if any.
pub fn find_class(classes: &Vec<ClassInfo>, id: Id) -> (r: Option<usize>)
    ensures
        r matches Some(i) ==> i < classes@.len() && spec_find_class(classes@, id, 0) == Some(i as int),
        r is None ==> spec_find_class(classes@, id, 0) is None,
{
    let mut i: usize = 0;
    while i < classes.len()
        invariant
            i <= classes@.len(),
            spec_find_class(classes@, id, 0) == spec_find_class(classes@, id, i as int),
        decreases classes@.len() - i,
    {
        if classes[i].obj_id == id {
            return Some(i);
        }
        i = i + 1;
    }
    None
}

/// The descriptors that lay out the field bytes of an instance of class `class_id`: those
/// the class declares, then those of its super class, and so on up the hierarchy.
pub fn expanded_field_descriptors(classes: &Vec<ClassInfo>, class_id: Id) -> (r: Result<Vec<FieldDescriptor>, HierarchyError>)
    ensures
        match spec_expanded_descriptors(classes@, class_id) {
            Ok(ds) => r matches Ok(v) && v@ == ds,
            Err(e) => r == Err::<Vec<FieldDescriptor>, HierarchyError>(e),
        },
{
    let ghost cs = classes@;
    let mut out: Vec<FieldDescriptor> = Vec::new();
    let mut cur = class_id;
    let mut fuel: usize = classes.len();
    proof {
        assert forall|rest: Seq<FieldDescriptor>| #[trigger] out@.add(rest) == rest by {
            assert(out@.add(rest) =~= rest);
        }
    }
    while fuel > 0
        invariant
            fuel <= cs.len(),
            classes@ == cs,
            spec_expanded_descriptors(cs, class_id) == match spec_chain(cs, cur, fuel as nat) {
                Ok(rest) => Ok::<Seq<FieldDescriptor>, HierarchyError>(out@.add(rest)),
                Err(e) => Err(e),
            },
        decreases fuel,
    {
        let i = match find_class(classes, cur) {
            Some(i) => i,
            None => return Err(HierarchyError::MissingClass(cur)),
        };
        let ghost before = out@;
        let own = &classes[i].instance_field_descriptors;
        let mut j: usize = 0;
        while j < own.len()
            invariant
                j <= own@.len(),
                out@ == before.add(own@.subrange(0, j as int)),
                classes@ == cs,
                i < cs.len(),
                own@ == cs[i as int].instance_field_descriptors@,
                spec_find_class(cs, cur, 0) == Some(i as int),
            decreases own@.len() - j,
        {
            out.push(own[j]);
            proof {
                assert(out@ =~= before.add(own@.subrange(0, j + 1)));
            }
            j = j + 1;
        }
        proof {
            assert(own@.subrange(0, own@.len() as int) =~= own@);
            assert forall|rest: Seq<FieldDescriptor>| #[trigger] before.add(own@.add(rest)) == out@.add(rest) by {
                assert(before.add(own@.add(rest)) =~= out@.add(rest));
            }
        }
        match classes[i].super_class_obj_id {
            None => {
                proof {
                    assert(spec_chain(cs, cur, fuel as nat) == Ok::<Seq<FieldDescriptor>, HierarchyError>(own@));
                    assert(out@.add(Seq::<FieldDescriptor>::empty()) =~= out@);
                    assert(before.add(own@) == out@);
                }
                return Ok(out);
            },
            Some(sup) => {
                proof {
                    assert(spec_chain(cs, cur, fuel as nat) == match spec_chain(cs, sup, (fuel - 1) as nat) {
                        Ok(rest) => Ok::<Seq<FieldDescriptor>, HierarchyError>(own@.add(rest)),
                        Err(e) => Err(e),
                    });
                }
                cur = sup;
                fuel = fuel - 1;
            },
        }
    }
    Err(HierarchyError::Cyclic(cur))
}

/// How many bytes values of the types of `ds` take together.
pub open spec fn total_width(ds: Seq<FieldDescriptor>, id_size: IdSize) -> int
    decreases ds.len(),
{
    if ds.len() == 0 {
        0
    } else {
        ds[0].field_type.width(id_size) + total_width(ds.drop_first(), id_size)
    }
}

/// The values of the types of `ds` read one after the other from `pos` of `s`, with the
/// position after them.
pub open spec fn spec_field_values(s: Seq<u8>, ds: Seq<FieldDescriptor>, pos: int, id_size: IdSize) -> Result<(Seq<FieldValue>, int), ParseError>
    decreases ds.len(),
{
    if ds.len() == 0 {
        Ok((Seq::empty(), pos))
    } else {
        match ds[0].field_type.spec_value(s, pos, id_size) {
            Err(e) => Err(e),
            Ok((v, e)) => match spec_field_values(s, ds.drop_first(), e, id_size) {
                Err(err) => Err(err),
                Ok((vs, end)) => Ok((seq![v].add(vs), end)),
            },
        }
    }
}

/// Reading the values of `ds` from `pos` succeeds exactly when their widths fit in what
/// is left of `s`, and it ends after those widths.
pub proof fn lemma_field_values_width(s: Seq<u8>, ds: Seq<FieldDescriptor>, pos: int, id_size: IdSize)
    requires
        0 <= pos <= s.len(),
    ensures
        spec_field_values(s, ds, pos, id_size) is Ok <==> pos + total_width(ds, id_size) <= s.len(),
        spec_field_values(s, ds, pos, id_size) is Ok ==> spec_field_values(s, ds, pos, id_size)->Ok_0.1 == pos + total_width(ds, id_size),
    decreases ds.len(),
{
    if ds.len() > 0 {
        let w = ds[0].field_type.width(id_size);
        assert(w >= 1);
        lemma_total_width_nonneg(ds.drop_first(), id_size);
        if pos + w <= s.len() {
            lemma_field_values_width(s, ds.drop_first(), pos + w, id_size);
        }
    }
}

proof fn lemma_total_width_nonneg(ds: Seq<FieldDescriptor>, id_size: IdSize)
    ensures
        total_width(ds, id_size) >= 0,
    decreases ds.len(),
{
    if ds.len() > 0 {
        lemma_total_width_nonneg(ds.drop_first(), id_size);
    }
}

/// Decodes an instance's packed field bytes against its expanded descriptor chain.
/// All bytes must be used: bytes left over are [`ParseError::TrailingBytes`].
pub fn decode_instance_fields(fields: &[u8], descriptors: &Vec<FieldDescriptor>, id_size: IdSize) -> (r: Result<Vec<FieldValue>, ParseError>)
    ensures
        match spec_field_values(fields@, descriptors@, 0, id_size) {
            Ok((vs, end)) => if end == fields@.len() {
                r matches Ok(v) && v@ == vs
            } else {
                r == Err::<Vec<FieldValue>, ParseError>(ParseError::TrailingBytes)
            },
            Err(e) => r == Err::<Vec<FieldValue>, ParseError>(e),
        },
{
    let ghost ds = descriptors@;
    let ghost s = fields@;
    let mut out: Vec<FieldValue> = Vec::new();
    let mut pos: usize = 0;
    let mut i: usize = 0;
    proof {
        assert(ds.subrange(0, ds.len() as int) =~= ds);
        assert forall|rest: Seq<FieldValue>| #[trigger] out@.add(rest) == rest by {
            assert(out@.add(rest) =~= rest);
        }
    }
    while i < descriptors.len()
        invariant
            i <= ds.len(),
            pos <= s.len(),
            descriptors@ == ds,
            fields@ == s,
            spec_field_values(s, ds, 0, id_size) == match spec_field_values(s, ds.subrange(i as int, ds.len() as int), pos as int, id_size) {
                Ok((rest, end)) => Ok::<(Seq<FieldValue>, int), ParseError>((out@.add(rest), end)),
                Err(e) => Err(e),
            },
        decreases ds.len() - i,
    {
        let ghost tail = ds.subrange(i as int, ds.len() as int);
        proof {
            assert(tail.drop_first() =~= ds.subrange(i + 1, ds.len() as int));
            assert(tail[0] == ds[i as int]);
        }
        let ghost before = out@;
        let t: FieldType = descriptors[i].field_type;
        match t.parse_value_at(fields, pos, id_size) {
            Ok((v, e)) => {
                out.push(v);
                pos = e;
                proof {
                    assert forall|rest: Seq<FieldValue>| #[trigger] before.add(seq![v].add(rest)) == out@.add(rest) by {
                        assert(before.add(seq![v].add(rest)) =~= out@.add(rest));
                    }
                }
            },
            Err(err) => return Err(err),
        }
        i = i + 1;
    }
    proof {
        assert(ds.subrange(i as int, ds.len() as int).len() == 0);
        assert(out@.add(Seq::<FieldValue>::empty()) =~= out@);
    }
    if pos != fields.len() {
        return Err(ParseError::TrailingBytes);
    }
    Ok(out)
}

/// An instance's field bytes decode against its descriptor chain exactly when the widths
/// of the chain's types add up to the number of field bytes.
pub proof fn lemma_instance_fields_fill_bytes(fields: Seq<u8>, descriptors: Seq<FieldDescriptor>, id_size: IdSize)
    ensures
        (spec_field_values(fields, descriptors, 0, id_size) matches Ok((_, end)) && end == fields.len())
            <==> total_width(descriptors, id_size) == fields.len(),
{
    lemma_field_values_width(fields, descriptors, 0, id_size);
}

/// The first `LoadClass` record at or after `i` that names class `class_obj_id`.
pub open spec fn spec_find_load_class(ls: Seq<LoadClass>, class_obj_id: Id, i: int) -> Option<int>
    decreases ls.len() - i,
{
    if i < 0 || i >= ls.len() {
        None
    } else if ls[i].class_obj_id == class_obj_id {
        Some(i)
    } else {
        spec_find_load_class(ls, class_obj_id, i + 1)
    }
}

/// The first `Utf8` record at or after `i` with id `name_id`.
pub open spec fn spec_find_utf8(us: Seq<Utf8>, name_id: Id, i: int) -> Option<int>
    decreases us.len() - i,
{
    if i < 0 || i >= us.len() {
        None
    } else if us[i].name_id == name_id {
        Some(i)
    } else {
        spec_find_utf8(us, name_id, i + 1)
    }
}

/// The name of class `class_obj_id`: the text of the `Utf8` record that its `LoadClass`
/// record names. `None` where either record is missing; callers show a placeholder.
pub open spec fn spec_class_name(ls: Seq<LoadClass>, us: Seq<Utf8>, class_obj_id: Id) -> Option<Seq<u8>> {
    match spec_find_load_class(ls, class_obj_id, 0) {
        None => None,
        Some(i) => match spec_find_utf8(us, ls[i].class_name_id, 0) {
            None => None,
            Some(j) => Some(us[j].text@),
        },
    }
}

/// Joins a class to its `LoadClass` record and that record's name.
pub fn class_name<'a>(load_classes: &Vec<LoadClass>, utf8s: &Vec<Utf8<'a>>, class_obj_id: Id) -> (r: Option<&'a [u8]>)
    ensures
        match spec_class_name(load_classes@, utf8s@, class_obj_id) {
            Some(t) => r matches Some(b) && b@ == t,
            None => r is None,
        },
{
    let mut i: usize = 0;
    while i < load_classes.len() && load_classes[i].class_obj_id != class_obj_id
        invariant
            i <= load_classes@.len(),
            spec_find_load_class(load_classes@, class_obj_id, 0) == spec_find_load_class(load_classes@, class_obj_id, i as int),
        decreases load_classes@.len() - i,
    {
        i = i + 1;
    }
    if i == load_classes.len() {
        return None;
    }
    let name_id = load_classes[i].class_name_id;
    let mut j: usize = 0;
    while j < utf8s.len()
        invariant
            j <= utf8s@.len(),
            spec_find_load_class(load_classes@, class_obj_id, 0) == Some(i as int),
            i < load_classes@.len(),
            name_id == load_classes@[i as int].class_name_id,
            spec_find_utf8(utf8s@, name_id, 0) == spec_find_utf8(utf8s@, name_id, j as int),
        decreases utf8s@.len() - j,
    {
        if utf8s[j].name_id == name_id {
            return Some(utf8s[j].text);
        }
        j = j + 1;
    }
    None
}

/// For an instance that parses, whose class's expanded descriptor chain can be followed,
/// the field bytes decode against the chain and are used up exactly when the widths of
/// the chain's types add up to the number of field bytes.
pub proof fn lemma_parsed_instance_fields_fill_bytes(s: Seq<u8>, pos: int, id_size: IdSize, classes: Seq<ClassInfo>)
    requires
        crate::heap_dump::spec_instance(s, pos, id_size) is Ok,
        spec_expanded_descriptors(classes, crate::heap_dump::spec_instance(s, pos, id_size)->Ok_0.0.class_obj_id) is Ok,
    ensures
        ({
            let m = crate::heap_dump::spec_instance(s, pos, id_size)->Ok_0.0;
            let ds = spec_expanded_descriptors(classes, m.class_obj_id)->Ok_0;
            (spec_field_values(m.fields, ds, 0, id_size) matches Ok((_, end)) && end == m.fields.len())
                <==> total_width(ds, id_size) == m.fields.len()
        }),
{
    let m = crate::heap_dump::spec_instance(s, pos, id_size)->Ok_0.0;
    let ds = spec_expanded_descriptors(classes, m.class_obj_id)->Ok_0;
    lemma_instance_fields_fill_bytes(m.fields, ds, id_size);
}

} // verus!
