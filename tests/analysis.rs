use jvm_hprof::chunk::{decode_u64_entries, encode_u64_entries, encode_u8_entries, SortedChunkWriter};
use jvm_hprof::class_view::{class_name, decode_instance_fields, expanded_field_descriptors, ClassInfo, HierarchyError};
use jvm_hprof::graph::{
    gc_root_reference, graph_nodes, instance_field_references, references_of, resolve_in_memory, ReferenceError, resolve_destination, EdgeCounts, GraphEdge, HeapGraphDest,
    HeapGraphSource,
};
use jvm_hprof::heap_dump::{
    Class, FieldDescriptor, FieldType, FieldValue, GcRootSystemClass, GcRootThreadObj, Instance, ObjectArray,
    PrimitiveArray, PrimitiveArrayType, SubRecord,
};
use jvm_hprof::instance_counts::{prim_index, InstanceCounts};
use jvm_hprof::index::{
    check_fingerprint, decode_class_id, decode_prim_array_type, record_counts, tag_index, HprofFingerprint, IndexError,
};
use jvm_hprof::merge::{is_sorted_by_key, lookup_sorted, merge_all_runs, merge_round, merge_sorted_runs};
use jvm_hprof::{parse_hprof, Id, IdSize, LoadClass, ParseError, RecordTag, Serial, Utf8};

fn class(id: u64, super_id: Option<u64>, fields: &[(u64, FieldType)]) -> ClassInfo {
    ClassInfo {
        obj_id: Id::from(id),
        super_class_obj_id: super_id.map(Id::from),
        instance_size_bytes: 0,
        static_fields: Vec::new(),
        instance_field_descriptors: fields
            .iter()
            .map(|&(name, t)| FieldDescriptor { name_id: Id::from(name), field_type: t })
            .collect(),
    }
}

#[test]
fn instance_decodes_own_fields_then_super_fields() {
    let a = class(0xA, None, &[(1, FieldType::Int)]);
    let b = class(0xB, Some(0xA), &[(2, FieldType::ObjectId)]);
    let classes = vec![a, b];
    let chain = expanded_field_descriptors(&classes, Id::from(0xB)).unwrap();
    assert_eq!(vec![FieldType::ObjectId, FieldType::Int], chain.iter().map(|d| d.field_type()).collect::<Vec<_>>());
    let packed = [0u8, 0, 0, 0, 0, 0, 0, 0, 0, 0, 0, 7];
    let values = decode_instance_fields(&packed, &chain, IdSize::U64).unwrap();
    assert_eq!(vec![FieldValue::ObjectId(None), FieldValue::Int(7)], values);
    let listed = [0u8, 0, 0, 7, 0x00, 0x00, 0x00, 0x00, 0x00, 0x00, 0x00, 0x00];
    let values = decode_instance_fields(&listed, &chain, IdSize::U64).unwrap();
    assert_eq!(vec![FieldValue::ObjectId(Some(Id::from(0x7_0000_0000))), FieldValue::Int(0)], values);
}

#[test]
fn instance_bytes_must_match_chain_widths() {
    let chain = vec![FieldDescriptor { name_id: Id::from(1), field_type: FieldType::Long }];
    assert_eq!(Err(ParseError::Truncated), decode_instance_fields(&[0u8; 7], &chain, IdSize::U32));
    assert_eq!(Err(ParseError::TrailingBytes), decode_instance_fields(&[0u8; 9], &chain, IdSize::U32));
    assert_eq!(Ok(vec![FieldValue::Long(-1)]), decode_instance_fields(&[0xFFu8; 8], &chain, IdSize::U32));
    assert_eq!(Ok(vec![]), decode_instance_fields(&[], &vec![], IdSize::U32));
}

#[test]
fn hierarchy_errors() {
    let classes = vec![class(1, Some(2), &[]), class(2, Some(1), &[]), class(3, Some(9), &[])];
    assert!(matches!(expanded_field_descriptors(&classes, Id::from(1)), Err(HierarchyError::Cyclic(_))));
    assert_eq!(Err(HierarchyError::MissingClass(Id::from(9))), expanded_field_descriptors(&classes, Id::from(3)));
    assert_eq!(Err(HierarchyError::MissingClass(Id::from(4))), expanded_field_descriptors(&classes, Id::from(4)));
}

fn decode_chunk(bytes: &[u8]) -> Vec<(u64, u64)> {
    decode_u64_entries(bytes).unwrap()
}

#[test]
fn sorted_chunk_single_flush() {
    let mut w = SortedChunkWriter::new(5, 100);
    assert!(w.append(3, 300).is_none());
    assert!(w.append(1, 100).is_none());
    assert!(w.append(2, 200).is_none());
    let chunk = w.flush().unwrap();
    assert_eq!(5, chunk.record_index);
    assert_eq!(0, chunk.chunk_index);
    let bytes = encode_u64_entries(&chunk.entries);
    assert_eq!(48, bytes.len());
    assert_eq!(vec![(1, 100), (2, 200), (3, 300)], decode_chunk(&bytes));
    assert!(w.flush().is_none());
}

#[test]
fn sorted_chunk_capacity_two() {
    let mut w = SortedChunkWriter::new(0, 2);
    assert!(w.append(1, 100).is_none());
    let first = w.append(2, 200).unwrap();
    assert!(w.append(3, 300).is_none());
    let second = w.flush().unwrap();
    assert_eq!(vec![(1, 100), (2, 200)], first.entries);
    assert_eq!((0, 1), (first.chunk_index, second.chunk_index));
    assert_eq!(vec![(3, 300)], second.entries);
}

#[test]
fn chunk_bytes_do_not_depend_on_append_order() {
    let mut a = SortedChunkWriter::new(0, 10);
    let mut b = SortedChunkWriter::new(0, 10);
    for (k, v) in [(5, 1), (2, 9), (5, 0), (1, 1)] {
        a.append(k, v);
    }
    for (k, v) in [(1, 1), (5, 0), (5, 1), (2, 9)] {
        b.append(k, v);
    }
    let ca = encode_u64_entries(&a.flush().unwrap().entries);
    let cb = encode_u64_entries(&b.flush().unwrap().entries);
    assert_eq!(ca, cb);
}

#[test]
fn entry_encodings_are_little_endian() {
    let bytes = encode_u64_entries(&vec![(0x0102, 0x03)]);
    assert_eq!(vec![2, 1, 0, 0, 0, 0, 0, 0, 3, 0, 0, 0, 0, 0, 0, 0], bytes);
    let bytes = encode_u8_entries(&vec![(0x0A0B, 7), (1, 8)]);
    assert_eq!(vec![0x0B, 0x0A, 0, 0, 0, 0, 0, 0, 7, 1, 0, 0, 0, 0, 0, 0, 0, 8], bytes);
    assert!(decode_u64_entries(&[0u8; 15]).is_none());
    assert_eq!(Some(vec![]), decode_u64_entries(&[]));
}

#[test]
fn merge_three_sorted_files() {
    let runs = vec![
        vec![(1, 1), (4, 4), (7, 7)],
        vec![(2, 2), (5, 5), (8, 8)],
        vec![(3, 3), (6, 6), (9, 9)],
    ];
    let merged = merge_all_runs(runs.clone());
    assert_eq!((1..=9).map(|k| (k, k)).collect::<Vec<_>>(), merged);
    assert_eq!(merged, merge_sorted_runs(&runs, 0, 3));
}

#[test]
fn merge_round_groups_of_eight() {
    let runs: Vec<Vec<(u64, u64)>> = (0..20u64).map(|i| vec![(i, 0), (i + 100, 1)]).collect();
    let round = merge_round(&runs, 8);
    assert_eq!(3, round.len());
    assert_eq!(16, round[0].len());
    assert_eq!(8, round[2].len());
    for g in &round {
        assert!(g.windows(2).all(|w| w[0].0 <= w[1].0));
    }
    assert!(merge_all_runs(Vec::new()).is_empty());
}

#[test]
fn merge_of_pseudo_random_runs_is_their_sorted_union() {
    let mut state: u64 = 0x2545_F491_4F6C_DD1D;
    let mut next = move || {
        state ^= state << 13;
        state ^= state >> 7;
        state ^= state << 17;
        state
    };
    for _ in 0..50 {
        let n_runs = (next() % 20) as usize;
        let runs: Vec<Vec<(u64, u64)>> = (0..n_runs)
            .map(|_| {
                let len = (next() % 100) as usize;
                let mut v: Vec<(u64, u64)> = (0..len).map(|_| (next() % 50, next() % 5)).collect();
                v.sort_by_key(|e| e.0);
                v
            })
            .collect();
        let mut all: Vec<(u64, u64)> = runs.iter().flatten().copied().collect();
        all.sort();
        let merged = merge_all_runs(runs);
        assert!(merged.windows(2).all(|w| w[0].0 <= w[1].0));
        let mut sorted = merged.clone();
        sorted.sort();
        assert_eq!(all, sorted);
    }
}

fn tiny_file() -> Vec<u8> {
    let mut file = b"HPROF\0".to_vec();
    file.extend_from_slice(&4u32.to_be_bytes());
    file.extend_from_slice(&0xFFu64.to_be_bytes());
    let mut push = |tag: u8, body: Vec<u8>| {
        file.push(tag);
        file.extend_from_slice(&0u32.to_be_bytes());
        file.extend_from_slice(&(body.len() as u32).to_be_bytes());
        file.extend_from_slice(&body);
    };
    push(0x01, vec![0, 0, 0, 7, b'h', b'i']);
    push(0x02, vec![0, 0, 0, 1, 0, 0, 0, 0x42, 0, 0, 0, 0, 0, 0, 0, 7]);
    file
}

#[test]
fn tiny_file_fingerprint() {
    let file = tiny_file();
    let hprof = parse_hprof(&file).unwrap();
    let counts = record_counts(&hprof).unwrap();
    assert_eq!(1, counts[tag_index(RecordTag::Utf8)]);
    assert_eq!(1, counts[tag_index(RecordTag::LoadClass)]);
    assert_eq!(0, counts[tag_index(RecordTag::HeapDumpSegment)]);
    assert_eq!(2u64, counts.iter().sum::<u64>());
    let fp = HprofFingerprint::from_hprof(&hprof).unwrap();
    assert_eq!(HprofFingerprint { timestamp: 0xFF, record_count: 2 }, fp);
}

#[test]
fn empty_stream_fingerprint_counts_nothing() {
    let mut file = b"X\0".to_vec();
    file.extend_from_slice(&8u32.to_be_bytes());
    file.extend_from_slice(&3u64.to_be_bytes());
    let hprof = parse_hprof(&file).unwrap();
    assert_eq!(HprofFingerprint { timestamp: 3, record_count: 0 }, HprofFingerprint::from_hprof(&hprof).unwrap());
}

#[test]
fn fingerprint_guard() {
    let fp = HprofFingerprint { timestamp: 0xFF, record_count: 2 };
    let ts = 0xFFu64.to_be_bytes();
    let count = 2u64.to_be_bytes();
    assert_eq!(Ok(()), check_fingerprint(&fp, Some(&ts), Some(&count)));
    let other = 3u64.to_be_bytes();
    assert_eq!(Err(IndexError::FingerprintMismatch), check_fingerprint(&fp, Some(&ts), Some(&other)));
    assert_eq!(Err(IndexError::FingerprintMismatch), check_fingerprint(&fp, None, Some(&count)));
    let little = 0xFFu64.to_le_bytes();
    assert_eq!(Err(IndexError::FingerprintMismatch), check_fingerprint(&fp, Some(&little), Some(&count)));
}

#[test]
fn stored_index_values() {
    assert_eq!(Ok(Id::from(0x0102)), decode_class_id(&0x0102u64.to_be_bytes()));
    assert_eq!(Err(IndexError::IndexInconsistency), decode_class_id(&[1, 2, 3]));
    assert_eq!(Ok(PrimitiveArrayType::Char), decode_prim_array_type(&[0x05]));
    assert_eq!(Err(IndexError::IndexInconsistency), decode_prim_array_type(&[0x01]));
}

#[test]
fn destinations_follow_the_resolution_order() {
    let r = Id::from(9);
    assert_eq!(
        Some(HeapGraphDest::InstanceOfClass { class_obj_id: Id::from(1) }),
        resolve_destination(r, Some(Id::from(1)), Some(PrimitiveArrayType::Int), true)
    );
    assert_eq!(
        Some(HeapGraphDest::PrimitiveArray { prim_type: PrimitiveArrayType::Int }),
        resolve_destination(r, None, Some(PrimitiveArrayType::Int), true)
    );
    assert_eq!(Some(HeapGraphDest::ClassObj { class_obj_id: r }), resolve_destination(r, None, None, true));
    assert_eq!(None, resolve_destination(r, None, None, false));
}

#[test]
fn thread_root_without_object_has_no_reference() {
    let root = GcRootThreadObj { thread_obj_id: None, thread_serial: Serial::from(1), stack_trace_serial: Serial::from(2) };
    assert_eq!(None, gc_root_reference(&SubRecord::GcRootThreadObj(root)));
    let root = GcRootThreadObj { thread_obj_id: Some(Id::from(4)), ..root };
    assert_eq!(Some((HeapGraphSource::GcRootThreadObj, Id::from(4))), gc_root_reference(&SubRecord::GcRootThreadObj(root)));
}

#[test]
fn ref_count_graph_two_instances_to_one_class() {
    let class_a = Id::from(0xA);
    let class_c = Id::from(0xC);
    let classes = vec![class(0xA, None, &[(1, FieldType::ObjectId)]), class(0xC, None, &[])];
    let chain = expanded_field_descriptors(&classes, class_a).unwrap();
    let class_of = |id: Id| if id == Id::from(0x300) { Some(class_c) } else { None };
    let mut counts = EdgeCounts::new();
    for packed in [0x300u32.to_be_bytes(), 0x300u32.to_be_bytes()] {
        let values = decode_instance_fields(&packed, &chain, IdSize::U32).unwrap();
        for (source, r) in instance_field_references(class_a, &values) {
            if let Some(dest) = resolve_destination(r, class_of(r), None, false) {
                counts.increment(GraphEdge { source, dest });
            }
        }
    }
    let edge = GraphEdge {
        source: HeapGraphSource::InstanceField { class_obj_id: class_a, field_offset: 0 },
        dest: HeapGraphDest::InstanceOfClass { class_obj_id: class_c },
    };
    let mut at_least_two = EdgeCounts { entries: counts.entries.clone() };
    at_least_two.retain_at_least(2);
    assert_eq!(1, at_least_two.len());
    assert_eq!(2, at_least_two.count_of(edge));
    let mut at_least_three = EdgeCounts { entries: counts.entries.clone() };
    at_least_three.retain_at_least(3);
    assert_eq!(0, at_least_three.len());

    let mut combined = EdgeCounts::new();
    combined.add_all(&counts);
    combined.add_all(&counts);
    assert_eq!(4, combined.count_of(edge));
}

#[test]
fn class_name_joins_load_class_and_utf8() {
    let loads = vec![LoadClass {
        class_serial: Serial::from(1),
        class_obj_id: Id::from(0x42),
        stack_trace_serial: Serial::from(0),
        class_name_id: Id::from(7),
    }];
    let utf8s = vec![Utf8 { name_id: Id::from(6), text: b"other" }, Utf8 { name_id: Id::from(7), text: b"java/lang/String" }];
    assert_eq!(Some(&b"java/lang/String"[..]), class_name(&loads, &utf8s, Id::from(0x42)));
    assert_eq!(None, class_name(&loads, &utf8s, Id::from(0x43)));
    assert_eq!(None, class_name(&loads, &utf8s[..1].to_vec(), Id::from(0x42)));
}

#[test]
fn instance_counts_per_class_and_type() {
    let inst = |obj: u64, class: u64| {
        SubRecord::Instance(Instance { obj_id: Id::from(obj), stack_trace_serial: Serial::from(0), class_obj_id: Id::from(class), fields: &[] })
    };
    let prim = SubRecord::PrimitiveArray(PrimitiveArray {
        obj_id: Id::from(9),
        stack_trace_serial: Serial::from(0),
        primitive_type: PrimitiveArrayType::Byte,
        num_elements: 0,
        contents: &[],
    });
    let mut a = InstanceCounts::new();
    a.count_sub_record(&inst(1, 0xA));
    a.count_sub_record(&inst(2, 0xA));
    a.count_sub_record(&prim);
    let mut b = InstanceCounts::new();
    b.count_sub_record(&inst(3, 0xA));
    b.count_sub_record(&inst(4, 0xB));
    a.add_all(&b);
    assert_eq!(3, a.classes.count_of(Id::from(0xA)));
    assert_eq!(1, a.classes.count_of(Id::from(0xB)));
    assert_eq!(0, a.classes.count_of(Id::from(0xC)));
    assert_eq!(1, a.prim_arrays[prim_index(PrimitiveArrayType::Byte)]);
    assert_eq!(0, a.prim_arrays[prim_index(PrimitiveArrayType::Int)]);
}

#[test]
fn graph_nodes_are_listed_once() {
    let mut counts = EdgeCounts::new();
    let a = Id::from(0xA);
    let c = Id::from(0xC);
    counts.increment(GraphEdge {
        source: HeapGraphSource::InstanceField { class_obj_id: a, field_offset: 0 },
        dest: HeapGraphDest::InstanceOfClass { class_obj_id: c },
    });
    counts.increment(GraphEdge { source: HeapGraphSource::GcRootSystemClass, dest: HeapGraphDest::ClassObj { class_obj_id: a } });
    counts.increment(GraphEdge {
        source: HeapGraphSource::GcRootSystemClass,
        dest: HeapGraphDest::PrimitiveArray { prim_type: PrimitiveArrayType::Int },
    });
    let nodes = graph_nodes(&counts);
    let mut classes = nodes.classes.clone();
    classes.sort_by_key(|id| id.id());
    assert_eq!(vec![a, c], classes);
    assert_eq!(vec![HeapGraphSource::GcRootSystemClass], nodes.gc_roots);
    assert_eq!(vec![PrimitiveArrayType::Int], nodes.prim_types);
}

#[test]
fn lookup_and_sortedness_check() {
    let entries = vec![(1, 10), (4, 40), (9, 90)];
    assert!(is_sorted_by_key(&entries));
    assert_eq!(Some(40), lookup_sorted(&entries, 4));
    assert_eq!(Some(90), lookup_sorted(&entries, 9));
    assert_eq!(None, lookup_sorted(&entries, 5));
    assert_eq!(None, lookup_sorted(&Vec::new(), 5));
    assert!(!is_sorted_by_key(&vec![(2, 0), (1, 0)]));
    assert!(is_sorted_by_key(&Vec::new()));
}

#[test]
fn sub_record_kind_names() {
    let root = GcRootThreadObj { thread_obj_id: None, thread_serial: Serial::from(1), stack_trace_serial: Serial::from(2) };
    assert_eq!("GcRootThreadObj", SubRecord::GcRootThreadObj(root).kind_name());
}

fn build_in_memory_index(pairs: &[(u64, u64)], capacity: usize) -> Vec<(u64, u64)> {
    let mut writer = SortedChunkWriter::new(0, capacity);
    let mut chunks = Vec::new();
    for &(k, v) in pairs {
        if let Some(c) = writer.append(k, v) {
            chunks.push(decode_u64_entries(&encode_u64_entries(&c.entries)).unwrap());
        }
    }
    if let Some(c) = writer.flush() {
        chunks.push(decode_u64_entries(&encode_u64_entries(&c.entries)).unwrap());
    }
    merge_all_runs(chunks)
}

#[test]
fn index_round_trip_of_many_pairs() {
    let mut state: u64 = 88172645463325252;
    let mut next = move || {
        state ^= state << 13;
        state ^= state >> 7;
        state ^= state << 17;
        state
    };
    let class_pairs: Vec<(u64, u64)> = (0..100_000u64).map(|i| (i.wrapping_mul(0x9E37_79B9_7F4A_7C15) | 1, next() % 5000)).collect();
    let prim_pairs: Vec<(u64, u64)> = (0..100_000u64).map(|i| (i.wrapping_mul(0xC2B2_AE3D_27D4_EB4F) | 1, 4 + next() % 8)).collect();
    let class_index = build_in_memory_index(&class_pairs, 4096);
    let prim_index = build_in_memory_index(&prim_pairs, 9000);
    assert_eq!(100_000, class_index.len());
    assert!(is_sorted_by_key(&class_index));
    for &(k, v) in &class_pairs {
        assert_eq!(Some(v), lookup_sorted(&class_index, k));
    }
    for &(k, v) in &prim_pairs {
        let code = lookup_sorted(&prim_index, k).unwrap();
        assert_eq!(v, code);
        assert!(decode_prim_array_type(&[code as u8]).is_ok());
    }
    let fp = HprofFingerprint { timestamp: 1, record_count: 2 };
    let wrong = HprofFingerprint { timestamp: 1, record_count: 3 };
    assert_eq!(
        Err(IndexError::FingerprintMismatch),
        check_fingerprint(&wrong, Some(&fp.timestamp.to_be_bytes()), Some(&fp.record_count.to_be_bytes()))
    );
}

#[test]
fn references_of_each_kind_of_sub_record() {
    let mut statics = Vec::new();
    statics.extend_from_slice(&1u32.to_be_bytes());
    statics.push(0x02);
    statics.extend_from_slice(&0x99u32.to_be_bytes());
    statics.extend_from_slice(&2u32.to_be_bytes());
    statics.push(0x0A);
    statics.extend_from_slice(&5i32.to_be_bytes());
    statics.extend_from_slice(&3u32.to_be_bytes());
    statics.push(0x02);
    statics.extend_from_slice(&0u32.to_be_bytes());
    let class_rec = Class {
        id_size: IdSize::U32,
        obj_id: Id::from(0x50),
        stack_trace_serial: Serial::from(0),
        super_class_obj_id: None,
        class_loader_obj_id: None,
        signers_obj_id: None,
        protection_domain_obj_id: None,
        instance_size_bytes: 4,
        num_static_fields: 3,
        static_fields: &statics,
        num_instance_fields: 0,
        instance_fields: &[],
    };
    let classes = vec![class(0xA, None, &[(1, FieldType::Int), (2, FieldType::ObjectId)])];
    assert_eq!(
        Ok(vec![(HeapGraphSource::StaticField { class_obj_id: Id::from(0x50), field_offset: 0 }, Id::from(0x99))]),
        references_of(&SubRecord::Class(class_rec), &classes, IdSize::U32)
    );

    let fields = [0u8, 0, 0, 1, 0, 0, 0, 0x31];
    let inst = SubRecord::Instance(Instance { obj_id: Id::from(1), stack_trace_serial: Serial::from(0), class_obj_id: Id::from(0xA), fields: &fields });
    assert_eq!(
        Ok(vec![(HeapGraphSource::InstanceField { class_obj_id: Id::from(0xA), field_offset: 1 }, Id::from(0x31))]),
        references_of(&inst, &classes, IdSize::U32)
    );
    let orphan = SubRecord::Instance(Instance { obj_id: Id::from(1), stack_trace_serial: Serial::from(0), class_obj_id: Id::from(0xB), fields: &fields });
    assert_eq!(
        Err(ReferenceError::Hierarchy(HierarchyError::MissingClass(Id::from(0xB)))),
        references_of(&orphan, &classes, IdSize::U32)
    );

    let contents = [0u8, 0, 0, 0, 0, 0, 0, 0x77];
    let array = SubRecord::ObjectArray(ObjectArray {
        obj_id: Id::from(2),
        stack_trace_serial: Serial::from(0),
        array_class_obj_id: Id::from(0xAA),
        num_elements: 2,
        contents: &contents,
    });
    assert_eq!(
        Ok(vec![(HeapGraphSource::ObjectArray { class_obj_id: Id::from(0xAA) }, Id::from(0x77))]),
        references_of(&array, &classes, IdSize::U32)
    );

    let root = SubRecord::GcRootSystemClass(GcRootSystemClass { obj_id: Id::from(0x50) });
    assert_eq!(Ok(vec![(HeapGraphSource::GcRootSystemClass, Id::from(0x50))]), references_of(&root, &classes, IdSize::U32));
    let prim = SubRecord::PrimitiveArray(PrimitiveArray {
        obj_id: Id::from(3),
        stack_trace_serial: Serial::from(0),
        primitive_type: PrimitiveArrayType::Int,
        num_elements: 0,
        contents: &[],
    });
    assert_eq!(Ok(vec![]), references_of(&prim, &classes, IdSize::U32));
}

#[test]
fn in_memory_resolution() {
    let class_entries = vec![(100, 0xA), (200, 0xB)];
    let prim_entries = vec![(300, 0x0A), (400, 0x99)];
    let classes = vec![class(0xA, None, &[])];
    assert_eq!(
        Some(HeapGraphDest::InstanceOfClass { class_obj_id: Id::from(0xB) }),
        resolve_in_memory(Id::from(200), &class_entries, &prim_entries, &classes)
    );
    assert_eq!(
        Some(HeapGraphDest::PrimitiveArray { prim_type: PrimitiveArrayType::Int }),
        resolve_in_memory(Id::from(300), &class_entries, &prim_entries, &classes)
    );
    assert_eq!(
        Some(HeapGraphDest::ClassObj { class_obj_id: Id::from(0xA) }),
        resolve_in_memory(Id::from(0xA), &class_entries, &prim_entries, &classes)
    );
    assert_eq!(None, resolve_in_memory(Id::from(400), &class_entries, &prim_entries, &classes));
    assert_eq!(None, resolve_in_memory(Id::from(500), &class_entries, &prim_entries, &classes));
}
