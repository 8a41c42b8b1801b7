use jvm_hprof::heap_dump::{FieldType, FieldValue, PrimitiveArrayType, SubRecord};
use jvm_hprof::{parse_hprof, EnumIterable, Id, IdSize, LineNum, ParseError, Record, RecordTag, Serial};

fn header(id_size: u32, timestamp: u64) -> Vec<u8> {
    let mut v = b"HPROF".to_vec();
    v.push(0);
    v.extend_from_slice(&id_size.to_be_bytes());
    v.extend_from_slice(&timestamp.to_be_bytes());
    v
}

fn record(tag: u8, body: &[u8]) -> Vec<u8> {
    let mut v = vec![tag];
    v.extend_from_slice(&0u32.to_be_bytes());
    v.extend_from_slice(&(body.len() as u32).to_be_bytes());
    v.extend_from_slice(body);
    v
}

fn tiny_file() -> Vec<u8> {
    let mut file = header(4, 0xFF);
    let mut utf8 = 7u32.to_be_bytes().to_vec();
    utf8.extend_from_slice(b"hi");
    file.extend(record(0x01, &utf8));
    let mut load = 1u32.to_be_bytes().to_vec();
    load.extend_from_slice(&0x42u32.to_be_bytes());
    load.extend_from_slice(&0u32.to_be_bytes());
    load.extend_from_slice(&7u32.to_be_bytes());
    file.extend(record(0x02, &load));
    file
}

fn all_records<'a>(input: &'a [u8]) -> Vec<Record<'a>> {
    let hprof = parse_hprof(input).unwrap();
    let mut it = hprof.records_iter();
    let mut out = Vec::new();
    while let Some(r) = it.next() {
        out.push(r.unwrap());
    }
    out
}

#[test]
fn tiny_file_sequential() {
    let file = tiny_file();
    let hprof = parse_hprof(&file).unwrap();
    assert_eq!(0xFF, hprof.header().timestamp_millis());
    assert!(matches!(hprof.header().id_size(), IdSize::U32));
    assert_eq!("HPROF", hprof.header().label().unwrap());
    let records = all_records(&file);
    assert_eq!(2, records.len());
    let utf8 = records[0].as_utf_8().unwrap().unwrap();
    assert_eq!(Id::from(7), utf8.name_id());
    assert_eq!("hi", utf8.text_as_str().unwrap());
    assert!(records[0].as_load_class().is_none());
    let load = records[1].as_load_class().unwrap().unwrap();
    assert_eq!(Id::from(7), load.class_name_id());
    assert_eq!(Id::from(0x42), load.class_obj_id());
    assert_eq!(Serial::from(1), load.class_serial());
    assert_eq!(Serial::from(0), load.stack_trace_serial());
}

#[test]
fn record_consumes_nine_bytes_besides_its_body() {
    let body = [1u8, 2, 3, 4, 5];
    let bytes = record(0x2C, &body);
    let (rec, end) = Record::parse(&bytes, 0, IdSize::U64).unwrap();
    assert_eq!(body.len() + 9, end);
    assert_eq!(&body[..], rec.body);
    assert_eq!(RecordTag::HeapDumpEnd, rec.tag());
}

#[test]
fn empty_record_stream_has_no_records() {
    let file = header(8, 1);
    let hprof = parse_hprof(&file).unwrap();
    let mut it = hprof.records_iter();
    assert!(it.next().is_none());
}

#[test]
fn unknown_record_tag_is_an_error() {
    let mut file = header(4, 0);
    file.extend(record(0x99, &[]));
    let hprof = parse_hprof(&file).unwrap();
    let mut it = hprof.records_iter();
    assert_eq!(Some(Err(ParseError::UnknownRecordTag(0x99))), it.next().map(|r| r.map(|rec| rec.tag())));
    assert!(it.next().is_none());
}

#[test]
fn truncated_record_body_is_an_error() {
    let mut bytes = record(0x01, &[0, 0, 0, 1, 0x41]);
    bytes.pop();
    assert_eq!(Err(ParseError::Truncated), Record::parse(&bytes, 0, IdSize::U32).map(|(r, _)| r.tag()));
}

#[test]
fn header_with_bad_id_size_is_rejected() {
    let file = header(6, 0);
    assert_eq!(Some(ParseError::InvalidIdSize(6)), parse_hprof(&file).err());
    assert_eq!(Some(ParseError::Truncated), parse_hprof(b"HPROF").err());
}

#[test]
fn header_timestamp_joins_both_halves() {
    let file = header(8, 0x0000_0001_0000_0002);
    let hprof = parse_hprof(&file).unwrap();
    assert_eq!(0x0000_0001_0000_0002, hprof.header().timestamp_millis());
    assert!(matches!(hprof.header().id_size(), IdSize::U64));
}

#[test]
fn invalid_utf8_keeps_its_bytes() {
    let mut body = 9u32.to_be_bytes().to_vec();
    body.extend_from_slice(&[0xFF, 0xFE, 0x41]);
    let bytes = record(0x01, &body);
    let (rec, _) = Record::parse(&bytes, 0, IdSize::U32).unwrap();
    let utf8 = rec.as_utf_8().unwrap().unwrap();
    assert!(utf8.text_as_str().is_err());
    assert_eq!(&[0xFF, 0xFE, 0x41][..], utf8.text());
}

#[test]
fn stack_frame_and_trace() {
    let mut frame = Vec::new();
    for id in [1u32, 2, 3, 4] {
        frame.extend_from_slice(&id.to_be_bytes());
    }
    frame.extend_from_slice(&5u32.to_be_bytes());
    frame.extend_from_slice(&(-2i32).to_be_bytes());
    let bytes = record(0x04, &frame);
    let (rec, _) = Record::parse(&bytes, 0, IdSize::U32).unwrap();
    let sf = rec.as_stack_frame().unwrap().unwrap();
    assert_eq!(Id::from(3), sf.method_signature_id);
    assert_eq!(LineNum::CompiledMethod, sf.line_num);

    let mut bad = frame.clone();
    let n = bad.len();
    bad[n - 4..].copy_from_slice(&0i32.to_be_bytes());
    let bytes = record(0x04, &bad);
    let (rec, _) = Record::parse(&bytes, 0, IdSize::U32).unwrap();
    assert_eq!(Some(Err(ParseError::InvalidLineNum(0))), rec.as_stack_frame());

    let mut trace = Vec::new();
    for v in [10u32, 11, 2, 0x100, 0x200] {
        trace.extend_from_slice(&v.to_be_bytes());
    }
    let bytes = record(0x05, &trace);
    let (rec, _) = Record::parse(&bytes, 0, IdSize::U32).unwrap();
    let st = rec.as_stack_trace().unwrap().unwrap();
    assert_eq!(Serial::from(10), st.stack_trace_serial());
    assert_eq!(Serial::from(11), st.thread_serial());
    let mut ids = st.frame_ids();
    assert_eq!(Some(Ok(Id::from(0x100))), ids.next());
    assert_eq!(Some(Ok(Id::from(0x200))), ids.next());
    assert_eq!(None, ids.next());
}

fn segment_records(body: &[u8], id_size: IdSize) -> Vec<SubRecord<'_>> {
    let bytes = body;
    let mut it = jvm_hprof::heap_dump::HeapDumpSegment { id_size, records: bytes }.sub_records();
    let mut out = Vec::new();
    while let Some(r) = it.next() {
        out.push(r.unwrap());
    }
    out
}

#[test]
fn empty_heap_dump_segment_is_valid() {
    let bytes = record(0x1C, &[]);
    let (rec, _) = Record::parse(&bytes, 0, IdSize::U32).unwrap();
    let seg = rec.as_heap_dump_segment().unwrap().unwrap();
    let mut it = seg.sub_records();
    assert!(it.next().is_none());
}

#[test]
fn zero_optional_id_is_none() {
    let mut body = vec![0x08];
    body.extend_from_slice(&0u64.to_be_bytes());
    body.extend_from_slice(&3u32.to_be_bytes());
    body.extend_from_slice(&4u32.to_be_bytes());
    let subs = segment_records(&body, IdSize::U64);
    match &subs[0] {
        SubRecord::GcRootThreadObj(t) => {
            assert_eq!(None, t.thread_obj_id());
            assert_eq!(Serial::from(3), t.thread_serial());
        }
        _ => panic!("expected a thread object root"),
    }
}

#[test]
fn max_frame_index_is_none() {
    let mut body = vec![0x03];
    body.extend_from_slice(&5u32.to_be_bytes());
    body.extend_from_slice(&6u32.to_be_bytes());
    body.extend_from_slice(&u32::MAX.to_be_bytes());
    body.push(0x02);
    body.extend_from_slice(&8u32.to_be_bytes());
    body.extend_from_slice(&9u32.to_be_bytes());
    body.extend_from_slice(&(u32::MAX - 1).to_be_bytes());
    let subs = segment_records(&body, IdSize::U32);
    match (&subs[0], &subs[1]) {
        (SubRecord::GcRootJavaStackFrame(a), SubRecord::GcRootJniLocalRef(b)) => {
            assert_eq!(None, a.frame_index());
            assert_eq!(Id::from(5), a.obj_id());
            assert_eq!(Some(u32::MAX - 1), b.frame_index());
        }
        _ => panic!("expected stack-frame roots"),
    }
}

#[test]
fn empty_object_array_has_empty_contents() {
    let mut body = vec![0x22];
    body.extend_from_slice(&1u32.to_be_bytes());
    body.extend_from_slice(&0u32.to_be_bytes());
    body.extend_from_slice(&0u32.to_be_bytes());
    body.extend_from_slice(&2u32.to_be_bytes());
    let subs = segment_records(&body, IdSize::U32);
    match &subs[0] {
        SubRecord::ObjectArray(a) => {
            assert!(a.contents.is_empty());
            assert_eq!(Id::from(2), a.array_class_obj_id());
            assert_eq!(None, a.elements(IdSize::U32).next());
        }
        _ => panic!("expected an object array"),
    }
}

#[test]
fn object_array_elements_map_zero_to_none() {
    let mut body = vec![0x22];
    body.extend_from_slice(&1u32.to_be_bytes());
    body.extend_from_slice(&0u32.to_be_bytes());
    body.extend_from_slice(&2u32.to_be_bytes());
    body.extend_from_slice(&2u32.to_be_bytes());
    body.extend_from_slice(&0u32.to_be_bytes());
    body.extend_from_slice(&0x77u32.to_be_bytes());
    let subs = segment_records(&body, IdSize::U32);
    match &subs[0] {
        SubRecord::ObjectArray(a) => {
            let mut it = a.elements(IdSize::U32);
            assert_eq!(Some(Ok(None)), it.next());
            assert_eq!(Some(Ok(Some(Id::from(0x77)))), it.next());
            assert_eq!(None, it.next());
        }
        _ => panic!("expected an object array"),
    }
}

fn prim_array(type_code: u8, n: u32, contents: &[u8]) -> Vec<u8> {
    let mut body = vec![0x23];
    body.extend_from_slice(&0x10u32.to_be_bytes());
    body.extend_from_slice(&0u32.to_be_bytes());
    body.extend_from_slice(&n.to_be_bytes());
    body.push(type_code);
    body.extend_from_slice(contents);
    body
}

#[test]
fn empty_primitive_array_has_no_elements() {
    let body = prim_array(0x0A, 0, &[]);
    let subs = segment_records(&body, IdSize::U32);
    match &subs[0] {
        SubRecord::PrimitiveArray(a) => {
            assert_eq!(PrimitiveArrayType::Int, a.primitive_type());
            assert!(a.longs().is_none());
            assert_eq!(None, a.ints().unwrap().next());
        }
        _ => panic!("expected a primitive array"),
    }
}

#[test]
fn primitive_array_elements_fill_its_contents() {
    let mut contents = Vec::new();
    contents.extend_from_slice(&(-1i32).to_be_bytes());
    contents.extend_from_slice(&7i32.to_be_bytes());
    let body = prim_array(0x0A, 2, &contents);
    let subs = segment_records(&body, IdSize::U32);
    match &subs[0] {
        SubRecord::PrimitiveArray(a) => {
            assert_eq!(2 * 4, a.contents.len());
            let mut it = a.ints().unwrap();
            assert_eq!(Some(Ok(-1)), it.next());
            assert_eq!(Some(Ok(7)), it.next());
            assert_eq!(None, it.next());
        }
        _ => panic!("expected a primitive array"),
    }
    let short = prim_array(0x0B, 1, &[0, 0, 0, 0]);
    let mut it = jvm_hprof::heap_dump::HeapDumpSegment { id_size: IdSize::U32, records: &short }.sub_records();
    assert!(matches!(it.next(), Some(Err(ParseError::Truncated))));
    let bad = prim_array(0x03, 0, &[]);
    let mut it = jvm_hprof::heap_dump::HeapDumpSegment { id_size: IdSize::U32, records: &bad }.sub_records();
    assert!(matches!(it.next(), Some(Err(ParseError::UnknownPrimitiveType(3)))));
}

fn class_body(id: u32, super_id: u32, cp_len: u16, statics: &[(u32, u8, Vec<u8>)], fields: &[(u32, u8)]) -> Vec<u8> {
    let mut body = vec![0x20];
    body.extend_from_slice(&id.to_be_bytes());
    body.extend_from_slice(&0u32.to_be_bytes());
    body.extend_from_slice(&super_id.to_be_bytes());
    for _ in 0..5 {
        body.extend_from_slice(&0u32.to_be_bytes());
    }
    body.extend_from_slice(&16u32.to_be_bytes());
    body.extend_from_slice(&cp_len.to_be_bytes());
    body.extend_from_slice(&(statics.len() as u16).to_be_bytes());
    for (name, t, value) in statics {
        body.extend_from_slice(&name.to_be_bytes());
        body.push(*t);
        body.extend_from_slice(value);
    }
    body.extend_from_slice(&(fields.len() as u16).to_be_bytes());
    for (name, t) in fields {
        body.extend_from_slice(&name.to_be_bytes());
        body.push(*t);
    }
    body
}

#[test]
fn class_fields_and_descriptors() {
    let body = class_body(0x50, 0x40, 0, &[(1, 0x02, 0x99u32.to_be_bytes().to_vec()), (2, 0x04, vec![1])], &[(3, 0x0A), (4, 0x02)]);
    let subs = segment_records(&body, IdSize::U32);
    let class = subs[0].as_class().unwrap();
    assert!(subs[0].as_gc_root_unknown().is_none());
    assert_eq!(Id::from(0x50), class.obj_id());
    assert_eq!(Some(Id::from(0x40)), class.super_class_obj_id());
    assert_eq!(None, class.class_loader_obj_id());
    assert_eq!(16, class.instance_size_bytes());
    let mut statics = class.static_fields();
    let first = statics.next().unwrap().unwrap();
    assert_eq!(FieldValue::ObjectId(Some(Id::from(0x99))), first.value());
    assert_eq!(FieldValue::Boolean(true), statics.next().unwrap().unwrap().value());
    assert!(statics.next().is_none());
    let mut descs = class.instance_field_descriptors();
    assert_eq!(FieldType::Int, descs.next().unwrap().unwrap().field_type());
    let d = descs.next().unwrap().unwrap();
    assert_eq!(FieldType::ObjectId, d.field_type());
    assert_eq!(Id::from(4), d.name_id());
    assert!(descs.next().is_none());
}

#[test]
fn class_with_constant_pool_is_rejected() {
    let body = class_body(0x50, 0, 1, &[], &[]);
    let mut it = jvm_hprof::heap_dump::HeapDumpSegment { id_size: IdSize::U32, records: &body }.sub_records();
    assert!(matches!(it.next(), Some(Err(ParseError::NonZeroConstantPool(1)))));
}

#[test]
fn unknown_sub_record_tag_is_an_error() {
    let body = [0x42u8, 0, 0];
    let mut it = jvm_hprof::heap_dump::HeapDumpSegment { id_size: IdSize::U32, records: &body }.sub_records();
    assert!(matches!(it.next(), Some(Err(ParseError::UnknownSubRecordTag(0x42)))));
    assert!(it.next().is_none());
}

#[test]
fn an_error_stops_the_record_stream() {
    let mut file = header(4, 0);
    file.extend(record(0x01, &[0, 0, 0, 1]));
    let mut bad = record(0x05, &[0, 0, 0, 1]);
    bad.push(0);
    bad[8] = 0x40;
    file.extend(bad);
    let hprof = parse_hprof(&file).unwrap();
    let mut it = hprof.records_iter();
    assert!(matches!(it.next(), Some(Ok(_))));
    assert!(matches!(it.next(), Some(Err(ParseError::Truncated))));
    assert!(it.next().is_none());
    assert!(it.next().is_none());
}

#[test]
fn field_values_decode_big_endian() {
    let bytes = [0xFFu8, 0xFE, 0x01];
    let (v, rest) = FieldType::Short.parse_value(&bytes, IdSize::U32).unwrap();
    assert_eq!(FieldValue::Short(-2), v);
    assert_eq!(&[0x01][..], rest);
    let (v, _) = FieldType::Byte.parse_value(&bytes, IdSize::U32).unwrap();
    assert_eq!(FieldValue::Byte(-1), v);
    let (v, _) = FieldType::Char.parse_value(&bytes, IdSize::U32).unwrap();
    assert_eq!(FieldValue::Char(0xFFFE), v);
    let f = 1.5f32.to_bits().to_be_bytes();
    let (v, _) = FieldType::Float.parse_value(&f, IdSize::U32).unwrap();
    assert_eq!(FieldValue::Float(1.5f32.to_bits()), v);
    assert_eq!(Err(ParseError::Truncated), FieldType::Long.parse_value(&bytes, IdSize::U32).map(|(v, _)| v));
    assert_eq!("Object", FieldType::ObjectId.java_type_name());
}

#[test]
fn tag_and_type_tables() {
    let tags = RecordTag::iter();
    assert_eq!(14, tags.len());
    for t in tags {
        assert_eq!(Some(t), RecordTag::from_tag_byte(t.tag_byte()));
    }
    assert!(RecordTag::HeapSummary < RecordTag::StartThread);
    let types = PrimitiveArrayType::iter();
    assert_eq!(8, types.len());
    for t in types {
        assert_eq!(Some(t), PrimitiveArrayType::from_type_code(t.type_code()));
    }
    assert_eq!(None, PrimitiveArrayType::from_type_code(0x02));
    assert_eq!("long", PrimitiveArrayType::Long.java_type_name());
    assert_eq!(0x0B, PrimitiveArrayType::Long.type_code());
}

#[test]
fn parsing_the_same_bytes_twice_agrees() {
    let file = tiny_file();
    let copy = file.clone();
    let a = all_records(&file);
    let b = all_records(&copy);
    assert_eq!(a.len(), b.len());
    for (x, y) in a.iter().zip(b.iter()) {
        assert_eq!(x.tag(), y.tag());
        assert_eq!(x.micros_since_header_ts(), y.micros_since_header_ts());
        assert_eq!(x.body, y.body);
    }
}

#[test]
fn records_vec_reads_the_whole_stream_each_time() {
    let file = tiny_file();
    let hprof = parse_hprof(&file).unwrap();
    let first = hprof.records_vec().unwrap();
    let second = hprof.records_vec().unwrap();
    assert_eq!(2, first.len());
    assert_eq!(first.len(), second.len());
    assert_eq!(RecordTag::Utf8, first[0].tag());
    assert_eq!(RecordTag::LoadClass, second[1].tag());
    let mut bad = tiny_file();
    bad.push(0x77);
    let hprof = parse_hprof(&bad).unwrap();
    assert_eq!(Some(ParseError::UnknownRecordTag(0x77)), hprof.records_vec().err());
}
