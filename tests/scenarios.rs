use kafka_lite::cluster_metadata::RecordBatches;
use kafka_lite::describe_topic_partitions::Topic;
use kafka_lite::protocol::ErrorCode;
use kafka_lite::fetch::topic_names;
use kafka_lite::server::{decode_request, process_message, Request};

fn be16(out: &mut Vec<u8>, v: u16) {
    out.extend_from_slice(&v.to_be_bytes());
}

fn be32(out: &mut Vec<u8>, v: u32) {
    out.extend_from_slice(&v.to_be_bytes());
}

fn be64(out: &mut Vec<u8>, v: u64) {
    out.extend_from_slice(&v.to_be_bytes());
}

fn zz(out: &mut Vec<u8>, v: i64) {
    let mut u = ((v << 1) ^ (v >> 63)) as u64;
    while u >= 0x80 {
        out.push((u as u8) | 0x80);
        u >>= 7;
    }
    out.push(u as u8);
}

const TOPIC_ID: [u8; 16] = [
    0x00, 0x00, 0x00, 0x00, 0x00, 0x00, 0x40, 0x00, 0x80, 0x00, 0x00, 0x00, 0x00, 0x00, 0x00, 0x91,
];
const DIRECTORY: [u8; 16] = [0x11; 16];
const UNKNOWN_ID: [u8; 16] = [
    0x00, 0x00, 0x00, 0x00, 0x00, 0x00, 0x40, 0x00, 0x80, 0x00, 0x00, 0x00, 0x00, 0x00, 0x00, 0x55,
];

fn topic_value(name: &str, id: &[u8; 16]) -> Vec<u8> {
    let mut v = vec![1, 2, 0];
    v.push(name.len() as u8 + 1);
    v.extend_from_slice(name.as_bytes());
    v.extend_from_slice(id);
    v.push(0);
    v
}

fn partition_value(index: u32, id: &[u8; 16]) -> Vec<u8> {
    let mut v = vec![1, 3, 1];
    be32(&mut v, index);
    v.extend_from_slice(id);
    v.push(2);
    be32(&mut v, 1);
    v.push(2);
    be32(&mut v, 1);
    v.push(1);
    v.push(1);
    be32(&mut v, 1);
    be32(&mut v, 0);
    be32(&mut v, 0);
    v.push(2);
    v.extend_from_slice(&DIRECTORY);
    v.push(0);
    v
}

fn record(offset: i64, value: &[u8]) -> Vec<u8> {
    let mut body = vec![0u8];
    zz(&mut body, 0);
    zz(&mut body, offset);
    zz(&mut body, -1);
    zz(&mut body, value.len() as i64);
    body.extend_from_slice(value);
    body.push(0);
    let mut r = Vec::new();
    zz(&mut r, body.len() as i64);
    r.extend_from_slice(&body);
    r
}

fn batch(values: &[Vec<u8>]) -> Vec<u8> {
    let mut records = Vec::new();
    for (i, v) in values.iter().enumerate() {
        records.extend_from_slice(&record(i as i64, v));
    }
    let mut b = Vec::new();
    be64(&mut b, 0);
    be32(&mut b, (49 + records.len()) as u32);
    be32(&mut b, 1);
    b.push(2);
    be32(&mut b, 0xdead_beef);
    be16(&mut b, 0);
    be32(&mut b, values.len() as u32 - 1);
    be64(&mut b, 1_726_045_943_832);
    be64(&mut b, 1_726_045_943_832);
    be64(&mut b, u64::MAX);
    be16(&mut b, u16::MAX);
    be32(&mut b, u32::MAX);
    be32(&mut b, values.len() as u32);
    b.extend_from_slice(&records);
    b
}

fn metadata_log() -> Vec<u8> {
    let mut log = batch(&[topic_value("bar", &TOPIC_ID)]);
    log.extend_from_slice(&batch(&[
        partition_value(0, &TOPIC_ID),
        partition_value(1, &TOPIC_ID),
    ]));
    log
}

fn header(api_key: u16, api_version: u16, correlation_id: u32) -> Vec<u8> {
    let mut m = Vec::new();
    be16(&mut m, api_key);
    be16(&mut m, api_version);
    be32(&mut m, correlation_id);
    be16(&mut m, 9);
    m.extend_from_slice(b"kafka-cli");
    m.push(0);
    m
}

fn framed(payload: &[u8]) -> Vec<u8> {
    let mut f = Vec::new();
    be32(&mut f, payload.len() as u32);
    f.extend_from_slice(payload);
    f
}

fn api_versions_payload(correlation_id: u32, error_code: u16) -> Vec<u8> {
    let mut p = Vec::new();
    be32(&mut p, correlation_id);
    be16(&mut p, error_code);
    p.push(4);
    for (key, min, max) in [(18u16, 0u16, 4u16), (75, 0, 0), (1, 0, 16)] {
        be16(&mut p, key);
        be16(&mut p, min);
        be16(&mut p, max);
        p.push(0);
    }
    be32(&mut p, 0);
    p.push(0);
    p
}

#[test]
fn api_versions_happy_path() {
    let msg = [
        0x00, 0x12, 0x00, 0x04, 0x6f, 0x7f, 0xc6, 0x61, 0x00, 0x09, 0x6b, 0x61, 0x66, 0x6b, 0x61,
        0x2d, 0x63, 0x6c, 0x69, 0x00,
    ];
    let out = process_message(&msg, &[], &Vec::new()).unwrap();
    assert_eq!(out, framed(&api_versions_payload(0x6f7f_c661, 0)));
    assert_eq!(&out[0..4], &[0, 0, 0, 33]);
}

#[test]
fn api_versions_unsupported_version() {
    let msg = [
        0x00, 0x12, 0x00, 0x2a, 0x6f, 0x7f, 0xc6, 0x61, 0x00, 0x09, 0x6b, 0x61, 0x66, 0x6b, 0x61,
        0x2d, 0x63, 0x6c, 0x69, 0x00,
    ];
    let out = process_message(&msg, &[], &Vec::new()).unwrap();
    assert_eq!(out, framed(&api_versions_payload(0x6f7f_c661, 35)));
}

fn dtp_request(names: &[&str]) -> Vec<u8> {
    let mut m = header(75, 0, 7);
    m.push(names.len() as u8 + 1);
    for n in names {
        m.push(n.len() as u8 + 1);
        m.extend_from_slice(n.as_bytes());
        m.push(0);
    }
    be32(&mut m, 100);
    m.push(0xff);
    m.push(0);
    m
}

#[test]
fn describe_unknown_topic() {
    let msg = dtp_request(&["foo"]);
    let out = process_message(&msg, &metadata_log(), &Vec::new()).unwrap();
    let mut p = Vec::new();
    be32(&mut p, 7);
    p.push(0);
    be32(&mut p, 0);
    p.push(2);
    be16(&mut p, 3);
    p.push(4);
    p.extend_from_slice(b"foo");
    p.extend_from_slice(&[0u8; 16]);
    p.push(0);
    p.push(1);
    be32(&mut p, 0xdf);
    p.push(0);
    p.push(0xff);
    p.push(0);
    assert_eq!(out, framed(&p));
}

#[test]
fn describe_known_topic_with_two_partitions() {
    let msg = dtp_request(&["bar"]);
    let out = process_message(&msg, &metadata_log(), &Vec::new()).unwrap();
    let mut p = Vec::new();
    be32(&mut p, 7);
    p.push(0);
    be32(&mut p, 0);
    p.push(2);
    be16(&mut p, 0);
    p.push(4);
    p.extend_from_slice(b"bar");
    p.extend_from_slice(&TOPIC_ID);
    p.push(0);
    p.push(3);
    for index in [0u32, 1] {
        be16(&mut p, 0);
        be32(&mut p, index);
        be32(&mut p, 1);
        be32(&mut p, 0);
        p.push(2);
        be32(&mut p, 1);
        p.push(2);
        be32(&mut p, 1);
        p.push(1);
        p.push(1);
        p.push(1);
        p.push(0);
    }
    be32(&mut p, 0xdf);
    p.push(0);
    p.push(0xff);
    p.push(0);
    assert_eq!(out, framed(&p));
}

fn fetch_request(topic_id: &[u8; 16]) -> Vec<u8> {
    let mut m = header(1, 16, 9);
    be32(&mut m, 500);
    be32(&mut m, 1);
    be32(&mut m, 0x0320_0000);
    m.push(0);
    be32(&mut m, 0);
    be32(&mut m, 0);
    m.push(2);
    m.extend_from_slice(topic_id);
    m.push(2);
    be32(&mut m, 0);
    be32(&mut m, 0);
    be64(&mut m, 0);
    be32(&mut m, 0xffff_ffff);
    be64(&mut m, 0);
    be32(&mut m, 0x0010_0000);
    m.push(0);
    m.push(0);
    m.push(1);
    m.push(1);
    m.push(0);
    m
}

fn fetch_payload(topic_id: &[u8; 16], error_code: u16, segment: Option<&[u8]>) -> Vec<u8> {
    let mut p = Vec::new();
    be32(&mut p, 9);
    p.push(0);
    be32(&mut p, 0);
    be16(&mut p, 0);
    be32(&mut p, 0);
    p.push(2);
    p.extend_from_slice(topic_id);
    p.push(2);
    be32(&mut p, 0);
    be16(&mut p, error_code);
    be64(&mut p, 0);
    be64(&mut p, 0);
    be64(&mut p, 0);
    p.push(1);
    be32(&mut p, 0);
    match segment {
        Some(s) => {
            p.push(2);
            p.extend_from_slice(s);
        }
        None => p.push(1),
    }
    p.push(0);
    p.push(0);
    p.push(0);
    p
}

#[test]
fn fetch_unknown_topic_id() {
    let msg = fetch_request(&UNKNOWN_ID);
    let log = RecordBatches::from_bytes(&metadata_log()).unwrap();
    let req = decode_request(&msg).unwrap();
    let names = match &req {
        Request::Fetch(_, f) => topic_names(f, &log),
        _ => panic!("not a fetch request"),
    };
    assert_eq!(names, vec![None]);
    let segments = vec![vec![None]];
    let out = process_message(&msg, &metadata_log(), &segments).unwrap();
    assert_eq!(out, framed(&fetch_payload(&UNKNOWN_ID, 100, None)));
}

#[test]
fn fetch_known_topic_id() {
    let msg = fetch_request(&TOPIC_ID);
    let log = RecordBatches::from_bytes(&metadata_log()).unwrap();
    let req = decode_request(&msg).unwrap();
    let names = match &req {
        Request::Fetch(_, f) => topic_names(f, &log),
        _ => panic!("not a fetch request"),
    };
    assert_eq!(names, vec![Some("bar".to_string())]);
    let segment: Vec<u8> = (0..73u8).collect();
    let segments = vec![vec![Some(segment.clone())]];
    let out = process_message(&msg, &metadata_log(), &segments).unwrap();
    assert_eq!(out, framed(&fetch_payload(&TOPIC_ID, 0, Some(&segment))));
}

#[test]
fn responses_are_deterministic() {
    let msg = dtp_request(&["bar", "foo"]);
    let a = process_message(&msg, &metadata_log(), &Vec::new()).unwrap();
    let b = process_message(&msg, &metadata_log(), &Vec::new()).unwrap();
    assert_eq!(a, b);
}

#[test]
fn frame_length_matches_payload() {
    let msg = dtp_request(&["bar", "foo"]);
    let out = process_message(&msg, &metadata_log(), &Vec::new()).unwrap();
    let len = u32::from_be_bytes([out[0], out[1], out[2], out[3]]) as usize;
    assert_eq!(len, out.len() - 4);
    assert_eq!(&out[4..8], &[0, 0, 0, 7]);
}

#[test]
fn metadata_log_catalog() {
    let log = RecordBatches::from_bytes(&metadata_log()).unwrap();
    assert_eq!(log.batches().len(), 2);
    assert_eq!(log.values().len(), 3);
    let name = kafka_lite::codec::CompactNullableString(Some("bar".to_string()));
    let id = log.topic_id_for_name(&name).unwrap();
    assert_eq!(id.0, "00000000-0000-4000-8000-000000000091");
    assert_eq!(log.topic_name_for_id(&id), Some("bar".to_string()));
    let parts = log.partitions_for(&id);
    assert_eq!(parts.len(), 2);
    assert_eq!(parts[0].partition_id, 0);
    assert_eq!(parts[1].partition_id, 1);
    assert_eq!(parts[0].replicas, vec![1]);
    assert_eq!(parts[0].directories[0].0, "11111111-1111-1111-1111-111111111111");
    let other = kafka_lite::codec::CompactNullableString(Some("foo".to_string()));
    assert!(log.topic_id_for_name(&other).is_none());
    assert!(log.topic_name_for_id(&kafka_lite::codec::nil_uuid()).is_none());
}

#[test]
fn metadata_log_empty_and_truncated() {
    assert_eq!(RecordBatches::from_bytes(&[]).unwrap().batches().len(), 0);
    let log = metadata_log();
    assert_eq!(
        RecordBatches::from_bytes(&log[..log.len() - 3]).unwrap_err(),
        kafka_lite::codec::DecodeError::Truncated
    );
}

#[test]
fn metadata_unknown_record_type() {
    let mut value = topic_value("bar", &TOPIC_ID);
    value[1] = 9;
    let log = batch(&[value]);
    assert_eq!(
        RecordBatches::from_bytes(&log).unwrap_err(),
        kafka_lite::codec::DecodeError::UnknownRecord
    );
}

#[test]
fn metadata_tagged_fields_refused() {
    let mut value = topic_value("bar", &TOPIC_ID);
    let last = value.len() - 1;
    value[last] = 2;
    let log = batch(&[value]);
    assert_eq!(
        RecordBatches::from_bytes(&log).unwrap_err(),
        kafka_lite::codec::DecodeError::TaggedFields
    );
}

#[test]
fn unknown_api_key_refused() {
    let msg = header(99, 0, 1);
    assert_eq!(decode_request(&msg).unwrap_err(), kafka_lite::codec::DecodeError::UnknownApiKey);
    assert_eq!(
        process_message(&msg, &[], &Vec::new()).unwrap_err(),
        kafka_lite::codec::DecodeError::UnknownApiKey
    );
}

#[test]
fn request_header_tag_buffer_refused() {
    let mut msg = header(18, 4, 1);
    let last = msg.len() - 1;
    msg[last] = 1;
    assert_eq!(decode_request(&msg).unwrap_err(), kafka_lite::codec::DecodeError::TaggedFields);
}

#[test]
fn fetch_segments_must_match_request() {
    let msg = fetch_request(&TOPIC_ID);
    assert_eq!(
        process_message(&msg, &metadata_log(), &Vec::new()).unwrap_err(),
        kafka_lite::codec::DecodeError::BadLength
    );
}

#[test]
fn request_header_fields() {
    let msg = header(18, 4, 0x6f7f_c661);
    let (h, p) = kafka_lite::protocol::HeaderV2::deserialize(&msg, 0).unwrap();
    assert_eq!(h.api_key, 18);
    assert_eq!(h.api_version, 4);
    assert_eq!(h.correlation_id, 0x6f7f_c661);
    assert_eq!(h.client_id.0, Some("kafka-cli".to_string()));
    assert_eq!(p, msg.len());
    let req = decode_request(&msg).unwrap();
    assert!(!req.needs_metadata());
    assert_eq!(req.correlation_id(), 0x6f7f_c661);
}

#[test]
fn describe_response_with_malformed_uuid_is_not_encodable() {
    let t = Topic {
        error_code: ErrorCode::NoError,
        name: kafka_lite::codec::CompactNullableString(None),
        topic_id: kafka_lite::codec::Uuid("zz".to_string()),
        is_internal: false,
        partitions: Vec::new(),
        topic_authorized_operations: 0,
    };
    assert!(!t.is_encodable());
}
