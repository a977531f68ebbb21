use kafka_lite::api_versions::{ApiVersionsApiKey, ApiVersionsResponseV3};
use kafka_lite::cluster_metadata::RecordBatches;
use kafka_lite::codec::{CompactNullableString, NullableString, TagBuffer, Uuid};
use kafka_lite::describe_topic_partitions::{
    describe_topic, DescribeTopicPartitionsResponseV0, Partition,
};
use kafka_lite::fetch::{AbortedTransaction, BatchBytes, FetchResponseV16, TopicPartition, TopicResponse};
use kafka_lite::protocol::{ApiKey, ErrorCode, HeaderV0, HeaderV1, HeaderV2};
use kafka_lite::server::create_response_message;

#[test]
fn tag_buffer_type() {
    assert_eq!(TagBuffer::serialize(), vec![0]);
    assert_eq!(TagBuffer::deserialize(&[0, 7], 0), Ok(((), 1)));
}

#[test]
fn headers_serialize() {
    let mut out = Vec::new();
    HeaderV0::new(0x0102_0304).serialize(&mut out);
    assert_eq!(out, vec![1, 2, 3, 4]);
    let mut out = Vec::new();
    HeaderV1::new(-1).serialize(&mut out);
    assert_eq!(out, vec![0xff, 0xff, 0xff, 0xff, 0]);
}

#[test]
fn api_key_and_error_codes() {
    assert_eq!(ApiKey::from_code(1), Some(ApiKey::Fetch));
    assert_eq!(ApiKey::from_code(18), Some(ApiKey::ApiVersions));
    assert_eq!(ApiKey::from_code(75), Some(ApiKey::DescribeTopicPartitions));
    assert_eq!(ApiKey::from_code(2), None);
    assert_eq!(ApiKey::DescribeTopicPartitions.code(), 75);
    assert_eq!(ErrorCode::NoError.code(), 0);
    assert_eq!(ErrorCode::UnknownTopicOrPartition.code(), 3);
    assert_eq!(ErrorCode::UnsupportedVersion.code(), 35);
    assert_eq!(ErrorCode::UnknownTopicId.code(), 100);
}

#[test]
fn api_versions_response_fields() {
    let h = HeaderV2 {
        api_key: 18,
        api_version: -1,
        correlation_id: 5,
        client_id: NullableString(None),
    };
    let r = ApiVersionsResponseV3::new(&h);
    assert_eq!(r.header.correlation_id, 5);
    assert_eq!(r.error_code, ErrorCode::UnsupportedVersion);
    assert_eq!(r.api_keys.len(), 3);
    assert_eq!(
        r.api_keys[2],
        ApiVersionsApiKey { key: ApiKey::Fetch, min_version: 0, max_version: 16 }
    );
    assert_eq!(r.api_keys[0].serialize(), vec![0, 18, 0, 0, 0, 4, 0]);
    let b = r.as_bytes();
    assert_eq!(&b[4..6], &[0, 35]);
}

#[test]
fn partition_and_topic_encoding() {
    let p = Partition::new(ErrorCode::NoError, 2, 1, 7, vec![1, 2], vec![1], vec![], vec![], vec![3]);
    assert!(p.is_encodable());
    let b = p.serialize();
    let mut want = vec![0, 0, 0, 0, 0, 2, 0, 0, 0, 1, 0, 0, 0, 7, 3, 0, 0, 0, 1, 0, 0, 0, 2];
    want.extend_from_slice(&[2, 0, 0, 0, 1, 1, 1, 2, 0, 0, 0, 3, 0]);
    assert_eq!(b, want);
    let log = RecordBatches::from_bytes(&[]).unwrap();
    let t = describe_topic(&CompactNullableString(Some("x".to_string())), &log);
    assert_eq!(t.error_code, ErrorCode::UnknownTopicOrPartition);
    assert_eq!(t.topic_id.to_string(), "00000000-0000-0000-0000-000000000000");
    let r = DescribeTopicPartitionsResponseV0::new(3, vec![t]);
    assert!(r.is_encodable());
    assert_eq!(r.next_cursor, 0xff);
    let bytes = r.as_bytes();
    assert_eq!(bytes.len(), 4 + 1 + 4 + 1 + (2 + 2 + 16 + 1 + 1 + 4 + 1) + 1 + 1);
}

#[test]
fn fetch_response_encoding() {
    let part = TopicPartition {
        partition_index: 4,
        error_code: ErrorCode::NoError,
        high_watermark: 0,
        last_stable_offset: 0,
        log_start_offset: 0,
        aborted_transactions: vec![AbortedTransaction { producer_id: 1, first_offset: 2 }],
        preferred_read_replica: 0,
        record_batches: vec![BatchBytes { bytes: vec![9, 9, 9] }],
    };
    let t = TopicResponse::new("00000000-0000-0000-0000-00000000000a".to_string(), vec![part]);
    let r = FetchResponseV16::new(1, 77, vec![t]);
    assert!(r.is_encodable());
    let b = r.as_bytes();
    let mut want = vec![0, 0, 0, 1, 0, 0, 0, 0, 0, 0, 0, 0, 0, 0, 77, 2];
    want.extend_from_slice(&[0, 0, 0, 0, 0, 0, 0, 0, 0, 0, 0, 0, 0, 0, 0, 10, 2]);
    want.extend_from_slice(&[0, 0, 0, 4, 0, 0]);
    want.extend_from_slice(&[0u8; 24]);
    want.push(2);
    want.extend_from_slice(&[0, 0, 0, 0, 0, 0, 0, 1, 0, 0, 0, 0, 0, 0, 0, 2, 0]);
    want.extend_from_slice(&[0, 0, 0, 0]);
    want.extend_from_slice(&[2, 9, 9, 9]);
    want.extend_from_slice(&[0, 0, 0]);
    assert_eq!(b, want);
    let bad = TopicResponse::new("bad".to_string(), vec![]);
    assert!(!FetchResponseV16::new(1, 0, vec![bad]).is_encodable());
}

#[test]
fn record_batch_header_serializes() {
    let mut log = Vec::new();
    log.extend_from_slice(&5i64.to_be_bytes());
    log.extend_from_slice(&49i32.to_be_bytes());
    log.extend_from_slice(&1i32.to_be_bytes());
    log.push(2);
    log.extend_from_slice(&0xabcd_ef01u32.to_be_bytes());
    log.extend_from_slice(&0i16.to_be_bytes());
    log.extend_from_slice(&0i32.to_be_bytes());
    log.extend_from_slice(&10i64.to_be_bytes());
    log.extend_from_slice(&11i64.to_be_bytes());
    log.extend_from_slice(&(-1i64).to_be_bytes());
    log.extend_from_slice(&(-1i16).to_be_bytes());
    log.extend_from_slice(&(-1i32).to_be_bytes());
    log.extend_from_slice(&(-1i32).to_be_bytes());
    let batches = RecordBatches::from_bytes(&log).unwrap();
    assert_eq!(batches.batches().len(), 1);
    let b = &batches.batches()[0];
    assert_eq!(b.base_offset, 5);
    assert_eq!(b.crc, 0xabcd_ef01);
    assert_eq!(b.records.len(), 0);
    assert_eq!(b.serialize(), log[..57].to_vec());
}

#[test]
fn response_frame() {
    assert_eq!(create_response_message(&[7, 8]), vec![0, 0, 0, 2, 7, 8]);
    assert_eq!(create_response_message(&[]), vec![0, 0, 0, 0]);
    assert_eq!(Uuid("abc".to_string()).to_string(), "abc");
}
