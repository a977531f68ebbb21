//! The KRaft metadata log: record batches, their records and the typed
//! record values, and the topic catalog that they describe.
use vstd::prelude::*;
use crate::codec::{
    read_bytes, read_compact_array, read_compact_nullable_string, read_i16, read_i32, read_i64,
    read_i8, read_int32_array, read_u16, read_u32, read_u32_array, read_u8, read_uuid,
    read_zzvarint, spec_read_bytes, spec_read_compact_array, spec_read_compact_nullable_string,
    spec_read_i16, spec_read_i32, spec_read_i64, spec_read_i8, spec_read_int32_array, spec_read_u16,
    spec_read_u32, spec_read_u8, spec_read_uuid, spec_read_zzvarint, view_decoded, views,
    views_decoded, CompactNullableString, DecodeError, Decoded, Uuid, be_bytes, write_i16,
    write_i32, write_i64, write_i8, write_u32,
};

verus! {

/// A Topic record: a topic's name and id.
#[derive(Debug, Clone)]
pub struct TopicValue {
    pub topic_name: CompactNullableString,
    pub topic_id: Uuid,
}

/// A Partition record: one partition of a topic and its replicas.
#[derive(Debug, Clone)]
pub struct PartitionValue {
    pub partition_id: u32,
    pub topic_id: Uuid,
    pub replicas: Vec<u32>,
    pub in_sync_replicas: Vec<u32>,
    pub removing_replicas: Vec<u32>,
    pub adding_replicas: Vec<u32>,
    pub leader_id: u32,
    pub leader_epoch: u32,
    pub partition_epoch: u32,
    pub directories: Vec<Uuid>,
}

/// A FeatureLevel record: a feature's name and level.
#[derive(Debug, Clone)]
pub struct FeatureLevelValue {
    pub name: CompactNullableString,
    pub level: u16,
}

/// The typed value of a metadata record.
#[derive(Debug, Clone)]
pub enum RecordValue {
    FeatureLevel(FeatureLevelValue),
    Topic(TopicValue),
    Partition(PartitionValue),
}

pub struct TopicValueView {
    pub topic_name: Option<Seq<char>>,
    pub topic_id: Seq<char>,
}

pub struct PartitionValueView {
    pub partition_id: u32,
    pub topic_id: Seq<char>,
    pub replicas: Seq<u32>,
    pub in_sync_replicas: Seq<u32>,
    pub removing_replicas: Seq<u32>,
    pub adding_replicas: Seq<u32>,
    pub leader_id: u32,
    pub leader_epoch: u32,
    pub partition_epoch: u32,
    pub directories: Seq<Seq<char>>,
}

pub struct FeatureLevelValueView {
    pub name: Option<Seq<char>>,
    pub level: u16,
}

pub enum RecordValueView {
    FeatureLevel(FeatureLevelValueView),
    Topic(TopicValueView),
    Partition(PartitionValueView),
}

impl View for TopicValue {
    type V = TopicValueView;

    open spec fn view(&self) -> TopicValueView {
        TopicValueView { topic_name: self.topic_name@, topic_id: self.topic_id@ }
    }
}

impl View for PartitionValue {
    type V = PartitionValueView;

    open spec fn view(&self) -> PartitionValueView {
        PartitionValueView {
            partition_id: self.partition_id,
            topic_id: self.topic_id@,
            replicas: self.replicas@,
            in_sync_replicas: self.in_sync_replicas@,
            removing_replicas: self.removing_replicas@,
            adding_replicas: self.adding_replicas@,
            leader_id: self.leader_id,
            leader_epoch: self.leader_epoch,
            partition_epoch: self.partition_epoch,
            directories: views(self.directories@),
        }
    }
}

impl View for FeatureLevelValue {
    type V = FeatureLevelValueView;

    open spec fn view(&self) -> FeatureLevelValueView {
        FeatureLevelValueView { name: self.name@, level: self.level }
    }
}

impl View for RecordValue {
    type V = RecordValueView;

    open spec fn view(&self) -> RecordValueView {
        match self {
            RecordValue::FeatureLevel(v) => RecordValueView::FeatureLevel(v@),
            RecordValue::Topic(v) => RecordValueView::Topic(v@),
            RecordValue::Partition(v) => RecordValueView::Partition(v@),
        }
    }
}

/// A Topic record's payload: a compact nullable name and a UUID.
pub open spec fn spec_read_topic_value(s: Seq<u8>, p: usize) -> Decoded<TopicValueView> {
    match spec_read_compact_nullable_string(s, p) {
        Err(e) => Err(e),
        Ok((topic_name, p1)) => match spec_read_uuid(s, p1) {
            Err(e) => Err(e),
            Ok((topic_id, p2)) => Ok((TopicValueView { topic_name, topic_id }, p2)),
        },
    }
}

pub open spec fn spec_read_u32s(s: Seq<u8>, p: usize) -> Decoded<Seq<u32>> {
    spec_read_compact_array(s, p, |s: Seq<u8>, p: usize| spec_read_u32(s, p))
}

pub open spec fn spec_read_uuids(s: Seq<u8>, p: usize) -> Decoded<Seq<Seq<char>>> {
    spec_read_compact_array(s, p, |s: Seq<u8>, p: usize| spec_read_uuid(s, p))
}

/// A Partition record's payload.
pub open spec fn spec_read_partition_value(s: Seq<u8>, p: usize) -> Decoded<PartitionValueView> {
    match spec_read_u32(s, p) {
        Err(e) => Err(e),
        Ok((partition_id, p1)) => match spec_read_uuid(s, p1) {
            Err(e) => Err(e),
            Ok((topic_id, p2)) => match spec_read_u32s(s, p2) {
                Err(e) => Err(e),
                Ok((replicas, p3)) => match spec_read_u32s(s, p3) {
                    Err(e) => Err(e),
                    Ok((in_sync_replicas, p4)) => match spec_read_u32s(s, p4) {
                        Err(e) => Err(e),
                        Ok((removing_replicas, p5)) => match spec_read_u32s(s, p5) {
                            Err(e) => Err(e),
                            Ok((adding_replicas, p6)) => match spec_read_u32(s, p6) {
                                Err(e) => Err(e),
                                Ok((leader_id, p7)) => match spec_read_u32(s, p7) {
                                    Err(e) => Err(e),
                                    Ok((leader_epoch, p8)) => match spec_read_u32(s, p8) {
                                        Err(e) => Err(e),
                                        Ok((partition_epoch, p9)) => match spec_read_uuids(s, p9) {
                                            Err(e) => Err(e),
                                            Ok((directories, p10)) => Ok(
                                                (
                                                    PartitionValueView {
                                                        partition_id,
                                                        topic_id,
                                                        replicas,
                                                        in_sync_replicas,
                                                        removing_replicas,
                                                        adding_replicas,
                                                        leader_id,
                                                        leader_epoch,
                                                        partition_epoch,
                                                        directories,
                                                    },
                                                    p10,
                                                ),
                                            ),
                                        },
                                    },
                                },
                            },
                        },
                    },
                },
            },
        },
    }
}

/// A FeatureLevel record's payload: a compact nullable name and a u16.
pub open spec fn spec_read_feature_level_value(s: Seq<u8>, p: usize) -> Decoded<
    FeatureLevelValueView,
> {
    match spec_read_compact_nullable_string(s, p) {
        Err(e) => Err(e),
        Ok((name, p1)) => match spec_read_u16(s, p1) {
            Err(e) => Err(e),
            Ok((level, p2)) => Ok((FeatureLevelValueView { name, level }, p2)),
        },
    }
}

/// The payload for a record type and version, before the tagged-field count.
pub open spec fn spec_read_payload(s: Seq<u8>, p: usize, record_type: u8, version: u8) -> Decoded<
    RecordValueView,
> {
    if record_type == 2 && version == 0 {
        match spec_read_topic_value(s, p) {
            Ok((v, q)) => Ok((RecordValueView::Topic(v), q)),
            Err(e) => Err(e),
        }
    } else if record_type == 3 && version == 1 {
        match spec_read_partition_value(s, p) {
            Ok((v, q)) => Ok((RecordValueView::Partition(v), q)),
            Err(e) => Err(e),
        }
    } else if record_type == 12 && version == 0 {
        match spec_read_feature_level_value(s, p) {
            Ok((v, q)) => Ok((RecordValueView::FeatureLevel(v), q)),
            Err(e) => Err(e),
        }
    } else {
        Err(DecodeError::UnknownRecord)
    }
}

/// A record value: frame version 1, record type, version, the payload and a
/// zig-zag tagged-field count of 0.
pub open spec fn spec_read_record_value(s: Seq<u8>, p: usize) -> Decoded<RecordValueView> {
    match spec_read_u8(s, p) {
        Err(e) => Err(e),
        Ok((frame_version, p1)) => if frame_version != 1 {
            Err(DecodeError::UnknownRecord)
        } else {
            match spec_read_u8(s, p1) {
                Err(e) => Err(e),
                Ok((record_type, p2)) => match spec_read_u8(s, p2) {
                    Err(e) => Err(e),
                    Ok((version, p3)) => match spec_read_payload(s, p3, record_type, version) {
                        Err(e) => Err(e),
                        Ok((v, p4)) => match spec_read_zzvarint(s, p4) {
                            Err(e) => Err(e),
                            Ok((tagged, p5)) => if tagged != 0 {
                                Err(DecodeError::TaggedFields)
                            } else {
                                Ok((v, p5))
                            },
                        },
                    },
                },
            }
        },
    }
}

fn read_u32s(buf: &[u8], pos: usize) -> (r: Decoded<Vec<u32>>)
    ensures
        views_decoded(r) == spec_read_u32s(buf@, pos),
{
    read_u32_array(buf, pos)
}

fn read_uuids(buf: &[u8], pos: usize) -> (r: Decoded<Vec<Uuid>>)
    ensures
        views_decoded(r) == spec_read_uuids(buf@, pos),
{
    let elem = |b: &[u8], p: usize| -> (e: Decoded<Uuid>)
        ensures
            view_decoded(e) == spec_read_uuid(b@, p),
        { read_uuid(b, p) };
    read_compact_array(buf, pos, elem, Ghost(|s: Seq<u8>, p: usize| spec_read_uuid(s, p)))
}

impl TopicValue {
    pub fn from_bytes(buf: &[u8], pos: usize) -> (r: Decoded<TopicValue>)
        ensures
            view_decoded(r) == spec_read_topic_value(buf@, pos),
    {
        let (topic_name, p1) = read_compact_nullable_string(buf, pos)?;
        let (topic_id, p2) = read_uuid(buf, p1)?;
        Ok((TopicValue { topic_name, topic_id }, p2))
    }
}

impl PartitionValue {
    pub fn from_bytes(buf: &[u8], pos: usize) -> (r: Decoded<PartitionValue>)
        ensures
            view_decoded(r) == spec_read_partition_value(buf@, pos),
    {
        let (partition_id, p1) = read_u32(buf, pos)?;
        let (topic_id, p2) = read_uuid(buf, p1)?;
        let (replicas, p3) = read_u32s(buf, p2)?;
        let (in_sync_replicas, p4) = read_u32s(buf, p3)?;
        let (removing_replicas, p5) = read_u32s(buf, p4)?;
        let (adding_replicas, p6) = read_u32s(buf, p5)?;
        let (leader_id, p7) = read_u32(buf, p6)?;
        let (leader_epoch, p8) = read_u32(buf, p7)?;
        let (partition_epoch, p9) = read_u32(buf, p8)?;
        let (directories, p10) = read_uuids(buf, p9)?;
        proof {
            assert(replicas@ =~= views(replicas@));
            assert(in_sync_replicas@ =~= views(in_sync_replicas@));
            assert(removing_replicas@ =~= views(removing_replicas@));
            assert(adding_replicas@ =~= views(adding_replicas@));
        }
        Ok(
            (
                PartitionValue {
                    partition_id,
                    topic_id,
                    replicas,
                    in_sync_replicas,
                    removing_replicas,
                    adding_replicas,
                    leader_id,
                    leader_epoch,
                    partition_epoch,
                    directories,
                },
                p10,
            ),
        )
    }
}

impl FeatureLevelValue {
    pub fn from_bytes(buf: &[u8], pos: usize) -> (r: Decoded<FeatureLevelValue>)
        ensures
            view_decoded(r) == spec_read_feature_level_value(buf@, pos),
    {
        let (name, p1) = read_compact_nullable_string(buf, pos)?;
        let (level, p2) = read_u16(buf, p1)?;
        Ok((FeatureLevelValue { name, level }, p2))
    }
}

impl RecordValue {
    /// Reads a record value, dispatching on its record type and version.
    pub fn from_bytes(buf: &[u8], pos: usize) -> (r: Decoded<RecordValue>)
        ensures
            view_decoded(r) == spec_read_record_value(buf@, pos),
    {
        let (frame_version, p1) = read_u8(buf, pos)?;
        if frame_version != 1 {
            return Err(DecodeError::UnknownRecord);
        }
        let (record_type, p2) = read_u8(buf, p1)?;
        let (version, p3) = read_u8(buf, p2)?;
        let (value, p4) = if record_type == 2 && version == 0 {
            let (v, q) = TopicValue::from_bytes(buf, p3)?;
            (RecordValue::Topic(v), q)
        } else if record_type == 3 && version == 1 {
            let (v, q) = PartitionValue::from_bytes(buf, p3)?;
            (RecordValue::Partition(v), q)
        } else if record_type == 12 && version == 0 {
            let (v, q) = FeatureLevelValue::from_bytes(buf, p3)?;
            (RecordValue::FeatureLevel(v), q)
        } else {
            return Err(DecodeError::UnknownRecord);
        };
        let (tagged, p5) = read_zzvarint(buf, p4)?;
        if tagged != 0 {
            return Err(DecodeError::TaggedFields);
        }
        Ok((value, p5))
    }
}


/// A record header; headers are counted and otherwise skipped.
#[derive(Debug, Clone, Copy, PartialEq, Eq, Structural)]
pub struct Header;

/// One record of a batch.
#[derive(Debug, Clone)]
pub struct Record {
    pub length: i64,
    pub attributes: i8,
    pub timestamp_delta: i64,
    pub offset_delta: i64,
    pub key: Vec<u8>,
    pub value_length: i64,
    pub value: RecordValue,
    pub headers: Vec<Header>,
}

pub struct RecordView {
    pub length: i64,
    pub attributes: i8,
    pub timestamp_delta: i64,
    pub offset_delta: i64,
    pub key: Seq<u8>,
    pub value_length: i64,
    pub value: RecordValueView,
    pub headers: nat,
}

impl View for Header {
    type V = ();

    open spec fn view(&self) -> () {
        ()
    }
}

impl View for Record {
    type V = RecordView;

    open spec fn view(&self) -> RecordView {
        RecordView {
            length: self.length,
            attributes: self.attributes,
            timestamp_delta: self.timestamp_delta,
            offset_delta: self.offset_delta,
            key: self.key@,
            value_length: self.value_length,
            value: self.value@,
            headers: self.headers@.len(),
        }
    }
}

/// A record header, which takes no bytes here.
pub open spec fn spec_read_header(s: Seq<u8>, p: usize) -> Decoded<()> {
    Ok(((), p))
}

/// The key of a record: `n` bytes, or none for a length that is not positive.
pub open spec fn spec_read_key(s: Seq<u8>, p: usize, n: i64) -> Decoded<Seq<u8>> {
    if n > 0 {
        spec_read_bytes(s, p, n as nat)
    } else {
        Ok((Seq::empty(), p))
    }
}

/// A record: zig-zag length, attributes, zig-zag timestamp and offset
/// deltas, key, zig-zag value length, value and a compact array of headers.
pub open spec fn spec_read_record(s: Seq<u8>, p: usize) -> Decoded<RecordView> {
    match spec_read_zzvarint(s, p) {
        Err(e) => Err(e),
        Ok((length, p1)) => match spec_read_i8(s, p1) {
            Err(e) => Err(e),
            Ok((attributes, p2)) => match spec_read_zzvarint(s, p2) {
                Err(e) => Err(e),
                Ok((timestamp_delta, p3)) => match spec_read_zzvarint(s, p3) {
                    Err(e) => Err(e),
                    Ok((offset_delta, p4)) => match spec_read_zzvarint(s, p4) {
                        Err(e) => Err(e),
                        Ok((key_length, p5)) => match spec_read_key(s, p5, key_length) {
                            Err(e) => Err(e),
                            Ok((key, p6)) => match spec_read_zzvarint(s, p6) {
                                Err(e) => Err(e),
                                Ok((value_length, p7)) => match spec_read_record_value(s, p7) {
                                    Err(e) => Err(e),
                                    Ok((value, p8)) => match spec_read_compact_array(
                                        s,
                                        p8,
                                        |s: Seq<u8>, p: usize| spec_read_header(s, p),
                                    ) {
                                        Err(e) => Err(e),
                                        Ok((headers, p9)) => Ok(
                                            (
                                                RecordView {
                                                    length,
                                                    attributes,
                                                    timestamp_delta,
                                                    offset_delta,
                                                    key,
                                                    value_length,
                                                    value,
                                                    headers: headers.len(),
                                                },
                                                p9,
                                            ),
                                        ),
                                    },
                                },
                            },
                        },
                    },
                },
            },
        },
    }
}

fn read_key(buf: &[u8], pos: usize, n: i64) -> (r: Decoded<Vec<u8>>)
    ensures
        view_decoded(r) == spec_read_key(buf@, pos, n),
{
    if n > 0 {
        if n as u64 > buf.len() as u64 {
            return Err(DecodeError::Truncated);
        }
        read_bytes(buf, pos, n as usize)
    } else {
        Ok((Vec::new(), pos))
    }
}

impl Record {
    /// Reads one record.
    pub fn from_bytes(buf: &[u8], pos: usize) -> (r: Decoded<Record>)
        ensures
            view_decoded(r) == spec_read_record(buf@, pos),
    {
        let (length, p1) = read_zzvarint(buf, pos)?;
        let (attributes, p2) = read_i8(buf, p1)?;
        let (timestamp_delta, p3) = read_zzvarint(buf, p2)?;
        let (offset_delta, p4) = read_zzvarint(buf, p3)?;
        let (key_length, p5) = read_zzvarint(buf, p4)?;
        let (key, p6) = read_key(buf, p5, key_length)?;
        let (value_length, p7) = read_zzvarint(buf, p6)?;
        let (value, p8) = RecordValue::from_bytes(buf, p7)?;
        let elem = |b: &[u8], p: usize| -> (e: Decoded<Header>)
            ensures
                view_decoded(e) == spec_read_header(b@, p),
            { Ok((Header, p)) };
        let (headers, p9) = read_compact_array(
            buf,
            p8,
            elem,
            Ghost(|s: Seq<u8>, p: usize| spec_read_header(s, p)),
        )?;
        Ok(
            (
                Record {
                    length,
                    attributes,
                    timestamp_delta,
                    offset_delta,
                    key,
                    value_length,
                    value,
                    headers,
                },
                p9,
            ),
        )
    }
}

/// A batch of records with its header fields.
#[derive(Debug, Clone)]
pub struct RecordBatch {
    pub base_offset: i64,
    pub batch_length: i32,
    pub partition_leader_epoch: i32,
    pub magic: i8,
    pub crc: u32,
    pub attributes: i16,
    pub last_offset_delta: i32,
    pub base_timestamp: i64,
    pub max_timestamp: i64,
    pub producer_id: i64,
    pub producer_epoch: i16,
    pub base_sequence: i32,
    pub records: Vec<Record>,
}

pub struct RecordBatchView {
    pub base_offset: i64,
    pub batch_length: i32,
    pub partition_leader_epoch: i32,
    pub magic: i8,
    pub crc: u32,
    pub attributes: i16,
    pub last_offset_delta: i32,
    pub base_timestamp: i64,
    pub max_timestamp: i64,
    pub producer_id: i64,
    pub producer_epoch: i16,
    pub base_sequence: i32,
    pub records: Seq<RecordView>,
}

impl View for RecordBatch {
    type V = RecordBatchView;

    open spec fn view(&self) -> RecordBatchView {
        RecordBatchView {
            base_offset: self.base_offset,
            batch_length: self.batch_length,
            partition_leader_epoch: self.partition_leader_epoch,
            magic: self.magic,
            crc: self.crc,
            attributes: self.attributes,
            last_offset_delta: self.last_offset_delta,
            base_timestamp: self.base_timestamp,
            max_timestamp: self.max_timestamp,
            producer_id: self.producer_id,
            producer_epoch: self.producer_epoch,
            base_sequence: self.base_sequence,
            records: views(self.records@),
        }
    }
}

/// The fixed part of a batch header, read in order.
pub struct BatchHeaderView {
    pub base_offset: i64,
    pub batch_length: i32,
    pub partition_leader_epoch: i32,
    pub magic: i8,
    pub crc: u32,
    pub attributes: i16,
    pub last_offset_delta: i32,
    pub base_timestamp: i64,
    pub max_timestamp: i64,
    pub producer_id: i64,
    pub producer_epoch: i16,
    pub base_sequence: i32,
}

pub open spec fn spec_read_batch_header(s: Seq<u8>, p: usize) -> Decoded<BatchHeaderView> {
    match spec_read_i64(s, p) {
        Err(e) => Err(e),
        Ok((base_offset, p1)) => match spec_read_i32(s, p1) {
            Err(e) => Err(e),
            Ok((batch_length, p2)) => match spec_read_i32(s, p2) {
                Err(e) => Err(e),
                Ok((partition_leader_epoch, p3)) => match spec_read_i8(s, p3) {
                    Err(e) => Err(e),
                    Ok((magic, p4)) => match spec_read_u32(s, p4) {
                        Err(e) => Err(e),
                        Ok((crc, p5)) => match spec_read_i16(s, p5) {
                            Err(e) => Err(e),
                            Ok((attributes, p6)) => match spec_read_i32(s, p6) {
                                Err(e) => Err(e),
                                Ok((last_offset_delta, p7)) => match spec_read_i64(s, p7) {
                                    Err(e) => Err(e),
                                    Ok((base_timestamp, p8)) => match spec_read_i64(s, p8) {
                                        Err(e) => Err(e),
                                        Ok((max_timestamp, p9)) => match spec_read_i64(s, p9) {
                                            Err(e) => Err(e),
                                            Ok((producer_id, p10)) => match spec_read_i16(s, p10) {
                                                Err(e) => Err(e),
                                                Ok((producer_epoch, p11)) => match spec_read_i32(
                                                    s,
                                                    p11,
                                                ) {
                                                    Err(e) => Err(e),
                                                    Ok((base_sequence, p12)) => Ok(
                                                        (
                                                            BatchHeaderView {
                                                                base_offset,
                                                                batch_length,
                                                                partition_leader_epoch,
                                                                magic,
                                                                crc,
                                                                attributes,
                                                                last_offset_delta,
                                                                base_timestamp,
                                                                max_timestamp,
                                                                producer_id,
                                                                producer_epoch,
                                                                base_sequence,
                                                            },
                                                            p12,
                                                        ),
                                                    ),
                                                },
                                            },
                                        },
                                    },
                                },
                            },
                        },
                    },
                },
            },
        },
    }
}

/// A record batch: the fixed header and an int32-prefixed array of records.
/// Length, magic and CRC are kept as read and not checked.
#[verifier::opaque]
pub open spec fn spec_read_batch(s: Seq<u8>, p: usize) -> Decoded<RecordBatchView> {
    match spec_read_batch_header(s, p) {
        Err(e) => Err(e),
        Ok((h, p1)) => match spec_read_int32_array(
            s,
            p1,
            |s: Seq<u8>, p: usize| spec_read_record(s, p),
        ) {
            Err(e) => Err(e),
            Ok((records, p2)) => Ok(
                (
                    RecordBatchView {
                        base_offset: h.base_offset,
                        batch_length: h.batch_length,
                        partition_leader_epoch: h.partition_leader_epoch,
                        magic: h.magic,
                        crc: h.crc,
                        attributes: h.attributes,
                        last_offset_delta: h.last_offset_delta,
                        base_timestamp: h.base_timestamp,
                        max_timestamp: h.max_timestamp,
                        producer_id: h.producer_id,
                        producer_epoch: h.producer_epoch,
                        base_sequence: h.base_sequence,
                        records,
                    },
                    p2,
                ),
            ),
        },
    }
}

/// The fixed header of a batch, every field big-endian, without its records.
pub open spec fn batch_header_bytes(b: RecordBatchView) -> Seq<u8> {
    be_bytes(b.base_offset as u64 as nat, 8) + be_bytes(b.batch_length as u32 as nat, 4) + be_bytes(
        b.partition_leader_epoch as u32 as nat,
        4,
    ) + be_bytes(b.magic as u8 as nat, 1) + be_bytes(b.crc as nat, 4) + be_bytes(
        b.attributes as u16 as nat,
        2,
    ) + be_bytes(b.last_offset_delta as u32 as nat, 4) + be_bytes(b.base_timestamp as u64 as nat, 8)
        + be_bytes(b.max_timestamp as u64 as nat, 8) + be_bytes(b.producer_id as u64 as nat, 8)
        + be_bytes(b.producer_epoch as u16 as nat, 2) + be_bytes(b.base_sequence as u32 as nat, 4)
}

impl RecordBatch {
    /// The fixed header of this batch, without its records.
    pub fn serialize(&self) -> (r: Vec<u8>)
        ensures
            r@ == batch_header_bytes(self@),
    {
        let mut b: Vec<u8> = Vec::new();
        write_i64(&mut b, self.base_offset);
        write_i32(&mut b, self.batch_length);
        write_i32(&mut b, self.partition_leader_epoch);
        write_i8(&mut b, self.magic);
        write_u32(&mut b, self.crc);
        write_i16(&mut b, self.attributes);
        write_i32(&mut b, self.last_offset_delta);
        write_i64(&mut b, self.base_timestamp);
        write_i64(&mut b, self.max_timestamp);
        write_i64(&mut b, self.producer_id);
        write_i16(&mut b, self.producer_epoch);
        write_i32(&mut b, self.base_sequence);
        assert(b@ =~= batch_header_bytes(self@));
        b
    }

    /// Reads one record batch.
    pub fn from_bytes(buf: &[u8], pos: usize) -> (r: Decoded<RecordBatch>)
        ensures
            view_decoded(r) == spec_read_batch(buf@, pos),
    {
        reveal(spec_read_batch);
        let (base_offset, p1) = read_i64(buf, pos)?;
        let (batch_length, p2) = read_i32(buf, p1)?;
        let (partition_leader_epoch, p3) = read_i32(buf, p2)?;
        let (magic, p4) = read_i8(buf, p3)?;
        let (crc, p5) = read_u32(buf, p4)?;
        let (attributes, p6) = read_i16(buf, p5)?;
        let (last_offset_delta, p7) = read_i32(buf, p6)?;
        let (base_timestamp, p8) = read_i64(buf, p7)?;
        let (max_timestamp, p9) = read_i64(buf, p8)?;
        let (producer_id, p10) = read_i64(buf, p9)?;
        let (producer_epoch, p11) = read_i16(buf, p10)?;
        let (base_sequence, p12) = read_i32(buf, p11)?;
        let elem = |b: &[u8], p: usize| -> (e: Decoded<Record>)
            ensures
                view_decoded(e) == spec_read_record(b@, p),
            { Record::from_bytes(b, p) };
        let (records, p13) = read_int32_array(
            buf,
            p12,
            elem,
            Ghost(|s: Seq<u8>, p: usize| spec_read_record(s, p)),
        )?;
        Ok(
            (
                RecordBatch {
                    base_offset,
                    batch_length,
                    partition_leader_epoch,
                    magic,
                    crc,
                    attributes,
                    last_offset_delta,
                    base_timestamp,
                    max_timestamp,
                    producer_id,
                    producer_epoch,
                    base_sequence,
                    records,
                },
                p13,
            ),
        )
    }
}


/// Batches read back to back from `p` to the end of `s`.
pub open spec fn spec_read_batches(s: Seq<u8>, p: usize) -> Result<Seq<RecordBatchView>, DecodeError>
    decreases s.len() - p,
{
    if p >= s.len() {
        Ok(Seq::empty())
    } else {
        match spec_read_batch(s, p) {
            Err(e) => Err(e),
            Ok((b, q)) => if q <= p || q > s.len() {
                Err(DecodeError::BadLength)
            } else {
                match spec_read_batches(s, q) {
                    Err(e) => Err(e),
                    Ok(bs) => Ok(seq![b] + bs),
                }
            },
        }
    }
}

/// The batches of a metadata log.
#[derive(Debug, Clone)]
pub struct RecordBatches {
    pub batches: Vec<RecordBatch>,
}

impl View for RecordBatches {
    type V = Seq<RecordBatchView>;

    open spec fn view(&self) -> Seq<RecordBatchView> {
        views(self.batches@)
    }
}

/// The values of all records of `bs`, batch after batch.
pub open spec fn log_values(bs: Seq<RecordBatchView>) -> Seq<RecordValueView>
    decreases bs.len(),
{
    if bs.len() == 0 {
        Seq::empty()
    } else {
        log_values(bs.drop_last()) + bs.last().records.map_values(|r: RecordView| r.value)
    }
}

/// The characters of an optional string.
pub open spec fn opt_text(t: Option<String>) -> Option<Seq<char>> {
    match t {
        Some(s) => Some(s@),
        None => None,
    }
}

/// The id of the first Topic record named `name`.
pub open spec fn first_topic_id(vals: Seq<RecordValueView>, name: Option<Seq<char>>) -> Option<
    Seq<char>,
>
    decreases vals.len(),
{
    if vals.len() == 0 {
        None
    } else {
        match first_topic_id(vals.drop_last(), name) {
            Some(id) => Some(id),
            None => match vals.last() {
                RecordValueView::Topic(t) => if t.topic_name == name {
                    Some(t.topic_id)
                } else {
                    None
                },
                _ => None,
            },
        }
    }
}

/// The last Topic record with id `id`.
pub open spec fn last_topic_with_id(vals: Seq<RecordValueView>, id: Seq<char>) -> Option<
    TopicValueView,
>
    decreases vals.len(),
{
    if vals.len() == 0 {
        None
    } else {
        match vals.last() {
            RecordValueView::Topic(t) => if t.topic_id == id {
                Some(t)
            } else {
                last_topic_with_id(vals.drop_last(), id)
            },
            _ => last_topic_with_id(vals.drop_last(), id),
        }
    }
}

/// The name of topic `id`: that of its last Topic record, when it is
/// neither null nor empty.
pub open spec fn topic_name_of(vals: Seq<RecordValueView>, id: Seq<char>) -> Option<Seq<char>> {
    match last_topic_with_id(vals, id) {
        Some(t) => match t.topic_name {
            Some(n) => if n.len() > 0 {
                Some(n)
            } else {
                None
            },
            None => None,
        },
        None => None,
    }
}

/// The Partition records of topic `id`, in log order.
pub open spec fn partitions_of(vals: Seq<RecordValueView>, id: Seq<char>) -> Seq<PartitionValueView>
    decreases vals.len(),
{
    if vals.len() == 0 {
        Seq::empty()
    } else {
        partitions_of(vals.drop_last(), id) + match vals.last() {
            RecordValueView::Partition(p) => if p.topic_id == id {
                seq![p]
            } else {
                Seq::empty()
            },
            _ => Seq::empty(),
        }
    }
}

/// Whether two optional strings are equal.
pub fn same_name(a: &CompactNullableString, b: &CompactNullableString) -> (r: bool)
    ensures
        r == (a@ == b@),
{
    match &a.0 {
        Some(x) => match &b.0 {
            Some(y) => {
                let e = x.eq(y);
                assert(e == (x@ == y@));
                e
            },
            None => false,
        },
        None => b.0.is_none(),
    }
}

/// Whether two UUIDs have the same text.
pub fn same_uuid(a: &Uuid, b: &Uuid) -> (r: bool)
    ensures
        r == (a@ == b@),
{
    a.0 == b.0
}

pub fn copy_uuid(u: &Uuid) -> (r: Uuid)
    ensures
        r@ == u@,
{
    Uuid(u.0.clone())
}

pub fn copy_name(n: &CompactNullableString) -> (r: CompactNullableString)
    ensures
        r@ == n@,
{
    match &n.0 {
        Some(t) => CompactNullableString(Some(t.clone())),
        None => CompactNullableString(None),
    }
}

pub fn copy_u32s(v: &Vec<u32>) -> (r: Vec<u32>)
    ensures
        r@ == v@,
{
    let mut r: Vec<u32> = Vec::new();
    let mut i: usize = 0;
    while i < v.len()
        invariant
            i <= v@.len(),
            r@ == v@.subrange(0, i as int),
        decreases v@.len() - i,
    {
        r.push(v[i]);
        i = i + 1;
        assert(r@ =~= v@.subrange(0, i as int));
    }
    assert(v@.subrange(0, i as int) =~= v@);
    r
}

pub fn copy_uuids(v: &Vec<Uuid>) -> (r: Vec<Uuid>)
    ensures
        views(r@) == views(v@),
{
    let mut r: Vec<Uuid> = Vec::new();
    let mut i: usize = 0;
    while i < v.len()
        invariant
            i <= v@.len(),
            views(r@) == views(v@.subrange(0, i as int)),
        decreases v@.len() - i,
    {
        let ghost prev = views(r@);
        r.push(copy_uuid(&v[i]));
        assert(views(r@) =~= prev.push(v@[i as int]@));
        i = i + 1;
        assert(views(r@) =~= views(v@.subrange(0, i as int)));
    }
    assert(v@.subrange(0, i as int) =~= v@);
    r
}

impl PartitionValue {
    /// A copy of this record.
    pub fn copy(&self) -> (r: PartitionValue)
        ensures
            r@ == self@,
    {
        PartitionValue {
            partition_id: self.partition_id,
            topic_id: copy_uuid(&self.topic_id),
            replicas: copy_u32s(&self.replicas),
            in_sync_replicas: copy_u32s(&self.in_sync_replicas),
            removing_replicas: copy_u32s(&self.removing_replicas),
            adding_replicas: copy_u32s(&self.adding_replicas),
            leader_id: self.leader_id,
            leader_epoch: self.leader_epoch,
            partition_epoch: self.partition_epoch,
            directories: copy_uuids(&self.directories),
        }
    }
}

impl RecordBatches {
    /// The id of the first Topic record named `name`.
    pub fn topic_id_for_name(&self, name: &CompactNullableString) -> (r: Option<Uuid>)
        ensures
            match r {
                Some(u) => first_topic_id(log_values(self@), name@) == Some(u@),
                None => first_topic_id(log_values(self@), name@) is None,
            },
    {
        let vals = self.values();
        let mut found: Option<Uuid> = None;
        let mut i: usize = 0;
        while i < vals.len()
            invariant
                i <= vals@.len(),
                views(vals@) == log_values(self@),
                match found {
                    Some(u) => first_topic_id(views(vals@).subrange(0, i as int), name@) == Some(u@),
                    None => first_topic_id(views(vals@).subrange(0, i as int), name@) is None,
                },
            decreases vals@.len() - i,
        {
            proof {
                assert(views(vals@).subrange(0, i + 1).drop_last() =~= views(vals@).subrange(0, i as int));
            }
            if found.is_none() {
                if let RecordValue::Topic(t) = vals[i] {
                    if same_name(&t.topic_name, name) {
                        found = Some(copy_uuid(&t.topic_id));
                    }
                }
            }
            i = i + 1;
        }
        assert(views(vals@).subrange(0, i as int) =~= views(vals@));
        found
    }

    /// The name of topic `topic_id`, from its last Topic record, when that
    /// name is neither null nor empty.
    pub fn topic_name_for_id(&self, topic_id: &Uuid) -> (r: Option<String>)
        ensures
            opt_text(r) == topic_name_of(log_values(self@), topic_id@),
    {
        let vals = self.values();
        let mut found: Option<&TopicValue> = None;
        let mut i: usize = 0;
        while i < vals.len()
            invariant
                i <= vals@.len(),
                views(vals@) == log_values(self@),
                match found {
                    Some(t) => last_topic_with_id(views(vals@).subrange(0, i as int), topic_id@) == Some(t@),
                    None => last_topic_with_id(views(vals@).subrange(0, i as int), topic_id@) is None,
                },
            decreases vals@.len() - i,
        {
            proof {
                assert(views(vals@).subrange(0, i + 1).drop_last() =~= views(vals@).subrange(0, i as int));
            }
            if let RecordValue::Topic(t) = vals[i] {
                if same_uuid(&t.topic_id, topic_id) {
                    found = Some(t);
                }
            }
            i = i + 1;
        }
        assert(views(vals@).subrange(0, i as int) =~= views(vals@));
        match found {
            Some(t) => match &t.topic_name.0 {
                Some(n) => if n.as_str().is_empty() {
                    None
                } else {
                    Some(n.clone())
                },
                None => None,
            },
            None => None,
        }
    }

    /// The Partition records of topic `topic_id`, in log order.
    pub fn partitions_for(&self, topic_id: &Uuid) -> (r: Vec<PartitionValue>)
        ensures
            views(r@) == partitions_of(log_values(self@), topic_id@),
    {
        let vals = self.values();
        let mut found: Vec<PartitionValue> = Vec::new();
        let mut i: usize = 0;
        while i < vals.len()
            invariant
                i <= vals@.len(),
                views(vals@) == log_values(self@),
                views(found@) == partitions_of(views(vals@).subrange(0, i as int), topic_id@),
            decreases vals@.len() - i,
        {
            proof {
                assert(views(vals@).subrange(0, i + 1).drop_last() =~= views(vals@).subrange(0, i as int));
            }
            let ghost prev = views(found@);
            if let RecordValue::Partition(p) = vals[i] {
                if same_uuid(&p.topic_id, topic_id) {
                    found.push(p.copy());
                    assert(views(found@) =~= prev + seq![p@]);
                } else {
                    assert(views(found@) =~= prev + Seq::<PartitionValueView>::empty());
                }
            } else {
                assert(views(found@) =~= prev + Seq::<PartitionValueView>::empty());
            }
            i = i + 1;
        }
        assert(views(vals@).subrange(0, i as int) =~= views(vals@));
        found
    }

    /// Reads the record batches that fill `buf`.
    pub fn from_bytes(buf: &[u8]) -> (r: Result<RecordBatches, DecodeError>)
        ensures
            match r {
                Ok(bs) => spec_read_batches(buf@, 0) == Ok::<_, DecodeError>(bs@),
                Err(e) => spec_read_batches(buf@, 0) == Err::<Seq<RecordBatchView>, _>(e),
            },
    {
        let mut batches: Vec<RecordBatch> = Vec::new();
        let mut pos: usize = 0;
        while pos < buf.len()
            invariant
                spec_read_batches(buf@, 0) == match spec_read_batches(buf@, pos) {
                    Ok(rest) => Ok(views(batches@) + rest),
                    Err(e) => Err(e),
                },
            decreases buf@.len() - pos,
        {
            let ghost before = views(batches@);
            let (b, q) = RecordBatch::from_bytes(buf, pos)?;
            if q <= pos || q > buf.len() {
                return Err(DecodeError::BadLength);
            }
            let ghost bv = b@;
            batches.push(b);
            proof {
                assert(views(batches@) =~= before + seq![bv]);
                match spec_read_batches(buf@, q) {
                    Ok(rest) => {
                        assert(before + (seq![bv] + rest) =~= before + seq![bv] + rest);
                    },
                    Err(e) => {},
                }
            }
            pos = q;
        }
        assert(views(batches@) + Seq::<RecordBatchView>::empty() =~= views(batches@));
        Ok(RecordBatches { batches })
    }

    /// The values of all records, batch after batch.
    pub fn values(&self) -> (r: Vec<&RecordValue>)
        ensures
            views(r@) == log_values(self@),
    {
        let mut vals: Vec<&RecordValue> = Vec::new();
        let mut i: usize = 0;
        while i < self.batches.len()
            invariant
                i <= self.batches@.len(),
                views(vals@) == log_values(views(self.batches@.subrange(0, i as int))),
            decreases self.batches@.len() - i,
        {
            let batch = &self.batches[i];
            let ghost start = views(vals@);
            let mut j: usize = 0;
            while j < batch.records.len()
                invariant
                    j <= batch.records@.len(),
                    i < self.batches@.len(),
                    batch == self.batches@[i as int],
                    views(vals@) == start + views(batch.records@.subrange(0, j as int)).map_values(
                        |r: RecordView| r.value,
                    ),
                decreases batch.records@.len() - j,
            {
                let ghost prev = views(vals@);
                vals.push(&batch.records[j].value);
                proof {
                    assert(views(vals@) =~= prev.push(batch.records@[j as int].value@));
                    assert(views(batch.records@.subrange(0, j + 1)).map_values(
                        |r: RecordView| r.value,
                    ) =~= views(batch.records@.subrange(0, j as int)).map_values(
                        |r: RecordView| r.value,
                    ).push(batch.records@[j as int].value@));
                    assert(views(vals@) =~= start + views(batch.records@.subrange(0, j + 1)).map_values(
                        |r: RecordView| r.value,
                    ));
                }
                j = j + 1;
            }
            proof {
                let bs = views(self.batches@.subrange(0, i + 1));
                assert(bs.drop_last() =~= views(self.batches@.subrange(0, i as int)));
                assert(batch.records@.subrange(0, j as int) =~= batch.records@);
                assert(bs.last() == batch@);
                assert(views(vals@) =~= log_values(bs));
            }
            i = i + 1;
        }
        assert(self.batches@.subrange(0, i as int) =~= self.batches@);
        vals
    }

    pub fn batches(&self) -> (r: &Vec<RecordBatch>)
        ensures
            r == &self.batches,
    {
        &self.batches
    }
}


/// A record value whose frame version, type, version and payload read is
/// accepted exactly when the tagged-field count after its payload is zero.
pub proof fn law_record_value_tag_buffer(
    s: Seq<u8>,
    p: usize,
    record_type: u8,
    version: u8,
    v: RecordValueView,
    q: usize,
)
    requires
        p + 3 <= usize::MAX,
        spec_read_u8(s, p) == Ok::<_, DecodeError>((1u8, (p + 1) as usize)),
        spec_read_u8(s, (p + 1) as usize) == Ok::<_, DecodeError>((record_type, (p + 2) as usize)),
        spec_read_u8(s, (p + 2) as usize) == Ok::<_, DecodeError>((version, (p + 3) as usize)),
        spec_read_payload(s, (p + 3) as usize, record_type, version) == Ok::<_, DecodeError>((v, q)),
    ensures
        spec_read_record_value(s, p) == match spec_read_zzvarint(s, q) {
            Ok((count, q2)) => if count == 0 {
                Ok::<_, DecodeError>((v, q2))
            } else {
                Err(DecodeError::TaggedFields)
            },
            Err(e) => Err(e),
        },
{
}

} // verus!
