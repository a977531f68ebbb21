//! The `DescribeTopicPartitions` handler: request and response version 0.
use vstd::prelude::*;
use crate::codec::{
    strip_hyphens,
    DecodeError,
    lemma_be_round_trip, lemma_pow256_8, spec_read_i16, spec_read_u32, spec_read_uuid,
    compact_array_bytes, compact_nullable_string_bytes, read_compact_array,
    read_compact_nullable_string, read_i32, read_tag_buffer, read_u8, spec_read_compact_array,
    spec_read_compact_nullable_string, spec_read_i32, spec_read_tag_buffer, spec_read_u8,
    tag_buffer_bytes, u32_bytes, uuid_bytes, view_decoded, views, write_compact_array,
    write_compact_nullable_string, write_i16, write_i32, write_tag_buffer, write_u32,
    write_u32_array, write_u8, nil_uuid, uuid_text, CompactNullableString, Decoded, Uuid,
    MAX_COMPACT_LEN,
};
use crate::cluster_metadata::{
    spec_read_u32s,
    copy_name, copy_u32s, first_topic_id, log_values, partitions_of, PartitionValue,
    PartitionValueView, RecordBatches, RecordValueView,
};
use crate::laws::{
    law_compact_nullable_string_round_trip, law_i32_round_trip, law_u8_round_trip,
    law_compact_array_round_trip, law_i16_round_trip, law_tag_buffer, law_u32_round_trip,
    lemma_split,
};
use crate::protocol::{error_code_value, error_code_bytes, header_v1_bytes, i32_bytes, ErrorCode, HeaderV1, HeaderV2};

verus! {

/// The operations a described topic reports as authorized.
pub const TOPIC_AUTHORIZED_OPERATIONS: i32 = 0x0DF;

/// The cursor value that marks the end of the listing.
pub const NO_CURSOR: u8 = 0xFF;

/// A DescribeTopicPartitions request.
#[derive(Debug, Clone)]
pub struct DescribeTopicPartitionsRequestV0 {
    pub topic_names: Vec<CompactNullableString>,
    pub response_partition_limit: i32,
    pub cursor: u8,
}

pub struct DescribeTopicPartitionsRequestV0View {
    pub topic_names: Seq<Option<Seq<char>>>,
    pub response_partition_limit: i32,
    pub cursor: u8,
}

impl View for DescribeTopicPartitionsRequestV0 {
    type V = DescribeTopicPartitionsRequestV0View;

    open spec fn view(&self) -> DescribeTopicPartitionsRequestV0View {
        DescribeTopicPartitionsRequestV0View {
            topic_names: views(self.topic_names@),
            response_partition_limit: self.response_partition_limit,
            cursor: self.cursor,
        }
    }
}

/// One requested topic: a compact nullable name and a tag buffer.
pub open spec fn spec_read_topic_name(s: Seq<u8>, p: usize) -> Decoded<Option<Seq<char>>> {
    match spec_read_compact_nullable_string(s, p) {
        Err(e) => Err(e),
        Ok((n, p1)) => match spec_read_tag_buffer(s, p1) {
            Err(e) => Err(e),
            Ok((_, p2)) => Ok((n, p2)),
        },
    }
}

/// The request body: compact array of names, partition limit, cursor byte
/// and a tag buffer.
pub open spec fn spec_read_dtp_request(s: Seq<u8>, p: usize) -> Decoded<
    DescribeTopicPartitionsRequestV0View,
> {
    match spec_read_compact_array(s, p, |s: Seq<u8>, p: usize| spec_read_topic_name(s, p)) {
        Err(e) => Err(e),
        Ok((topic_names, p1)) => match spec_read_i32(s, p1) {
            Err(e) => Err(e),
            Ok((response_partition_limit, p2)) => match spec_read_u8(s, p2) {
                Err(e) => Err(e),
                Ok((cursor, p3)) => match spec_read_tag_buffer(s, p3) {
                    Err(e) => Err(e),
                    Ok((_, p4)) => Ok(
                        (
                            DescribeTopicPartitionsRequestV0View {
                                topic_names,
                                response_partition_limit,
                                cursor,
                            },
                            p4,
                        ),
                    ),
                },
            },
        },
    }
}

fn read_topic_name(buf: &[u8], pos: usize) -> (r: Decoded<CompactNullableString>)
    ensures
        view_decoded(r) == spec_read_topic_name(buf@, pos),
{
    let (n, p1) = read_compact_nullable_string(buf, pos)?;
    let (_, p2) = read_tag_buffer(buf, p1)?;
    Ok((n, p2))
}

impl DescribeTopicPartitionsRequestV0 {
    /// Reads the request body at `pos`.
    pub fn deserialize(buf: &[u8], pos: usize) -> (r: Decoded<Self>)
        ensures
            view_decoded(r) == spec_read_dtp_request(buf@, pos),
    {
        let elem = |b: &[u8], p: usize| -> (e: Decoded<CompactNullableString>)
            ensures
                view_decoded(e) == spec_read_topic_name(b@, p),
            { read_topic_name(b, p) };
        let (topic_names, p1) = read_compact_array(
            buf,
            pos,
            elem,
            Ghost(|s: Seq<u8>, p: usize| spec_read_topic_name(s, p)),
        )?;
        let (response_partition_limit, p2) = read_i32(buf, p1)?;
        let (cursor, p3) = read_u8(buf, p2)?;
        let (_, p4) = read_tag_buffer(buf, p3)?;
        Ok((DescribeTopicPartitionsRequestV0 { topic_names, response_partition_limit, cursor }, p4))
    }
}

/// One partition of a described topic.
#[derive(Debug, Clone)]
pub struct Partition {
    pub error_code: ErrorCode,
    pub partition_index: u32,
    pub leader_id: u32,
    pub leader_epoch: u32,
    pub replicas: Vec<u32>,
    pub in_sync_replicas: Vec<u32>,
    pub eligible_leader_replicas: Vec<u32>,
    pub last_known_eligible_leader_replicas: Vec<u32>,
    pub offline_replicas: Vec<u32>,
}

pub struct PartitionView {
    pub error_code: ErrorCode,
    pub partition_index: u32,
    pub leader_id: u32,
    pub leader_epoch: u32,
    pub replicas: Seq<u32>,
    pub in_sync_replicas: Seq<u32>,
    pub eligible_leader_replicas: Seq<u32>,
    pub last_known_eligible_leader_replicas: Seq<u32>,
    pub offline_replicas: Seq<u32>,
}

impl Partition {
    pub fn new(
        error_code: ErrorCode,
        partition_index: u32,
        leader_id: u32,
        leader_epoch: u32,
        replicas: Vec<u32>,
        in_sync_replicas: Vec<u32>,
        eligible_leader_replicas: Vec<u32>,
        last_known_eligible_leader_replicas: Vec<u32>,
        offline_replicas: Vec<u32>,
    ) -> (r: Self)
        ensures
            r@ == (PartitionView {
                error_code,
                partition_index,
                leader_id,
                leader_epoch,
                replicas: replicas@,
                in_sync_replicas: in_sync_replicas@,
                eligible_leader_replicas: eligible_leader_replicas@,
                last_known_eligible_leader_replicas: last_known_eligible_leader_replicas@,
                offline_replicas: offline_replicas@,
            }),
    {
        Partition {
            error_code,
            partition_index,
            leader_id,
            leader_epoch,
            replicas,
            in_sync_replicas,
            eligible_leader_replicas,
            last_known_eligible_leader_replicas,
            offline_replicas,
        }
    }
}

impl View for Partition {
    type V = PartitionView;

    open spec fn view(&self) -> PartitionView {
        PartitionView {
            error_code: self.error_code,
            partition_index: self.partition_index,
            leader_id: self.leader_id,
            leader_epoch: self.leader_epoch,
            replicas: self.replicas@,
            in_sync_replicas: self.in_sync_replicas@,
            eligible_leader_replicas: self.eligible_leader_replicas@,
            last_known_eligible_leader_replicas: self.last_known_eligible_leader_replicas@,
            offline_replicas: self.offline_replicas@,
        }
    }
}

/// A described topic.
#[derive(Debug, Clone)]
pub struct Topic {
    pub error_code: ErrorCode,
    pub name: CompactNullableString,
    pub topic_id: Uuid,
    pub is_internal: bool,
    pub partitions: Vec<Partition>,
    pub topic_authorized_operations: i32,
}

pub struct TopicView {
    pub error_code: ErrorCode,
    pub name: Option<Seq<char>>,
    pub topic_id: Seq<char>,
    pub is_internal: bool,
    pub partitions: Seq<PartitionView>,
    pub topic_authorized_operations: i32,
}

impl View for Topic {
    type V = TopicView;

    open spec fn view(&self) -> TopicView {
        TopicView {
            error_code: self.error_code,
            name: self.name@,
            topic_id: self.topic_id@,
            is_internal: self.is_internal,
            partitions: views(self.partitions@),
            topic_authorized_operations: self.topic_authorized_operations,
        }
    }
}

/// The response partition for a Partition record: no error, its index,
/// leader and leader epoch, replicas and in-sync replicas, no eligible
/// leader replicas, and its removing replicas as offline replicas.
pub open spec fn described_partition(p: PartitionValueView) -> PartitionView {
    PartitionView {
        error_code: ErrorCode::NoError,
        partition_index: p.partition_id,
        leader_id: p.leader_id,
        leader_epoch: p.leader_epoch,
        replicas: p.replicas,
        in_sync_replicas: p.in_sync_replicas,
        eligible_leader_replicas: Seq::empty(),
        last_known_eligible_leader_replicas: Seq::empty(),
        offline_replicas: p.removing_replicas,
    }
}

/// The response entry for requested name `name` against the log values
/// `vals`: unknown with the all-zero id and no partitions when no Topic
/// record has that name, else the id of the first such record and every
/// Partition record of that id, in log order.
pub open spec fn described_topic(name: Option<Seq<char>>, vals: Seq<RecordValueView>) -> TopicView {
    match first_topic_id(vals, name) {
        None => TopicView {
            error_code: ErrorCode::UnknownTopicOrPartition,
            name,
            topic_id: uuid_text(seq![0u8; 16]),
            is_internal: false,
            partitions: Seq::empty(),
            topic_authorized_operations: TOPIC_AUTHORIZED_OPERATIONS,
        },
        Some(id) => TopicView {
            error_code: ErrorCode::NoError,
            name,
            topic_id: id,
            is_internal: false,
            partitions: partitions_of(vals, id).map_values(
                |p: PartitionValueView| described_partition(p),
            ),
            topic_authorized_operations: TOPIC_AUTHORIZED_OPERATIONS,
        },
    }
}

/// The DescribeTopicPartitions response.
#[derive(Debug, Clone)]
pub struct DescribeTopicPartitionsResponseV0 {
    pub header: HeaderV1,
    pub throttle_time_ms: i32,
    pub topics: Vec<Topic>,
    pub next_cursor: u8,
}

impl DescribeTopicPartitionsResponseV0 {
    pub fn new(correlation_id: i32, topics: Vec<Topic>) -> (r: Self)
        ensures
            r.header.correlation_id == correlation_id,
            r.throttle_time_ms == 0,
            r.topics == topics,
            r.next_cursor == NO_CURSOR,
    {
        DescribeTopicPartitionsResponseV0 {
            header: HeaderV1::new(correlation_id),
            throttle_time_ms: 0,
            topics,
            next_cursor: NO_CURSOR,
        }
    }
}

fn described(p: &PartitionValue) -> (r: Partition)
    ensures
        r@ == described_partition(p@),
{
    let r = Partition::new(
        ErrorCode::NoError,
        p.partition_id,
        p.leader_id,
        p.leader_epoch,
        copy_u32s(&p.replicas),
        copy_u32s(&p.in_sync_replicas),
        Vec::new(),
        Vec::new(),
        copy_u32s(&p.removing_replicas),
    );
    assert(r@ =~= described_partition(p@));
    r
}

/// Describes the topic named `name` from the metadata log.
pub fn describe_topic(name: &CompactNullableString, log: &RecordBatches) -> (r: Topic)
    ensures
        r@ == described_topic(name@, log_values(log@)),
{
    match log.topic_id_for_name(name) {
        None => {
            let partitions: Vec<Partition> = Vec::new();
            assert(views(partitions@) =~= Seq::<PartitionView>::empty());
            Topic {
                error_code: ErrorCode::UnknownTopicOrPartition,
                name: copy_name(name),
                topic_id: nil_uuid(),
                is_internal: false,
                partitions,
                topic_authorized_operations: TOPIC_AUTHORIZED_OPERATIONS,
            }
        },
        Some(id) => {
            let records = log.partitions_for(&id);
            let mut partitions: Vec<Partition> = Vec::new();
            let mut i: usize = 0;
            while i < records.len()
                invariant
                    i <= records@.len(),
                    views(partitions@) == views(records@).subrange(0, i as int).map_values(
                        |p: PartitionValueView| described_partition(p),
                    ),
                decreases records@.len() - i,
            {
                let ghost prev = views(partitions@);
                partitions.push(described(&records[i]));
                proof {
                    assert(views(partitions@) =~= prev.push(described_partition(records@[i as int]@)));
                    assert(views(partitions@) =~= views(records@).subrange(0, i + 1).map_values(
                        |p: PartitionValueView| described_partition(p),
                    ));
                }
                i = i + 1;
            }
            assert(views(records@).subrange(0, i as int) =~= views(records@));
            let t = Topic {
                error_code: ErrorCode::NoError,
                name: copy_name(name),
                topic_id: id,
                is_internal: false,
                partitions,
                topic_authorized_operations: TOPIC_AUTHORIZED_OPERATIONS,
            };
            assert(t@.partitions =~= partitions_of(log_values(log@), id@).map_values(
                |p: PartitionValueView| described_partition(p),
            ));
            t
        },
    }
}

/// Answers a DescribeTopicPartitions request from the metadata log: one
/// entry per requested name, in request order.
pub fn handle_request(
    header: &HeaderV2,
    req: &DescribeTopicPartitionsRequestV0,
    log: &RecordBatches,
) -> (r: DescribeTopicPartitionsResponseV0)
    ensures
        r.header.correlation_id == header.correlation_id,
        r.throttle_time_ms == 0,
        r.next_cursor == NO_CURSOR,
        views(r.topics@) == req@.topic_names.map_values(
            |n: Option<Seq<char>>| described_topic(n, log_values(log@)),
        ),
{
    let mut topics: Vec<Topic> = Vec::new();
    let mut i: usize = 0;
    while i < req.topic_names.len()
        invariant
            i <= req.topic_names@.len(),
            views(topics@) == req@.topic_names.subrange(0, i as int).map_values(
                |n: Option<Seq<char>>| described_topic(n, log_values(log@)),
            ),
        decreases req.topic_names@.len() - i,
    {
        let ghost prev = views(topics@);
        topics.push(describe_topic(&req.topic_names[i], log));
        proof {
            assert(views(topics@) =~= prev.push(
                described_topic(req.topic_names@[i as int]@, log_values(log@)),
            ));
            assert(views(topics@) =~= req@.topic_names.subrange(0, i + 1).map_values(
                |n: Option<Seq<char>>| described_topic(n, log_values(log@)),
            ));
        }
        i = i + 1;
    }
    assert(req@.topic_names.subrange(0, i as int) =~= req@.topic_names);
    DescribeTopicPartitionsResponseV0::new(header.correlation_id, topics)
}


/// A compact array of u32 values.
pub open spec fn u32_array_bytes(s: Seq<u32>) -> Seq<u8> {
    compact_array_bytes(s, |v: u32| u32_bytes(v))
}

/// A response partition: error code, index, leader, leader epoch, the five
/// replica arrays and a tag buffer.
pub open spec fn partition_bytes(p: PartitionView) -> Seq<u8> {
    error_code_bytes(p.error_code) + u32_bytes(p.partition_index) + u32_bytes(p.leader_id)
        + u32_bytes(p.leader_epoch) + u32_array_bytes(p.replicas) + u32_array_bytes(
        p.in_sync_replicas,
    ) + u32_array_bytes(p.eligible_leader_replicas) + u32_array_bytes(
        p.last_known_eligible_leader_replicas,
    ) + u32_array_bytes(p.offline_replicas) + tag_buffer_bytes()
}

/// A response topic: error code, name, id, internal flag, partitions,
/// authorized operations and a tag buffer.
pub open spec fn topic_bytes(t: TopicView) -> Seq<u8> {
    error_code_bytes(t.error_code) + compact_nullable_string_bytes(t.name) + uuid_bytes(
        t.topic_id,
    )->Some_0 + crate::codec::be_bytes(if t.is_internal {
        1
    } else {
        0
    }, 1) + compact_array_bytes(t.partitions, |p: PartitionView| partition_bytes(p)) + i32_bytes(
        t.topic_authorized_operations,
    ) + tag_buffer_bytes()
}

/// The bytes of a DescribeTopicPartitions response.
pub open spec fn dtp_response_bytes(
    correlation_id: i32,
    throttle_time_ms: i32,
    topics: Seq<TopicView>,
    next_cursor: u8,
) -> Seq<u8> {
    header_v1_bytes(correlation_id) + i32_bytes(throttle_time_ms) + compact_array_bytes(
        topics,
        |t: TopicView| topic_bytes(t),
    ) + crate::codec::be_bytes(next_cursor as nat, 1) + tag_buffer_bytes()
}

pub open spec fn partition_encodable(p: PartitionView) -> bool {
    &&& p.replicas.len() <= MAX_COMPACT_LEN
    &&& p.in_sync_replicas.len() <= MAX_COMPACT_LEN
    &&& p.eligible_leader_replicas.len() <= MAX_COMPACT_LEN
    &&& p.last_known_eligible_leader_replicas.len() <= MAX_COMPACT_LEN
    &&& p.offline_replicas.len() <= MAX_COMPACT_LEN
}

pub open spec fn topic_encodable(t: TopicView) -> bool {
    &&& crate::codec::name_encodable(t.name)
    &&& uuid_bytes(t.topic_id) is Some
    &&& t.partitions.len() <= MAX_COMPACT_LEN
    &&& forall|i: int| 0 <= i < t.partitions.len() ==> partition_encodable(#[trigger] t.partitions[i])
}

impl Partition {
    pub fn is_encodable(&self) -> (r: bool)
        ensures
            r == partition_encodable(self@),
    {
        self.replicas.len() <= MAX_COMPACT_LEN && self.in_sync_replicas.len() <= MAX_COMPACT_LEN
            && self.eligible_leader_replicas.len() <= MAX_COMPACT_LEN
            && self.last_known_eligible_leader_replicas.len() <= MAX_COMPACT_LEN
            && self.offline_replicas.len() <= MAX_COMPACT_LEN
    }

    /// The encoded partition.
    pub fn serialize(&self) -> (r: Vec<u8>)
        requires
            partition_encodable(self@),
        ensures
            r@ == partition_bytes(self@),
    {
        let mut b: Vec<u8> = Vec::new();
        write_i16(&mut b, self.error_code.code());
        write_u32(&mut b, self.partition_index);
        write_u32(&mut b, self.leader_id);
        write_u32(&mut b, self.leader_epoch);
        write_u32_array(&mut b, &self.replicas);
        write_u32_array(&mut b, &self.in_sync_replicas);
        write_u32_array(&mut b, &self.eligible_leader_replicas);
        write_u32_array(&mut b, &self.last_known_eligible_leader_replicas);
        write_u32_array(&mut b, &self.offline_replicas);
        write_tag_buffer(&mut b);
        assert(b@ =~= partition_bytes(self@));
        b
    }
}

impl Topic {
    pub fn is_encodable(&self) -> (r: bool)
        ensures
            r == topic_encodable(self@),
    {
        if !crate::codec::is_name_encodable(&self.name) || !crate::codec::is_valid_uuid(
            &self.topic_id,
        ) || self.partitions.len() > MAX_COMPACT_LEN {
            return false;
        }
        let mut i: usize = 0;
        while i < self.partitions.len()
            invariant
                i <= self.partitions@.len(),
                forall|j: int| 0 <= j < i ==> partition_encodable(#[trigger] self@.partitions[j]),
            decreases self.partitions@.len() - i,
        {
            if !self.partitions[i].is_encodable() {
                assert(self@.partitions[i as int] == self.partitions@[i as int]@);
                return false;
            }
            i = i + 1;
        }
        true
    }

    /// The encoded topic.
    pub fn serialize(&self) -> (r: Vec<u8>)
        requires
            topic_encodable(self@),
        ensures
            r@ == topic_bytes(self@),
    {
        let mut b: Vec<u8> = Vec::new();
        write_i16(&mut b, self.error_code.code());
        write_compact_nullable_string(&mut b, &self.name);
        crate::codec::write_uuid(&mut b, &self.topic_id);
        write_u8(&mut b, if self.is_internal {
            1
        } else {
            0
        });
        let enc = |p: &Partition| -> (e: Vec<u8>)
            requires
                partition_encodable(p@),
            ensures
                e@ == partition_bytes(p@),
            { p.serialize() };
        assert forall|i: int| 0 <= i < self.partitions@.len() implies partition_encodable(
            #[trigger] self.partitions@[i]@,
        ) by {
            assert(self@.partitions[i] == self.partitions@[i]@);
        }
        write_compact_array(
            &mut b,
            &self.partitions,
            enc,
            Ghost(|p: PartitionView| partition_bytes(p)),
        );
        write_i32(&mut b, self.topic_authorized_operations);
        write_tag_buffer(&mut b);
        assert(b@ =~= topic_bytes(self@));
        b
    }
}

/// Whether every topic of a response can be encoded.
pub open spec fn dtp_encodable(topics: Seq<TopicView>) -> bool {
    &&& topics.len() <= MAX_COMPACT_LEN
    &&& forall|i: int| 0 <= i < topics.len() ==> topic_encodable(#[trigger] topics[i])
}

impl DescribeTopicPartitionsResponseV0 {
    pub fn is_encodable(&self) -> (r: bool)
        ensures
            r == dtp_encodable(views(self.topics@)),
    {
        if self.topics.len() > MAX_COMPACT_LEN {
            return false;
        }
        let mut i: usize = 0;
        while i < self.topics.len()
            invariant
                i <= self.topics@.len(),
                forall|j: int| 0 <= j < i ==> topic_encodable(#[trigger] views(self.topics@)[j]),
            decreases self.topics@.len() - i,
        {
            if !self.topics[i].is_encodable() {
                assert(views(self.topics@)[i as int] == self.topics@[i as int]@);
                return false;
            }
            i = i + 1;
        }
        true
    }

    /// The encoded response.
    pub fn as_bytes(&self) -> (r: Vec<u8>)
        requires
            dtp_encodable(views(self.topics@)),
        ensures
            r@ == dtp_response_bytes(
                self.header.correlation_id,
                self.throttle_time_ms,
                views(self.topics@),
                self.next_cursor,
            ),
    {
        let mut out: Vec<u8> = Vec::new();
        self.header.serialize(&mut out);
        write_i32(&mut out, self.throttle_time_ms);
        let enc = |t: &Topic| -> (e: Vec<u8>)
            requires
                topic_encodable(t@),
            ensures
                e@ == topic_bytes(t@),
            { t.serialize() };
        assert forall|i: int| 0 <= i < self.topics@.len() implies topic_encodable(
            #[trigger] self.topics@[i]@,
        ) by {
            assert(views(self.topics@)[i] == self.topics@[i]@);
        }
        write_compact_array(&mut out, &self.topics, enc, Ghost(|t: TopicView| topic_bytes(t)));
        write_u8(&mut out, self.next_cursor);
        write_tag_buffer(&mut out);
        assert(out@ =~= dtp_response_bytes(
            self.header.correlation_id,
            self.throttle_time_ms,
            views(self.topics@),
            self.next_cursor,
        ));
        out
    }
}


/// A response partition as its fields read back from the wire.
pub struct PartitionWire {
    pub error_code: i16,
    pub partition_index: u32,
    pub leader_id: u32,
    pub leader_epoch: u32,
    pub replicas: Seq<u32>,
    pub in_sync_replicas: Seq<u32>,
    pub eligible_leader_replicas: Seq<u32>,
    pub last_known_eligible_leader_replicas: Seq<u32>,
    pub offline_replicas: Seq<u32>,
}

/// A response topic as its fields read back from the wire.
pub struct TopicWire {
    pub error_code: i16,
    pub name: Option<Seq<char>>,
    pub topic_id: Seq<char>,
    pub is_internal: u8,
    pub partitions: Seq<PartitionWire>,
    pub topic_authorized_operations: i32,
}

/// A DescribeTopicPartitions response as its fields read back from the wire.
pub struct DtpWire {
    pub correlation_id: i32,
    pub throttle_time_ms: i32,
    pub topics: Seq<TopicWire>,
    pub next_cursor: u8,
}

pub open spec fn spec_read_partition_wire(s: Seq<u8>, p: usize) -> Decoded<PartitionWire> {
    match spec_read_i16(s, p) {
        Err(e) => Err(e),
        Ok((error_code, p1)) => match spec_read_u32(s, p1) {
            Err(e) => Err(e),
            Ok((partition_index, p2)) => match spec_read_u32(s, p2) {
                Err(e) => Err(e),
                Ok((leader_id, p3)) => match spec_read_u32(s, p3) {
                    Err(e) => Err(e),
                    Ok((leader_epoch, p4)) => match spec_read_u32s(s, p4) {
                        Err(e) => Err(e),
                        Ok((replicas, p5)) => match spec_read_u32s(s, p5) {
                            Err(e) => Err(e),
                            Ok((in_sync_replicas, p6)) => match spec_read_u32s(s, p6) {
                                Err(e) => Err(e),
                                Ok((eligible_leader_replicas, p7)) => match spec_read_u32s(s, p7) {
                                    Err(e) => Err(e),
                                    Ok((last_known_eligible_leader_replicas, p8)) => match spec_read_u32s(s, p8) {
                                        Err(e) => Err(e),
                                        Ok((offline_replicas, p9)) => match spec_read_tag_buffer(s, p9) {
                                            Err(e) => Err(e),
                                            Ok((_, p10)) => Ok(
                                                (
                                                    PartitionWire {
                                                        error_code,
                                                        partition_index,
                                                        leader_id,
                                                        leader_epoch,
                                                        replicas,
                                                        in_sync_replicas,
                                                        eligible_leader_replicas,
                                                        last_known_eligible_leader_replicas,
                                                        offline_replicas,
                                                    },
                                                    p10,
                                                ),
                                            ),
                                        },
                                    },
                                },
                            },
                        },
                    },
                },
            },
        },
    }
}

pub open spec fn spec_read_topic_wire(s: Seq<u8>, p: usize) -> Decoded<TopicWire> {
    match spec_read_i16(s, p) {
        Err(e) => Err(e),
        Ok((error_code, p1)) => match spec_read_compact_nullable_string(s, p1) {
            Err(e) => Err(e),
            Ok((name, p2)) => match spec_read_uuid(s, p2) {
                Err(e) => Err(e),
                Ok((topic_id, p3)) => match spec_read_u8(s, p3) {
                    Err(e) => Err(e),
                    Ok((is_internal, p4)) => match spec_read_compact_array(
                        s,
                        p4,
                        |s: Seq<u8>, p: usize| spec_read_partition_wire(s, p),
                    ) {
                        Err(e) => Err(e),
                        Ok((partitions, p5)) => match spec_read_i32(s, p5) {
                            Err(e) => Err(e),
                            Ok((topic_authorized_operations, p6)) => match spec_read_tag_buffer(s, p6) {
                                Err(e) => Err(e),
                                Ok((_, p7)) => Ok(
                                    (
                                        TopicWire {
                                            error_code,
                                            name,
                                            topic_id,
                                            is_internal,
                                            partitions,
                                            topic_authorized_operations,
                                        },
                                        p7,
                                    ),
                                ),
                            },
                        },
                    },
                },
            },
        },
    }
}

/// A DescribeTopicPartitions response read from the wire.
pub open spec fn spec_read_dtp_response(s: Seq<u8>, p: usize) -> Decoded<DtpWire> {
    match spec_read_i32(s, p) {
        Err(e) => Err(e),
        Ok((correlation_id, p1)) => match spec_read_tag_buffer(s, p1) {
            Err(e) => Err(e),
            Ok((_, p2)) => match spec_read_i32(s, p2) {
                Err(e) => Err(e),
                Ok((throttle_time_ms, p3)) => match spec_read_compact_array(
                    s,
                    p3,
                    |s: Seq<u8>, p: usize| spec_read_topic_wire(s, p),
                ) {
                    Err(e) => Err(e),
                    Ok((topics, p4)) => match spec_read_u8(s, p4) {
                        Err(e) => Err(e),
                        Ok((next_cursor, p5)) => match spec_read_tag_buffer(s, p5) {
                            Err(e) => Err(e),
                            Ok((_, p6)) => Ok(
                                (DtpWire { correlation_id, throttle_time_ms, topics, next_cursor }, p6),
                            ),
                        },
                    },
                },
            },
        },
    }
}

/// The wire fields of a response partition.
pub open spec fn partition_wire(p: PartitionView) -> PartitionWire {
    PartitionWire {
        error_code: error_code_value(p.error_code),
        partition_index: p.partition_index,
        leader_id: p.leader_id,
        leader_epoch: p.leader_epoch,
        replicas: p.replicas,
        in_sync_replicas: p.in_sync_replicas,
        eligible_leader_replicas: p.eligible_leader_replicas,
        last_known_eligible_leader_replicas: p.last_known_eligible_leader_replicas,
        offline_replicas: p.offline_replicas,
    }
}

/// The wire fields of a response topic; its id comes back in canonical
/// text.
pub open spec fn topic_wire(t: TopicView) -> TopicWire {
    TopicWire {
        error_code: error_code_value(t.error_code),
        name: t.name,
        topic_id: uuid_text(uuid_bytes(t.topic_id)->Some_0),
        is_internal: if t.is_internal {
            1
        } else {
            0
        },
        partitions: t.partitions.map_values(|p: PartitionView| partition_wire(p)),
        topic_authorized_operations: t.topic_authorized_operations,
    }
}

proof fn lemma_u32s_round_trip(v: Seq<u32>, s: Seq<u8>, q: usize)
    requires
        s.len() <= usize::MAX,
        v.len() <= MAX_COMPACT_LEN,
        q + u32_array_bytes(v).len() <= s.len(),
        s.subrange(q as int, q + u32_array_bytes(v).len()) == u32_array_bytes(v),
    ensures
        spec_read_u32s(s, q) == Ok::<_, DecodeError>((v, (q + u32_array_bytes(v).len()) as usize)),
{
    assert forall|x: u32, s2: Seq<u8>, q2: usize|
        #![trigger v.contains(x), spec_read_u32(s2, q2)]
        v.contains(x) && s2.len() <= usize::MAX && q2 + u32_bytes(x).len() <= s2.len()
            && s2.subrange(q2 as int, q2 + u32_bytes(x).len()) == u32_bytes(x) implies spec_read_u32(
        s2,
        q2,
    ) == Ok::<_, DecodeError>((x, (q2 + u32_bytes(x).len()) as usize)) by {
        lemma_pow256_8();
        lemma_be_round_trip(x as nat, 4);
        law_u32_round_trip(x, s2, q2);
    }
    law_compact_array_round_trip(
        v,
        |x: u32| u32_bytes(x),
        |s: Seq<u8>, p: usize| spec_read_u32(s, p),
        |x: u32| x,
        s,
        q,
    );
    assert(v.map_values(|x: u32| x) =~= v);
}

#[verifier::rlimit(100)]
proof fn lemma_partition_wire_round_trip(pv: PartitionView, s: Seq<u8>, q: usize)
    requires
        partition_encodable(pv),
        s.len() <= usize::MAX,
        q + partition_bytes(pv).len() <= s.len(),
        s.subrange(q as int, q + partition_bytes(pv).len()) == partition_bytes(pv),
    ensures
        spec_read_partition_wire(s, q) == Ok::<_, DecodeError>(
            (partition_wire(pv), (q + partition_bytes(pv).len()) as usize),
        ),
{
    let e = error_code_bytes(pv.error_code);
    let i = u32_bytes(pv.partition_index);
    let l = u32_bytes(pv.leader_id);
    let ep = u32_bytes(pv.leader_epoch);
    let a1 = u32_array_bytes(pv.replicas);
    let a2 = u32_array_bytes(pv.in_sync_replicas);
    let a3 = u32_array_bytes(pv.eligible_leader_replicas);
    let a4 = u32_array_bytes(pv.last_known_eligible_leader_replicas);
    let a5 = u32_array_bytes(pv.offline_replicas);
    let t = tag_buffer_bytes();
    lemma_pow256_8();
    lemma_be_round_trip(error_code_value(pv.error_code) as u16 as nat, 2);
    lemma_be_round_trip(pv.partition_index as nat, 4);
    lemma_be_round_trip(pv.leader_id as nat, 4);
    lemma_be_round_trip(pv.leader_epoch as nat, 4);
    assert(partition_bytes(pv) =~= e + (i + (l + (ep + (a1 + (a2 + (a3 + (a4 + (a5 + t)))))))));
    let q0 = q as int;
    lemma_split(s, q0, e, i + (l + (ep + (a1 + (a2 + (a3 + (a4 + (a5 + t))))))));
    law_i16_round_trip(error_code_value(pv.error_code), s, q);
    let q1 = q0 + 2;
    lemma_split(s, q1, i, l + (ep + (a1 + (a2 + (a3 + (a4 + (a5 + t)))))));
    law_u32_round_trip(pv.partition_index, s, q1 as usize);
    let q2 = q1 + 4;
    lemma_split(s, q2, l, ep + (a1 + (a2 + (a3 + (a4 + (a5 + t))))));
    law_u32_round_trip(pv.leader_id, s, q2 as usize);
    let q3 = q2 + 4;
    lemma_split(s, q3, ep, a1 + (a2 + (a3 + (a4 + (a5 + t)))));
    law_u32_round_trip(pv.leader_epoch, s, q3 as usize);
    let q4 = q3 + 4;
    lemma_split(s, q4, a1, a2 + (a3 + (a4 + (a5 + t))));
    lemma_u32s_round_trip(pv.replicas, s, q4 as usize);
    let q5 = q4 + a1.len();
    lemma_split(s, q5, a2, a3 + (a4 + (a5 + t)));
    lemma_u32s_round_trip(pv.in_sync_replicas, s, q5 as usize);
    let q6 = q5 + a2.len();
    lemma_split(s, q6, a3, a4 + (a5 + t));
    lemma_u32s_round_trip(pv.eligible_leader_replicas, s, q6 as usize);
    let q7 = q6 + a3.len();
    lemma_split(s, q7, a4, a5 + t);
    lemma_u32s_round_trip(pv.last_known_eligible_leader_replicas, s, q7 as usize);
    let q8 = q7 + a4.len();
    lemma_split(s, q8, a5, t);
    lemma_u32s_round_trip(pv.offline_replicas, s, q8 as usize);
    let q9 = q8 + a5.len();
    law_tag_buffer(s, q9 as usize);
}


#[verifier::rlimit(100)]
proof fn lemma_topic_wire_round_trip(tv: TopicView, s: Seq<u8>, q: usize)
    requires
        topic_encodable(tv),
        s.len() <= usize::MAX,
        q + topic_bytes(tv).len() <= s.len(),
        s.subrange(q as int, q + topic_bytes(tv).len()) == topic_bytes(tv),
    ensures
        spec_read_topic_wire(s, q) == Ok::<_, DecodeError>(
            (topic_wire(tv), (q + topic_bytes(tv).len()) as usize),
        ),
{
    let e = error_code_bytes(tv.error_code);
    let n = compact_nullable_string_bytes(tv.name);
    let u = uuid_bytes(tv.topic_id)->Some_0;
    let internal: u8 = if tv.is_internal {
        1
    } else {
        0
    };
    let ib = crate::codec::be_bytes(internal as nat, 1);
    let arr = compact_array_bytes(tv.partitions, |p: PartitionView| partition_bytes(p));
    let ops = i32_bytes(tv.topic_authorized_operations);
    let t = tag_buffer_bytes();
    lemma_pow256_8();
    lemma_be_round_trip(error_code_value(tv.error_code) as u16 as nat, 2);
    lemma_be_round_trip(internal as nat, 1);
    lemma_be_round_trip(tv.topic_authorized_operations as u32 as nat, 4);
    crate::codec::lemma_unhex_len(strip_hyphens(vstd::utf8::encode_utf8(tv.topic_id)));
    assert(u.len() == 16);
    assert(topic_bytes(tv) =~= e + (n + (u + (ib + (arr + (ops + t))))));
    let q0 = q as int;
    lemma_split(s, q0, e, n + (u + (ib + (arr + (ops + t)))));
    law_i16_round_trip(error_code_value(tv.error_code), s, q);
    let q1 = q0 + 2;
    lemma_split(s, q1, n, u + (ib + (arr + (ops + t))));
    law_compact_nullable_string_round_trip(tv.name, s, q1 as usize);
    let q2 = q1 + n.len();
    lemma_split(s, q2, u, ib + (arr + (ops + t)));
    let q3 = q2 + 16;
    lemma_split(s, q3, ib, arr + (ops + t));
    law_u8_round_trip(internal, s, q3 as usize);
    let q4 = q3 + 1;
    lemma_split(s, q4, arr, ops + t);
    assert forall|x: PartitionView, s2: Seq<u8>, q2: usize|
        #![trigger tv.partitions.contains(x), spec_read_partition_wire(s2, q2)]
        tv.partitions.contains(x) && s2.len() <= usize::MAX && q2 + partition_bytes(x).len()
            <= s2.len() && s2.subrange(q2 as int, q2 + partition_bytes(x).len()) == partition_bytes(
            x,
        ) implies spec_read_partition_wire(s2, q2) == Ok::<_, DecodeError>(
        (partition_wire(x), (q2 + partition_bytes(x).len()) as usize),
    ) by {
        let k = choose|k: int| 0 <= k < tv.partitions.len() && tv.partitions[k] == x;
        assert(partition_encodable(tv.partitions[k]));
        lemma_partition_wire_round_trip(x, s2, q2);
    }
    law_compact_array_round_trip(
        tv.partitions,
        |p: PartitionView| partition_bytes(p),
        |s: Seq<u8>, p: usize| spec_read_partition_wire(s, p),
        |p: PartitionView| partition_wire(p),
        s,
        q4 as usize,
    );
    let q5 = q4 + arr.len();
    lemma_split(s, q5, ops, t);
    law_i32_round_trip(tv.topic_authorized_operations, s, q5 as usize);
    law_tag_buffer(s, (q5 + 4) as usize);
}

/// A DescribeTopicPartitions response reads back to its fields: the
/// correlation id, the throttle time, each topic with its error code's
/// number, name, id (in canonical text), internal flag, partitions and
/// authorized operations, and the next cursor.
pub proof fn law_dtp_parse_back(
    correlation_id: i32,
    throttle_time_ms: i32,
    topics: Seq<TopicView>,
    next_cursor: u8,
)
    requires
        dtp_encodable(topics),
        dtp_response_bytes(correlation_id, throttle_time_ms, topics, next_cursor).len()
            <= usize::MAX,
    ensures
        ({
            let b = dtp_response_bytes(correlation_id, throttle_time_ms, topics, next_cursor);
            spec_read_dtp_response(b, 0) == Ok::<_, DecodeError>(
                (
                    DtpWire {
                        correlation_id,
                        throttle_time_ms,
                        topics: topics.map_values(|t: TopicView| topic_wire(t)),
                        next_cursor,
                    },
                    b.len() as usize,
                ),
            )
        }),
{
    let b = dtp_response_bytes(correlation_id, throttle_time_ms, topics, next_cursor);
    let c = i32_bytes(correlation_id);
    let t = tag_buffer_bytes();
    let th = i32_bytes(throttle_time_ms);
    let arr = compact_array_bytes(topics, |t: TopicView| topic_bytes(t));
    let cur = crate::codec::be_bytes(next_cursor as nat, 1);
    lemma_pow256_8();
    lemma_be_round_trip(correlation_id as u32 as nat, 4);
    lemma_be_round_trip(throttle_time_ms as u32 as nat, 4);
    lemma_be_round_trip(next_cursor as nat, 1);
    assert(b =~= c + (t + (th + (arr + (cur + t)))));
    assert(b.subrange(0, b.len() as int) =~= b);
    lemma_split(b, 0, c, t + (th + (arr + (cur + t))));
    law_i32_round_trip(correlation_id, b, 0);
    lemma_split(b, 4, t, th + (arr + (cur + t)));
    law_tag_buffer(b, 4);
    lemma_split(b, 5, th, arr + (cur + t));
    law_i32_round_trip(throttle_time_ms, b, 5);
    lemma_split(b, 9, arr, cur + t);
    assert forall|x: TopicView, s2: Seq<u8>, q2: usize|
        #![trigger topics.contains(x), spec_read_topic_wire(s2, q2)]
        topics.contains(x) && s2.len() <= usize::MAX && q2 + topic_bytes(x).len() <= s2.len()
            && s2.subrange(q2 as int, q2 + topic_bytes(x).len()) == topic_bytes(x) implies spec_read_topic_wire(
        s2,
        q2,
    ) == Ok::<_, DecodeError>((topic_wire(x), (q2 + topic_bytes(x).len()) as usize)) by {
        let k = choose|k: int| 0 <= k < topics.len() && topics[k] == x;
        assert(topic_encodable(topics[k]));
        lemma_topic_wire_round_trip(x, s2, q2);
    }
    law_compact_array_round_trip(
        topics,
        |t: TopicView| topic_bytes(t),
        |s: Seq<u8>, p: usize| spec_read_topic_wire(s, p),
        |t: TopicView| topic_wire(t),
        b,
        9,
    );
    let q = 9 + arr.len();
    lemma_split(b, q as int, cur, t);
    law_u8_round_trip(next_cursor, b, q as usize);
    law_tag_buffer(b, (q + 1) as usize);
}

} // verus!
