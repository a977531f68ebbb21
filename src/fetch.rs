//! The `Fetch` handler: request and response version 16.
use vstd::prelude::*;
use crate::codec::{
    DecodeError,
    lemma_be_round_trip, lemma_pow256_8, seq_bytes, spec_read_i16, spec_read_i32, spec_read_i64,
    spec_read_uvarint, strip_hyphens, uuid_text, uvarint_bytes,
    be_bytes, compact_array_bytes, read_compact_array, read_compact_nullable_string, read_u32,
    read_u32_array, read_u64, read_u8, read_tag_buffer, read_uuid, spec_read_compact_array,
    spec_read_compact_nullable_string, spec_read_tag_buffer, spec_read_u32, spec_read_u64,
    spec_read_u8, spec_read_uuid, tag_buffer_bytes, uuid_bytes, view_decoded, views, write_bytes,
    write_compact_array, write_i16, write_i32, write_i64, write_tag_buffer, write_u32, write_u64,
    CompactNullableString, Decoded, Uuid, MAX_COMPACT_LEN,
};
use crate::cluster_metadata::{log_values, topic_name_of, RecordBatches};
use crate::laws::{
    law_compact_array_round_trip, law_i16_round_trip, law_i32_round_trip, law_i64_round_trip,
    law_tag_buffer, law_u32_round_trip, law_u64_round_trip, law_uvarint_round_trip, lemma_split,
};
use crate::protocol::{error_code_value, error_code_bytes, header_v1_bytes, i32_bytes, ErrorCode, HeaderV1, HeaderV2};

verus! {

/// One requested partition; only its index is used.
#[derive(Debug, Clone, Copy, PartialEq, Eq, Structural)]
pub struct Partition {
    pub partition_index: u32,
    pub current_leader_epoch: u32,
    pub fetch_offset: u64,
    pub last_fetched_epoch: u32,
    pub log_start_offset: u64,
    pub partition_max_bytes: u32,
}

impl View for Partition {
    type V = Partition;

    open spec fn view(&self) -> Partition {
        *self
    }
}

/// One requested topic and its partitions.
#[derive(Debug, Clone)]
pub struct TopicRequest {
    pub topic_id: Uuid,
    pub partitions: Vec<Partition>,
}

pub struct TopicRequestView {
    pub topic_id: Seq<char>,
    pub partitions: Seq<Partition>,
}

impl View for TopicRequest {
    type V = TopicRequestView;

    open spec fn view(&self) -> TopicRequestView {
        TopicRequestView { topic_id: self.topic_id@, partitions: self.partitions@ }
    }
}

/// A topic whose partitions the client leaves out of its session.
#[derive(Debug, Clone)]
pub struct ForgottenTopicData {
    pub topic_id: Uuid,
    pub partitions: Vec<u32>,
}

pub struct ForgottenTopicDataView {
    pub topic_id: Seq<char>,
    pub partitions: Seq<u32>,
}

impl View for ForgottenTopicData {
    type V = ForgottenTopicDataView;

    open spec fn view(&self) -> ForgottenTopicDataView {
        ForgottenTopicDataView { topic_id: self.topic_id@, partitions: self.partitions@ }
    }
}

/// A Fetch request.
#[derive(Debug, Clone)]
pub struct FetchRequestV16 {
    pub max_wait_ms: u32,
    pub min_bytes: u32,
    pub max_bytes: u32,
    pub isolation_level: u8,
    pub session_id: u32,
    pub session_epoch: u32,
    pub topics: Vec<TopicRequest>,
    pub forgotten_topics_data: Vec<ForgottenTopicData>,
    pub rack_id: CompactNullableString,
}

pub struct FetchRequestV16View {
    pub max_wait_ms: u32,
    pub min_bytes: u32,
    pub max_bytes: u32,
    pub isolation_level: u8,
    pub session_id: u32,
    pub session_epoch: u32,
    pub topics: Seq<TopicRequestView>,
    pub forgotten_topics_data: Seq<ForgottenTopicDataView>,
    pub rack_id: Option<Seq<char>>,
}

impl View for FetchRequestV16 {
    type V = FetchRequestV16View;

    open spec fn view(&self) -> FetchRequestV16View {
        FetchRequestV16View {
            max_wait_ms: self.max_wait_ms,
            min_bytes: self.min_bytes,
            max_bytes: self.max_bytes,
            isolation_level: self.isolation_level,
            session_id: self.session_id,
            session_epoch: self.session_epoch,
            topics: views(self.topics@),
            forgotten_topics_data: views(self.forgotten_topics_data@),
            rack_id: self.rack_id@,
        }
    }
}

/// A requested partition: index, current leader epoch, fetch offset, last
/// fetched epoch, log start offset, partition byte limit and a tag buffer.
pub open spec fn spec_read_partition(s: Seq<u8>, p: usize) -> Decoded<Partition> {
    match spec_read_u32(s, p) {
        Err(e) => Err(e),
        Ok((partition_index, p1)) => match spec_read_u32(s, p1) {
            Err(e) => Err(e),
            Ok((current_leader_epoch, p2)) => match spec_read_u64(s, p2) {
                Err(e) => Err(e),
                Ok((fetch_offset, p3)) => match spec_read_u32(s, p3) {
                    Err(e) => Err(e),
                    Ok((last_fetched_epoch, p4)) => match spec_read_u64(s, p4) {
                        Err(e) => Err(e),
                        Ok((log_start_offset, p5)) => match spec_read_u32(s, p5) {
                            Err(e) => Err(e),
                            Ok((partition_max_bytes, p6)) => match spec_read_tag_buffer(s, p6) {
                                Err(e) => Err(e),
                                Ok((_, p7)) => Ok(
                                    (
                                        Partition {
                                            partition_index,
                                            current_leader_epoch,
                                            fetch_offset,
                                            last_fetched_epoch,
                                            log_start_offset,
                                            partition_max_bytes,
                                        },
                                        p7,
                                    ),
                                ),
                            },
                        },
                    },
                },
            },
        },
    }
}

/// A requested topic: id, compact array of partitions and a tag buffer.
pub open spec fn spec_read_topic_request(s: Seq<u8>, p: usize) -> Decoded<TopicRequestView> {
    match spec_read_uuid(s, p) {
        Err(e) => Err(e),
        Ok((topic_id, p1)) => match spec_read_compact_array(
            s,
            p1,
            |s: Seq<u8>, p: usize| spec_read_partition(s, p),
        ) {
            Err(e) => Err(e),
            Ok((partitions, p2)) => match spec_read_tag_buffer(s, p2) {
                Err(e) => Err(e),
                Ok((_, p3)) => Ok((TopicRequestView { topic_id, partitions }, p3)),
            },
        },
    }
}

/// A forgotten topic: id, compact array of partition indexes and a tag buffer.
pub open spec fn spec_read_forgotten(s: Seq<u8>, p: usize) -> Decoded<ForgottenTopicDataView> {
    match spec_read_uuid(s, p) {
        Err(e) => Err(e),
        Ok((topic_id, p1)) => match spec_read_compact_array(
            s,
            p1,
            |s: Seq<u8>, p: usize| spec_read_u32(s, p),
        ) {
            Err(e) => Err(e),
            Ok((partitions, p2)) => match spec_read_tag_buffer(s, p2) {
                Err(e) => Err(e),
                Ok((_, p3)) => Ok((ForgottenTopicDataView { topic_id, partitions }, p3)),
            },
        },
    }
}

/// The request body: limits, isolation level, session, topics, forgotten
/// topics, rack id and a tag buffer.
pub open spec fn spec_read_fetch_request(s: Seq<u8>, p: usize) -> Decoded<FetchRequestV16View> {
    match spec_read_u32(s, p) {
        Err(e) => Err(e),
        Ok((max_wait_ms, p1)) => match spec_read_u32(s, p1) {
            Err(e) => Err(e),
            Ok((min_bytes, p2)) => match spec_read_u32(s, p2) {
                Err(e) => Err(e),
                Ok((max_bytes, p3)) => match spec_read_u8(s, p3) {
                    Err(e) => Err(e),
                    Ok((isolation_level, p4)) => match spec_read_u32(s, p4) {
                        Err(e) => Err(e),
                        Ok((session_id, p5)) => match spec_read_u32(s, p5) {
                            Err(e) => Err(e),
                            Ok((session_epoch, p6)) => match spec_read_compact_array(
                                s,
                                p6,
                                |s: Seq<u8>, p: usize| spec_read_topic_request(s, p),
                            ) {
                                Err(e) => Err(e),
                                Ok((topics, p7)) => match spec_read_compact_array(
                                    s,
                                    p7,
                                    |s: Seq<u8>, p: usize| spec_read_forgotten(s, p),
                                ) {
                                    Err(e) => Err(e),
                                    Ok((forgotten_topics_data, p8)) => match spec_read_compact_nullable_string(s, p8) {
                                        Err(e) => Err(e),
                                        Ok((rack_id, p9)) => match spec_read_tag_buffer(s, p9) {
                                            Err(e) => Err(e),
                                            Ok((_, p10)) => Ok(
                                                (
                                                    FetchRequestV16View {
                                                        max_wait_ms,
                                                        min_bytes,
                                                        max_bytes,
                                                        isolation_level,
                                                        session_id,
                                                        session_epoch,
                                                        topics,
                                                        forgotten_topics_data,
                                                        rack_id,
                                                    },
                                                    p10,
                                                ),
                                            ),
                                        },
                                    },
                                },
                            },
                        },
                    },
                },
            },
        },
    }
}

impl Partition {
    pub fn deserialize(buf: &[u8], pos: usize) -> (r: Decoded<Partition>)
        ensures
            r == spec_read_partition(buf@, pos),
    {
        let (partition_index, p1) = read_u32(buf, pos)?;
        let (current_leader_epoch, p2) = read_u32(buf, p1)?;
        let (fetch_offset, p3) = read_u64(buf, p2)?;
        let (last_fetched_epoch, p4) = read_u32(buf, p3)?;
        let (log_start_offset, p5) = read_u64(buf, p4)?;
        let (partition_max_bytes, p6) = read_u32(buf, p5)?;
        let (_, p7) = read_tag_buffer(buf, p6)?;
        Ok(
            (
                Partition {
                    partition_index,
                    current_leader_epoch,
                    fetch_offset,
                    last_fetched_epoch,
                    log_start_offset,
                    partition_max_bytes,
                },
                p7,
            ),
        )
    }
}

impl TopicRequest {
    pub fn deserialize(buf: &[u8], pos: usize) -> (r: Decoded<TopicRequest>)
        ensures
            view_decoded(r) == spec_read_topic_request(buf@, pos),
    {
        let (topic_id, p1) = read_uuid(buf, pos)?;
        let elem = |b: &[u8], p: usize| -> (e: Decoded<Partition>)
            ensures
                view_decoded(e) == spec_read_partition(b@, p),
            { Partition::deserialize(b, p) };
        let (partitions, p2) = read_compact_array(
            buf,
            p1,
            elem,
            Ghost(|s: Seq<u8>, p: usize| spec_read_partition(s, p)),
        )?;
        let (_, p3) = read_tag_buffer(buf, p2)?;
        assert(views(partitions@) =~= partitions@);
        Ok((TopicRequest { topic_id, partitions }, p3))
    }
}

impl ForgottenTopicData {
    pub fn deserialize(buf: &[u8], pos: usize) -> (r: Decoded<ForgottenTopicData>)
        ensures
            view_decoded(r) == spec_read_forgotten(buf@, pos),
    {
        let (topic_id, p1) = read_uuid(buf, pos)?;
        let (partitions, p2) = read_u32_array(buf, p1)?;
        let (_, p3) = read_tag_buffer(buf, p2)?;
        assert(views(partitions@) =~= partitions@);
        Ok((ForgottenTopicData { topic_id, partitions }, p3))
    }
}

impl FetchRequestV16 {
    /// Reads the request body at `pos`.
    pub fn deserialize(buf: &[u8], pos: usize) -> (r: Decoded<FetchRequestV16>)
        ensures
            view_decoded(r) == spec_read_fetch_request(buf@, pos),
    {
        let (max_wait_ms, p1) = read_u32(buf, pos)?;
        let (min_bytes, p2) = read_u32(buf, p1)?;
        let (max_bytes, p3) = read_u32(buf, p2)?;
        let (isolation_level, p4) = read_u8(buf, p3)?;
        let (session_id, p5) = read_u32(buf, p4)?;
        let (session_epoch, p6) = read_u32(buf, p5)?;
        let topic_elem = |b: &[u8], p: usize| -> (e: Decoded<TopicRequest>)
            ensures
                view_decoded(e) == spec_read_topic_request(b@, p),
            { TopicRequest::deserialize(b, p) };
        let (topics, p7) = read_compact_array(
            buf,
            p6,
            topic_elem,
            Ghost(|s: Seq<u8>, p: usize| spec_read_topic_request(s, p)),
        )?;
        let forgotten_elem = |b: &[u8], p: usize| -> (e: Decoded<ForgottenTopicData>)
            ensures
                view_decoded(e) == spec_read_forgotten(b@, p),
            { ForgottenTopicData::deserialize(b, p) };
        let (forgotten_topics_data, p8) = read_compact_array(
            buf,
            p7,
            forgotten_elem,
            Ghost(|s: Seq<u8>, p: usize| spec_read_forgotten(s, p)),
        )?;
        let (rack_id, p9) = read_compact_nullable_string(buf, p8)?;
        let (_, p10) = read_tag_buffer(buf, p9)?;
        Ok(
            (
                FetchRequestV16 {
                    max_wait_ms,
                    min_bytes,
                    max_bytes,
                    isolation_level,
                    session_id,
                    session_epoch,
                    topics,
                    forgotten_topics_data,
                    rack_id,
                },
                p10,
            ),
        )
    }
}


/// A transaction aborted within the fetched range.
#[derive(Debug, Clone, Copy, PartialEq, Eq, Structural)]
pub struct AbortedTransaction {
    pub producer_id: u64,
    pub first_offset: u64,
}

impl View for AbortedTransaction {
    type V = AbortedTransaction;

    open spec fn view(&self) -> AbortedTransaction {
        *self
    }
}

/// Raw record batches, copied into the response as they are.
#[derive(Debug, Clone)]
pub struct BatchBytes {
    pub bytes: Vec<u8>,
}

impl View for BatchBytes {
    type V = Seq<u8>;

    open spec fn view(&self) -> Seq<u8> {
        self.bytes@
    }
}

/// One partition of a Fetch response.
#[derive(Debug, Clone)]
pub struct TopicPartition {
    pub partition_index: u32,
    pub error_code: ErrorCode,
    pub high_watermark: i64,
    pub last_stable_offset: i64,
    pub log_start_offset: i64,
    pub aborted_transactions: Vec<AbortedTransaction>,
    pub preferred_read_replica: i32,
    pub record_batches: Vec<BatchBytes>,
}

pub struct TopicPartitionView {
    pub partition_index: u32,
    pub error_code: ErrorCode,
    pub high_watermark: i64,
    pub last_stable_offset: i64,
    pub log_start_offset: i64,
    pub aborted_transactions: Seq<AbortedTransaction>,
    pub preferred_read_replica: i32,
    pub record_batches: Seq<Seq<u8>>,
}

impl View for TopicPartition {
    type V = TopicPartitionView;

    open spec fn view(&self) -> TopicPartitionView {
        TopicPartitionView {
            partition_index: self.partition_index,
            error_code: self.error_code,
            high_watermark: self.high_watermark,
            last_stable_offset: self.last_stable_offset,
            log_start_offset: self.log_start_offset,
            aborted_transactions: self.aborted_transactions@,
            preferred_read_replica: self.preferred_read_replica,
            record_batches: views(self.record_batches@),
        }
    }
}

/// One topic of a Fetch response.
#[derive(Debug, Clone)]
pub struct TopicResponse {
    pub topic_id: Uuid,
    pub partitions: Vec<TopicPartition>,
}

pub struct TopicResponseView {
    pub topic_id: Seq<char>,
    pub partitions: Seq<TopicPartitionView>,
}

impl View for TopicResponse {
    type V = TopicResponseView;

    open spec fn view(&self) -> TopicResponseView {
        TopicResponseView { topic_id: self.topic_id@, partitions: views(self.partitions@) }
    }
}

impl TopicResponse {
    /// A response topic with the given UUID text and partitions.
    pub fn new(topic_id: String, partitions: Vec<TopicPartition>) -> (r: Self)
        ensures
            r.topic_id@ == topic_id@,
            r.partitions == partitions,
    {
        TopicResponse { topic_id: Uuid(topic_id), partitions }
    }
}

/// The Fetch response.
#[derive(Debug, Clone)]
pub struct FetchResponseV16 {
    pub header: HeaderV1,
    pub throttle_time_ms: i32,
    pub error_code: ErrorCode,
    pub session_id: u32,
    pub responses: Vec<TopicResponse>,
}

impl FetchResponseV16 {
    pub fn new(correlation_id: i32, session_id: u32, responses: Vec<TopicResponse>) -> (r: Self)
        ensures
            r.header.correlation_id == correlation_id,
            r.throttle_time_ms == 0,
            r.error_code == ErrorCode::NoError,
            r.session_id == session_id,
            r.responses == responses,
    {
        FetchResponseV16 {
            header: HeaderV1::new(correlation_id),
            throttle_time_ms: 0,
            error_code: ErrorCode::NoError,
            session_id,
            responses,
        }
    }
}

/// The response partition for requested partition `index` given the
/// segment found for it: the segment's bytes as the one record-batches
/// element with no error, or no element and `UnknownTopicId`.
pub open spec fn fetched_partition(index: u32, segment: Option<Seq<u8>>) -> TopicPartitionView {
    TopicPartitionView {
        partition_index: index,
        error_code: if segment is Some {
            ErrorCode::NoError
        } else {
            ErrorCode::UnknownTopicId
        },
        high_watermark: 0,
        last_stable_offset: 0,
        log_start_offset: 0,
        aborted_transactions: Seq::empty(),
        preferred_read_replica: 0,
        record_batches: match segment {
            Some(b) => seq![b],
            None => Seq::empty(),
        },
    }
}

/// The response topic for a requested topic, given one segment (or none)
/// per requested partition.
pub open spec fn fetched_topic(t: TopicRequestView, segments: Seq<Option<Seq<u8>>>) -> TopicResponseView {
    TopicResponseView {
        topic_id: t.topic_id,
        partitions: Seq::new(
            t.partitions.len(),
            |i: int| fetched_partition(t.partitions[i].partition_index, segments[i]),
        ),
    }
}

/// Whether `segments` holds one list per requested topic with one entry per
/// requested partition.
pub open spec fn segments_match(
    topics: Seq<TopicRequestView>,
    segments: Seq<Seq<Option<Seq<u8>>>>,
) -> bool {
    &&& segments.len() == topics.len()
    &&& forall|i: int| 0 <= i < topics.len() ==> #[trigger] segments[i].len() == topics[i].partitions.len()
}

fn copy_bytes(b: &Vec<u8>) -> (r: Vec<u8>)
    ensures
        r@ == b@,
{
    let mut r: Vec<u8> = Vec::new();
    write_bytes(&mut r, b.as_slice());
    r
}

fn fetch_partition(index: u32, segment: &Option<Vec<u8>>) -> (r: TopicPartition)
    ensures
        r@ == fetched_partition(index, segment.deep_view()),
{
    let mut record_batches: Vec<BatchBytes> = Vec::new();
    let error_code = match segment {
        Some(b) => {
            record_batches.push(BatchBytes { bytes: copy_bytes(b) });
            assert(b.deep_view() =~= b@);
            assert(views(record_batches@) =~= seq![b@]);
            ErrorCode::NoError
        },
        None => {
            assert(views(record_batches@) =~= Seq::<Seq<u8>>::empty());
            ErrorCode::UnknownTopicId
        },
    };
    let r = TopicPartition {
        partition_index: index,
        error_code,
        high_watermark: 0,
        last_stable_offset: 0,
        log_start_offset: 0,
        aborted_transactions: Vec::new(),
        preferred_read_replica: 0,
        record_batches,
    };
    assert(r@.record_batches =~= fetched_partition(index, segment.deep_view()).record_batches);
    assert(r@.aborted_transactions =~= Seq::<AbortedTransaction>::empty());
    r
}

fn fetch_topic(t: &TopicRequest, segments: &Vec<Option<Vec<u8>>>) -> (r: TopicResponse)
    requires
        segments@.len() == t.partitions@.len(),
    ensures
        r@ == fetched_topic(t@, segments.deep_view()),
{
    let mut partitions: Vec<TopicPartition> = Vec::new();
    let mut i: usize = 0;
    while i < t.partitions.len()
        invariant
            i <= t.partitions@.len(),
            segments@.len() == t.partitions@.len(),
            views(partitions@) =~= fetched_topic(t@, segments.deep_view()).partitions.subrange(
                0,
                i as int,
            ),
        decreases t.partitions@.len() - i,
    {
        let ghost prev = views(partitions@);
        partitions.push(fetch_partition(t.partitions[i].partition_index, &segments[i]));
        assert(views(partitions@) =~= prev.push(
            fetched_partition(t.partitions@[i as int].partition_index, segments.deep_view()[i as int]),
        ));
        i = i + 1;
    }
    let r = TopicResponse::new(t.topic_id.to_string(), partitions);
    assert(r@.partitions =~= fetched_topic(t@, segments.deep_view()).partitions);
    r
}

/// Answers a Fetch request. `segments[t][p]` holds the segment read for the
/// `p`-th partition of the `t`-th requested topic, or `None` where the topic
/// is unknown or the segment is missing.
pub fn handle_request(
    header: &HeaderV2,
    req: &FetchRequestV16,
    segments: &Vec<Vec<Option<Vec<u8>>>>,
) -> (r: FetchResponseV16)
    requires
        segments_match(req@.topics, segments.deep_view()),
    ensures
        r.header.correlation_id == header.correlation_id,
        r.throttle_time_ms == 0,
        r.error_code == ErrorCode::NoError,
        r.session_id == req.session_id,
        views(r.responses@) == Seq::new(
            req@.topics.len(),
            |i: int| fetched_topic(req@.topics[i], segments.deep_view()[i]),
        ),
{
    let mut responses: Vec<TopicResponse> = Vec::new();
    let mut i: usize = 0;
    while i < req.topics.len()
        invariant
            i <= req.topics@.len(),
            segments_match(req@.topics, segments.deep_view()),
            views(responses@) =~= Seq::new(
                req@.topics.len(),
                |i: int| fetched_topic(req@.topics[i], segments.deep_view()[i]),
            ).subrange(0, i as int),
        decreases req.topics@.len() - i,
    {
        let ghost prev = views(responses@);
        assert(segments.deep_view()[i as int] == segments@[i as int].deep_view());
        assert(req@.topics[i as int] == req.topics@[i as int]@);
        responses.push(fetch_topic(&req.topics[i], &segments[i]));
        assert(views(responses@) =~= prev.push(
            fetched_topic(req@.topics[i as int], segments.deep_view()[i as int]),
        ));
        i = i + 1;
    }
    FetchResponseV16::new(header.correlation_id, req.session_id, responses)
}

/// The name of each requested topic as the metadata log gives it, in
/// request order: where its segments are to be read from, or `None` for a
/// topic id that the log does not name.
pub fn topic_names(req: &FetchRequestV16, log: &RecordBatches) -> (r: Vec<Option<String>>)
    ensures
        r@.len() == req@.topics.len(),
        forall|i: int|
            0 <= i < r@.len() ==> #[trigger] crate::cluster_metadata::opt_text(r@[i])
                == topic_name_of(log_values(log@), req@.topics[i].topic_id),
{
    let mut names: Vec<Option<String>> = Vec::new();
    let mut i: usize = 0;
    while i < req.topics.len()
        invariant
            i <= req.topics@.len(),
            names@.len() == i,
            forall|j: int|
                0 <= j < i ==> #[trigger] crate::cluster_metadata::opt_text(names@[j])
                    == topic_name_of(log_values(log@), req@.topics[j].topic_id),
        decreases req.topics@.len() - i,
    {
        names.push(log.topic_name_for_id(&req.topics[i].topic_id));
        assert(req@.topics[i as int] == req.topics@[i as int]@);
        i = i + 1;
    }
    names
}


pub open spec fn i64_bytes(v: i64) -> Seq<u8> {
    be_bytes(v as u64 as nat, 8)
}

/// An aborted transaction: producer id, first offset and a tag buffer.
pub open spec fn aborted_bytes(a: AbortedTransaction) -> Seq<u8> {
    be_bytes(a.producer_id as nat, 8) + be_bytes(a.first_offset as nat, 8) + tag_buffer_bytes()
}

/// A response partition: index, error code, high watermark, last stable
/// offset, log start offset, aborted transactions, preferred read replica,
/// the record batches as they are, and a tag buffer.
pub open spec fn topic_partition_bytes(p: TopicPartitionView) -> Seq<u8> {
    be_bytes(p.partition_index as nat, 4) + error_code_bytes(p.error_code) + i64_bytes(
        p.high_watermark,
    ) + i64_bytes(p.last_stable_offset) + i64_bytes(p.log_start_offset) + compact_array_bytes(
        p.aborted_transactions,
        |a: AbortedTransaction| aborted_bytes(a),
    ) + i32_bytes(p.preferred_read_replica) + compact_array_bytes(
        p.record_batches,
        |b: Seq<u8>| b,
    ) + tag_buffer_bytes()
}

/// A response topic: its id, its partitions and a tag buffer.
pub open spec fn topic_response_bytes(t: TopicResponseView) -> Seq<u8> {
    uuid_bytes(t.topic_id)->Some_0 + compact_array_bytes(
        t.partitions,
        |p: TopicPartitionView| topic_partition_bytes(p),
    ) + tag_buffer_bytes()
}

/// The bytes of a Fetch response.
pub open spec fn fetch_response_bytes(
    correlation_id: i32,
    throttle_time_ms: i32,
    error_code: ErrorCode,
    session_id: u32,
    responses: Seq<TopicResponseView>,
) -> Seq<u8> {
    header_v1_bytes(correlation_id) + i32_bytes(throttle_time_ms) + error_code_bytes(error_code)
        + be_bytes(session_id as nat, 4) + compact_array_bytes(
        responses,
        |t: TopicResponseView| topic_response_bytes(t),
    ) + tag_buffer_bytes()
}

pub open spec fn topic_partition_encodable(p: TopicPartitionView) -> bool {
    &&& p.aborted_transactions.len() <= MAX_COMPACT_LEN
    &&& p.record_batches.len() <= MAX_COMPACT_LEN
}

pub open spec fn topic_response_encodable(t: TopicResponseView) -> bool {
    &&& uuid_bytes(t.topic_id) is Some
    &&& t.partitions.len() <= MAX_COMPACT_LEN
    &&& forall|i: int|
        0 <= i < t.partitions.len() ==> topic_partition_encodable(#[trigger] t.partitions[i])
}

pub open spec fn fetch_encodable(responses: Seq<TopicResponseView>) -> bool {
    &&& responses.len() <= MAX_COMPACT_LEN
    &&& forall|i: int|
        0 <= i < responses.len() ==> topic_response_encodable(#[trigger] responses[i])
}

impl AbortedTransaction {
    /// The encoded transaction.
    pub fn serialize(&self) -> (r: Vec<u8>)
        ensures
            r@ == aborted_bytes(*self),
    {
        let mut e: Vec<u8> = Vec::new();
        write_u64(&mut e, self.producer_id);
        write_u64(&mut e, self.first_offset);
        write_tag_buffer(&mut e);
        assert(e@ =~= aborted_bytes(*self));
        e
    }
}

impl BatchBytes {
    /// The batches, as they are.
    pub fn serialize(&self) -> (r: Vec<u8>)
        ensures
            r@ == self@,
    {
        copy_bytes(&self.bytes)
    }
}

impl TopicPartition {
    pub fn is_encodable(&self) -> (r: bool)
        ensures
            r == topic_partition_encodable(self@),
    {
        self.aborted_transactions.len() <= MAX_COMPACT_LEN && self.record_batches.len()
            <= MAX_COMPACT_LEN
    }

    /// The encoded partition.
    pub fn serialize(&self) -> (r: Vec<u8>)
        requires
            topic_partition_encodable(self@),
        ensures
            r@ == topic_partition_bytes(self@),
    {
        let mut b: Vec<u8> = Vec::new();
        write_u32(&mut b, self.partition_index);
        write_i16(&mut b, self.error_code.code());
        write_i64(&mut b, self.high_watermark);
        write_i64(&mut b, self.last_stable_offset);
        write_i64(&mut b, self.log_start_offset);
        let enc_aborted = |a: &AbortedTransaction| -> (e: Vec<u8>)
            ensures
                e@ == aborted_bytes(*a),
            { a.serialize() };
        write_compact_array(
            &mut b,
            &self.aborted_transactions,
            enc_aborted,
            Ghost(|a: AbortedTransaction| aborted_bytes(a)),
        );
        write_i32(&mut b, self.preferred_read_replica);
        let enc_batch = |x: &BatchBytes| -> (e: Vec<u8>)
            ensures
                e@ == x@,
            { x.serialize() };
        write_compact_array(&mut b, &self.record_batches, enc_batch, Ghost(|x: Seq<u8>| x));
        write_tag_buffer(&mut b);
        assert(views(self.aborted_transactions@) =~= self.aborted_transactions@);
        assert(b@ =~= topic_partition_bytes(self@));
        b
    }
}

impl TopicResponse {
    pub fn is_encodable(&self) -> (r: bool)
        ensures
            r == topic_response_encodable(self@),
    {
        if !crate::codec::is_valid_uuid(&self.topic_id) || self.partitions.len() > MAX_COMPACT_LEN {
            return false;
        }
        let mut i: usize = 0;
        while i < self.partitions.len()
            invariant
                i <= self.partitions@.len(),
                forall|j: int| 0 <= j < i ==> topic_partition_encodable(#[trigger] self@.partitions[j]),
            decreases self.partitions@.len() - i,
        {
            if !self.partitions[i].is_encodable() {
                assert(self@.partitions[i as int] == self.partitions@[i as int]@);
                return false;
            }
            i = i + 1;
        }
        true
    }

    /// The encoded topic.
    pub fn serialize(&self) -> (r: Vec<u8>)
        requires
            topic_response_encodable(self@),
        ensures
            r@ == topic_response_bytes(self@),
    {
        let mut b: Vec<u8> = Vec::new();
        crate::codec::write_uuid(&mut b, &self.topic_id);
        let enc = |p: &TopicPartition| -> (e: Vec<u8>)
            requires
                topic_partition_encodable(p@),
            ensures
                e@ == topic_partition_bytes(p@),
            { p.serialize() };
        assert forall|i: int| 0 <= i < self.partitions@.len() implies topic_partition_encodable(
            #[trigger] self.partitions@[i]@,
        ) by {
            assert(self@.partitions[i] == self.partitions@[i]@);
        }
        write_compact_array(
            &mut b,
            &self.partitions,
            enc,
            Ghost(|p: TopicPartitionView| topic_partition_bytes(p)),
        );
        write_tag_buffer(&mut b);
        assert(b@ =~= topic_response_bytes(self@));
        b
    }
}

impl FetchResponseV16 {
    pub fn is_encodable(&self) -> (r: bool)
        ensures
            r == fetch_encodable(views(self.responses@)),
    {
        if self.responses.len() > MAX_COMPACT_LEN {
            return false;
        }
        let mut i: usize = 0;
        while i < self.responses.len()
            invariant
                i <= self.responses@.len(),
                forall|j: int| 0 <= j < i ==> topic_response_encodable(#[trigger] views(self.responses@)[j]),
            decreases self.responses@.len() - i,
        {
            if !self.responses[i].is_encodable() {
                assert(views(self.responses@)[i as int] == self.responses@[i as int]@);
                return false;
            }
            i = i + 1;
        }
        true
    }

    /// The encoded response.
    pub fn as_bytes(&self) -> (r: Vec<u8>)
        requires
            fetch_encodable(views(self.responses@)),
        ensures
            r@ == fetch_response_bytes(
                self.header.correlation_id,
                self.throttle_time_ms,
                self.error_code,
                self.session_id,
                views(self.responses@),
            ),
    {
        let mut out: Vec<u8> = Vec::new();
        self.header.serialize(&mut out);
        write_i32(&mut out, self.throttle_time_ms);
        write_i16(&mut out, self.error_code.code());
        write_u32(&mut out, self.session_id);
        let enc = |t: &TopicResponse| -> (e: Vec<u8>)
            requires
                topic_response_encodable(t@),
            ensures
                e@ == topic_response_bytes(t@),
            { t.serialize() };
        assert forall|i: int| 0 <= i < self.responses@.len() implies topic_response_encodable(
            #[trigger] self.responses@[i]@,
        ) by {
            assert(views(self.responses@)[i] == self.responses@[i]@);
        }
        write_compact_array(
            &mut out,
            &self.responses,
            enc,
            Ghost(|t: TopicResponseView| topic_response_bytes(t)),
        );
        write_tag_buffer(&mut out);
        assert(out@ =~= fetch_response_bytes(
            self.header.correlation_id,
            self.throttle_time_ms,
            self.error_code,
            self.session_id,
            views(self.responses@),
        ));
        out
    }
}


/// A response partition as its fields read back from the wire; the record
/// batches are counted, since their bytes carry no length of their own.
pub struct TopicPartitionWire {
    pub partition_index: u32,
    pub error_code: i16,
    pub high_watermark: i64,
    pub last_stable_offset: i64,
    pub log_start_offset: i64,
    pub aborted_transactions: Seq<(u64, u64)>,
    pub preferred_read_replica: i32,
    pub record_batches: nat,
}

/// A response topic as its fields read back from the wire.
pub struct TopicResponseWire {
    pub topic_id: Seq<char>,
    pub partitions: Seq<TopicPartitionWire>,
}

/// A Fetch response as its fields read back from the wire.
pub struct FetchWire {
    pub correlation_id: i32,
    pub throttle_time_ms: i32,
    pub error_code: i16,
    pub session_id: u32,
    pub responses: Seq<TopicResponseWire>,
}

pub open spec fn spec_read_aborted(s: Seq<u8>, p: usize) -> Decoded<(u64, u64)> {
    match spec_read_u64(s, p) {
        Err(e) => Err(e),
        Ok((producer_id, p1)) => match spec_read_u64(s, p1) {
            Err(e) => Err(e),
            Ok((first_offset, p2)) => match spec_read_tag_buffer(s, p2) {
                Err(e) => Err(e),
                Ok((_, p3)) => Ok(((producer_id, first_offset), p3)),
            },
        },
    }
}

pub open spec fn spec_read_topic_partition_wire(s: Seq<u8>, p: usize) -> Decoded<TopicPartitionWire> {
    match spec_read_u32(s, p) {
        Err(e) => Err(e),
        Ok((partition_index, p1)) => match spec_read_i16(s, p1) {
            Err(e) => Err(e),
            Ok((error_code, p2)) => match spec_read_i64(s, p2) {
                Err(e) => Err(e),
                Ok((high_watermark, p3)) => match spec_read_i64(s, p3) {
                    Err(e) => Err(e),
                    Ok((last_stable_offset, p4)) => match spec_read_i64(s, p4) {
                        Err(e) => Err(e),
                        Ok((log_start_offset, p5)) => match spec_read_compact_array(
                            s,
                            p5,
                            |s: Seq<u8>, p: usize| spec_read_aborted(s, p),
                        ) {
                            Err(e) => Err(e),
                            Ok((aborted_transactions, p6)) => match spec_read_i32(s, p6) {
                                Err(e) => Err(e),
                                Ok((preferred_read_replica, p7)) => match spec_read_uvarint(s, p7) {
                                    Err(e) => Err(e),
                                    Ok((count, p8)) => match spec_read_tag_buffer(s, p8) {
                                        Err(e) => Err(e),
                                        Ok((_, p9)) => Ok(
                                            (
                                                TopicPartitionWire {
                                                    partition_index,
                                                    error_code,
                                                    high_watermark,
                                                    last_stable_offset,
                                                    log_start_offset,
                                                    aborted_transactions,
                                                    preferred_read_replica,
                                                    record_batches: if count == 0 {
                                                        0
                                                    } else {
                                                        (count - 1) as nat
                                                    },
                                                },
                                                p9,
                                            ),
                                        ),
                                    },
                                },
                            },
                        },
                    },
                },
            },
        },
    }
}

pub open spec fn spec_read_topic_response_wire(s: Seq<u8>, p: usize) -> Decoded<TopicResponseWire> {
    match spec_read_uuid(s, p) {
        Err(e) => Err(e),
        Ok((topic_id, p1)) => match spec_read_compact_array(
            s,
            p1,
            |s: Seq<u8>, p: usize| spec_read_topic_partition_wire(s, p),
        ) {
            Err(e) => Err(e),
            Ok((partitions, p2)) => match spec_read_tag_buffer(s, p2) {
                Err(e) => Err(e),
                Ok((_, p3)) => Ok((TopicResponseWire { topic_id, partitions }, p3)),
            },
        },
    }
}

/// A Fetch response read from the wire.
pub open spec fn spec_read_fetch_response(s: Seq<u8>, p: usize) -> Decoded<FetchWire> {
    match spec_read_i32(s, p) {
        Err(e) => Err(e),
        Ok((correlation_id, p1)) => match spec_read_tag_buffer(s, p1) {
            Err(e) => Err(e),
            Ok((_, p2)) => match spec_read_i32(s, p2) {
                Err(e) => Err(e),
                Ok((throttle_time_ms, p3)) => match spec_read_i16(s, p3) {
                    Err(e) => Err(e),
                    Ok((error_code, p4)) => match spec_read_u32(s, p4) {
                        Err(e) => Err(e),
                        Ok((session_id, p5)) => match spec_read_compact_array(
                            s,
                            p5,
                            |s: Seq<u8>, p: usize| spec_read_topic_response_wire(s, p),
                        ) {
                            Err(e) => Err(e),
                            Ok((responses, p6)) => match spec_read_tag_buffer(s, p6) {
                                Err(e) => Err(e),
                                Ok((_, p7)) => Ok(
                                    (
                                        FetchWire {
                                            correlation_id,
                                            throttle_time_ms,
                                            error_code,
                                            session_id,
                                            responses,
                                        },
                                        p7,
                                    ),
                                ),
                            },
                        },
                    },
                },
            },
        },
    }
}

pub open spec fn aborted_wire(a: AbortedTransaction) -> (u64, u64) {
    (a.producer_id, a.first_offset)
}

pub open spec fn topic_partition_wire(p: TopicPartitionView) -> TopicPartitionWire {
    TopicPartitionWire {
        partition_index: p.partition_index,
        error_code: error_code_value(p.error_code),
        high_watermark: p.high_watermark,
        last_stable_offset: p.last_stable_offset,
        log_start_offset: p.log_start_offset,
        aborted_transactions: p.aborted_transactions.map_values(|a: AbortedTransaction| aborted_wire(a)),
        preferred_read_replica: p.preferred_read_replica,
        record_batches: p.record_batches.len(),
    }
}

pub open spec fn topic_response_wire(t: TopicResponseView) -> TopicResponseWire {
    TopicResponseWire {
        topic_id: uuid_text(uuid_bytes(t.topic_id)->Some_0),
        partitions: t.partitions.map_values(|p: TopicPartitionView| topic_partition_wire(p)),
    }
}

/// Whether no partition of the responses carries record batches.
pub open spec fn without_batches(responses: Seq<TopicResponseView>) -> bool {
    forall|i: int, j: int|
        0 <= i < responses.len() && 0 <= j < responses[i].partitions.len()
            ==> #[trigger] responses[i].partitions[j].record_batches.len() == 0
}

proof fn lemma_aborted_round_trip(a: AbortedTransaction, s: Seq<u8>, q: usize)
    requires
        s.len() <= usize::MAX,
        q + aborted_bytes(a).len() <= s.len(),
        s.subrange(q as int, q + aborted_bytes(a).len()) == aborted_bytes(a),
    ensures
        spec_read_aborted(s, q) == Ok::<_, DecodeError>(
            (aborted_wire(a), (q + aborted_bytes(a).len()) as usize),
        ),
{
    let x = be_bytes(a.producer_id as nat, 8);
    let y = be_bytes(a.first_offset as nat, 8);
    let t = tag_buffer_bytes();
    lemma_pow256_8();
    lemma_be_round_trip(a.producer_id as nat, 8);
    lemma_be_round_trip(a.first_offset as nat, 8);
    assert(aborted_bytes(a) =~= x + (y + t));
    lemma_split(s, q as int, x, y + t);
    law_u64_round_trip(a.producer_id, s, q);
    lemma_split(s, q + 8, y, t);
    law_u64_round_trip(a.first_offset, s, (q + 8) as usize);
    law_tag_buffer(s, (q + 16) as usize);
}

#[verifier::rlimit(100)]
proof fn lemma_topic_partition_round_trip(pv: TopicPartitionView, s: Seq<u8>, q: usize)
    requires
        topic_partition_encodable(pv),
        pv.record_batches.len() == 0,
        s.len() <= usize::MAX,
        q + topic_partition_bytes(pv).len() <= s.len(),
        s.subrange(q as int, q + topic_partition_bytes(pv).len()) == topic_partition_bytes(pv),
    ensures
        spec_read_topic_partition_wire(s, q) == Ok::<_, DecodeError>(
            (topic_partition_wire(pv), (q + topic_partition_bytes(pv).len()) as usize),
        ),
{
    let i = be_bytes(pv.partition_index as nat, 4);
    let e = error_code_bytes(pv.error_code);
    let h = i64_bytes(pv.high_watermark);
    let l = i64_bytes(pv.last_stable_offset);
    let st = i64_bytes(pv.log_start_offset);
    let ab = compact_array_bytes(pv.aborted_transactions, |a: AbortedTransaction| aborted_bytes(a));
    let pr = i32_bytes(pv.preferred_read_replica);
    let bb = compact_array_bytes(pv.record_batches, |b: Seq<u8>| b);
    let t = tag_buffer_bytes();
    lemma_pow256_8();
    lemma_be_round_trip(pv.partition_index as nat, 4);
    lemma_be_round_trip(error_code_value(pv.error_code) as u16 as nat, 2);
    lemma_be_round_trip(pv.high_watermark as u64 as nat, 8);
    lemma_be_round_trip(pv.last_stable_offset as u64 as nat, 8);
    lemma_be_round_trip(pv.log_start_offset as u64 as nat, 8);
    lemma_be_round_trip(pv.preferred_read_replica as u32 as nat, 4);
    assert(bb =~= uvarint_bytes(1)) by {
        assert(seq_bytes(pv.record_batches, |b: Seq<u8>| b) =~= Seq::<u8>::empty());
    }
    assert(topic_partition_bytes(pv) =~= i + (e + (h + (l + (st + (ab + (pr + (bb + t))))))));
    let q0 = q as int;
    lemma_split(s, q0, i, e + (h + (l + (st + (ab + (pr + (bb + t)))))));
    law_u32_round_trip(pv.partition_index, s, q);
    lemma_split(s, q0 + 4, e, h + (l + (st + (ab + (pr + (bb + t))))));
    law_i16_round_trip(error_code_value(pv.error_code), s, (q0 + 4) as usize);
    lemma_split(s, q0 + 6, h, l + (st + (ab + (pr + (bb + t)))));
    law_i64_round_trip(pv.high_watermark, s, (q0 + 6) as usize);
    lemma_split(s, q0 + 14, l, st + (ab + (pr + (bb + t))));
    law_i64_round_trip(pv.last_stable_offset, s, (q0 + 14) as usize);
    lemma_split(s, q0 + 22, st, ab + (pr + (bb + t)));
    law_i64_round_trip(pv.log_start_offset, s, (q0 + 22) as usize);
    lemma_split(s, q0 + 30, ab, pr + (bb + t));
    assert forall|x: AbortedTransaction, s2: Seq<u8>, q2: usize|
        #![trigger pv.aborted_transactions.contains(x), spec_read_aborted(s2, q2)]
        pv.aborted_transactions.contains(x) && s2.len() <= usize::MAX && q2 + aborted_bytes(x).len()
            <= s2.len() && s2.subrange(q2 as int, q2 + aborted_bytes(x).len()) == aborted_bytes(x)
        implies spec_read_aborted(s2, q2) == Ok::<_, DecodeError>(
        (aborted_wire(x), (q2 + aborted_bytes(x).len()) as usize),
    ) by {
        lemma_aborted_round_trip(x, s2, q2);
    }
    law_compact_array_round_trip(
        pv.aborted_transactions,
        |a: AbortedTransaction| aborted_bytes(a),
        |s: Seq<u8>, p: usize| spec_read_aborted(s, p),
        |a: AbortedTransaction| aborted_wire(a),
        s,
        (q0 + 30) as usize,
    );
    let q6 = q0 + 30 + ab.len();
    lemma_split(s, q6, pr, bb + t);
    law_i32_round_trip(pv.preferred_read_replica, s, q6 as usize);
    lemma_split(s, q6 + 4, bb, t);
    law_uvarint_round_trip(1, s, (q6 + 4) as usize);
    law_tag_buffer(s, (q6 + 5) as usize);
}

#[verifier::rlimit(100)]
proof fn lemma_topic_response_round_trip(tv: TopicResponseView, s: Seq<u8>, q: usize)
    requires
        topic_response_encodable(tv),
        forall|j: int| 0 <= j < tv.partitions.len() ==> #[trigger] tv.partitions[j].record_batches.len() == 0,
        s.len() <= usize::MAX,
        q + topic_response_bytes(tv).len() <= s.len(),
        s.subrange(q as int, q + topic_response_bytes(tv).len()) == topic_response_bytes(tv),
    ensures
        spec_read_topic_response_wire(s, q) == Ok::<_, DecodeError>(
            (topic_response_wire(tv), (q + topic_response_bytes(tv).len()) as usize),
        ),
{
    let u = uuid_bytes(tv.topic_id)->Some_0;
    let arr = compact_array_bytes(tv.partitions, |p: TopicPartitionView| topic_partition_bytes(p));
    let t = tag_buffer_bytes();
    crate::codec::lemma_unhex_len(strip_hyphens(vstd::utf8::encode_utf8(tv.topic_id)));
    assert(topic_response_bytes(tv) =~= u + (arr + t));
    lemma_split(s, q as int, u, arr + t);
    lemma_split(s, q + 16, arr, t);
    assert forall|x: TopicPartitionView, s2: Seq<u8>, q2: usize|
        #![trigger tv.partitions.contains(x), spec_read_topic_partition_wire(s2, q2)]
        tv.partitions.contains(x) && s2.len() <= usize::MAX && q2 + topic_partition_bytes(x).len()
            <= s2.len() && s2.subrange(q2 as int, q2 + topic_partition_bytes(x).len())
            == topic_partition_bytes(x) implies spec_read_topic_partition_wire(s2, q2) == Ok::<
        _,
        DecodeError,
    >((topic_partition_wire(x), (q2 + topic_partition_bytes(x).len()) as usize)) by {
        let k = choose|k: int| 0 <= k < tv.partitions.len() && tv.partitions[k] == x;
        assert(topic_partition_encodable(tv.partitions[k]));
        assert(tv.partitions[k].record_batches.len() == 0);
        lemma_topic_partition_round_trip(x, s2, q2);
    }
    law_compact_array_round_trip(
        tv.partitions,
        |p: TopicPartitionView| topic_partition_bytes(p),
        |s: Seq<u8>, p: usize| spec_read_topic_partition_wire(s, p),
        |p: TopicPartitionView| topic_partition_wire(p),
        s,
        (q + 16) as usize,
    );
    law_tag_buffer(s, (q + 16 + arr.len()) as usize);
}

proof fn lemma_topic_responses_read_back(responses: Seq<TopicResponseView>)
    requires
        fetch_encodable(responses),
        without_batches(responses),
    ensures
        forall|x: TopicResponseView, s2: Seq<u8>, q2: usize|
            #![trigger responses.contains(x), spec_read_topic_response_wire(s2, q2)]
            responses.contains(x) && s2.len() <= usize::MAX && q2 + topic_response_bytes(x).len()
                <= s2.len() && s2.subrange(q2 as int, q2 + topic_response_bytes(x).len())
                == topic_response_bytes(x) ==> spec_read_topic_response_wire(s2, q2) == Ok::<
                _,
                DecodeError,
            >((topic_response_wire(x), (q2 + topic_response_bytes(x).len()) as usize)),
{
    assert forall|x: TopicResponseView, s2: Seq<u8>, q2: usize|
        #![trigger responses.contains(x), spec_read_topic_response_wire(s2, q2)]
        responses.contains(x) && s2.len() <= usize::MAX && q2 + topic_response_bytes(x).len()
            <= s2.len() && s2.subrange(q2 as int, q2 + topic_response_bytes(x).len())
            == topic_response_bytes(x) implies spec_read_topic_response_wire(s2, q2) == Ok::<
        _,
        DecodeError,
    >((topic_response_wire(x), (q2 + topic_response_bytes(x).len()) as usize)) by {
        let k = choose|k: int| 0 <= k < responses.len() && responses[k] == x;
        assert(topic_response_encodable(responses[k]));
        assert forall|j: int| 0 <= j < x.partitions.len() implies #[trigger] x.partitions[j].record_batches.len() == 0 by {
            assert(responses[k].partitions[j].record_batches.len() == 0);
        }
        lemma_topic_response_round_trip(x, s2, q2);
    }
}

/// A Fetch response whose partitions carry no record batches reads back
/// to its fields: the correlation id, throttle time, error code's number,
/// session id, and each topic with its id (in canonical text) and
/// partitions.
#[verifier::rlimit(100)]
pub proof fn law_fetch_parse_back(
    correlation_id: i32,
    throttle_time_ms: i32,
    error_code: ErrorCode,
    session_id: u32,
    responses: Seq<TopicResponseView>,
)
    requires
        fetch_encodable(responses),
        without_batches(responses),
        fetch_response_bytes(correlation_id, throttle_time_ms, error_code, session_id, responses).len()
            <= usize::MAX,
    ensures
        ({
            let b = fetch_response_bytes(
                correlation_id,
                throttle_time_ms,
                error_code,
                session_id,
                responses,
            );
            spec_read_fetch_response(b, 0) == Ok::<_, DecodeError>(
                (
                    FetchWire {
                        correlation_id,
                        throttle_time_ms,
                        error_code: error_code_value(error_code),
                        session_id,
                        responses: responses.map_values(
                            |t: TopicResponseView| topic_response_wire(t),
                        ),
                    },
                    b.len() as usize,
                ),
            )
        }),
{
    let b = fetch_response_bytes(correlation_id, throttle_time_ms, error_code, session_id, responses);
    let c = i32_bytes(correlation_id);
    let t = tag_buffer_bytes();
    let th = i32_bytes(throttle_time_ms);
    let e = error_code_bytes(error_code);
    let se = be_bytes(session_id as nat, 4);
    let arr = compact_array_bytes(responses, |t: TopicResponseView| topic_response_bytes(t));
    lemma_pow256_8();
    lemma_be_round_trip(correlation_id as u32 as nat, 4);
    lemma_be_round_trip(throttle_time_ms as u32 as nat, 4);
    lemma_be_round_trip(error_code_value(error_code) as u16 as nat, 2);
    lemma_be_round_trip(session_id as nat, 4);
    assert(b =~= c + (t + (th + (e + (se + (arr + t))))));
    assert(b.subrange(0, b.len() as int) =~= b);
    lemma_split(b, 0, c, t + (th + (e + (se + (arr + t)))));
    law_i32_round_trip(correlation_id, b, 0);
    lemma_split(b, 4, t, th + (e + (se + (arr + t))));
    law_tag_buffer(b, 4);
    lemma_split(b, 5, th, e + (se + (arr + t)));
    law_i32_round_trip(throttle_time_ms, b, 5);
    lemma_split(b, 9, e, se + (arr + t));
    law_i16_round_trip(error_code_value(error_code), b, 9);
    lemma_split(b, 11, se, arr + t);
    law_u32_round_trip(session_id, b, 11);
    lemma_split(b, 15, arr, t);
    lemma_topic_responses_read_back(responses);
    law_compact_array_round_trip(
        responses,
        |t: TopicResponseView| topic_response_bytes(t),
        |s: Seq<u8>, p: usize| spec_read_topic_response_wire(s, p),
        |t: TopicResponseView| topic_response_wire(t),
        b,
        15,
    );
    law_tag_buffer(b, (15 + arr.len()) as usize);
}

} // verus!
