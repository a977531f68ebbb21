//! Framing and dispatch: a message is decoded into one of the served
//! requests, answered, and the answer is prefixed with its length.
use vstd::prelude::*;
use crate::api_versions::{
    api_versions_bytes, api_versions_error, supported_api_keys, ApiVersionsResponseV3,
};
use crate::cluster_metadata::{log_values, RecordBatches};
use crate::codec::{
    lemma_be_round_trip, lemma_pow256_8, spec_read_i32, write_bytes, write_i32, DecodeError,
};
use crate::cluster_metadata::{spec_read_batches, RecordBatchView};
use crate::describe_topic_partitions::{
    described_topic, dtp_encodable, dtp_response_bytes, spec_read_dtp_request,
    DescribeTopicPartitionsRequestV0, DescribeTopicPartitionsRequestV0View, NO_CURSOR,
};
use crate::fetch::{
    fetch_encodable, fetch_response_bytes, fetched_topic, segments_match, spec_read_fetch_request,
    FetchRequestV16, FetchRequestV16View,
};
use crate::protocol::{
    api_key_of, i32_bytes, spec_read_header_v2, ApiKey, ErrorCode, HeaderV2, HeaderV2View,
};

verus! {

/// A decoded request.
#[derive(Debug, Clone)]
pub enum Request {
    ApiVersions(HeaderV2),
    DescribeTopicPartitions(HeaderV2, DescribeTopicPartitionsRequestV0),
    Fetch(HeaderV2, FetchRequestV16),
}

pub enum RequestView {
    ApiVersions(HeaderV2View),
    DescribeTopicPartitions(HeaderV2View, DescribeTopicPartitionsRequestV0View),
    Fetch(HeaderV2View, FetchRequestV16View),
}

impl View for Request {
    type V = RequestView;

    open spec fn view(&self) -> RequestView {
        match self {
            Request::ApiVersions(h) => RequestView::ApiVersions(h@),
            Request::DescribeTopicPartitions(h, r) => RequestView::DescribeTopicPartitions(h@, r@),
            Request::Fetch(h, r) => RequestView::Fetch(h@, r@),
        }
    }
}

/// A message: the request header, then by its API key the body; the body of
/// an ApiVersions request is not read.
pub open spec fn spec_decode_request(s: Seq<u8>) -> Result<RequestView, DecodeError> {
    match spec_read_header_v2(s, 0) {
        Err(e) => Err(e),
        Ok((h, p)) => match api_key_of(h.api_key) {
            None => Err(DecodeError::UnknownApiKey),
            Some(ApiKey::ApiVersions) => Ok(RequestView::ApiVersions(h)),
            Some(ApiKey::DescribeTopicPartitions) => match spec_read_dtp_request(s, p) {
                Err(e) => Err(e),
                Ok((r, _)) => Ok(RequestView::DescribeTopicPartitions(h, r)),
            },
            Some(ApiKey::Fetch) => match spec_read_fetch_request(s, p) {
                Err(e) => Err(e),
                Ok((r, _)) => Ok(RequestView::Fetch(h, r)),
            },
        },
    }
}

/// Decodes a message into a request.
pub fn decode_request(message: &[u8]) -> (r: Result<Request, DecodeError>)
    ensures
        match r {
            Ok(req) => spec_decode_request(message@) == Ok::<_, DecodeError>(req@),
            Err(e) => spec_decode_request(message@) == Err::<RequestView, _>(e),
        },
{
    let (header, p) = HeaderV2::deserialize(message, 0)?;
    match ApiKey::from_code(header.api_key) {
        None => Err(DecodeError::UnknownApiKey),
        Some(ApiKey::ApiVersions) => Ok(Request::ApiVersions(header)),
        Some(ApiKey::DescribeTopicPartitions) => {
            let (body, _) = DescribeTopicPartitionsRequestV0::deserialize(message, p)?;
            Ok(Request::DescribeTopicPartitions(header, body))
        },
        Some(ApiKey::Fetch) => {
            let (body, _) = FetchRequestV16::deserialize(message, p)?;
            Ok(Request::Fetch(header, body))
        },
    }
}

impl Request {
    /// Whether answering this request reads the metadata log.
    pub fn needs_metadata(&self) -> (r: bool)
        ensures
            r == !(self is ApiVersions),
    {
        match self {
            Request::ApiVersions(_) => false,
            _ => true,
        }
    }

    /// The correlation id to echo in the response.
    pub fn correlation_id(&self) -> (r: i32)
        ensures
            r == request_correlation_id(self@),
    {
        match self {
            Request::ApiVersions(h) => h.correlation_id,
            Request::DescribeTopicPartitions(h, _) => h.correlation_id,
            Request::Fetch(h, _) => h.correlation_id,
        }
    }
}

pub open spec fn request_correlation_id(r: RequestView) -> i32 {
    match r {
        RequestView::ApiVersions(h) => h.correlation_id,
        RequestView::DescribeTopicPartitions(h, _) => h.correlation_id,
        RequestView::Fetch(h, _) => h.correlation_id,
    }
}

/// Whether `segments` has the shape that answering `r` needs: one list per
/// requested topic with one entry per requested partition for a Fetch.
pub open spec fn segments_fit(r: RequestView, segments: Seq<Seq<Option<Seq<u8>>>>) -> bool {
    match r {
        RequestView::Fetch(_, f) => segments_match(f.topics, segments),
        _ => true,
    }
}

/// The response payload for request `r`, given the values of the metadata
/// log and the segments read for a Fetch; `None` where the response cannot
/// be encoded.
#[verifier::opaque]
pub open spec fn response_payload(
    r: RequestView,
    vals: Seq<crate::cluster_metadata::RecordValueView>,
    segments: Seq<Seq<Option<Seq<u8>>>>,
) -> Option<Seq<u8>> {
    match r {
        RequestView::ApiVersions(h) => Some(
            api_versions_bytes(
                h.correlation_id,
                api_versions_error(h.api_version),
                supported_api_keys(),
                0,
            ),
        ),
        RequestView::DescribeTopicPartitions(h, d) => {
            let topics = d.topic_names.map_values(
                |n: Option<Seq<char>>| described_topic(n, vals),
            );
            if dtp_encodable(topics) {
                Some(dtp_response_bytes(h.correlation_id, 0, topics, NO_CURSOR))
            } else {
                None
            }
        },
        RequestView::Fetch(h, f) => {
            let responses = Seq::new(
                f.topics.len(),
                |i: int| fetched_topic(f.topics[i], segments[i]),
            );
            if fetch_encodable(responses) {
                Some(
                    fetch_response_bytes(
                        h.correlation_id,
                        0,
                        ErrorCode::NoError,
                        f.session_id,
                        responses,
                    ),
                )
            } else {
                None
            }
        },
    }
}

/// Answers a request. `log` is the metadata log (read only for
/// DescribeTopicPartitions and Fetch); `segments` holds what was read for
/// each partition of a Fetch request.
pub fn respond(req: &Request, log: &RecordBatches, segments: &Vec<Vec<Option<Vec<u8>>>>) -> (r:
    Result<Vec<u8>, DecodeError>)
    requires
        segments_fit(req@, segments.deep_view()),
    ensures
        match response_payload(req@, log_values(log@), segments.deep_view()) {
            Some(b) => r matches Ok(v) && v@ == b,
            None => r == Err::<Vec<u8>, DecodeError>(DecodeError::Unencodable),
        },
{
    reveal(response_payload);
    match req {
        Request::ApiVersions(h) => {
            let resp = ApiVersionsResponseV3::new(h);
            Ok(resp.as_bytes())
        },
        Request::DescribeTopicPartitions(h, d) => {
            let resp = crate::describe_topic_partitions::handle_request(h, d, log);
            if resp.is_encodable() {
                Ok(resp.as_bytes())
            } else {
                Err(DecodeError::Unencodable)
            }
        },
        Request::Fetch(h, f) => {
            let resp = crate::fetch::handle_request(h, f, segments);
            if resp.is_encodable() {
                Ok(resp.as_bytes())
            } else {
                Err(DecodeError::Unencodable)
            }
        },
    }
}

/// Largest payload whose length fits the int32 prefix.
pub const MAX_FRAME_LEN: usize = 0x7fff_ffff;

/// A frame: the payload's length as a big-endian int32, then the payload.
pub open spec fn frame_bytes(payload: Seq<u8>) -> Seq<u8> {
    i32_bytes(payload.len() as i32) + payload
}

/// Prefixes `src` with its length.
pub fn create_response_message(src: &[u8]) -> (r: Vec<u8>)
    requires
        src@.len() <= MAX_FRAME_LEN,
    ensures
        r@ == frame_bytes(src@),
{
    let mut out: Vec<u8> = Vec::new();
    write_i32(&mut out, src.len() as i32);
    write_bytes(&mut out, src);
    out
}


/// The frame answering `message`, given the bytes of the metadata log and
/// the segments read for a Fetch: decode, answer, prefix with the length.
/// The log is parsed only for requests that read it.
pub open spec fn spec_process(
    message: Seq<u8>,
    log: Seq<u8>,
    segments: Seq<Seq<Option<Seq<u8>>>>,
) -> Result<Seq<u8>, DecodeError> {
    match spec_decode_request(message) {
        Err(e) => Err(e),
        Ok(r) => {
            let batches: Result<Seq<RecordBatchView>, DecodeError> = if r is ApiVersions {
                Ok(Seq::empty())
            } else {
                spec_read_batches(log, 0)
            };
            match batches {
                Err(e) => Err(e),
                Ok(bs) => if !segments_fit(r, segments) {
                    Err(DecodeError::BadLength)
                } else {
                    match response_payload(r, log_values(bs), segments) {
                        None => Err(DecodeError::Unencodable),
                        Some(b) => if b.len() > MAX_FRAME_LEN {
                            Err(DecodeError::Unencodable)
                        } else {
                            Ok(frame_bytes(b))
                        },
                    }
                },
            }
        },
    }
}

/// Whether `segments` has one list per requested topic of a Fetch with one
/// entry per requested partition.
pub fn segments_fit_request(req: &Request, segments: &Vec<Vec<Option<Vec<u8>>>>) -> (r: bool)
    ensures
        r == segments_fit(req@, segments.deep_view()),
{
    match req {
        Request::Fetch(h, f) => {
            assert(req@ == RequestView::Fetch(h@, f@));
            assert(segments.deep_view().len() == segments@.len());
            if segments.len() != f.topics.len() {
                return false;
            }
            let mut i: usize = 0;
            while i < f.topics.len()
                invariant
                    i <= f.topics@.len(),
                    req@ == RequestView::Fetch(h@, f@),
                    segments@.len() == f.topics@.len(),
                    forall|j: int|
                        0 <= j < i ==> #[trigger] segments.deep_view()[j].len()
                            == f@.topics[j].partitions.len(),
                decreases f.topics@.len() - i,
            {
                assert(segments.deep_view()[i as int] == segments@[i as int].deep_view());
                assert(f@.topics[i as int] == f.topics@[i as int]@);
                assert(segments@[i as int].deep_view().len() == segments@[i as int]@.len());
                if segments[i].len() != f.topics[i].partitions.len() {
                    assert(segments.deep_view()[i as int].len() != f@.topics[i as int].partitions.len());
                    assert(!segments_match(f@.topics, segments.deep_view()));
                    return false;
                }
                i = i + 1;
            }
            true
        },
        _ => true,
    }
}

/// Answers one message completely: decodes it, parses the metadata log when
/// the request reads it, answers and frames the answer.
pub fn process_message(message: &[u8], log: &[u8], segments: &Vec<Vec<Option<Vec<u8>>>>) -> (r:
    Result<Vec<u8>, DecodeError>)
    ensures
        match r {
            Ok(b) => spec_process(message@, log@, segments.deep_view()) == Ok::<_, DecodeError>(b@),
            Err(e) => spec_process(message@, log@, segments.deep_view()) == Err::<Seq<u8>, _>(e),
        },
{
    let req = decode_request(message)?;
    let batches = if req.needs_metadata() {
        crate::cluster_metadata::RecordBatches::from_bytes(log)?
    } else {
        let b = RecordBatches { batches: Vec::new() };
        assert(b@ =~= Seq::<RecordBatchView>::empty());
        b
    };
    if !segments_fit_request(&req, segments) {
        return Err(DecodeError::BadLength);
    }
    let payload = respond(&req, &batches, segments)?;
    if payload.len() > MAX_FRAME_LEN {
        return Err(DecodeError::Unencodable);
    }
    Ok(create_response_message(payload.as_slice()))
}

proof fn lemma_i32_prefix(c: i32, rest: Seq<u8>)
    ensures
        spec_read_i32(i32_bytes(c) + rest, 0) == Ok::<_, DecodeError>((c, 4usize)),
{
    lemma_pow256_8();
    lemma_be_round_trip(c as u32 as nat, 4);
    let s = i32_bytes(c) + rest;
    assert(s.subrange(0, 4) =~= i32_bytes(c));
    crate::laws::law_i32_round_trip(c, s, 0);
}

/// A frame starts with the length of its payload as an int32, and the
/// payload follows unchanged.
pub proof fn law_frame(payload: Seq<u8>)
    requires
        payload.len() <= MAX_FRAME_LEN,
    ensures
        spec_read_i32(frame_bytes(payload), 0) == Ok::<_, DecodeError>(
            (payload.len() as i32, 4usize),
        ),
        frame_bytes(payload).len() == payload.len() + 4,
        frame_bytes(payload).subrange(4, frame_bytes(payload).len() as int) == payload,
{
    lemma_pow256_8();
    lemma_be_round_trip(payload.len() as i32 as u32 as nat, 4);
    lemma_i32_prefix(payload.len() as i32, payload);
    assert(frame_bytes(payload).subrange(4, frame_bytes(payload).len() as int) =~= payload);
}

/// Every response payload starts with the correlation id of its request.
pub proof fn law_response_correlation_id(
    r: RequestView,
    vals: Seq<crate::cluster_metadata::RecordValueView>,
    segments: Seq<Seq<Option<Seq<u8>>>>,
)
    requires
        response_payload(r, vals, segments) is Some,
    ensures
        spec_read_i32(response_payload(r, vals, segments)->Some_0, 0) == Ok::<_, DecodeError>(
            (request_correlation_id(r), 4usize),
        ),
{
    reveal(response_payload);
    let b = response_payload(r, vals, segments)->Some_0;
    let c = request_correlation_id(r);
    let rest = b.subrange(4, b.len() as int);
    lemma_pow256_8();
    lemma_be_round_trip(c as u32 as nat, 4);
    assert(b =~= i32_bytes(c) + rest);
    lemma_i32_prefix(c, rest);
}

/// Every frame produced for a message carries the length of the payload
/// that follows, and that payload starts with the request's correlation id.
pub proof fn law_framed_response(message: Seq<u8>, log: Seq<u8>, segments: Seq<Seq<Option<Seq<u8>>>>)
    requires
        spec_process(message, log, segments) is Ok,
    ensures
        ({
            let f = spec_process(message, log, segments)->Ok_0;
            let r = spec_decode_request(message)->Ok_0;
            &&& f.len() >= 4
            &&& spec_read_i32(f, 0) == Ok::<_, DecodeError>(((f.len() - 4) as i32, 4usize))
            &&& spec_read_i32(f.subrange(4, f.len() as int), 0) == Ok::<_, DecodeError>(
                (request_correlation_id(r), 4usize),
            )
        }),
{
    let r = spec_decode_request(message)->Ok_0;
    let bs = if r is ApiVersions {
        Seq::<RecordBatchView>::empty()
    } else {
        spec_read_batches(log, 0)->Ok_0
    };
    let b = response_payload(r, log_values(bs), segments)->Some_0;
    law_frame(b);
    law_response_correlation_id(r, log_values(bs), segments);
}

/// The frame answering a message is a function of the message, the
/// metadata log and the segments alone: the same inputs give the same bytes.
pub proof fn law_deterministic(
    m1: Seq<u8>,
    m2: Seq<u8>,
    log1: Seq<u8>,
    log2: Seq<u8>,
    s1: Seq<Seq<Option<Seq<u8>>>>,
    s2: Seq<Seq<Option<Seq<u8>>>>,
)
    requires
        m1 == m2,
        log1 == log2,
        s1 == s2,
    ensures
        spec_process(m1, log1, s1) == spec_process(m2, log2, s2),
{
}


/// What a response payload for `r` reads back to, field by field; for a
/// Fetch only where no partition carries record batches.
#[verifier::opaque]
pub open spec fn payload_reads_back(
    r: RequestView,
    vals: Seq<crate::cluster_metadata::RecordValueView>,
    segments: Seq<Seq<Option<Seq<u8>>>>,
    b: Seq<u8>,
) -> bool {
    match r {
        RequestView::ApiVersions(h) => crate::api_versions::spec_read_api_versions_response(b, 0)
            == Ok::<_, DecodeError>(
            (
                crate::api_versions::ApiVersionsWire {
                    correlation_id: h.correlation_id,
                    error_code: crate::protocol::error_code_value(api_versions_error(h.api_version)),
                    api_keys: supported_api_keys().map_values(
                        |k: crate::api_versions::ApiVersionsApiKey|
                            crate::api_versions::api_key_wire(k),
                    ),
                    throttle_time_ms: 0,
                },
                b.len() as usize,
            ),
        ),
        RequestView::DescribeTopicPartitions(h, d) => crate::describe_topic_partitions::spec_read_dtp_response(b, 0)
            == Ok::<_, DecodeError>(
            (
                crate::describe_topic_partitions::DtpWire {
                    correlation_id: h.correlation_id,
                    throttle_time_ms: 0,
                    topics: d.topic_names.map_values(
                        |n: Option<Seq<char>>| described_topic(n, vals),
                    ).map_values(
                        |t: crate::describe_topic_partitions::TopicView|
                            crate::describe_topic_partitions::topic_wire(t),
                    ),
                    next_cursor: NO_CURSOR,
                },
                b.len() as usize,
            ),
        ),
        RequestView::Fetch(h, f) => {
            let responses = Seq::new(
                f.topics.len(),
                |i: int| fetched_topic(f.topics[i], segments[i]),
            );
            crate::fetch::without_batches(responses) ==> crate::fetch::spec_read_fetch_response(b, 0)
                == Ok::<_, DecodeError>(
                (
                    crate::fetch::FetchWire {
                        correlation_id: h.correlation_id,
                        throttle_time_ms: 0,
                        error_code: 0,
                        session_id: f.session_id,
                        responses: responses.map_values(
                            |t: crate::fetch::TopicResponseView| crate::fetch::topic_response_wire(t),
                        ),
                    },
                    b.len() as usize,
                ),
            )
        },
    }
}

proof fn lemma_api_versions_reads_back(
    h: HeaderV2View,
    vals: Seq<crate::cluster_metadata::RecordValueView>,
    segments: Seq<Seq<Option<Seq<u8>>>>,
)
    requires
        api_versions_bytes(h.correlation_id, api_versions_error(h.api_version), supported_api_keys(), 0).len()
            <= usize::MAX,
    ensures
        payload_reads_back(
            RequestView::ApiVersions(h),
            vals,
            segments,
            api_versions_bytes(h.correlation_id, api_versions_error(h.api_version), supported_api_keys(), 0),
        ),
{
    reveal(payload_reads_back);
    crate::api_versions::law_api_versions_parse_back(
        h.correlation_id,
        api_versions_error(h.api_version),
        supported_api_keys(),
        0,
    );
}

proof fn lemma_dtp_reads_back(
    h: HeaderV2View,
    d: DescribeTopicPartitionsRequestV0View,
    vals: Seq<crate::cluster_metadata::RecordValueView>,
    segments: Seq<Seq<Option<Seq<u8>>>>,
)
    requires
        dtp_encodable(d.topic_names.map_values(|n: Option<Seq<char>>| described_topic(n, vals))),
        dtp_response_bytes(
            h.correlation_id,
            0,
            d.topic_names.map_values(|n: Option<Seq<char>>| described_topic(n, vals)),
            NO_CURSOR,
        ).len() <= usize::MAX,
    ensures
        payload_reads_back(
            RequestView::DescribeTopicPartitions(h, d),
            vals,
            segments,
            dtp_response_bytes(
                h.correlation_id,
                0,
                d.topic_names.map_values(|n: Option<Seq<char>>| described_topic(n, vals)),
                NO_CURSOR,
            ),
        ),
{
    reveal(payload_reads_back);
    let topics = d.topic_names.map_values(|n: Option<Seq<char>>| described_topic(n, vals));
    crate::describe_topic_partitions::law_dtp_parse_back(h.correlation_id, 0, topics, NO_CURSOR);
}

proof fn lemma_fetch_reads_back(
    h: HeaderV2View,
    f: FetchRequestV16View,
    vals: Seq<crate::cluster_metadata::RecordValueView>,
    segments: Seq<Seq<Option<Seq<u8>>>>,
    responses: Seq<crate::fetch::TopicResponseView>,
)
    requires
        responses == Seq::new(f.topics.len(), |i: int| fetched_topic(f.topics[i], segments[i])),
        fetch_encodable(responses),
        fetch_response_bytes(h.correlation_id, 0, ErrorCode::NoError, f.session_id, responses).len()
            <= usize::MAX,
    ensures
        payload_reads_back(
            RequestView::Fetch(h, f),
            vals,
            segments,
            fetch_response_bytes(h.correlation_id, 0, ErrorCode::NoError, f.session_id, responses),
        ),
{
    reveal(payload_reads_back);
    if crate::fetch::without_batches(responses) {
        crate::fetch::law_fetch_parse_back(
            h.correlation_id,
            0,
            ErrorCode::NoError,
            f.session_id,
            responses,
        );
    }
}

/// Every response payload reads back to the response it encodes; a Fetch
/// response only where no segment was spliced in, since raw segment bytes
/// carry no length of their own.
pub proof fn law_response_parse_back(
    r: RequestView,
    vals: Seq<crate::cluster_metadata::RecordValueView>,
    segments: Seq<Seq<Option<Seq<u8>>>>,
)
    requires
        response_payload(r, vals, segments) is Some,
        response_payload(r, vals, segments)->Some_0.len() <= usize::MAX,
    ensures
        payload_reads_back(r, vals, segments, response_payload(r, vals, segments)->Some_0),
{
    reveal(response_payload);
    match r {
        RequestView::ApiVersions(h) => {
            lemma_api_versions_reads_back(h, vals, segments);
        },
        RequestView::DescribeTopicPartitions(h, d) => {
            lemma_dtp_reads_back(h, d, vals, segments);
        },
        RequestView::Fetch(h, f) => {
            let responses = Seq::new(
                f.topics.len(),
                |i: int| fetched_topic(f.topics[i], segments[i]),
            );
            lemma_fetch_reads_back(h, f, vals, segments, responses);
        },
    }
}

} // verus!
