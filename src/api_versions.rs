//! The `ApiVersions` handler: response version 3.
use vstd::prelude::*;
use crate::codec::{
    lemma_be_round_trip, lemma_pow256_8, spec_read_compact_array, spec_read_i16, spec_read_i32,
    spec_read_tag_buffer, DecodeError, Decoded,
    compact_array_bytes, tag_buffer_bytes, views, write_compact_array, write_i16, write_i32,
    write_tag_buffer, MAX_COMPACT_LEN,
};
use crate::laws::{
    law_compact_array_round_trip, law_i16_round_trip, law_i32_round_trip, law_tag_buffer,
    lemma_split,
};
use crate::protocol::{error_code_value, 
    api_key_code, error_code_bytes, header_v0_bytes, i32_bytes, ApiKey, ErrorCode, HeaderV0,
    HeaderV2,
};

verus! {

/// One supported API: its key and the range of versions served.
#[derive(Debug, Clone, Copy, PartialEq, Eq, Structural)]
pub struct ApiVersionsApiKey {
    pub key: ApiKey,
    pub min_version: i16,
    pub max_version: i16,
}

impl ApiVersionsApiKey {
    /// The encoded entry.
    pub fn serialize(&self) -> (r: Vec<u8>)
        ensures
            r@ == api_key_bytes(*self),
    {
        let mut b: Vec<u8> = Vec::new();
        write_i16(&mut b, self.key.code());
        write_i16(&mut b, self.min_version);
        write_i16(&mut b, self.max_version);
        write_tag_buffer(&mut b);
        assert(b@ =~= api_key_bytes(*self));
        b
    }
}

impl View for ApiVersionsApiKey {
    type V = ApiVersionsApiKey;

    open spec fn view(&self) -> ApiVersionsApiKey {
        *self
    }
}

/// The two bytes of an int16.
pub open spec fn i16_bytes(v: i16) -> Seq<u8> {
    crate::codec::be_bytes(v as u16 as nat, 2)
}

/// One entry of the API list: key, min and max version, tag buffer.
pub open spec fn api_key_bytes(k: ApiVersionsApiKey) -> Seq<u8> {
    i16_bytes(api_key_code(k.key)) + i16_bytes(k.min_version) + i16_bytes(k.max_version)
        + tag_buffer_bytes()
}

/// The APIs this server answers: ApiVersions 0 to 4, DescribeTopicPartitions
/// 0, Fetch 0 to 16.
pub open spec fn supported_api_keys() -> Seq<ApiVersionsApiKey> {
    seq![
        ApiVersionsApiKey { key: ApiKey::ApiVersions, min_version: 0, max_version: 4 },
        ApiVersionsApiKey { key: ApiKey::DescribeTopicPartitions, min_version: 0, max_version: 0 },
        ApiVersionsApiKey { key: ApiKey::Fetch, min_version: 0, max_version: 16 },
    ]
}

/// The error for a request of ApiVersions version `v`.
pub open spec fn api_versions_error(v: i16) -> ErrorCode {
    if 0 <= v <= 4 {
        ErrorCode::NoError
    } else {
        ErrorCode::UnsupportedVersion
    }
}

/// The ApiVersions response.
#[derive(Debug, Clone)]
pub struct ApiVersionsResponseV3 {
    pub header: HeaderV0,
    pub error_code: ErrorCode,
    pub api_keys: Vec<ApiVersionsApiKey>,
    pub throttle_time_ms: i32,
}

/// The bytes of an ApiVersions response: header v0, error code, compact
/// array of APIs, throttle time and a tag buffer.
pub open spec fn api_versions_bytes(
    correlation_id: i32,
    error_code: ErrorCode,
    api_keys: Seq<ApiVersionsApiKey>,
    throttle_time_ms: i32,
) -> Seq<u8> {
    header_v0_bytes(correlation_id) + error_code_bytes(error_code) + compact_array_bytes(
        api_keys,
        |k: ApiVersionsApiKey| api_key_bytes(k),
    ) + i32_bytes(throttle_time_ms) + tag_buffer_bytes()
}

impl ApiVersionsResponseV3 {
    /// The response to a request with header `req_header`.
    pub fn new(req_header: &HeaderV2) -> (r: Self)
        ensures
            r.header.correlation_id == req_header.correlation_id,
            r.error_code == api_versions_error(req_header.api_version),
            r.api_keys@ == supported_api_keys(),
            r.throttle_time_ms == 0,
    {
        let header = HeaderV0::new(req_header.correlation_id);
        let error_code = if 0 <= req_header.api_version && req_header.api_version <= 4 {
            ErrorCode::NoError
        } else {
            ErrorCode::UnsupportedVersion
        };
        let api_keys = vec![
            ApiVersionsApiKey { key: ApiKey::ApiVersions, min_version: 0, max_version: 4 },
            ApiVersionsApiKey {
                key: ApiKey::DescribeTopicPartitions,
                min_version: 0,
                max_version: 0,
            },
            ApiVersionsApiKey { key: ApiKey::Fetch, min_version: 0, max_version: 16 },
        ];
        assert(api_keys@ =~= supported_api_keys());
        ApiVersionsResponseV3 { header, error_code, api_keys, throttle_time_ms: 0 }
    }

    /// The encoded response.
    pub fn as_bytes(&self) -> (r: Vec<u8>)
        requires
            self.api_keys@.len() <= MAX_COMPACT_LEN,
        ensures
            r@ == api_versions_bytes(
                self.header.correlation_id,
                self.error_code,
                self.api_keys@,
                self.throttle_time_ms,
            ),
    {
        let mut out: Vec<u8> = Vec::new();
        self.header.serialize(&mut out);
        write_i16(&mut out, self.error_code.code());
        let enc = |k: &ApiVersionsApiKey| -> (b: Vec<u8>)
            ensures
                b@ == api_key_bytes(*k),
            { k.serialize() };
        write_compact_array(&mut out, &self.api_keys, enc, Ghost(|k: ApiVersionsApiKey| api_key_bytes(k)));
        write_i32(&mut out, self.throttle_time_ms);
        write_tag_buffer(&mut out);
        proof {
            assert(views(self.api_keys@) =~= self.api_keys@);
            assert(out@ =~= api_versions_bytes(
                self.header.correlation_id,
                self.error_code,
                self.api_keys@,
                self.throttle_time_ms,
            ));
        }
        out
    }
}


/// An ApiVersions response as its fields read back from the wire.
pub struct ApiVersionsWire {
    pub correlation_id: i32,
    pub error_code: i16,
    pub api_keys: Seq<(i16, i16, i16)>,
    pub throttle_time_ms: i32,
}

/// One API entry on the wire: key, min and max version, tag buffer.
pub open spec fn spec_read_api_key_entry(s: Seq<u8>, p: usize) -> Decoded<(i16, i16, i16)> {
    match spec_read_i16(s, p) {
        Err(e) => Err(e),
        Ok((k, p1)) => match spec_read_i16(s, p1) {
            Err(e) => Err(e),
            Ok((lo, p2)) => match spec_read_i16(s, p2) {
                Err(e) => Err(e),
                Ok((hi, p3)) => match spec_read_tag_buffer(s, p3) {
                    Err(e) => Err(e),
                    Ok((_, p4)) => Ok(((k, lo, hi), p4)),
                },
            },
        },
    }
}

/// An ApiVersions response read from the wire.
pub open spec fn spec_read_api_versions_response(s: Seq<u8>, p: usize) -> Decoded<ApiVersionsWire> {
    match spec_read_i32(s, p) {
        Err(e) => Err(e),
        Ok((correlation_id, p1)) => match spec_read_i16(s, p1) {
            Err(e) => Err(e),
            Ok((error_code, p2)) => match spec_read_compact_array(
                s,
                p2,
                |s: Seq<u8>, p: usize| spec_read_api_key_entry(s, p),
            ) {
                Err(e) => Err(e),
                Ok((api_keys, p3)) => match spec_read_i32(s, p3) {
                    Err(e) => Err(e),
                    Ok((throttle_time_ms, p4)) => match spec_read_tag_buffer(s, p4) {
                        Err(e) => Err(e),
                        Ok((_, p5)) => Ok(
                            (ApiVersionsWire { correlation_id, error_code, api_keys, throttle_time_ms }, p5),
                        ),
                    },
                },
            },
        },
    }
}

/// The wire fields of an API entry.
pub open spec fn api_key_wire(k: ApiVersionsApiKey) -> (i16, i16, i16) {
    (api_key_code(k.key), k.min_version, k.max_version)
}

proof fn lemma_api_key_entry_round_trip(k: ApiVersionsApiKey, s: Seq<u8>, q: usize)
    requires
        s.len() <= usize::MAX,
        q + api_key_bytes(k).len() <= s.len(),
        s.subrange(q as int, q + api_key_bytes(k).len()) == api_key_bytes(k),
    ensures
        spec_read_api_key_entry(s, q) == Ok::<_, DecodeError>(
            (api_key_wire(k), (q + api_key_bytes(k).len()) as usize),
        ),
{
    let a = i16_bytes(api_key_code(k.key));
    let b = i16_bytes(k.min_version);
    let c = i16_bytes(k.max_version);
    let t = tag_buffer_bytes();
    lemma_pow256_8();
    lemma_be_round_trip(api_key_code(k.key) as u16 as nat, 2);
    lemma_be_round_trip(k.min_version as u16 as nat, 2);
    lemma_be_round_trip(k.max_version as u16 as nat, 2);
    assert(api_key_bytes(k) =~= a + (b + (c + t)));
    lemma_split(s, q as int, a, b + (c + t));
    law_i16_round_trip(api_key_code(k.key), s, q);
    lemma_split(s, q + 2, b, c + t);
    law_i16_round_trip(k.min_version, s, (q + 2) as usize);
    lemma_split(s, q + 4, c, t);
    law_i16_round_trip(k.max_version, s, (q + 4) as usize);
    law_tag_buffer(s, (q + 6) as usize);
}

/// An ApiVersions response reads back to its fields: the correlation id,
/// the error code's number, each API's key number and version range, and
/// the throttle time.
pub proof fn law_api_versions_parse_back(
    correlation_id: i32,
    error_code: ErrorCode,
    api_keys: Seq<ApiVersionsApiKey>,
    throttle_time_ms: i32,
)
    requires
        api_keys.len() <= MAX_COMPACT_LEN,
        api_versions_bytes(correlation_id, error_code, api_keys, throttle_time_ms).len()
            <= usize::MAX,
    ensures
        ({
            let b = api_versions_bytes(correlation_id, error_code, api_keys, throttle_time_ms);
            spec_read_api_versions_response(b, 0) == Ok::<_, DecodeError>(
                (
                    ApiVersionsWire {
                        correlation_id,
                        error_code: error_code_value(error_code),
                        api_keys: api_keys.map_values(|k: ApiVersionsApiKey| api_key_wire(k)),
                        throttle_time_ms,
                    },
                    b.len() as usize,
                ),
            )
        }),
{
    let b = api_versions_bytes(correlation_id, error_code, api_keys, throttle_time_ms);
    let h = header_v0_bytes(correlation_id);
    let e = error_code_bytes(error_code);
    let arr = compact_array_bytes(api_keys, |k: ApiVersionsApiKey| api_key_bytes(k));
    let t4 = i32_bytes(throttle_time_ms);
    let tag = tag_buffer_bytes();
    lemma_pow256_8();
    lemma_be_round_trip(correlation_id as u32 as nat, 4);
    lemma_be_round_trip(error_code_value(error_code) as u16 as nat, 2);
    lemma_be_round_trip(throttle_time_ms as u32 as nat, 4);
    assert(b =~= h + (e + (arr + (t4 + tag))));
    assert(b.subrange(0, b.len() as int) =~= b);
    lemma_split(b, 0, h, e + (arr + (t4 + tag)));
    law_i32_round_trip(correlation_id, b, 0);
    lemma_split(b, 4, e, arr + (t4 + tag));
    law_i16_round_trip(error_code_value(error_code), b, 4);
    lemma_split(b, 6, arr, t4 + tag);
    assert forall|k: ApiVersionsApiKey, s2: Seq<u8>, q: usize|
        #![trigger api_keys.contains(k), spec_read_api_key_entry(s2, q)]
        api_keys.contains(k) && s2.len() <= usize::MAX && q + api_key_bytes(k).len() <= s2.len()
            && s2.subrange(q as int, q + api_key_bytes(k).len()) == api_key_bytes(k) implies
        spec_read_api_key_entry(s2, q) == Ok::<_, DecodeError>(
            (api_key_wire(k), (q + api_key_bytes(k).len()) as usize),
        ) by {
        lemma_api_key_entry_round_trip(k, s2, q);
    }
    law_compact_array_round_trip(
        api_keys,
        |k: ApiVersionsApiKey| api_key_bytes(k),
        |s: Seq<u8>, p: usize| spec_read_api_key_entry(s, p),
        |k: ApiVersionsApiKey| api_key_wire(k),
        b,
        6,
    );
    let p3 = 6 + arr.len();
    lemma_split(b, p3 as int, t4, tag);
    law_i32_round_trip(throttle_time_ms, b, p3 as usize);
    law_tag_buffer(b, (p3 + 4) as usize);
}

} // verus!
