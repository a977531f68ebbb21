//! API keys, error codes and the request and response headers.
use vstd::prelude::*;
use crate::codec::{
    DecodeError,
    be_bytes, read_i16, read_i32, read_nullable_string, read_tag_buffer, spec_read_i16,
    spec_read_i32, spec_read_nullable_string, spec_read_tag_buffer, tag_buffer_bytes, write_i32,
    write_tag_buffer, Decoded, NullableString,
};

verus! {

/// The requests this server answers.
#[derive(Debug, Clone, Copy, PartialEq, Eq, Structural)]
pub enum ApiKey {
    Fetch,
    ApiVersions,
    DescribeTopicPartitions,
}

/// The wire number of an API key.
pub open spec fn api_key_code(k: ApiKey) -> i16 {
    match k {
        ApiKey::Fetch => 1,
        ApiKey::ApiVersions => 18,
        ApiKey::DescribeTopicPartitions => 75,
    }
}

/// The API key with a wire number, if it is one of those served.
pub open spec fn api_key_of(code: i16) -> Option<ApiKey> {
    if code == 1 {
        Some(ApiKey::Fetch)
    } else if code == 18 {
        Some(ApiKey::ApiVersions)
    } else if code == 75 {
        Some(ApiKey::DescribeTopicPartitions)
    } else {
        None
    }
}

impl ApiKey {
    /// The wire number of this key.
    pub fn code(&self) -> (r: i16)
        ensures
            r == api_key_code(*self),
    {
        match self {
            ApiKey::Fetch => 1,
            ApiKey::ApiVersions => 18,
            ApiKey::DescribeTopicPartitions => 75,
        }
    }

    /// The key with wire number `code`, or `None` for one not served.
    pub fn from_code(code: i16) -> (r: Option<ApiKey>)
        ensures
            r == api_key_of(code),
    {
        if code == 1 {
            Some(ApiKey::Fetch)
        } else if code == 18 {
            Some(ApiKey::ApiVersions)
        } else if code == 75 {
            Some(ApiKey::DescribeTopicPartitions)
        } else {
            None
        }
    }
}

/// Error codes carried inside responses.
#[derive(Debug, Clone, Copy, PartialEq, Eq, Structural)]
pub enum ErrorCode {
    NoError,
    UnknownTopicOrPartition,
    UnsupportedVersion,
    UnknownTopicId,
}

/// The wire number of an error code.
pub open spec fn error_code_value(e: ErrorCode) -> i16 {
    match e {
        ErrorCode::NoError => 0,
        ErrorCode::UnknownTopicOrPartition => 3,
        ErrorCode::UnsupportedVersion => 35,
        ErrorCode::UnknownTopicId => 100,
    }
}

/// The two bytes of an error code.
pub open spec fn error_code_bytes(e: ErrorCode) -> Seq<u8> {
    be_bytes(error_code_value(e) as u16 as nat, 2)
}

impl ErrorCode {
    /// The wire number of this error code.
    pub fn code(&self) -> (r: i16)
        ensures
            r == error_code_value(*self),
    {
        match self {
            ErrorCode::NoError => 0,
            ErrorCode::UnknownTopicOrPartition => 3,
            ErrorCode::UnsupportedVersion => 35,
            ErrorCode::UnknownTopicId => 100,
        }
    }
}

/// Response header version 0: the correlation id alone.
#[derive(Debug, Clone, Copy, PartialEq, Eq, Structural)]
pub struct HeaderV0 {
    pub correlation_id: i32,
}

/// Response header version 1: the correlation id and a tag buffer.
#[derive(Debug, Clone, Copy, PartialEq, Eq, Structural)]
pub struct HeaderV1 {
    pub correlation_id: i32,
}

/// The four bytes of an int32.
pub open spec fn i32_bytes(v: i32) -> Seq<u8> {
    be_bytes(v as u32 as nat, 4)
}

pub open spec fn header_v0_bytes(correlation_id: i32) -> Seq<u8> {
    i32_bytes(correlation_id)
}

pub open spec fn header_v1_bytes(correlation_id: i32) -> Seq<u8> {
    i32_bytes(correlation_id) + tag_buffer_bytes()
}

impl HeaderV0 {
    pub fn new(correlation_id: i32) -> (r: Self)
        ensures
            r.correlation_id == correlation_id,
    {
        HeaderV0 { correlation_id }
    }

    /// Appends the header.
    pub fn serialize(&self, out: &mut Vec<u8>)
        ensures
            final(out)@ == old(out)@ + header_v0_bytes(self.correlation_id),
    {
        write_i32(out, self.correlation_id);
    }
}

impl HeaderV1 {
    pub fn new(correlation_id: i32) -> (r: Self)
        ensures
            r.correlation_id == correlation_id,
    {
        HeaderV1 { correlation_id }
    }

    /// Appends the header.
    pub fn serialize(&self, out: &mut Vec<u8>)
        ensures
            final(out)@ == old(out)@ + header_v1_bytes(self.correlation_id),
    {
        write_i32(out, self.correlation_id);
        write_tag_buffer(out);
        assert(final(out)@ =~= old(out)@ + header_v1_bytes(self.correlation_id));
    }
}

/// Request header version 2.
#[derive(Debug, Clone)]
pub struct HeaderV2 {
    pub api_key: i16,
    pub api_version: i16,
    pub correlation_id: i32,
    pub client_id: NullableString,
}

/// What a request header holds.
pub struct HeaderV2View {
    pub api_key: i16,
    pub api_version: i16,
    pub correlation_id: i32,
    pub client_id: Option<Seq<char>>,
}

impl View for HeaderV2 {
    type V = HeaderV2View;

    open spec fn view(&self) -> HeaderV2View {
        HeaderV2View {
            api_key: self.api_key,
            api_version: self.api_version,
            correlation_id: self.correlation_id,
            client_id: self.client_id@,
        }
    }
}

/// A request header at `p`: api key, api version, correlation id, nullable
/// client id and a tag buffer.
pub open spec fn spec_read_header_v2(s: Seq<u8>, p: usize) -> Decoded<HeaderV2View> {
    match spec_read_i16(s, p) {
        Err(e) => Err(e),
        Ok((api_key, p1)) => match spec_read_i16(s, p1) {
            Err(e) => Err(e),
            Ok((api_version, p2)) => match spec_read_i32(s, p2) {
                Err(e) => Err(e),
                Ok((correlation_id, p3)) => match spec_read_nullable_string(s, p3) {
                    Err(e) => Err(e),
                    Ok((client_id, p4)) => match spec_read_tag_buffer(s, p4) {
                        Err(e) => Err(e),
                        Ok((_, p5)) => Ok(
                            (HeaderV2View { api_key, api_version, correlation_id, client_id }, p5),
                        ),
                    },
                },
            },
        },
    }
}

impl HeaderV2 {
    /// Reads a request header at `pos`.
    pub fn deserialize(buf: &[u8], pos: usize) -> (r: Decoded<HeaderV2>)
        ensures
            crate::codec::view_decoded(r) == spec_read_header_v2(buf@, pos),
    {
        let (api_key, p1) = read_i16(buf, pos)?;
        let (api_version, p2) = read_i16(buf, p1)?;
        let (correlation_id, p3) = read_i32(buf, p2)?;
        let (client_id, p4) = read_nullable_string(buf, p3)?;
        let (_, p5) = read_tag_buffer(buf, p4)?;
        Ok((HeaderV2 { api_key, api_version, correlation_id, client_id }, p5))
    }
}


/// The fields of a request header before its tag buffer.
pub open spec fn header_v2_fields_bytes(h: HeaderV2View) -> Seq<u8> {
    be_bytes(h.api_key as u16 as nat, 2) + be_bytes(h.api_version as u16 as nat, 2) + i32_bytes(
        h.correlation_id,
    ) + crate::codec::nullable_string_bytes(h.client_id)
}

proof fn lemma_header_v2_fields(h: HeaderV2View, s: Seq<u8>, tail: Seq<u8>)
    requires
        h.client_id matches Some(t) ==> crate::codec::text_len(t) <= 0x7fff,
        s == header_v2_fields_bytes(h) + tail,
        s.len() <= usize::MAX,
    ensures
        spec_read_i16(s, 0) == Ok::<_, DecodeError>((h.api_key, 2usize)),
        spec_read_i16(s, 2) == Ok::<_, DecodeError>((h.api_version, 4usize)),
        spec_read_i32(s, 4) == Ok::<_, DecodeError>((h.correlation_id, 8usize)),
        spec_read_nullable_string(s, 8) == Ok::<_, DecodeError>(
            (
                h.client_id,
                (8 + crate::codec::nullable_string_bytes(h.client_id).len()) as usize,
            ),
        ),
        header_v2_fields_bytes(h).len() == 8 + crate::codec::nullable_string_bytes(
            h.client_id,
        ).len(),
{
    let a = be_bytes(h.api_key as u16 as nat, 2);
    let b = be_bytes(h.api_version as u16 as nat, 2);
    let c = i32_bytes(h.correlation_id);
    let n = crate::codec::nullable_string_bytes(h.client_id);
    crate::codec::lemma_pow256_8();
    crate::codec::lemma_be_round_trip(h.api_key as u16 as nat, 2);
    crate::codec::lemma_be_round_trip(h.api_version as u16 as nat, 2);
    crate::codec::lemma_be_round_trip(h.correlation_id as u32 as nat, 4);
    assert(s =~= a + (b + (c + (n + tail))));
    assert(s.subrange(0, s.len() as int) =~= s);
    crate::laws::lemma_split(s, 0, a, b + (c + (n + tail)));
    crate::laws::law_i16_round_trip(h.api_key, s, 0);
    crate::laws::lemma_split(s, 2, b, c + (n + tail));
    crate::laws::law_i16_round_trip(h.api_version, s, 2);
    crate::laws::lemma_split(s, 4, c, n + tail);
    crate::laws::law_i32_round_trip(h.correlation_id, s, 4);
    crate::laws::lemma_split(s, 8, n, tail);
    crate::laws::law_nullable_string_round_trip(h.client_id, s, 8);
}

/// A request header is read back when its fields are followed by
/// `UVARINT(0)`, and refused when they are followed by any other varint.
pub proof fn law_header_v2_tag_buffer(h: HeaderV2View, v: u64, rest: Seq<u8>)
    requires
        h.client_id matches Some(t) ==> crate::codec::text_len(t) <= 0x7fff,
        header_v2_fields_bytes(h).len() + crate::codec::uvarint_bytes(v as nat).len() + rest.len()
            <= usize::MAX,
    ensures
        ({
            let f = header_v2_fields_bytes(h);
            let s = f + crate::codec::uvarint_bytes(v as nat) + rest;
            spec_read_header_v2(s, 0) == if v == 0 {
                Ok::<_, DecodeError>(
                    (h, (f.len() + crate::codec::uvarint_bytes(v as nat).len()) as usize),
                )
            } else {
                Err(DecodeError::TaggedFields)
            }
        }),
{
    let u = crate::codec::uvarint_bytes(v as nat);
    let f = header_v2_fields_bytes(h);
    let s = f + u + rest;
    assert(s =~= f + (u + rest));
    lemma_header_v2_fields(h, s, u + rest);
    let q = f.len();
    assert(s.subrange(q as int, (q + u.len()) as int) =~= u);
    crate::laws::law_uvarint_round_trip(v, s, q as usize);
}

} // verus!
