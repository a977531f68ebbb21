//! A small Kafka wire-protocol server core: the primitive codec, request and
//! response headers, the KRaft metadata-log reader and the handlers for
//! `ApiVersions`, `DescribeTopicPartitions` and `Fetch`.
pub mod codec;
pub mod protocol;
pub mod cluster_metadata;
pub mod api_versions;
pub mod describe_topic_partitions;
pub mod fetch;
pub mod server;
pub mod laws;
