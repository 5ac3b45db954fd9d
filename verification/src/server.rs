//! The stream server: what it is set up with, what it accepts as a request, and what it
//! knows of who sent it.

use vstd::prelude::*;
use std::sync::Arc;
use crate::status::Status;
use crate::worker::{started, Action, ActionModel, SubscriptionWorker};

verus! {

/// The header that names the API key.
pub const REQUEST_HEADER_APTOS_API_KEY_NAME: &'static str = "x-aptos-api-key-name";

/// The header that gives the e-mail address of the sender.
pub const REQUEST_HEADER_APTOS_EMAIL_HEADER: &'static str = "x-aptos-email";

/// The header that tells of what class the sender is.
pub const REQUEST_HEADER_APTOS_USER_CLASSIFICATION_HEADER: &'static str =
    "x-aptos-user-classification";

/// The header that carries the token of the sender.
pub const GRPC_AUTH_TOKEN_HEADER: &'static str = "x-aptos-data-authorization";

/// The header that names the processor that sent the request.
pub const GRPC_REQUEST_NAME_HEADER: &'static str = "x-aptos-request-name";

/// The header of the response that carries the connection id.
pub const RESPONSE_HEADER_APTOS_CONNECTION_ID_HEADER: &'static str = "x-aptos-connection-id";

/// What stands for a header that the request does not have.
pub const UNSPECIFIED: &'static str = "unspecified";

#[verifier::external_type_specification]
#[verifier::external_body]
pub struct ExRedisClient(redis::Client);

#[verifier::external_type_specification]
#[verifier::external_body]
pub struct ExRedisError(redis::RedisError);

/// The form in which the cache holds transactions.
#[derive(Clone, Copy, Debug, PartialEq, Eq)]
pub enum StorageFormat {
    Lz4CompressedProto,
    Base64UncompressedProto,
    JsonBase64UncompressedProto,
}

/// Where the file store is.
#[derive(Clone, Debug, PartialEq, Eq)]
pub enum IndexerGrpcFileStoreConfig {
    GcsFileStore {
        gcs_file_store_bucket_name: String,
        gcs_file_store_service_account_key_path: String,
        enable_compression: bool,
    },
    LocalFileStore { local_file_store_path: String, enable_compression: bool },
}

/// Why the server could not be set up.
#[derive(Clone, Debug, PartialEq, Eq)]
pub enum ServerError {
    /// No client can be made for this address of the cache.
    RedisClient { address: String },
}

/// What the server is set up with.
pub struct RawDataServerWrapper {
    pub redis_client: Arc<redis::Client>,
    pub file_store_config: IndexerGrpcFileStoreConfig,
    pub data_service_response_channel_size: usize,
    pub cache_storage_format: StorageFormat,
}

/// A request for a stream of transactions.
#[derive(Clone, Copy, Debug, PartialEq, Eq)]
pub struct GetTransactionsRequest {
    /// The version to start at. A request without it is refused.
    pub starting_version: Option<u64>,
    /// How many transactions to send, `None` for all there will ever be.
    pub transactions_count: Option<u64>,
}

/// The headers of a request that tell who sent it: for each the text it holds, `None`
/// where the request does not have the header or the header does not hold text.
#[derive(Clone, Debug, PartialEq, Eq)]
pub struct RequestHeaders {
    pub api_key_name: Option<String>,
    pub email: Option<String>,
    pub user_classification: Option<String>,
    pub auth_token: Option<String>,
    pub request_name: Option<String>,
}

/// What the service knows of who sent a request.
#[derive(Clone, Debug, PartialEq, Eq)]
pub struct IndexerGrpcRequestMetadata {
    pub processor_name: String,
    pub request_email: String,
    pub request_user_classification: String,
    pub request_api_key_name: String,
    pub request_connection_id: String,
    pub request_token: String,
}

/// A request that was accepted: the worker of its subscription with its first action,
/// what is known of the sender, and the number of responses that may wait for the
/// subscriber at a time.
pub struct Subscription {
    pub worker: SubscriptionWorker,
    pub first_action: Action,
    pub request_metadata: IndexerGrpcRequestMetadata,
    pub response_channel_size: usize,
}

/// The text of a header, `unspecified` where there is none.
pub open spec fn header_text(header: Option<String>) -> Seq<char> {
    match header {
        Some(text) => text@,
        None => UNSPECIFIED@,
    }
}

/// The text is a UUID of version 4 in its hyphenated form.
pub open spec fn is_connection_id(text: Seq<char>) -> bool {
    &&& text.len() == 36
    &&& text[8] == '-'
    &&& text[13] == '-'
    &&& text[18] == '-'
    &&& text[23] == '-'
    &&& text[14] == '4'
}

/// The metadata say what the headers say, and name the connection by `connection_id`.
pub open spec fn metadata_of(
    metadata: IndexerGrpcRequestMetadata,
    headers: RequestHeaders,
    connection_id: Seq<char>,
) -> bool {
    &&& metadata.request_api_key_name@ == header_text(headers.api_key_name)
    &&& metadata.request_email@ == header_text(headers.email)
    &&& metadata.request_user_classification@ == header_text(headers.user_classification)
    &&& metadata.request_token@ == header_text(headers.auth_token)
    &&& metadata.processor_name@ == header_text(headers.request_name)
    &&& metadata.request_connection_id@ == connection_id
}

/// `redis::Client::open` reads the address as a URL and makes a client for it without
/// connecting; it fails on an address that it cannot read. Nothing is claimed of when
/// it does.
#[verifier::external_body]
fn open_redis_client(address: &str) -> (r: Result<redis::Client, redis::RedisError>) {
    redis::Client::open(address)
}

/// `uuid::Uuid::new_v4` draws a random UUID of version 4, and its `to_string` writes it
/// in the hyphenated form: 32 hexadecimal digits in groups of 8, 4, 4, 4 and 12, the
/// third group starting with the version.
#[verifier::external_body]
fn new_connection_id() -> (id: String)
    ensures
        is_connection_id(id@),
{
    uuid::Uuid::new_v4().to_string()
}

fn text_or_unspecified(header: Option<String>) -> (text: String)
    ensures
        text@ == header_text(header),
{
    match header {
        Some(text) => text,
        None => UNSPECIFIED.to_owned(),
    }
}

/// Puts together what is known of the sender of a request from its headers and the id
/// of its connection. A header that the request does not have reads `unspecified`.
pub fn request_metadata(headers: RequestHeaders, connection_id: String) -> (metadata:
    IndexerGrpcRequestMetadata)
    ensures
        metadata_of(metadata, headers, connection_id@),
{
    IndexerGrpcRequestMetadata {
        processor_name: text_or_unspecified(headers.request_name),
        request_email: text_or_unspecified(headers.email),
        request_user_classification: text_or_unspecified(headers.user_classification),
        request_api_key_name: text_or_unspecified(headers.api_key_name),
        request_connection_id: connection_id,
        request_token: text_or_unspecified(headers.auth_token),
    }
}

/// Gets what is known of the sender of a request, under a connection id that is drawn
/// afresh.
pub fn get_request_metadata(headers: RequestHeaders) -> (metadata: IndexerGrpcRequestMetadata)
    ensures
        is_connection_id(metadata.request_connection_id@),
        metadata_of(metadata, headers, metadata.request_connection_id@),
{
    request_metadata(headers, new_connection_id())
}

impl RawDataServerWrapper {
    /// Sets the server up with a client for the cache that has been made already, or
    /// tells that none could be made.
    pub fn with_client(
        client: Result<redis::Client, redis::RedisError>,
        redis_address: String,
        file_store_config: IndexerGrpcFileStoreConfig,
        data_service_response_channel_size: usize,
        cache_storage_format: StorageFormat,
    ) -> (r: Result<Self, ServerError>)
        ensures
            match client {
                Ok(c) => r matches Ok(server) && {
                    &&& *server.redis_client == c
                    &&& server.file_store_config == file_store_config
                    &&& server.data_service_response_channel_size
                        == data_service_response_channel_size
                    &&& server.cache_storage_format == cache_storage_format
                },
                Err(_) => r == Err::<Self, ServerError>(
                    ServerError::RedisClient { address: redis_address },
                ),
            },
    {
        match client {
            Ok(c) => Ok(
                RawDataServerWrapper {
                    redis_client: Arc::new(c),
                    file_store_config,
                    data_service_response_channel_size,
                    cache_storage_format,
                },
            ),
            Err(_) => Err(ServerError::RedisClient { address: redis_address }),
        }
    }

    /// Sets the server up. Fails where no client can be made for the address of the
    /// cache.
    pub fn new(
        redis_address: String,
        file_store_config: IndexerGrpcFileStoreConfig,
        data_service_response_channel_size: usize,
        cache_storage_format: StorageFormat,
    ) -> (r: Result<Self, ServerError>)
        ensures
            match r {
                Ok(server) => {
                    &&& server.file_store_config == file_store_config
                    &&& server.data_service_response_channel_size
                        == data_service_response_channel_size
                    &&& server.cache_storage_format == cache_storage_format
                },
                Err(e) => e == (ServerError::RedisClient { address: redis_address }),
            },
    {
        let client = open_redis_client(redis_address.as_str());
        Self::with_client(
            client,
            redis_address,
            file_store_config,
            data_service_response_channel_size,
            cache_storage_format,
        )
    }

    /// Accepts a request, with the metadata of its sender, or refuses it: a request has
    /// to name the version to start at.
    pub fn accept(
        &self,
        request: GetTransactionsRequest,
        request_metadata: IndexerGrpcRequestMetadata,
    ) -> (r: Result<Subscription, Status>)
        ensures
            match request.starting_version {
                Some(version) => r matches Ok(subscription) && {
                    &&& subscription.worker@ == started(version, request.transactions_count)
                    &&& subscription.first_action@ == ActionModel::ConnectCache
                    &&& subscription.request_metadata == request_metadata
                    &&& subscription.response_channel_size
                        == self.data_service_response_channel_size
                },
                None => r matches Err(status) && status == Status::StartingVersionNotSet,
            },
    {
        match request.starting_version {
            Some(version) => {
                let (worker, first_action) = SubscriptionWorker::new(
                    version,
                    request.transactions_count,
                );
                Ok(
                    Subscription {
                        worker,
                        first_action,
                        request_metadata,
                        response_channel_size: self.data_service_response_channel_size,
                    },
                )
            },
            None => Err(Status::StartingVersionNotSet),
        }
    }

    /// Takes a request for a stream of transactions: finds out who sent it, and accepts
    /// or refuses it.
    pub fn get_transactions(&self, request: GetTransactionsRequest, headers: RequestHeaders)
        -> (r: Result<Subscription, Status>)
        ensures
            match request.starting_version {
                Some(version) => r matches Ok(subscription) && {
                    &&& subscription.worker@ == started(version, request.transactions_count)
                    &&& subscription.first_action@ == ActionModel::ConnectCache
                    &&& is_connection_id(subscription.request_metadata.request_connection_id@)
                    &&& metadata_of(
                        subscription.request_metadata,
                        headers,
                        subscription.request_metadata.request_connection_id@,
                    )
                    &&& subscription.response_channel_size
                        == self.data_service_response_channel_size
                },
                None => r matches Err(status) && status == Status::StartingVersionNotSet,
            },
    {
        let request_metadata = get_request_metadata(headers);
        self.accept(request, request_metadata)
    }
}

} // verus!
