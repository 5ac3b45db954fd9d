use indexer_grpc_data_service::server::{
    get_request_metadata, request_metadata, GetTransactionsRequest, IndexerGrpcFileStoreConfig,
    RawDataServerWrapper, RequestHeaders, ServerError, StorageFormat, GRPC_AUTH_TOKEN_HEADER,
    GRPC_REQUEST_NAME_HEADER, REQUEST_HEADER_APTOS_API_KEY_NAME,
    REQUEST_HEADER_APTOS_EMAIL_HEADER, REQUEST_HEADER_APTOS_USER_CLASSIFICATION_HEADER,
    RESPONSE_HEADER_APTOS_CONNECTION_ID_HEADER, UNSPECIFIED,
};
use indexer_grpc_data_service::status::{Code, Status};
use indexer_grpc_data_service::worker::{Action, Phase};

fn no_headers() -> RequestHeaders {
    RequestHeaders {
        api_key_name: None,
        email: None,
        user_classification: None,
        auth_token: None,
        request_name: None,
    }
}

fn local_store() -> IndexerGrpcFileStoreConfig {
    IndexerGrpcFileStoreConfig::LocalFileStore {
        local_file_store_path: "/tmp/store".to_string(),
        enable_compression: false,
    }
}

fn server() -> RawDataServerWrapper {
    RawDataServerWrapper::new(
        "redis://127.0.0.1:6379".to_string(),
        local_store(),
        17,
        StorageFormat::Lz4CompressedProto,
    )
    .unwrap()
}

#[test]
fn header_names() {
    assert_eq!(REQUEST_HEADER_APTOS_API_KEY_NAME, "x-aptos-api-key-name");
    assert_eq!(REQUEST_HEADER_APTOS_EMAIL_HEADER, "x-aptos-email");
    assert_eq!(REQUEST_HEADER_APTOS_USER_CLASSIFICATION_HEADER, "x-aptos-user-classification");
    assert_eq!(RESPONSE_HEADER_APTOS_CONNECTION_ID_HEADER, "x-aptos-connection-id");
    assert_eq!(GRPC_AUTH_TOKEN_HEADER, "x-aptos-data-authorization");
    assert_eq!(GRPC_REQUEST_NAME_HEADER, "x-aptos-request-name");
    assert_eq!(UNSPECIFIED, "unspecified");
}

#[test]
fn absent_headers_read_unspecified() {
    let metadata = request_metadata(no_headers(), "id".to_string());
    assert_eq!(metadata.request_api_key_name, "unspecified");
    assert_eq!(metadata.request_email, "unspecified");
    assert_eq!(metadata.request_user_classification, "unspecified");
    assert_eq!(metadata.request_token, "unspecified");
    assert_eq!(metadata.processor_name, "unspecified");
    assert_eq!(metadata.request_connection_id, "id");
}

#[test]
fn headers_are_taken_over() {
    let headers = RequestHeaders {
        api_key_name: Some("key".to_string()),
        email: Some("a@b.c".to_string()),
        user_classification: None,
        auth_token: Some("token".to_string()),
        request_name: Some("processor".to_string()),
    };
    let metadata = request_metadata(headers, "0000".to_string());
    assert_eq!(metadata.request_api_key_name, "key");
    assert_eq!(metadata.request_email, "a@b.c");
    assert_eq!(metadata.request_user_classification, "unspecified");
    assert_eq!(metadata.request_token, "token");
    assert_eq!(metadata.processor_name, "processor");
    assert_eq!(metadata.request_connection_id, "0000");
}

#[test]
fn connection_id_is_a_fresh_uuid_of_version_four() {
    let first = get_request_metadata(no_headers());
    let second = get_request_metadata(no_headers());
    let id = first.request_connection_id.clone();
    assert_eq!(id.len(), 36);
    let bytes = id.as_bytes();
    assert_eq!(bytes[8], b'-');
    assert_eq!(bytes[13], b'-');
    assert_eq!(bytes[18], b'-');
    assert_eq!(bytes[23], b'-');
    assert_eq!(bytes[14], b'4');
    let parsed = uuid::Uuid::parse_str(&id).unwrap();
    assert_eq!(parsed.get_version_num(), 4);
    assert_ne!(first.request_connection_id, second.request_connection_id);
    assert_eq!(first.request_email, "unspecified");
}

#[test]
fn server_is_set_up_for_a_redis_address() {
    let server = server();
    assert_eq!(server.data_service_response_channel_size, 17);
    assert_eq!(server.cache_storage_format, StorageFormat::Lz4CompressedProto);
    assert_eq!(server.file_store_config, local_store());
    let info = server.redis_client.get_connection_info();
    assert_eq!(info.addr.to_string(), "127.0.0.1:6379");
}

#[test]
fn server_refuses_an_address_that_is_none_of_redis() {
    let config = IndexerGrpcFileStoreConfig::GcsFileStore {
        gcs_file_store_bucket_name: "bucket".to_string(),
        gcs_file_store_service_account_key_path: "key.json".to_string(),
        enable_compression: true,
    };
    let r = RawDataServerWrapper::new(
        "http://127.0.0.1:6379".to_string(),
        config.clone(),
        1,
        StorageFormat::Base64UncompressedProto,
    );
    assert_eq!(
        r.err(),
        Some(ServerError::RedisClient { address: "http://127.0.0.1:6379".to_string() })
    );
    let r = RawDataServerWrapper::new(
        "no address at all".to_string(),
        config,
        1,
        StorageFormat::JsonBase64UncompressedProto,
    );
    assert_eq!(
        r.err(),
        Some(ServerError::RedisClient { address: "no address at all".to_string() })
    );
}

#[test]
fn server_takes_a_client_made_before() {
    let client = redis::Client::open("redis://10.0.0.1/");
    let server = RawDataServerWrapper::with_client(
        client,
        "redis://10.0.0.1/".to_string(),
        local_store(),
        3,
        StorageFormat::Lz4CompressedProto,
    )
    .unwrap();
    assert_eq!(server.redis_client.get_connection_info().addr.to_string(), "10.0.0.1:6379");
    let failed = redis::Client::open("nothing");
    let r = RawDataServerWrapper::with_client(
        failed,
        "nothing".to_string(),
        local_store(),
        3,
        StorageFormat::Lz4CompressedProto,
    );
    assert_eq!(r.err(), Some(ServerError::RedisClient { address: "nothing".to_string() }));
}

#[test]
fn request_without_starting_version_is_aborted() {
    let request = GetTransactionsRequest { starting_version: None, transactions_count: Some(5) };
    let r = server().get_transactions(request, no_headers());
    let status = r.err().unwrap();
    assert_eq!(status, Status::StartingVersionNotSet);
    assert_eq!(status.code(), Code::Aborted);
    assert_eq!(status.message(), "Starting version is not set");
}

#[test]
fn request_with_starting_version_starts_a_subscription() {
    let request = GetTransactionsRequest { starting_version: Some(100), transactions_count: None };
    let subscription = server().get_transactions(request, no_headers()).ok().unwrap();
    assert_eq!(subscription.worker.phase, Phase::Connecting);
    assert_eq!(subscription.worker.current_version, 100);
    assert_eq!(subscription.worker.remaining_count, None);
    assert!(matches!(subscription.first_action, Action::ConnectCache));
    assert_eq!(subscription.response_channel_size, 17);
    assert_eq!(subscription.request_metadata.request_connection_id.len(), 36);
    assert_eq!(subscription.request_metadata.processor_name, "unspecified");
}

#[test]
fn accepted_request_keeps_its_metadata() {
    let metadata = request_metadata(no_headers(), "the-id".to_string());
    let request = GetTransactionsRequest { starting_version: Some(0), transactions_count: Some(9) };
    let subscription = server().accept(request, metadata.clone()).ok().unwrap();
    assert_eq!(subscription.request_metadata, metadata);
    assert_eq!(subscription.worker.remaining_count, Some(9));
    let request = GetTransactionsRequest { starting_version: None, transactions_count: None };
    assert_eq!(server().accept(request, metadata).err(), Some(Status::StartingVersionNotSet));
}
