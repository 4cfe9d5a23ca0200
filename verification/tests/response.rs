use subsonic::error::ApiError;
use subsonic::response::{
    json_key, supported_extensions, xml_document, Format, OpenSubsonicExtension, ResponseStatus,
    API_VERSION,
};
use subsonic::response::xml::{EmptyResponse, ErrorResponse, ScanStatusResponse};

#[test]
fn json_keys_drop_attribute_marks() {
    assert_eq!(json_key("@id"), "id");
    assert_eq!(json_key("$text"), "value");
    assert_eq!(json_key("song"), "song");
    assert_eq!(json_key("@"), "");
}

#[test]
fn xml_documents_start_with_the_declaration() {
    assert_eq!(
        xml_document("<a/>"),
        "<?xml version=\"1.0\" encoding=\"UTF-8\"?><a/>"
    );
}

#[test]
fn extensions_and_headers() {
    let exts = supported_extensions();
    let names: Vec<&str> = exts.iter().map(|e| e.name.as_str()).collect();
    assert_eq!(names, vec!["formPost", "apiKeyAuthentication", "songLyrics"]);
    assert!(exts.iter().all(|e| e.versions == vec![1]));
    let e = OpenSubsonicExtension::new("x".to_string(), vec![2, 3]);
    assert_eq!(e.versions, vec![2, 3]);
    let ok = EmptyResponse::ok();
    assert_eq!(ok.status, ResponseStatus::Success);
    assert_eq!(ok.version, API_VERSION);
    let err = ErrorResponse::new(40, "Wrong username or password".to_string());
    assert_eq!(err.status, ResponseStatus::Failed);
    assert_eq!(err.error.code, 40);
    let scan = ScanStatusResponse::new(true, 12);
    assert!(scan.scan_status.scanning);
    assert_eq!(scan.scan_status.count, 12);
    assert_eq!(Format::default(), Format::Xml);
}

#[test]
fn error_codes_and_messages() {
    assert_eq!(ApiError::MissingParameter("id".into()).code(), 10);
    assert_eq!(ApiError::NotFound("Song".into()).code(), 70);
    assert_eq!(ApiError::InvalidApiKey.code(), 44);
    assert_eq!(
        ApiError::MissingParameter("id".into()).message(),
        "Required parameter is missing: id"
    );
    assert_eq!(ApiError::WrongCredentials.message(), "Wrong username or password");
}

#[test]
fn api_errors_become_failed_responses() {
    let r = ErrorResponse::from_api_error(&ApiError::NotFound("Item".to_string()));
    assert_eq!(r.status, ResponseStatus::Failed);
    assert_eq!(r.error.code, 70);
    assert_eq!(r.error.message, "Requested data was not found: Item");
    let r = ErrorResponse::from_api_error(&ApiError::NotAuthorized);
    assert_eq!(r.error.code, 50);
}
