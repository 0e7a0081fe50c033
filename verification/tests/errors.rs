use pinboard_fetch::error::{ApiError, CreationError};

#[test]
fn api_error_messages() {
    assert_eq!(ApiError::RequestFailed.message(), "Network request failed");
    assert_eq!(ApiError::MissingField.message(), "Missing expected data field");
}

#[test]
fn creation_error_messages() {
    assert_eq!(
        CreationError::ApiError(ApiError::MissingField).message(),
        "Something went wrong during fetching data"
    );
    assert_eq!(
        CreationError::ApiError(ApiError::RequestFailed).message(),
        "Something went wrong during fetching data"
    );
    assert_eq!(CreationError::BadUrl.message(), "Url is incorrect");
}
