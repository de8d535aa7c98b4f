use fileshare::error::{MapServerErrorTrait, ServerError};

#[test]
fn unauthorized_response() {
    let e = ServerError::Unauthorized;
    assert_eq!(e.status_code(), 401);
    assert_eq!(e.display_text(), "Unauthorized");
    let r = e.error_response();
    assert_eq!(r.status, 401);
    assert_eq!(r.body, "Unauthorized");
}

#[test]
fn internal_error_response() {
    let e = ServerError::InternalError { info: "disk full".to_string() };
    assert_eq!(e.status_code(), 500);
    assert_eq!(e.display_text(), "Internal Error");
    let r = e.error_response();
    assert_eq!(r.status, 500);
    assert_eq!(r.body, "Internal Error disk full");
}

#[test]
fn server_err_keeps_success() {
    let ok: Result<u32, String> = Ok(7);
    assert_eq!(ok.server_err(), Ok(7));
}

#[test]
fn server_err_turns_failure_into_internal_error() {
    let failed: Result<u32, std::io::Error> =
        Err(std::io::Error::new(std::io::ErrorKind::NotFound, "no such file"));
    assert_eq!(
        failed.server_err(),
        Err(ServerError::InternalError { info: "no such file".to_string() })
    );
}

#[test]
fn upload_refused_unless_authorized() {
    assert_eq!(ServerError::require_authorized(true), Ok(()));
    assert_eq!(ServerError::require_authorized(false), Err(ServerError::Unauthorized));
}

#[test]
fn error_texts() {
    let info = |e: ServerError| match e {
        ServerError::InternalError { info } => info,
        ServerError::Unauthorized => panic!("expected an internal error"),
    };
    assert_eq!(info(ServerError::broken_path("/srv/x")), "Broken path at '/srv/x'");
    assert_eq!(info(ServerError::missing_file("abc")), "No file exists here! Shoo! (hash=abc)");
    assert_eq!(info(ServerError::metadata_write_failed("disk full")), "Failed to write metadata file: disk full");
    assert_eq!(
        info(ServerError::metadata_serialize_failed("bad value")),
        "Failed to serialize metadata file: bad value"
    );
    assert_eq!(info(ServerError::no_random_source()), "Failed to read the system's random source");
}
