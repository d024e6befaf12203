use panels::error::{ErrorKind, PanelsError};

#[test]
fn not_found_maps_to_404() {
    let err = PanelsError::NotFound("test".into());
    assert_eq!(err.status_code(), 404);
}

#[test]
fn invalid_date_maps_to_400() {
    let err = PanelsError::InvalidDate("bad date".into());
    assert_eq!(err.status_code(), 400);
}

#[test]
fn invalid_param_maps_to_400() {
    let err = PanelsError::InvalidParam("bad param".into());
    assert_eq!(err.status_code(), 400);
}

#[test]
fn scrape_failed_maps_to_502() {
    let err = PanelsError::ScrapeFailed("timeout".into());
    assert_eq!(err.status_code(), 502);
}

#[test]
fn http_error_maps_to_502_and_internal_to_500() {
    assert_eq!(PanelsError::HttpError("reset".into()).status_code(), 502);
    assert_eq!(PanelsError::Internal("oops".into()).status_code(), 500);
}

#[test]
fn errors_say_what_they_are() {
    assert_eq!(PanelsError::NotFound("x".into()).to_text(), "not found: x");
    assert_eq!(PanelsError::InvalidDate("x".into()).to_text(), "invalid date: x");
    assert_eq!(PanelsError::InvalidParam("x".into()).to_text(), "invalid parameter: x");
    assert_eq!(PanelsError::ScrapeFailed("x".into()).to_text(), "scrape failed: x");
    assert_eq!(PanelsError::HttpError("x".into()).to_text(), "http error: x");
    assert_eq!(PanelsError::Internal("x".into()).to_text(), "internal error: x");
}

#[test]
fn errors_keep_their_detail_and_kind() {
    let err = PanelsError::ScrapeFailed("timeout".into());
    assert_eq!(err.message(), "timeout");
    assert_eq!(err.kind(), ErrorKind::ScrapeFailed);
}
