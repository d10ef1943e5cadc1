use rs_tg_nostr::error::AppError;

#[test]
fn test_io_error_converts_to_app_error() {
    let io_err = std::io::Error::new(std::io::ErrorKind::NotFound, "file missing");
    let app_err: AppError = io_err.into();
    assert!(app_err.to_string().contains("key file error"));
}

#[test]
fn test_nostr_error_display() {
    let e = AppError::Nostr("bad relay".into());
    assert_eq!(e.to_string(), "nostr error: bad relay");
}

#[test]
fn every_error_kind_reads_with_its_prefix() {
    let io_err = std::io::Error::new(std::io::ErrorKind::NotFound, "file missing");
    assert_eq!(AppError::from(io_err).to_string(), "key file error: file missing");
    let json_err = serde_json::from_str::<serde_json::Value>("{").unwrap_err();
    let expected = format!("json error: {}", json_err);
    assert_eq!(AppError::from(json_err).to_string(), expected);
    assert_eq!(AppError::Telegram("down".into()).to_string(), "telegram error: down");
    assert_eq!(AppError::Config("PORT must be a number".into()).to_string(), "config error: PORT must be a number");
}
