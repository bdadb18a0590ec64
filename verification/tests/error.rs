use sheet_sync::error::{Error, ErrorKind};

#[test]
fn an_error_shows_its_message() {
    let cases = [
        (Error::AuthError("no token".to_string()), ErrorKind::Auth, "no token"),
        (Error::NetworkError("status 500".to_string()), ErrorKind::Network, "status 500"),
        (Error::ProtocolError("no sheets".to_string()), ErrorKind::Protocol, "no sheets"),
        (Error::IoError("disk full".to_string()), ErrorKind::Io, "disk full"),
    ];
    for (error, kind, message) in cases {
        assert_eq!(error.kind(), kind);
        assert_eq!(error.to_string(), message);
    }
}
