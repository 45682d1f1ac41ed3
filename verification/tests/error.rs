use git_cache_http_server::error::{Error, Failure, Header, Response};
use git_cache_http_server::pktline::ParseError;

#[test]
fn not_found_is_404() {
    assert_eq!(
        Error::NotFound.into_response(),
        Response { status: 404, headers: vec![], body: vec![], stream: false }
    );
}

#[test]
fn missing_auth_is_401_with_the_challenge() {
    assert_eq!(
        Error::MissingAuth(b"mock authenticate".to_vec()).into_response(),
        Response {
            status: 401,
            headers: vec![Header {
                name: b"www-authenticate".to_vec(),
                value: b"mock authenticate".to_vec()
            }],
            body: vec![],
            stream: false
        }
    );
}

#[test]
fn everything_else_is_500() {
    for failure in [
        Failure::Request,
        Failure::Status(503),
        Failure::NoChallenge,
        Failure::ContentType,
        Failure::ResponseBody,
        Failure::Advertisement(ParseError::Version2),
        Failure::Advertisement(ParseError::Truncated),
        Failure::CreateDir,
        Failure::Init,
        Failure::WriteHead,
        Failure::Fetch,
        Failure::RequestBody,
        Failure::Spawn,
        Failure::OutOfTurn,
    ] {
        assert_eq!(
            Error::Other(failure).into_response(),
            Response {
                status: 500,
                headers: vec![],
                body: b"sorry, something went terrible wrong here".to_vec(),
                stream: false
            }
        );
    }
}

#[test]
fn messages() {
    assert_eq!(Error::NotFound.message(), "not found");
    assert_eq!(Error::MissingAuth(vec![]).message(), "not authenticated/authorized");
    assert_eq!(
        Error::Other(Failure::Request).message(),
        "failed to get upstream /info/refs"
    );
    assert_eq!(
        Error::Other(Failure::NoChallenge).message(),
        "missing WWW-Authenticate header for 401 Unauthorized response from upstream"
    );
    assert_eq!(
        Error::Other(Failure::ResponseBody).message(),
        "failed to read full response from upstream /info/refs"
    );
    assert_eq!(
        Error::Other(Failure::Advertisement(ParseError::BadLength)).message(),
        "failed to parse response from upstream /info/refs"
    );
    assert_eq!(
        Error::Other(Failure::CreateDir).message(),
        "failed to create directory for repository"
    );
    assert_eq!(Error::Other(Failure::Init).message(), "failed to initialize repository");
    assert_eq!(Error::Other(Failure::WriteHead).message(), "failed to update HEAD");
    assert_eq!(Error::Other(Failure::Fetch).message(), "failed to fetch from upstream");
    assert_eq!(
        Error::Other(Failure::RequestBody).message(),
        "failed to collect the request body"
    );
}

#[test]
fn error_copy_is_equal() {
    for error in [
        Error::NotFound,
        Error::MissingAuth(b"Basic".to_vec()),
        Error::Other(Failure::Status(418)),
    ] {
        assert_eq!(error.copy(), error);
    }
}
