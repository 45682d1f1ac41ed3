//! What can go wrong with a request, and what the client is told.

use crate::pktline::ParseError;
use vstd::prelude::*;
use vstd::slice::slice_to_vec;
use vstd::string::StringSliceAdditionalSpecFns;

verus! {

/// Why a request ended in an internal error.
#[derive(Clone, Copy, Debug, PartialEq, Eq, Structural)]
pub enum Failure {
    /// The upstream could not be asked for its refs.
    Request,
    /// The upstream answered the question for its refs with this status,
    /// which is none of 200, 401 and 404.
    Status(u16),
    /// The upstream answered 401 without a `WWW-Authenticate` header.
    NoChallenge,
    /// The upstream's answer is not a smart advertisement of
    /// `git-upload-pack`, going by its `Content-Type`.
    ContentType,
    /// The upstream's answer could not be read to its end.
    ResponseBody,
    /// The upstream's advertisement was refused.
    Advertisement(ParseError),
    /// The directory of a mirror could not be made.
    CreateDir,
    /// `git init` did not run or did not exit with 0.
    Init,
    /// The `HEAD` of a mirror could not be written.
    WriteHead,
    /// `git fetch` did not run or did not exit with 0.
    Fetch,
    /// The client's request could not be read to its end.
    RequestBody,
    /// `git-upload-pack` could not be started.
    Spawn,
    /// The caller reported something that it was not asked for.
    OutOfTurn,
}

/// How a request fails.
#[derive(Clone, Debug, PartialEq, Eq)]
pub enum Error {
    /// There is no such repository, or the request is none that the proxy
    /// serves.
    NotFound,
    /// The upstream wants credentials. The value is that of its
    /// `WWW-Authenticate` header.
    MissingAuth(Vec<u8>),
    /// Anything else.
    Other(Failure),
}

/// An `Error` as contracts see it.
pub enum ErrorView {
    /// There is no such repository.
    NotFound,
    /// The upstream wants credentials.
    MissingAuth(Seq<u8>),
    /// Anything else.
    Other(Failure),
}

impl View for Error {
    type V = ErrorView;

    open spec fn view(&self) -> ErrorView {
        match self {
            Error::NotFound => ErrorView::NotFound,
            Error::MissingAuth(challenge) => ErrorView::MissingAuth(challenge@),
            Error::Other(failure) => ErrorView::Other(*failure),
        }
    }
}

/// A header of a response.
#[derive(Clone, Debug, PartialEq, Eq)]
pub struct Header {
    /// The name, in lower case.
    pub name: Vec<u8>,
    /// The value.
    pub value: Vec<u8>,
}

impl View for Header {
    type V = (Seq<u8>, Seq<u8>);

    open spec fn view(&self) -> (Seq<u8>, Seq<u8>) {
        (self.name@, self.value@)
    }
}

/// What the proxy answers: the status, the headers that the proxy itself
/// decides on, and the body. Where `stream` is set, the body goes on with what
/// the helper that was started last writes to its standard output.
#[derive(Clone, Debug, PartialEq, Eq)]
pub struct Response {
    /// The status code.
    pub status: u16,
    /// The headers, in the order in which they are set.
    pub headers: Vec<Header>,
    /// The bytes that the body begins with.
    pub body: Vec<u8>,
    /// Whether the helper's output follows.
    pub stream: bool,
}

/// A `Response` as contracts see it.
pub struct ResponseView {
    /// The status code.
    pub status: u16,
    /// The headers as pairs of name and value.
    pub headers: Seq<(Seq<u8>, Seq<u8>)>,
    /// The bytes that the body begins with.
    pub body: Seq<u8>,
    /// Whether the helper's output follows.
    pub stream: bool,
}

/// The views of a list of headers.
pub open spec fn header_views(list: Seq<Header>) -> Seq<(Seq<u8>, Seq<u8>)> {
    Seq::new(list.len(), |k: int| list[k]@)
}

impl View for Response {
    type V = ResponseView;

    open spec fn view(&self) -> ResponseView {
        ResponseView {
            status: self.status,
            headers: header_views(self.headers@),
            body: self.body@,
            stream: self.stream,
        }
    }
}

/// What the client is told of an error: 404 for a repository that is not
/// there, 401 with the upstream's challenge where credentials are wanted, and
/// 500 with a fixed sentence for the rest.
pub open spec fn error_response(e: ErrorView) -> ResponseView {
    match e {
        ErrorView::NotFound => ResponseView {
            status: 404,
            headers: Seq::empty(),
            body: Seq::empty(),
            stream: false,
        },
        ErrorView::MissingAuth(challenge) => ResponseView {
            status: 401,
            headers: seq![("www-authenticate".spec_bytes(), challenge)],
            body: Seq::empty(),
            stream: false,
        },
        ErrorView::Other(_) => ResponseView {
            status: 500,
            headers: Seq::empty(),
            body: "sorry, something went terrible wrong here".spec_bytes(),
            stream: false,
        },
    }
}

/// The sentence that describes an error in a log.
pub open spec fn error_message(e: ErrorView) -> Seq<char> {
    match e {
        ErrorView::NotFound => "not found"@,
        ErrorView::MissingAuth(_) => "not authenticated/authorized"@,
        ErrorView::Other(failure) => match failure {
            Failure::Request => "failed to get upstream /info/refs"@,
            Failure::Status(_) => "upstream responded to /info/refs with an unexpected status"@,
            Failure::NoChallenge =>
                "missing WWW-Authenticate header for 401 Unauthorized response from upstream"@,
            Failure::ContentType =>
                "upstream did not respond to /info/refs with a smart advertisement"@,
            Failure::ResponseBody => "failed to read full response from upstream /info/refs"@,
            Failure::Advertisement(_) => "failed to parse response from upstream /info/refs"@,
            Failure::CreateDir => "failed to create directory for repository"@,
            Failure::Init => "failed to initialize repository"@,
            Failure::WriteHead => "failed to update HEAD"@,
            Failure::Fetch => "failed to fetch from upstream"@,
            Failure::RequestBody => "failed to collect the request body"@,
            Failure::Spawn => "failed to start git-upload-pack"@,
            Failure::OutOfTurn => "unexpected event"@,
        },
    }
}

impl Error {
    /// A copy of this error.
    pub fn copy(&self) -> (r: Error)
        ensures
            r@ == self@,
    {
        match self {
            Error::NotFound => Error::NotFound,
            Error::MissingAuth(challenge) => Error::MissingAuth(slice_to_vec(challenge.as_slice())),
            Error::Other(failure) => Error::Other(*failure),
        }
    }

    /// What the client is told of this error.
    pub fn into_response(self) -> (r: Response)
        ensures
            r@ == error_response(self@),
    {
        match self {
            Error::NotFound => {
                let r = Response {
                    status: 404,
                    headers: Vec::new(),
                    body: Vec::new(),
                    stream: false,
                };
                proof {
                    assert(r@.headers =~= Seq::empty());
                }
                r
            },
            Error::MissingAuth(challenge) => {
                let mut headers: Vec<Header> = Vec::new();
                headers.push(
                    Header { name: slice_to_vec("www-authenticate".as_bytes()), value: challenge },
                );
                let r = Response { status: 401, headers, body: Vec::new(), stream: false };
                proof {
                    assert(r@.headers =~= seq![("www-authenticate".spec_bytes(), challenge@)]);
                }
                r
            },
            Error::Other(_) => {
                let r = Response {
                    status: 500,
                    headers: Vec::new(),
                    body: slice_to_vec("sorry, something went terrible wrong here".as_bytes()),
                    stream: false,
                };
                proof {
                    assert(r@.headers =~= Seq::empty());
                }
                r
            },
        }
    }

    /// The sentence that describes this error in a log.
    pub fn message(&self) -> (r: String)
        ensures
            r@ == error_message(self@),
    {
        let text: &str = match self {
            Error::NotFound => "not found",
            Error::MissingAuth(_) => "not authenticated/authorized",
            Error::Other(failure) => match failure {
                Failure::Request => "failed to get upstream /info/refs",
                Failure::Status(_) => "upstream responded to /info/refs with an unexpected status",
                Failure::NoChallenge =>
                    "missing WWW-Authenticate header for 401 Unauthorized response from upstream",
                Failure::ContentType =>
                    "upstream did not respond to /info/refs with a smart advertisement",
                Failure::ResponseBody => "failed to read full response from upstream /info/refs",
                Failure::Advertisement(_) => "failed to parse response from upstream /info/refs",
                Failure::CreateDir => "failed to create directory for repository",
                Failure::Init => "failed to initialize repository",
                Failure::WriteHead => "failed to update HEAD",
                Failure::Fetch => "failed to fetch from upstream",
                Failure::RequestBody => "failed to collect the request body",
                Failure::Spawn => "failed to start git-upload-pack",
                Failure::OutOfTurn => "unexpected event",
            },
        };
        text.to_owned()
    }
}

/// The view of an optional error-free outcome: what `Ok` holds is kept, an
/// error is seen by its view.
pub open spec fn outcome_view<T>(r: Result<T, Error>) -> Result<T, ErrorView> {
    match r {
        Ok(value) => Ok(value),
        Err(e) => Err(e@),
    }
}

} // verus!
