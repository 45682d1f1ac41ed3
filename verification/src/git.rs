//! What the proxy asks of `git`, of `git-upload-pack` and of the upstream,
//! and what it makes of their answers.
//!
//! Nothing here runs a process or opens a connection. Each operation of
//! `Git` returns the description of what is to be done; the caller does it
//! and comes back with the outcome, which `exited_ok_with_stdout` and
//! `ProbeResponse::head` judge.

use crate::bytes::{bytes_of, concat, copy_of, equal, rows};
use crate::error::{Error, ErrorView, Failure};
use crate::pktline::{parse_smart_refs, smart_refs};
use vstd::prelude::*;
use vstd::slice::slice_to_vec;
use vstd::string::StringSliceAdditionalSpecFns;

verus! {

/// The name under which the proxy introduces itself, to the upstream as its
/// user agent and to its clients as the server.
pub const APP_NAME: &'static str = "git-cache-http-server";

/// A variable in the environment of a helper.
#[derive(Clone, Debug, PartialEq, Eq)]
pub struct Variable {
    /// The name.
    pub name: Vec<u8>,
    /// The value.
    pub value: Vec<u8>,
}

/// A helper to run.
#[derive(Clone, Debug, PartialEq, Eq)]
pub struct Command {
    /// The executable, looked up on `PATH`.
    pub program: Vec<u8>,
    /// The arguments after the program's name.
    pub args: Vec<Vec<u8>>,
    /// The one variable that is added to the helper's environment, if any.
    pub env: Option<Variable>,
    /// What the helper reads from its standard input, which is closed after
    /// it. Without an input the helper reads from the null device.
    pub input: Option<Vec<u8>>,
    /// Whether the helper's standard output is handed on while the helper
    /// runs. Such a helper is waited for in the background; what it exits with
    /// can only be logged. Any other helper is waited for, and its exit status
    /// decides.
    pub stream: bool,
}

/// A `Command` as contracts see it.
pub struct CommandView {
    /// The executable.
    pub program: Seq<u8>,
    /// The arguments.
    pub args: Seq<Seq<u8>>,
    /// The added variable, as name and value.
    pub env: Option<(Seq<u8>, Seq<u8>)>,
    /// The standard input.
    pub input: Option<Seq<u8>>,
    /// Whether the output is handed on while the helper runs.
    pub stream: bool,
}

impl View for Command {
    type V = CommandView;

    open spec fn view(&self) -> CommandView {
        CommandView {
            program: self.program@,
            args: rows(self.args@),
            env: match self.env {
                Some(variable) => Some((variable.name@, variable.value@)),
                None => None,
            },
            input: bytes_of(self.input),
            stream: self.stream,
        }
    }
}

/// The view of an optional command.
pub open spec fn command_of(v: Option<Command>) -> Option<CommandView> {
    match v {
        Some(command) => Some(command@),
        None => None,
    }
}

/// What a helper left behind.
#[derive(Clone, Debug, PartialEq, Eq)]
pub struct Output {
    /// The exit code, or `None` where a signal ended the helper.
    pub code: Option<i32>,
    /// What the helper wrote to its standard output.
    pub stdout: Vec<u8>,
    /// What the helper wrote to its standard error.
    pub stderr: Vec<u8>,
}

/// The question to the upstream whether the client may read, which is also
/// the question for its refs: a `GET` of `url`.
#[derive(Clone, Debug, PartialEq, Eq)]
pub struct ProbeRequest {
    /// The URL to get.
    pub url: Vec<u8>,
    /// The value of the `User-Agent` header.
    pub user_agent: Vec<u8>,
    /// The value of the `Authorization` header, which is the client's own.
    pub authorization: Option<Vec<u8>>,
}

/// A `ProbeRequest` as contracts see it.
pub struct ProbeRequestView {
    /// The URL to get.
    pub url: Seq<u8>,
    /// The value of the `User-Agent` header.
    pub user_agent: Seq<u8>,
    /// The value of the `Authorization` header.
    pub authorization: Option<Seq<u8>>,
}

impl View for ProbeRequest {
    type V = ProbeRequestView;

    open spec fn view(&self) -> ProbeRequestView {
        ProbeRequestView {
            url: self.url@,
            user_agent: self.user_agent@,
            authorization: bytes_of(self.authorization),
        }
    }
}

/// The upstream's answer to a `ProbeRequest`.
#[derive(Clone, Debug, PartialEq, Eq)]
pub struct ProbeResponse {
    /// The status code.
    pub status: u16,
    /// The value of the `WWW-Authenticate` header.
    pub authenticate: Option<Vec<u8>>,
    /// The value of the `Content-Type` header.
    pub content_type: Option<Vec<u8>>,
    /// The whole body. It is only read where the status is 200.
    pub body: Vec<u8>,
}

/// A `ProbeResponse` as contracts see it.
pub struct ProbeResponseView {
    /// The status code.
    pub status: u16,
    /// The value of the `WWW-Authenticate` header.
    pub authenticate: Option<Seq<u8>>,
    /// The value of the `Content-Type` header.
    pub content_type: Option<Seq<u8>>,
    /// The whole body.
    pub body: Seq<u8>,
}

impl View for ProbeResponse {
    type V = ProbeResponseView;

    open spec fn view(&self) -> ProbeResponseView {
        ProbeResponseView {
            status: self.status,
            authenticate: bytes_of(self.authenticate),
            content_type: bytes_of(self.content_type),
            body: self.body@,
        }
    }
}

/// The operations on a mirror and its upstream.
#[derive(Clone, Copy, Debug, Default, PartialEq, Eq)]
pub struct Git {}

/// `git init --quiet --bare <local>`
pub open spec fn init_command(local: Seq<u8>) -> CommandView {
    CommandView {
        program: "git".spec_bytes(),
        args: seq!["init".spec_bytes(), "--quiet".spec_bytes(), "--bare".spec_bytes(), local],
        env: None,
        input: None,
        stream: false,
    }
}

/// The arguments of `git fetch` that do not depend on credentials:
/// `-C <local> fetch --quiet --prune-tags <upstream> +refs/*:refs/*`
pub open spec fn fetch_args(upstream: Seq<u8>, local: Seq<u8>) -> Seq<Seq<u8>> {
    seq![
        "-C".spec_bytes(),
        local,
        "fetch".spec_bytes(),
        "--quiet".spec_bytes(),
        "--prune-tags".spec_bytes(),
        upstream,
        "+refs/*:refs/*".spec_bytes(),
    ]
}

/// `git [--config-env http.extraHeader=AUTHORIZATION] -C <local> fetch --quiet
/// --prune-tags <upstream> +refs/*:refs/*`, which overwrites every ref of the
/// mirror with the upstream's. The client's credentials travel in the
/// variable `AUTHORIZATION` as the header line `authorization: <value>`, so
/// that they do not show among the arguments.
pub open spec fn fetch_command(
    upstream: Seq<u8>,
    local: Seq<u8>,
    auth: Option<Seq<u8>>,
) -> CommandView {
    match auth {
        Some(value) => CommandView {
            program: "git".spec_bytes(),
            args: seq!["--config-env".spec_bytes(), "http.extraHeader=AUTHORIZATION".spec_bytes()]
                + fetch_args(upstream, local),
            env: Some(("AUTHORIZATION".spec_bytes(), "authorization: ".spec_bytes() + value)),
            input: None,
            stream: false,
        },
        None => CommandView {
            program: "git".spec_bytes(),
            args: fetch_args(upstream, local),
            env: None,
            input: None,
            stream: false,
        },
    }
}

/// `git ls-remote --symref <upstream>`, which lists the refs of the upstream
/// and says where its `HEAD` points.
pub open spec fn ls_remote_command(upstream: Seq<u8>) -> CommandView {
    CommandView {
        program: "git".spec_bytes(),
        args: seq!["ls-remote".spec_bytes(), "--symref".spec_bytes(), upstream],
        env: None,
        input: None,
        stream: false,
    }
}

/// `git-upload-pack --stateless-rpc --http-backend-info-refs <local>`, whose
/// output is handed on.
pub open spec fn advertise_command(local: Seq<u8>) -> CommandView {
    CommandView {
        program: "git-upload-pack".spec_bytes(),
        args: seq![
            "--stateless-rpc".spec_bytes(),
            "--http-backend-info-refs".spec_bytes(),
            local,
        ],
        env: None,
        input: None,
        stream: true,
    }
}

/// `git-upload-pack --stateless-rpc <local>`, which reads `input` and whose
/// output is handed on.
pub open spec fn upload_pack_command(local: Seq<u8>, input: Seq<u8>) -> CommandView {
    CommandView {
        program: "git-upload-pack".spec_bytes(),
        args: seq!["--stateless-rpc".spec_bytes(), local],
        env: None,
        input: Some(input),
        stream: true,
    }
}

/// The question to `upstream`: its URL followed by
/// `/info/refs?service=git-upload-pack`, asked in the proxy's name and with
/// the client's credentials as they came.
pub open spec fn probe_request(upstream: Seq<u8>, auth: Option<Seq<u8>>) -> ProbeRequestView {
    ProbeRequestView {
        url: upstream + "/info/refs?service=git-upload-pack".spec_bytes(),
        user_agent: APP_NAME.spec_bytes(),
        authorization: auth,
    }
}

/// The `Content-Type` of a smart advertisement of `git-upload-pack`.
pub open spec fn advertisement_type() -> Seq<u8> {
    "application/x-git-upload-pack-advertisement".spec_bytes()
}

/// What the upstream's answer means. With 200 and the content type of a
/// smart advertisement, the client may read, and the body says where `HEAD`
/// points. 404 means that there is no such repository, 401 that the upstream
/// wants credentials, which it must ask for in `WWW-Authenticate`. Any other
/// answer is an internal error.
pub open spec fn probe_outcome(response: ProbeResponseView) -> Result<
    Option<Seq<char>>,
    ErrorView,
> {
    if response.status == 200 {
        if response.content_type != Some(advertisement_type()) {
            Err(ErrorView::Other(Failure::ContentType))
        } else {
            match smart_refs(response.body) {
                Ok(head) => Ok(head),
                Err(e) => Err(ErrorView::Other(Failure::Advertisement(e))),
            }
        }
    } else if response.status == 404 {
        Err(ErrorView::NotFound)
    } else if response.status == 401 {
        match response.authenticate {
            Some(challenge) => Err(ErrorView::MissingAuth(challenge)),
            None => Err(ErrorView::Other(Failure::NoChallenge)),
        }
    } else {
        Err(ErrorView::Other(Failure::Status(response.status)))
    }
}

/// The view of what `authenticate_with_head` comes to.
pub open spec fn head_view(r: Result<Option<String>, Error>) -> Result<
    Option<Seq<char>>,
    ErrorView,
> {
    match r {
        Ok(Some(head)) => Ok(Some(head@)),
        Ok(None) => Ok(None),
        Err(e) => Err(e@),
    }
}

/// The view of a result that holds bytes.
pub open spec fn bytes_view(r: Result<Vec<u8>, Error>) -> Result<Seq<u8>, ErrorView> {
    match r {
        Ok(bytes) => Ok(bytes@),
        Err(e) => Err(e@),
    }
}

/// What the exit of a helper that was waited for means: its output where it
/// exited with 0, and `failure` in every other case.
pub open spec fn exit_outcome(code: Option<i32>, stdout: Seq<u8>, failure: Failure) -> Result<
    Seq<u8>,
    ErrorView,
> {
    if code == Some(0i32) {
        Ok(stdout)
    } else {
        Err(ErrorView::Other(failure))
    }
}

/// The bytes of a text.
pub fn literal(text: &str) -> (r: Vec<u8>)
    ensures
        r@ == text.spec_bytes(),
{
    slice_to_vec(text.as_bytes())
}

/// Judges a helper that was waited for: its standard output where it exited
/// with 0, else `failure`.
pub fn exited_ok_with_stdout(output: Output, failure: Failure) -> (r: Result<Vec<u8>, Error>)
    ensures
        bytes_view(r) == exit_outcome(output.code, output.stdout@, failure),
{
    match output.code {
        Some(code) => {
            if code == 0 {
                Ok(output.stdout)
            } else {
                Err(Error::Other(failure))
            }
        },
        None => Err(Error::Other(failure)),
    }
}

impl ProbeResponse {
    /// What this answer means for the client: where the upstream's `HEAD`
    /// points if the client may read, or why it may not.
    pub fn head(&self) -> (r: Result<Option<String>, Error>)
        ensures
            head_view(r) == probe_outcome(self@),
    {
        if self.status == 200 {
            let smart = match &self.content_type {
                Some(value) => equal(
                    value.as_slice(),
                    "application/x-git-upload-pack-advertisement".as_bytes(),
                ),
                None => false,
            };
            if !smart {
                return Err(Error::Other(Failure::ContentType));
            }
            match parse_smart_refs(self.body.as_slice()) {
                Ok(head) => Ok(head),
                Err(e) => Err(Error::Other(Failure::Advertisement(e))),
            }
        } else if self.status == 404 {
            Err(Error::NotFound)
        } else if self.status == 401 {
            match &self.authenticate {
                Some(challenge) => Err(Error::MissingAuth(slice_to_vec(challenge.as_slice()))),
                None => Err(Error::Other(Failure::NoChallenge)),
            }
        } else {
            Err(Error::Other(Failure::Status(self.status)))
        }
    }
}

impl Git {
    /// How to make the bare repository at `local`, whose directory exists.
    pub fn init(&self, local: &[u8]) -> (r: Command)
        ensures
            r@ == init_command(local@),
    {
        let mut args: Vec<Vec<u8>> = Vec::new();
        args.push(literal("init"));
        args.push(literal("--quiet"));
        args.push(literal("--bare"));
        args.push(slice_to_vec(local));
        let r = Command { program: literal("git"), args, env: None, input: None, stream: false };
        proof {
            assert(r@.args =~= init_command(local@).args);
        }
        r
    }

    /// How to ask the upstream at the URL `upstream` whether the client with
    /// the credentials `auth` may read, and where its `HEAD` points.
    pub fn authenticate_with_head(&self, upstream: &[u8], auth: &Option<Vec<u8>>) -> (r:
        ProbeRequest)
        ensures
            r@ == probe_request(upstream@, bytes_of(*auth)),
    {
        ProbeRequest {
            url: concat(upstream, "/info/refs?service=git-upload-pack".as_bytes()),
            user_agent: literal(APP_NAME),
            authorization: copy_of(auth),
        }
    }

    /// How to bring the mirror at `local` up to date with the upstream at the
    /// URL `upstream`, on behalf of the client with the credentials `auth`.
    pub fn fetch(&self, upstream: &[u8], local: &[u8], auth: &Option<Vec<u8>>) -> (r: Command)
        ensures
            r@ == fetch_command(upstream@, local@, bytes_of(*auth)),
    {
        let mut args: Vec<Vec<u8>> = Vec::new();
        let env = match auth {
            Some(value) => {
                args.push(literal("--config-env"));
                args.push(literal("http.extraHeader=AUTHORIZATION"));
                Some(
                    Variable {
                        name: literal("AUTHORIZATION"),
                        value: concat("authorization: ".as_bytes(), value.as_slice()),
                    },
                )
            },
            None => None,
        };
        args.push(literal("-C"));
        args.push(slice_to_vec(local));
        args.push(literal("fetch"));
        args.push(literal("--quiet"));
        args.push(literal("--prune-tags"));
        args.push(slice_to_vec(upstream));
        args.push(literal("+refs/*:refs/*"));
        let r = Command { program: literal("git"), args, env, input: None, stream: false };
        proof {
            assert(r@.args =~= fetch_command(upstream@, local@, bytes_of(*auth)).args);
        }
        r
    }

    /// How to ask the upstream at the URL `upstream` for its refs with `git`
    /// itself, where no answer to `authenticate_with_head` is at hand.
    pub fn remote_head(&self, upstream: &[u8]) -> (r: Command)
        ensures
            r@ == ls_remote_command(upstream@),
    {
        let mut args: Vec<Vec<u8>> = Vec::new();
        args.push(literal("ls-remote"));
        args.push(literal("--symref"));
        args.push(slice_to_vec(upstream));
        let r = Command { program: literal("git"), args, env: None, input: None, stream: false };
        proof {
            assert(r@.args =~= ls_remote_command(upstream@).args);
        }
        r
    }

    /// How to advertise the refs of the mirror at `local`.
    pub fn advertise_refs(&self, local: &[u8]) -> (r: Command)
        ensures
            r@ == advertise_command(local@),
    {
        let mut args: Vec<Vec<u8>> = Vec::new();
        args.push(literal("--stateless-rpc"));
        args.push(literal("--http-backend-info-refs"));
        args.push(slice_to_vec(local));
        let r = Command {
            program: literal("git-upload-pack"),
            args,
            env: None,
            input: None,
            stream: true,
        };
        proof {
            assert(r@.args =~= advertise_command(local@).args);
        }
        r
    }

    /// How to answer the client's `input` from the mirror at `local`.
    pub fn upload_pack(&self, local: &[u8], input: Vec<u8>) -> (r: Command)
        ensures
            r@ == upload_pack_command(local@, input@),
    {
        let mut args: Vec<Vec<u8>> = Vec::new();
        args.push(literal("--stateless-rpc"));
        args.push(slice_to_vec(local));
        let r = Command {
            program: literal("git-upload-pack"),
            args,
            env: None,
            input: Some(input),
            stream: true,
        };
        proof {
            assert(r@.args =~= upload_pack_command(local@, input@).args);
        }
        r
    }
}

} // verus!
