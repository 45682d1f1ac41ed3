//! The two endpoints of the proxy, from the request line to the response.
//!
//! `route` tells which endpoint a request is for and which upstream it
//! names. An `Exchange` then leads through the request: it says what is to be
//! done next and, told how that went, what is to be done after it, until it
//! says what the client is answered.

use crate::bytes::{bytes_of, concat, ends_with, equal, has_suffix};
use crate::error::{error_response, outcome_view, Error, ErrorView, Failure, Header};
use crate::error::{Response, ResponseView};
use crate::git::{advertise_command, bytes_view, head_view, literal, probe_request};
use crate::git::{upload_pack_command, Command, CommandView, ProbeRequest, ProbeRequestView};
use crate::pktline::{encoded, length_digits, lemma_framed, ref_list, service_line, smart_refs};
use crate::pktline::Packet;
use crate::repo::{FetchPlan, FetchPlanView, Repo, RepoView};
use crate::upstream::{child, push_child, uri_parts};
use crate::upstream::{Upstream, UpstreamView};
use vstd::prelude::*;
use vstd::slice::{slice_subrange, slice_to_vec};
use vstd::string::StringSliceAdditionalSpecFns;

verus! {

/// How the proxy is set up.
#[derive(Clone, Debug, PartialEq, Eq)]
pub struct Options {
    cache_dir: Vec<u8>,
    port: u16,
}

/// The cache directory of a proxy that is told no other.
pub open spec fn default_cache_dir() -> Seq<u8> {
    "/var/cache/git".spec_bytes()
}

/// The port of a proxy that is told no other.
pub const DEFAULT_PORT: u16 = 8080;

/// The marker that shows a directory to be a cache of the proxy: the empty
/// file `.git-cache` in it.
pub open spec fn marker_path(cache_dir: Seq<u8>) -> Seq<u8> {
    child(cache_dir, ".git-cache".spec_bytes())
}

impl Options {
    /// The cache directory.
    pub closed spec fn spec_cache_dir(&self) -> Seq<u8> {
        self.cache_dir@
    }

    /// The port to listen on.
    pub closed spec fn spec_port(&self) -> u16 {
        self.port
    }

    /// A proxy that keeps its mirrors below `cache_dir` and listens on
    /// `port`.
    pub fn new(cache_dir: Vec<u8>, port: u16) -> (r: Options)
        ensures
            r.spec_cache_dir() == cache_dir@,
            r.spec_port() == port,
    {
        Options { cache_dir, port }
    }

    /// The cache directory.
    pub fn cache_dir(&self) -> (r: &[u8])
        ensures
            r@ == self.spec_cache_dir(),
    {
        self.cache_dir.as_slice()
    }

    /// The port to listen on.
    pub fn port(&self) -> (r: u16)
        ensures
            r == self.spec_port(),
    {
        self.port
    }

    /// The marker file of the cache directory.
    pub fn marker(&self) -> (r: Vec<u8>)
        ensures
            r@ == marker_path(self.spec_cache_dir()),
    {
        let mut path = slice_to_vec(self.cache_dir.as_slice());
        push_child(&mut path, ".git-cache".as_bytes());
        path
    }
}

impl Default for Options {
    /// The proxy that is told nothing: it keeps its mirrors below
    /// `/var/cache/git` and listens on 8080.
    fn default() -> (r: Options)
        ensures
            r.spec_cache_dir() == default_cache_dir(),
            r.spec_port() == DEFAULT_PORT,
    {
        Options { cache_dir: literal("/var/cache/git"), port: DEFAULT_PORT }
    }
}

/// The method of a request, as far as the proxy tells methods apart.
#[derive(Clone, Copy, Debug, PartialEq, Eq, Structural)]
pub enum Method {
    /// `GET`
    Get,
    /// `POST`
    Post,
    /// Any other method.
    Other,
}

/// The endpoints.
#[derive(Clone, Copy, Debug, PartialEq, Eq, Structural)]
pub enum Service {
    /// `GET /<host>/<path>/info/refs?service=git-upload-pack`: the refs of
    /// the upstream.
    RefDiscovery,
    /// `POST /<host>/<path>/git-upload-pack`: the objects that the client
    /// asks for.
    UploadPack,
}

/// A request that the proxy serves.
#[derive(Clone, Debug, PartialEq, Eq)]
pub struct Route {
    /// The endpoint.
    pub service: Service,
    /// The upstream that the request names.
    pub upstream: Upstream,
}

/// A `Route` as contracts see it.
pub struct RouteView {
    /// The endpoint.
    pub service: Service,
    /// The upstream that the request names.
    pub upstream: UpstreamView,
}

impl View for Route {
    type V = RouteView;

    open spec fn view(&self) -> RouteView {
        RouteView { service: self.service, upstream: self.upstream@ }
    }
}

/// The view of what `route` returns.
pub open spec fn route_view(r: Result<Route, Error>) -> Result<RouteView, ErrorView> {
    match r {
        Ok(route) => Ok(route@),
        Err(e) => Err(e@),
    }
}

/// The query that asks for the refs of `git-upload-pack`.
pub open spec fn upload_pack_query() -> Seq<u8> {
    "service=git-upload-pack".spec_bytes()
}

/// The URL of the upstream that the request path `path` names before
/// `suffix`: the path stands for the URL without its scheme, so `https:/` is
/// put before its leading slash.
pub open spec fn upstream_text(path: Seq<u8>, suffix: Seq<u8>) -> Seq<u8> {
    "https:/".spec_bytes() + path.take(path.len() - suffix.len())
}

/// The request for the endpoint `service`, whose paths end in `suffix`: the
/// path must end in `suffix`, and what stands before must spell a URI once
/// the scheme is put before it.
pub open spec fn endpoint(path: Seq<u8>, suffix: Seq<u8>, service: Service) -> Result<
    RouteView,
    ErrorView,
> {
    if !has_suffix(path, suffix) {
        Err(ErrorView::NotFound)
    } else {
        match uri_parts(upstream_text(path, suffix)) {
            Some(upstream) => Ok(RouteView { service, upstream }),
            None => Err(ErrorView::NotFound),
        }
    }
}

/// Which endpoint a request is for. A `GET` must ask for
/// `service=git-upload-pack` and nothing else, on a path that ends in
/// `/info/refs`; a `POST` must go to a path that ends in `/git-upload-pack`.
/// Every other request is not found.
pub open spec fn routed(method: Method, path: Seq<u8>, query: Option<Seq<u8>>) -> Result<
    RouteView,
    ErrorView,
> {
    match method {
        Method::Get => if query == Some(upload_pack_query()) {
            endpoint(path, "/info/refs".spec_bytes(), Service::RefDiscovery)
        } else {
            Err(ErrorView::NotFound)
        },
        Method::Post => endpoint(path, "/git-upload-pack".spec_bytes(), Service::UploadPack),
        Method::Other => Err(ErrorView::NotFound),
    }
}

fn route_endpoint(path: &[u8], suffix: &[u8], service: Service) -> (r: Result<Route, Error>)
    ensures
        route_view(r) == endpoint(path@, suffix@, service),
{
    if !ends_with(path, suffix) {
        return Err(Error::NotFound);
    }
    let named = slice_subrange(path, 0, path.len() - suffix.len());
    let text = concat("https:/".as_bytes(), named);
    match Upstream::parse(text.as_slice()) {
        Some(upstream) => Ok(Route { service, upstream }),
        None => Err(Error::NotFound),
    }
}

/// Tells which endpoint the request with the method `method`, the path `path`
/// and the query `query` is for, and which upstream it names.
pub fn route(method: Method, path: &[u8], query: Option<&[u8]>) -> (r: Result<Route, Error>)
    ensures
        route_view(r) == routed(
            method,
            path@,
            match query {
                Some(q) => Some(q@),
                None => None,
            },
        ),
{
    match method {
        Method::Get => {
            let asked = match query {
                Some(q) => equal(q, "service=git-upload-pack".as_bytes()),
                None => false,
            };
            if asked {
                route_endpoint(path, "/info/refs".as_bytes(), Service::RefDiscovery)
            } else {
                Err(Error::NotFound)
            }
        },
        Method::Post => route_endpoint(path, "/git-upload-pack".as_bytes(), Service::UploadPack),
        Method::Other => Err(Error::NotFound),
    }
}

/// What the body of a ref advertisement begins with: the pkt-line that names
/// the service, and a flush. The helper leaves both out.
pub open spec fn advertisement_prelude() -> Seq<u8> {
    "001e# service=git-upload-pack\n0000".spec_bytes()
}

/// The response of an endpoint that went well: 200, the content type of the
/// endpoint, `Cache-Control: no-cache`, and a body that ends with the
/// helper's output.
pub open spec fn success_response(service: Service) -> ResponseView {
    match service {
        Service::RefDiscovery => ResponseView {
            status: 200,
            headers: seq![
                (
                    "content-type".spec_bytes(),
                    "application/x-git-upload-pack-advertisement".spec_bytes(),
                ),
                ("cache-control".spec_bytes(), "no-cache".spec_bytes()),
            ],
            body: advertisement_prelude(),
            stream: true,
        },
        Service::UploadPack => ResponseView {
            status: 200,
            headers: seq![
                ("content-type".spec_bytes(), "application/x-git-upload-pack-result".spec_bytes()),
                ("cache-control".spec_bytes(), "no-cache".spec_bytes()),
            ],
            body: Seq::empty(),
            stream: true,
        },
    }
}

/// How far an exchange has come.
#[derive(Clone, Copy, Debug, PartialEq, Eq, Structural)]
pub enum Stage {
    /// Nothing has been asked for yet.
    Idle,
    /// The upstream is being asked whether the client may read.
    Authenticating,
    /// The mirror is being brought up to date.
    Fetching,
    /// The client's request is being read to its end.
    Collecting,
    /// The helper is being started.
    Starting,
    /// The client has its answer.
    Done,
}

/// What the caller reports to an exchange.
#[derive(Debug, PartialEq, Eq)]
pub enum Event {
    /// The lock of the mirror is held: the exchange can begin.
    Begin,
    /// What the upstream's answer came to.
    Authenticated(Result<Option<String>, Error>),
    /// How bringing the mirror up to date went.
    Fetched(Result<(), Error>),
    /// The client's whole request body, or why there is none.
    Collected(Result<Vec<u8>, Error>),
    /// Whether the helper runs.
    Started(Result<(), Error>),
}

/// An `Event` as contracts see it.
pub enum EventView {
    /// The exchange can begin.
    Begin,
    /// What the upstream's answer came to.
    Authenticated(Result<Option<Seq<char>>, ErrorView>),
    /// How bringing the mirror up to date went.
    Fetched(Result<(), ErrorView>),
    /// The client's whole request body.
    Collected(Result<Seq<u8>, ErrorView>),
    /// Whether the helper runs.
    Started(Result<(), ErrorView>),
}

impl View for Event {
    type V = EventView;

    open spec fn view(&self) -> EventView {
        match self {
            Event::Begin => EventView::Begin,
            Event::Authenticated(outcome) => EventView::Authenticated(head_view(*outcome)),
            Event::Fetched(outcome) => EventView::Fetched(outcome_view(*outcome)),
            Event::Collected(outcome) => EventView::Collected(bytes_view(*outcome)),
            Event::Started(outcome) => EventView::Started(outcome_view(*outcome)),
        }
    }
}

/// What an exchange asks the caller to do.
#[derive(Clone, Debug, PartialEq, Eq)]
pub enum Action {
    /// Ask the upstream, let `ProbeResponse::head` judge the answer, and
    /// report `Authenticated`.
    Authenticate(ProbeRequest),
    /// Write the mirror's `HEAD` if the plan says so, run the fetch, let
    /// `exited_ok_with_stdout` judge it, and report `Fetched`.
    Fetch(FetchPlan),
    /// Read the client's request body to its end and report `Collected`.
    Collect,
    /// Start the helper, keep its standard output, and report `Started`.
    Start(Command),
    /// Answer the client. The exchange is over.
    Respond(Response),
}

/// An `Action` as contracts see it.
pub enum ActionView {
    /// Ask the upstream.
    Authenticate(ProbeRequestView),
    /// Bring the mirror up to date.
    Fetch(FetchPlanView),
    /// Read the client's request body.
    Collect,
    /// Start the helper.
    Start(CommandView),
    /// Answer the client.
    Respond(ResponseView),
}

impl View for Action {
    type V = ActionView;

    open spec fn view(&self) -> ActionView {
        match self {
            Action::Authenticate(request) => ActionView::Authenticate(request@),
            Action::Fetch(plan) => ActionView::Fetch(plan@),
            Action::Collect => ActionView::Collect,
            Action::Start(command) => ActionView::Start(command@),
            Action::Respond(response) => ActionView::Respond(response@),
        }
    }
}

/// One request to an endpoint, from the moment the lock of its mirror is
/// held.
#[derive(Clone, Debug, PartialEq, Eq)]
pub struct Exchange {
    service: Service,
    repo: Repo,
    auth: Option<Vec<u8>>,
    stage: Stage,
}

/// An `Exchange` as contracts see it.
pub struct ExchangeView {
    /// The endpoint.
    pub service: Service,
    /// The mirror.
    pub repo: RepoView,
    /// The value of the client's `Authorization` header.
    pub auth: Option<Seq<u8>>,
    /// How far the exchange has come.
    pub stage: Stage,
}

impl ExchangeView {
    /// This exchange at the stage `stage`.
    pub open spec fn at(self, stage: Stage) -> ExchangeView {
        ExchangeView { service: self.service, repo: self.repo, auth: self.auth, stage }
    }

    /// The end of this exchange with the error `e`.
    pub open spec fn failed(self, e: ErrorView) -> (ExchangeView, ActionView) {
        (self.at(Stage::Done), ActionView::Respond(error_response(e)))
    }

    /// The end of this exchange because the caller reported what it was not
    /// asked for.
    pub open spec fn out_of_turn(self) -> (ExchangeView, ActionView) {
        self.failed(ErrorView::Other(Failure::OutOfTurn))
    }
}

/// The step of an exchange: the exchange after `event`, and what it asks for
/// next.
///
/// Both endpoints begin by asking the upstream whether the client may read.
/// Ref discovery then brings the mirror up to date, with the `HEAD` that the
/// upstream named, and starts the helper that advertises the mirror's refs.
/// Upload-pack then reads the client's request to its end and starts the
/// helper that answers it. Once the helper runs, the client gets the
/// endpoint's response. The first error that is reported ends the exchange
/// with the response for that error, and so does a report that was not asked
/// for.
pub open spec fn stepped(x: ExchangeView, event: EventView) -> (ExchangeView, ActionView) {
    match event {
        EventView::Begin => if x.stage == Stage::Idle {
            (
                x.at(Stage::Authenticating),
                ActionView::Authenticate(probe_request(x.repo.url(), x.auth)),
            )
        } else {
            x.out_of_turn()
        },
        EventView::Authenticated(outcome) => if x.stage == Stage::Authenticating {
            match outcome {
                Ok(head) => match x.service {
                    Service::RefDiscovery => (
                        x.at(Stage::Fetching),
                        ActionView::Fetch(x.repo.fetch_plan(head, x.auth)),
                    ),
                    Service::UploadPack => (x.at(Stage::Collecting), ActionView::Collect),
                },
                Err(e) => x.failed(e),
            }
        } else {
            x.out_of_turn()
        },
        EventView::Fetched(outcome) => if x.stage == Stage::Fetching {
            match outcome {
                Ok(_) => (
                    x.at(Stage::Starting),
                    ActionView::Start(advertise_command(x.repo.local)),
                ),
                Err(e) => x.failed(e),
            }
        } else {
            x.out_of_turn()
        },
        EventView::Collected(outcome) => if x.stage == Stage::Collecting {
            match outcome {
                Ok(body) => (
                    x.at(Stage::Starting),
                    ActionView::Start(upload_pack_command(x.repo.local, body)),
                ),
                Err(e) => x.failed(e),
            }
        } else {
            x.out_of_turn()
        },
        EventView::Started(outcome) => if x.stage == Stage::Starting {
            match outcome {
                Ok(_) => (x.at(Stage::Done), ActionView::Respond(success_response(x.service))),
                Err(e) => x.failed(e),
            }
        } else {
            x.out_of_turn()
        },
    }
}

/// An exchange through a run of reports, in order: the exchange afterwards,
/// and what it asked for on the way.
pub open spec fn conducted(x: ExchangeView, events: Seq<EventView>) -> (
    ExchangeView,
    Seq<ActionView>,
)
    decreases events.len(),
{
    if events.len() == 0 {
        (x, Seq::empty())
    } else {
        let (before, asked) = conducted(x, events.drop_last());
        let (after, action) = stepped(before, events.last());
        (after, asked.push(action))
    }
}

/// How often a run of actions asks for the mirror to be brought up to date.
pub open spec fn fetches(actions: Seq<ActionView>) -> nat
    decreases actions.len(),
{
    if actions.len() == 0 {
        0
    } else if actions.last() is Fetch {
        fetches(actions.drop_last()) + 1
    } else {
        fetches(actions.drop_last())
    }
}

/// How an exchange that began at `Idle` and the number of fetches that it
/// has asked for hang together.
pub open spec fn on_track(x: ExchangeView, fetched: nat) -> bool {
    match x.stage {
        Stage::Idle => fetched == 0,
        Stage::Authenticating => fetched == 0,
        Stage::Fetching => fetched == 1 && x.service == Service::RefDiscovery,
        Stage::Collecting => fetched == 0 && x.service == Service::UploadPack,
        Stage::Starting => if x.service == Service::RefDiscovery {
            fetched == 1
        } else {
            fetched == 0
        },
        Stage::Done => fetched <= 1,
    }
}

/// An exchange stays on its track.
pub proof fn lemma_on_track(x: ExchangeView, events: Seq<EventView>)
    requires
        x.stage == Stage::Idle,
    ensures
        on_track(conducted(x, events).0, fetches(conducted(x, events).1)),
        conducted(x, events).0.service == x.service,
        conducted(x, events).1.len() == events.len(),
    decreases events.len(),
{
    if events.len() > 0 {
        lemma_on_track(x, events.drop_last());
        let (before, asked) = conducted(x, events.drop_last());
        let (after, action) = stepped(before, events.last());
        assert(asked.push(action).drop_last() =~= asked);
    }
}

/// One fetch per exchange: whatever is reported to an exchange, it asks at
/// most once for its mirror to be brought up to date.
pub proof fn lemma_fetch_at_most_once(x: ExchangeView, events: Seq<EventView>)
    requires
        x.stage == Stage::Idle,
    ensures
        fetches(conducted(x, events).1) <= 1,
{
    lemma_on_track(x, events);
}

/// An exchange of ref discovery that ends well has asked exactly once for
/// its mirror to be brought up to date, and an exchange of upload-pack never.
pub proof fn lemma_fetch_before_success(x: ExchangeView, events: Seq<EventView>)
    requires
        x.stage == Stage::Idle,
        events.len() > 0,
        conducted(x, events).1.last() == ActionView::Respond(success_response(x.service)),
    ensures
        fetches(conducted(x, events).1) == (if x.service == Service::RefDiscovery {
            1nat
        } else {
            0nat
        }),
{
    lemma_on_track(x, events.drop_last());
    let (before, asked) = conducted(x, events.drop_last());
    let (after, action) = stepped(before, events.last());
    assert(asked.push(action).drop_last() =~= asked);
    assert(asked.push(action).last() == action);
    lemma_success_is_no_error(x.service);
    assert(before.stage == Stage::Starting);
}

/// The response of an endpoint that went well is the response of no error.
pub proof fn lemma_success_is_no_error(service: Service)
    ensures
        forall|e: ErrorView| error_response(e) != success_response(service),
{
    assert forall|e: ErrorView| error_response(e) != success_response(service) by {
        assert(error_response(e).status != 200);
    }
}

/// Same framing every time: whenever an exchange answers with 200, the
/// response is the one of its endpoint, whatever the mirror, the client, and
/// what went before. So two ref discoveries that go well differ in nothing
/// but what the helper writes.
pub proof fn lemma_same_framing(x: ExchangeView, event: EventView)
    requires
        stepped(x, event).1 matches ActionView::Respond(response) && response.status == 200,
    ensures
        stepped(x, event).1 == ActionView::Respond(success_response(x.service)),
{
}

/// The body of a ref advertisement begins as an advertisement must: what the
/// proxy sends before the helper's output is the service line and a flush, so
/// that whoever reads the body finds the helper's output in the place of the
/// ref list.
pub proof fn lemma_prelude_frames(rest: Seq<u8>)
    ensures
        smart_refs(advertisement_prelude() + rest) == ref_list(rest),
{
    lemma_prelude();
    assert(advertisement_prelude() + rest =~= encoded(Packet::Data(service_line())) + (encoded(
        Packet::Flush,
    ) + rest));
    lemma_framed(rest);
}

/// The prelude is the service line on the wire, and a flush.
pub proof fn lemma_prelude()
    ensures
        advertisement_prelude() == encoded(Packet::Data(service_line())) + encoded(Packet::Flush),
{
    reveal_strlit("001e# service=git-upload-pack\n0000");
    reveal_strlit("# service=git-upload-pack\n");
    vstd::string::is_ascii_spec_bytes("001e# service=git-upload-pack\n0000");
    vstd::string::is_ascii_spec_bytes("# service=git-upload-pack\n");
    assert(vstd::string::is_ascii("001e# service=git-upload-pack\n0000"));
    assert(vstd::string::is_ascii("# service=git-upload-pack\n"));
    let prelude = advertisement_prelude();
    let wire = encoded(Packet::Data(service_line())) + encoded(Packet::Flush);
    assert(service_line().len() == 26);
    assert(length_digits(30) =~= seq![0x30u8, 0x30u8, 0x31u8, 0x65u8]);
    assert(length_digits(0) =~= seq![0x30u8, 0x30u8, 0x30u8, 0x30u8]);
    assert(prelude.len() == 34);
    assert(wire.len() == 34);
    assert forall|i: int| 0 <= i < 34 implies prelude[i] == wire[i] by {
        if i < 4 {
        } else if i < 30 {
            assert(wire[i] == service_line()[i - 4]);
        } else {
        }
    }
    assert(prelude =~= wire);
}

fn header(name: &str, value: &str) -> (r: Header)
    ensures
        r@ == (name.spec_bytes(), value.spec_bytes()),
{
    Header { name: literal(name), value: literal(value) }
}

/// The response of the endpoint `service` when all went well.
pub fn success(service: Service) -> (r: Response)
    ensures
        r@ == success_response(service),
{
    let mut headers: Vec<Header> = Vec::new();
    match service {
        Service::RefDiscovery => {
            headers.push(header("content-type", "application/x-git-upload-pack-advertisement"));
            headers.push(header("cache-control", "no-cache"));
            let r = Response {
                status: 200,
                headers,
                body: literal("001e# service=git-upload-pack\n0000"),
                stream: true,
            };
            proof {
                assert(r@.headers =~= success_response(service).headers);
            }
            r
        },
        Service::UploadPack => {
            headers.push(header("content-type", "application/x-git-upload-pack-result"));
            headers.push(header("cache-control", "no-cache"));
            let r = Response { status: 200, headers, body: Vec::new(), stream: true };
            proof {
                assert(r@.headers =~= success_response(service).headers);
            }
            r
        },
    }
}

impl View for Exchange {
    type V = ExchangeView;

    closed spec fn view(&self) -> ExchangeView {
        ExchangeView {
            service: self.service,
            repo: self.repo@,
            auth: bytes_of(self.auth),
            stage: self.stage,
        }
    }
}

impl Exchange {
    /// A request to the endpoint `service` for the mirror `repo`, from a
    /// client whose `Authorization` header holds `auth`. Nothing has been
    /// asked for yet.
    pub fn new(service: Service, repo: &Repo, auth: Option<Vec<u8>>) -> (r: Exchange)
        ensures
            r@ == (ExchangeView {
                service,
                repo: repo@,
                auth: bytes_of(auth),
                stage: Stage::Idle,
            }),
    {
        Exchange { service, repo: repo.copy(), auth, stage: Stage::Idle }
    }

    /// How far the exchange has come.
    pub fn stage(&self) -> (r: Stage)
        ensures
            r == self@.stage,
    {
        self.stage
    }

    /// The endpoint.
    pub fn service(&self) -> (r: Service)
        ensures
            r == self@.service,
    {
        self.service
    }

    fn fail(&mut self, e: Error) -> (r: Action)
        ensures
            (final(self)@, r@) == old(self)@.failed(e@),
    {
        self.stage = Stage::Done;
        Action::Respond(e.into_response())
    }

    fn refuse(&mut self) -> (r: Action)
        ensures
            (final(self)@, r@) == old(self)@.out_of_turn(),
    {
        self.fail(Error::Other(Failure::OutOfTurn))
    }

    /// Takes the caller's report and says what is to be done next.
    pub fn step(&mut self, event: Event) -> (r: Action)
        ensures
            (final(self)@, r@) == stepped(old(self)@, event@),
    {
        match event {
            Event::Begin => {
                if self.stage == Stage::Idle {
                    self.stage = Stage::Authenticating;
                    Action::Authenticate(self.repo.authenticate_with_head(&self.auth))
                } else {
                    self.refuse()
                }
            },
            Event::Authenticated(outcome) => {
                if self.stage == Stage::Authenticating {
                    match outcome {
                        Ok(head) => match self.service {
                            Service::RefDiscovery => {
                                self.stage = Stage::Fetching;
                                Action::Fetch(self.repo.fetch(&head, &self.auth))
                            },
                            Service::UploadPack => {
                                self.stage = Stage::Collecting;
                                Action::Collect
                            },
                        },
                        Err(e) => self.fail(e),
                    }
                } else {
                    self.refuse()
                }
            },
            Event::Fetched(outcome) => {
                if self.stage == Stage::Fetching {
                    match outcome {
                        Ok(_) => {
                            self.stage = Stage::Starting;
                            Action::Start(self.repo.advertise_refs())
                        },
                        Err(e) => self.fail(e),
                    }
                } else {
                    self.refuse()
                }
            },
            Event::Collected(outcome) => {
                if self.stage == Stage::Collecting {
                    match outcome {
                        Ok(body) => {
                            self.stage = Stage::Starting;
                            Action::Start(self.repo.upload_pack(body))
                        },
                        Err(e) => self.fail(e),
                    }
                } else {
                    self.refuse()
                }
            },
            Event::Started(outcome) => {
                if self.stage == Stage::Starting {
                    match outcome {
                        Ok(_) => {
                            self.stage = Stage::Done;
                            Action::Respond(success(self.service))
                        },
                        Err(e) => self.fail(e),
                    }
                } else {
                    self.refuse()
                }
            },
        }
    }
}

} // verus!
