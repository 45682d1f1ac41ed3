//! The index of mirrors.
//!
//! The index knows every mirror by the place where it lives. Opening an
//! upstream names its mirror, enters it on first use and says whether the
//! repository still has to be made on disk. A mirror keeps its number for good,
//! and all upstreams that share a place share the number: whoever serializes
//! work by that number serializes all work on the mirror.

use crate::bytes::{bytes_of, concat, equal};
use crate::error::{Error, ErrorView};
use crate::git::{advertise_command, fetch_command, init_command, probe_request};
use crate::git::{command_of, upload_pack_command, Command, CommandView, Git, ProbeRequest};
use crate::upstream::{child, mirror_path, push_child, upstream_url, Upstream, UpstreamView};
use vstd::prelude::*;
use vstd::slice::slice_to_vec;
use vstd::string::StringSliceAdditionalSpecFns;
use vstd::utf8::encode_utf8;

verus! {

/// A mirror and the upstream that it was first opened for.
#[derive(Clone, Debug, PartialEq, Eq)]
pub struct Repo {
    git: Git,
    host: Vec<u8>,
    path: Vec<u8>,
    local: Vec<u8>,
    ready: bool,
    busy: bool,
}

/// A `Repo` as contracts see it.
pub struct RepoView {
    /// The upstream.
    pub upstream: UpstreamView,
    /// Where the mirror lives.
    pub local: Seq<u8>,
    /// Whether the repository has been made on disk.
    pub ready: bool,
    /// Whether the lock of the mirror is held.
    pub busy: bool,
}

/// A file to write.
#[derive(Clone, Debug, PartialEq, Eq)]
pub struct FileWrite {
    /// The file.
    pub path: Vec<u8>,
    /// What the file holds afterwards.
    pub contents: Vec<u8>,
}

/// How to bring a mirror up to date: first the write, if there is one, then
/// the command.
#[derive(Clone, Debug, PartialEq, Eq)]
pub struct FetchPlan {
    /// The new `HEAD` of the mirror.
    pub head: Option<FileWrite>,
    /// The fetch.
    pub command: Command,
}

/// A `FetchPlan` as contracts see it.
pub struct FetchPlanView {
    /// The new `HEAD` of the mirror, as file and contents.
    pub head: Option<(Seq<u8>, Seq<u8>)>,
    /// The fetch.
    pub command: CommandView,
}

impl View for FetchPlan {
    type V = FetchPlanView;

    open spec fn view(&self) -> FetchPlanView {
        FetchPlanView {
            head: match self.head {
                Some(write) => Some((write.path@, write.contents@)),
                None => None,
            },
            command: self.command@,
        }
    }
}

/// The characters of an optional text.
pub open spec fn text_of(v: Option<String>) -> Option<Seq<char>> {
    match v {
        Some(text) => Some(text@),
        None => None,
    }
}

impl RepoView {
    /// The URL of the upstream: `https://<host><path>`.
    pub open spec fn url(self) -> Seq<u8> {
        upstream_url(self.upstream.authority->0, self.upstream.path)
    }

    /// How to bring the mirror up to date. Where the upstream said where its
    /// `HEAD` points, the mirror's `HEAD` is first overwritten with
    /// `ref: <target>`.
    pub open spec fn fetch_plan(
        self,
        remote_head: Option<Seq<char>>,
        auth: Option<Seq<u8>>,
    ) -> FetchPlanView {
        FetchPlanView {
            head: match remote_head {
                Some(target) => Some(
                    (
                        child(self.local, "HEAD".spec_bytes()),
                        "ref: ".spec_bytes() + encode_utf8(target),
                    ),
                ),
                None => None,
            },
            command: fetch_command(self.url(), self.local, auth),
        }
    }
}

impl View for Repo {
    type V = RepoView;

    closed spec fn view(&self) -> RepoView {
        RepoView {
            upstream: UpstreamView { authority: Some(self.host@), path: self.path@ },
            local: self.local@,
            ready: self.ready,
            busy: self.busy,
        }
    }
}

impl Repo {
    /// The upstream that this mirror was first opened for.
    pub fn upstream(&self) -> (r: Upstream)
        ensures
            r@ == self@.upstream,
    {
        Upstream {
            authority: Some(slice_to_vec(self.host.as_slice())),
            path: slice_to_vec(self.path.as_slice()),
        }
    }

    /// Where the mirror lives.
    pub fn local(&self) -> (r: &[u8])
        ensures
            r@ == self@.local,
    {
        self.local.as_slice()
    }

    /// Whether the repository has been made on disk.
    pub fn ready(&self) -> (r: bool)
        ensures
            r == self@.ready,
    {
        self.ready
    }

    /// The URL of the upstream.
    pub fn url(&self) -> (r: Vec<u8>)
        ensures
            r@ == self@.url(),
    {
        let mut url = concat("https://".as_bytes(), self.host.as_slice());
        url.extend_from_slice(self.path.as_slice());
        url
    }

    /// How to make the repository on disk, once its directory exists.
    pub fn init(&self) -> (r: Command)
        ensures
            r@ == init_command(self@.local),
    {
        self.git.init(self.local.as_slice())
    }

    /// How to ask the upstream whether the client with the credentials
    /// `auth` may read, and where its `HEAD` points.
    pub fn authenticate_with_head(&self, auth: &Option<Vec<u8>>) -> (r: ProbeRequest)
        ensures
            r@ == probe_request(self@.url(), bytes_of(*auth)),
    {
        let url = self.url();
        self.git.authenticate_with_head(url.as_slice(), auth)
    }

    /// How to bring the mirror up to date with its upstream, whose `HEAD`
    /// points to `remote_head`, on behalf of the client with the credentials
    /// `auth`.
    pub fn fetch(&self, remote_head: &Option<String>, auth: &Option<Vec<u8>>) -> (r: FetchPlan)
        ensures
            r@ == self@.fetch_plan(text_of(*remote_head), bytes_of(*auth)),
    {
        let head = match remote_head {
            Some(target) => {
                let mut path = slice_to_vec(self.local.as_slice());
                push_child(&mut path, "HEAD".as_bytes());
                let contents = concat("ref: ".as_bytes(), target.as_str().as_bytes());
                Some(FileWrite { path, contents })
            },
            None => None,
        };
        let url = self.url();
        let command = self.git.fetch(url.as_slice(), self.local.as_slice(), auth);
        FetchPlan { head, command }
    }

    /// How to advertise the refs of the mirror.
    pub fn advertise_refs(&self) -> (r: Command)
        ensures
            r@ == advertise_command(self@.local),
    {
        self.git.advertise_refs(self.local.as_slice())
    }

    /// How to answer the client's `input` from the mirror.
    pub fn upload_pack(&self, input: Vec<u8>) -> (r: Command)
        ensures
            r@ == upload_pack_command(self@.local, input@),
    {
        self.git.upload_pack(self.local.as_slice(), input)
    }

    /// A copy of this mirror's entry.
    pub fn copy(&self) -> (r: Repo)
        ensures
            r@ == self@,
    {
        Repo {
            git: self.git,
            host: slice_to_vec(self.host.as_slice()),
            path: slice_to_vec(self.path.as_slice()),
            local: slice_to_vec(self.local.as_slice()),
            ready: self.ready,
            busy: self.busy,
        }
    }
}

/// The mirrors below one cache directory, each known by its number.
#[derive(Debug)]
pub struct Index {
    git: Git,
    cache_dir: Vec<u8>,
    repos: Vec<Repo>,
}

/// An `Index` as contracts see it.
pub struct IndexView {
    /// The cache directory.
    pub cache_dir: Seq<u8>,
    /// The mirrors, each at its number.
    pub repos: Seq<RepoView>,
}

/// What opening an upstream comes to.
#[derive(Clone, Debug, PartialEq, Eq)]
pub struct Opened {
    /// The number of the mirror.
    pub id: usize,
    /// How to make the repository, where that is still to be done: the
    /// mirror's directory is created with all its parents, then this command
    /// is run.
    pub init: Option<Command>,
}

/// An `Opened` as contracts see it.
pub struct OpenedView {
    /// The number of the mirror.
    pub id: int,
    /// How to make the repository, where that is still to be done.
    pub init: Option<CommandView>,
}

impl View for Opened {
    type V = OpenedView;

    open spec fn view(&self) -> OpenedView {
        OpenedView { id: self.id as int, init: command_of(self.init) }
    }
}

/// The view of what `Index::open` returns.
pub open spec fn opened_view(r: Result<Opened, Error>) -> Result<OpenedView, ErrorView> {
    match r {
        Ok(opened) => Ok(opened@),
        Err(e) => Err(e@),
    }
}

/// The views of a list of mirrors.
pub closed spec fn repo_views(list: Seq<Repo>) -> Seq<RepoView> {
    Seq::new(list.len(), |k: int| list[k]@)
}

/// The number of the first mirror that lives at `local`.
pub open spec fn lookup(repos: Seq<RepoView>, local: Seq<u8>) -> Option<int>
    decreases repos.len(),
{
    if repos.len() == 0 {
        None
    } else {
        match lookup(repos.drop_last(), local) {
            Some(id) => Some(id),
            None => if repos.last().local == local {
                Some(repos.len() - 1)
            } else {
                None
            },
        }
    }
}

/// What an index must be: every mirror lives where its upstream's mirror
/// belongs, and no two mirrors live at the same place.
pub open spec fn well_formed(index: IndexView) -> bool {
    &&& forall|i: int|
        0 <= i < index.repos.len() ==> mirror_path(
            index.cache_dir,
            (#[trigger] index.repos[i]).upstream,
        ) == Some(index.repos[i].local)
    &&& forall|i: int, j: int|
        0 <= i < j < index.repos.len() ==> (#[trigger] index.repos[i]).local
            != (#[trigger] index.repos[j]).local
}

/// Opening `upstream` in `index`: the index afterwards, and what the caller
/// is told.
///
/// An upstream without a mirror's place is not found and leaves the index as
/// it is. A mirror that the index knows is named by its number, and is to be
/// made on disk only if it has not been reported as made. Any other mirror is
/// entered behind those that the index knows, and is to be made.
pub open spec fn opened(index: IndexView, upstream: UpstreamView) -> (
    IndexView,
    Result<OpenedView, ErrorView>,
) {
    match mirror_path(index.cache_dir, upstream) {
        None => (index, Err(ErrorView::NotFound)),
        Some(local) => match lookup(index.repos, local) {
            Some(id) => (
                index,
                Ok(
                    OpenedView {
                        id,
                        init: if index.repos[id].ready {
                            None
                        } else {
                            Some(init_command(local))
                        },
                    },
                ),
            ),
            None => (
                IndexView {
                    cache_dir: index.cache_dir,
                    repos: index.repos.push(
                        RepoView { upstream, local, ready: false, busy: false },
                    ),
                },
                Ok(OpenedView { id: index.repos.len() as int, init: Some(init_command(local)) }),
            ),
        },
    }
}

/// The index after the mirror `id` has been reported as made on disk.
pub open spec fn marked(index: IndexView, id: int) -> IndexView {
    if 0 <= id < index.repos.len() {
        IndexView {
            cache_dir: index.cache_dir,
            repos: index.repos.update(
                id,
                RepoView {
                    upstream: index.repos[id].upstream,
                    local: index.repos[id].local,
                    ready: true,
                    busy: index.repos[id].busy,
                },
            ),
        }
    } else {
        index
    }
}

/// The mirror `mirror` with its lock taken or given back.
pub open spec fn with_lock(mirror: RepoView, busy: bool) -> RepoView {
    RepoView { upstream: mirror.upstream, local: mirror.local, ready: mirror.ready, busy }
}

/// Trying to take the lock of the mirror `id`: the index afterwards, and
/// whether the lock was taken. It is taken if and only if the mirror is
/// known and its lock is not held.
pub open spec fn locked(index: IndexView, id: int) -> (IndexView, bool) {
    if 0 <= id < index.repos.len() && !index.repos[id].busy {
        (
            IndexView {
                cache_dir: index.cache_dir,
                repos: index.repos.update(id, with_lock(index.repos[id], true)),
            },
            true,
        )
    } else {
        (index, false)
    }
}

/// The index after the lock of the mirror `id` has been given back.
pub open spec fn unlocked(index: IndexView, id: int) -> IndexView {
    if 0 <= id < index.repos.len() {
        IndexView {
            cache_dir: index.cache_dir,
            repos: index.repos.update(id, with_lock(index.repos[id], false)),
        }
    } else {
        index
    }
}

/// `lookup` finds the first mirror at `local`, and only fails where there is
/// none.
pub proof fn lemma_lookup(repos: Seq<RepoView>, local: Seq<u8>)
    ensures
        match lookup(repos, local) {
            Some(id) => 0 <= id < repos.len() && repos[id].local == local && forall|j: int|
                0 <= j < id ==> repos[j].local != local,
            None => forall|j: int| 0 <= j < repos.len() ==> repos[j].local != local,
        },
    decreases repos.len(),
{
    if repos.len() > 0 {
        let front = repos.drop_last();
        lemma_lookup(front, local);
        assert forall|j: int| 0 <= j < front.len() implies front[j] == repos[j] by {}
        match lookup(front, local) {
            Some(id) => {
                assert(front[id] == repos[id]);
            },
            None => {
                assert forall|j: int| 0 <= j < repos.len() - 1 implies repos[j].local
                    != local by {
                    assert(front[j] == repos[j]);
                }
            },
        }
    }
}

/// `after` has kept what `before` knew: the cache directory, every mirror
/// under its number with its upstream and its place, and the note that a
/// mirror has been made.
pub open spec fn kept(before: IndexView, after: IndexView) -> bool {
    &&& after.cache_dir == before.cache_dir
    &&& before.repos.len() <= after.repos.len()
    &&& forall|i: int|
        0 <= i < before.repos.len() ==> {
            &&& (#[trigger] after.repos[i]).upstream == before.repos[i].upstream
            &&& after.repos[i].local == before.repos[i].local
            &&& before.repos[i].ready ==> after.repos[i].ready
        }
}

/// Opening keeps an index well formed, and keeps what the index knew.
pub proof fn lemma_open_keeps(index: IndexView, upstream: UpstreamView)
    requires
        well_formed(index),
    ensures
        well_formed(opened(index, upstream).0),
        kept(index, opened(index, upstream).0),
{
    match mirror_path(index.cache_dir, upstream) {
        Some(local) => {
            lemma_lookup(index.repos, local);
        },
        None => {},
    }
}

/// Taking note of a mirror that has been made keeps an index well formed, and
/// keeps what the index knew.
pub proof fn lemma_initialized_keeps(index: IndexView, id: int)
    requires
        well_formed(index),
    ensures
        well_formed(marked(index, id)),
        kept(index, marked(index, id)),
{
}

/// What an index has kept through one change and then another, it has kept
/// through both.
pub proof fn lemma_kept_twice(first: IndexView, second: IndexView, third: IndexView)
    requires
        kept(first, second),
        kept(second, third),
    ensures
        kept(first, third),
{
    assert forall|i: int| 0 <= i < first.repos.len() implies {
        &&& (#[trigger] third.repos[i]).upstream == first.repos[i].upstream
        &&& third.repos[i].local == first.repos[i].local
        &&& first.repos[i].ready ==> third.repos[i].ready
    } by {
        assert(second.repos[i].local == first.repos[i].local);
    }
}

/// Interning: once an upstream has been opened, opening an upstream at any
/// later time names the same mirror if and only if both upstreams have their
/// mirror at the same place. Whatever is serialized by the number of the
/// mirror is so serialized for all upstreams that share the place, and for
/// no others.
pub proof fn lemma_interning(
    index: IndexView,
    first: UpstreamView,
    later: IndexView,
    second: UpstreamView,
)
    requires
        well_formed(index),
        opened(index, first).1 is Ok,
        well_formed(later),
        kept(opened(index, first).0, later),
        opened(later, second).1 is Ok,
    ensures
        opened(later, second).1->Ok_0.id == opened(index, first).1->Ok_0.id <==> mirror_path(
            later.cache_dir,
            second,
        ) == mirror_path(index.cache_dir, first),
{
    let entered = opened(index, first).0;
    let place = mirror_path(index.cache_dir, first)->0;
    let id = opened(index, first).1->Ok_0.id;
    lemma_lookup(index.repos, place);
    assert(0 <= id < entered.repos.len() && entered.repos[id].local == place);
    assert(later.repos[id].local == place);
    let other = mirror_path(later.cache_dir, second)->0;
    lemma_lookup(later.repos, other);
}

/// At most one init: once a mirror has been reported as made, no upstream
/// with its mirror at that place is ever asked to make it again.
pub proof fn lemma_init_once(
    index: IndexView,
    first: UpstreamView,
    later: IndexView,
    second: UpstreamView,
)
    requires
        well_formed(index),
        opened(index, first).1 is Ok,
        well_formed(later),
        kept(marked(opened(index, first).0, opened(index, first).1->Ok_0.id), later),
        mirror_path(later.cache_dir, second) == mirror_path(index.cache_dir, first),
    ensures
        opened(later, second) == (
            later,
            Ok::<OpenedView, ErrorView>(
                OpenedView { id: opened(index, first).1->Ok_0.id, init: None },
            ),
        ),
{
    let entered = opened(index, first).0;
    let place = mirror_path(index.cache_dir, first)->0;
    let id = opened(index, first).1->Ok_0.id;
    lemma_lookup(index.repos, place);
    assert(0 <= id < entered.repos.len() && entered.repos[id].local == place);
    let made = marked(entered, id);
    assert(made.repos[id].ready && made.repos[id].local == place);
    assert(later.repos[id].local == place && later.repos[id].ready);
    lemma_lookup(later.repos, place);
}

/// What can be done to an index.
pub enum Change {
    /// `open` with this upstream.
    Open(UpstreamView),
    /// `initialized` with this number.
    Initialized(int),
    /// `try_lock` with this number.
    TryLock(int),
    /// `unlock` with this number.
    Unlock(int),
}

/// The index after one change.
pub open spec fn changed(index: IndexView, change: Change) -> IndexView {
    match change {
        Change::Open(upstream) => opened(index, upstream).0,
        Change::Initialized(id) => marked(index, id),
        Change::TryLock(id) => locked(index, id).0,
        Change::Unlock(id) => unlocked(index, id),
    }
}

/// The index after a run of changes, in order.
pub open spec fn changed_by(index: IndexView, changes: Seq<Change>) -> IndexView
    decreases changes.len(),
{
    if changes.len() == 0 {
        index
    } else {
        changed(changed_by(index, changes.drop_last()), changes.last())
    }
}

/// Whatever is done to an index, it stays well formed and keeps what it
/// knew: no mirror is ever dropped, moved or given another number.
pub proof fn lemma_changes_keep(index: IndexView, changes: Seq<Change>)
    requires
        well_formed(index),
    ensures
        well_formed(changed_by(index, changes)),
        kept(index, changed_by(index, changes)),
    decreases changes.len(),
{
    if changes.len() > 0 {
        let before = changed_by(index, changes.drop_last());
        lemma_changes_keep(index, changes.drop_last());
        match changes.last() {
            Change::Open(upstream) => {
                lemma_open_keeps(before, upstream);
            },
            Change::Initialized(id) => {
                lemma_initialized_keeps(before, id);
            },
            Change::TryLock(id) => {},
            Change::Unlock(id) => {},
        }
        lemma_kept_twice(index, before, changed_by(index, changes));
    }
}

/// Exclusion: from the moment the lock of a mirror is taken until it is
/// given back, nobody else takes it, whatever else is done to the index in
/// between.
pub proof fn lemma_lock_excludes(index: IndexView, id: int, changes: Seq<Change>)
    requires
        well_formed(index),
        locked(index, id).1,
        forall|k: int| 0 <= k < changes.len() ==> changes[k] != Change::Unlock(id),
    ensures
        !locked(changed_by(locked(index, id).0, changes), id).1,
    decreases changes.len(),
{
    let taken = locked(index, id).0;
    let later = changed_by(taken, changes);
    assert(0 <= id < later.repos.len() && later.repos[id].busy) by {
        lemma_lock_held(index, id, changes);
    }
}

/// A lock that was taken is held until it is given back.
pub proof fn lemma_lock_held(index: IndexView, id: int, changes: Seq<Change>)
    requires
        well_formed(index),
        locked(index, id).1,
        forall|k: int| 0 <= k < changes.len() ==> changes[k] != Change::Unlock(id),
    ensures
        0 <= id < changed_by(locked(index, id).0, changes).repos.len(),
        changed_by(locked(index, id).0, changes).repos[id].busy,
    decreases changes.len(),
{
    let taken = locked(index, id).0;
    if changes.len() > 0 {
        let front = changes.drop_last();
        assert forall|k: int| 0 <= k < front.len() implies front[k] != Change::Unlock(id) by {
            assert(front[k] == changes[k]);
        }
        lemma_lock_held(index, id, front);
        let before = changed_by(taken, front);
        assert(changes[changes.len() - 1] != Change::Unlock(id));
        match changes.last() {
            Change::Open(upstream) => {},
            Change::Initialized(other) => {},
            Change::TryLock(other) => {},
            Change::Unlock(other) => {
                assert(other != id);
            },
        }
    }
}

/// Independence: whether the lock of one mirror can be taken does not depend
/// on whether the lock of another has been taken or given back.
pub proof fn lemma_locks_independent(index: IndexView, id: int, other: int)
    requires
        id != other,
    ensures
        locked(locked(index, id).0, other).1 == locked(index, other).1,
        locked(unlocked(index, id), other).1 == locked(index, other).1,
{
}

/// A lock that was given back can be taken.
pub proof fn lemma_unlock_frees(index: IndexView, id: int)
    requires
        0 <= id < index.repos.len(),
    ensures
        locked(unlocked(index, id), id).1,
{
}

/// An upstream without a mirror's place is not found, and opening it
/// changes nothing and asks for nothing to be made.
pub proof fn lemma_unsafe_upstream_is_not_found(index: IndexView, upstream: UpstreamView)
    requires
        mirror_path(index.cache_dir, upstream) is None,
    ensures
        opened(index, upstream) == (index, Err::<OpenedView, ErrorView>(ErrorView::NotFound)),
{
}

impl View for Index {
    type V = IndexView;

    closed spec fn view(&self) -> IndexView {
        IndexView { cache_dir: self.cache_dir@, repos: repo_views(self.repos@) }
    }
}

impl Index {
    /// Every index is well formed, at all times.
    #[verifier::type_invariant]
    spec fn inv(self) -> bool {
        well_formed(self@)
    }

    /// An index without mirrors for the cache directory `cache_dir`.
    pub fn new(cache_dir: Vec<u8>, git: Git) -> (r: Index)
        ensures
            well_formed(r@),
            r@.cache_dir == cache_dir@,
            r@.repos.len() == 0,
    {
        Index { git, cache_dir, repos: Vec::new() }
    }

    /// The cache directory.
    pub fn cache_dir(&self) -> (r: &[u8])
        ensures
            r@ == self@.cache_dir,
    {
        self.cache_dir.as_slice()
    }

    /// How many mirrors the index knows.
    pub fn len(&self) -> (r: usize)
        ensures
            r == self@.repos.len(),
    {
        self.repos.len()
    }

    /// The mirror with the number `id`.
    pub fn repo(&self, id: usize) -> (r: Option<&Repo>)
        ensures
            match r {
                Some(repo) => id < self@.repos.len() && repo@ == self@.repos[id as int],
                None => id >= self@.repos.len(),
            },
    {
        if id < self.repos.len() {
            Some(&self.repos[id])
        } else {
            None
        }
    }

    fn find(&self, local: &[u8]) -> (r: Option<usize>)
        ensures
            match r {
                Some(id) => lookup(self@.repos, local@) == Some(id as int) && id
                    < self.repos@.len(),
                None => lookup(self@.repos, local@) is None,
            },
    {
        let ghost views = repo_views(self.repos@);
        let mut k: usize = 0;
        while k < self.repos.len()
            invariant
                k <= self.repos.len(),
                views == repo_views(self.repos@),
                lookup(views.take(k as int), local@) is None,
            decreases self.repos.len() - k,
        {
            proof {
                assert(views.take(k + 1).drop_last() =~= views.take(k as int));
                assert(views.take(k + 1).last() == self.repos@[k as int]@);
            }
            if equal(self.repos[k].local.as_slice(), local) {
                proof {
                    lemma_lookup_extends(views, local@, k + 1);
                }
                return Some(k);
            }
            k = k + 1;
        }
        proof {
            assert(views.take(self.repos.len() as int) =~= views);
        }
        None
    }

    /// Puts `repo` in the place of the mirror `id`, which differs from it at
    /// most in what has been noted of it.
    fn put(&mut self, id: usize, repo: Repo)
        requires
            id < old(self)@.repos.len(),
            repo@.upstream == old(self)@.repos[id as int].upstream,
            repo@.local == old(self)@.repos[id as int].local,
        ensures
            final(self)@ == (IndexView {
                cache_dir: old(self)@.cache_dir,
                repos: old(self)@.repos.update(id as int, repo@),
            }),
    {
        proof {
            use_type_invariant(&*self);
        }
        let mut repos: Vec<Repo> = Vec::new();
        std::mem::swap(&mut repos, &mut self.repos);
        repos.set(id, repo);
        proof {
            let before = old(self)@;
            let after = before.repos.update(id as int, repo@);
            assert(repo_views(repos@) =~= after);
            assert(well_formed(IndexView { cache_dir: before.cache_dir, repos: after }));
        }
        self.repos = repos;
    }

    /// Opens `upstream`: names its mirror, enters it on first use, and says
    /// whether the repository is still to be made on disk. An upstream
    /// without a host, or whose host or path holds anything but plain names,
    /// is not found, and nothing is entered or to be made for it.
    pub fn open(&mut self, upstream: &Upstream) -> (r: Result<Opened, Error>)
        ensures
            well_formed(final(self)@),
            (final(self)@, opened_view(r)) == opened(old(self)@, upstream@),
    {
        proof {
            use_type_invariant(&*self);
        }
        let local = match upstream.local_path(self.cache_dir.as_slice()) {
            Some(local) => local,
            None => {
                return Err(Error::NotFound);
            },
        };
        proof {
            lemma_lookup(self@.repos, local@);
        }
        match self.find(local.as_slice()) {
            Some(id) => {
                let init = if self.repos[id].ready {
                    None
                } else {
                    Some(self.git.init(local.as_slice()))
                };
                Ok(Opened { id, init })
            },
            None => {
                let host = match &upstream.authority {
                    Some(bytes) => slice_to_vec(bytes.as_slice()),
                    None => Vec::new(),
                };
                let id = self.repos.len();
                let init = self.git.init(local.as_slice());
                let repo = Repo {
                    git: self.git,
                    host,
                    path: slice_to_vec(upstream.path.as_slice()),
                    local,
                    ready: false,
                    busy: false,
                };
                let mut repos: Vec<Repo> = Vec::new();
                std::mem::swap(&mut repos, &mut self.repos);
                repos.push(repo);
                proof {
                    let before = old(self)@;
                    let entry = RepoView {
                        upstream: upstream@,
                        local: local@,
                        ready: false,
                        busy: false,
                    };
                    assert(repo@ == entry);
                    assert(repo_views(repos@) =~= before.repos.push(entry));
                    lemma_open_keeps(before, upstream@);
                }
                self.repos = repos;
                Ok(Opened { id, init: Some(init) })
            },
        }
    }

    /// Takes note that the repository of the mirror `id` has been made on
    /// disk. A number that names no mirror changes nothing.
    pub fn initialized(&mut self, id: usize)
        ensures
            well_formed(final(self)@),
            final(self)@ == marked(old(self)@, id as int),
    {
        proof {
            use_type_invariant(&*self);
        }
        if id < self.repos.len() {
            let mut repo = self.repos[id].copy();
            repo.ready = true;
            self.put(id, repo);
        }
    }

    /// Tries to take the lock of the mirror `id`, and says whether it did.
    /// The lock of a mirror is taken by one caller at a time; who did not get
    /// it tries again after an `unlock`.
    pub fn try_lock(&mut self, id: usize) -> (r: bool)
        ensures
            well_formed(final(self)@),
            (final(self)@, r) == locked(old(self)@, id as int),
    {
        proof {
            use_type_invariant(&*self);
        }
        if id < self.repos.len() && !self.repos[id].busy {
            let mut repo = self.repos[id].copy();
            repo.busy = true;
            self.put(id, repo);
            true
        } else {
            false
        }
    }

    /// Gives the lock of the mirror `id` back. A number that names no mirror
    /// changes nothing.
    pub fn unlock(&mut self, id: usize)
        ensures
            well_formed(final(self)@),
            final(self)@ == unlocked(old(self)@, id as int),
    {
        proof {
            use_type_invariant(&*self);
        }
        if id < self.repos.len() {
            let mut repo = self.repos[id].copy();
            repo.busy = false;
            self.put(id, repo);
        }
    }
}

/// Once the first `n` mirrors hold one at `local`, the first mirror at
/// `local` is among them.
pub proof fn lemma_lookup_extends(repos: Seq<RepoView>, local: Seq<u8>, n: int)
    requires
        0 <= n <= repos.len(),
        lookup(repos.take(n), local) is Some,
    ensures
        lookup(repos, local) == lookup(repos.take(n), local),
    decreases repos.len() - n,
{
    if n < repos.len() {
        assert(repos.take(n + 1).drop_last() =~= repos.take(n));
        lemma_lookup_extends(repos, local, n + 1);
    } else {
        assert(repos.take(n) =~= repos);
    }
}

} // verus!
