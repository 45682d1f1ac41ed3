//! Upstream repositories and the place of their mirrors on disk.
//!
//! A client names an upstream by its URL without the scheme, which is always
//! `https`. The mirror of `https://<host>/<a>/<b>` lives at
//! `<cache_dir>/<host>/<a>/<b>.git`. Only a host and path segments that are
//! plain names get a mirror at all: this is what keeps a request from
//! reaching outside the cache directory.

use crate::bytes::{bytes_of, copy_of, ends_with, find, has_prefix, has_suffix, joined, pieces};
use crate::bytes::{lemma_joined_pieces, lemma_pieces_join, lemma_pieces_nonempty};
use crate::bytes::{lemma_pieces_of_one, lemma_position, split};
use crate::bytes::{views, AT, COLON, DOT, SLASH};
use axum::http::Uri;
use vstd::prelude::*;
use vstd::slice::{slice_subrange, slice_to_vec};
use vstd::string::StringSliceAdditionalSpecFns;

verus! {

/// The parts of an upstream's URL that the proxy reads. The scheme is not
/// among them: it is `https` for every upstream.
#[derive(Clone, Debug, PartialEq, Eq)]
pub struct Upstream {
    /// What stands between `//` and the path, where the URL has it.
    pub authority: Option<Vec<u8>>,
    /// The path, which begins with `/` in every URL that has an authority.
    pub path: Vec<u8>,
}

/// An `Upstream` as contracts see it.
pub struct UpstreamView {
    /// What stands between `//` and the path, where the URL has it.
    pub authority: Option<Seq<u8>>,
    /// The path.
    pub path: Seq<u8>,
}

impl View for Upstream {
    type V = UpstreamView;

    open spec fn view(&self) -> UpstreamView {
        UpstreamView { authority: bytes_of(self.authority), path: self.path@ }
    }
}

/// The view of an optional upstream.
pub open spec fn upstream_of(v: Option<Upstream>) -> Option<UpstreamView> {
    match v {
        Some(upstream) => Some(upstream@),
        None => None,
    }
}

/// The authority and the path of the URI that `text` spells, as the `http`
/// crate reads it, or `None` where it refuses `text`.
pub uninterp spec fn uri_parts(text: Seq<u8>) -> Option<UpstreamView>;

/// Parses `text` with `Uri::try_from` of the `http` crate (which `axum`
/// hands on) and copies out what `Uri::authority` and `Uri::path` return. The
/// contract only names the outcome: it is a function of `text` alone.
#[verifier::external_body]
fn split_uri(text: &[u8]) -> (r: Option<Upstream>)
    ensures
        upstream_of(r) == uri_parts(text@),
{
    let uri = Uri::try_from(text).ok()?;
    let authority = uri.authority().map(|a| a.as_str().as_bytes().to_vec());
    Some(Upstream { authority, path: uri.path().as_bytes().to_vec() })
}

/// A plain file name: not empty, without `/`, and neither `.` nor `..`.
pub open spec fn is_normal(name: Seq<u8>) -> bool {
    &&& name.len() > 0
    &&& !name.contains(SLASH)
    &&& !(name.len() == 1 && name[0] == DOT)
    &&& !(name.len() == 2 && name[0] == DOT && name[1] == DOT)
}

/// An authority that is a host and nothing else: a plain name that holds
/// neither the `:` of a port or password nor the `@` of user information.
pub open spec fn is_host(authority: Seq<u8>) -> bool {
    is_normal(authority) && !authority.contains(COLON) && !authority.contains(AT)
}

/// Every name of the list is a plain file name.
pub open spec fn all_normal(names: Seq<Seq<u8>>) -> bool {
    forall|k: int| 0 <= k < names.len() ==> is_normal(#[trigger] names[k])
}

/// The segments of a path: what stands between its slashes, after the one it
/// begins with. A path that does not begin with `/` has none.
pub open spec fn segments(path: Seq<u8>) -> Option<Seq<Seq<u8>>> {
    if path.len() > 0 && path[0] == SLASH {
        Some(pieces(path.skip(1), SLASH))
    } else {
        None
    }
}

/// `.git`, which ends the name of every mirror.
pub open spec fn git_suffix() -> Seq<u8> {
    ".git".spec_bytes()
}

/// The name of the mirror for an upstream whose last segment is `last`:
/// `.git` is appended unless a longer name already ends in it.
pub open spec fn mirror_name(last: Seq<u8>) -> Seq<u8> {
    if has_suffix(last, git_suffix()) && last.len() > git_suffix().len() {
        last
    } else {
        last + git_suffix()
    }
}

/// The file `name` in the directory `dir`.
pub open spec fn child(dir: Seq<u8>, name: Seq<u8>) -> Seq<u8> {
    if dir.len() == 0 || dir.last() == SLASH {
        dir + name
    } else {
        dir + seq![SLASH] + name
    }
}

/// The file reached from `dir` by going down through `names` in order.
pub open spec fn descend(dir: Seq<u8>, names: Seq<Seq<u8>>) -> Seq<u8>
    decreases names.len(),
{
    if names.len() == 0 {
        dir
    } else {
        child(descend(dir, names.drop_last()), names.last())
    }
}

/// The names that lead from the cache directory to the mirror of an
/// upstream: the host, the segments of the path but the last, and the
/// mirror's own name. `None` where the upstream gets no mirror.
pub open spec fn mirror_names(upstream: UpstreamView) -> Option<Seq<Seq<u8>>> {
    match (upstream.authority, segments(upstream.path)) {
        (Some(host), Some(names)) => if is_host(host) && all_normal(names) {
            Some(seq![host] + names.drop_last().push(mirror_name(names.last())))
        } else {
            None
        },
        _ => None,
    }
}

/// Where the mirror of `upstream` lives below `cache_dir`, or `None` where the
/// upstream has no host, or its host or a segment of its path is not a plain
/// name.
pub open spec fn mirror_path(cache_dir: Seq<u8>, upstream: UpstreamView) -> Option<Seq<u8>> {
    match mirror_names(upstream) {
        Some(names) => Some(descend(cache_dir, names)),
        None => None,
    }
}

/// The URL of an upstream with the host `host` and the path `path`.
pub open spec fn upstream_url(host: Seq<u8>, path: Seq<u8>) -> Seq<u8> {
    "https://".spec_bytes() + host + path
}

/// `.git` is the four bytes `2e 67 69 74`.
pub proof fn lemma_git_suffix()
    ensures
        git_suffix() == seq![0x2eu8, 0x67u8, 0x69u8, 0x74u8],
{
    reveal_strlit(".git");
    vstd::string::is_ascii_spec_bytes(".git");
    assert(vstd::string::is_ascii(".git"));
    assert(git_suffix() =~= seq![0x2eu8, 0x67u8, 0x69u8, 0x74u8]);
}

/// The name of a mirror is a plain name where the last segment of the path
/// is one.
pub proof fn lemma_mirror_name_is_normal(last: Seq<u8>)
    requires
        is_normal(last),
    ensures
        is_normal(mirror_name(last)),
{
    lemma_git_suffix();
    let name = mirror_name(last);
    if name != last {
        assert(name == last + git_suffix());
        assert(name.len() == last.len() + 4);
        if name.contains(SLASH) {
            let j = choose|j: int| 0 <= j < name.len() && name[j] == SLASH;
            if j < last.len() {
                assert(last[j] == SLASH);
            } else {
                assert(name[j] == git_suffix()[j - last.len()]);
            }
        }
    }
}

/// A list of plain names joined by slashes neither is empty nor ends in a
/// slash.
pub proof fn lemma_joined_ends_in_name(names: Seq<Seq<u8>>)
    requires
        names.len() >= 1,
        all_normal(names),
    ensures
        joined(names, SLASH).len() > 0,
        joined(names, SLASH).last() != SLASH,
{
    let last = names[names.len() - 1];
    assert(is_normal(last));
    assert(last[last.len() - 1] != SLASH);
    if names.len() > 1 {
        assert(joined(names, SLASH).last() == last.last());
    }
}

/// Going down through plain names one by one reaches the file whose path
/// below the directory is the names joined by slashes.
pub proof fn lemma_descend_joined(dir: Seq<u8>, names: Seq<Seq<u8>>)
    requires
        names.len() >= 1,
        all_normal(names),
    ensures
        descend(dir, names) == child(dir, joined(names, SLASH)),
    decreases names.len(),
{
    if names.len() == 1 {
        assert(names.drop_last() =~= Seq::<Seq<u8>>::empty());
        reveal_with_fuel(descend, 2);
    } else {
        let front = names.drop_last();
        assert forall|k: int| 0 <= k < front.len() implies is_normal(#[trigger] front[k]) by {
            assert(front[k] == names[k]);
        }
        lemma_descend_joined(dir, front);
        lemma_joined_ends_in_name(front);
        let above = child(dir, joined(front, SLASH));
        assert(above.len() > 0 && above.last() != SLASH) by {
            assert(above.last() == joined(front, SLASH).last());
        }
        assert(child(above, names.last()) =~= child(dir, joined(names, SLASH)));
    }
}

/// A mirror lives below the cache directory: the way from the cache
/// directory to the mirror leads through the host and at least one more
/// name, each of them a plain name, so that no step leaves the directory it
/// starts in.
pub proof fn lemma_mirror_below_cache_dir(cache_dir: Seq<u8>, upstream: UpstreamView)
    requires
        mirror_path(cache_dir, upstream) is Some,
    ensures
        ({
            let names = mirror_names(upstream)->0;
            &&& names.len() >= 2
            &&& all_normal(names)
            &&& pieces(joined(names, SLASH), SLASH) == names
            &&& mirror_path(cache_dir, upstream) == Some(child(cache_dir, joined(names, SLASH)))
            &&& has_prefix(child(cache_dir, joined(names, SLASH)), cache_dir)
        }),
{
    let host = upstream.authority->0;
    let cut = segments(upstream.path)->0;
    let names = mirror_names(upstream)->0;
    lemma_pieces_nonempty(upstream.path.skip(1), SLASH);
    assert(is_normal(cut[cut.len() - 1]));
    lemma_mirror_name_is_normal(cut.last());
    assert forall|k: int| 0 <= k < names.len() implies is_normal(#[trigger] names[k]) by {
        if k == 0 {
        } else if k < names.len() - 1 {
            assert(names[k] == cut[k - 1]);
        } else {
            assert(names[k] == mirror_name(cut.last()));
        }
    }
    assert forall|k: int| 0 <= k < names.len() implies !(#[trigger] names[k]).contains(SLASH) by {
        assert(is_normal(names[k]));
    }
    lemma_joined_pieces(names, SLASH);
    lemma_descend_joined(cache_dir, names);
    let below = child(cache_dir, joined(names, SLASH));
    assert(below.take(cache_dir.len() as int) =~= cache_dir);
}

/// A path with a segment that is no plain name has no mirror: whether the
/// segment `name` stands between two slashes or ends the path, and whether it
/// is empty (as between the slashes of `//`), `.` or `..`.
pub proof fn lemma_unsafe_path_has_no_mirror(
    cache_dir: Seq<u8>,
    upstream: UpstreamView,
    before: Seq<u8>,
    name: Seq<u8>,
    after: Seq<u8>,
)
    requires
        !name.contains(SLASH),
        !is_normal(name),
        upstream.path == before + seq![SLASH] + name + seq![SLASH] + after || upstream.path
            == before + seq![SLASH] + name,
    ensures
        mirror_path(cache_dir, upstream) is None,
{
    let path = upstream.path;
    if path[0] == SLASH {
        let tail = if path == before + seq![SLASH] + name {
            name
        } else {
            name + seq![SLASH] + after
        };
        assert(pieces(tail, SLASH)[0] == name) by {
            lemma_pieces_of_one(name, SLASH);
            if tail != name {
                lemma_pieces_join(name, after, SLASH);
            }
        }
        assert(path =~= before + seq![SLASH] + tail);
        let rest = path.skip(1);
        let found = if before.len() == 0 {
            0int
        } else {
            pieces(before.skip(1), SLASH).len() as int
        };
        assert(0 <= found < pieces(rest, SLASH).len() && pieces(rest, SLASH)[found] == name) by {
            lemma_pieces_nonempty(tail, SLASH);
            if before.len() == 0 {
                assert(rest =~= tail);
            } else {
                assert(rest =~= before.skip(1) + seq![SLASH] + tail);
                lemma_pieces_join(before.skip(1), tail, SLASH);
            }
        }
        assert(!all_normal(pieces(rest, SLASH)));
    }
}

/// An upstream without a host has no mirror, nor has one whose authority is
/// empty, `.` or `..`, or holds a `/`, a `:` or an `@`.
pub proof fn lemma_unsafe_host_has_no_mirror(cache_dir: Seq<u8>, upstream: UpstreamView)
    requires
        match upstream.authority {
            Some(authority) => !is_normal(authority) || authority.contains(COLON)
                || authority.contains(AT),
            None => true,
        },
    ensures
        mirror_path(cache_dir, upstream) is None,
{
}

/// Whether `s` holds `byte`.
pub fn holds(s: &[u8], byte: u8) -> (r: bool)
    ensures
        r == s@.contains(byte),
{
    proof {
        lemma_position(s@, byte);
    }
    find(s, byte).is_some()
}

/// Whether `name` is a plain file name.
pub fn normal(name: &[u8]) -> (r: bool)
    ensures
        r == is_normal(name@),
{
    if name.len() == 0 || holds(name, SLASH) {
        return false;
    }
    if name.len() == 1 && name[0] == DOT {
        return false;
    }
    if name.len() == 2 && name[0] == DOT && name[1] == DOT {
        return false;
    }
    true
}

/// Whether `authority` is a host and nothing else.
pub fn host(authority: &[u8]) -> (r: bool)
    ensures
        r == is_host(authority@),
{
    normal(authority) && !holds(authority, COLON) && !holds(authority, AT)
}

/// Goes down from `dir` to its file `name`.
pub fn push_child(dir: &mut Vec<u8>, name: &[u8])
    ensures
        final(dir)@ == child(old(dir)@, name@),
{
    let n: usize = dir.len();
    if n > 0 && dir[n - 1] != SLASH {
        dir.push(SLASH);
    }
    dir.extend_from_slice(name);
    proof {
        assert(final(dir)@ =~= child(old(dir)@, name@));
    }
}

fn every_normal(names: &Vec<&[u8]>) -> (r: bool)
    ensures
        r == all_normal(views(names@)),
{
    let mut k: usize = 0;
    while k < names.len()
        invariant
            k <= names.len(),
            forall|j: int| 0 <= j < k ==> is_normal(#[trigger] views(names@)[j]),
        decreases names.len() - k,
    {
        if !normal(names[k]) {
            proof {
                assert(views(names@)[k as int] == names@[k as int]@);
            }
            return false;
        }
        proof {
            assert(views(names@)[k as int] == names@[k as int]@);
        }
        k = k + 1;
    }
    true
}

impl Upstream {
    /// The upstream that the URI `text` names, or `None` where `text` is no
    /// URI. What the scheme of the URI is does not matter.
    pub fn parse(text: &[u8]) -> (r: Option<Upstream>)
        ensures
            upstream_of(r) == uri_parts(text@),
    {
        split_uri(text)
    }

    /// A copy of this upstream.
    pub fn copy(&self) -> (r: Upstream)
        ensures
            r@ == self@,
    {
        Upstream { authority: copy_of(&self.authority), path: slice_to_vec(self.path.as_slice()) }
    }

    /// Where the mirror of this upstream lives below `cache_dir`. There is
    /// none where the upstream has no host, where its authority is more than
    /// a host, or where the host or a segment of the path is empty, `.`, `..`
    /// or holds a `/`.
    pub fn local_path(&self, cache_dir: &[u8]) -> (r: Option<Vec<u8>>)
        ensures
            bytes_of(r) == mirror_path(cache_dir@, self@),
    {
        let authority = match &self.authority {
            Some(bytes) => bytes.as_slice(),
            None => {
                return None;
            },
        };
        let path = self.path.as_slice();
        if path.len() == 0 || path[0] != SLASH {
            return None;
        }
        let names = split(slice_subrange(path, 1, path.len()), SLASH);
        if !host(authority) || !every_normal(&names) {
            return None;
        }
        proof {
            lemma_pieces_nonempty(path@.skip(1), SLASH);
        }
        let ghost all = views(names@);
        let ghost wanted = seq![authority@] + all.drop_last().push(mirror_name(all.last()));
        let mut local = slice_to_vec(cache_dir);
        push_child(&mut local, authority);
        proof {
            assert(wanted.take(1) =~= seq![authority@]);
            assert(wanted.take(1).drop_last() =~= Seq::<Seq<u8>>::empty());
            reveal_with_fuel(descend, 2);
        }
        let last: usize = names.len() - 1;
        let mut k: usize = 0;
        while k < last
            invariant
                k <= last,
                last + 1 == names.len(),
                all == views(names@),
                wanted == seq![authority@] + all.drop_last().push(mirror_name(all.last())),
                local@ == descend(cache_dir@, wanted.take(k + 1)),
            decreases last - k,
        {
            push_child(&mut local, names[k]);
            proof {
                assert(wanted.take(k + 2).drop_last() =~= wanted.take(k + 1));
                assert(wanted.take(k + 2).last() == names@[k as int]@);
            }
            k = k + 1;
        }
        let name = names[last];
        let suffix = ".git".as_bytes();
        push_child(&mut local, name);
        if !(ends_with(name, suffix) && name.len() > suffix.len()) {
            local.extend_from_slice(suffix);
        }
        proof {
            assert(wanted.take(last + 2) =~= wanted);
            assert(wanted.drop_last() =~= wanted.take(last + 1));
            assert(wanted.last() == mirror_name(name@));
            assert(local@ =~= child(descend(cache_dir@, wanted.drop_last()), mirror_name(name@)));
        }
        Some(local)
    }
}

} // verus!
