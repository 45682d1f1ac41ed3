//! The rules of a caching proxy for Git's smart HTTP transport.
//!
//! A client names an upstream repository by putting its URL in the request
//! path. The proxy keeps one bare mirror per upstream below a cache directory,
//! asks the upstream whether the client may read, refreshes the mirror and
//! answers from it. This crate holds what the proxy decides: where a mirror
//! lives, which request is which, what the helpers are run with, what the
//! upstream's answer means and what goes back to the client. Reading sockets
//! and running processes is left to the caller.
//!
//! A request goes this way:
//!
//! 1. [`server::route`] tells the endpoint and the upstream.
//! 2. [`repo::Index::open`] names the mirror. On first use the caller makes
//!    the repository on disk and reports it with
//!    [`repo::Index::initialized`].
//! 3. The caller takes the lock of the mirror with
//!    [`repo::Index::try_lock`], waiting where it is held.
//! 4. A [`server::Exchange`] leads through the request, one
//!    [`server::Action`] after the other, until it says what the client is
//!    answered.
//! 5. The caller gives the lock back with [`repo::Index::unlock`].
//!
//! Every function states what it returns in terms of the functions marked
//! `spec`, and the laws that the proxy rests on are proved beside them: that
//! no request reaches outside the cache directory
//! ([`upstream::lemma_mirror_below_cache_dir`]), that upstreams with the same
//! mirror share one number and one lock ([`repo::lemma_interning`],
//! [`repo::lemma_lock_excludes`]), that a repository is made once
//! ([`repo::lemma_init_once`]), and that what is written for the wire is read
//! back as it was meant ([`pktline::lemma_round_trip`]).

pub mod bytes;
pub mod error;
pub mod git;
pub mod pktline;
pub mod repo;
pub mod server;
pub mod upstream;
