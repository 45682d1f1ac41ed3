use std::collections::HashMap;

use git_cache_http_server::error::Error;
use git_cache_http_server::git::Git;
use git_cache_http_server::pktline::{parse_smart_refs, ParseError};
use git_cache_http_server::repo::Index;
use git_cache_http_server::server::{success, Action, Event, Exchange, Service};
use git_cache_http_server::upstream::Upstream;

/// A small generator of numbers that look random and are the same in every
/// run.
struct Numbers(u64);

impl Numbers {
    fn next(&mut self, below: usize) -> usize {
        self.0 = self.0.wrapping_mul(6364136223846793005).wrapping_add(1442695040888963407);
        ((self.0 >> 33) as usize) % below
    }
}

fn upstream(authority: &str, path: &str) -> Upstream {
    Upstream { authority: Some(authority.as_bytes().to_vec()), path: path.as_bytes().to_vec() }
}

/// What a mirror is expected to be: its number, whether it has been made, and
/// whether its lock is held.
#[derive(Clone, Copy, Debug, PartialEq)]
struct Expected {
    id: usize,
    ready: bool,
    busy: bool,
}

#[test]
fn random_interleavings_of_open_and_lock() {
    let upstreams = [
        ("example.com", "/a/b/c", Some("/cache/example.com/a/b/c.git")),
        ("example.com", "/a/b/c.git", Some("/cache/example.com/a/b/c.git")),
        ("example.com", "/a/b", Some("/cache/example.com/a/b.git")),
        ("example.com", "/a/b.git", Some("/cache/example.com/a/b.git")),
        ("example.org", "/a/b/c", Some("/cache/example.org/a/b/c.git")),
        ("example.com", "/X/Y/Z.git", Some("/cache/example.com/X/Y/Z.git")),
        ("example.com", "/a/../b", None),
        ("example.com", "//a/b", None),
        ("example.com", "/./a", None),
        ("..", "/a/b", None),
        ("example.com:22", "/a/b", None),
    ];
    for seed in 0..20 {
        let mut numbers = Numbers(seed);
        let mut index = Index::new(b"/cache".to_vec(), Git::default());
        let mut expected: HashMap<&str, Expected> = HashMap::new();
        let mut inits = 0;
        for _ in 0..500 {
            match numbers.next(4) {
                0 | 1 => {
                    let (authority, path, local) = upstreams[numbers.next(upstreams.len())];
                    let opened = index.open(&upstream(authority, path));
                    match local {
                        None => assert_eq!(opened, Err(Error::NotFound)),
                        Some(local) => {
                            let opened = opened.unwrap();
                            let known = expected.len();
                            let mirror = expected.entry(local).or_insert(Expected {
                                id: known,
                                ready: false,
                                busy: false,
                            });
                            assert_eq!(opened.id, mirror.id);
                            assert_eq!(opened.init.is_some(), !mirror.ready);
                            assert_eq!(index.repo(opened.id).unwrap().local(), local.as_bytes());
                            if opened.init.is_some() && numbers.next(2) == 0 {
                                inits += 1;
                                index.initialized(opened.id);
                                mirror.ready = true;
                            }
                        }
                    }
                }
                2 => {
                    let id = numbers.next(8);
                    let taken = index.try_lock(id);
                    match expected.values_mut().find(|mirror| mirror.id == id) {
                        Some(mirror) => {
                            assert_eq!(taken, !mirror.busy);
                            mirror.busy = true;
                        }
                        None => assert!(!taken),
                    }
                }
                _ => {
                    let id = numbers.next(8);
                    index.unlock(id);
                    if let Some(mirror) = expected.values_mut().find(|mirror| mirror.id == id) {
                        mirror.busy = false;
                    }
                }
            }
            assert_eq!(index.len(), expected.len());
            for mirror in expected.values() {
                assert_eq!(index.repo(mirror.id).unwrap().ready(), mirror.ready);
            }
        }
        assert!(inits <= expected.len());
    }
}

#[test]
fn mirrors_stay_below_the_cache_dir() {
    let names = ["a", "b.git", ".git", "...", ".a", "a..", "-", "a b", "\u{fc}"];
    for host in names {
        for first in names {
            for last in names {
                let path = format!("/{first}/{last}");
                let local = upstream(host, &path).local_path(b"/cache").unwrap();
                let local = String::from_utf8(local).unwrap();
                let below = local.strip_prefix("/cache/").unwrap();
                let parts: Vec<&str> = below.split('/').collect();
                assert_eq!(parts.len(), 3);
                assert_eq!(parts[0], host);
                assert_eq!(parts[1], first);
                assert!(parts[2] == last || parts[2] == format!("{last}.git"));
                assert!(parts[2].ends_with(".git"));
                for part in parts {
                    assert!(!part.is_empty() && part != "." && part != "..");
                }
            }
        }
    }
}

#[test]
fn no_mirror_for_a_segment_that_is_no_plain_name() {
    for bad in ["", ".", ".."] {
        for before in ["", "/a", "/a/b"] {
            for after in [None, Some(""), Some("c"), Some("c/d")] {
                let path = match after {
                    Some(after) => format!("{before}/{bad}/{after}"),
                    None => format!("{before}/{bad}"),
                };
                assert_eq!(upstream("example.com", &path).local_path(b"/cache"), None, "{path}");
            }
        }
    }
}

fn pkt(payload: &[u8]) -> Vec<u8> {
    let mut line = format!("{:04x}", payload.len() + 4).into_bytes();
    line.extend_from_slice(payload);
    line
}

#[test]
fn round_trip_of_advertisements() {
    let oid = "00112233445566778899aabbccddeeffAABBCCDD";
    let targets = ["refs/heads/main", "refs/heads/master", "", "refs/heads/a=b:c"];
    let befores = ["", "multi_ack", "multi_ack thin-pack symref=refs/heads/x"];
    let afters = ["", "agent=git/2.43.0", "symref=HEAD:refs/heads/other no-done"];
    let versions = [None, Some("version 1\n"), Some("version 1"), Some("version 0\n")];
    for target in targets {
        for before in befores {
            for after in afters {
                for version in versions {
                    let mut caps = String::new();
                    for token in [before, &format!("symref=HEAD:{target}"), after] {
                        if !token.is_empty() {
                            if !caps.is_empty() {
                                caps.push(' ');
                            }
                            caps.push_str(token);
                        }
                    }
                    let mut wire = pkt(b"# service=git-upload-pack\n");
                    wire.extend_from_slice(b"0000");
                    if let Some(version) = version {
                        wire.extend_from_slice(&pkt(version.as_bytes()));
                    }
                    wire.extend_from_slice(&pkt(format!("{oid} HEAD\0{caps}\n").as_bytes()));
                    wire.extend_from_slice(b"0000");
                    assert_eq!(parse_smart_refs(&wire), Ok(Some(String::from(target))));
                }
            }
        }
    }
}

#[test]
fn version_2_is_refused_whatever_follows() {
    for rest in ["", "0000", "0014agent=git/2.43.0\n0000", "garbage"] {
        let mut wire = pkt(b"# service=git-upload-pack\n");
        wire.extend_from_slice(b"0000");
        wire.extend_from_slice(&pkt(b"version 2\n"));
        wire.extend_from_slice(rest.as_bytes());
        assert_eq!(parse_smart_refs(&wire), Err(ParseError::Version2));
    }
}

#[test]
fn the_proxy_sends_what_it_would_accept() {
    let oid = "7217a7c7e582c46cec22a130adf4b9d7d950fba0";
    let mut body = success(Service::RefDiscovery).body;
    body.extend_from_slice(&pkt(format!("{oid} HEAD\0symref=HEAD:refs/heads/main\n").as_bytes()));
    body.extend_from_slice(b"0000");
    assert_eq!(parse_smart_refs(&body), Ok(Some(String::from("refs/heads/main"))));
    let mut empty = success(Service::RefDiscovery).body;
    empty.extend_from_slice(b"0000");
    assert_eq!(parse_smart_refs(&empty), Ok(None));
}

#[test]
fn an_exchange_fetches_at_most_once() {
    for service in [Service::RefDiscovery, Service::UploadPack] {
        for seed in 0..50 {
            let mut numbers = Numbers(seed);
            let mut index = Index::new(b"/cache".to_vec(), Git::default());
            let opened = index.open(&upstream("example.com", "/a/b")).unwrap();
            let mut exchange = Exchange::new(service, index.repo(opened.id).unwrap(), None);
            let mut fetches = 0;
            let mut responses = Vec::new();
            for _ in 0..12 {
                let event = match numbers.next(6) {
                    0 => Event::Begin,
                    1 => Event::Authenticated(Ok(Some(String::from("refs/heads/main")))),
                    2 => Event::Fetched(Ok(())),
                    3 => Event::Collected(Ok(b"input".to_vec())),
                    4 => Event::Started(Ok(())),
                    _ => Event::Fetched(Err(Error::NotFound)),
                };
                match exchange.step(event) {
                    Action::Fetch(_) => fetches += 1,
                    Action::Respond(response) => responses.push(response),
                    _ => {}
                }
            }
            assert!(fetches <= 1);
            if service == Service::UploadPack {
                assert_eq!(fetches, 0);
            }
            for response in &responses {
                if response.status == 200 {
                    assert_eq!(*response, success(service));
                    assert_eq!(fetches, if service == Service::RefDiscovery { 1 } else { 0 });
                }
            }
        }
    }
}
