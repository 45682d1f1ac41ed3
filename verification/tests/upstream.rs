use git_cache_http_server::upstream::{host, normal, push_child, Upstream};

fn upstream(authority: &str, path: &str) -> Upstream {
    Upstream { authority: Some(authority.as_bytes().to_vec()), path: path.as_bytes().to_vec() }
}

fn local(cache_dir: &str, authority: &str, path: &str) -> Option<String> {
    upstream(authority, path)
        .local_path(cache_dir.as_bytes())
        .map(|bytes| String::from_utf8(bytes).unwrap())
}

#[test]
fn mirror_lives_below_cache_dir() {
    assert_eq!(
        local("/var/cache/git", "example.com", "/a/b/c").as_deref(),
        Some("/var/cache/git/example.com/a/b/c.git")
    );
    assert_eq!(
        local("/var/cache/git", "example.com", "/repo").as_deref(),
        Some("/var/cache/git/example.com/repo.git")
    );
    assert_eq!(
        local("cache", "github.com", "/rust-lang/rust").as_deref(),
        Some("cache/github.com/rust-lang/rust.git")
    );
}

#[test]
fn cache_dir_with_and_without_trailing_slash() {
    assert_eq!(local("/tmp/", "h", "/r").as_deref(), Some("/tmp/h/r.git"));
    assert_eq!(local("/tmp", "h", "/r").as_deref(), Some("/tmp/h/r.git"));
    assert_eq!(local("/", "h", "/r").as_deref(), Some("/h/r.git"));
    assert_eq!(local("", "h", "/r").as_deref(), Some("h/r.git"));
}

#[test]
fn git_suffix_is_not_doubled() {
    assert_eq!(
        local("/c", "example.com", "/a/b/c.git").as_deref(),
        Some("/c/example.com/a/b/c.git")
    );
    assert_eq!(
        local("/c", "example.com", "/a/b/c"),
        local("/c", "example.com", "/a/b/c.git")
    );
    assert_eq!(
        local("/c", "example.com", "/X/Y/Z.git").as_deref(),
        Some("/c/example.com/X/Y/Z.git")
    );
}

#[test]
fn git_suffix_is_appended_to_other_names() {
    assert_eq!(local("/c", "h", "/a.b").as_deref(), Some("/c/h/a.b.git"));
    assert_eq!(local("/c", "h", "/a.tar.gz").as_deref(), Some("/c/h/a.tar.gz.git"));
    assert_eq!(local("/c", "h", "/.git").as_deref(), Some("/c/h/.git.git"));
    assert_eq!(local("/c", "h", "/git").as_deref(), Some("/c/h/git.git"));
    assert_eq!(local("/c", "h", "/a.GIT").as_deref(), Some("/c/h/a.GIT.git"));
    assert_eq!(local("/c", "h", "/a.git.git").as_deref(), Some("/c/h/a.git.git"));
    assert_eq!(local("/c", "h", "/a.git/b").as_deref(), Some("/c/h/a.git/b.git"));
    assert_eq!(local("/c", "h", "/...").as_deref(), Some("/c/h/....git"));
    assert_eq!(local("/c", "h", "/..a").as_deref(), Some("/c/h/..a.git"));
}

#[test]
fn path_must_be_plain_names() {
    for path in [
        "",
        "/",
        "a/b",
        "//a/b",
        "/a//b",
        "/a/b/",
        "/../a/b",
        "/a/../b",
        "/a/b/..",
        "/./a/b.git",
        "/a/./b",
        "/a/b/.",
        "/.",
        "/..",
        "//",
    ] {
        assert_eq!(local("/c", "example.com", path), None, "{path:?}");
    }
}

#[test]
fn authority_must_be_a_host() {
    for authority in [
        "",
        ".",
        "..",
        "a/b",
        "/",
        "example.com:8443",
        "user@example.com",
        "user:secret@example.com",
        "[::1]",
        ":",
        "@",
    ] {
        assert_eq!(local("/c", authority, "/a/b"), None, "{authority:?}");
    }
    let without = Upstream { authority: None, path: b"/a/b".to_vec() };
    assert_eq!(without.local_path(b"/c"), None);
}

#[test]
fn names_that_only_look_odd() {
    assert_eq!(local("/c", "example.com", "/.a/b").as_deref(), Some("/c/example.com/.a/b.git"));
    assert_eq!(local("/c", "example.com", "/a../b").as_deref(), Some("/c/example.com/a../b.git"));
    assert_eq!(local("/c", ".example", "/a").as_deref(), Some("/c/.example/a.git"));
    assert_eq!(local("/c", "127.0.0.1", "/a").as_deref(), Some("/c/127.0.0.1/a.git"));
}

#[test]
fn plain_names() {
    assert!(normal(b"a"));
    assert!(normal(b"..."));
    assert!(normal(b".a"));
    assert!(normal(b"a.git"));
    assert!(!normal(b""));
    assert!(!normal(b"."));
    assert!(!normal(b".."));
    assert!(!normal(b"a/b"));
    assert!(!normal(b"/"));
    assert!(host(b"example.com"));
    assert!(!host(b"example.com:80"));
    assert!(!host(b"git@example.com"));
    assert!(!host(b".."));
}

#[test]
fn push_child_joins_with_one_slash() {
    let mut dir = b"/a".to_vec();
    push_child(&mut dir, b"b");
    assert_eq!(dir, b"/a/b");
    let mut dir = b"/a/".to_vec();
    push_child(&mut dir, b"b");
    assert_eq!(dir, b"/a/b");
    let mut dir = Vec::new();
    push_child(&mut dir, b"b");
    assert_eq!(dir, b"b");
}

#[test]
fn upstream_copy_is_equal() {
    let one = upstream("example.com", "/a/b");
    assert_eq!(one.copy(), one);
    let none = Upstream { authority: None, path: b"/".to_vec() };
    assert_eq!(none.copy(), none);
}

#[test]
fn parse_reads_authority_and_path() {
    assert_eq!(
        Upstream::parse(b"https://example.com/a/b/c"),
        Some(upstream("example.com", "/a/b/c"))
    );
    assert_eq!(Upstream::parse(b"https://example.com"), Some(upstream("example.com", "/")));
    assert_eq!(
        Upstream::parse(b"https://example.com//a/b"),
        Some(upstream("example.com", "//a/b"))
    );
    assert_eq!(
        Upstream::parse(b"https://example.com/a/../b?x=y"),
        Some(upstream("example.com", "/a/../b"))
    );
    assert_eq!(
        Upstream::parse(b"https://user@example.com:8443/a"),
        Some(upstream("user@example.com:8443", "/a"))
    );
    assert_eq!(Upstream::parse(b"http://example.com/a"), Some(upstream("example.com", "/a")));
    assert_eq!(
        Upstream::parse(b"/a/b"),
        Some(Upstream { authority: None, path: b"/a/b".to_vec() })
    );
}

#[test]
fn parse_refuses_what_is_no_uri() {
    for text in ["", "https://", "https:/", "https://exa mple.com/a", "https://example.com/a b"] {
        assert_eq!(Upstream::parse(text.as_bytes()), None, "{text:?}");
    }
}

#[test]
fn upstream_without_host_or_path_has_no_mirror() {
    for url in ["/a/b", "https://example.com", "https://example.com/", "example.com"] {
        let upstream = Upstream::parse(url.as_bytes()).unwrap();
        assert_eq!(upstream.local_path(b"/cache"), None, "{url}");
    }
}
