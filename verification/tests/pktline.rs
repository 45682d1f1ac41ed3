use git_cache_http_server::pktline::{parse_smart_refs, pkt_line, ParseError, PktLine};

const OID: &str = "7217a7c7e582c46cec22a130adf4b9d7d950fba0";

const CAPS: &str = "multi_ack thin-pack side-band side-band-64k ofs-delta shallow deepen-since \
                    deepen-not deepen-relative no-progress include-tag multi_ack_detailed \
                    allow-tip-sha1-in-want allow-reachable-sha1-in-want no-done \
                    symref=HEAD:refs/heads/master filter object-format=sha1 \
                    agent=git/github-g78b452413e8b";

fn pkt(payload: &[u8]) -> Vec<u8> {
    let mut line = format!("{:04x}", payload.len() + 4).into_bytes();
    line.extend_from_slice(payload);
    line
}

fn first_ref(oid: &str, name: &str, caps: &[u8]) -> Vec<u8> {
    let mut line = format!("{oid} {name}\0").into_bytes();
    line.extend_from_slice(caps);
    line.push(b'\n');
    line
}

fn advertisement(version: Option<&str>, lines: &[Vec<u8>]) -> Vec<u8> {
    let mut out = pkt(b"# service=git-upload-pack\n");
    out.extend_from_slice(b"0000");
    if let Some(version) = version {
        out.extend_from_slice(&pkt(version.as_bytes()));
    }
    for line in lines {
        out.extend_from_slice(&pkt(line));
    }
    out.extend_from_slice(b"0000");
    out
}

fn refs_of_a_repository() -> Vec<Vec<u8>> {
    vec![
        first_ref(OID, "HEAD", CAPS.as_bytes()),
        format!("{OID} refs/heads/master\n").into_bytes(),
        format!("{OID} refs/tags/v1.0\n").into_bytes(),
    ]
}

#[test]
fn parse_info_refs_response() {
    let response = advertisement(None, &refs_of_a_repository());
    assert_eq!(
        parse_smart_refs(&response).unwrap(),
        Some(String::from("refs/heads/master"))
    );
}

#[test]
fn parse_info_refs_response_with_version() {
    let response = advertisement(Some("version 1\n"), &refs_of_a_repository());
    assert_eq!(
        parse_smart_refs(&response).unwrap(),
        Some(String::from("refs/heads/master"))
    );
}

#[test]
fn parse_empty_repo_info_refs_response() {
    let response = advertisement(None, &[]);
    assert_eq!(response, b"001e# service=git-upload-pack\n00000000");
    assert_eq!(parse_smart_refs(&response).unwrap(), None);
}

#[test]
fn parse_empty_repo_with_capabilities_line() {
    let zero = "0000000000000000000000000000000000000000";
    let line = first_ref(zero, "capabilities^{}", b"multi_ack thin-pack agent=git/2.43.0");
    assert_eq!(parse_smart_refs(&advertisement(None, &[line])), Ok(None));
}

#[test]
fn parse_empty_repo_behind_version_line() {
    let response = advertisement(Some("version 1\n"), &[]);
    assert_eq!(parse_smart_refs(&response), Ok(None));
}

#[test]
fn parse_refuses_version_2() {
    let lines = vec![
        b"agent=git/2.43.0\n".to_vec(),
        b"ls-refs=unborn\n".to_vec(),
        b"fetch=shallow wait-for-done\n".to_vec(),
    ];
    let response = advertisement(Some("version 2\n"), &lines);
    assert_eq!(parse_smart_refs(&response), Err(ParseError::Version2));
    let response = advertisement(Some("version 2"), &lines);
    assert_eq!(parse_smart_refs(&response), Err(ParseError::Version2));
}

#[test]
fn parse_refuses_version_2_whatever_the_length() {
    let mut response = pkt(b"# service=git-upload-pack\n");
    response.extend_from_slice(b"0000");
    response.extend_from_slice(&pkt(b"version 2\n"));
    assert_eq!(parse_smart_refs(&response), Err(ParseError::Version2));
    response.extend_from_slice(&vec![b'x'; 100_000]);
    assert_eq!(parse_smart_refs(&response), Err(ParseError::Version2));
}

#[test]
fn parse_takes_the_first_symref() {
    let caps = b"symref=HEAD:refs/heads/first symref=HEAD:refs/heads/second";
    let line = first_ref(OID, "HEAD", caps);
    assert_eq!(
        parse_smart_refs(&advertisement(None, &[line])),
        Ok(Some(String::from("refs/heads/first")))
    );
}

#[test]
fn parse_finds_symref_in_any_place() {
    for caps in [
        "symref=HEAD:refs/heads/main",
        "symref=HEAD:refs/heads/main thin-pack",
        "thin-pack symref=HEAD:refs/heads/main",
        "thin-pack  symref=HEAD:refs/heads/main  no-done",
    ] {
        let line = first_ref(OID, "HEAD", caps.as_bytes());
        assert_eq!(
            parse_smart_refs(&advertisement(None, &[line])),
            Ok(Some(String::from("refs/heads/main")))
        );
    }
}

#[test]
fn parse_without_symref_is_none() {
    for caps in ["", "thin-pack", "thin-pack symref=refs/heads/main", "xsymref=HEAD:a"] {
        let line = first_ref(OID, "refs/heads/main", caps.as_bytes());
        assert_eq!(parse_smart_refs(&advertisement(None, &[line])), Ok(None));
    }
}

#[test]
fn parse_empty_target() {
    let line = first_ref(OID, "HEAD", b"symref=HEAD:");
    assert_eq!(parse_smart_refs(&advertisement(None, &[line])), Ok(Some(String::new())));
}

#[test]
fn parse_reads_target_as_utf8() {
    let line = first_ref(OID, "HEAD", "symref=HEAD:refs/heads/gr\u{fc}n".as_bytes());
    assert_eq!(
        parse_smart_refs(&advertisement(None, &[line])),
        Ok(Some(String::from("refs/heads/gr\u{fc}n")))
    );
}

#[test]
fn parse_refuses_target_that_is_not_utf8() {
    let line = first_ref(OID, "HEAD", b"thin-pack symref=HEAD:refs/heads/\xff\xfe");
    assert_eq!(parse_smart_refs(&advertisement(None, &[line])), Err(ParseError::BadTarget));
}

#[test]
fn parse_ignores_bytes_that_are_not_utf8_elsewhere() {
    let line = first_ref(OID, "HEAD", b"agent=\xff symref=HEAD:refs/heads/main");
    assert_eq!(
        parse_smart_refs(&advertisement(None, &[line])),
        Ok(Some(String::from("refs/heads/main")))
    );
}

#[test]
fn parse_does_not_read_behind_the_first_ref() {
    let mut response = pkt(b"# service=git-upload-pack\n");
    response.extend_from_slice(b"0000");
    response.extend_from_slice(&pkt(&first_ref(OID, "HEAD", b"symref=HEAD:refs/heads/main")));
    response.extend_from_slice(b"zz not a pkt-line");
    assert_eq!(parse_smart_refs(&response), Ok(Some(String::from("refs/heads/main"))));
}

#[test]
fn parse_refuses_truncated_input() {
    let whole = advertisement(None, &refs_of_a_repository());
    let first_ref_ends = 34 + 4 + first_ref(OID, "HEAD", CAPS.as_bytes()).len();
    for cut in 0..first_ref_ends {
        assert_eq!(parse_smart_refs(&whole[..cut]), Err(ParseError::Truncated), "cut at {cut}");
    }
    assert!(parse_smart_refs(&whole[..first_ref_ends]).is_ok());
}

#[test]
fn parse_refuses_bad_lengths() {
    for head in ["0001", "0002", "0003", "001g", "+01e", " 01e", "0x1e", "-001"] {
        let mut response = head.as_bytes().to_vec();
        response.extend_from_slice(b"# service=git-upload-pack\n0000");
        assert_eq!(parse_smart_refs(&response), Err(ParseError::BadLength), "{head}");
    }
}

#[test]
fn parse_accepts_upper_case_lengths() {
    let mut response = b"001E# service=git-upload-pack\n0000".to_vec();
    response.extend_from_slice(&pkt(&first_ref(OID, "HEAD", b"symref=HEAD:refs/heads/main")));
    assert_eq!(parse_smart_refs(&response), Ok(Some(String::from("refs/heads/main"))));
}

#[test]
fn parse_refuses_other_services() {
    let mut response = pkt(b"# service=git-receive-pack\n");
    response.extend_from_slice(b"0000");
    assert_eq!(parse_smart_refs(&response), Err(ParseError::NotUploadPack));
    assert_eq!(parse_smart_refs(b"0000"), Err(ParseError::NotUploadPack));
    let mut dumb = pkt(format!("{OID}\trefs/heads/master\n").as_bytes());
    dumb.extend_from_slice(b"0000");
    assert_eq!(parse_smart_refs(&dumb), Err(ParseError::NotUploadPack));
}

#[test]
fn parse_refuses_missing_flush() {
    let mut response = pkt(b"# service=git-upload-pack\n");
    response.extend_from_slice(&pkt(&first_ref(OID, "HEAD", b"symref=HEAD:refs/heads/main")));
    assert_eq!(parse_smart_refs(&response), Err(ParseError::NoFlush));
    let mut response = pkt(b"# service=git-upload-pack\n");
    response.extend_from_slice(&pkt(b"0000"));
    assert_eq!(parse_smart_refs(&response), Err(ParseError::NoFlush));
}

#[test]
fn parse_refuses_malformed_first_ref() {
    let short = format!("{} HEAD\0symref=HEAD:refs/heads/main\n", &OID[..39]);
    let not_hex = format!("{}g HEAD\0symref=HEAD:refs/heads/main\n", &OID[..39]);
    let tab = format!("{OID}\tHEAD\0symref=HEAD:refs/heads/main\n");
    let no_nul = format!("{OID} HEAD symref=HEAD:refs/heads/main\n");
    let no_lf = format!("{OID} HEAD\0symref=HEAD:refs/heads/main");
    let only_oid = OID.to_string();
    for line in [short, not_hex, tab, no_nul, no_lf, only_oid, String::new()] {
        assert_eq!(
            parse_smart_refs(&advertisement(None, &[line.clone().into_bytes()])),
            Err(ParseError::BadFirstRef),
            "{line:?}"
        );
    }
}

#[test]
fn parse_reads_one_version_line_only() {
    let mut response = pkt(b"# service=git-upload-pack\n");
    response.extend_from_slice(b"0000");
    response.extend_from_slice(&pkt(b"version 1\n"));
    response.extend_from_slice(&pkt(b"version 1\n"));
    response.extend_from_slice(&pkt(&first_ref(OID, "HEAD", b"symref=HEAD:refs/heads/main")));
    assert_eq!(parse_smart_refs(&response), Err(ParseError::BadFirstRef));
}

#[test]
fn pkt_line_cuts_one_line() {
    match pkt_line(b"0009hello0000rest") {
        Ok((PktLine::Data(payload), rest)) => {
            assert_eq!(payload, b"hello");
            assert_eq!(rest, b"0000rest");
        }
        other => panic!("{other:?}"),
    }
    match pkt_line(b"0000rest") {
        Ok((PktLine::Flush, rest)) => assert_eq!(rest, b"rest"),
        other => panic!("{other:?}"),
    }
    match pkt_line(b"0004") {
        Ok((PktLine::Data(payload), rest)) => {
            assert!(payload.is_empty());
            assert!(rest.is_empty());
        }
        other => panic!("{other:?}"),
    }
}

#[test]
fn pkt_line_refuses() {
    assert_eq!(pkt_line(b"").err(), Some(ParseError::Truncated));
    assert_eq!(pkt_line(b"000").err(), Some(ParseError::Truncated));
    assert_eq!(pkt_line(b"0009hell").err(), Some(ParseError::Truncated));
    assert_eq!(pkt_line(b"0003").err(), Some(ParseError::BadLength));
    assert_eq!(pkt_line(b"00zz").err(), Some(ParseError::BadLength));
    assert_eq!(pkt_line(b"ffff").err(), Some(ParseError::Truncated));
}

#[test]
fn pkt_line_of_the_greatest_length() {
    let mut input = b"ffff".to_vec();
    input.extend_from_slice(&vec![7u8; 0xffff - 4]);
    input.extend_from_slice(b"tail");
    match pkt_line(&input) {
        Ok((PktLine::Data(payload), rest)) => {
            assert_eq!(payload.len(), 0xffff - 4);
            assert_eq!(rest, b"tail");
        }
        other => panic!("{other:?}"),
    }
}
