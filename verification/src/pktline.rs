//! The smart v1 ref advertisement, read far enough to learn where the
//! upstream's `HEAD` points.
//!
//! An advertisement is a run of pkt-lines: four hexadecimal digits that give
//! the length of the line, themselves included, and then the payload. The
//! length `0000` is the flush marker and carries no payload.
//!
//! What the proxy accepts is
//!
//! ```text
//! pkt("# service=git-upload-pack\n") flush [pkt("version ...")] first-ref ...
//! ```
//!
//! where `first-ref` is either a flush (a repository without refs) or
//! `<40 hex digits> SP <name> NUL <capabilities> LF`, the capabilities being
//! separated by single spaces. What follows the first ref is not read.

use crate::bytes::{equal, find, has_prefix, joined, pieces, position, split, starts_with};
use crate::bytes::{lemma_joined_pieces, lemma_position, views, LF, NUL, SP};
use vstd::prelude::*;
use vstd::slice::slice_subrange;
use vstd::string::StringSliceAdditionalSpecFns;
use vstd::utf8::{decode_utf8, valid_utf8};

verus! {

/// Why an advertisement was refused.
#[derive(Clone, Copy, Debug, PartialEq, Eq, Structural)]
pub enum ParseError {
    /// The input ends inside a length field or inside a payload.
    Truncated,
    /// A length field is not four hexadecimal digits, or is `0001`, `0002`
    /// or `0003`, which could not even cover the field itself.
    BadLength,
    /// The first pkt-line is not `# service=git-upload-pack\n`.
    NotUploadPack,
    /// No flush follows the service line.
    NoFlush,
    /// The upstream answered in protocol version 2.
    Version2,
    /// The first ref does not have the form `<oid> SP <name> NUL <caps> LF`.
    BadFirstRef,
    /// The target of `symref=HEAD:` is not UTF-8.
    BadTarget,
}

/// A pkt-line as contracts see it.
pub enum Packet {
    /// The marker `0000`.
    Flush,
    /// A line with its payload, which may be empty.
    Data(Seq<u8>),
}

/// A pkt-line cut out of an input.
#[derive(Clone, Copy, Debug)]
pub enum PktLine<'a> {
    /// The marker `0000`.
    Flush,
    /// A line with its payload, which may be empty.
    Data(&'a [u8]),
}

impl<'a> View for PktLine<'a> {
    type V = Packet;

    open spec fn view(&self) -> Packet {
        match self {
            PktLine::Flush => Packet::Flush,
            PktLine::Data(payload) => Packet::Data(payload@),
        }
    }
}

/// The value of a hexadecimal digit, in either case.
pub open spec fn hex_value(b: u8) -> Option<int> {
    if 0x30 <= b <= 0x39 {
        Some(b - 0x30)
    } else if 0x61 <= b <= 0x66 {
        Some(b - 0x61 + 10)
    } else if 0x41 <= b <= 0x46 {
        Some(b - 0x41 + 10)
    } else {
        None
    }
}

/// The number that the first four bytes of `s` spell in hexadecimal.
pub open spec fn length_field(s: Seq<u8>) -> Option<int> {
    if s.len() >= 4 && hex_value(s[0]) is Some && hex_value(s[1]) is Some && hex_value(
        s[2],
    ) is Some && hex_value(s[3]) is Some {
        Some(
            ((hex_value(s[0])->0 * 16 + hex_value(s[1])->0) * 16 + hex_value(s[2])->0) * 16
                + hex_value(s[3])->0,
        )
    } else {
        None
    }
}

/// The first pkt-line of `input` and what follows it.
pub open spec fn read_packet(input: Seq<u8>) -> Result<(Packet, Seq<u8>), ParseError> {
    if input.len() < 4 {
        Err(ParseError::Truncated)
    } else {
        match length_field(input) {
            None => Err(ParseError::BadLength),
            Some(n) => if n == 0 {
                Ok((Packet::Flush, input.skip(4)))
            } else if n < 4 {
                Err(ParseError::BadLength)
            } else if input.len() < n {
                Err(ParseError::Truncated)
            } else {
                Ok((Packet::Data(input.subrange(4, n)), input.skip(n)))
            },
        }
    }
}

/// The payload of the line that opens an upload-pack advertisement.
pub open spec fn service_line() -> Seq<u8> {
    "# service=git-upload-pack\n".spec_bytes()
}

/// A payload that announces a protocol version.
pub open spec fn is_version_line(payload: Seq<u8>) -> bool {
    has_prefix(payload, "version".spec_bytes())
}

/// The payload that announces protocol version 2, with or without its line
/// feed.
pub open spec fn is_version_2(payload: Seq<u8>) -> bool {
    payload == "version 2\n".spec_bytes() || payload == "version 2".spec_bytes()
}

/// What a capability that names the target of `HEAD` begins with.
pub open spec fn symref_prefix() -> Seq<u8> {
    "symref=HEAD:".spec_bytes()
}

/// The capability list of a first ref line, or `None` where the line does not
/// have the form `<40 hex digits> SP <name> NUL <capabilities> LF`.
pub open spec fn capabilities(line: Seq<u8>) -> Option<Seq<u8>> {
    if line.len() >= 41 && (forall|i: int| 0 <= i < 40 ==> hex_value(#[trigger] line[i]) is Some)
        && line[40] == SP && line.last() == LF {
        match position(line, NUL) {
            Some(n) => Some(line.subrange(n + 1, line.len() - 1)),
            None => None,
        }
    } else {
        None
    }
}

/// What follows `symref=HEAD:` in the first capability that begins with it.
pub open spec fn head_target(tokens: Seq<Seq<u8>>) -> Option<Seq<u8>>
    decreases tokens.len(),
{
    if tokens.len() == 0 {
        None
    } else if has_prefix(tokens[0], symref_prefix()) {
        Some(tokens[0].skip(symref_prefix().len() as int))
    } else {
        head_target(tokens.drop_first())
    }
}

/// What a first ref line says of `HEAD`.
pub open spec fn first_ref(line: Seq<u8>) -> Result<Option<Seq<char>>, ParseError> {
    match capabilities(line) {
        None => Err(ParseError::BadFirstRef),
        Some(caps) => match head_target(pieces(caps, SP)) {
            None => Ok(None),
            Some(target) => if valid_utf8(target) {
                Ok(Some(decode_utf8(target)))
            } else {
                Err(ParseError::BadTarget)
            },
        },
    }
}

/// What the pkt-line in the place of the first ref says of `HEAD`.
pub open spec fn ref_list_head(packet: Packet) -> Result<Option<Seq<char>>, ParseError> {
    match packet {
        Packet::Flush => Ok(None),
        Packet::Data(line) => first_ref(line),
    }
}

/// What a ref list says of `HEAD`: `input` is what follows the flush after
/// the service line.
pub open spec fn ref_list(input: Seq<u8>) -> Result<Option<Seq<char>>, ParseError> {
    match read_packet(input) {
        Err(e) => Err(e),
        Ok((Packet::Data(line), rest)) => if is_version_2(line) {
            Err(ParseError::Version2)
        } else if is_version_line(line) {
            match read_packet(rest) {
                Err(e) => Err(e),
                Ok((packet, _)) => ref_list_head(packet),
            }
        } else {
            first_ref(line)
        },
        Ok((Packet::Flush, _)) => Ok(None),
    }
}

/// What a smart v1 advertisement says of `HEAD`: the target of the symref,
/// `None` where the upstream names none or has no refs, or why the
/// advertisement is refused.
pub open spec fn smart_refs(input: Seq<u8>) -> Result<Option<Seq<char>>, ParseError> {
    match read_packet(input) {
        Err(e) => Err(e),
        Ok((first, rest)) => if first != Packet::Data(service_line()) {
            Err(ParseError::NotUploadPack)
        } else {
            match read_packet(rest) {
                Err(e) => Err(e),
                Ok((second, list)) => if second != Packet::Flush {
                    Err(ParseError::NoFlush)
                } else {
                    ref_list(list)
                },
            }
        },
    }
}

/// The hexadecimal digit for a value below 16, in lower case.
pub open spec fn hex_digit_of(v: int) -> u8 {
    if v < 10 {
        (0x30 + v) as u8
    } else {
        (0x61 + v - 10) as u8
    }
}

/// The four hexadecimal digits that spell `n`.
pub open spec fn length_digits(n: int) -> Seq<u8> {
    seq![
        hex_digit_of(n / 4096 % 16),
        hex_digit_of(n / 256 % 16),
        hex_digit_of(n / 16 % 16),
        hex_digit_of(n % 16),
    ]
}

/// A pkt-line on the wire.
pub open spec fn encoded(packet: Packet) -> Seq<u8> {
    match packet {
        Packet::Flush => length_digits(0),
        Packet::Data(payload) => length_digits(payload.len() as int + 4) + payload,
    }
}

/// Whether a pkt-line can be put on the wire: the length of a payload and of
/// the length field together must fit into four hexadecimal digits.
pub open spec fn fits(packet: Packet) -> bool {
    match packet {
        Packet::Flush => true,
        Packet::Data(payload) => payload.len() + 4 <= 0xffff,
    }
}

/// A smart v1 advertisement on the wire: the service line, a flush, the
/// line that announces the version if there is one, the pkt-line in the place
/// of the first ref, and whatever follows.
pub open spec fn advertisement(version: Option<Seq<u8>>, first: Packet, rest: Seq<u8>) -> Seq<
    u8,
> {
    encoded(Packet::Data(service_line())) + encoded(Packet::Flush) + (match version {
        Some(line) => encoded(Packet::Data(line)),
        None => Seq::empty(),
    }) + encoded(first) + rest
}

/// A first ref line: `<oid> SP <name> NUL <capabilities> LF`.
pub open spec fn first_ref_line(oid: Seq<u8>, name: Seq<u8>, caps: Seq<u8>) -> Seq<u8> {
    oid + seq![SP] + name + seq![NUL] + caps + seq![LF]
}

/// The four digits of a length spell that length.
pub proof fn lemma_length_digits(n: int, rest: Seq<u8>)
    requires
        0 <= n <= 0xffff,
    ensures
        length_field(length_digits(n) + rest) == Some(n),
{
    let digits = length_digits(n) + rest;
    let a = n / 4096 % 16;
    let b = n / 256 % 16;
    let c = n / 16 % 16;
    let d = n % 16;
    assert(digits[0] == hex_digit_of(a));
    assert(digits[1] == hex_digit_of(b));
    assert(digits[2] == hex_digit_of(c));
    assert(digits[3] == hex_digit_of(d));
    assert(hex_value(hex_digit_of(a)) == Some(a));
    assert(hex_value(hex_digit_of(b)) == Some(b));
    assert(hex_value(hex_digit_of(c)) == Some(c));
    assert(hex_value(hex_digit_of(d)) == Some(d));
    assert(((a * 16 + b) * 16 + c) * 16 + d == n);
}

/// Reading gives back what was put on the wire: a pkt-line, and what
/// follows it untouched.
pub proof fn lemma_read_encoded(packet: Packet, rest: Seq<u8>)
    requires
        fits(packet),
    ensures
        read_packet(encoded(packet) + rest) == Ok::<(Packet, Seq<u8>), ParseError>((packet, rest)),
{
    let wire = encoded(packet) + rest;
    match packet {
        Packet::Flush => {
            lemma_length_digits(0, rest);
            assert(wire.skip(4) =~= rest);
        },
        Packet::Data(payload) => {
            let n = payload.len() as int + 4;
            assert(wire =~= length_digits(n) + (payload + rest));
            lemma_length_digits(n, payload + rest);
            assert(wire.subrange(4, n) =~= payload);
            assert(wire.skip(n) =~= rest);
        },
    }
}

/// The service line is the 26 bytes of `# service=git-upload-pack\n`, and
/// does not announce a version.
pub proof fn lemma_service_line()
    ensures
        service_line().len() == 26,
{
    reveal_strlit("# service=git-upload-pack\n");
    vstd::string::is_ascii_spec_bytes("# service=git-upload-pack\n");
    assert(vstd::string::is_ascii("# service=git-upload-pack\n"));
}

/// What a ref list on the wire says of `HEAD` is what the pkt-line in the
/// place of its first ref says, with and without a line that announces a
/// version, except that version 2 is refused.
pub open spec fn announced_head(version: Option<Seq<u8>>, first: Packet) -> Result<
    Option<Seq<char>>,
    ParseError,
> {
    match version {
        Some(line) => if is_version_2(line) {
            Err(ParseError::Version2)
        } else {
            ref_list_head(first)
        },
        None => ref_list_head(first),
    }
}

/// Whether a ref list can be read as it was meant: a line that is given as
/// the announcement of a version must be one, and without such a line the
/// first ref must not look like one.
pub open spec fn unambiguous(version: Option<Seq<u8>>, first: Packet) -> bool {
    match version {
        Some(line) => fits(Packet::Data(line)) && (is_version_line(line) || is_version_2(line)),
        None => first matches Packet::Data(line) ==> !is_version_line(line) && !is_version_2(
            line,
        ),
    }
}

/// Round trip of a ref list without a line that announces a version.
pub proof fn lemma_plain_ref_list(first: Packet, rest: Seq<u8>)
    requires
        fits(first),
        unambiguous(None, first),
    ensures
        ref_list(encoded(first) + rest) == ref_list_head(first),
{
    lemma_read_encoded(first, rest);
}

/// Round trip of a ref list behind a line that announces a version.
pub proof fn lemma_versioned_ref_list(line: Seq<u8>, first: Packet, rest: Seq<u8>)
    requires
        fits(first),
        unambiguous(Some(line), first),
    ensures
        ref_list(encoded(Packet::Data(line)) + encoded(first) + rest) == announced_head(
            Some(line),
            first,
        ),
{
    let after_version = encoded(first) + rest;
    assert(encoded(Packet::Data(line)) + encoded(first) + rest =~= encoded(Packet::Data(line))
        + after_version);
    lemma_read_encoded(Packet::Data(line), after_version);
    lemma_read_encoded(first, rest);
}

/// What stands behind the service line and the flush is read as the ref
/// list.
pub proof fn lemma_framed(list: Seq<u8>)
    ensures
        smart_refs(encoded(Packet::Data(service_line())) + (encoded(Packet::Flush) + list))
            == ref_list(list),
{
    lemma_service_line();
    lemma_read_encoded(Packet::Data(service_line()), encoded(Packet::Flush) + list);
    lemma_read_encoded(Packet::Flush, list);
}

/// Five strings in a row are the first, then the second, then the rest.
proof fn lemma_regroup(a: Seq<u8>, b: Seq<u8>, c: Seq<u8>, d: Seq<u8>, e: Seq<u8>)
    ensures
        a + b + c + d + e == a + (b + (c + d + e)),
        Seq::<u8>::empty() + d + e == d + e,
{
    assert(a + b + c + d + e =~= a + (b + (c + d + e)));
    assert(Seq::<u8>::empty() + d + e =~= d + e);
}

/// Round trip: what an advertisement on the wire says of `HEAD` is what the
/// pkt-line in the place of its first ref says. This holds with and without
/// a line that announces a version, except that version 2 is refused.
pub proof fn lemma_round_trip(version: Option<Seq<u8>>, first: Packet, rest: Seq<u8>)
    requires
        fits(first),
        unambiguous(version, first),
    ensures
        smart_refs(advertisement(version, first, rest)) == announced_head(version, first),
{
    let service = encoded(Packet::Data(service_line()));
    let flush = encoded(Packet::Flush);
    let announced = match version {
        Some(line) => encoded(Packet::Data(line)),
        None => Seq::empty(),
    };
    let list = announced + encoded(first) + rest;
    lemma_regroup(service, flush, announced, encoded(first), rest);
    lemma_framed(list);
    match version {
        Some(line) => {
            lemma_versioned_ref_list(line, first, rest);
        },
        None => {
            lemma_plain_ref_list(first, rest);
        },
    }
}

/// The capability list of a first ref line that was put together from an
/// object id of 40 hexadecimal digits, a name without NUL and a capability
/// list is that list.
pub proof fn lemma_first_ref_line(oid: Seq<u8>, name: Seq<u8>, caps: Seq<u8>)
    requires
        oid.len() == 40,
        forall|i: int| 0 <= i < 40 ==> hex_value(#[trigger] oid[i]) is Some,
        !name.contains(NUL),
    ensures
        capabilities(first_ref_line(oid, name, caps)) == Some(caps),
{
    let line = first_ref_line(oid, name, caps);
    let at = 41 + name.len() as int;
    assert forall|i: int| 0 <= i < 40 implies hex_value(#[trigger] line[i]) is Some by {
        assert(line[i] == oid[i]);
    }
    assert(line[40] == SP);
    assert(line[at] == NUL);
    lemma_position(line, NUL);
    assert forall|j: int| 0 <= j < at implies line[j] != NUL by {
        if j < 40 {
            assert(hex_value(line[j]) is Some);
        } else if j > 40 {
            assert(line[j] == name[j - 41]);
        }
    }
    assert(position(line, NUL) == Some(at));
    assert(line.subrange(at + 1, line.len() - 1) =~= caps);
}

/// The target of `HEAD` is found behind any capabilities that do not name
/// it, whatever follows.
pub proof fn lemma_head_target(before: Seq<Seq<u8>>, target: Seq<u8>, after: Seq<Seq<u8>>)
    requires
        forall|k: int| 0 <= k < before.len() ==> !has_prefix(#[trigger] before[k], symref_prefix()),
    ensures
        head_target(before + seq![symref_prefix() + target] + after) == Some(target),
    decreases before.len(),
{
    let tokens = before + seq![symref_prefix() + target] + after;
    if before.len() == 0 {
        let token = symref_prefix() + target;
        assert(tokens[0] == token);
        assert(token.take(symref_prefix().len() as int) =~= symref_prefix());
        assert(token.skip(symref_prefix().len() as int) =~= target);
    } else {
        assert(tokens[0] == before[0]);
        assert(tokens.drop_first() =~= before.drop_first() + seq![symref_prefix() + target]
            + after);
        assert forall|k: int| 0 <= k < before.drop_first().len() implies !has_prefix(
            #[trigger] before.drop_first()[k],
            symref_prefix(),
        ) by {
            assert(before.drop_first()[k] == before[k + 1]);
        }
        lemma_head_target(before.drop_first(), target, after);
    }
}

/// Round trip of the symref: a first ref line whose capabilities are
/// separated by spaces and name the target of `HEAD` says that target, read
/// as UTF-8.
pub proof fn lemma_symref_round_trip(
    oid: Seq<u8>,
    name: Seq<u8>,
    before: Seq<Seq<u8>>,
    target: Seq<u8>,
    after: Seq<Seq<u8>>,
)
    requires
        oid.len() == 40,
        forall|i: int| 0 <= i < 40 ==> hex_value(#[trigger] oid[i]) is Some,
        !name.contains(NUL),
        forall|k: int| 0 <= k < before.len() ==> !has_prefix(#[trigger] before[k], symref_prefix()),
        forall|k: int| 0 <= k < before.len() ==> !(#[trigger] before[k]).contains(SP),
        forall|k: int| 0 <= k < after.len() ==> !(#[trigger] after[k]).contains(SP),
        !(symref_prefix() + target).contains(SP),
    ensures
        first_ref(
            first_ref_line(
                oid,
                name,
                joined(before + seq![symref_prefix() + target] + after, SP),
            ),
        ) == (if valid_utf8(target) {
            Ok::<Option<Seq<char>>, ParseError>(Some(decode_utf8(target)))
        } else {
            Err(ParseError::BadTarget)
        }),
{
    let tokens = before + seq![symref_prefix() + target] + after;
    let caps = joined(tokens, SP);
    lemma_first_ref_line(oid, name, caps);
    assert forall|k: int| 0 <= k < tokens.len() implies !(#[trigger] tokens[k]).contains(SP) by {
        if k < before.len() {
            assert(tokens[k] == before[k]);
        } else if k == before.len() {
            assert(tokens[k] == symref_prefix() + target);
        } else {
            assert(tokens[k] == after[k - before.len() - 1]);
        }
    }
    lemma_joined_pieces(tokens, SP);
    lemma_head_target(before, target, after);
}

/// The characters of an answer of `parse_smart_refs`.
pub open spec fn answer_view(r: Result<Option<String>, ParseError>) -> Result<
    Option<Seq<char>>,
    ParseError,
> {
    match r {
        Ok(Some(s)) => Ok(Some(s@)),
        Ok(None) => Ok(None),
        Err(e) => Err(e),
    }
}

/// Reads `bytes` as UTF-8 text with `std::str::from_utf8`, which returns the
/// same bytes as a string slice where they are valid UTF-8 and an error where
/// they are not.
#[verifier::external_body]
fn utf8_text(bytes: &[u8]) -> (r: Option<&str>)
    ensures
        r is Some <==> valid_utf8(bytes@),
        r is Some ==> r->0.spec_bytes() == bytes@,
{
    std::str::from_utf8(bytes).ok()
}

fn hex_digit(b: u8) -> (r: Option<usize>)
    ensures
        match r {
            Some(v) => hex_value(b) == Some(v as int) && v < 16,
            None => hex_value(b) is None,
        },
{
    if 0x30 <= b && b <= 0x39 {
        Some((b - 0x30) as usize)
    } else if 0x61 <= b && b <= 0x66 {
        Some((b - 0x61) as usize + 10)
    } else if 0x41 <= b && b <= 0x46 {
        Some((b - 0x41) as usize + 10)
    } else {
        None
    }
}

fn read_length(input: &[u8]) -> (r: Option<usize>)
    requires
        input@.len() >= 4,
    ensures
        match r {
            Some(n) => length_field(input@) == Some(n as int) && n <= 0xffff,
            None => length_field(input@) is None,
        },
{
    let d0 = hex_digit(input[0]);
    let d1 = hex_digit(input[1]);
    let d2 = hex_digit(input[2]);
    let d3 = hex_digit(input[3]);
    match (d0, d1, d2, d3) {
        (Some(a), Some(b), Some(c), Some(d)) => Some(((a * 16 + b) * 16 + c) * 16 + d),
        _ => None,
    }
}

/// Cuts the first pkt-line off `input`.
pub fn pkt_line<'a>(input: &'a [u8]) -> (r: Result<(PktLine<'a>, &'a [u8]), ParseError>)
    ensures
        match r {
            Ok((packet, rest)) => read_packet(input@) == Ok::<(Packet, Seq<u8>), ParseError>(
                (packet@, rest@),
            ),
            Err(e) => read_packet(input@) == Err::<(Packet, Seq<u8>), ParseError>(e),
        },
{
    if input.len() < 4 {
        return Err(ParseError::Truncated);
    }
    match read_length(input) {
        None => Err(ParseError::BadLength),
        Some(n) => {
            if n == 0 {
                let rest = slice_subrange(input, 4, input.len());
                Ok((PktLine::Flush, rest))
            } else if n < 4 {
                Err(ParseError::BadLength)
            } else if input.len() < n {
                Err(ParseError::Truncated)
            } else {
                let payload = slice_subrange(input, 4, n);
                let rest = slice_subrange(input, n, input.len());
                Ok((PktLine::Data(payload), rest))
            }
        },
    }
}

fn capability_list<'a>(line: &'a [u8]) -> (r: Option<&'a [u8]>)
    ensures
        match r {
            Some(caps) => capabilities(line@) == Some(caps@),
            None => capabilities(line@) is None,
        },
{
    if line.len() < 41 {
        return None;
    }
    let mut i: usize = 0;
    while i < 40
        invariant
            i <= 40,
            line@.len() >= 41,
            forall|j: int| 0 <= j < i ==> hex_value(#[trigger] line@[j]) is Some,
        decreases 40 - i,
    {
        if hex_digit(line[i]).is_none() {
            return None;
        }
        i = i + 1;
    }
    if line[40] != SP || line[line.len() - 1] != LF {
        return None;
    }
    proof {
        lemma_position(line@, NUL);
    }
    match find(line, NUL) {
        None => None,
        Some(n) => Some(slice_subrange(line, n + 1, line.len() - 1)),
    }
}

fn symref_target<'a>(tokens: &Vec<&'a [u8]>) -> (r: Option<&'a [u8]>)
    ensures
        match r {
            Some(target) => head_target(views(tokens@)) == Some(target@),
            None => head_target(views(tokens@)) is None,
        },
{
    let prefix = "symref=HEAD:".as_bytes();
    let mut k: usize = 0;
    proof {
        assert(views(tokens@).skip(0) =~= views(tokens@));
    }
    while k < tokens.len()
        invariant
            k <= tokens.len(),
            prefix@ == symref_prefix(),
            head_target(views(tokens@)) == head_target(views(tokens@).skip(k as int)),
        decreases tokens.len() - k,
    {
        let token = tokens[k];
        proof {
            let left = views(tokens@).skip(k as int);
            assert(left[0] == token@);
            assert(left.drop_first() =~= views(tokens@).skip(k + 1));
        }
        if starts_with(token, prefix) {
            return Some(slice_subrange(token, prefix.len(), token.len()));
        }
        k = k + 1;
    }
    None
}

fn read_first_ref(line: &[u8]) -> (r: Result<Option<String>, ParseError>)
    ensures
        answer_view(r) == first_ref(line@),
{
    match capability_list(line) {
        None => Err(ParseError::BadFirstRef),
        Some(caps) => {
            let tokens = split(caps, SP);
            match symref_target(&tokens) {
                None => Ok(None),
                Some(target) => match utf8_text(target) {
                    None => Err(ParseError::BadTarget),
                    Some(text) => {
                        proof {
                            vstd::utf8::encode_utf8_decode_utf8(text@);
                        }
                        Ok(Some(text.to_owned()))
                    },
                },
            }
        },
    }
}

fn read_ref_list(input: &[u8]) -> (r: Result<Option<String>, ParseError>)
    ensures
        answer_view(r) == ref_list(input@),
{
    match pkt_line(input) {
        Err(e) => Err(e),
        Ok((PktLine::Flush, _)) => Ok(None),
        Ok((PktLine::Data(line), rest)) => {
            if equal(line, "version 2\n".as_bytes()) || equal(line, "version 2".as_bytes()) {
                Err(ParseError::Version2)
            } else if starts_with(line, "version".as_bytes()) {
                match pkt_line(rest) {
                    Err(e) => Err(e),
                    Ok((PktLine::Flush, _)) => Ok(None),
                    Ok((PktLine::Data(next), _)) => read_first_ref(next),
                }
            } else {
                read_first_ref(line)
            }
        },
    }
}

/// Reads a smart v1 advertisement of `git-upload-pack` and returns where the
/// upstream's `HEAD` points: `Some` target where the first ref carries a
/// `symref=HEAD:` capability, `None` where it carries none or the repository
/// has no refs. An advertisement in protocol version 2 is refused.
pub fn parse_smart_refs(input: &[u8]) -> (r: Result<Option<String>, ParseError>)
    ensures
        answer_view(r) == smart_refs(input@),
{
    match pkt_line(input) {
        Err(e) => Err(e),
        Ok((PktLine::Flush, _)) => Err(ParseError::NotUploadPack),
        Ok((PktLine::Data(service), rest)) => {
            if !equal(service, "# service=git-upload-pack\n".as_bytes()) {
                return Err(ParseError::NotUploadPack);
            }
            match pkt_line(rest) {
                Err(e) => Err(e),
                Ok((PktLine::Data(_), _)) => Err(ParseError::NoFlush),
                Ok((PktLine::Flush, list)) => read_ref_list(list),
            }
        },
    }
}

} // verus!
