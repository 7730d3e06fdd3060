//! The rules of one chunk request: the URL it goes to, what a response must
//! look like before its body is copied, and the checksum a finished chunk
//! must have.
use vstd::prelude::*;
use vstd::string::*;
use crate::types::{DownloadThreadControlFlag, GameDownloadError, RemoteAccessError};

verus! {

/// One remote chunk to fetch and where it goes.
#[derive(Clone, Debug)]
pub struct DropDownloadContext {
    pub game_id: String,
    pub version: String,
    pub file_name: String,
    pub index: usize,
    pub path: String,
    pub offset: u64,
    pub permissions: u32,
    pub checksum: String,
}

/// Percent-encoding of a string.
pub uninterp spec fn url_encoded(s: Seq<char>) -> Seq<char>;

/// Relies on urlencoding::encode: the percent-encoded form of its argument.
#[verifier::external_body]
fn encode(s: &str) -> (r: String)
    ensures
        r@ == url_encoded(s@),
{
    urlencoding::encode(s).into_owned()
}

/// The serialization of `input` resolved against the URL `base`, or `None`
/// where either does not parse.
pub uninterp spec fn url_joined(base: Seq<char>, input: Seq<char>) -> Option<Seq<char>>;

/// Relies on url::Url::join (with url::Url::parse to read the base): the
/// resolved URL as a string, or `None` on a parse error.
#[verifier::external_body]
pub(crate) fn join_url(base: &str, input: &str) -> (r: Option<String>)
    ensures
        match r {
            Some(u) => url_joined(base@, input@) == Some(u@),
            None => url_joined(base@, input@) is None,
        },
{
    url::Url::parse(base).and_then(|b| b.join(input)).ok().map(|u| u.to_string())
}

pub open spec fn digit_char(d: nat) -> char {
    seq!['0', '1', '2', '3', '4', '5', '6', '7', '8', '9', 'a', 'b', 'c', 'd', 'e', 'f'][d as int]
}

/// Decimal digits of a number, most significant first.
pub open spec fn decimal(n: nat) -> Seq<char>
    decreases n,
{
    if n < 10 {
        seq![digit_char(n)]
    } else {
        decimal(n / 10).push(digit_char(n % 10))
    }
}

/// Lowercase hexadecimal, two digits per byte.
pub open spec fn hex_of(b: Seq<u8>) -> Seq<char> {
    Seq::new(
        2 * b.len(),
        |i: int|
            if i % 2 == 0 {
                digit_char((b[i / 2] / 16) as nat)
            } else {
                digit_char((b[i / 2] % 16) as nat)
            },
    )
}

fn digit(d: u8) -> (r: char)
    requires
        d < 16,
    ensures
        r == digit_char(d as nat),
{
    if d < 10 {
        if d < 5 {
            if d == 0 { '0' } else if d == 1 { '1' } else if d == 2 { '2' } else if d == 3 { '3' } else { '4' }
        } else {
            if d == 5 { '5' } else if d == 6 { '6' } else if d == 7 { '7' } else if d == 8 { '8' } else { '9' }
        }
    } else {
        if d == 10 { 'a' } else if d == 11 { 'b' } else if d == 12 { 'c' } else if d == 13 { 'd' } else if d
            == 14 { 'e' } else { 'f' }
    }
}

fn append_digit(s: &mut String, d: usize)
    requires
        d < 10,
    ensures
        final(s)@ == old(s)@.push(digit_char(d as nat)),
{
    let digits = "0123456789";
    proof {
        reveal_strlit("0123456789");
    }
    assert(digits.is_ascii());
    let one = digits.substring_ascii(d, d + 1);
    s.append(one);
    assert(final(s)@ =~= old(s)@.push(digit_char(d as nat)));
}

/// Appends the decimal form of `n`.
fn append_decimal(s: &mut String, n: usize)
    ensures
        final(s)@ == old(s)@ + decimal(n as nat),
    decreases n,
{
    if n < 10 {
        append_digit(s, n);
        assert(decimal(n as nat) =~= seq![digit_char(n as nat)]);
    } else {
        append_decimal(s, n / 10);
        append_digit(s, n % 10);
        assert(decimal(n as nat) == decimal((n / 10) as nat).push(digit_char((n % 10) as nat)));
    }
}

/// The path and query of a chunk request, relative to the server's base URL.
pub open spec fn chunk_query(game_id: Seq<char>, version: Seq<char>, file_name: Seq<char>, index: usize) -> Seq<char> {
    "/api/v1/client/chunk?id="@ + game_id + "&version="@ + url_encoded(version) + "&name="@
        + url_encoded(file_name) + "&chunk="@ + decimal(index as nat)
}

/// The URL of the chunk described by `ctx` on the server at `base_url`;
/// version and file name are percent-encoded.
pub fn chunk_url(base_url: &str, ctx: &DropDownloadContext) -> (r: Result<String, GameDownloadError>)
    ensures
        match url_joined(base_url@, chunk_query(ctx.game_id@, ctx.version@, ctx.file_name@, ctx.index)) {
            Some(u) => r matches Ok(s) && s@ == u,
            None => r matches Err(GameDownloadError::Communication(RemoteAccessError::ParsingError(_))),
        },
{
    let mut q = String::from_str("/api/v1/client/chunk?id=");
    q.append(ctx.game_id.as_str());
    q.append("&version=");
    let v = encode(ctx.version.as_str());
    q.append(v.as_str());
    q.append("&name=");
    let n = encode(ctx.file_name.as_str());
    q.append(n.as_str());
    q.append("&chunk=");
    append_decimal(&mut q, ctx.index);
    assert(q@ =~= chunk_query(ctx.game_id@, ctx.version@, ctx.file_name@, ctx.index));
    match join_url(base_url, q.as_str()) {
        Some(u) => Ok(u),
        None => {
            let mut msg = String::from_str("cannot build chunk URL from ");
            msg.append(base_url);
            Err(GameDownloadError::Communication(RemoteAccessError::ParsingError(msg)))
        },
    }
}

/// A chunk whose control flag already reads `Stop` is not started: no
/// request is made and the chunk is reported not completed.
pub fn should_start(flag: DownloadThreadControlFlag) -> (r: bool)
    ensures
        r == (flag != DownloadThreadControlFlag::Stop),
{
    flag != DownloadThreadControlFlag::Stop
}

/// Checks a chunk response before its body is copied: it must have status
/// 200 and a declared content length, which is returned. `body` is the
/// response text, kept in the error for any other status.
pub fn check_response(status: u16, content_length: Option<u64>, body: String) -> (r: Result<
    u64,
    GameDownloadError,
>)
    ensures
        status != 200 ==> r == Err::<u64, GameDownloadError>(
            GameDownloadError::Communication(RemoteAccessError::InvalidCodeError(status, body)),
        ),
        status == 200 && content_length is None ==> r == Err::<u64, GameDownloadError>(
            GameDownloadError::Communication(RemoteAccessError::InvalidResponse),
        ),
        status == 200 && content_length is Some ==> r == Ok::<u64, GameDownloadError>(
            content_length.unwrap(),
        ),
{
    if status != 200 {
        return Err(GameDownloadError::Communication(RemoteAccessError::InvalidCodeError(status, body)));
    }
    match content_length {
        Some(n) => Ok(n),
        None => Err(GameDownloadError::Communication(RemoteAccessError::InvalidResponse)),
    }
}

/// Whether `expected` is the lowercase hexadecimal form of `digest`.
pub fn checksum_matches(digest: &[u8; 16], expected: &str) -> (r: bool)
    ensures
        r == (expected@ == hex_of(digest@)),
{
    let len = expected.unicode_len();
    if len != 32 {
        assert(hex_of(digest@).len() == 32);
        return false;
    }
    let mut i: usize = 0;
    while i < 16
        invariant
            0 <= i <= 16,
            expected@.len() == 32,
            forall|k: int| 0 <= k < 2 * i ==> expected@[k] == #[trigger] hex_of(digest@)[k],
        decreases 16 - i,
    {
        let b = digest[i];
        let hi = digit(b / 16);
        let lo = digit(b % 16);
        if expected.get_char(2 * i) != hi {
            assert(hex_of(digest@)[2 * i as int] == hi);
            return false;
        }
        if expected.get_char(2 * i + 1) != lo {
            assert(hex_of(digest@)[2 * i + 1] == lo);
            return false;
        }
        assert(hex_of(digest@)[2 * i as int] == hi);
        assert(hex_of(digest@)[2 * i + 1] == lo);
        i = i + 1;
    }
    assert(expected@ =~= hex_of(digest@));
    true
}

/// Holds a finished chunk to its expected checksum.
pub fn check_checksum(digest: &[u8; 16], expected: &str) -> (r: Result<(), GameDownloadError>)
    ensures
        r is Ok <==> expected@ == hex_of(digest@),
        r is Err ==> r == Err::<(), GameDownloadError>(GameDownloadError::Checksum),
{
    if checksum_matches(digest, expected) {
        Ok(())
    } else {
        Err(GameDownloadError::Checksum)
    }
}

} // verus!
