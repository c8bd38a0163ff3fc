//! Where a bot connects, from what a dev server advertises at its `/cert-hash` endpoint: the
//! WebTransport port and path, and the hash of its self-signed certificate.

use vstd::prelude::*;
use vstd::string::StringSliceAdditionalSpecFns;
use vstd::utf8::*;

use crate::hex::hex_digit;
use crate::names::{decimal_chars, digit_char, push_decimal};

verus! {

broadcast use {encode_utf8_valid_utf8, is_char_boundary_iff_not_is_continuation_byte};

/// Where to connect, as advertised by the server's `/cert-hash` endpoint.
#[derive(Clone, Debug)]
pub struct EndpointInfo {
    pub url: String,
    pub cert_hash: Option<[u8; 32]>,
}

/// Why a certificate hash does not decode.
#[derive(Clone, Copy, Debug, PartialEq, Eq, Structural)]
pub enum HexError {
    /// A byte that is not a hexadecimal digit, and where.
    InvalidHexCharacter { c: char, index: usize },
    /// An odd number of digits.
    OddLength,
    /// Not two digits per byte of the hash.
    InvalidStringLength,
}

/// Why an advertisement cannot be used.
#[derive(Clone, Copy, Debug, PartialEq, Eq, Structural)]
pub enum DiscoverError {
    MissingPort,
    MissingHash,
    BadHash(HexError),
}

/// The position of the first byte that is not a hexadecimal digit, from `i` on (the length when
/// there is none).
pub open spec fn first_non_digit(b: Seq<u8>, i: int) -> int
    decreases b.len() - i,
{
    if i < 0 || i >= b.len() {
        b.len() as int
    } else if hex_digit(b[i]) is None {
        i
    } else {
        first_non_digit(b, i + 1)
    }
}

/// What a hash written as 64 hexadecimal digits decodes to: its 32 bytes, or why not.
pub open spec fn hash_decoded(b: Seq<u8>) -> Result<Seq<u8>, HexError> {
    if b.len() % 2 != 0 {
        Err(HexError::OddLength)
    } else if b.len() / 2 != 32 {
        Err(HexError::InvalidStringLength)
    } else if first_non_digit(b, 0) < b.len() {
        let i = first_non_digit(b, 0);
        Err(HexError::InvalidHexCharacter { c: b[i] as char, index: i as usize })
    } else {
        Ok(Seq::new(32, |k: int| (hex_digit(b[2 * k])->0 * 16 + hex_digit(b[2 * k + 1])->0) as u8))
    }
}

/// Decodes a certificate hash written in hexadecimal (`hex::decode_to_slice` into 32 bytes).
#[verifier::external_body]
fn decode_hash(text: &str) -> (r: Result<[u8; 32], HexError>)
    ensures
        match (r, hash_decoded(text.spec_bytes())) {
            (Ok(h), Ok(want)) => h@ == want,
            (Err(e), Err(want)) => e == want,
            _ => false,
        },
{
    let mut hash = [0u8; 32];
    match hex::decode_to_slice(text, &mut hash) {
        Ok(()) => Ok(hash),
        Err(hex::FromHexError::InvalidHexCharacter { c, index }) => Err(
            HexError::InvalidHexCharacter { c, index },
        ),
        Err(hex::FromHexError::OddLength) => Err(HexError::OddLength),
        Err(hex::FromHexError::InvalidStringLength) => Err(HexError::InvalidStringLength),
    }
}

/// The decimal digits of a number.
pub open spec fn decimal(n: u64) -> Seq<u8>
    decreases n,
{
    if n < 10 {
        seq![(48 + n) as u8]
    } else {
        decimal(n / 10) + seq![(48 + n % 10) as u8]
    }
}

/// `https://{host}:{port}{path}`, as bytes.
pub open spec fn url_bytes(host: Seq<u8>, port: u64, path: Seq<u8>) -> Seq<u8> {
    seq![104u8, 116, 116, 112, 115, 58, 47, 47] + host + seq![58u8] + decimal(port) + path
}

/// The UTF-8 encoding of two character sequences one after the other is their encodings one
/// after the other.
proof fn lemma_encode_concat(a: Seq<char>, b: Seq<char>)
    ensures
        encode_utf8(a + b) == encode_utf8(a) + encode_utf8(b),
    decreases a.len(),
{
    if a.len() == 0 {
        assert(a + b =~= b);
        assert(encode_utf8(a) + encode_utf8(b) =~= encode_utf8(b));
    } else {
        assert((a + b).drop_first() =~= a.drop_first() + b);
        lemma_encode_concat(a.drop_first(), b);
        assert(encode_utf8(a + b) =~= encode_utf8(a) + encode_utf8(b));
    }
}

/// An ASCII character encodes as its own byte.
proof fn lemma_encode_ascii(c: char)
    requires
        (c as u32) < 128,
    ensures
        encode_utf8(seq![c]) == seq![c as u8],
{
    let cs = seq![c];
    assert(is_ascii_chars(cs));
    is_ascii_chars_encode_utf8(cs);
    assert(cs[0] as u8 == encode_utf8(cs)[0]);
    assert(encode_utf8(cs) =~= seq![c as u8]);
}

/// A number's decimal digits as characters encode as its decimal digits as bytes.
proof fn lemma_encode_decimal(n: u64)
    ensures
        encode_utf8(decimal_chars(n as nat)) == decimal(n),
    decreases n,
{
    let d = (n % 10) as nat;
    lemma_encode_ascii(digit_char(d));
    if n >= 10 {
        lemma_encode_decimal(n / 10);
        lemma_encode_concat(decimal_chars((n / 10) as nat), seq![digit_char(d)]);
    }
}

/// Formats `https://{host}:{port}{path}`.
fn format_url(host: &str, port: u64, path: &str) -> (r: String)
    ensures
        encode_utf8(r@) == url_bytes(host.spec_bytes(), port, path.spec_bytes()),
{
    let mut s = "https://".to_owned();
    s.append(host);
    s.append(":");
    push_decimal(&mut s, port);
    s.append(path);
    proof {
        reveal_strlit("https://");
        reveal_strlit(":");
        let scheme = "https://"@;
        let colon = ":"@;
        let digits = decimal_chars(port as nat);
        assert(s@ =~= scheme + host@ + colon + digits + path@);
        lemma_encode_concat(scheme + host@ + colon + digits, path@);
        lemma_encode_concat(scheme + host@ + colon, digits);
        lemma_encode_concat(scheme + host@, colon);
        lemma_encode_concat(scheme, host@);
        lemma_encode_decimal(port);
        lemma_encode_ascii(':');
        assert(colon =~= seq![':']);
        assert(is_ascii_chars(scheme));
        is_ascii_chars_encode_utf8(scheme);
        assert(encode_utf8(scheme) =~= seq![104u8, 116, 116, 112, 115, 58, 47, 47]);
        assert(encode_utf8(s@) =~= url_bytes(host.spec_bytes(), port, path.spec_bytes()));
    }
    s
}

/// The length of `b[..e]` without its trailing slashes.
pub open spec fn trim_end_len(b: Seq<u8>, e: int) -> int
    decreases e,
{
    if e > 0 && e <= b.len() && b[e - 1] == 47 {
        trim_end_len(b, e - 1)
    } else {
        e
    }
}

/// Where `b[s..e]` starts once every leading copy of `pat` is stripped.
pub open spec fn after_prefixes(b: Seq<u8>, s: int, e: int, pat: Seq<u8>) -> int
    decreases e - s,
{
    if pat.len() > 0 && 0 <= s && s + pat.len() <= e && e <= b.len() && b.subrange(s, s + pat.len())
        == pat {
        after_prefixes(b, s + pat.len(), e, pat)
    } else {
        s
    }
}

/// The position of the last `:` in `b[s..e]`, or -1.
pub open spec fn last_colon(b: Seq<u8>, s: int, e: int) -> int
    decreases e - s,
{
    if e <= s || e > b.len() {
        -1
    } else if b[e - 1] == 58 {
        e - 1
    } else {
        last_colon(b, s, e - 1)
    }
}

pub open spec fn http_prefix() -> Seq<u8> {
    seq![104u8, 116, 116, 112, 58, 47, 47]
}

pub open spec fn https_prefix() -> Seq<u8> {
    seq![104u8, 116, 116, 112, 115, 58, 47, 47]
}

/// The host of a server's base address: without trailing slashes and `http://` or `https://`
/// prefixes, what comes before the last `:`; `127.0.0.1` when there is no `:`.
pub open spec fn host_of(b: Seq<u8>) -> Seq<u8> {
    let e = trim_end_len(b, b.len() as int);
    let s1 = after_prefixes(b, 0, e, http_prefix());
    let s = after_prefixes(b, s1, e, https_prefix());
    let c = last_colon(b, s, e);
    if c >= 0 {
        b.subrange(s, c)
    } else {
        seq![49u8, 50, 55, 46, 48, 46, 48, 46, 49]
    }
}

/// Text of ASCII characters is its bytes.
proof fn lemma_ascii_bytes(s: &str)
    requires
        is_ascii_chars(s@),
    ensures
        s.spec_bytes() == s@.map_values(|c: char| c as u8),
{
    is_ascii_chars_encode_utf8(s@);
    assert(s.spec_bytes() =~= s@.map_values(|c: char| c as u8));
}

/// In valid UTF-8, the byte after an ASCII byte starts a character.
proof fn lemma_boundary_after_ascii(b: Seq<u8>, j: int)
    requires
        valid_utf8(b),
        0 <= j < b.len(),
        b[j] < 128,
    ensures
        is_char_boundary(b, j + 1),
    decreases b.len(),
{
    let l = length_of_first_scalar(b);
    let pop = pop_first_scalar(b);
    reveal_with_fuel(is_char_boundary, 2);
    if j == 0 {
        assert(l == 1);
        assert(is_char_boundary(pop, 0));
    } else {
        assert(valid_first_scalar(b));
        if j < l {
            assert(is_continuation_byte(b[j]));
        }
        assert(pop[j - l] == b[j]);
        lemma_boundary_after_ascii(pop, j - l);
    }
}

fn trim_end(b: &[u8]) -> (e: usize)
    ensures
        e == trim_end_len(b@, b@.len() as int),
        e <= b@.len(),
{
    let mut e = b.len();
    while e > 0 && b[e - 1] == 47
        invariant
            e <= b@.len(),
            trim_end_len(b@, e as int) == trim_end_len(b@, b@.len() as int),
        decreases e,
    {
        e = e - 1;
    }
    e
}

fn strip_prefixes(b: &[u8], start: usize, e: usize, pat: &[u8]) -> (r: usize)
    requires
        start <= e <= b@.len(),
        pat@.len() > 0,
    ensures
        r == after_prefixes(b@, start as int, e as int, pat@),
        start <= r <= e,
{
    let mut s = start;
    loop
        invariant
            s <= e <= b@.len(),
            pat@.len() > 0,
            after_prefixes(b@, s as int, e as int, pat@) == after_prefixes(b@, start as int, e as int, pat@),
            start <= s,
        decreases e - s,
    {
        if pat.len() > e - s {
            return s;
        }
        let mut k: usize = 0;
        while k < pat.len()
            invariant
                s + pat@.len() <= e <= b@.len(),
                start <= s,
                pat@.len() > 0,
                after_prefixes(b@, s as int, e as int, pat@) == after_prefixes(b@, start as int, e as int, pat@),
                k <= pat@.len(),
                forall|i: int| 0 <= i < k ==> b@[s + i] == pat@[i],
            decreases pat@.len() - k,
        {
            if b[s + k] != pat[k] {
                assert(b@.subrange(s as int, s + pat@.len())[k as int] != pat@[k as int]);
                return s;
            }
            k = k + 1;
        }
        assert(b@.subrange(s as int, s + pat@.len()) =~= pat@);
        s = s + pat.len();
    }
}

fn find_last_colon(b: &[u8], s: usize, e: usize) -> (r: Option<usize>)
    requires
        s <= e <= b@.len(),
    ensures
        match r {
            Some(c) => c == last_colon(b@, s as int, e as int) && s <= c < e && b@[c as int] == 58,
            None => last_colon(b@, s as int, e as int) == -1,
        },
{
    let mut k = e;
    while k > s
        invariant
            s <= k <= e <= b@.len(),
            last_colon(b@, s as int, k as int) == last_colon(b@, s as int, e as int),
        decreases k,
    {
        if b[k - 1] == 58 {
            return Some(k - 1);
        }
        k = k - 1;
    }
    None
}

/// Where to connect, from a dev server's base address (`http://host:port`) and what its
/// `/cert-hash` endpoint advertised: the WebTransport port, its path (`/bc` when none is given)
/// and the certificate hash in hexadecimal.
pub fn endpoint_from(http_base: &str, port: Option<u64>, path: Option<&str>, hash: Option<&str>) -> (r:
    Result<EndpointInfo, DiscoverError>)
    ensures
        match (port, hash) {
            (None, _) => r == Err::<EndpointInfo, DiscoverError>(DiscoverError::MissingPort),
            (Some(_), None) => r == Err::<EndpointInfo, DiscoverError>(DiscoverError::MissingHash),
            (Some(p), Some(h)) => match hash_decoded(h.spec_bytes()) {
                Err(e) => r == Err::<EndpointInfo, DiscoverError>(DiscoverError::BadHash(e)),
                Ok(digest) => r matches Ok(info) && info.cert_hash matches Some(got) && got@ == digest
                    && encode_utf8(info.url@) == url_bytes(
                    host_of(http_base.spec_bytes()),
                    p,
                    match path {
                        Some(q) => q.spec_bytes(),
                        None => seq![47u8, 98, 99],
                    },
                ),
            },
        },
{
    let port = match port {
        Some(p) => p,
        None => return Err(DiscoverError::MissingPort),
    };
    let path = match path {
        Some(q) => q,
        None => {
            let q = "/bc";
            proof {
                reveal_strlit("/bc");
                lemma_ascii_bytes(q);
                assert(q.spec_bytes() =~= seq![47u8, 98, 99]);
            }
            q
        },
    };
    let hex_hash = match hash {
        Some(h) => h,
        None => return Err(DiscoverError::MissingHash),
    };
    let digest = match decode_hash(hex_hash) {
        Ok(d) => d,
        Err(e) => return Err(DiscoverError::BadHash(e)),
    };
    let b = http_base.as_bytes();
    let e = trim_end(b);
    let s1 = strip_prefixes(b, 0, e, &[104u8, 116, 116, 112, 58, 47, 47]);
    let s = strip_prefixes(b, s1, e, &[104u8, 116, 116, 112, 115, 58, 47, 47]);
    let host: &str = match find_last_colon(b, s, e) {
        Some(c) => {
            proof {
                assert(valid_utf8(b@));
                assert(!is_continuation_byte(b@[c as int]));
                assert(is_char_boundary(b@, c as int));
            }
            let (left, _) = http_base.split_at(c);
            proof {
                let lb = left.spec_bytes();
                assert(valid_utf8(lb));
                is_char_boundary_start_end_of_seq(lb);
                if s > 0 && (s as int) < (c as int) {
                    if s == s1 {
                        lemma_stripped_ends_in(b@, 0, e as int, http_prefix());
                    } else {
                        lemma_stripped_ends_in(b@, s1 as int, e as int, https_prefix());
                    }
                    assert(lb[s - 1] == 47);
                    lemma_boundary_after_ascii(lb, s - 1);
                }
                assert(is_char_boundary(lb, s as int));
            }
            let (_, h) = left.split_at(s);
            assert(h.spec_bytes() =~= b@.subrange(s as int, c as int));
            assert(h.spec_bytes() == host_of(b@));
            h
        },
        None => {
            let h = "127.0.0.1";
            proof {
                reveal_strlit("127.0.0.1");
                lemma_ascii_bytes(h);
                assert(h.spec_bytes() =~= seq![49u8, 50, 55, 46, 48, 46, 48, 46, 49]);
            }
            h
        },
    };

    let url = format_url(host, port, path);
    Ok(EndpointInfo { url, cert_hash: Some(digest) })
}

/// A stripped prefix leaves the start right after its last byte.
proof fn lemma_after_at_least(b: Seq<u8>, s: int, e: int, pat: Seq<u8>)
    ensures
        after_prefixes(b, s, e, pat) >= s,
    decreases e - s,
{
    if pat.len() > 0 && 0 <= s && s + pat.len() <= e && e <= b.len() && b.subrange(s, s + pat.len())
        == pat {
        lemma_after_at_least(b, s + pat.len(), e, pat);
    }
}

proof fn lemma_stripped_ends_in(b: Seq<u8>, s: int, e: int, pat: Seq<u8>)
    requires
        pat.len() > 0,
        pat.last() == 47,
        0 <= s,
        after_prefixes(b, s, e, pat) > s,
    ensures
        b[after_prefixes(b, s, e, pat) - 1] == 47,
    decreases e - s,
{
    let n = s + pat.len();
    assert(b.subrange(s, n) == pat);
    lemma_after_at_least(b, n, e, pat);
    if after_prefixes(b, n, e, pat) > n {
        lemma_stripped_ends_in(b, n, e, pat);
    } else {
        assert(b.subrange(s, n)[pat.len() - 1] == b[n - 1]);
    }
}

} // verus!
