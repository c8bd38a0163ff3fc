//! Hex decoding of the dev server's certificate hash, as the launch page passes it.

use vstd::prelude::*;
use vstd::string::StringSliceAdditionalSpecFns;

verus! {

/// The value of one hexadecimal digit (`0-9`, `a-f`, `A-F`), or `None`.
pub open spec fn hex_digit(c: u8) -> Option<u8> {
    if 48 <= c && c <= 57 {
        Some((c - 48) as u8)
    } else if 97 <= c && c <= 102 {
        Some((c - 87) as u8)
    } else if 65 <= c && c <= 70 {
        Some((c - 55) as u8)
    } else {
        None
    }
}

/// What a two-byte piece of text parses to as a base-16 `u8`: two digits, or an optional `+`
/// sign followed by one digit.
pub open spec fn hex_pair(a: u8, b: u8) -> Option<u8> {
    if a == 43 {
        hex_digit(b)
    } else {
        match (hex_digit(a), hex_digit(b)) {
            (Some(h), Some(l)) => Some((h * 16 + l) as u8),
            _ => None,
        }
    }
}

/// The pieces before the `k`-th all parse.
pub open spec fn pairs_parse_before(b: Seq<u8>, k: int) -> bool {
    forall|j: int| 0 <= j < k ==> #[trigger] hex_pair(b[2 * j], b[2 * j + 1]) is Some
}

/// Whether a byte continues a multi-byte UTF-8 character (it cannot start a slice).
pub open spec fn is_continuation(c: u8) -> bool {
    128 <= c && c < 192
}

/// Text whose two-byte pieces can be sliced out in turn until the first that does not parse:
/// no piece that is taken ends inside a character.
pub open spec fn pieces_sliceable(b: Seq<u8>) -> bool {
    b.len() % 2 == 0 ==> forall|k: int|
        0 <= k && 2 * k + 2 < b.len() && pairs_parse_before(b, k) ==> !is_continuation(
            #[trigger] b[2 * k + 2],
        )
}

/// The bytes that text of two-digit pieces decodes to, or `None` when its length is odd or a
/// piece does not parse.
pub open spec fn decoded(b: Seq<u8>) -> Option<Seq<u8>> {
    if b.len() % 2 != 0 || !pairs_parse_before(b, b.len() as int / 2) {
        None
    } else {
        Some(Seq::new(b.len() / 2, |k: int| hex_pair(b[2 * k], b[2 * k + 1])->0))
    }
}

fn digit(c: u8) -> (r: Option<u8>)
    ensures
        r == hex_digit(c),
{
    if 48 <= c && c <= 57 {
        Some(c - 48)
    } else if 97 <= c && c <= 102 {
        Some(c - 87)
    } else if 65 <= c && c <= 70 {
        Some(c - 55)
    } else {
        None
    }
}

fn pair(a: u8, b: u8) -> (r: Option<u8>)
    ensures
        r == hex_pair(a, b),
{
    if a == 43 {
        digit(b)
    } else {
        match (digit(a), digit(b)) {
            (Some(h), Some(l)) => Some(h * 16 + l),
            _ => None,
        }
    }
}

/// Decodes text of two-digit hexadecimal pieces into bytes; `None` when the length is odd or a
/// piece is not a base-16 byte.
pub fn decode_hex(s: &str) -> (r: Option<Vec<u8>>)
    requires
        pieces_sliceable(s.spec_bytes()),
    ensures
        r matches Some(v) ==> decoded(s.spec_bytes()) == Some(v@),
        r is None ==> decoded(s.spec_bytes()) is None,
{
    let b = s.as_bytes();
    let n = b.len();
    if n % 2 != 0 {
        return None;
    }
    let mut out: Vec<u8> = Vec::new();
    let mut k: usize = 0;
    while k < n / 2
        invariant
            b@ == s.spec_bytes(),
            n == b@.len(),
            n % 2 == 0,
            k <= n / 2,
            out@.len() == k,
            pairs_parse_before(b@, k as int),
            forall|j: int| 0 <= j < k ==> out@[j] == #[trigger] hex_pair(b@[2 * j], b@[2 * j + 1])->0,
        decreases n / 2 - k,
    {
        match pair(b[2 * k], b[2 * k + 1]) {
            Some(v) => out.push(v),
            None => {
                assert(!pairs_parse_before(b@, n as int / 2)) by {
                    assert(hex_pair(b@[2 * k as int], b@[2 * k + 1]) is None);
                }
                return None;
            },
        }
        k = k + 1;
    }
    assert(out@ =~= Seq::new(n as nat / 2, |j: int| hex_pair(b@[2 * j], b@[2 * j + 1])->0));
    Some(out)
}

/// Whether text can be cut into its two-byte pieces up to the first that does not parse, without
/// cutting inside a character (what [`decode_hex`] asks of its input).
pub fn slices_cleanly(s: &str) -> (r: bool)
    ensures
        r == pieces_sliceable(s.spec_bytes()),
{
    let b = s.as_bytes();
    let n = b.len();
    if n % 2 != 0 {
        return true;
    }
    let mut k: usize = 0;
    while k < n / 2
        invariant
            b@ == s.spec_bytes(),
            n == b@.len(),
            n % 2 == 0,
            k <= n / 2,
            pairs_parse_before(b@, k as int),
            forall|j: int|
                0 <= j < k && 2 * j + 2 < n && pairs_parse_before(b@, j) ==> !is_continuation(
                    #[trigger] b@[2 * j + 2],
                ),
        decreases n / 2 - k,
    {
        if 2 * k + 2 < n && 128 <= b[2 * k + 2] && b[2 * k + 2] < 192 {
            return false;
        }
        if pair(b[2 * k], b[2 * k + 1]).is_none() {
            assert forall|j: int|
                0 <= j && 2 * j + 2 < n && pairs_parse_before(b@, j) implies !is_continuation(
                    #[trigger] b@[2 * j + 2],
                ) by {
                if j > k {
                    assert(hex_pair(b@[2 * k as int], b@[2 * k + 1]) is None);
                }
            }
            return true;
        }
        k = k + 1;
    }
    true
}

/// The character of hexadecimal digit `d` (below 16), in lower case.
pub open spec fn hex_char(d: int) -> u8 {
    if d < 10 {
        (48 + d) as u8
    } else {
        (87 + d) as u8
    }
}

/// Decoding undoes writing bytes in hexadecimal: every byte written as two lower- or upper-case
/// digits reads back as itself; a decoded text has one byte per two characters; and text of odd
/// length never decodes.
pub proof fn lemma_hex_reads_back(v: u8, b: Seq<u8>)
    ensures
        hex_pair(hex_char(v as int / 16), hex_char(v as int % 16)) == Some(v),
        hex_pair(
            if v as int / 16 < 10 { hex_char(v as int / 16) } else { (hex_char(v as int / 16) - 32) as u8 },
            if v as int % 16 < 10 { hex_char(v as int % 16) } else { (hex_char(v as int % 16) - 32) as u8 },
        ) == Some(v),
        decoded(b) matches Some(out) ==> out.len() * 2 == b.len(),
        b.len() % 2 == 1 ==> decoded(b) is None,
{
}

} // verus!
