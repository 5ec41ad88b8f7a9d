//! Randomness, and the ids that are made of it.
use vstd::prelude::*;
use vstd::string::*;

use crate::error;
use crate::error::ChannelError;
use crate::text::cat;

verus! {

/// `getrandom::getrandom` on an array of bytes; the words of its error where there
/// is no randomness to be had. Which bytes come is left to chance.
#[verifier::external_body]
pub(crate) fn random_bytes<const N: usize>() -> (r: Result<[u8; N], String>) {
    let mut bytes = [0u8; N];
    getrandom::getrandom(&mut bytes).map(|_| bytes).map_err(|e| e.to_string())
}

/// The words of a draw that failed.
pub open spec fn draw_failure(why: Seq<char>) -> Seq<char> {
    "RNG failure: "@ + why
}

/// The hexadecimal digit of a number below sixteen, in lower case.
pub open spec fn hex_digit(n: int) -> char {
    "0123456789abcdef"@[n]
}

/// The two hexadecimal digits of a byte.
pub open spec fn byte_hex(b: int) -> Seq<char> {
    seq![hex_digit(b / 16), hex_digit(b % 16)]
}

/// The hexadecimal digits of bytes.
pub open spec fn bytes_hex(bytes: Seq<int>) -> Seq<char>
    decreases bytes.len(),
{
    if bytes.len() == 0 {
        Seq::empty()
    } else {
        bytes_hex(bytes.drop_last()) + byte_hex(bytes.last())
    }
}

/// Random bytes as those of a UUID: the upper half of byte six says that it is a
/// random one, the upper two bits of byte eight say which layout it has.
pub open spec fn uuid_bytes(bytes: Seq<u8>) -> Seq<int> {
    Seq::new(
        bytes.len(),
        |i: int|
            if i == 6 {
                0x40 + bytes[i] % 16
            } else if i == 8 {
                0x80 + bytes[i] % 64
            } else {
                bytes[i] as int
            },
    )
}

/// The text of the random UUID of sixteen bytes: their digits in five groups.
pub open spec fn uuid_of(bytes: Seq<u8>) -> Seq<char> {
    let b = uuid_bytes(bytes);
    bytes_hex(b.subrange(0, 4)) + "-"@ + bytes_hex(b.subrange(4, 6)) + "-"@ + bytes_hex(b.subrange(6, 8)) + "-"@
        + bytes_hex(b.subrange(8, 10)) + "-"@ + bytes_hex(b.subrange(10, 16))
}

/// `uuid::Builder::from_random_bytes`, and the text of the UUID that it builds:
/// the digits of the bytes in five groups, with the marks of a random UUID set.
#[verifier::external_body]
fn uuid_text(bytes: [u8; 16]) -> (r: String)
    ensures
        r@ == uuid_of(bytes@),
{
    uuid::Builder::from_random_bytes(bytes).into_uuid().to_string()
}

/// The id that a random draw gives, or the words of a draw that failed.
pub fn id_from_draw(draw: Result<[u8; 16], String>) -> (r: Result<String, String>)
    ensures
        match (draw, r) {
            (Ok(bytes), Ok(id)) => id@ == uuid_of(bytes@),
            (Err(e), Err(words)) => words@ == draw_failure(e@),
            _ => false,
        },
{
    match draw {
        Ok(bytes) => Ok(uuid_text(bytes)),
        Err(e) => Err(cat("RNG failure: ", e.as_str())),
    }
}

/// A random id.
pub fn generate_id() -> (r: Result<String, ChannelError>)
    ensures
        match r {
            Ok(id) => exists|bytes: [u8; 16]| id@ == #[trigger] uuid_of(bytes@),
            Err(e) => exists|why: Seq<char>| e@ == error::ErrorView::InvalidConfig(#[trigger] draw_failure(why)),
        },
{
    match id_from_draw(random_bytes()) {
        Ok(id) => Ok(id),
        Err(words) => Err(ChannelError::InvalidConfig(words)),
    }
}

/// Whether a character is a hexadecimal digit in lower case.
pub open spec fn is_hex(c: char) -> bool {
    '0' <= c <= '9' || 'a' <= c <= 'f'
}

/// Whether a text is a random UUID in its usual form.
pub open spec fn is_random_uuid(s: Seq<char>) -> bool {
    &&& s.len() == 36
    &&& forall|i: int|
        0 <= i < 36 ==> if i == 8 || i == 13 || i == 18 || i == 23 {
            #[trigger] s[i] == '-'
        } else {
            is_hex(s[i])
        }
    &&& s[14] == '4'
    &&& s[19] == '8' || s[19] == '9' || s[19] == 'a' || s[19] == 'b'
}

proof fn lemma_hex_digit(n: int)
    requires
        0 <= n < 16,
    ensures
        is_hex(hex_digit(n)),
        n == 4 ==> hex_digit(n) == '4',
        8 <= n < 12 ==> hex_digit(n) == '8' || hex_digit(n) == '9' || hex_digit(n) == 'a' || hex_digit(n) == 'b',
{
    reveal_strlit("0123456789abcdef");
}

proof fn lemma_bytes_hex(bytes: Seq<int>)
    requires
        forall|i: int| 0 <= i < bytes.len() ==> 0 <= #[trigger] bytes[i] < 256,
    ensures
        bytes_hex(bytes).len() == 2 * bytes.len(),
        forall|i: int| 0 <= i < 2 * bytes.len() ==> is_hex(#[trigger] bytes_hex(bytes)[i]),
        bytes.len() > 0 ==> bytes_hex(bytes)[0] == hex_digit(bytes[0] / 16),
    decreases bytes.len(),
{
    if bytes.len() > 0 {
        let head = bytes.drop_last();
        lemma_bytes_hex(head);
        lemma_hex_digit(bytes.last() / 16);
        lemma_hex_digit(bytes.last() % 16);
        assert forall|i: int| 0 <= i < 2 * bytes.len() implies is_hex(#[trigger] bytes_hex(bytes)[i]) by {
            if i < 2 * head.len() {
                assert(bytes_hex(bytes)[i] == bytes_hex(head)[i]);
            }
        }
        if head.len() > 0 {
            assert(bytes_hex(bytes)[0] == bytes_hex(head)[0]);
        }
    }
}

/// Every id is a random UUID in its usual form.
pub proof fn law_id_is_a_random_uuid(bytes: Seq<u8>)
    requires
        bytes.len() == 16,
    ensures
        is_random_uuid(uuid_of(bytes)),
{
    let b = uuid_bytes(bytes);
    assert forall|i: int| 0 <= i < 16 implies 0 <= #[trigger] b[i] < 256 by {}
    lemma_bytes_hex(b.subrange(0, 4));
    lemma_bytes_hex(b.subrange(4, 6));
    lemma_bytes_hex(b.subrange(6, 8));
    lemma_bytes_hex(b.subrange(8, 10));
    lemma_bytes_hex(b.subrange(10, 16));
    lemma_hex_digit(b[6] / 16);
    lemma_hex_digit(b[8] / 16);
    reveal_strlit("-");
    let s = uuid_of(bytes);
    assert(s.len() == 36);
    assert(s[14] == bytes_hex(b.subrange(6, 8))[0]);
    assert(s[19] == bytes_hex(b.subrange(8, 10))[0]);
    assert forall|i: int| 0 <= i < 36 implies if i == 8 || i == 13 || i == 18 || i == 23 {
        #[trigger] s[i] == '-'
    } else {
        is_hex(s[i])
    } by {
        if i < 8 {
            assert(s[i] == bytes_hex(b.subrange(0, 4))[i]);
        } else if 8 < i < 13 {
            assert(s[i] == bytes_hex(b.subrange(4, 6))[i - 9]);
        } else if 13 < i < 18 {
            assert(s[i] == bytes_hex(b.subrange(6, 8))[i - 14]);
        } else if 18 < i < 23 {
            assert(s[i] == bytes_hex(b.subrange(8, 10))[i - 19]);
        } else if 23 < i {
            assert(s[i] == bytes_hex(b.subrange(10, 16))[i - 24]);
        }
    }
}

/// A failed draw says so, and why.
pub proof fn law_failed_draw_says_why(why: Seq<char>)
    ensures
        draw_failure(why) == "RNG failure: "@ + why,
{
}

} // verus!
