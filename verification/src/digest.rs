//! Calls into outside crates and the standard library for BLAKE2b digests,
//! SS58 account text, UUID text, randomness and wall-clock time, and the
//! decimal text of numbers.

use vstd::prelude::*;
use blake2::Digest;
use crate::text::{join, owned};

verus! {

/// The BLAKE2b-512 digest of a byte string (as the `blake2` crate computes it).
pub uninterp spec fn blake2b512(data: Seq<u8>) -> Seq<u8>;

/// The SS58 text of a 32-byte account id with the generic Substrate prefix
/// (as `subxt_core::utils::AccountId32` displays it).
pub uninterp spec fn ss58_text(account: Seq<u8>) -> Seq<char>;

/// The lowercase hexadecimal digit of a number below 16.
pub open spec fn hex_digit(n: int) -> char {
    if n < 10 { (48 + n) as char } else { (87 + n) as char }
}

/// The 32 lowercase hexadecimal digits of a 128-bit number, most significant
/// first.
pub open spec fn hex32(id: u128) -> Seq<char> {
    Seq::new(32, |i: int| hex_digit((id as int / vstd::arithmetic::power::pow(16, (31 - i) as nat)) % 16))
}

/// The hyphenated lowercase text of a UUID given by its 128-bit value: its 32
/// hexadecimal digits in groups of 8, 4, 4, 4 and 12, separated by hyphens.
pub open spec fn uuid_text(id: u128) -> Seq<char> {
    let h = hex32(id);
    h.subrange(0, 8) + "-"@ + h.subrange(8, 12) + "-"@ + h.subrange(12, 16) + "-"@ + h.subrange(16, 20) + "-"@
        + h.subrange(20, 32)
}

/// Decimal digits of a number, most significant first, without leading zeros.
pub open spec fn decimal_text(n: u64) -> Seq<char>
    decreases n,
{
    if n < 10 {
        seq![digit_char(n)]
    } else {
        decimal_text(n / 10).push(digit_char(n % 10))
    }
}

/// The character of a decimal digit.
pub open spec fn digit_char(d: u64) -> char {
    if d == 0 { '0' } else if d == 1 { '1' } else if d == 2 { '2' } else if d == 3 { '3' }
    else if d == 4 { '4' } else if d == 5 { '5' } else if d == 6 { '6' } else if d == 7 { '7' }
    else if d == 8 { '8' } else { '9' }
}

/// `blake2::Blake2b512::digest`: the 64-byte BLAKE2b-512 digest of `data`.
/// Trusted: the result is named by `blake2b512`, and its length is the
/// documented output size of the algorithm.
#[verifier::external_body]
pub(crate) fn blake2b512_digest(data: &[u8]) -> (d: Vec<u8>)
    ensures
        d@ == blake2b512(data@),
        d@.len() == 64,
{
    blake2::Blake2b512::digest(data).to_vec()
}

/// `Display` of `subxt_core::utils::AccountId32`: the SS58 text of a 32-byte
/// account id. Trusted: the result is named by `ss58_text`.
#[verifier::external_body]
pub(crate) fn account_ss58(account: &[u8]) -> (s: String)
    requires
        account@.len() == 32,
    ensures
        s@ == ss58_text(account@),
{
    let bytes: [u8; 32] = account.try_into().unwrap();
    subxt_core::utils::AccountId32(bytes).to_string()
}

/// `Display` of `uuid::Uuid`: the hyphenated text of the UUID whose 128-bit
/// value is `id` (big-endian). Trusted: the result is the text that
/// `uuid_text` spells out, as the crate formats a UUID.
#[verifier::external_body]
pub(crate) fn uuid_string(id: u128) -> (s: String)
    ensures
        s@ == uuid_text(id),
{
    uuid::Uuid::from_u128(id).to_string()
}

/// `uuid::Uuid::new_v4`: a fresh random message identifier. Trusted; nothing
/// is stated of the value, which is random.
#[verifier::external_body]
pub(crate) fn random_message_id() -> (id: u128) {
    uuid::Uuid::new_v4().as_u128()
}

/// `rand::random::<[u8; 32]>`: 32 random bytes. Trusted: only the length is
/// stated; the bytes are random.
#[verifier::external_body]
pub(crate) fn random_hash32() -> (h: Vec<u8>)
    ensures
        h@.len() == 32,
{
    rand::random::<[u8; 32]>().to_vec()
}

/// `std::time::SystemTime::now`, in milliseconds since the Unix epoch (zero for
/// a clock set before the epoch). Trusted; nothing is stated of the value,
/// which is the time.
#[verifier::external_body]
pub(crate) fn now_millis() -> (t: u64) {
    std::time::SystemTime::now().duration_since(std::time::UNIX_EPOCH).map(|d| d.as_millis() as u64).unwrap_or(0)
}

/// The text of one decimal digit.
fn digit_str(d: u64) -> (t: &'static str)
    requires
        d < 10,
    ensures
        t@ == seq![digit_char(d)],
{
    proof {
        reveal_strlit("0");
        reveal_strlit("1");
        reveal_strlit("2");
        reveal_strlit("3");
        reveal_strlit("4");
        reveal_strlit("5");
        reveal_strlit("6");
        reveal_strlit("7");
        reveal_strlit("8");
        reveal_strlit("9");
    }
    if d == 0 { "0" } else if d == 1 { "1" } else if d == 2 { "2" } else if d == 3 { "3" }
    else if d == 4 { "4" } else if d == 5 { "5" } else if d == 6 { "6" } else if d == 7 { "7" }
    else if d == 8 { "8" } else { "9" }
}

/// The decimal text of a number.
pub(crate) fn decimal_string(n: u64) -> (s: String)
    ensures
        s@ == decimal_text(n),
    decreases n,
{
    if n < 10 {
        owned(digit_str(n))
    } else {
        let head = decimal_string(n / 10);
        let r = join(head.as_str(), digit_str(n % 10));
        assert(r@ =~= decimal_text(n / 10).push(digit_char(n % 10)));
        r
    }
}

} // verus!
