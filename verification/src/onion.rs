//! Host names of version 3 onion services.
use crate::text::characters;
use sha3::Digest;
use vstd::prelude::*;
use vstd::string::*;

verus! {

/// The SHA3-256 digest of `data`, as `sha3::Sha3_256::digest` gives it.
pub uninterp spec fn sha3_256_digest(data: Seq<u8>) -> Seq<u8>;

/// `sha3::Sha3_256::digest`: the 32 bytes of the digest of `data`.
#[verifier::external_body]
pub(crate) fn sha3_256(data: &[u8]) -> (digest: [u8; 32])
    ensures
        digest@ == sha3_256_digest(data@),
{
    sha3::Sha3_256::digest(data).into()
}

/// The value of place `j` of a byte, `0 <= j < 8`, counted from the highest.
pub open spec fn place(j: int) -> int {
    if j == 0 {
        128
    } else if j == 1 {
        64
    } else if j == 2 {
        32
    } else if j == 3 {
        16
    } else if j == 4 {
        8
    } else if j == 5 {
        4
    } else if j == 6 {
        2
    } else {
        1
    }
}

/// Bit `k` of `data`, the highest bit of the first byte being the first; 0 past the end.
pub open spec fn bit(data: Seq<u8>, k: int) -> int {
    if 0 <= k < 8 * data.len() {
        (data[k / 8] as int / place(k % 8)) % 2
    } else {
        0
    }
}

/// The number that the five bits of `data` from `5 * i` on spell.
pub open spec fn five_bits(data: Seq<u8>, i: int) -> int {
    16 * bit(data, 5 * i) + 8 * bit(data, 5 * i + 1) + 4 * bit(data, 5 * i + 2) + 2 * bit(
        data,
        5 * i + 3,
    ) + bit(data, 5 * i + 4)
}

/// The base 32 digit for `n`, `0 <= n < 32`: `A` to `Z`, then `2` to `7`.
pub open spec fn base32_digit(n: int) -> char {
    if n < 26 {
        (65 + n) as char
    } else {
        (24 + n) as char
    }
}

/// `data` in base 32, without padding: a digit for every five bits that have begun.
pub open spec fn base32_text(data: Seq<u8>) -> Seq<char> {
    Seq::new(((8 * data.len() + 4) / 5) as nat, |i: int| base32_digit(five_bits(data, i)))
}

/// `data_encoding::BASE32_NOPAD.encode`: base 32 with the alphabet `A-Z2-7`, without padding. The
/// call takes no more than a 512th of what a machine can address.
#[verifier::external_body]
fn base32_encode(data: &[u8]) -> (text: String)
    requires
        data@.len() <= usize::MAX / 512,
    ensures
        text@ == base32_text(data@),
{
    data_encoding::BASE32_NOPAD.encode(data)
}

/// The lower-case form of an ASCII character.
pub open spec fn lower(c: char) -> char {
    if 'A' <= c <= 'Z' {
        (c as u32 + 32) as char
    } else {
        c
    }
}

/// The lower-case letters in order.
const LETTERS: &'static str = "abcdefghijklmnopqrstuvwxyz";

/// Letter `k` is that of code `97 + k`.
proof fn lemma_letters()
    ensures
        LETTERS@ == Seq::new(26, |k: int| (97 + k) as char),
{
    reveal_strlit("abcdefghijklmnopqrstuvwxyz");
    assert(LETTERS@ =~= Seq::new(26, |k: int| (97 + k) as char));
}

/// A text with its ASCII letters in lower case.
fn lower_case(text: &str) -> (r: String)
    ensures
        r@ == text@.map_values(|c: char| lower(c)),
{
    let chars = characters(text);
    let ghost low = text@.map_values(|c: char| lower(c));
    let mut r = String::new();
    proof {
        lemma_letters();
    }
    for i in 0..chars.len()
        invariant
            chars@ == text@,
            low == text@.map_values(|c: char| lower(c)),
            LETTERS@ == Seq::new(26, |k: int| (97 + k) as char),
            r@ == low.take(i as int),
    {
        let c = chars[i];
        if 'A' <= c && c <= 'Z' {
            let k: usize = (c as u32 - 65) as usize;
            r.append(LETTERS.substring_char(k, k + 1));
        } else {
            r.append(text.substring_char(i, i + 1));
        }
        assert(r@ =~= low.take(i + 1));
    }
    assert(low.take(low.len() as int) =~= low);
    r
}

/// What is hashed for the checksum of the service with this key.
pub open spec fn checksum_input(pubkey: Seq<u8>) -> Seq<u8> {
    seq![46u8, 111, 110, 105, 111, 110, 32, 99, 104, 101, 99, 107, 115, 117, 109] + pubkey + seq![
        3u8,
    ]
}

/// The host name for a key and its checksum: both and the version, in lower-case base 32, under
/// `.onion`.
pub open spec fn onion_text(pubkey: Seq<u8>, checksum: Seq<u8>) -> Seq<char> {
    base32_text(pubkey + checksum + seq![3u8]).map_values(|c: char| lower(c)) + ".onion"@
}

/// The host name for a key and the first two bytes of its digest.
pub fn onion_address(pubkey: &[u8; 32], checksum: [u8; 2]) -> (host: String)
    ensures
        host@ == onion_text(pubkey@, checksum@),
{
    let mut raw: Vec<u8> = Vec::new();
    raw.extend_from_slice(pubkey.as_slice());
    raw.extend_from_slice(checksum.as_slice());
    raw.push(3);
    assert(raw@ =~= pubkey@ + checksum@ + seq![3u8]);
    let text = base32_encode(raw.as_slice());
    let low = lower_case(text.as_str());
    low.concat(".onion")
}

/// The host name of the version 3 onion service with this key.
pub fn tor_v3_onion_from_pubkey(pubkey: &[u8; 32]) -> (host: String)
    ensures
        host@ == onion_text(pubkey@, sha3_256_digest(checksum_input(pubkey@)).take(2)),
        sha3_256_digest(checksum_input(pubkey@)).len() == 32,
        host@.len() == 62,
{
    let mut input: Vec<u8> = Vec::new();
    input.extend_from_slice(
        [46u8, 111, 110, 105, 111, 110, 32, 99, 104, 101, 99, 107, 115, 117, 109].as_slice(),
    );
    input.extend_from_slice(pubkey.as_slice());
    input.push(3);
    assert(input@ =~= checksum_input(pubkey@));
    let digest = sha3_256(input.as_slice());
    let checksum: [u8; 2] = [digest[0], digest[1]];
    assert(checksum@ =~= digest@.take(2));
    proof {
        law_onion_shape(pubkey@, checksum@);
    }
    onion_address(pubkey, checksum)
}

/// A group of five bits is a number below 32.
proof fn lemma_five_bits(data: Seq<u8>, i: int)
    ensures
        0 <= five_bits(data, i) < 32,
{
}

/// Every host name is 62 characters long, the last six of which are `.onion`.
pub proof fn law_onion_shape(pubkey: Seq<u8>, checksum: Seq<u8>)
    requires
        pubkey.len() == 32,
        checksum.len() == 2,
    ensures
        onion_text(pubkey, checksum).len() == 62,
        onion_text(pubkey, checksum).skip(56) == ".onion"@,
{
    reveal_strlit(".onion");
    assert(onion_text(pubkey, checksum).skip(56) =~= ".onion"@);
}

/// Two digits in lower case are the same only if they stand for the same number.
proof fn lemma_digit_injective(m: int, n: int)
    requires
        0 <= m < 32,
        0 <= n < 32,
        lower(base32_digit(m)) == lower(base32_digit(n)),
    ensures
        m == n,
{
}

/// Groups of five bits that are the same number have the same bits.
proof fn lemma_five_bits_injective(a: Seq<u8>, b: Seq<u8>, i: int)
    requires
        five_bits(a, i) == five_bits(b, i),
    ensures
        forall|k: int| 5 * i <= k < 5 * i + 5 ==> #[trigger] bit(a, k) == bit(b, k),
{
}

/// Two bytes with the same bits are the same.
proof fn lemma_bits_make_a_byte(x: u8, y: u8)
    requires
        (x / 128) % 2 == (y / 128) % 2,
        (x / 64) % 2 == (y / 64) % 2,
        (x / 32) % 2 == (y / 32) % 2,
        (x / 16) % 2 == (y / 16) % 2,
        (x / 8) % 2 == (y / 8) % 2,
        (x / 4) % 2 == (y / 4) % 2,
        (x / 2) % 2 == (y / 2) % 2,
        (x / 1) % 2 == (y / 1) % 2,
    ensures
        x == y,
{
    assert(x == y) by (bit_vector)
        requires
            (x / 128) % 2 == (y / 128) % 2,
            (x / 64) % 2 == (y / 64) % 2,
            (x / 32) % 2 == (y / 32) % 2,
            (x / 16) % 2 == (y / 16) % 2,
            (x / 8) % 2 == (y / 8) % 2,
            (x / 4) % 2 == (y / 4) % 2,
            (x / 2) % 2 == (y / 2) % 2,
            (x / 1) % 2 == (y / 1) % 2,
    ;
}

/// The bits of byte `n` stand at the eight places from `8 * n` on.
proof fn lemma_bit_of_byte(data: Seq<u8>, n: int, j: int)
    requires
        0 <= n < data.len(),
        0 <= j < 8,
    ensures
        bit(data, 8 * n + j) == (data[n] as int / place(j)) % 2,
{
    assert((8 * n + j) / 8 == n);
    assert((8 * n + j) % 8 == j);
}

/// Two sequences of bytes with the same bits are the same.
proof fn lemma_bits_determine(a: Seq<u8>, b: Seq<u8>)
    requires
        a.len() == b.len(),
        forall|k: int| 0 <= k < 8 * a.len() ==> #[trigger] bit(a, k) == bit(b, k),
    ensures
        a == b,
{
    assert forall|n: int| 0 <= n < a.len() implies a[n] == b[n] by {
        assert forall|j: int| 0 <= j < 8 implies (a[n] as int / #[trigger] place(j)) % 2 == (
        b[n] as int / place(j)) % 2 by {
            lemma_bit_of_byte(a, n, j);
            lemma_bit_of_byte(b, n, j);
            assert(bit(a, 8 * n + j) == bit(b, 8 * n + j));
        }
        lemma_same_places(a[n], b[n]);
    }
    assert(a =~= b);
}

/// Two bytes with the same bit at every place are the same.
proof fn lemma_same_places(x: u8, y: u8)
    requires
        forall|j: int|
            0 <= j < 8 ==> (x as int / #[trigger] place(j)) % 2 == (y as int / place(j)) % 2,
    ensures
        x == y,
{
    assert(place(0) == 128);
    assert(place(1) == 64);
    assert(place(2) == 32);
    assert(place(3) == 16);
    assert(place(4) == 8);
    assert(place(5) == 4);
    assert(place(6) == 2);
    assert(place(7) == 1);
    lemma_bits_make_a_byte(x, y);
}

/// Two keys, each with a checksum, get the same host name only if keys and checksums are the
/// same: no service is dialled in place of another.
pub proof fn law_onion_injective(
    key_a: Seq<u8>,
    checksum_a: Seq<u8>,
    key_b: Seq<u8>,
    checksum_b: Seq<u8>,
)
    requires
        key_a.len() == 32,
        key_b.len() == 32,
        checksum_a.len() == 2,
        checksum_b.len() == 2,
        onion_text(key_a, checksum_a) == onion_text(key_b, checksum_b),
    ensures
        key_a == key_b,
        checksum_a == checksum_b,
{
    let a = key_a + checksum_a + seq![3u8];
    let b = key_b + checksum_b + seq![3u8];
    assert forall|k: int| 0 <= k < 8 * a.len() implies #[trigger] bit(a, k) == bit(b, k) by {
        let i = k / 5;
        let low_a = base32_text(a).map_values(|c: char| lower(c));
        let low_b = base32_text(b).map_values(|c: char| lower(c));
        assert(low_a[i] == onion_text(key_a, checksum_a)[i]);
        assert(low_b[i] == onion_text(key_b, checksum_b)[i]);
        lemma_five_bits(a, i);
        lemma_five_bits(b, i);
        lemma_digit_injective(five_bits(a, i), five_bits(b, i));
        lemma_five_bits_injective(a, b, i);
    }
    lemma_bits_determine(a, b);
    assert(key_a =~= a.take(32));
    assert(key_b =~= b.take(32));
    assert(checksum_a =~= a.subrange(32, 34));
    assert(checksum_b =~= b.subrange(32, 34));
}

/// What is hashed for a key: the words `.onion checksum`, the key and the version.
pub proof fn law_checksum_input(pubkey: Seq<u8>)
    ensures
        checksum_input(pubkey).len() == pubkey.len() + 16,
        forall|i: int|
            0 <= i < 15 ==> #[trigger] checksum_input(pubkey)[i] as int
                == ".onion checksum"@[i] as int,
        forall|i: int|
            0 <= i < pubkey.len() ==> checksum_input(pubkey)[15 + i] == #[trigger] pubkey[i],
        checksum_input(pubkey)[pubkey.len() as int + 15] == 3,
{
    reveal_strlit(".onion checksum");
}

/// The host name of a key and a checksum, character by character: the base 32 text of the key, the
/// checksum and the version, with each letter from `A` to `Z` 32 codes up, and then `.onion`.
pub proof fn law_onion_text(pubkey: Seq<u8>, checksum: Seq<u8>)
    requires
        pubkey.len() == 32,
        checksum.len() == 2,
    ensures
        onion_text(pubkey, checksum).len() == 62,
        forall|i: int|
            0 <= i < 56 ==> #[trigger] onion_text(pubkey, checksum)[i] as int == {
                let c = base32_text(pubkey + checksum + seq![3u8])[i] as int;
                if 65 <= c <= 90 {
                    c + 32
                } else {
                    c
                }
            },
        onion_text(pubkey, checksum)[56] == '.',
        onion_text(pubkey, checksum)[57] == 'o',
        onion_text(pubkey, checksum)[58] == 'n',
        onion_text(pubkey, checksum)[59] == 'i',
        onion_text(pubkey, checksum)[60] == 'o',
        onion_text(pubkey, checksum)[61] == 'n',
{
    reveal_strlit(".onion");
}

} // verus!
