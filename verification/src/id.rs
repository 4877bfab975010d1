//! Session identity and its two wire codecs.
//!
//! A session id is a 128-bit value.  On the wire it travels either as its raw
//! 16-byte big-endian form (the body answering `open`) or as its canonical
//! textual form (embedded in the `upload`/`download`/`close` paths).  Both
//! codecs are implemented and proved here; the round-trip laws say that
//! decoding an encoded id gives the id back.

use vstd::arithmetic::div_mod::{lemma_breakdown, lemma_div_denominator, lemma_small_mod};
use vstd::prelude::*;

verus! {

/// ASCII codes that the textual codec speaks of.
pub const HYPHEN: u8 = 45;

pub const ZERO: u8 = 48;

pub const NINE: u8 = 57;

pub const LOWER_A: u8 = 97;

pub const LOWER_F: u8 = 102;

pub const UPPER_A: u8 = 65;

pub const UPPER_F: u8 = 70;

/// 256 raised to the power `k`.
pub open spec fn pow256(k: nat) -> int
    decreases k,
{
    if k == 0 {
        1
    } else {
        256 * pow256((k - 1) as nat)
    }
}

/// Value of a big-endian base-256 digit string.
pub open spec fn bytes_val(s: Seq<u8>) -> int
    decreases s.len(),
{
    if s.len() == 0 {
        0
    } else {
        bytes_val(s.drop_last()) * 256 + s.last()
    }
}

/// The big-endian bytes of the 128-bit id, most significant first.
pub open spec fn spec_id_bytes(id: u128) -> Seq<u8> {
    Seq::new(16, |j: int| ((id as int / pow256((15 - j) as nat)) % 256) as u8)
}

proof fn lemma_pow256_pos(k: nat)
    ensures
        pow256(k) >= 1,
    decreases k,
{
    if k > 0 {
        lemma_pow256_pos((k - 1) as nat);
    }
}

proof fn lemma_pow256_increases(a: nat, b: nat)
    requires
        a <= b,
    ensures
        pow256(a) <= pow256(b),
    decreases b,
{
    if a < b {
        lemma_pow256_increases(a, (b - 1) as nat);
        lemma_pow256_pos((b - 1) as nat);
    }
}

/// The big-endian digit string of length `n` drawn from `x` has value
/// `x % 256^n`.
proof fn lemma_bytes_val_of_digits(x: int, n: nat)
    requires
        0 <= x,
    ensures
        bytes_val(Seq::new(n, |j: int| ((x / pow256((n - 1 - j) as nat)) % 256) as u8)) == x
            % pow256(n),
    decreases n,
{
    let s = Seq::new(n, |j: int| ((x / pow256((n - 1 - j) as nat)) % 256) as u8);
    if n == 0 {
        lemma_small_mod(0, 1);
        assert(x % pow256(0) == 0) by {
            assert(pow256(0) == 1);
        }
    } else {
        let m = (n - 1) as nat;
        let prev = Seq::new(m, |j: int| (((x / 256) / pow256((m - 1 - j) as nat)) % 256) as u8);
        lemma_bytes_val_of_digits(x / 256, m);
        assert(s.drop_last() =~= prev) by {
            assert forall|j: int| 0 <= j < m implies s[j] == prev[j] by {
                lemma_pow256_pos((m - 1 - j) as nat);
                lemma_div_denominator(x, 256, pow256((m - 1 - j) as nat));
                assert(pow256((n - 1 - j) as nat) == 256 * pow256((m - 1 - j) as nat));
            }
        }
        assert(s.last() == (x % 256) as u8) by {
            assert(pow256((n - 1 - (n - 1)) as nat) == 1);
        }
        lemma_pow256_pos(m);
        lemma_breakdown(x, 256, pow256(m));
        assert(bytes_val(s) == bytes_val(prev) * 256 + (x % 256));
        assert(pow256(n) == 256 * pow256(m));
    }
}

/// Decoding the 16-byte binary encoding of an id yields the id: the digit
/// string `spec_id_bytes(id)` evaluates back to `id`.
pub proof fn lemma_id_bytes_round_trip(id: u128)
    ensures
        spec_id_bytes(id).len() == 16,
        bytes_val(spec_id_bytes(id)) == id,
{
    lemma_bytes_val_of_digits(id as int, 16);
    assert(pow256(16) == 0x1_0000_0000_0000_0000_0000_0000_0000_0000) by {
        reveal_with_fuel(pow256, 17);
    }
    lemma_small_mod(id as nat, pow256(16) as nat);
}

/// Encode a session id as its raw 16-byte big-endian form, the body that
/// answers a successful `open`.
pub fn id_to_bytes(id: u128) -> (r: Vec<u8>)
    ensures
        r@ == spec_id_bytes(id),
        r@.len() == 16,
        bytes_val(r@) == id,
{
    let mut out: Vec<u8> = Vec::new();
    let mut d: u128 = 0x100_0000_0000_0000_0000_0000_0000_0000;
    assert(d == pow256(15)) by {
        reveal_with_fuel(pow256, 16);
    }
    let mut i: usize = 0;
    while i < 16
        invariant
            i <= 16,
            i < 16 ==> d == pow256((15 - i) as nat),
            out@ =~= spec_id_bytes(id).take(i as int),
        decreases 16 - i,
    {
        proof {
            lemma_pow256_pos((15 - i) as nat);
        }
        out.push(((id / d) % 256) as u8);
        proof {
            assert(out@ =~= spec_id_bytes(id).take(i + 1));
        }
        i = i + 1;
        if i < 16 {
            proof {
                assert(pow256((16 - i) as nat) == 256 * pow256((15 - i) as nat));
                lemma_pow256_pos((15 - i) as nat);
            }
            d = d / 256;
            assert(d == pow256((15 - i) as nat));
        }
    }
    proof {
        assert(out@ =~= spec_id_bytes(id));
        lemma_id_bytes_round_trip(id);
    }
    out
}

/// Decode a 16-byte body into a session id.  Any body that is not exactly
/// 16 bytes long (in particular the empty body that signals a failed `open`)
/// is rejected.
pub fn id_from_bytes(b: &[u8]) -> (r: Option<u128>)
    ensures
        b@.len() == 16 ==> (r matches Some(v) && v == bytes_val(b@)),
        b@.len() != 16 ==> r is None,
{
    if b.len() != 16 {
        return None;
    }
    let mut acc: u128 = 0;
    let mut j: usize = 0;
    while j < 16
        invariant
            j <= 16,
            b@.len() == 16,
            acc == bytes_val(b@.take(j as int)),
            acc < pow256(j as nat),
        decreases 16 - j,
    {
        proof {
            lemma_pow256_increases(j as nat, 15);
            assert(pow256(15) == 0x100_0000_0000_0000_0000_0000_0000_0000) by {
                reveal_with_fuel(pow256, 16);
            }
            assert(b@.take(j + 1).drop_last() =~= b@.take(j as int));
            assert(pow256((j + 1) as nat) == 256 * pow256(j as nat));
        }
        acc = acc * 256 + (b[j] as u128);
        j = j + 1;
    }
    proof {
        assert(b@.take(16) =~= b@);
    }
    Some(acc)
}

/// 16 raised to the power `k`.
pub open spec fn pow16(k: nat) -> int
    decreases k,
{
    if k == 0 {
        1
    } else {
        16 * pow16((k - 1) as nat)
    }
}

/// Whether the byte is an ASCII hexadecimal digit (either case).
pub open spec fn is_hex_digit(b: u8) -> bool {
    (ZERO <= b && b <= NINE) || (LOWER_A <= b && b <= LOWER_F) || (UPPER_A <= b && b <= UPPER_F)
}

/// Numeric value of an ASCII hexadecimal digit.
pub open spec fn hex_val(b: u8) -> int {
    if ZERO <= b && b <= NINE {
        b - ZERO
    } else if LOWER_A <= b && b <= LOWER_F {
        b - LOWER_A + 10
    } else {
        b - UPPER_A + 10
    }
}

/// The lowercase ASCII digit for a value below 16.
pub open spec fn hex_char(v: int) -> u8 {
    if v < 10 {
        (ZERO + v) as u8
    } else {
        (LOWER_A + (v - 10)) as u8
    }
}

/// Value of a big-endian string of hexadecimal digit characters.
pub open spec fn digits_val(s: Seq<u8>) -> int
    decreases s.len(),
{
    if s.len() == 0 {
        0
    } else {
        digits_val(s.drop_last()) * 16 + hex_val(s.last())
    }
}

/// The pair of digits spelling each byte, most significant byte first.
pub open spec fn hex_digits(s: Seq<u8>) -> Seq<u8> {
    Seq::new(
        2 * s.len(),
        |j: int|
            if j % 2 == 0 {
                hex_char((s[j / 2] / 16) as int)
            } else {
                hex_char((s[j / 2] % 16) as int)
            },
    )
}

/// Position in the canonical 36-byte text of digit number `d` (0 to 31):
/// the four hyphens sit after digits 8, 12, 16 and 20.
pub open spec fn text_index(d: int) -> int {
    if d < 8 {
        d
    } else if d < 12 {
        d + 1
    } else if d < 16 {
        d + 2
    } else if d < 20 {
        d + 3
    } else {
        d + 4
    }
}

/// Number of digit positions strictly before position `i` of the text.
pub open spec fn digit_count(i: int) -> int {
    if i <= 8 {
        i
    } else if i <= 13 {
        i - 1
    } else if i <= 18 {
        i - 2
    } else if i <= 23 {
        i - 3
    } else {
        i - 4
    }
}

/// The 32 digit characters of a 36-byte canonical text, hyphens dropped.
pub open spec fn text_digits(s: Seq<u8>) -> Seq<u8> {
    Seq::new(32, |d: int| s[text_index(d)])
}

/// Whether `s` is a canonical textual session id: 36 bytes, hyphens at
/// positions 8, 13, 18 and 23, hexadecimal digits everywhere else.
pub open spec fn is_valid_id_text(s: Seq<u8>) -> bool {
    &&& s.len() == 36
    &&& s[8] == HYPHEN
    &&& s[13] == HYPHEN
    &&& s[18] == HYPHEN
    &&& s[23] == HYPHEN
    &&& forall|d: int| 0 <= d < 32 ==> is_hex_digit(#[trigger] text_digits(s)[d])
}

/// The id value spelled by a canonical textual session id.
pub open spec fn id_text_val(s: Seq<u8>) -> int {
    digits_val(text_digits(s))
}

/// The canonical textual form of an id: its 32 lowercase hexadecimal digits
/// in big-endian order, with hyphens at positions 8, 13, 18 and 23.
pub open spec fn spec_id_text(id: u128) -> Seq<u8> {
    Seq::new(
        36,
        |i: int|
            if i == 8 || i == 13 || i == 18 || i == 23 {
                HYPHEN
            } else {
                hex_digits(spec_id_bytes(id))[digit_count(i)]
            },
    )
}

proof fn lemma_hex_char_val(v: int)
    requires
        0 <= v < 16,
    ensures
        is_hex_digit(hex_char(v)),
        hex_val(hex_char(v)) == v,
{
}

/// Reading the digit pairs of a byte string back as one base-16 number gives
/// the base-256 value of the bytes.
proof fn lemma_digits_val_of_hex_digits(s: Seq<u8>)
    ensures
        digits_val(hex_digits(s)) == bytes_val(s),
    decreases s.len(),
{
    if s.len() > 0 {
        let h = hex_digits(s);
        let hd = h.drop_last();
        let b = s.last();
        lemma_digits_val_of_hex_digits(s.drop_last());
        assert(hd.drop_last() =~= hex_digits(s.drop_last()));
        assert(h.last() == hex_char((b % 16) as int));
        assert(hd.last() == hex_char((b / 16) as int));
        lemma_hex_char_val((b / 16) as int);
        lemma_hex_char_val((b % 16) as int);
        assert(digits_val(h) == digits_val(hd) * 16 + hex_val(h.last()));
        assert(digits_val(hd) == digits_val(hd.drop_last()) * 16 + hex_val(hd.last()));
        assert(digits_val(h) == bytes_val(s.drop_last()) * 256 + (b / 16) * 16 + b % 16);
        assert((b / 16) * 16 + b % 16 == b);
    }
}

/// Parsing the canonical textual encoding of an id yields the id back, and
/// the encoding is well-formed.
pub proof fn lemma_id_text_round_trip(id: u128)
    ensures
        spec_id_text(id).len() == 36,
        is_valid_id_text(spec_id_text(id)),
        id_text_val(spec_id_text(id)) == id,
{
    let t = spec_id_text(id);
    let h = hex_digits(spec_id_bytes(id));
    assert(text_digits(t) =~= h);
    assert forall|d: int| 0 <= d < 32 implies is_hex_digit(#[trigger] text_digits(t)[d]) by {
        if d % 2 == 0 {
            lemma_hex_char_val((spec_id_bytes(id)[d / 2] / 16) as int);
        } else {
            lemma_hex_char_val((spec_id_bytes(id)[d / 2] % 16) as int);
        }
    }
    lemma_digits_val_of_hex_digits(spec_id_bytes(id));
    lemma_id_bytes_round_trip(id);
}

/// The lowercase digit for a nibble.
fn hex_char_of(v: u8) -> (r: u8)
    requires
        v < 16,
    ensures
        r == hex_char(v as int),
{
    if v < 10 {
        ZERO + v
    } else {
        LOWER_A + (v - 10)
    }
}

/// The value of a hexadecimal digit byte, or nothing if the byte is not one.
fn hex_val_of(b: u8) -> (r: Option<u8>)
    ensures
        is_hex_digit(b) ==> (r matches Some(v) && v == hex_val(b)),
        !is_hex_digit(b) ==> r is None,
{
    if ZERO <= b && b <= NINE {
        Some(b - ZERO)
    } else if LOWER_A <= b && b <= LOWER_F {
        Some(b - LOWER_A + 10)
    } else if UPPER_A <= b && b <= UPPER_F {
        Some(b - UPPER_A + 10)
    } else {
        None
    }
}

/// Text positions covered once the first `i` bytes are spelled out: two
/// digits for each byte, plus the hyphens that sit after bytes 4, 6, 8
/// and 10.
spec fn emitted(i: int) -> int {
    if i <= 4 {
        2 * i
    } else if i <= 6 {
        2 * i + 1
    } else if i <= 8 {
        2 * i + 2
    } else if i <= 10 {
        2 * i + 3
    } else {
        2 * i + 4
    }
}

/// Encode a session id in its canonical textual form, the shape carried in
/// the `upload/{id}`, `download/{id}` and `close/{id}` paths.
pub fn encode_id_text(id: u128) -> (r: Vec<u8>)
    ensures
        r@ == spec_id_text(id),
        is_valid_id_text(r@),
        id_text_val(r@) == id,
{
    let bytes = id_to_bytes(id);
    let mut out: Vec<u8> = Vec::new();
    let mut i: usize = 0;
    while i < 16
        invariant
            i <= 16,
            bytes@ == spec_id_bytes(id),
            out@ =~= spec_id_text(id).take(emitted(i as int)),
        decreases 16 - i,
    {
        if i == 4 || i == 6 || i == 8 || i == 10 {
            out.push(HYPHEN);
            proof {
                assert(out@ =~= spec_id_text(id).take(emitted(i as int) + 1));
            }
        }
        let b = bytes[i];
        out.push(hex_char_of(b / 16));
        out.push(hex_char_of(b % 16));
        proof {
            assert(out@ =~= spec_id_text(id).take(emitted(i + 1)));
        }
        i = i + 1;
    }
    proof {
        assert(out@ =~= spec_id_text(id));
        lemma_id_text_round_trip(id);
    }
    out
}

/// Parse a canonical textual session id.  Exactly the well-formed texts are
/// accepted; digits of either case are read, as the canonical lowercase form
/// is what the entry node sends.
#[verifier::rlimit(50)]
pub fn parse_id_text(s: &[u8]) -> (r: Option<u128>)
    ensures
        r matches Some(v) ==> is_valid_id_text(s@) && v == id_text_val(s@),
        r is None ==> !is_valid_id_text(s@),
{
    if s.len() != 36 {
        return None;
    }
    if !(s[8] == HYPHEN && s[13] == HYPHEN && s[18] == HYPHEN && s[23] == HYPHEN) {
        return None;
    }
    let ghost td = text_digits(s@);
    proof {
        assert(pow16(31) == 0x1000_0000_0000_0000_0000_0000_0000_0000) by {
            reveal_with_fuel(pow16, 32);
        }
    }
    let mut acc: u128 = 0;
    let mut i: usize = 0;
    while i < 36
        invariant
            i <= 36,
            s@.len() == 36,
            td == text_digits(s@),
            pow16(31) == 0x1000_0000_0000_0000_0000_0000_0000_0000,
            acc == digits_val(td.take(digit_count(i as int))),
            acc < pow16(digit_count(i as int) as nat),
            forall|d: int| 0 <= d < digit_count(i as int) ==> is_hex_digit(#[trigger] td[d]),
        decreases 36 - i,
    {
        if i == 8 || i == 13 || i == 18 || i == 23 {
            i = i + 1;
        } else {
            let ghost d = digit_count(i as int);
            proof {
                assert(text_index(d) == i as int);
                assert(td[d] == s@[i as int]);
            }
            match hex_val_of(s[i]) {
                Some(v) => {
                    proof {
                        lemma_pow16_increases(d as nat, 31);
                        assert(td.take(d + 1).drop_last() =~= td.take(d));
                        assert(pow16((d + 1) as nat) == 16 * pow16(d as nat));
                    }
                    acc = acc * 16 + (v as u128);
                    proof {
                        assert(digit_count(i + 1) == d + 1);
                    }
                }
                None => {
                    proof {
                        assert(!is_hex_digit(td[d]));
                    }
                    return None;
                },
            }
            i = i + 1;
        }
    }
    proof {
        assert(td.take(digit_count(36)) =~= td);
    }
    Some(acc)
}

proof fn lemma_pow16_pos(k: nat)
    ensures
        pow16(k) >= 1,
    decreases k,
{
    if k > 0 {
        lemma_pow16_pos((k - 1) as nat);
    }
}

proof fn lemma_pow16_increases(a: nat, b: nat)
    requires
        a <= b,
    ensures
        pow16(a) <= pow16(b),
    decreases b,
{
    if a < b {
        lemma_pow16_increases(a, (b - 1) as nat);
        lemma_pow16_pos((b - 1) as nat);
    }
}

} // verus!

