use vstd::prelude::*;

verus! {

/// A 64-bit identifier for an outgoing ring, derived from the call's era id.
/// Zero is reserved as "no ring".
#[derive(Clone, Copy, Debug, PartialEq, Eq, Structural)]
pub struct RingId(pub i64);

impl From<i64> for RingId {
    fn from(raw_id: i64) -> (r: Self) {
        RingId(raw_id)
    }
}

impl vstd::std_specs::convert::FromSpecImpl<i64> for RingId {
    open spec fn obeys_from_spec() -> bool {
        true
    }

    open spec fn from_spec(v: i64) -> Self {
        RingId(v)
    }
}

impl From<RingId> for i64 {
    fn from(id: RingId) -> (r: i64) {
        id.0
    }
}

impl vstd::std_specs::convert::FromSpecImpl<RingId> for i64 {
    open spec fn obeys_from_spec() -> bool {
        true
    }

    open spec fn from_spec(v: RingId) -> i64 {
        v.0
    }
}

/// Whether `c` is an ASCII hexadecimal digit, in either case.
pub open spec fn is_hex_digit(c: char) -> bool {
    (48 <= c as u32 && c as u32 <= 57) || (97 <= c as u32 && c as u32 <= 102) || (65 <= c as u32
        && c as u32 <= 70)
}

/// The value of a hexadecimal digit (meaningful only when `is_hex_digit`).
pub open spec fn hex_digit_value(c: char) -> int {
    if 48 <= c as u32 && c as u32 <= 57 {
        c as u32 - 48
    } else if 97 <= c as u32 && c as u32 <= 102 {
        c as u32 - 87
    } else if 65 <= c as u32 && c as u32 <= 70 {
        c as u32 - 55
    } else {
        0
    }
}

pub open spec fn all_hex(s: Seq<char>) -> bool {
    forall|i: int| 0 <= i < s.len() ==> is_hex_digit(#[trigger] s[i])
}

/// The value of a big-endian string of hexadecimal digits.
pub open spec fn hex_value(s: Seq<char>) -> int
    decreases s.len(),
{
    if s.len() == 0 {
        0
    } else {
        hex_value(s.drop_last()) * 16 + hex_digit_value(s.last())
    }
}

pub open spec fn pow16(n: nat) -> int
    decreases n,
{
    if n == 0 {
        1
    } else {
        16 * pow16((n - 1) as nat)
    }
}

pub proof fn lemma_hex_value_bound(s: Seq<char>)
    requires
        all_hex(s),
    ensures
        0 <= hex_value(s) < pow16(s.len()),
    decreases s.len(),
{
    if s.len() > 0 {
        assert(all_hex(s.drop_last())) by {
            assert(forall|i: int|
                0 <= i < s.len() - 1 ==> s.drop_last()[i] == #[trigger] s[i]);
        }
        lemma_hex_value_bound(s.drop_last());
        assert(is_hex_digit(s.last()));
        assert(0 <= hex_digit_value(s.last()) < 16);
        assert(hex_value(s.drop_last()) * 16 + hex_digit_value(s.last()) < pow16(s.len())) by {
            let p = pow16((s.len() - 1) as nat);
            let v = hex_value(s.drop_last());
            assert(v <= p - 1);
            assert(v * 16 <= (p - 1) * 16) by (nonlinear_arith)
                requires
                    v <= p - 1,
            ;
        }
        assert(hex_value(s.drop_last()) * 16 >= 0) by (nonlinear_arith)
            requires
                hex_value(s.drop_last()) >= 0,
        ;
    }
}

/// Equal hex values force equal digit values, position by position.
pub proof fn lemma_hex_value_injective(s1: Seq<char>, s2: Seq<char>)
    requires
        s1.len() == s2.len(),
        all_hex(s1),
        all_hex(s2),
        hex_value(s1) == hex_value(s2),
    ensures
        forall|i: int| 0 <= i < s1.len() ==> hex_digit_value(#[trigger] s1[i]) == hex_digit_value(
            s2[i],
        ),
    decreases s1.len(),
{
    if s1.len() > 0 {
        let a = hex_value(s1.drop_last());
        let b = hex_value(s2.drop_last());
        let d1 = hex_digit_value(s1.last());
        let d2 = hex_digit_value(s2.last());
        assert(all_hex(s1.drop_last()) && all_hex(s2.drop_last())) by {
            assert(forall|i: int|
                0 <= i < s1.len() - 1 ==> s1.drop_last()[i] == #[trigger] s1[i]);
            assert(forall|i: int|
                0 <= i < s2.len() - 1 ==> s2.drop_last()[i] == #[trigger] s2[i]);
        }
        lemma_hex_value_bound(s1.drop_last());
        lemma_hex_value_bound(s2.drop_last());
        assert(0 <= d1 < 16 && 0 <= d2 < 16);
        assert(a == b && d1 == d2) by (nonlinear_arith)
            requires
                a * 16 + d1 == b * 16 + d2,
                0 <= d1 < 16,
                0 <= d2 < 16,
                a >= 0,
                b >= 0,
        ;
        lemma_hex_value_injective(s1.drop_last(), s2.drop_last());
        assert forall|i: int| 0 <= i < s1.len() implies hex_digit_value(#[trigger] s1[i])
            == hex_digit_value(s2[i]) by {
            if i < s1.len() - 1 {
                assert(s1.drop_last()[i] == s1[i] && s2.drop_last()[i] == s2[i]);
            }
        }
    }
}

/// The value the era id parses to: exactly 16 hexadecimal digits, nothing
/// else. Any other string, a signed or shorter number included, takes the
/// digest path.
pub open spec fn era_hex_value(s: Seq<char>) -> Option<int> {
    if s.len() == 16 && all_hex(s) {
        Option::Some(hex_value(s))
    } else {
        Option::None
    }
}

/// The value of a byte string read as a little-endian unsigned number.
pub open spec fn le_value(b: Seq<u8>) -> int
    decreases b.len(),
{
    if b.len() == 0 {
        0
    } else {
        b[0] + 256 * le_value(b.drop_first())
    }
}

pub open spec fn pow256(n: nat) -> int
    decreases n,
{
    if n == 0 {
        1
    } else {
        256 * pow256((n - 1) as nat)
    }
}

pub proof fn lemma_le_value_bound(b: Seq<u8>)
    ensures
        0 <= le_value(b) < pow256(b.len()),
    decreases b.len(),
{
    if b.len() > 0 {
        lemma_le_value_bound(b.drop_first());
        let p = pow256((b.len() - 1) as nat);
        let v = le_value(b.drop_first());
        assert(256 * v <= 256 * (p - 1)) by (nonlinear_arith)
            requires
                v <= p - 1,
        ;
        assert(256 * v >= 0) by (nonlinear_arith)
            requires
                v >= 0,
        ;
    }
}

/// The SHA-256 digest of the era id's characters.
pub uninterp spec fn sha256_of_era(s: Seq<char>) -> Seq<u8>;

/// Relies on sha2::Sha256::digest over the era id's UTF-8 bytes: a 32-byte
/// digest that depends on the characters alone.
#[verifier::external_body]
fn sha256_era_digest(era_id: &str) -> (r: Vec<u8>)
    ensures
        r@ == sha256_of_era(era_id@),
        r@.len() == 32,
{
    <sha2::Sha256 as sha2::Digest>::digest(era_id.as_bytes()).as_slice().to_vec()
}

/// The ring id an era id derives to: a 16-hex-digit era id is its value
/// reinterpreted as a signed 64-bit number, with 0 remapped to -1 so that 0
/// stays a sentinel; any other era id takes the first 8 bytes of its SHA-256
/// digest, little-endian, as the signed value.
pub open spec fn spec_ring_id_from_era(s: Seq<char>) -> i64 {
    match era_hex_value(s) {
        Option::Some(v) => if v == 0 {
            -1i64
        } else {
            v as i64
        },
        Option::None => le_value(sha256_of_era(s).take(8)) as i64,
    }
}

/// Parse the characters of `s` from `start` on as hexadecimal digits.
fn parse_hex_chars(s: &str, start: usize) -> (r: Option<u64>)
    requires
        start <= s@.len(),
        s@.len() - start <= 16,
    ensures
        match r {
            Option::Some(v) => all_hex(s@.skip(start as int)) && v as int == hex_value(
                s@.skip(start as int),
            ),
            Option::None => !all_hex(s@.skip(start as int)),
        },
{
    let n = s.unicode_len();
    let mut v: u64 = 0;
    let mut i: usize = start;
    while i < n
        invariant
            start <= i <= n == s@.len(),
            n - start <= 16,
            all_hex(s@.subrange(start as int, i as int)),
            v as int == hex_value(s@.subrange(start as int, i as int)),
        decreases n - i,
    {
        let c = s.get_char(i);
        let ghost prefix = s@.subrange(start as int, i as int);
        let ghost next = s@.subrange(start as int, i + 1int);
        proof {
            assert(next.drop_last() =~= prefix);
            assert(next.last() == s@[i as int]);
        }
        match hex_digit_of(c) {
            Option::Some(d) => {
                proof {
                    lemma_hex_value_bound(prefix);
                    assert(pow16(prefix.len()) <= pow16(15)) by {
                        lemma_pow16_increases(prefix.len(), 15);
                    }
                    assert(pow16(15) == 0x1000000000000000) by {
                        reveal_with_fuel(pow16, 17);
                    }
                }
                v = v * 16 + (d as u64);
                proof {
                    assert(all_hex(next)) by {
                        assert(forall|j: int| 0 <= j < prefix.len() ==> next[j] == #[trigger] prefix[j]);
                    }
                }
            },
            Option::None => {
                proof {
                    assert(!all_hex(s@.skip(start as int))) by {
                        assert(s@.skip(start as int)[i - start] == s@[i as int]);
                    }
                }
                return Option::None;
            },
        }
        i = i + 1;
    }
    proof {
        assert(s@.subrange(start as int, n as int) =~= s@.skip(start as int));
    }
    Option::Some(v)
}

pub proof fn lemma_pow16_increases(a: nat, b: nat)
    requires
        a <= b,
    ensures
        pow16(a) <= pow16(b),
    decreases b,
{
    if a < b {
        lemma_pow16_increases(a, (b - 1) as nat);
        assert(pow16(b) == 16 * pow16((b - 1) as nat));
        assert(pow16(a) >= 1) by {
            lemma_pow16_positive(a);
        }
        assert(pow16((b - 1) as nat) >= 1) by {
            lemma_pow16_positive((b - 1) as nat);
        }
    }
}

pub proof fn lemma_pow16_positive(n: nat)
    ensures
        pow16(n) >= 1,
    decreases n,
{
    if n > 0 {
        lemma_pow16_positive((n - 1) as nat);
    }
}

/// The hexadecimal value of one character, if it has one.
fn hex_digit_of(c: char) -> (r: Option<u8>)
    ensures
        (r is Some) == is_hex_digit(c),
        r is Some ==> r.unwrap() as int == hex_digit_value(c),
{
    let u = c as u32;
    if 48 <= u && u <= 57 {
        Option::Some((u - 48) as u8)
    } else if 97 <= u && u <= 102 {
        Option::Some((u - 87) as u8)
    } else if 65 <= u && u <= 70 {
        Option::Some((u - 55) as u8)
    } else {
        Option::None
    }
}

/// The first 8 bytes of `b`, read little-endian.
fn le8_value(b: &Vec<u8>) -> (r: u64)
    requires
        b@.len() >= 8,
    ensures
        r as int == le_value(b@.take(8)),
{
    let mut w: u64 = 0;
    let mut i: usize = 8;
    while i > 0
        invariant
            i <= 8,
            b@.len() >= 8,
            w as int == le_value(b@.subrange(i as int, 8)),
        decreases i,
    {
        i = i - 1;
        let ghost rest = b@.subrange(i + 1int, 8);
        let ghost cur = b@.subrange(i as int, 8);
        proof {
            assert(cur.drop_first() =~= rest);
            assert(cur[0] == b@[i as int]);
            lemma_le_value_bound(rest);
            assert(pow256(rest.len()) <= pow256(7)) by {
                lemma_pow256_increases(rest.len(), 7);
            }
            assert(pow256(7) == 0x100000000000000) by {
                reveal_with_fuel(pow256, 9);
            }
        }
        w = w * 256 + (b[i] as u64);
    }
    proof {
        assert(b@.subrange(0, 8) =~= b@.take(8));
    }
    w
}

pub proof fn lemma_pow256_increases(a: nat, b: nat)
    requires
        a <= b,
    ensures
        pow256(a) <= pow256(b),
    decreases b,
{
    if a < b {
        lemma_pow256_increases(a, (b - 1) as nat);
        assert(pow256(b) == 256 * pow256((b - 1) as nat));
        assert(pow256((b - 1) as nat) >= 1) by {
            lemma_pow256_positive((b - 1) as nat);
        }
    }
}

pub proof fn lemma_pow256_positive(n: nat)
    ensures
        pow256(n) >= 1,
    decreases n,
{
    if n > 0 {
        lemma_pow256_positive((n - 1) as nat);
    }
}

impl RingId {
    pub fn from_era_id(era_id: &str) -> (r: Self)
        ensures
            r.0 == spec_ring_id_from_era(era_id@),
    {
        let n = era_id.unicode_len();
        if n == 16 {
            if let Option::Some(v) = parse_hex_chars(era_id, 0) {
                proof {
                    assert(era_id@.skip(0) =~= era_id@);
                }
                return Self::from_parsed(v, Ghost(era_id@));
            }
            proof {
                assert(era_id@.skip(0) =~= era_id@);
            }
        }
        let digest = sha256_era_digest(era_id);
        let w = le8_value(&digest);
        let r = RingId(w as i64);
        proof {
            assert(era_hex_value(era_id@) is None);
        }
        r
    }

    /// The happy path: the parsed unsigned value, with 0 remapped to -1.
    fn from_parsed(v: u64, Ghost(era): Ghost<Seq<char>>) -> (r: Self)
        requires
            era_hex_value(era) == Option::Some(v as int),
        ensures
            r.0 == spec_ring_id_from_era(era),
    {
        if v == 0 {
            RingId(-1)
        } else {
            RingId(v as i64)
        }
    }
}

/// Distinct ring ids for distinct 16-hex-digit era ids: if any position
/// carries a different digit value, the ring ids differ — except for the
/// deliberate remap of value 0 to -1, which collides with the era id of
/// value 2^64 - 1.
pub proof fn lemma_ring_id_distinct_for_hex_eras(s1: Seq<char>, s2: Seq<char>)
    requires
        s1.len() == 16,
        s2.len() == 16,
        all_hex(s1),
        all_hex(s2),
        exists|i: int| 0 <= i < 16 && hex_digit_value(#[trigger] s1[i]) != hex_digit_value(s2[i]),
        !(hex_value(s1) == 0 && hex_value(s2) == 0xFFFF_FFFF_FFFF_FFFF),
        !(hex_value(s2) == 0 && hex_value(s1) == 0xFFFF_FFFF_FFFF_FFFF),
    ensures
        spec_ring_id_from_era(s1) != spec_ring_id_from_era(s2),
{
    let v1 = hex_value(s1);
    let v2 = hex_value(s2);
    assert(v1 != v2) by {
        if v1 == v2 {
            lemma_hex_value_injective(s1, s2);
        }
    }
    lemma_hex_value_bound(s1);
    lemma_hex_value_bound(s2);
    assert(pow16(16) == 0x10000000000000000) by {
        reveal_with_fuel(pow16, 18);
    }
    let w1 = v1 as u64;
    let w2 = v2 as u64;
    assert(w1 == v1 && w2 == v2);
    if v1 == 0 {
        assert(spec_ring_id_from_era(s1) == -1i64);
        assert(w2 != 0 && w2 != 0xFFFF_FFFF_FFFF_FFFFu64);
        assert(w2 as i64 != -1i64) by (bit_vector)
            requires
                w2 != 0xFFFF_FFFF_FFFF_FFFFu64,
        ;
    } else if v2 == 0 {
        assert(spec_ring_id_from_era(s2) == -1i64);
        assert(w1 != 0 && w1 != 0xFFFF_FFFF_FFFF_FFFFu64);
        assert(w1 as i64 != -1i64) by (bit_vector)
            requires
                w1 != 0xFFFF_FFFF_FFFF_FFFFu64,
        ;
    } else {
        assert(w1 as i64 != w2 as i64) by (bit_vector)
            requires
                w1 != w2,
        ;
    }
}

} // verus!
