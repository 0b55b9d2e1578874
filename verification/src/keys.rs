//! The decimal text form of a user id: the stable key text under which a
//! record is laid out when the store is embedded on disk, and the number
//! format of user-id tokens from the chat front-end.

use vstd::prelude::*;
use vstd::string::StringSliceAdditionalSpecFns;

verus! {

/// Decimal digit bytes of `n`, most significant first; empty for zero.
pub open spec fn dec_rep(n: nat) -> Seq<u8>
    decreases n,
{
    if n == 0 {
        Seq::empty()
    } else {
        dec_rep(n / 10).push((48 + n % 10) as u8)
    }
}

/// The key text of a user id: its decimal digits, `"0"` for zero, with no
/// sign and no leading zeros. Stable across restarts, as durability needs.
pub open spec fn key_of(id: u64) -> Seq<u8> {
    if id == 0 {
        seq![48u8]
    } else {
        dec_rep(id as nat)
    }
}

proof fn lemma_dec_rep_positive_len(n: nat)
    ensures
        n > 0 ==> dec_rep(n).len() > 0,
{
    if n > 0 {
        assert(dec_rep(n) == dec_rep(n / 10).push((48 + n % 10) as u8));
    }
}

proof fn lemma_dec_rep_injective(a: nat, b: nat)
    requires
        dec_rep(a) == dec_rep(b),
    ensures
        a == b,
    decreases a,
{
    if a == 0 {
        lemma_dec_rep_positive_len(b);
        assert(dec_rep(a).len() == 0);
    } else if b == 0 {
        lemma_dec_rep_positive_len(a);
        assert(dec_rep(b).len() == 0);
    } else {
        let ra = dec_rep(a / 10);
        let rb = dec_rep(b / 10);
        assert(dec_rep(a) == ra.push((48 + a % 10) as u8));
        assert(dec_rep(b) == rb.push((48 + b % 10) as u8));
        assert(dec_rep(a).last() == (48 + a % 10) as u8);
        assert(dec_rep(b).last() == (48 + b % 10) as u8);
        assert(a % 10 == b % 10);
        assert(dec_rep(a).drop_last() =~= ra);
        assert(dec_rep(b).drop_last() =~= rb);
        lemma_dec_rep_injective(a / 10, b / 10);
        assert(a == 10 * (a / 10) + a % 10);
    }
}

/// Distinct user ids always get distinct store keys, so a write for one id
/// can never disturb the record of another.
pub proof fn lemma_key_of_injective(a: u64, b: u64)
    requires
        key_of(a) == key_of(b),
    ensures
        a == b,
{
    if a == 0 && b == 0 {
    } else if a == 0 {
        assert(dec_rep(b as nat) == seq![48u8]);
        assert(dec_rep(b as nat) == dec_rep(b as nat / 10).push((48 + b as nat % 10) as u8));
        assert(dec_rep(b as nat).last() == 48u8);
        assert(b as nat % 10 == 0);
        assert(dec_rep(b as nat / 10) =~= dec_rep(b as nat).drop_last());
        assert(dec_rep(b as nat / 10).len() == 0);
        lemma_dec_rep_positive_len(b as nat / 10);
        assert(b as nat == 10 * (b as nat / 10) + b as nat % 10);
    } else if b == 0 {
        assert(dec_rep(a as nat) == seq![48u8]);
        assert(dec_rep(a as nat) == dec_rep(a as nat / 10).push((48 + a as nat % 10) as u8));
        assert(dec_rep(a as nat).last() == 48u8);
        assert(a as nat % 10 == 0);
        assert(dec_rep(a as nat / 10) =~= dec_rep(a as nat).drop_last());
        assert(dec_rep(a as nat / 10).len() == 0);
        lemma_dec_rep_positive_len(a as nat / 10);
        assert(a as nat == 10 * (a as nat / 10) + a as nat % 10);
    } else {
        lemma_dec_rep_injective(a as nat, b as nat);
    }
}

/// Writes the decimal store key of `id`.
pub fn encode_key(id: u64) -> (k: Vec<u8>)
    ensures
        k@ == key_of(id),
{
    let mut k: Vec<u8> = Vec::new();
    if id == 0 {
        k.push(48u8);
        assert(k@ =~= key_of(0u64));
        return k;
    }
    let mut n: u64 = id;
    let mut rev: Vec<u8> = Vec::new();
    while n > 0
        invariant
            dec_rep(id as nat) == dec_rep(n as nat) + rev@.reverse(),
        decreases n,
    {
        let ghost rev0 = rev@;
        let ghost n0 = n as nat;
        let d: u8 = (n % 10) as u8 + 48;
        rev.push(d);
        n = n / 10;
        proof {
            assert(dec_rep(n0) == dec_rep(n0 / 10).push(d));
            assert(rev0.push(d).reverse() =~= seq![d] + rev0.reverse());
            assert(dec_rep(n0 / 10) + (seq![d] + rev0.reverse()) =~= (dec_rep(n0 / 10) + seq![
                d,
            ]) + rev0.reverse());
            assert(dec_rep(n0 / 10) + seq![d] =~= dec_rep(n0 / 10).push(d));
        }
    }
    assert(dec_rep(id as nat) =~= rev@.reverse());
    let mut i: usize = rev.len();
    while i > 0
        invariant
            i <= rev.len(),
            k@.len() == rev@.len() - i,
            forall|j: int| 0 <= j < k@.len() ==> k@[j] == rev@[rev@.len() - 1 - j],
        decreases i,
    {
        i = i - 1;
        let d: u8 = rev[i];
        k.push(d);
    }
    assert(k@ =~= rev@.reverse());
    k
}

/// Whether `b` is an ASCII decimal digit.
pub open spec fn is_digit(b: u8) -> bool {
    48 <= b <= 57
}

/// Whether every byte of `s` is an ASCII decimal digit.
pub open spec fn all_digits(s: Seq<u8>) -> bool {
    forall|i: int| 0 <= i < s.len() ==> is_digit(#[trigger] s[i])
}

/// The number that the digit bytes `s` denote, most significant first.
pub open spec fn dec_val(s: Seq<u8>) -> int
    decreases s.len(),
{
    if s.len() == 0 {
        0
    } else {
        10 * dec_val(s.drop_last()) + (s.last() - 48)
    }
}

/// Whether `s` is a decimal numeral whose value fits in a `u64`: at least
/// one byte, digits only, value at most `u64::MAX`.
pub open spec fn parseable(s: Seq<u8>) -> bool {
    s.len() > 0 && all_digits(s) && dec_val(s) <= u64::MAX
}

proof fn lemma_dec_val_bounds(s: Seq<u8>)
    requires
        all_digits(s),
    ensures
        dec_val(s) >= 0,
    decreases s.len(),
{
    if s.len() > 0 {
        assert(all_digits(s.drop_last())) by {
            assert(forall|i: int|
                0 <= i < s.drop_last().len() ==> #[trigger] s.drop_last()[i] == s[i]);
        }
        lemma_dec_val_bounds(s.drop_last());
        assert(is_digit(s[s.len() - 1]));
    }
}

proof fn lemma_dec_val_prefix(s: Seq<u8>, j: int)
    requires
        all_digits(s),
        0 <= j <= s.len(),
    ensures
        dec_val(s) >= dec_val(s.take(j)),
    decreases s.len() - j,
{
    if j < s.len() {
        assert(all_digits(s.drop_last())) by {
            assert(forall|i: int|
                0 <= i < s.drop_last().len() ==> #[trigger] s.drop_last()[i] == s[i]);
        }
        assert(s.drop_last().take(j) =~= s.take(j));
        lemma_dec_val_prefix(s.drop_last(), j);
        lemma_dec_val_bounds(s.drop_last());
        assert(is_digit(s[s.len() - 1]));
        assert(dec_val(s) == 10 * dec_val(s.drop_last()) + (s.last() - 48));
    } else {
        assert(s.take(j) =~= s);
    }
}

proof fn lemma_dec_rep_digits_and_value(n: nat)
    ensures
        all_digits(dec_rep(n)),
        dec_val(dec_rep(n)) == n,
    decreases n,
{
    if n > 0 {
        lemma_dec_rep_digits_and_value(n / 10);
        let s = dec_rep(n);
        assert(s == dec_rep(n / 10).push((48 + n % 10) as u8));
        assert(s.drop_last() =~= dec_rep(n / 10));
        assert forall|i: int| 0 <= i < s.len() implies is_digit(#[trigger] s[i]) by {
            if i < s.len() - 1 {
                assert(s[i] == dec_rep(n / 10)[i]);
            }
        }
        assert(dec_val(s) == 10 * dec_val(s.drop_last()) + (s.last() - 48));
        assert(n == 10 * (n / 10) + n % 10);
    }
}

/// Round trip: the decimal store key of an id is a well-formed numeral
/// that reads back as exactly that id.
pub proof fn lemma_key_round_trip(id: u64)
    ensures
        parseable(key_of(id)),
        dec_val(key_of(id)) == id,
{
    if id == 0 {
        let s = key_of(0u64);
        assert(s.drop_last() =~= Seq::<u8>::empty());
        assert(dec_val(s) == 10 * dec_val(s.drop_last()) + (s.last() - 48));
    } else {
        lemma_dec_rep_digits_and_value(id as nat);
        lemma_dec_rep_positive_len(id as nat);
    }
}

/// Reads a user-id token as a decimal `u64`: digits only, no sign, any
/// leading zeros allowed, rejected when the value does not fit.
pub fn parse_u64(s: &str) -> (r: Option<u64>)
    ensures
        r matches Some(v) ==> parseable(s.spec_bytes()) && v == dec_val(s.spec_bytes()),
        r is None ==> !parseable(s.spec_bytes()),
{
    let b: &[u8] = s.as_bytes();
    if b.len() == 0 {
        return None;
    }
    let mut val: u64 = 0;
    let mut i: usize = 0;
    while i < b.len()
        invariant
            b@ == s.spec_bytes(),
            0 < b@.len(),
            i <= b@.len(),
            all_digits(b@.take(i as int)),
            val == dec_val(b@.take(i as int)),
        decreases b@.len() - i,
    {
        let c: u8 = b[i];
        if c < 48 || c > 57 {
            assert(!all_digits(b@));
            return None;
        }
        let d: u64 = (c - 48) as u64;
        proof {
            assert(b@.take(i + 1).drop_last() =~= b@.take(i as int));
            assert(b@.take(i + 1).last() == b@[i as int]);
            assert(all_digits(b@.take(i + 1)));
            assert(dec_val(b@.take(i + 1)) == 10 * dec_val(b@.take(i as int)) + (c - 48));
        }
        if val > (u64::MAX - d) / 10 {
            proof {
                assert(10 * ((u64::MAX - d) / 10) <= u64::MAX - d) by (nonlinear_arith);
                assert(10 * (val as int) >= 10 * (((u64::MAX - d) / 10) + 1)) by (nonlinear_arith)
                    requires
                        val as int >= ((u64::MAX - d) / 10) + 1,
                ;
                assert(dec_val(b@.take(i + 1)) > u64::MAX);
                if all_digits(b@) {
                    lemma_dec_val_prefix(b@, i + 1);
                }
            }
            return None;
        }
        proof {
            assert(10 * (val as int) <= 10 * ((u64::MAX - d) / 10)) by (nonlinear_arith)
                requires
                    val as int <= (u64::MAX - d) / 10,
            ;
            assert(10 * ((u64::MAX - d) / 10) <= u64::MAX - d) by (nonlinear_arith);
        }
        val = val * 10 + d;
        i = i + 1;
    }
    assert(b@.take(i as int) =~= b@);
    Some(val)
}

} // verus!
