//! Fresh identifiers for notes and alarms.

use crate::text::push_char;
use vstd::prelude::*;

verus! {

/// A lowercase hexadecimal digit.
pub open spec fn is_lower_hex(c: char) -> bool {
    let u = c as u32;
    (48 <= u <= 57) || (97 <= u <= 102)
}

/// The hyphenated lowercase text of a random (version 4, RFC 4122 variant)
/// UUID, such as `67e55044-10b1-426f-9247-bb680e5fe0c8`.
pub open spec fn is_uuid_v4_text(s: Seq<char>) -> bool {
    &&& s.len() == 36
    &&& s[8] == '-' && s[13] == '-' && s[18] == '-' && s[23] == '-'
    &&& forall|i: int|
        0 <= i < 36 && i != 8 && i != 13 && i != 18 && i != 23 ==> #[trigger] is_lower_hex(s[i])
    &&& s[14] == '4'
    &&& (s[19] == '8' || s[19] == '9' || s[19] == 'a' || s[19] == 'b')
}

/// A fresh random identifier.
///
/// Trusted: calls `uuid::Uuid::new_v4` and formats the result with its
/// `Display` impl. The source of `new_v4` masks random bits so that the
/// version nibble is 4 and the variant bits are `10`; `Display` writes the
/// hyphenated lowercase form of 36 characters. Which random value comes out
/// is not stated. The call panics when the operating system's random source
/// fails, which depends on the machine, not on any input.
#[verifier::external_body]
pub(crate) fn new_uuid_text() -> (r: String)
    ensures
        is_uuid_v4_text(r@),
{
    uuid::Uuid::new_v4().to_string()
}


// ==================== ids that are not taken ====================

/// The texts of a list of strings.
pub open spec fn texts(v: Seq<String>) -> Seq<Seq<char>> {
    v.map_values(|t: String| t@)
}

/// The number of ids below which a fresh id is always found: 16^12, the
/// number of distinct 12-digit hexadecimal tails.
pub open spec fn fresh_id_limit() -> nat {
    0x1_0000_0000_0000
}

/// The lowercase hexadecimal digit of `d`.
pub open spec fn hex_char(d: nat) -> char {
    if d < 10 {
        ((48 + d) as u32) as char
    } else {
        ((87 + d) as u32) as char
    }
}

/// The last `w` hexadecimal digits of `k`, most significant first.
pub open spec fn hex_digits(k: nat, w: nat) -> Seq<char>
    decreases w,
{
    if w == 0 {
        Seq::empty()
    } else {
        hex_digits(k / 16, (w - 1) as nat).push(hex_char(k % 16))
    }
}

/// 16 to the power `w`.
pub open spec fn pow16(w: nat) -> nat
    decreases w,
{
    if w == 0 {
        1
    } else {
        16 * pow16((w - 1) as nat)
    }
}

/// Candidate `k` for a fresh id: the first 24 characters of a random id
/// followed by `k` as 12 hexadecimal digits.
pub open spec fn candidate(prefix: Seq<char>, k: nat) -> Seq<char> {
    prefix + hex_digits(k, 12)
}

proof fn lemma_hex_char(d: nat)
    requires
        d < 16,
    ensures
        is_lower_hex(hex_char(d)),
        forall|e: nat| e < 16 && #[trigger] hex_char(e) == hex_char(d) ==> e == d,
{
    assert forall|e: nat| e < 16 && #[trigger] hex_char(e) == hex_char(d) implies e == d by {
        if d < 10 && e < 10 {
            assert(((48 + d) as u32) as char == ((48 + e) as u32) as char);
        } else if d >= 10 && e >= 10 {
            assert(((87 + d) as u32) as char == ((87 + e) as u32) as char);
        } else {
        }
    }
}

proof fn lemma_hex_digits(k: nat, w: nat)
    ensures
        hex_digits(k, w).len() == w,
        forall|i: int| 0 <= i < w ==> #[trigger] is_lower_hex(hex_digits(k, w)[i]),
    decreases w,
{
    if w > 0 {
        lemma_hex_digits(k / 16, (w - 1) as nat);
        lemma_hex_char(k % 16);
        let s = hex_digits(k, w);
        assert forall|i: int| 0 <= i < w implies #[trigger] is_lower_hex(s[i]) by {
            if i < w - 1 {
                assert(s[i] == hex_digits(k / 16, (w - 1) as nat)[i]);
            }
        }
    }
}

/// Different numbers below 16^w have different `w`-digit hexadecimal texts.
proof fn lemma_hex_digits_injective(a: nat, b: nat, w: nat)
    requires
        a < pow16(w),
        b < pow16(w),
        hex_digits(a, w) == hex_digits(b, w),
    ensures
        a == b,
    decreases w,
{
    if w > 0 {
        let sa = hex_digits(a, w);
        let sb = hex_digits(b, w);
        assert(sa.last() == hex_char(a % 16));
        assert(sb.last() == hex_char(b % 16));
        lemma_hex_char(a % 16);
        assert(a % 16 == b % 16);
        assert(sa.drop_last() == hex_digits(a / 16, (w - 1) as nat));
        assert(sb.drop_last() == hex_digits(b / 16, (w - 1) as nat));
        lemma_hex_digits_injective(a / 16, b / 16, (w - 1) as nat);
    }
}

/// Different `k` give different candidates.
proof fn lemma_candidates_distinct(prefix: Seq<char>, a: nat, b: nat)
    requires
        a < fresh_id_limit(),
        b < fresh_id_limit(),
        candidate(prefix, a) == candidate(prefix, b),
    ensures
        a == b,
{
    assert(pow16(12) == fresh_id_limit()) by {
        reveal_with_fuel(pow16, 13);
    }
    lemma_hex_digits(a, 12);
    lemma_hex_digits(b, 12);
    assert(candidate(prefix, a).subrange(prefix.len() as int, prefix.len() + 12int) =~= hex_digits(a, 12));
    assert(candidate(prefix, b).subrange(prefix.len() as int, prefix.len() + 12int) =~= hex_digits(b, 12));
    lemma_hex_digits_injective(a, b, 12);
}

/// More distinct texts than ids cannot all be among the ids.
proof fn lemma_pigeonhole(cs: Seq<Seq<char>>, ids: Seq<Seq<char>>)
    requires
        cs.no_duplicates(),
        forall|j: int| 0 <= j < cs.len() ==> ids.contains(#[trigger] cs[j]),
    ensures
        cs.len() <= ids.len(),
{
    cs.unique_seq_to_set();
    ids.lemma_cardinality_of_set();
    assert(cs.to_set().subset_of(ids.to_set())) by {
        assert forall|x: Seq<char>| cs.to_set().contains(x) implies ids.to_set().contains(x) by {
            let j = choose|j: int| 0 <= j < cs.len() && cs[j] == x;
            assert(ids.contains(cs[j]));
        }
    }
    vstd::set_lib::lemma_len_subset(cs.to_set(), ids.to_set());
}

fn push_hex_digits(s: &mut String, k: u64, w: u64)
    ensures
        final(s)@ == old(s)@ + hex_digits(k as nat, w as nat),
    decreases w,
{
    if w > 0 {
        push_hex_digits(s, k / 16, w - 1);
        let d = k % 16;
        let c: char = if d < 10 {
            ((48 + d) as u8) as char
        } else {
            ((87 + d) as u8) as char
        };
        assert(c == hex_char((k % 16) as nat));
        push_char(s, c);
        assert(old(s)@ + hex_digits((k / 16) as nat, (w - 1) as nat) + seq![c] =~= old(s)@
            + hex_digits(k as nat, w as nat));
    } else {
        assert(old(s)@ + hex_digits(k as nat, 0) =~= old(s)@);
    }
}

fn contains_text(taken: &Vec<String>, s: &String) -> (r: bool)
    ensures
        r == texts(taken@).contains(s@),
{
    let mut i: usize = 0;
    while i < taken.len()
        invariant
            i <= taken@.len(),
            forall|j: int| 0 <= j < i ==> #[trigger] texts(taken@)[j] != s@,
        decreases taken@.len() - i,
    {
        if taken[i] == *s {
            assert(texts(taken@)[i as int] == s@);
            return true;
        }
        i = i + 1;
    }
    false
}

/// A random identifier that none of `taken` carries. The random id is used
/// when it is not taken; otherwise its last 12 digits are replaced by the
/// first count 0, 1, 2, ... that gives an untaken id. Among `taken.len() + 1`
/// such candidates one is always free, as long as there are fewer than 16^12
/// taken ids.
pub(crate) fn fresh_uuid_text(taken: &Vec<String>) -> (r: String)
    ensures
        is_uuid_v4_text(r@),
        taken@.len() < fresh_id_limit() ==> !texts(taken@).contains(r@),
{
    let raw = new_uuid_text();
    if !contains_text(taken, &raw) {
        return raw;
    }
    let n = taken.len() as u64;
    if n >= 0x1_0000_0000_0000u64 {
        return raw;
    }
    let prefix = raw.as_str().substring_char(0, 24);
    let mut k: u64 = 0;
    while k <= n
        invariant
            n == taken@.len(),
            n < fresh_id_limit(),
            k <= n + 1,
            prefix@ == raw@.subrange(0, 24),
            is_uuid_v4_text(raw@),
            forall|j: int| 0 <= j < k ==> texts(taken@).contains(#[trigger] candidate(prefix@, j as nat)),
        decreases n + 1 - k,
    {
        let mut c = prefix.to_owned();
        push_hex_digits(&mut c, k, 12);
        assert(c@ == candidate(prefix@, k as nat));
        if !contains_text(taken, &c) {
            proof {
                lemma_hex_digits(k as nat, 12);
                assert forall|i: int|
                    0 <= i < 36 && i != 8 && i != 13 && i != 18 && i != 23 implies #[trigger] is_lower_hex(c@[i]) by {
                    if i < 24 {
                        assert(c@[i] == raw@[i]);
                    } else {
                        assert(c@[i] == hex_digits(k as nat, 12)[i - 24]);
                    }
                }
                assert(c@[8] == raw@[8] && c@[13] == raw@[13] && c@[18] == raw@[18]);
                assert(c@[23] == raw@[23] && c@[14] == raw@[14] && c@[19] == raw@[19]);
            }
            return c;
        }
        k = k + 1;
    }
    proof {
        let cs = Seq::new((n + 1) as nat, |j: int| candidate(prefix@, j as nat));
        assert forall|a: int, b: int| 0 <= a < cs.len() && 0 <= b < cs.len() && a != b implies cs[a]
            != cs[b] by {
            if cs[a] == cs[b] {
                lemma_candidates_distinct(prefix@, a as nat, b as nat);
            }
        }
        assert forall|j: int| 0 <= j < cs.len() implies texts(taken@).contains(#[trigger] cs[j]) by {
            assert(cs[j] == candidate(prefix@, j as nat));
        }
        lemma_pigeonhole(cs, texts(taken@));
    }
    raw
}

} // verus!
