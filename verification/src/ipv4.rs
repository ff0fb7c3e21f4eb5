//! Dotted-quad IPv4 parsing, used by the display sort to compare
//! addresses numerically: four decimal octets below 256, separated by
//! dots, with no leading zeros and no other characters.

use vstd::prelude::*;

use crate::text::find_char;
use crate::text::lemma_find_char;
use crate::text::str_find_char;

verus! {

/// `s` divided at every occurrence of `sep`: one part per gap, in
/// order, separators dropped. Never empty; `n` separators give `n + 1`
/// parts.
pub open spec fn split_char_seq(s: Seq<char>, sep: char) -> Seq<Seq<char>>
    decreases s.len(),
{
    if s.len() == 0 {
        seq![Seq::<char>::empty()]
    } else if s[0] == sep {
        seq![Seq::<char>::empty()] + split_char_seq(s.drop_first(), sep)
    } else {
        let r = split_char_seq(s.drop_first(), sep);
        seq![seq![s[0]] + r[0]] + r.drop_first()
    }
}

/// Splitting yields at least one part.
pub proof fn lemma_split_nonempty(s: Seq<char>, sep: char)
    ensures
        split_char_seq(s, sep).len() >= 1,
    decreases s.len(),
{
    if s.len() > 0 {
        lemma_split_nonempty(s.drop_first(), sep);
    }
}

/// Splitting steps over the first separator: the part before it, then
/// the split of what follows; a separator-free sequence is one part.
proof fn lemma_split_first(s: Seq<char>, sep: char)
    ensures
        find_char(s, sep) == s.len() ==> split_char_seq(s, sep) == seq![s],
        find_char(s, sep) < s.len() ==> split_char_seq(s, sep) == seq![
            s.take(find_char(s, sep)),
        ] + split_char_seq(s.skip(find_char(s, sep) + 1), sep),
    decreases s.len(),
{
    lemma_find_char(s, sep);
    if s.len() == 0 {
        assert(s =~= Seq::<char>::empty());
        assert(split_char_seq(s, sep) =~= seq![s]);
    } else if s[0] == sep {
        assert(s.take(0) =~= Seq::<char>::empty());
        assert(s.skip(1) =~= s.drop_first());
        assert(split_char_seq(s, sep) =~= seq![s.take(0)] + split_char_seq(s.skip(1), sep));
    } else {
        let d = s.drop_first();
        let f = find_char(s, sep);
        lemma_split_first(d, sep);
        lemma_split_nonempty(d, sep);
        assert(find_char(d, sep) == f - 1);
        let r = split_char_seq(d, sep);
        if f == s.len() {
            assert(r == seq![d]);
            assert(seq![s[0]] + r[0] =~= s);
            assert(split_char_seq(s, sep) =~= seq![s]);
        } else {
            assert(r == seq![d.take(f - 1)] + split_char_seq(d.skip(f), sep));
            assert(seq![s[0]] + r[0] =~= s.take(f));
            assert(d.skip(f) =~= s.skip(f + 1));
            assert(r.drop_first() =~= split_char_seq(s.skip(f + 1), sep));
            assert(split_char_seq(s, sep) =~= seq![s.take(f)] + split_char_seq(s.skip(f + 1), sep));
        }
    }
}

/// `s` divided at every occurrence of `sep`, computed.
pub fn split_str(s: &str, sep: char) -> (parts: Vec<String>)
    ensures
        parts.deep_view() == split_char_seq(s@, sep),
{
    let n = s.unicode_len();
    let mut parts: Vec<String> = Vec::new();
    let mut cur: usize = 0;
    proof {
        assert(s@.skip(0) =~= s@);
        assert(parts.deep_view() =~= Seq::<Seq<char>>::empty());
        assert(parts.deep_view() + split_char_seq(s@, sep) =~= split_char_seq(s@, sep));
    }
    loop
        invariant
            cur <= n,
            n == s@.len(),
            split_char_seq(s@, sep) =~= parts.deep_view() + split_char_seq(s@.skip(cur as int), sep),
        decreases n - cur,
    {
        let tail = s.substring_char(cur, n);
        assert(tail@ =~= s@.skip(cur as int));
        let f = str_find_char(tail, sep);
        proof {
            lemma_find_char(tail@, sep);
            lemma_split_first(tail@, sep);
        }
        let ghost prev = parts.deep_view();
        if f == n - cur {
            parts.push(tail.to_owned());
            proof {
                assert(parts.deep_view() =~= prev.push(tail@));
                assert(split_char_seq(s@, sep) =~= parts.deep_view());
            }
            return parts;
        } else {
            let piece = s.substring_char(cur, cur + f);
            assert(piece@ =~= tail@.take(f as int));
            parts.push(piece.to_owned());
            proof {
                assert(parts.deep_view() =~= prev.push(tail@.take(f as int)));
                assert(tail@.skip(f + 1) =~= s@.skip(cur + f + 1));
                assert(split_char_seq(s@, sep) =~= parts.deep_view() + split_char_seq(
                    s@.skip(cur + f + 1),
                    sep,
                ));
            }
            cur = cur + f + 1;
        }
    }
}

/// Whether `c` is a decimal digit.
pub open spec fn is_dec_digit(c: char) -> bool {
    48 <= c as u32 <= 57
}

/// The value of a decimal digit.
pub open spec fn digit_val(c: char) -> int {
    c as u32 - 48
}

/// The value of a string of decimal digits, most significant first.
pub open spec fn digits_val(s: Seq<char>) -> int
    decreases s.len(),
{
    if s.len() == 0 {
        0
    } else {
        digits_val(s.drop_last()) * 10 + digit_val(s.last())
    }
}

/// Whether `s` is a well-formed octet of a dotted quad: one to three
/// decimal digits, value below 256, no leading zero.
pub open spec fn valid_octet(s: Seq<char>) -> bool {
    &&& 1 <= s.len() <= 3
    &&& forall|i: int| 0 <= i < s.len() ==> is_dec_digit(#[trigger] s[i])
    &&& digits_val(s) <= 255
    &&& s.len() > 1 ==> s[0] != '0'
}

/// The numeric value of a dotted-quad IPv4 address, or nothing when
/// `s` is not one.
pub open spec fn ipv4_value(s: Seq<char>) -> Option<int> {
    let parts = split_char_seq(s, '.');
    if parts.len() == 4 && valid_octet(parts[0]) && valid_octet(parts[1]) && valid_octet(parts[2])
        && valid_octet(parts[3]) {
        Some(
            digits_val(parts[0]) * 0x1000000 + digits_val(parts[1]) * 0x10000 + digits_val(
                parts[2],
            ) * 0x100 + digits_val(parts[3]),
        )
    } else {
        None
    }
}

/// A string of decimal digits has a non-negative value, bounded by its
/// length.
proof fn lemma_digits_bound(s: Seq<char>)
    requires
        forall|i: int| 0 <= i < s.len() ==> is_dec_digit(#[trigger] s[i]),
    ensures
        0 <= digits_val(s),
        s.len() <= 1 ==> digits_val(s) <= 9,
        s.len() <= 2 ==> digits_val(s) <= 99,
        s.len() <= 3 ==> digits_val(s) <= 999,
    decreases s.len(),
{
    if s.len() > 0 {
        assert(forall|i: int|
            0 <= i < s.drop_last().len() ==> is_dec_digit(#[trigger] s.drop_last()[i]));
        lemma_digits_bound(s.drop_last());
    }
}

/// A string of decimal digits has a non-negative value.
pub proof fn lemma_digits_val_nonneg(s: Seq<char>)
    requires
        forall|i: int| 0 <= i < s.len() ==> is_dec_digit(#[trigger] s[i]),
    ensures
        0 <= digits_val(s),
    decreases s.len(),
{
    if s.len() > 0 {
        assert(forall|i: int|
            0 <= i < s.drop_last().len() ==> is_dec_digit(#[trigger] s.drop_last()[i]));
        lemma_digits_val_nonneg(s.drop_last());
    }
}

/// Extending a digit string with more digits never lowers its value.
pub proof fn lemma_digits_prefix_le(s: Seq<char>, i: int)
    requires
        0 <= i <= s.len(),
        forall|k: int| 0 <= k < s.len() ==> is_dec_digit(#[trigger] s[k]),
    ensures
        digits_val(s.take(i)) <= digits_val(s),
    decreases s.len(),
{
    if i < s.len() {
        let d = s.drop_last();
        assert(forall|k: int| 0 <= k < d.len() ==> is_dec_digit(#[trigger] d[k]));
        lemma_digits_val_nonneg(d);
        assert(s.take(i) =~= d.take(i));
        lemma_digits_prefix_le(d, i);
    } else {
        assert(s.take(i) =~= s);
    }
}

/// The value of a well-formed octet string, or nothing when it is not
/// one, computed.
fn parse_octet(s: &String) -> (r: Option<u32>)
    ensures
        match r {
            Some(v) => valid_octet(s@) && v == digits_val(s@) && v <= 255,
            None => !valid_octet(s@),
        },
{
    let n = s.as_str().unicode_len();
    if n < 1 || n > 3 {
        return None;
    }
    let first = s.as_str().get_char(0);
    if n > 1 && first == '0' {
        return None;
    }
    proof {
        assert(s@.take(0) =~= Seq::<char>::empty());
    }
    let mut val: u32 = 0;
    let mut i: usize = 0;
    while i < n
        invariant
            i <= n,
            n == s@.len(),
            1 <= n <= 3,
            n > 1 ==> s@[0] != '0',
            val == digits_val(s@.take(i as int)),
            val <= 255,
            i < n ==> val <= 99,
            forall|k: int| 0 <= k < i ==> is_dec_digit(#[trigger] s@[k]),
        decreases n - i,
    {
        let c = s.as_str().get_char(i);
        let u = c as u32;
        if u < 48 || u > 57 {
            assert(!is_dec_digit(s@[i as int]));
            return None;
        }
        proof {
            assert(s@.take(i + 1 as int).drop_last() =~= s@.take(i as int));
            assert(s@.take(i + 1 as int).last() == s@[i as int]);
        }
        val = val * 10 + (u - 48);
        i = i + 1;
        proof {
            assert(forall|k: int|
                0 <= k < s@.take(i as int).len() ==> is_dec_digit(#[trigger] s@.take(i as int)[k]));
            lemma_digits_bound(s@.take(i as int));
        }
        if val > 255 {
            proof {
                assert(i == n);
                assert(s@.take(n as int) =~= s@);
            }
            return None;
        }
    }
    proof {
        assert(s@.take(n as int) =~= s@);
    }
    Some(val)
}

/// The numeric value of a dotted-quad IPv4 address, computed.
pub fn parse_ipv4(s: &str) -> (r: Option<u32>)
    ensures
        match r {
            Some(v) => ipv4_value(s@) == Some(v as int),
            None => ipv4_value(s@) is None,
        },
{
    let parts = split_str(s, '.');
    if parts.len() != 4 {
        return None;
    }
    let o0 = match parse_octet(&parts[0]) {
        Some(v) => v,
        None => {
            return None;
        },
    };
    let o1 = match parse_octet(&parts[1]) {
        Some(v) => v,
        None => {
            return None;
        },
    };
    let o2 = match parse_octet(&parts[2]) {
        Some(v) => v,
        None => {
            return None;
        },
    };
    let o3 = match parse_octet(&parts[3]) {
        Some(v) => v,
        None => {
            return None;
        },
    };
    Some(o0 * 0x1000000 + o1 * 0x10000 + o2 * 0x100 + o3)
}

} // verus!
