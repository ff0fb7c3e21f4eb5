//! Text primitives shared by the sort order, the IP parsers and the
//! inventory renderer: three-way lexicographic comparison of character
//! sequences (raw and case-insensitive), substring scanning, and decimal
//! rendering of integers.

use vstd::prelude::*;

verus! {

/// Outcome of a three-way comparison.
#[derive(Debug, Clone, Copy, PartialEq, Eq, Structural)]
pub enum Cmp {
    Lt,
    Eq,
    Gt,
}

/// The comparison with its operands exchanged.
pub open spec fn flip(c: Cmp) -> Cmp {
    match c {
        Cmp::Lt => Cmp::Gt,
        Cmp::Eq => Cmp::Eq,
        Cmp::Gt => Cmp::Lt,
    }
}

/// The key a comparison orders characters by: with `ci` set, ASCII
/// capital letters fold onto their lower-case form; otherwise every
/// character keeps its scalar value.
pub open spec fn char_key(ci: bool, c: char) -> u32 {
    if ci && 65 <= c as u32 && c as u32 <= 90 {
        (c as u32 + 32) as u32
    } else {
        c as u32
    }
}

/// Lexicographic three-way comparison of the key sequences of `a` and
/// `b`: the first position whose keys differ decides; a proper prefix
/// orders before the longer sequence.
pub open spec fn lex_cmp_k(ci: bool, a: Seq<char>, b: Seq<char>) -> Cmp
    decreases a.len(),
{
    if a.len() == 0 && b.len() == 0 {
        Cmp::Eq
    } else if a.len() == 0 {
        Cmp::Lt
    } else if b.len() == 0 {
        Cmp::Gt
    } else if char_key(ci, a[0]) < char_key(ci, b[0]) {
        Cmp::Lt
    } else if char_key(ci, a[0]) > char_key(ci, b[0]) {
        Cmp::Gt
    } else {
        lex_cmp_k(ci, a.drop_first(), b.drop_first())
    }
}

/// Raw lexicographic order over character sequences.
pub open spec fn lex_cmp(a: Seq<char>, b: Seq<char>) -> Cmp {
    lex_cmp_k(false, a, b)
}

/// Case-insensitive lexicographic order over character sequences.
pub open spec fn ci_cmp(a: Seq<char>, b: Seq<char>) -> Cmp {
    lex_cmp_k(true, a, b)
}

/// Exchanging the operands of a lexicographic comparison flips it.
pub proof fn lemma_lex_cmp_flip(ci: bool, a: Seq<char>, b: Seq<char>)
    ensures
        lex_cmp_k(ci, a, b) == flip(lex_cmp_k(ci, b, a)),
    decreases a.len(),
{
    if a.len() > 0 && b.len() > 0 && char_key(ci, a[0]) == char_key(ci, b[0]) {
        lemma_lex_cmp_flip(ci, a.drop_first(), b.drop_first());
    }
}

/// Lexicographic comparison is transitive in its non-strict form, and
/// two ties compose to a tie.
pub proof fn lemma_lex_cmp_trans(ci: bool, a: Seq<char>, b: Seq<char>, c: Seq<char>)
    requires
        lex_cmp_k(ci, a, b) != Cmp::Gt,
        lex_cmp_k(ci, b, c) != Cmp::Gt,
    ensures
        lex_cmp_k(ci, a, c) != Cmp::Gt,
        lex_cmp_k(ci, a, b) == Cmp::Eq && lex_cmp_k(ci, b, c) == Cmp::Eq ==> lex_cmp_k(ci, a, c)
            == Cmp::Eq,
    decreases a.len(),
{
    if a.len() > 0 && b.len() > 0 && c.len() > 0 && char_key(ci, a[0]) >= char_key(ci, b[0])
        && char_key(ci, b[0]) >= char_key(ci, c[0]) {
        lemma_lex_cmp_trans(ci, a.drop_first(), b.drop_first(), c.drop_first());
    }
}

/// Comparing equal keys position by position up to `i` does not change
/// the outcome of comparing the remainders.
proof fn lemma_lex_cmp_skip(ci: bool, a: Seq<char>, b: Seq<char>, i: int)
    requires
        0 <= i <= a.len(),
        i <= b.len(),
        forall|k: int| 0 <= k < i ==> char_key(ci, a[k]) == char_key(ci, b[k]),
    ensures
        lex_cmp_k(ci, a, b) == lex_cmp_k(ci, a.skip(i), b.skip(i)),
    decreases i,
{
    if i > 0 {
        assert(a.drop_first().skip(i - 1) =~= a.skip(i));
        assert(b.drop_first().skip(i - 1) =~= b.skip(i));
        lemma_lex_cmp_skip(ci, a.drop_first(), b.drop_first(), i - 1);
    } else {
        assert(a.skip(0) =~= a);
        assert(b.skip(0) =~= b);
    }
}

/// The comparison key of a character, computed.
fn char_key_of(ci: bool, c: char) -> (k: u32)
    ensures
        k == char_key(ci, c),
{
    let u = c as u32;
    if ci && 65 <= u && u <= 90 {
        u + 32
    } else {
        u
    }
}

/// Lexicographic comparison of two strings by their character keys.
fn str_cmp_k(ci: bool, a: &str, b: &str) -> (r: Cmp)
    ensures
        r == lex_cmp_k(ci, a@, b@),
{
    let an = a.unicode_len();
    let bn = b.unicode_len();
    let n = if an < bn {
        an
    } else {
        bn
    };
    let mut i: usize = 0;
    while i < n
        invariant
            i <= n,
            n <= an,
            n <= bn,
            n == an || n == bn,
            an == a@.len(),
            bn == b@.len(),
            forall|k: int| 0 <= k < i ==> char_key(ci, a@[k]) == char_key(ci, b@[k]),
        decreases n - i,
    {
        let ka = char_key_of(ci, a.get_char(i));
        let kb = char_key_of(ci, b.get_char(i));
        if ka < kb {
            proof {
                lemma_lex_cmp_skip(ci, a@, b@, i as int);
            }
            return Cmp::Lt;
        }
        if ka > kb {
            proof {
                lemma_lex_cmp_skip(ci, a@, b@, i as int);
            }
            return Cmp::Gt;
        }
        i = i + 1;
    }
    proof {
        lemma_lex_cmp_skip(ci, a@, b@, n as int);
    }
    if an < bn {
        Cmp::Lt
    } else if an > bn {
        Cmp::Gt
    } else {
        Cmp::Eq
    }
}

/// Raw lexicographic comparison of two strings.
pub fn str_cmp(a: &str, b: &str) -> (r: Cmp)
    ensures
        r == lex_cmp(a@, b@),
{
    str_cmp_k(false, a, b)
}

/// Case-insensitive lexicographic comparison of two strings.
pub fn str_cmp_ci(a: &str, b: &str) -> (r: Cmp)
    ensures
        r == ci_cmp(a@, b@),
{
    str_cmp_k(true, a, b)
}

/// Whether `s` begins with `p`.
pub open spec fn starts_with(s: Seq<char>, p: Seq<char>) -> bool {
    s.len() >= p.len() && s.take(p.len() as int) == p
}

/// Whether `s` begins with `p`, computed.
pub fn str_starts_with(s: &str, p: &str) -> (r: bool)
    ensures
        r == starts_with(s@, p@),
{
    let sn = s.unicode_len();
    let pn = p.unicode_len();
    if sn < pn {
        assert(!starts_with(s@, p@));
        return false;
    }
    let mut i: usize = 0;
    while i < pn
        invariant
            i <= pn,
            pn <= sn,
            sn == s@.len(),
            pn == p@.len(),
            forall|k: int| 0 <= k < i ==> s@[k] == p@[k],
        decreases pn - i,
    {
        if s.get_char(i) != p.get_char(i) {
            assert(s@.take(pn as int)[i as int] != p@[i as int]);
            return false;
        }
        i = i + 1;
    }
    assert(s@.take(pn as int) =~= p@);
    true
}

/// The index of the first occurrence of `c` in `s`, or the length of
/// `s` when `c` does not occur.
pub open spec fn find_char(s: Seq<char>, c: char) -> int
    decreases s.len(),
{
    if s.len() == 0 {
        0
    } else if s[0] == c {
        0
    } else {
        1 + find_char(s.drop_first(), c)
    }
}

/// Where the first occurrence of a character lies: within bounds when
/// present, at the end when absent, and nowhere earlier.
pub proof fn lemma_find_char(s: Seq<char>, c: char)
    ensures
        0 <= find_char(s, c) <= s.len(),
        find_char(s, c) < s.len() ==> s[find_char(s, c)] == c,
        forall|k: int| 0 <= k < find_char(s, c) ==> s[k] != c,
    decreases s.len(),
{
    if s.len() > 0 && s[0] != c {
        lemma_find_char(s.drop_first(), c);
        let f = find_char(s, c);
        let d = s.drop_first();
        assert(f == 1 + find_char(d, c));
        if f < s.len() {
            assert(s[f] == d[f - 1]);
        }
        assert forall|k: int| 0 <= k < f implies s[k] != c by {
            if k >= 1 {
                assert(s[k] == d[k - 1]);
                assert(d[k - 1] != c);
            }
        }
    }
}

/// The index of the first occurrence of `c` in `s`, or the length of
/// `s`, computed.
pub fn str_find_char(s: &str, c: char) -> (r: usize)
    ensures
        r == find_char(s@, c),
{
    proof {
        lemma_find_char(s@, c);
    }
    let n = s.unicode_len();
    let mut i: usize = 0;
    while i < n
        invariant
            i <= n,
            n == s@.len(),
            forall|k: int| 0 <= k < i ==> s@[k] != c,
            0 <= find_char(s@, c) <= s@.len(),
            find_char(s@, c) < s@.len() ==> s@[find_char(s@, c)] == c,
            forall|k: int| 0 <= k < find_char(s@, c) ==> s@[k] != c,
        decreases n - i,
    {
        if s.get_char(i) == c {
            return i;
        }
        i = i + 1;
    }
    n
}

/// Whether `c` occurs in `s`.
pub open spec fn contains_char(s: Seq<char>, c: char) -> bool {
    exists|i: int| 0 <= i < s.len() && s[i] == c
}

/// Whether `c` occurs in `s`, computed.
pub fn str_contains_char(s: &str, c: char) -> (r: bool)
    ensures
        r == contains_char(s@, c),
{
    proof {
        lemma_find_char(s@, c);
    }
    let f = str_find_char(s, c);
    f < s.unicode_len()
}

/// Whether `p` occurs in `s` starting at position `i`.
pub open spec fn match_at(s: Seq<char>, p: Seq<char>, i: int) -> bool {
    0 <= i && i + p.len() <= s.len() && s.subrange(i, i + p.len() as int) == p
}

/// The position of the first occurrence of `p` in `s`, if any.
pub open spec fn find_sub(s: Seq<char>, p: Seq<char>) -> Option<int>
    decreases s.len(),
{
    if p.len() == 0 {
        Some(0)
    } else if s.len() < p.len() {
        None
    } else if s.take(p.len() as int) == p {
        Some(0)
    } else {
        match find_sub(s.drop_first(), p) {
            Some(i) => Some(i + 1),
            None => None,
        }
    }
}

/// Where the first occurrence of a substring lies: a match at the
/// found position and at none before it; or no match anywhere.
pub proof fn lemma_find_sub(s: Seq<char>, p: Seq<char>)
    ensures
        match find_sub(s, p) {
            Some(i) => match_at(s, p, i) && forall|k: int| 0 <= k < i ==> !match_at(s, p, k),
            None => forall|k: int| !match_at(s, p, k),
        },
    decreases s.len(),
{
    if p.len() == 0 {
        assert(s.subrange(0, 0) =~= p);
        assert(match_at(s, p, 0));
    } else if s.len() < p.len() {
        assert forall|k: int| !match_at(s, p, k) by {}
    } else if s.take(p.len() as int) == p {
        assert(s.subrange(0, p.len() as int) =~= s.take(p.len() as int));
        assert(match_at(s, p, 0));
    } else {
        let d = s.drop_first();
        lemma_find_sub(d, p);
        assert(s.subrange(0, p.len() as int) =~= s.take(p.len() as int));
        assert(!match_at(s, p, 0));
        assert forall|k: int| 1 <= k implies match_at(s, p, k) == match_at(d, p, k - 1) by {
            if k + p.len() <= s.len() {
                assert(s.subrange(k, k + p.len() as int) =~= d.subrange(
                    k - 1,
                    (k - 1) + p.len() as int,
                ));
            }
        }
    }
}

/// Whether `p` occurs in `s` starting at `i`, computed.
fn check_match_at(s: &str, p: &str, i: usize) -> (r: bool)
    requires
        i + p@.len() <= s@.len(),
    ensures
        r == match_at(s@, p@, i as int),
{
    let n = s.unicode_len();
    let m = p.unicode_len();
    let mut k: usize = 0;
    while k < m
        invariant
            k <= m,
            n == s@.len(),
            m == p@.len(),
            i + m <= n,
            forall|q: int| 0 <= q < k ==> s@[i + q] == p@[q],
        decreases m - k,
    {
        if s.get_char(i + k) != p.get_char(k) {
            assert(s@.subrange(i as int, i + m as int)[k as int] != p@[k as int]);
            return false;
        }
        k = k + 1;
    }
    assert(s@.subrange(i as int, i + m as int) =~= p@);
    true
}

/// The position of the first occurrence of `p` in `s`, computed.
pub fn str_find_sub(s: &str, p: &str) -> (r: Option<usize>)
    ensures
        match r {
            Some(i) => find_sub(s@, p@) == Some(i as int),
            None => find_sub(s@, p@) is None,
        },
{
    proof {
        lemma_find_sub(s@, p@);
    }
    let n = s.unicode_len();
    let m = p.unicode_len();
    if m == 0 {
        return Some(0);
    }
    if m > n {
        return None;
    }
    let mut i: usize = 0;
    while i <= n - m
        invariant
            i <= n - m + 1,
            1 <= m <= n,
            n == s@.len(),
            m == p@.len(),
            forall|k: int| 0 <= k < i ==> !match_at(s@, p@, k),
            match find_sub(s@, p@) {
                Some(f) => match_at(s@, p@, f) && forall|k: int| 0 <= k < f ==> !match_at(s@, p@, k),
                None => forall|k: int| !match_at(s@, p@, k),
            },
        decreases n - i,
    {
        if check_match_at(s, p, i) {
            proof {
                match find_sub(s@, p@) {
                    Some(f) => {
                        if f < i {
                            assert(!match_at(s@, p@, f));
                        }
                        if i < f {
                            assert(!match_at(s@, p@, i as int));
                        }
                    },
                    None => {
                        assert(!match_at(s@, p@, i as int));
                    },
                }
            }
            return Some(i);
        }
        i = i + 1;
    }
    proof {
        if find_sub(s@, p@) is Some {
            let f = find_sub(s@, p@)->0;
            assert(match_at(s@, p@, f));
            assert(f + p@.len() <= s@.len());
            assert(!match_at(s@, p@, f));
        }
    }
    None
}

/// The characters of a string, as a vector.
pub fn str_chars(s: &str) -> (r: Vec<char>)
    ensures
        r@ == s@,
{
    let n = s.unicode_len();
    let mut r: Vec<char> = Vec::new();
    let mut i: usize = 0;
    while i < n
        invariant
            i <= n,
            n == s@.len(),
            r@ == s@.take(i as int),
        decreases n - i,
    {
        r.push(s.get_char(i));
        assert(s@.take(i + 1 as int) =~= s@.take(i as int).push(s@[i as int]));
        i = i + 1;
    }
    assert(s@.take(n as int) =~= s@);
    r
}

/// Whether a character counts as trimmable whitespace.
pub open spec fn is_space(c: char) -> bool {
    c == ' ' || c == '\t' || c == '\n' || c == '\r'
}

/// `s` without its leading whitespace.
pub open spec fn trim_start(s: Seq<char>) -> Seq<char>
    decreases s.len(),
{
    if s.len() > 0 && is_space(s[0]) {
        trim_start(s.drop_first())
    } else {
        s
    }
}

/// `s` without its trailing whitespace.
pub open spec fn trim_end(s: Seq<char>) -> Seq<char>
    decreases s.len(),
{
    if s.len() > 0 && is_space(s.last()) {
        trim_end(s.drop_last())
    } else {
        s
    }
}

/// `s` without leading and trailing whitespace.
pub open spec fn trimmed(s: Seq<char>) -> Seq<char> {
    trim_end(trim_start(s))
}

/// Whether a character counts as trimmable whitespace, computed.
fn is_space_of(c: char) -> (r: bool)
    ensures
        r == is_space(c),
{
    c == ' ' || c == '\t' || c == '\n' || c == '\r'
}

/// `s` without leading and trailing whitespace, computed.
pub fn str_trim(s: &str) -> (r: String)
    ensures
        r@ == trimmed(s@),
{
    let n = s.unicode_len();
    proof {
        assert(s@.skip(0) =~= s@);
    }
    let mut a: usize = 0;
    while a < n && is_space_of(s.get_char(a))
        invariant
            a <= n,
            n == s@.len(),
            trim_start(s@) == trim_start(s@.skip(a as int)),
        decreases n - a,
    {
        proof {
            assert(s@.skip(a as int)[0] == s@[a as int]);
            assert(s@.skip(a as int).drop_first() =~= s@.skip(a + 1));
        }
        a = a + 1;
    }
    proof {
        if a < n {
            assert(s@.skip(a as int)[0] == s@[a as int]);
        }
        assert(trim_start(s@) == s@.skip(a as int));
    }
    proof {
        assert(s@.skip(a as int) =~= s@.subrange(a as int, n as int));
    }
    let mut b: usize = n;
    while b > a && is_space_of(s.get_char(b - 1))
        invariant
            a <= b <= n,
            n == s@.len(),
            trim_start(s@) == s@.skip(a as int),
            trim_end(s@.skip(a as int)) == trim_end(s@.subrange(a as int, b as int)),
        decreases b,
    {
        proof {
            assert(s@.subrange(a as int, b as int).last() == s@[b - 1]);
            assert(s@.subrange(a as int, b as int).drop_last() =~= s@.subrange(a as int, b - 1));
        }
        b = b - 1;
    }
    proof {
        if b > a {
            assert(s@.subrange(a as int, b as int).last() == s@[b - 1]);
        }
        assert(trim_end(s@.subrange(a as int, b as int)) == s@.subrange(a as int, b as int));
    }
    let piece = s.substring_char(a, b);
    assert(piece@ =~= s@.subrange(a as int, b as int));
    piece.to_owned()
}

/// A string built from a vector of characters.
pub fn chars_to_string(v: &Vec<char>) -> (r: String)
    ensures
        r@ == v@,
{
    let mut r = String::new();
    let mut i: usize = 0;
    while i < v.len()
        invariant
            i <= v@.len(),
            r@ == v@.take(i as int),
        decreases v@.len() - i,
    {
        push_char(&mut r, v[i]);
        assert(v@.take(i + 1 as int) =~= v@.take(i as int).push(v@[i as int]));
        i = i + 1;
    }
    assert(v@.take(v@.len() as int) =~= v@);
    r
}

/// Relies on `String::push`: appends the given character to the end of
/// the string.
#[verifier::external_body]
fn push_char(s: &mut String, c: char)
    ensures
        final(s)@ == old(s)@.push(c),
{
    s.push(c);
}

/// The digit character for a value below ten.
pub open spec fn dec_digit(d: int) -> char {
    if d == 0 {
        '0'
    } else if d == 1 {
        '1'
    } else if d == 2 {
        '2'
    } else if d == 3 {
        '3'
    } else if d == 4 {
        '4'
    } else if d == 5 {
        '5'
    } else if d == 6 {
        '6'
    } else if d == 7 {
        '7'
    } else if d == 8 {
        '8'
    } else {
        '9'
    }
}

/// The decimal rendering of a non-negative integer, most significant
/// digit first, with no leading zeros.
pub open spec fn dec_str(n: int) -> Seq<char>
    recommends
        n >= 0,
    decreases n,
{
    if n < 10 {
        seq![dec_digit(n)]
    } else {
        dec_str(n / 10).push(dec_digit(n % 10))
    }
}

/// The decimal rendering of an integer, computed.
pub fn u64_to_dec(n: u64) -> (r: String)
    ensures
        r@ == dec_str(n as int),
{
    let mut digits: Vec<char> = Vec::new();
    let mut m: u64 = n;
    while m >= 10
        invariant
            dec_str(n as int) =~= dec_str(m as int) + digits@.reverse(),
        decreases m,
    {
        let d = m % 10;
        digits.push(dec_digit_of(d));
        proof {
            assert(digits@.reverse() =~= seq![dec_digit(d as int)] + digits@.drop_last().reverse());
            assert(dec_str((m / 10) as int) + digits@.reverse() =~= dec_str(m as int)
                + digits@.drop_last().reverse());
        }
        m = m / 10;
    }
    digits.push(dec_digit_of(m));
    proof {
        assert(digits@.reverse() =~= seq![dec_digit(m as int)] + digits@.drop_last().reverse());
        assert(dec_str(m as int) =~= seq![dec_digit(m as int)]);
        assert(digits@.reverse() =~= dec_str(n as int));
    }
    let mut out: Vec<char> = Vec::new();
    let mut i: usize = digits.len();
    while i > 0
        invariant
            i <= digits@.len(),
            out@ =~= digits@.skip(i as int).reverse(),
        decreases i,
    {
        i = i - 1;
        out.push(digits[i]);
        proof {
            assert(digits@.skip(i as int).reverse() =~= digits@.skip(i + 1 as int).reverse().push(
                digits@[i as int],
            ));
        }
    }
    assert(out@ =~= digits@.reverse());
    chars_to_string(&out)
}

/// The digit character for a value below ten, computed.
fn dec_digit_of(d: u64) -> (c: char)
    requires
        d < 10,
    ensures
        c == dec_digit(d as int),
{
    if d == 0 {
        '0'
    } else if d == 1 {
        '1'
    } else if d == 2 {
        '2'
    } else if d == 3 {
        '3'
    } else if d == 4 {
        '4'
    } else if d == 5 {
        '5'
    } else if d == 6 {
        '6'
    } else if d == 7 {
        '7'
    } else if d == 8 {
        '8'
    } else {
        '9'
    }
}

} // verus!
