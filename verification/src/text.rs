//! Character and string helpers shared by the inventory, agent and
//! controller modules: suffix tests on file names, whitespace trimming,
//! decimal rendering of timestamps, passphrase masking and substring search.
//!
//! All executable functions here are specified against `Seq<char>` views.

use vstd::prelude::*;
use vstd::string::StrSliceExecFns;
use vstd::string::StringExecFns;

verus! {

// ---------------------------------------------------------------------------
// character classes
// ---------------------------------------------------------------------------

/// ASCII whitespace, the separator that the agent tools use in their output.
pub open spec fn is_ws_char(c: char) -> bool {
    c == ' ' || c == '\t' || c == '\r' || c == '\n'
}

pub fn is_ws(c: char) -> (r: bool)
    ensures
        r == is_ws_char(c),
{
    c == ' ' || c == '\t' || c == '\r' || c == '\n'
}

// ---------------------------------------------------------------------------
// trusted bridges to two std string operations that vstd does not specify
// ---------------------------------------------------------------------------

/// Relies on std's String::push: appends the given character to the end of
/// the string and changes nothing else.
#[verifier::external_body]
pub fn push_char(s: &mut String, c: char)
    ensures
        final(s)@ == old(s)@.push(c),
{
    s.push(c);
}

/// Relies on std's String::pop: removes the last character and returns it,
/// or returns None and leaves the empty string unchanged.
#[verifier::external_body]
pub fn pop_char(s: &mut String) -> (r: Option<char>)
    ensures
        old(s)@.len() == 0 ==> final(s)@ == old(s)@ && r is None,
        old(s)@.len() > 0 ==> final(s)@ == old(s)@.drop_last() && r == Some(old(s)@.last()),
{
    s.pop()
}

// ---------------------------------------------------------------------------
// string equality and suffix tests
// ---------------------------------------------------------------------------

pub fn str_eq(a: &str, b: &str) -> (r: bool)
    ensures
        r == (a@ == b@),
{
    let sa = String::from_str(a);
    let sb = String::from_str(b);
    sa == sb
}

/// The file-name suffix that marks the public half of a key pair.
pub open spec fn pub_suffix() -> Seq<char> {
    seq!['.', 'p', 'u', 'b']
}

pub open spec fn ends_with(s: Seq<char>, suffix: Seq<char>) -> bool {
    s.len() >= suffix.len() && s.subrange(s.len() - suffix.len(), s.len() as int) == suffix
}

pub fn str_ends_with_pub(s: &str) -> (r: bool)
    ensures
        r == ends_with(s@, pub_suffix()),
{
    proof {
        reveal_strlit(".pub");
        assert(".pub"@ =~= pub_suffix());
    }
    let n = s.unicode_len();
    if n < 4 {
        false
    } else {
        let tail = s.substring_char(n - 4, n);
        str_eq(tail, ".pub")
    }
}

/// Drops the four characters of the public suffix.
pub fn strip_pub(s: &str) -> (r: String)
    requires
        ends_with(s@, pub_suffix()),
    ensures
        r@ == s@.subrange(0, s@.len() - 4),
{
    let n = s.unicode_len();
    let base = s.substring_char(0, n - 4);
    String::from_str(base)
}

// ---------------------------------------------------------------------------
// decimal rendering of unsigned integers
// ---------------------------------------------------------------------------

pub open spec fn dec_digit(d: int) -> char {
    if d == 0 {
        '0'
    } else if d == 1 {
        '1'
    } else if d == 2 {
        '2'
    } else if d == 3 {
        '3'
    } else if d == 4 {
        '4'
    } else if d == 5 {
        '5'
    } else if d == 6 {
        '6'
    } else if d == 7 {
        '7'
    } else if d == 8 {
        '8'
    } else {
        '9'
    }
}

/// The usual decimal spelling of a non-negative integer, without leading
/// zeros except for the single digit of zero itself.
pub open spec fn dec_seq(n: int) -> Seq<char>
    recommends
        n >= 0,
    decreases n,
{
    if n < 10 {
        seq![dec_digit(n)]
    } else {
        dec_seq(n / 10).push(dec_digit(n % 10))
    }
}

pub proof fn lemma_dec_seq_last(n: int)
    requires
        n >= 0,
    ensures
        dec_seq(n).len() > 0,
        dec_seq(n).last() == dec_digit(n % 10),
{
    if n < 10 {
        assert(n % 10 == n);
    }
}

fn digit_char(d: u64) -> (c: char)
    requires
        d < 10,
    ensures
        c == dec_digit(d as int),
{
    if d == 0 {
        '0'
    } else if d == 1 {
        '1'
    } else if d == 2 {
        '2'
    } else if d == 3 {
        '3'
    } else if d == 4 {
        '4'
    } else if d == 5 {
        '5'
    } else if d == 6 {
        '6'
    } else if d == 7 {
        '7'
    } else if d == 8 {
        '8'
    } else {
        '9'
    }
}

/// The decimal image of a digit vector read from its end to its start.
spec fn rev_digit_chars(ds: Seq<u64>) -> Seq<char> {
    Seq::new(ds.len(), |i: int| dec_digit(ds[ds.len() - 1 - i] as int))
}

pub fn u64_to_dec(n: u64) -> (r: String)
    ensures
        r@ == dec_seq(n as int),
{
    let mut digits: Vec<u64> = Vec::new();
    let mut m: u64 = n;
    while m >= 10
        invariant
            dec_seq(n as int) =~= dec_seq(m as int) + rev_digit_chars(digits@),
            forall|k: int| 0 <= k < digits@.len() ==> digits@[k] < 10,
        decreases m,
    {
        let d = m % 10;
        let ghost old_digits = digits@;
        digits.push(d);
        proof {
            assert(rev_digit_chars(old_digits.push(d)) =~= seq![dec_digit(d as int)]
                + rev_digit_chars(old_digits));
            assert(dec_seq(m as int) == dec_seq(m as int / 10).push(dec_digit(m as int % 10)));
            assert(dec_seq(m as int / 10).push(dec_digit(d as int)) + rev_digit_chars(old_digits)
                =~= dec_seq(m as int / 10) + rev_digit_chars(old_digits.push(d)));
        }
        m = m / 10;
    }
    let ghost before_last = digits@;
    digits.push(m);
    proof {
        assert(dec_seq(m as int) =~= seq![dec_digit(m as int)]);
        assert(rev_digit_chars(before_last.push(m)) =~= seq![dec_digit(m as int)]
            + rev_digit_chars(before_last));
        assert(dec_seq(n as int) =~= rev_digit_chars(digits@));
    }
    let mut r = String::new();
    let mut i: usize = digits.len();
    while i > 0
        invariant
            i <= digits.len(),
            forall|k: int| 0 <= k < digits@.len() ==> digits@[k] < 10,
            dec_seq(n as int) == rev_digit_chars(digits@),
            r@ =~= rev_digit_chars(digits@).take(digits@.len() - i),
        decreases i,
    {
        i = i - 1;
        let c = digit_char(digits[i]);
        push_char(&mut r, c);
        proof {
            assert(r@ =~= rev_digit_chars(digits@).take(digits@.len() - i));
        }
    }
    proof {
        assert(rev_digit_chars(digits@).take(digits@.len() as int) =~= rev_digit_chars(digits@));
    }
    r
}

// ---------------------------------------------------------------------------
// whitespace trimming
// ---------------------------------------------------------------------------

/// Index of the first character that is not whitespace, or the length.
pub open spec fn ws_prefix_end(s: Seq<char>) -> int
    decreases s.len(),
{
    if s.len() == 0 {
        0
    } else if is_ws_char(s[0]) {
        1 + ws_prefix_end(s.drop_first())
    } else {
        0
    }
}

/// One past the index of the last character that is not whitespace, or zero.
pub open spec fn ws_suffix_start(s: Seq<char>) -> int
    decreases s.len(),
{
    if s.len() == 0 {
        0
    } else if is_ws_char(s.last()) {
        ws_suffix_start(s.drop_last())
    } else {
        s.len() as int
    }
}

/// The string without its leading and trailing whitespace.
pub open spec fn trim_spec(s: Seq<char>) -> Seq<char> {
    if ws_prefix_end(s) >= ws_suffix_start(s) {
        Seq::empty()
    } else {
        s.subrange(ws_prefix_end(s), ws_suffix_start(s))
    }
}

proof fn lemma_ws_prefix_end_at(s: Seq<char>, i: int)
    requires
        0 <= i <= s.len(),
        forall|k: int| 0 <= k < i ==> is_ws_char(s[k]),
        i < s.len() ==> !is_ws_char(s[i]),
    ensures
        ws_prefix_end(s) == i,
    decreases s.len(),
{
    if s.len() == 0 {
    } else if is_ws_char(s[0]) {
        assert(i >= 1);
        let t = s.drop_first();
        assert(forall|k: int| 0 <= k < i - 1 ==> is_ws_char(#[trigger] t[k]));
        lemma_ws_prefix_end_at(t, i - 1);
    } else {
        assert(i == 0);
    }
}

proof fn lemma_ws_suffix_start_at(s: Seq<char>, j: int)
    requires
        0 <= j <= s.len(),
        forall|k: int| j <= k < s.len() ==> is_ws_char(s[k]),
        j > 0 ==> !is_ws_char(s[j - 1]),
    ensures
        ws_suffix_start(s) == j,
    decreases s.len(),
{
    if s.len() == 0 {
    } else if is_ws_char(s.last()) {
        assert(j < s.len());
        let t = s.drop_last();
        assert(forall|k: int| j <= k < t.len() ==> is_ws_char(#[trigger] t[k]));
        lemma_ws_suffix_start_at(t, j);
    } else {
        assert(j == s.len());
    }
}

pub fn trim(s: &str) -> (r: String)
    ensures
        r@ == trim_spec(s@),
{
    let n = s.unicode_len();
    let mut a: usize = 0;
    while a < n && is_ws(s.get_char(a))
        invariant
            a <= n,
            n == s@.len(),
            forall|k: int| 0 <= k < a ==> is_ws_char(s@[k]),
        decreases n - a,
    {
        a = a + 1;
    }
    if a == n {
        proof {
            lemma_ws_prefix_end_at(s@, n as int);
            lemma_ws_suffix_start_at(s@, 0);
        }
        String::new()
    } else {
        let mut b: usize = n;
        while b > a && is_ws(s.get_char(b - 1))
            invariant
                a <= b <= n,
                n == s@.len(),
                a < n,
                !is_ws_char(s@[a as int]),
                forall|k: int| b <= k < n ==> is_ws_char(s@[k]),
            decreases b,
        {
            b = b - 1;
        }
        proof {
            lemma_ws_prefix_end_at(s@, a as int);
            assert(b > a) by {
                if b == a {
                    assert(is_ws_char(s@[a as int]));
                }
            }
            lemma_ws_suffix_start_at(s@, b as int);
        }
        String::from_str(s.substring_char(a, b))
    }
}

// ---------------------------------------------------------------------------
// passphrase masking
// ---------------------------------------------------------------------------

/// A run of asterisks, one for each character of a hidden passphrase.
pub open spec fn star_seq(n: int) -> Seq<char> {
    Seq::new(n as nat, |i: int| '*')
}

pub fn stars(n: usize) -> (r: String)
    ensures
        r@ == star_seq(n as int),
{
    let mut r = String::new();
    let mut i: usize = 0;
    while i < n
        invariant
            i <= n,
            r@ =~= star_seq(i as int),
        decreases n - i,
    {
        push_char(&mut r, '*');
        i = i + 1;
        proof {
            assert(r@ =~= star_seq(i as int));
        }
    }
    r
}

// ---------------------------------------------------------------------------
// substring search
// ---------------------------------------------------------------------------

pub open spec fn contains_seq(hay: Seq<char>, needle: Seq<char>) -> bool {
    exists|k: int|
        0 <= k && k + needle.len() <= hay.len() && #[trigger] hay.subrange(k, k + needle.len())
            == needle
}

/// Whether the needle occurs inside `s[lo..hi]`.
pub fn range_contains(s: &str, lo: usize, hi: usize, needle: &str) -> (r: bool)
    requires
        lo <= hi <= s@.len(),
    ensures
        r == contains_seq(s@.subrange(lo as int, hi as int), needle@),
{
    let ghost hay = s@.subrange(lo as int, hi as int);
    let m = needle.unicode_len();
    let width = hi - lo;
    if m > width {
        return false;
    }
    if m == 0 {
        proof {
            assert(hay.subrange(0, 0 + needle@.len() as int) =~= needle@);
        }
        return true;
    }
    let mut k: usize = 0;
    while k <= width - m
        invariant
            0 < m <= width,
            k <= width - m + 1,
            lo <= hi <= s@.len(),
            width == hi - lo,
            m == needle@.len(),
            hay == s@.subrange(lo as int, hi as int),
            forall|k2: int| 0 <= k2 < k ==> #[trigger] hay.subrange(k2, k2 + m) != needle@,
        decreases width - k,
    {
        let mut j: usize = 0;
        let mut is_match = true;
        while is_match && j < m
            invariant
                j <= m,
                k + m <= width,
                lo <= hi <= s@.len(),
                width == hi - lo,
                m == needle@.len(),
                hay == s@.subrange(lo as int, hi as int),
                is_match ==> forall|j2: int| 0 <= j2 < j ==> hay[k + j2] == needle@[j2],
                !is_match ==> hay.subrange(k as int, k + m) != needle@,
            decreases m - j + (if is_match { 1int } else { 0int }),
        {
            let cs = s.get_char(lo + k + j);
            let cn = needle.get_char(j);
            if cs == cn {
                j = j + 1;
            } else {
                proof {
                    assert(hay.subrange(k as int, k + m)[j as int] == hay[k + j]);
                    assert(hay[k + j] == s@[lo + k + j]);
                    assert(hay.subrange(k as int, k + m)[j as int] != needle@[j as int]);
                }
                is_match = false;
            }
        }
        if is_match {
            proof {
                assert(hay.subrange(k as int, k + m) =~= needle@);
            }
            return true;
        }
        k = k + 1;
    }
    proof {
        assert forall|k2: int| 0 <= k2 && k2 + needle@.len() <= hay.len() implies #[trigger] hay
            .subrange(k2, k2 + needle@.len()) != needle@ by {
            assert(k2 < k);
        }
    }
    false
}

} // verus!
