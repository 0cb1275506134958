//! Character-sequence utilities the scanner is built on: white-space
//! classification, trimming, substring search, token splitting, and
//! decimal rendering of counters, each proved against a spec-level
//! definition over `Seq<char>`.

use vstd::prelude::*;
use vstd::string::StrSliceExecFns;
use vstd::string::StringExecFns;

verus! {

/// The Unicode white-space characters, the set `char::is_whitespace` accepts.
pub open spec fn is_space(c: char) -> bool {
    c == ' ' || c == '\t' || c == '\n' || c == '\u{0B}' || c == '\u{0C}' || c == '\r'
        || c == '\u{85}' || c == '\u{A0}' || c == '\u{1680}' || c == '\u{2000}' || c == '\u{2001}'
        || c == '\u{2002}' || c == '\u{2003}' || c == '\u{2004}' || c == '\u{2005}'
        || c == '\u{2006}' || c == '\u{2007}' || c == '\u{2008}' || c == '\u{2009}'
        || c == '\u{200A}' || c == '\u{2028}' || c == '\u{2029}' || c == '\u{202F}'
        || c == '\u{205F}' || c == '\u{3000}'
}

/// Decides `is_space` for one character.
pub fn is_space_char(c: char) -> (r: bool)
    ensures
        r == is_space(c),
{
    c == ' ' || c == '\t' || c == '\n' || c == '\u{0B}' || c == '\u{0C}' || c == '\r'
        || c == '\u{85}' || c == '\u{A0}' || c == '\u{1680}' || c == '\u{2000}' || c == '\u{2001}'
        || c == '\u{2002}' || c == '\u{2003}' || c == '\u{2004}' || c == '\u{2005}'
        || c == '\u{2006}' || c == '\u{2007}' || c == '\u{2008}' || c == '\u{2009}'
        || c == '\u{200A}' || c == '\u{2028}' || c == '\u{2029}' || c == '\u{202F}'
        || c == '\u{205F}' || c == '\u{3000}'
}

/// Index of the first non-white-space character at or after `i`, or the length.
pub open spec fn next_non_space(s: Seq<char>, i: int) -> int
    decreases s.len() - i
        when 0 <= i <= s.len()
{
    if i >= s.len() {
        s.len() as int
    } else if is_space(s[i]) {
        next_non_space(s, i + 1)
    } else {
        i
    }
}

/// `next_non_space(s, i)` is exactly the position `k` before which everything
/// from `i` on is white space and which itself is not (or the end).
pub proof fn lemma_next_non_space_is(s: Seq<char>, i: int, k: int)
    requires
        0 <= i <= k <= s.len(),
        forall|j: int| i <= j < k ==> is_space(s[j]),
        k < s.len() ==> !is_space(s[k]),
    ensures
        next_non_space(s, i) == k,
    decreases k - i,
{
    if i < k {
        lemma_next_non_space_is(s, i + 1, k);
    }
}

/// Index of the first white-space character at or after `i`, or the length.
pub open spec fn next_space(s: Seq<char>, i: int) -> int
    decreases s.len() - i
        when 0 <= i <= s.len()
{
    if i >= s.len() {
        s.len() as int
    } else if !is_space(s[i]) {
        next_space(s, i + 1)
    } else {
        i
    }
}

/// The counterpart of `lemma_next_non_space_is` for `next_space`.
pub proof fn lemma_next_space_is(s: Seq<char>, i: int, k: int)
    requires
        0 <= i <= k <= s.len(),
        forall|j: int| i <= j < k ==> !is_space(s[j]),
        k < s.len() ==> is_space(s[k]),
    ensures
        next_space(s, i) == k,
    decreases k - i,
{
    if i < k {
        lemma_next_space_is(s, i + 1, k);
    }
}

/// One past the last non-white-space character strictly before `j`, or zero.
pub open spec fn end_trim(s: Seq<char>, j: int) -> int
    decreases j
        when 0 <= j <= s.len()
{
    if j <= 0 {
        0
    } else if is_space(s[j - 1]) {
        end_trim(s, j - 1)
    } else {
        j
    }
}

/// `end_trim(s, j)` is exactly the position `k` from which everything up to
/// `j` is white space and whose predecessor is not (or the start).
pub proof fn lemma_end_trim_is(s: Seq<char>, j: int, k: int)
    requires
        0 <= k <= j <= s.len(),
        forall|m: int| k <= m < j ==> is_space(s[m]),
        k > 0 ==> !is_space(s[k - 1]),
    ensures
        end_trim(s, j) == k,
    decreases j - k,
{
    if j > k {
        lemma_end_trim_is(s, j - 1, k);
    }
}

/// The sequence with leading and trailing white space removed.
pub open spec fn trim_seq(s: Seq<char>) -> Seq<char> {
    let a = next_non_space(s, 0);
    let b = end_trim(s, s.len() as int);
    if a < b {
        s.subrange(a, b)
    } else {
        Seq::<char>::empty()
    }
}

/// `p` is a prefix of `s`.
pub open spec fn starts_with_seq(s: Seq<char>, p: Seq<char>) -> bool {
    p.len() <= s.len() && p == s.subrange(0, p.len() as int)
}

/// `p` occurs as a contiguous subsequence of `s`.
pub open spec fn contains_seq(s: Seq<char>, p: Seq<char>) -> bool {
    exists|i: int|
        0 <= i && i + p.len() <= s.len() && p == #[trigger] s.subrange(i, i + p.len() as int)
}

/// The first white-space-separated token of `s` (empty if there is none).
pub open spec fn first_token(s: Seq<char>) -> Seq<char> {
    s.subrange(next_non_space(s, 0), next_space(s, next_non_space(s, 0)))
}

/// `s` splits into at least two white-space-separated tokens.
pub open spec fn has_two_tokens(s: Seq<char>) -> bool {
    next_non_space(s, next_space(s, next_non_space(s, 0))) < s.len()
}

/// Copies `s[a..b]` into a fresh vector.
pub fn subvec(s: &Vec<char>, a: usize, b: usize) -> (r: Vec<char>)
    requires
        a <= b <= s@.len(),
    ensures
        r@ == s@.subrange(a as int, b as int),
{
    let mut r: Vec<char> = Vec::new();
    let mut i: usize = a;
    while i < b
        invariant
            a <= i <= b <= s@.len(),
            r@ == s@.subrange(a as int, i as int),
        decreases b - i,
    {
        r.push(s[i]);
        i = i + 1;
        proof {
            assert(r@ =~= s@.subrange(a as int, i as int));
        }
    }
    r
}

/// Finds `next_non_space(s, from)` by a forward scan.
pub fn find_non_space(s: &Vec<char>, from: usize) -> (r: usize)
    requires
        from <= s@.len(),
    ensures
        r as int == next_non_space(s@, from as int),
        from <= r <= s@.len(),
        r < s@.len() ==> !is_space(s@[r as int]),
{
    let n = s.len();
    let mut i: usize = from;
    while i < n
        invariant
            from <= i <= n == s@.len(),
            forall|j: int| from <= j < i ==> is_space(s@[j]),
        ensures
            from <= i <= n,
            forall|j: int| from <= j < i ==> is_space(s@[j]),
            i < n ==> !is_space(s@[i as int]),
        decreases n - i,
    {
        if !is_space_char(s[i]) {
            break;
        }
        i = i + 1;
    }
    proof {
        lemma_next_non_space_is(s@, from as int, i as int);
    }
    i
}

/// Finds `next_space(s, from)` by a forward scan.
pub fn find_space(s: &Vec<char>, from: usize) -> (r: usize)
    requires
        from <= s@.len(),
    ensures
        r as int == next_space(s@, from as int),
        from <= r <= s@.len(),
        r < s@.len() ==> is_space(s@[r as int]),
{
    let n = s.len();
    let mut i: usize = from;
    while i < n
        invariant
            from <= i <= n == s@.len(),
            forall|j: int| from <= j < i ==> !is_space(s@[j]),
        ensures
            from <= i <= n,
            forall|j: int| from <= j < i ==> !is_space(s@[j]),
            i < n ==> is_space(s@[i as int]),
        decreases n - i,
    {
        if is_space_char(s[i]) {
            break;
        }
        i = i + 1;
    }
    proof {
        lemma_next_space_is(s@, from as int, i as int);
    }
    i
}

/// Removes leading and trailing white space.
pub fn trim_chars(s: &Vec<char>) -> (r: Vec<char>)
    ensures
        r@ == trim_seq(s@),
{
    let n = s.len();
    let a = find_non_space(s, 0);
    if a == n {
        proof {
            assert(end_trim(s@, n as int) <= n as int) by {
                lemma_end_trim_le(s@, n as int);
            }
        }
        Vec::new()
    } else {
        let mut b: usize = n;
        while b > a
            invariant
                a < n == s@.len(),
                a <= b <= n,
                !is_space(s@[a as int]),
                forall|m: int| b <= m < n ==> is_space(s@[m]),
            ensures
                a <= b <= n,
                !is_space(s@[a as int]),
                forall|m: int| b <= m < n ==> is_space(s@[m]),
                b > a ==> !is_space(s@[b - 1]),
            decreases b,
        {
            if !is_space_char(s[b - 1]) {
                break;
            }
            b = b - 1;
        }
        proof {
            if b == a {
                assert(is_space(s@[a as int]));
            }
            lemma_end_trim_is(s@, n as int, b as int);
        }
        subvec(s, a, b)
    }
}

/// `end_trim` never exceeds its starting point.
pub proof fn lemma_end_trim_le(s: Seq<char>, j: int)
    requires
        0 <= j <= s.len(),
    ensures
        0 <= end_trim(s, j) <= j,
    decreases j,
{
    if j > 0 && is_space(s[j - 1]) {
        lemma_end_trim_le(s, j - 1);
    }
}

/// `p` matches `s` at offset `i`.
fn matches_at(s: &Vec<char>, p: &str, i: usize) -> (r: bool)
    requires
        i + p@.len() <= s@.len(),
    ensures
        r == (p@ == s@.subrange(i as int, i as int + p@.len() as int)),
{
    let plen = p.unicode_len();
    let n = s.len();
    let mut j: usize = 0;
    while j < plen
        invariant
            j <= plen,
            plen == p@.len(),
            i + plen <= n == s@.len(),
            forall|k: int| 0 <= k < j ==> p@[k] == s@[i + k],
        decreases plen - j,
    {
        if s[i + j] != p.get_char(j) {
            proof {
                assert(s@.subrange(i as int, i as int + p@.len() as int)[j as int] == s@[i + j]);
            }
            return false;
        }
        j = j + 1;
    }
    proof {
        assert(p@ =~= s@.subrange(i as int, i as int + p@.len() as int));
    }
    true
}

/// Decides whether `p` is a prefix of `s`.
pub fn starts_with_chars(s: &Vec<char>, p: &str) -> (r: bool)
    ensures
        r == starts_with_seq(s@, p@),
{
    let plen = p.unicode_len();
    if plen > s.len() {
        return false;
    }
    matches_at(s, p, 0)
}

/// Decides whether `p` occurs anywhere inside `s`.
pub fn contains_chars(s: &Vec<char>, p: &str) -> (r: bool)
    ensures
        r == contains_seq(s@, p@),
{
    let plen = p.unicode_len();
    let n = s.len();
    if plen > n {
        return false;
    }
    if plen == 0 {
        proof {
            assert(p@ =~= s@.subrange(0, 0));
            assert(p@ == s@.subrange(0, 0 + p@.len() as int));
        }
        return true;
    }
    let mut i: usize = 0;
    while i <= n - plen
        invariant
            plen == p@.len(),
            n == s@.len(),
            1 <= plen <= n,
            i <= n - plen + 1,
            forall|j: int|
                0 <= j < i ==> p@ != #[trigger] s@.subrange(j, j + p@.len() as int),
        decreases n - plen + 1 - i,
    {
        if matches_at(s, p, i) {
            proof {
                assert(0 <= i as int && i as int + p@.len() <= s@.len() && p@ == s@.subrange(
                    i as int,
                    i as int + p@.len() as int,
                ));
            }
            return true;
        }
        i = i + 1;
    }
    false
}

/// Decides whether `s` equals `p` exactly.
pub fn eq_chars(s: &Vec<char>, p: &str) -> (r: bool)
    ensures
        r == (s@ == p@),
{
    let plen = p.unicode_len();
    if s.len() != plen {
        return false;
    }
    let r = matches_at(s, p, 0);
    proof {
        assert(s@.subrange(0, p@.len() as int) =~= s@);
    }
    r
}

/// Copies the first white-space-separated token of `s`.
pub fn first_token_chars(s: &Vec<char>) -> (r: Vec<char>)
    ensures
        r@ == first_token(s@),
{
    let a = find_non_space(s, 0);
    let b = find_space(s, a);
    subvec(s, a, b)
}

/// Decides whether `s` has at least two white-space-separated tokens.
pub fn has_two_tokens_chars(s: &Vec<char>) -> (r: bool)
    ensures
        r == has_two_tokens(s@),
{
    let a = find_non_space(s, 0);
    let b = find_space(s, a);
    let c = find_non_space(s, b);
    c < s.len()
}

/// The character for one decimal digit.
pub open spec fn digit_char(d: nat) -> char {
    if d == 0 {
        '0'
    } else if d == 1 {
        '1'
    } else if d == 2 {
        '2'
    } else if d == 3 {
        '3'
    } else if d == 4 {
        '4'
    } else if d == 5 {
        '5'
    } else if d == 6 {
        '6'
    } else if d == 7 {
        '7'
    } else if d == 8 {
        '8'
    } else {
        '9'
    }
}

/// The decimal rendering of `n`, most significant digit first.
pub open spec fn dec_digits(n: nat) -> Seq<char>
    decreases n,
{
    if n < 10 {
        seq![digit_char(n)]
    } else {
        dec_digits(n / 10).push(digit_char(n % 10))
    }
}

/// The one-character string for a decimal digit.
fn digit_str(d: u64) -> (r: &'static str)
    requires
        d < 10,
    ensures
        r@ == seq![digit_char(d as nat)],
{
    proof {
        reveal_strlit("0");
        reveal_strlit("1");
        reveal_strlit("2");
        reveal_strlit("3");
        reveal_strlit("4");
        reveal_strlit("5");
        reveal_strlit("6");
        reveal_strlit("7");
        reveal_strlit("8");
        reveal_strlit("9");
    }
    let r: &'static str = if d == 0 {
        "0"
    } else if d == 1 {
        "1"
    } else if d == 2 {
        "2"
    } else if d == 3 {
        "3"
    } else if d == 4 {
        "4"
    } else if d == 5 {
        "5"
    } else if d == 6 {
        "6"
    } else if d == 7 {
        "7"
    } else if d == 8 {
        "8"
    } else {
        "9"
    };
    proof {
        assert(r@ =~= seq![digit_char(d as nat)]);
    }
    r
}

/// Renders `n` in decimal.
pub fn u64_to_dec(n: u64) -> (r: String)
    ensures
        r@ == dec_digits(n as nat),
    decreases n,
{
    if n < 10 {
        digit_str(n).to_owned()
    } else {
        let mut s = u64_to_dec(n / 10);
        s.append(digit_str(n % 10));
        proof {
            assert(s@ =~= dec_digits((n / 10) as nat).push(digit_char((n % 10) as nat)));
        }
        s
    }
}

/// The characters of `s` as a vector.
pub fn chars_of(s: &str) -> (r: Vec<char>)
    ensures
        r@ == s@,
{
    let n = s.unicode_len();
    let mut r: Vec<char> = Vec::new();
    let mut i: usize = 0;
    while i < n
        invariant
            n == s@.len(),
            i <= n,
            r@ == s@.subrange(0, i as int),
        decreases n - i,
    {
        r.push(s.get_char(i));
        i = i + 1;
        proof {
            assert(r@ =~= s@.subrange(0, i as int));
        }
    }
    proof {
        assert(r@ =~= s@);
    }
    r
}

} // verus!
