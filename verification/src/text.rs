//! Character-level string operations with their specifications.
//!
//! Strings are reasoned about through their view, a `Seq<char>`; every
//! operation here states its result over that view.
use vstd::prelude::*;

verus! {

// ---------------------------------------------------------------------------
// Building strings
// ---------------------------------------------------------------------------

/// Appends one character to a string (`String::push`).
#[verifier::external_body]
pub(crate) fn push_char(s: &mut String, c: char)
    ensures
        final(s)@ == old(s)@.push(c),
{
    s.push(c);
}

/// Appends a string slice to a string (`String::push_str`).
#[verifier::external_body]
pub(crate) fn push_str(s: &mut String, t: &str)
    ensures
        final(s)@ == old(s)@ + t@,
{
    s.push_str(t);
}

/// An owned copy of a string slice.
pub fn owned(s: &str) -> (r: String)
    ensures
        r@ == s@,
{
    let mut r = String::new();
    push_str(&mut r, s);
    r
}

/// The characters of a string slice, in order.
pub fn chars_of(s: &str) -> (v: Vec<char>)
    ensures
        v@ == s@,
{
    let mut v: Vec<char> = Vec::new();
    for c in it: s.chars()
        invariant
            v@ == it.seq().take(it.index() as int),
    {
        v.push(c);
    }
    v
}

/// The string made of the characters `v[lo..hi]`.
pub fn string_of_range(v: &Vec<char>, lo: usize, hi: usize) -> (r: String)
    requires
        lo <= hi <= v@.len(),
    ensures
        r@ == v@.subrange(lo as int, hi as int),
{
    let mut r = String::new();
    let mut i = lo;
    while i < hi
        invariant
            lo <= i <= hi <= v@.len(),
            r@ == v@.subrange(lo as int, i as int),
        decreases hi - i,
    {
        push_char(&mut r, v[i]);
        i = i + 1;
    }
    r
}

/// The string made of all the characters of `v`.
pub fn string_of(v: &Vec<char>) -> (r: String)
    ensures
        r@ == v@,
{
    let r = string_of_range(v, 0, v.len());
    assert(v@.subrange(0, v@.len() as int) =~= v@);
    r
}

// ---------------------------------------------------------------------------
// Whitespace and trimming
// ---------------------------------------------------------------------------

/// Unicode `White_Space`, as `char::is_whitespace` decides it.
pub open spec fn is_ws(c: char) -> bool {
    let n = c as u32;
    ||| (0x09 <= n && n <= 0x0d)
    ||| n == 0x20
    ||| n == 0x85
    ||| n == 0xa0
    ||| n == 0x1680
    ||| (0x2000 <= n && n <= 0x200a)
    ||| n == 0x2028
    ||| n == 0x2029
    ||| n == 0x202f
    ||| n == 0x205f
    ||| n == 0x3000
}

pub fn is_whitespace(c: char) -> (b: bool)
    ensures
        b == is_ws(c),
{
    let n = c as u32;
    (0x09 <= n && n <= 0x0d) || n == 0x20 || n == 0x85 || n == 0xa0 || n == 0x1680 || (0x2000
        <= n && n <= 0x200a) || n == 0x2028 || n == 0x2029 || n == 0x202f || n == 0x205f || n
        == 0x3000
}

/// `s` without its leading whitespace.
pub open spec fn trim_start_seq(s: Seq<char>) -> Seq<char>
    decreases s.len(),
{
    if s.len() > 0 && is_ws(s[0]) {
        trim_start_seq(s.drop_first())
    } else {
        s
    }
}

/// `s` without its trailing whitespace.
pub open spec fn trim_end_seq(s: Seq<char>) -> Seq<char>
    decreases s.len(),
{
    if s.len() > 0 && is_ws(s.last()) {
        trim_end_seq(s.drop_last())
    } else {
        s
    }
}

/// `s` without leading and trailing whitespace (`str::trim`).
pub open spec fn trim_seq(s: Seq<char>) -> Seq<char> {
    trim_end_seq(trim_start_seq(s))
}

proof fn lemma_trim_start_skip(s: Seq<char>, i: int)
    requires
        0 <= i <= s.len(),
        forall|k: int| 0 <= k < i ==> is_ws(#[trigger] s[k]),
    ensures
        trim_start_seq(s) == trim_start_seq(s.skip(i)),
    decreases i,
{
    if i > 0 {
        assert(s.drop_first().skip(i - 1) =~= s.skip(i));
        lemma_trim_start_skip(s.drop_first(), i - 1);
    } else {
        assert(s.skip(0) =~= s);
    }
}

proof fn lemma_trim_end_take(s: Seq<char>, j: int)
    requires
        0 <= j <= s.len(),
        forall|k: int| j <= k < s.len() ==> is_ws(#[trigger] s[k]),
    ensures
        trim_end_seq(s) == trim_end_seq(s.take(j)),
    decreases s.len() - j,
{
    if j < s.len() {
        assert(s.drop_last().take(j) =~= s.take(j));
        lemma_trim_end_take(s.drop_last(), j);
    } else {
        assert(s.take(j) =~= s);
    }
}

/// The bounds `(lo, hi)` such that `v[lo..hi]` is `v` trimmed of whitespace.
pub fn trim_bounds(v: &Vec<char>) -> (r: (usize, usize))
    ensures
        r.0 <= r.1 <= v@.len(),
        v@.subrange(r.0 as int, r.1 as int) == trim_seq(v@),
{
    let mut lo: usize = 0;
    while lo < v.len() && is_whitespace(v[lo])
        invariant
            lo <= v@.len(),
            forall|k: int| 0 <= k < lo ==> is_ws(#[trigger] v@[k]),
        decreases v@.len() - lo,
    {
        lo = lo + 1;
    }
    proof {
        lemma_trim_start_skip(v@, lo as int);
        let t = v@.skip(lo as int);
        assert(t.len() == 0 || !is_ws(t[0]));
        assert(trim_start_seq(t) == t);
    }
    let mut hi: usize = v.len();
    while hi > lo && is_whitespace(v[hi - 1])
        invariant
            lo <= hi <= v@.len(),
            forall|k: int| hi <= k < v@.len() ==> is_ws(#[trigger] v@[k]),
        decreases hi,
    {
        hi = hi - 1;
    }
    proof {
        let t = v@.skip(lo as int);
        assert forall|k: int| hi - lo <= k < t.len() implies is_ws(#[trigger] t[k]) by {
            assert(t[k] == v@[k + lo]);
        }
        lemma_trim_end_take(t, hi - lo);
        let u = t.take(hi - lo);
        assert(u =~= v@.subrange(lo as int, hi as int));
        assert(u.len() == 0 || !is_ws(u.last()));
        assert(trim_end_seq(u) == u);
    }
    (lo, hi)
}

/// `str::trim`.
pub fn trim(s: &str) -> (r: String)
    ensures
        r@ == trim_seq(s@),
{
    let v = chars_of(s);
    let (lo, hi) = trim_bounds(&v);
    string_of_range(&v, lo, hi)
}

// ---------------------------------------------------------------------------
// Prefixes, suffixes and substrings
// ---------------------------------------------------------------------------

/// `n` occurs in `h` at position `i`.
pub open spec fn occurs_at(h: Seq<char>, n: Seq<char>, i: int) -> bool {
    0 <= i && i + n.len() <= h.len() && h.subrange(i, i + n.len()) == n
}

/// `n` occurs somewhere in `h` (`str::contains`).
pub open spec fn contains_seq(h: Seq<char>, n: Seq<char>) -> bool {
    exists|i: int| occurs_at(h, n, i)
}

/// `h` begins with `p`.
pub open spec fn has_prefix(h: Seq<char>, p: Seq<char>) -> bool {
    p.len() <= h.len() && h.take(p.len() as int) == p
}

/// `h` ends with `p`.
pub open spec fn has_suffix(h: Seq<char>, p: Seq<char>) -> bool {
    p.len() <= h.len() && h.skip(h.len() - p.len()) == p
}

/// Whether `n` occurs in `h` at position `i`.
pub fn matches_at(h: &Vec<char>, n: &Vec<char>, i: usize) -> (b: bool)
    ensures
        b == occurs_at(h@, n@, i as int),
{
    if n.len() > h.len() || i > h.len() - n.len() {
        return false;
    }
    let mut k: usize = 0;
    while k < n.len()
        invariant
            i + n@.len() <= h.len(),
            k <= n@.len(),
            forall|j: int| 0 <= j < k ==> h@[i + j] == n@[j],
        decreases n@.len() - k,
    {
        assert(i + k < h@.len());
        if h[i + k] != n[k] {
            assert(h@.subrange(i as int, i + n@.len())[k as int] != n@[k as int]);
            return false;
        }
        k = k + 1;
    }
    assert(h@.subrange(i as int, i + n@.len()) =~= n@);
    true
}

/// The first position at or after `from` where `n` occurs in `h`.
pub fn find_from(h: &Vec<char>, n: &Vec<char>, from: usize) -> (r: Option<usize>)
    requires
        from <= h@.len(),
    ensures
        match r {
            Some(i) => from <= i && occurs_at(h@, n@, i as int) && forall|j: int|
                from <= j < i ==> !occurs_at(h@, n@, j),
            None => forall|j: int| from <= j ==> !occurs_at(h@, n@, j),
        },
{
    let mut i = from;
    loop
        invariant
            from <= i <= h@.len(),
            forall|j: int| from <= j < i ==> !occurs_at(h@, n@, j),
        decreases h@.len() - i,
    {
        if matches_at(h, n, i) {
            return Some(i);
        }
        if i == h.len() {
            assert forall|j: int| from <= j implies !occurs_at(h@, n@, j) by {
                if j > i {
                    assert(j + n@.len() > h@.len());
                }
            }
            return None;
        }
        i = i + 1;
    }
}

/// `str::contains` on character vectors.
pub fn contains_chars(h: &Vec<char>, n: &Vec<char>) -> (b: bool)
    ensures
        b == contains_seq(h@, n@),
{
    match find_from(h, n, 0) {
        Some(_) => true,
        None => false,
    }
}

/// `str::contains`.
pub fn contains(h: &str, n: &str) -> (b: bool)
    ensures
        b == contains_seq(h@, n@),
{
    let hv = chars_of(h);
    let nv = chars_of(n);
    contains_chars(&hv, &nv)
}

/// `str::starts_with`.
pub fn starts_with_chars(h: &Vec<char>, p: &Vec<char>) -> (b: bool)
    ensures
        b == has_prefix(h@, p@),
{
    let b = matches_at(h, p, 0);
    proof {
        if p@.len() <= h@.len() {
            assert(h@.subrange(0, p@.len() as int) =~= h@.take(p@.len() as int));
        }
    }
    b
}

/// `str::ends_with`.
pub fn ends_with_chars(h: &Vec<char>, p: &Vec<char>) -> (b: bool)
    ensures
        b == has_suffix(h@, p@),
{
    if p.len() > h.len() {
        return false;
    }
    let b = matches_at(h, p, h.len() - p.len());
    proof {
        assert(h@.subrange(h@.len() - p@.len(), h@.len() as int) =~= h@.skip(h@.len() - p@.len()));
    }
    b
}

/// `str::starts_with`.
pub fn starts_with(h: &str, p: &str) -> (b: bool)
    ensures
        b == has_prefix(h@, p@),
{
    let hv = chars_of(h);
    let pv = chars_of(p);
    starts_with_chars(&hv, &pv)
}

// ---------------------------------------------------------------------------
// ASCII case
// ---------------------------------------------------------------------------

/// `char::to_ascii_lowercase`.
pub open spec fn ascii_lower(c: char) -> char {
    if 'A' <= c && c <= 'Z' {
        ((c as u32) + 32) as char
    } else {
        c
    }
}

pub fn to_ascii_lower(c: char) -> (r: char)
    ensures
        r == ascii_lower(c),
{
    if 'A' <= c && c <= 'Z' {
        ((c as u8) + 32) as char
    } else {
        c
    }
}

/// `str::eq_ignore_ascii_case`.
pub open spec fn eq_ignore_case_seq(a: Seq<char>, b: Seq<char>) -> bool {
    a.len() == b.len() && forall|i: int| 0 <= i < a.len() ==> ascii_lower(a[i]) == ascii_lower(b[i])
}

pub fn eq_ignore_ascii_case_chars(a: &Vec<char>, b: &Vec<char>) -> (r: bool)
    ensures
        r == eq_ignore_case_seq(a@, b@),
{
    if a.len() != b.len() {
        return false;
    }
    let mut i: usize = 0;
    while i < a.len()
        invariant
            a@.len() == b@.len(),
            i <= a@.len(),
            forall|k: int| 0 <= k < i ==> ascii_lower(a@[k]) == ascii_lower(b@[k]),
        decreases a@.len() - i,
    {
        if to_ascii_lower(a[i]) != to_ascii_lower(b[i]) {
            return false;
        }
        i = i + 1;
    }
    true
}

/// `str::eq_ignore_ascii_case`.
pub fn eq_ignore_ascii_case(a: &str, b: &str) -> (r: bool)
    ensures
        r == eq_ignore_case_seq(a@, b@),
{
    let av = chars_of(a);
    let bv = chars_of(b);
    eq_ignore_ascii_case_chars(&av, &bv)
}

/// Character-wise equality of two strings.
pub fn str_eq(a: &str, b: &str) -> (r: bool)
    ensures
        r == (a@ == b@),
{
    let av = chars_of(a);
    let bv = chars_of(b);
    if av.len() != bv.len() {
        return false;
    }
    let mut i: usize = 0;
    while i < av.len()
        invariant
            av@ == a@,
            bv@ == b@,
            av@.len() == bv@.len(),
            i <= av@.len(),
            forall|k: int| 0 <= k < i ==> av@[k] == bv@[k],
        decreases av@.len() - i,
    {
        if av[i] != bv[i] {
            assert(av@[i as int] != bv@[i as int]);
            return false;
        }
        i = i + 1;
    }
    assert(av@ =~= bv@);
    true
}

// ---------------------------------------------------------------------------
// Numbers
// ---------------------------------------------------------------------------

/// The decimal digit for `d < 10`.
pub open spec fn digit_char(d: nat) -> char {
    ((d + 48) as u32) as char
}

/// The decimal representation of `n`, as `{}` formats an unsigned integer.
pub open spec fn decimal(n: nat) -> Seq<char>
    decreases n,
{
    if n < 10 {
        seq![digit_char(n)]
    } else {
        decimal(n / 10).push(digit_char(n % 10))
    }
}

/// The decimal representation of `n`.
pub fn u64_to_decimal(n: u64) -> (r: String)
    ensures
        r@ == decimal(n as nat),
    decreases n,
{
    if n < 10 {
        let mut r = String::new();
        push_char(&mut r, ((n as u8) + 48) as char);
        r
    } else {
        let mut r = u64_to_decimal(n / 10);
        push_char(&mut r, (((n % 10) as u8) + 48) as char);
        r
    }
}

} // verus!

verus! {

/// The decimal representation of `n`.
pub fn usize_to_decimal(n: usize) -> (r: String)
    ensures
        r@ == decimal(n as nat),
{
    u64_to_decimal(n as u64)
}

} // verus!

verus! {

// ---------------------------------------------------------------------------
// Scanning by a character predicate
// ---------------------------------------------------------------------------

/// `s` without the leading characters that satisfy `f`.
pub open spec fn drop_while(s: Seq<char>, f: spec_fn(char) -> bool) -> Seq<char>
    decreases s.len(),
{
    if s.len() > 0 && f(s[0]) {
        drop_while(s.drop_first(), f)
    } else {
        s
    }
}

/// `s` without the trailing characters that satisfy `f`.
pub open spec fn drop_last_while(s: Seq<char>, f: spec_fn(char) -> bool) -> Seq<char>
    decreases s.len(),
{
    if s.len() > 0 && f(s.last()) {
        drop_last_while(s.drop_last(), f)
    } else {
        s
    }
}

/// The longest prefix of `s` whose characters satisfy `f`.
pub open spec fn take_while(s: Seq<char>, f: spec_fn(char) -> bool) -> Seq<char>
    decreases s.len(),
{
    if s.len() > 0 && f(s[0]) {
        seq![s[0]] + take_while(s.drop_first(), f)
    } else {
        Seq::empty()
    }
}

pub proof fn lemma_drop_while(s: Seq<char>, f: spec_fn(char) -> bool, i: int)
    requires
        0 <= i <= s.len(),
        forall|k: int| 0 <= k < i ==> f(#[trigger] s[k]),
        i == s.len() || !f(s[i]),
    ensures
        drop_while(s, f) == s.skip(i),
    decreases i,
{
    if i > 0 {
        assert(s.drop_first().skip(i - 1) =~= s.skip(i));
        assert forall|k: int| 0 <= k < i - 1 implies f(#[trigger] s.drop_first()[k]) by {
            assert(s.drop_first()[k] == s[k + 1]);
        }
        lemma_drop_while(s.drop_first(), f, i - 1);
    } else {
        assert(s.skip(0) =~= s);
    }
}

pub proof fn lemma_drop_last_while(s: Seq<char>, f: spec_fn(char) -> bool, j: int)
    requires
        0 <= j <= s.len(),
        forall|k: int| j <= k < s.len() ==> f(#[trigger] s[k]),
        j == 0 || !f(s[j - 1]),
    ensures
        drop_last_while(s, f) == s.take(j),
    decreases s.len() - j,
{
    if j < s.len() {
        assert(s.drop_last().take(j) =~= s.take(j));
        lemma_drop_last_while(s.drop_last(), f, j);
    } else {
        assert(s.take(j) =~= s);
    }
}

pub proof fn lemma_take_while(s: Seq<char>, f: spec_fn(char) -> bool, j: int)
    requires
        0 <= j <= s.len(),
        forall|k: int| 0 <= k < j ==> f(#[trigger] s[k]),
        j == s.len() || !f(s[j]),
    ensures
        take_while(s, f) == s.take(j),
    decreases j,
{
    if j > 0 {
        assert forall|k: int| 0 <= k < j - 1 implies f(#[trigger] s.drop_first()[k]) by {
            assert(s.drop_first()[k] == s[k + 1]);
        }
        lemma_take_while(s.drop_first(), f, j - 1);
        assert(seq![s[0]] + s.drop_first().take(j - 1) =~= s.take(j));
    } else {
        assert(s.take(0) =~= Seq::<char>::empty());
    }
}

/// The predicate "is the character `c`".
pub open spec fn is_char(c: char) -> spec_fn(char) -> bool {
    |x: char| x == c
}

/// `str::trim_matches` with a single character: `s` without the copies of
/// `c` at either end.
pub open spec fn trim_char_seq(s: Seq<char>, c: char) -> Seq<char> {
    drop_last_while(drop_while(s, is_char(c)), is_char(c))
}

/// `str::trim_matches(c)` on the characters `v[lo..hi]`; returns the new bounds.
pub fn trim_char_bounds(v: &Vec<char>, lo: usize, hi: usize, c: char) -> (r: (usize, usize))
    requires
        lo <= hi <= v@.len(),
    ensures
        lo <= r.0 <= r.1 <= hi,
        v@.subrange(r.0 as int, r.1 as int) == trim_char_seq(v@.subrange(lo as int, hi as int), c),
{
    let ghost s = v@.subrange(lo as int, hi as int);
    let ghost f = is_char(c);
    let mut a = lo;
    while a < hi && v[a] == c
        invariant
            lo <= a <= hi,
            forall|k: int| lo <= k < a ==> v@[k] == c,
        decreases hi - a,
    {
        a = a + 1;
    }
    proof {
        assert forall|k: int| 0 <= k < a - lo implies f(#[trigger] s[k]) by {
            assert(s[k] == v@[lo + k]);
        }
        lemma_drop_while(s, f, a - lo);
    }
    let mut b = hi;
    while b > a && v[b - 1] == c
        invariant
            a <= b <= hi,
            forall|k: int| b <= k < hi ==> v@[k] == c,
        decreases b,
    {
        b = b - 1;
    }
    proof {
        let t = s.skip(a - lo);
        assert(t =~= v@.subrange(a as int, hi as int));
        assert forall|k: int| b - a <= k < t.len() implies f(#[trigger] t[k]) by {
            assert(t[k] == v@[a + k]);
        }
        lemma_drop_last_while(t, f, b - a);
        assert(t.take(b - a) =~= v@.subrange(a as int, b as int));
    }
    (a, b)
}

/// `str::trim` on the characters `v[lo..hi]`; returns the new bounds.
pub fn trim_range(v: &Vec<char>, lo: usize, hi: usize) -> (r: (usize, usize))
    requires
        lo <= hi <= v@.len(),
    ensures
        lo <= r.0 <= r.1 <= hi,
        v@.subrange(r.0 as int, r.1 as int) == trim_seq(v@.subrange(lo as int, hi as int)),
{
    let ghost s = v@.subrange(lo as int, hi as int);
    let mut a = lo;
    while a < hi && is_whitespace(v[a])
        invariant
            lo <= a <= hi,
            forall|k: int| lo <= k < a ==> is_ws(#[trigger] v@[k]),
        decreases hi - a,
    {
        a = a + 1;
    }
    proof {
        assert forall|k: int| 0 <= k < a - lo implies is_ws(#[trigger] s[k]) by {
            assert(s[k] == v@[lo + k]);
        }
        lemma_trim_start_skip(s, a - lo);
        let t = s.skip(a - lo);
        assert(t.len() == 0 || !is_ws(t[0]));
        assert(trim_start_seq(t) == t);
    }
    let mut b = hi;
    while b > a && is_whitespace(v[b - 1])
        invariant
            a <= b <= hi,
            forall|k: int| b <= k < hi ==> is_ws(#[trigger] v@[k]),
        decreases b,
    {
        b = b - 1;
    }
    proof {
        let t = s.skip(a - lo);
        assert(t =~= v@.subrange(a as int, hi as int));
        assert forall|k: int| b - a <= k < t.len() implies is_ws(#[trigger] t[k]) by {
            assert(t[k] == v@[a + k]);
        }
        lemma_trim_end_take(t, b - a);
        let u = t.take(b - a);
        assert(u =~= v@.subrange(a as int, b as int));
        assert(u.len() == 0 || !is_ws(u.last()));
        assert(trim_end_seq(u) == u);
    }
    (a, b)
}

/// The position of the first `c` in `v[lo..hi]`, or `hi`.
pub fn index_of_char(v: &Vec<char>, lo: usize, hi: usize, c: char) -> (r: usize)
    requires
        lo <= hi <= v@.len(),
    ensures
        lo <= r <= hi,
        r < hi ==> v@[r as int] == c,
        forall|k: int| lo <= k < r ==> v@[k] != c,
{
    let mut i = lo;
    while i < hi && v[i] != c
        invariant
            lo <= i <= hi,
            forall|k: int| lo <= k < i ==> v@[k] != c,
        decreases hi - i,
    {
        i = i + 1;
    }
    i
}

/// The first position in `s` where `c` occurs, or its length.
pub open spec fn char_index(s: Seq<char>, c: char) -> int
    decreases s.len(),
{
    if s.len() == 0 {
        0
    } else if s[0] == c {
        0
    } else {
        1 + char_index(s.drop_first(), c)
    }
}

pub proof fn lemma_char_index(s: Seq<char>, c: char, i: int)
    requires
        0 <= i <= s.len(),
        forall|k: int| 0 <= k < i ==> s[k] != c,
        i == s.len() || s[i] == c,
    ensures
        char_index(s, c) == i,
    decreases i,
{
    if i > 0 {
        lemma_char_index(s.drop_first(), c, i - 1);
    }
}

} // verus!

verus! {

// ---------------------------------------------------------------------------
// Words and joining
// ---------------------------------------------------------------------------

/// `parts` joined with `sep` between each two of them (`[..].join(sep)`).
pub open spec fn join_with(parts: Seq<Seq<char>>, sep: Seq<char>) -> Seq<char>
    decreases parts.len(),
{
    if parts.len() == 0 {
        Seq::empty()
    } else if parts.len() == 1 {
        parts[0]
    } else {
        join_with(parts.drop_last(), sep) + sep + parts.last()
    }
}

/// The maximal runs of non-whitespace characters of `s`, in order
/// (`str::split_whitespace`).
pub open spec fn words(s: Seq<char>) -> Seq<Seq<char>>
    decreases s.len(),
{
    if s.len() == 0 {
        Seq::empty()
    } else {
        let ws = words(s.drop_last());
        let c = s.last();
        if is_ws(c) {
            ws
        } else if s.len() >= 2 && !is_ws(s[s.len() - 2]) {
            ws.update(ws.len() - 1, ws.last().push(c))
        } else {
            ws.push(seq![c])
        }
    }
}

/// A text that ends in a non-whitespace character has a word.
pub proof fn lemma_words_nonempty(s: Seq<char>)
    requires
        s.len() > 0,
        !is_ws(s.last()),
    ensures
        words(s).len() > 0,
    decreases s.len(),
{
    if s.len() >= 2 && !is_ws(s[s.len() - 2]) {
        assert(s.drop_last().last() == s[s.len() - 2]);
        lemma_words_nonempty(s.drop_last());
    }
}

proof fn lemma_join_extend_last(parts: Seq<Seq<char>>, sep: Seq<char>, c: char)
    requires
        parts.len() > 0,
    ensures
        join_with(parts.update(parts.len() - 1, parts.last().push(c)), sep) == join_with(
            parts,
            sep,
        ).push(c),
{
    let u = parts.update(parts.len() - 1, parts.last().push(c));
    if parts.len() > 1 {
        assert(u.drop_last() =~= parts.drop_last());
        assert(join_with(u, sep) =~= join_with(parts, sep).push(c));
    }
}

proof fn lemma_join_push(parts: Seq<Seq<char>>, sep: Seq<char>, w: Seq<char>)
    ensures
        join_with(parts.push(w), sep) == (if parts.len() == 0 {
            w
        } else {
            join_with(parts, sep) + sep + w
        }),
{
    assert(parts.push(w).drop_last() =~= parts);
}

/// The words of `s` joined by single spaces.
pub fn collapse_whitespace(s: &str) -> (r: String)
    ensures
        r@ == join_with(words(s@), seq![' ']),
{
    let v = chars_of(s);
    let mut out = String::new();
    let mut any = false;
    let mut i: usize = 0;
    while i < v.len()
        invariant
            i <= v@.len(),
            v@ == s@,
            out@ == join_with(words(v@.take(i as int)), seq![' ']),
            any == (words(v@.take(i as int)).len() > 0),
            i > 0 && !is_ws(v@[i - 1]) ==> words(v@.take(i as int)).len() > 0,
        decreases v@.len() - i,
    {
        let c = v[i];
        let ghost pre = v@.take(i as int);
        let ghost post = v@.take(i + 1);
        proof {
            assert(post.drop_last() =~= pre);
            assert(post.last() == c);
            if i > 0 {
                assert(post[post.len() - 2] == v@[i - 1]);
            }
        }
        if is_whitespace(c) {
        } else if i > 0 && !is_whitespace(v[i - 1]) {
            proof {
                lemma_join_extend_last(words(pre), seq![' '], c);
            }
            push_char(&mut out, c);
        } else {
            proof {
                lemma_join_push(words(pre), seq![' '], seq![c]);
            }
            if any {
                push_char(&mut out, ' ');
            }
            push_char(&mut out, c);
            proof {
                assert(out@ =~= join_with(words(post), seq![' ']));
            }
            any = true;
        }
        proof {
            if !is_ws(c) {
                lemma_words_nonempty(post);
            }
        }
        i = i + 1;
    }
    proof {
        assert(v@.take(v@.len() as int) =~= v@);
    }
    out
}

} // verus!

verus! {

/// `s` without the prefix `p`, when it has it (`strip_prefix(p).unwrap_or(s)`).
pub open spec fn strip_prefix_or(s: Seq<char>, p: Seq<char>) -> Seq<char> {
    if has_prefix(s, p) {
        s.skip(p.len() as int)
    } else {
        s
    }
}

/// `s` without the suffix `p`, when it has it (`strip_suffix(p).unwrap_or(s)`).
pub open spec fn strip_suffix_or(s: Seq<char>, p: Seq<char>) -> Seq<char> {
    if has_suffix(s, p) {
        s.take(s.len() - p.len())
    } else {
        s
    }
}

/// `s` without the prefix `p`, when it has it.
pub fn without_prefix(s: &str, p: &str) -> (r: String)
    ensures
        r@ == strip_prefix_or(s@, p@),
{
    let sv = chars_of(s);
    let pv = chars_of(p);
    if starts_with_chars(&sv, &pv) {
        string_of_range(&sv, pv.len(), sv.len())
    } else {
        owned(s)
    }
}

/// `s` without the suffix `p`, when it has it.
pub fn without_suffix(s: &str, p: &str) -> (r: String)
    ensures
        r@ == strip_suffix_or(s@, p@),
{
    let sv = chars_of(s);
    let pv = chars_of(p);
    if ends_with_chars(&sv, &pv) {
        string_of_range(&sv, 0, sv.len() - pv.len())
    } else {
        owned(s)
    }
}

} // verus!

verus! {

// ---------------------------------------------------------------------------
// Lines
// ---------------------------------------------------------------------------

pub proof fn lemma_char_index_bounds(s: Seq<char>, c: char)
    ensures
        0 <= char_index(s, c) <= s.len(),
        char_index(s, c) < s.len() ==> s[char_index(s, c)] == c,
        forall|k: int| 0 <= k < char_index(s, c) ==> s[k] != c,
    decreases s.len(),
{
    if s.len() > 0 && s[0] != c {
        lemma_char_index_bounds(s.drop_first(), c);
        assert forall|k: int| 0 <= k < char_index(s, c) implies s[k] != c by {
            if k > 0 {
                assert(s[k] == s.drop_first()[k - 1]);
            }
        }
    }
}

/// `line` without one carriage return at its end.
pub open spec fn without_cr(line: Seq<char>) -> Seq<char> {
    if line.len() > 0 && line.last() == '\r' {
        line.drop_last()
    } else {
        line
    }
}

/// The lines of `s` (`str::lines`): split at each line feed, a carriage
/// return before a line feed dropped, and no empty line after a final line
/// feed.
pub open spec fn lines_of(s: Seq<char>) -> Seq<Seq<char>>
    decreases s.len(),
{
    if s.len() == 0 {
        Seq::empty()
    } else {
        let k = char_index(s, '\n');
        proof {
            lemma_char_index_bounds(s, '\n');
        }
        if k >= s.len() {
            seq![s]
        } else {
            seq![without_cr(s.take(k))] + lines_of(s.skip(k + 1))
        }
    }
}

/// The lines of `s`.
pub fn lines(s: &str) -> (r: Vec<String>)
    ensures
        r@.map_values(|x: String| x@) == lines_of(s@),
{
    let v = chars_of(s);
    let mut out: Vec<String> = Vec::new();
    let mut i: usize = 0;
    proof {
        assert(v@.skip(0) =~= v@);
    }
    while i < v.len()
        invariant
            v@ == s@,
            i <= v@.len(),
            out@.map_values(|x: String| x@) + lines_of(v@.skip(i as int)) == lines_of(s@),
        decreases v@.len() - i,
    {
        let ghost rest = v@.skip(i as int);
        let j = index_of_char(&v, i, v.len(), '\n');
        proof {
            assert forall|k: int| 0 <= k < j - i implies rest[k] != '\n' by {
                assert(rest[k] == v@[i + k]);
            }
            lemma_char_index(rest, '\n', j - i);
        }
        let ghost before = out@.map_values(|x: String| x@);
        if j == v.len() {
            let line = string_of_range(&v, i, j);
            out.push(line);
            proof {
                assert(rest =~= v@.subrange(i as int, j as int));
                assert(out@.map_values(|x: String| x@) =~= before.push(rest));
                assert(v@.skip(j as int) =~= Seq::<char>::empty());
                assert(lines_of(rest) == seq![rest]);
                assert(before + lines_of(rest) =~= before.push(rest) + lines_of(v@.skip(j as int)));
            }
            i = j;
        } else {
            let mut end = j;
            if end > i && v[end - 1] == '\r' {
                end = end - 1;
            }
            let line = string_of_range(&v, i, end);
            out.push(line);
            proof {
                let l = without_cr(rest.take(j - i));
                assert(rest.take(j - i) =~= v@.subrange(i as int, j as int));
                assert(l =~= v@.subrange(i as int, end as int));
                assert(rest.skip(j - i + 1) =~= v@.skip(j + 1));
                assert(out@.map_values(|x: String| x@) =~= before.push(l));
                assert(lines_of(rest) == seq![l] + lines_of(v@.skip(j + 1)));
                assert(before + lines_of(rest) =~= before.push(l) + lines_of(v@.skip(j + 1)));
            }
            i = j + 1;
        }
    }
    proof {
        assert(v@.skip(v@.len() as int) =~= Seq::<char>::empty());
        assert(out@.map_values(|x: String| x@) + Seq::<Seq<char>>::empty() =~= out@.map_values(
            |x: String| x@,
        ));
    }
    out
}

/// The strings of `parts` joined with `sep` between each two of them.
pub fn join(parts: &Vec<String>, sep: &str) -> (r: String)
    ensures
        r@ == join_with(parts@.map_values(|x: String| x@), sep@),
{
    let ghost ps = parts@.map_values(|x: String| x@);
    let mut r = String::new();
    let mut i: usize = 0;
    while i < parts.len()
        invariant
            i <= parts@.len(),
            ps == parts@.map_values(|x: String| x@),
            r@ == join_with(ps.take(i as int), sep@),
        decreases parts@.len() - i,
    {
        if i > 0 {
            push_str(&mut r, sep);
        }
        push_str(&mut r, parts[i].as_str());
        proof {
            assert(ps.take(i + 1).drop_last() =~= ps.take(i as int));
            if i == 0 {
                assert(ps.take(1) =~= seq![ps[0]]);
            }
        }
        i = i + 1;
    }
    proof {
        assert(ps.take(parts@.len() as int) =~= ps);
    }
    r
}

} // verus!

verus! {

// ---------------------------------------------------------------------------
// Finding a substring
// ---------------------------------------------------------------------------

/// The first position at which `n` occurs in `h` (`str::find`).
pub open spec fn find_seq(h: Seq<char>, n: Seq<char>) -> Option<int>
    decreases h.len(),
{
    if n.len() > h.len() {
        None
    } else if h.take(n.len() as int) == n {
        Some(0)
    } else {
        proof {
            if h.len() == 0 {
                assert(h.take(0) =~= n);
            }
        }
        match find_seq(h.drop_first(), n) {
            Some(i) => Some(i + 1),
            None => None,
        }
    }
}

/// `find_seq` gives the first occurrence, and nothing when there is none.
pub proof fn lemma_find_seq(h: Seq<char>, n: Seq<char>)
    ensures
        match find_seq(h, n) {
            Some(i) => occurs_at(h, n, i) && forall|j: int| 0 <= j < i ==> !occurs_at(h, n, j),
            None => forall|j: int| !occurs_at(h, n, j),
        },
    decreases h.len(),
{
    if n.len() > h.len() {
    } else if h.take(n.len() as int) == n {
        assert(h.subrange(0, n.len() as int) =~= h.take(n.len() as int));
    } else {
        if h.len() == 0 {
            assert(h.take(0) =~= n);
        }
        lemma_find_seq(h.drop_first(), n);
        assert forall|j: int| 1 <= j implies occurs_at(h, n, j) == occurs_at(h.drop_first(), n, j - 1) by {
            if 1 <= j && j + n.len() <= h.len() {
                assert(h.subrange(j, j + n.len()) =~= h.drop_first().subrange(j - 1, j - 1 + n.len()));
            }
        }
        assert(!occurs_at(h, n, 0)) by {
            if occurs_at(h, n, 0) {
                assert(h.subrange(0, n.len() as int) =~= h.take(n.len() as int));
            }
        }
    }
}

/// The first position at or after `from` where `n` occurs in `h`, as a
/// position in `h.skip(from)`.
pub proof fn lemma_find_seq_skip(h: Seq<char>, n: Seq<char>, from: int)
    requires
        0 <= from <= h.len(),
    ensures
        forall|j: int| occurs_at(h.skip(from), n, j) <==> (0 <= j && occurs_at(h, n, j + from)),
{
    assert forall|j: int| occurs_at(h.skip(from), n, j) <==> (0 <= j && occurs_at(h, n, j + from)) by {
        if 0 <= j && j + n.len() <= h.len() - from {
            assert(h.skip(from).subrange(j, j + n.len()) =~= h.subrange(j + from, j + from + n.len()));
        }
    }
}

/// `s` with each part from an `open` tag up to the first `close` tag of what
/// remains removed, repeatedly; when `close` no longer occurs, everything
/// from the last `open` on is dropped.
pub open spec fn strip_tag(s: Seq<char>, open: Seq<char>, close: Seq<char>) -> Seq<char>
    decreases s.len(),
{
    match find_seq(s, open) {
        None => s,
        Some(start) => match find_seq(s, close) {
            None => s.take(start),
            Some(end) => {
                proof {
                    lemma_find_seq(s, close);
                }
                if close.len() == 0 {
                    s.take(start)
                } else {
                    s.take(start) + strip_tag(s.skip(end + close.len()), open, close)
                }
            },
        },
    }
}

/// `strip_tag` on the characters `v[from..]`.
pub fn strip_tag_from(v: &Vec<char>, open: &Vec<char>, close: &Vec<char>) -> (r: String)
    requires
        close@.len() > 0,
    ensures
        r@ == strip_tag(v@, open@, close@),
{
    let mut buf = String::new();
    let mut pos: usize = 0;
    proof {
        assert(v@.skip(0) =~= v@);
    }
    loop
        invariant
            pos <= v@.len(),
            close@.len() > 0,
            buf@ + strip_tag(v@.skip(pos as int), open@, close@) == strip_tag(v@, open@, close@),
        decreases v@.len() - pos,
    {
        let ghost rest = v@.skip(pos as int);
        proof {
            lemma_find_seq(rest, open@);
            lemma_find_seq(rest, close@);
            lemma_find_seq_skip(v@, open@, pos as int);
            lemma_find_seq_skip(v@, close@, pos as int);
        }
        match find_from(v, open, pos) {
            None => {
                let tail = string_of_range(v, pos, v.len());
                proof {
                    assert(find_seq(rest, open@) is None) by {
                        if find_seq(rest, open@) is Some {
                            let i = find_seq(rest, open@)->0;
                            assert(occurs_at(v@, open@, i + pos));
                        }
                    }
                    assert(tail@ =~= rest);
                }
                push_str(&mut buf, tail.as_str());
                return buf;
            },
            Some(start) => {
                proof {
                    assert(find_seq(rest, open@) == Some(start - pos)) by {
                        match find_seq(rest, open@) {
                            Some(i) => {
                                assert(occurs_at(v@, open@, i + pos));
                                if i + pos < start {
                                } else if i + pos > start {
                                    assert(occurs_at(rest, open@, start - pos));
                                }
                            },
                            None => {
                                assert(occurs_at(rest, open@, start - pos));
                            },
                        }
                    }
                }
                let head = string_of_range(v, pos, start);
                proof {
                    assert(head@ =~= rest.take(start - pos));
                }
                let ghost buf0 = buf@;
                push_str(&mut buf, head.as_str());
                match find_from(v, close, pos) {
                    None => {
                        proof {
                            assert(find_seq(rest, close@) is None) by {
                                if find_seq(rest, close@) is Some {
                                    let i = find_seq(rest, close@)->0;
                                    assert(occurs_at(v@, close@, i + pos));
                                }
                            }
                        }
                        proof {
                            assert(buf@ =~= buf0 + rest.take(start - pos));
                        }
                        return buf;
                    },
                    Some(end) => {
                        proof {
                            assert(find_seq(rest, close@) == Some(end - pos)) by {
                                match find_seq(rest, close@) {
                                    Some(i) => {
                                        assert(occurs_at(v@, close@, i + pos));
                                        if i + pos > end {
                                            assert(occurs_at(rest, close@, end - pos));
                                        }
                                    },
                                    None => {
                                        assert(occurs_at(rest, close@, end - pos));
                                    },
                                }
                            }
                            assert(rest.skip(end - pos + close@.len()) =~= v@.skip(end + close@.len()));
                            assert(buf@ + strip_tag(v@.skip(end + close@.len()), open@, close@)
                                =~= buf0 + (rest.take(start - pos) + strip_tag(
                                rest.skip(end - pos + close@.len()),
                                open@,
                                close@,
                            )));
                        }
                        assert(occurs_at(v@, close@, end as int));
                        let cl = close.len();
                        let vl = v.len();
                        assert(end + cl <= vl);
                        pos = end + cl;
                    },
                }
            },
        }
    }
}

} // verus!

verus! {

// ---------------------------------------------------------------------------
// Replacing
// ---------------------------------------------------------------------------

/// `s` with each occurrence of `from`, found left to right without
/// overlap, replaced by `to` (`str::replace` with a non-empty pattern).
pub open spec fn replaced(s: Seq<char>, from: Seq<char>, to: Seq<char>) -> Seq<char>
    decreases s.len(),
{
    if s.len() == 0 || from.len() == 0 {
        s
    } else if has_prefix(s, from) {
        to + replaced(s.skip(from.len() as int), from, to)
    } else {
        seq![s[0]] + replaced(s.drop_first(), from, to)
    }
}

/// `str::replace` with a non-empty pattern.
pub fn replace_all(s: &str, from: &str, to: &str) -> (r: String)
    requires
        from@.len() > 0,
    ensures
        r@ == replaced(s@, from@, to@),
{
    let v = chars_of(s);
    let f = chars_of(from);
    let mut out = String::new();
    let mut i: usize = 0;
    proof {
        assert(v@.skip(0) =~= v@);
    }
    while i < v.len()
        invariant
            i <= v@.len(),
            v@ == s@,
            f@ == from@,
            f@.len() > 0,
            out@ + replaced(v@.skip(i as int), f@, to@) == replaced(s@, f@, to@),
        decreases v@.len() - i,
    {
        let ghost rest = v@.skip(i as int);
        if matches_at(&v, &f, i) {
            proof {
                assert(rest.take(f@.len() as int) =~= v@.subrange(i as int, i + f@.len()));
                assert(has_prefix(rest, f@));
                assert(rest.skip(f@.len() as int) =~= v@.skip(i + f@.len()));
                assert(out@ + to@ + replaced(v@.skip(i + f@.len()), f@, to@) =~= out@ + (to@
                    + replaced(rest.skip(f@.len() as int), f@, to@)));
            }
            push_str(&mut out, to);
            i = i + f.len();
        } else {
            proof {
                if has_prefix(rest, f@) {
                    assert(rest.take(f@.len() as int) =~= v@.subrange(i as int, i + f@.len()));
                }
                assert(rest.drop_first() =~= v@.skip(i + 1));
                assert(out@.push(v@[i as int]) + replaced(v@.skip(i + 1), f@, to@) =~= out@ + (
                seq![rest[0]] + replaced(rest.drop_first(), f@, to@)));
            }
            push_char(&mut out, v[i]);
            i = i + 1;
        }
    }
    proof {
        assert(v@.skip(v@.len() as int) =~= Seq::<char>::empty());
        assert(out@ + Seq::<char>::empty() =~= out@);
    }
    out
}

} // verus!

verus! {

// ---------------------------------------------------------------------------
// Ordering strings
// ---------------------------------------------------------------------------

/// `a` comes no later than `b` in the lexicographic order of characters by
/// their code points, which is the order of `str`.
pub open spec fn lex_le(a: Seq<char>, b: Seq<char>) -> bool
    decreases a.len(),
{
    if a.len() == 0 {
        true
    } else if b.len() == 0 {
        false
    } else if a[0] != b[0] {
        a[0] < b[0]
    } else {
        lex_le(a.drop_first(), b.drop_first())
    }
}

pub proof fn lemma_lex_total(a: Seq<char>, b: Seq<char>)
    ensures
        lex_le(a, b) || lex_le(b, a),
    decreases a.len(),
{
    if a.len() > 0 && b.len() > 0 {
        if a[0] == b[0] {
            lemma_lex_total(a.drop_first(), b.drop_first());
        } else {
            assert(a[0] < b[0] || b[0] < a[0]);
        }
    }
}

pub proof fn lemma_lex_trans(a: Seq<char>, b: Seq<char>, c: Seq<char>)
    requires
        lex_le(a, b),
        lex_le(b, c),
    ensures
        lex_le(a, c),
    decreases a.len(),
{
    if a.len() > 0 && b.len() > 0 && c.len() > 0 && a[0] == b[0] && b[0] == c[0] {
        lemma_lex_trans(a.drop_first(), b.drop_first(), c.drop_first());
    }
}

/// Whether `a` comes no later than `b`.
pub fn lex_le_str(a: &str, b: &str) -> (r: bool)
    ensures
        r == lex_le(a@, b@),
{
    let av = chars_of(a);
    let bv = chars_of(b);
    let mut i: usize = 0;
    proof {
        assert(av@.skip(0) =~= av@);
        assert(bv@.skip(0) =~= bv@);
    }
    while i < av.len() && i < bv.len() && av[i] == bv[i]
        invariant
            i <= av@.len(),
            i <= bv@.len(),
            av@ == a@,
            bv@ == b@,
            lex_le(a@, b@) == lex_le(av@.skip(i as int), bv@.skip(i as int)),
        decreases av@.len() - i,
    {
        proof {
            assert(av@.skip(i as int).drop_first() =~= av@.skip(i + 1));
            assert(bv@.skip(i as int).drop_first() =~= bv@.skip(i + 1));
        }
        i = i + 1;
    }
    if i == av.len() {
        return true;
    }
    if i == bv.len() {
        return false;
    }
    av[i] < bv[i]
}

/// The views of `v`.
pub open spec fn views(v: Seq<String>) -> Seq<Seq<char>> {
    v.map_values(|x: String| x@)
}

/// `s` is in lexicographic order.
pub open spec fn lex_sorted(s: Seq<Seq<char>>) -> bool {
    forall|i: int, j: int| 0 <= i < j < s.len() ==> lex_le(s[i], s[j])
}

/// The strings of `v` in lexicographic order (`sort_unstable`).
pub fn sort_strings(v: Vec<String>) -> (r: Vec<String>)
    ensures
        views(r@).to_multiset() == views(v@).to_multiset(),
        lex_sorted(views(r@)),
{
    broadcast use vstd::seq_lib::to_multiset_insert, vstd::seq_lib::to_multiset_build;
    let ghost all = v@;
    let mut v = v;
    let mut out: Vec<String> = Vec::new();
    let n = v.len();
    let mut i: usize = 0;
    proof {
        assert(all.take(0) =~= Seq::<String>::empty());
    }
    while i < n
        invariant
            n == all.len(),
            i <= n,
            v@ == all.skip(i as int),
            views(out@).to_multiset() == views(all.take(i as int)).to_multiset(),
            lex_sorted(views(out@)),
        decreases n - i,
    {
        let x = v.remove(0);
        proof {
            assert(all.skip(i as int)[0] == all[i as int]);
            assert(v@ =~= all.skip(i + 1));
            assert(all.take(i + 1) =~= all.take(i as int).push(all[i as int]));
            assert(views(all.take(i + 1)) =~= views(all.take(i as int)).push(all[i as int]@));
        }
        let mut pos: usize = 0;
        while pos < out.len() && lex_le_str(out[pos].as_str(), x.as_str())
            invariant
                pos <= out@.len(),
                forall|k: int| 0 <= k < pos ==> lex_le(#[trigger] views(out@)[k], x@),
            decreases out@.len() - pos,
        {
            pos = pos + 1;
        }
        let ghost before = out@;
        let ghost bv = views(before);
        proof {
            if pos < out@.len() {
                assert(!lex_le(bv[pos as int], x@));
                lemma_lex_total(bv[pos as int], x@);
            }
        }
        out.insert(pos, x);
        proof {
            let nv = views(out@);
            assert(out@ == before.insert(pos as int, x));
            assert(nv =~= bv.insert(pos as int, x@));
            assert(nv.len() == bv.len() + 1);
            assert forall|k: int| 0 <= k < nv.len() implies nv[k] == (if k < pos {
                bv[k]
            } else if k == pos {
                x@
            } else {
                bv[k - 1]
            }) by {}
            assert forall|a: int, b: int| 0 <= a < b < nv.len() implies lex_le(nv[a], nv[b]) by {
                if a < pos && b == pos {
                } else if a < pos && b > pos {
                    assert(lex_le(bv[a], bv[b - 1]));
                } else if a == pos && b > pos {
                    if pos < bv.len() {
                        if b - 1 > pos {
                            assert(lex_le(bv[pos as int], bv[b - 1]));
                            lemma_lex_trans(x@, bv[pos as int], bv[b - 1]);
                        }
                    }
                } else if a > pos {
                    assert(lex_le(bv[a - 1], bv[b - 1]));
                } else {
                    assert(lex_le(bv[a], bv[b]));
                }
            }
        }
        i = i + 1;
    }
    proof {
        assert(all.take(n as int) =~= all);
    }
    out
}

} // verus!
