//! Character-level text operations used throughout the agent: each one is
//! stated as a spec function over `Seq<char>` and implemented by a verified
//! loop over a `Vec<char>`.
use vstd::prelude::*;

verus! {

/// Unicode `White_Space` (the set that `char::is_whitespace` tests).
pub open spec fn is_ws(c: char) -> bool {
    let u = c as u32;
    ||| 0x9 <= u <= 0xd
    ||| u == 0x20
    ||| u == 0x85
    ||| u == 0xa0
    ||| u == 0x1680
    ||| 0x2000 <= u <= 0x200a
    ||| u == 0x2028
    ||| u == 0x2029
    ||| u == 0x202f
    ||| u == 0x205f
    ||| u == 0x3000
}

pub fn is_whitespace_char(c: char) -> (b: bool)
    ensures
        b == is_ws(c),
{
    let u = c as u32;
    (0x9 <= u && u <= 0xd) || u == 0x20 || u == 0x85 || u == 0xa0 || u == 0x1680 || (0x2000 <= u
        && u <= 0x200a) || u == 0x2028 || u == 0x2029 || u == 0x202f || u == 0x205f || u == 0x3000
}

/// The characters of `s`, in order.
pub fn to_chars(s: &str) -> (v: Vec<char>)
    ensures
        v@ == s@,
{
    let mut v: Vec<char> = Vec::new();
    for c in it: s.chars()
        invariant
            v@ == it.seq().take(it.index() as int),
    {
        v.push(c);
    }
    v
}

/// Collects the characters into a `String` through its `FromIterator<char>`
/// impl; the contract claims the string holds exactly these characters, in order.
#[verifier::external_body]
pub(crate) fn string_from(v: &Vec<char>) -> (s: String)
    ensures
        s@ == v@,
{
    v.iter().collect()
}

/// `s[lo..hi]` as a new vector.
pub fn slice_chars(s: &Vec<char>, lo: usize, hi: usize) -> (r: Vec<char>)
    requires
        lo <= hi <= s@.len(),
    ensures
        r@ == s@.subrange(lo as int, hi as int),
{
    let mut r: Vec<char> = Vec::new();
    let mut k = lo;
    while k < hi
        invariant
            lo <= k <= hi <= s@.len(),
            r@ == s@.subrange(lo as int, k as int),
        decreases hi - k,
    {
        r.push(s[k]);
        k = k + 1;
    }
    r
}

/// Appends all of `t` to `r`.
pub fn push_all(r: &mut Vec<char>, t: &Vec<char>)
    ensures
        final(r)@ == old(r)@ + t@,
{
    let ghost start = r@;
    let mut k: usize = 0;
    while k < t.len()
        invariant
            k <= t@.len(),
            r@ == start + t@.take(k as int),
        decreases t@.len() - k,
    {
        r.push(t[k]);
        k = k + 1;
        assert(t@.take(k as int) =~= t@.take(k - 1) .push(t@[k - 1]));
    }
    assert(t@.take(t@.len() as int) =~= t@);
}

/// Appends the characters of `t` to `r`.
pub fn push_str(r: &mut Vec<char>, t: &str)
    ensures
        final(r)@ == old(r)@ + t@,
{
    let v = to_chars(t);
    push_all(r, &v);
}

pub fn chars_eq(s: &Vec<char>, t: &Vec<char>) -> (b: bool)
    ensures
        b == (s@ == t@),
{
    if s.len() != t.len() {
        return false;
    }
    let mut k: usize = 0;
    while k < s.len()
        invariant
            s@.len() == t@.len(),
            k <= s@.len(),
            forall|j: int| 0 <= j < k ==> s@[j] == t@[j],
        decreases s@.len() - k,
    {
        if s[k] != t[k] {
            return false;
        }
        k = k + 1;
    }
    assert(s@ =~= t@);
    true
}

/// Whether two texts have the same characters.
pub fn str_eq(a: &str, b: &str) -> (r: bool)
    ensures
        r == (a@ == b@),
{
    chars_eq(&to_chars(a), &to_chars(b))
}

// ---------------------------------------------------------------------------
// Decimal numbers
// ---------------------------------------------------------------------------
pub open spec fn digit_char(d: nat) -> char {
    if d == 0 {
        '0'
    } else if d == 1 {
        '1'
    } else if d == 2 {
        '2'
    } else if d == 3 {
        '3'
    } else if d == 4 {
        '4'
    } else if d == 5 {
        '5'
    } else if d == 6 {
        '6'
    } else if d == 7 {
        '7'
    } else if d == 8 {
        '8'
    } else {
        '9'
    }
}

/// The decimal representation of `n`, without leading zeros.
pub open spec fn decimal(n: nat) -> Seq<char>
    decreases n,
{
    if n < 10 {
        seq![digit_char(n)]
    } else {
        decimal(n / 10).push(digit_char(n % 10))
    }
}

/// The decimal representation of a signed integer, with a leading `-` when negative.
pub open spec fn signed_decimal(n: int) -> Seq<char> {
    if n < 0 {
        seq!['-'] + decimal((-n) as nat)
    } else {
        decimal(n as nat)
    }
}

fn digit_of(d: u64) -> (c: char)
    requires
        d < 10,
    ensures
        c == digit_char(d as nat),
{
    if d == 0 {
        '0'
    } else if d == 1 {
        '1'
    } else if d == 2 {
        '2'
    } else if d == 3 {
        '3'
    } else if d == 4 {
        '4'
    } else if d == 5 {
        '5'
    } else if d == 6 {
        '6'
    } else if d == 7 {
        '7'
    } else if d == 8 {
        '8'
    } else {
        '9'
    }
}

/// The decimal digits of `n`.
pub fn decimal_chars(n: u64) -> (r: Vec<char>)
    ensures
        r@ == decimal(n as nat),
    decreases n,
{
    if n < 10 {
        let mut r: Vec<char> = Vec::new();
        r.push(digit_of(n));
        r
    } else {
        let mut r = decimal_chars(n / 10);
        r.push(digit_of(n % 10));
        r
    }
}

/// The decimal digits of a signed number.
pub fn signed_decimal_chars(n: i64) -> (r: Vec<char>)
    ensures
        r@ == signed_decimal(n as int),
{
    if n < 0 {
        let m: u64 = if n == i64::MIN {
            9223372036854775808u64
        } else {
            (-n) as u64
        };
        let mut r: Vec<char> = Vec::new();
        r.push('-');
        let d = decimal_chars(m);
        push_all(&mut r, &d);
        r
    } else {
        decimal_chars(n as u64)
    }
}

/// The decimal representation of `n` as a `String`.
pub fn decimal_string(n: u64) -> (s: String)
    ensures
        s@ == decimal(n as nat),
{
    string_from(&decimal_chars(n))
}

// ---------------------------------------------------------------------------
// Patterns
// ---------------------------------------------------------------------------
/// `p` occurs in `s` at position `i`.
pub open spec fn matches_at(s: Seq<char>, p: Seq<char>, i: int) -> bool {
    0 <= i && i + p.len() <= s.len() && s.subrange(i, i + p.len()) == p
}

pub open spec fn starts_with(s: Seq<char>, p: Seq<char>) -> bool {
    matches_at(s, p, 0)
}

/// The first position at or after `i` where `p` occurs in `s`.
pub open spec fn find_from(s: Seq<char>, p: Seq<char>, i: int) -> Option<int>
    decreases s.len() + 1 - i,
{
    if i < 0 || i + p.len() > s.len() {
        None
    } else if matches_at(s, p, i) {
        Some(i)
    } else {
        find_from(s, p, i + 1)
    }
}

pub open spec fn find(s: Seq<char>, p: Seq<char>) -> Option<int> {
    find_from(s, p, 0)
}

pub open spec fn contains(s: Seq<char>, p: Seq<char>) -> bool {
    find(s, p) is Some
}

pub proof fn lemma_find_from_bounds(s: Seq<char>, p: Seq<char>, i: int)
    requires
        0 <= i,
    ensures
        find_from(s, p, i) matches Some(j) ==> i <= j && matches_at(s, p, j) && forall|k: int|
            i <= k < j ==> !matches_at(s, p, k),
        find_from(s, p, i) is None ==> forall|k: int| i <= k ==> !matches_at(s, p, k),
    decreases s.len() + 1 - i,
{
    if i < 0 || i + p.len() > s.len() {
    } else if matches_at(s, p, i) {
    } else {
        lemma_find_from_bounds(s, p, i + 1);
    }
}

/// `p` occurs somewhere in `s`.
pub open spec fn occurs(s: Seq<char>, p: Seq<char>) -> bool {
    exists|k: int| matches_at(s, p, k)
}

/// `contains` holds exactly when the pattern occurs somewhere.
pub proof fn lemma_contains_iff_occurs(s: Seq<char>, p: Seq<char>)
    ensures
        contains(s, p) <==> occurs(s, p),
{
    lemma_find_from_bounds(s, p, 0);
    if contains(s, p) {
        let j = find(s, p)->0;
        assert(matches_at(s, p, j));
    }
}

/// How many of the first `n` lines satisfy `f`.
pub open spec fn count_where(ls: Seq<Seq<char>>, n: int, f: spec_fn(Seq<char>) -> bool) -> nat
    decreases n,
{
    if n <= 0 {
        0
    } else {
        count_where(ls, n - 1, f) + if f(ls[n - 1]) {
            1nat
        } else {
            0nat
        }
    }
}

/// Counting over more lines never counts fewer; a line that satisfies `f`
/// below `b` makes the count strictly larger.
pub proof fn lemma_count_where_mono(ls: Seq<Seq<char>>, f: spec_fn(Seq<char>) -> bool, a: int, b: int)
    requires
        0 <= a <= b,
    ensures
        count_where(ls, a, f) <= count_where(ls, b, f),
        a < b && f(ls[a]) ==> count_where(ls, a, f) < count_where(ls, b, f),
    decreases b - a,
{
    if a < b {
        lemma_count_where_mono(ls, f, a, b - 1);
        if f(ls[a]) && a < b - 1 {
            lemma_count_where_mono(ls, f, a + 1, b - 1);
        }
    }
}

/// Whether `p` occurs in `s` at position `i`.
pub fn matches_at_exec(s: &Vec<char>, p: &Vec<char>, i: usize) -> (b: bool)
    ensures
        b == matches_at(s@, p@, i as int),
{
    let n = s.len();
    if i > n || p.len() > n - i {
        return false;
    }
    let mut k: usize = 0;
    while k < p.len()
        invariant
            n == s@.len(),
            i + p@.len() <= s@.len(),
            k <= p@.len(),
            forall|j: int| 0 <= j < k ==> s@[i + j] == p@[j],
        decreases p@.len() - k,
    {
        if s[i + k] != p[k] {
            assert(s@.subrange(i as int, i + p@.len())[k as int] != p@[k as int]);
            return false;
        }
        k = k + 1;
    }
    assert(s@.subrange(i as int, i + p@.len()) =~= p@);
    true
}

/// The first position at or after `i` where `p` occurs in `s`.
pub fn find_from_exec(s: &Vec<char>, p: &Vec<char>, i: usize) -> (r: Option<usize>)
    ensures
        r matches Some(j) ==> find_from(s@, p@, i as int) == Some(j as int),
        r is None ==> find_from(s@, p@, i as int) is None,
{
    let n = s.len();
    if i > n {
        return None;
    }
    let mut k = i;
    while p.len() <= n - k
        invariant
            n == s@.len(),
            i <= k <= n,
            find_from(s@, p@, i as int) == find_from(s@, p@, k as int),
        decreases n - k,
    {
        if matches_at_exec(s, p, k) {
            return Some(k);
        }
        if k == n {
            assert(s@.subrange(k as int, k as int) =~= p@);
            return None;
        }
        k = k + 1;
    }
    None
}

pub fn contains_exec(s: &Vec<char>, p: &Vec<char>) -> (b: bool)
    ensures
        b == contains(s@, p@),
{
    find_from_exec(s, p, 0).is_some()
}

pub fn contains_str(s: &Vec<char>, p: &str) -> (b: bool)
    ensures
        b == contains(s@, p@),
{
    let pv = to_chars(p);
    contains_exec(s, &pv)
}

pub fn starts_with_str(s: &Vec<char>, p: &str) -> (b: bool)
    ensures
        b == starts_with(s@, p@),
{
    let pv = to_chars(p);
    matches_at_exec(s, &pv, 0)
}

/// Number of non-overlapping occurrences of a non-empty `p` in `s` from `i`,
/// scanning left to right (what `str::matches(..).count()` gives).
pub open spec fn count_from(s: Seq<char>, p: Seq<char>, i: int) -> nat
    decreases s.len() - i,
{
    if p.len() == 0 || i < 0 || i + p.len() > s.len() {
        0
    } else if matches_at(s, p, i) {
        1 + count_from(s, p, i + p.len())
    } else {
        count_from(s, p, i + 1)
    }
}

pub open spec fn count_matches(s: Seq<char>, p: Seq<char>) -> nat {
    count_from(s, p, 0)
}

pub fn count_matches_exec(s: &Vec<char>, p: &Vec<char>) -> (n: usize)
    ensures
        n == count_matches(s@, p@),
{
    if p.len() == 0 {
        return 0;
    }
    let mut n: usize = 0;
    let mut k: usize = 0;
    let len = s.len();
    while p.len() <= len - k
        invariant
            len == s@.len(),
            p@.len() > 0,
            k <= s@.len(),
            n <= k,
            n + count_from(s@, p@, k as int) == count_matches(s@, p@),
        decreases s@.len() - k,
    {
        if matches_at_exec(s, p, k) {
            n = n + 1;
            k = k + p.len();
        } else {
            k = k + 1;
        }
    }
    n
}

pub fn count_str(s: &Vec<char>, p: &str) -> (n: usize)
    ensures
        n == count_matches(s@, p@),
{
    let pv = to_chars(p);
    count_matches_exec(s, &pv)
}

/// Number of occurrences of the character `c` in `s`.
pub open spec fn count_char(s: Seq<char>, c: char) -> nat {
    count_matches(s, seq![c])
}

/// `s` with every non-overlapping occurrence of `p` (scanned left to right from
/// `i`) replaced by `r`; an empty `p` matches between every two characters and at both ends.
pub open spec fn replace_from(s: Seq<char>, p: Seq<char>, r: Seq<char>, i: int) -> Seq<char>
    decreases s.len() - i,
{
    if i < 0 || i > s.len() {
        seq![]
    } else if p.len() == 0 {
        if i == s.len() {
            r
        } else {
            r + seq![s[i]] + replace_from(s, p, r, i + 1)
        }
    } else if i + p.len() > s.len() {
        s.subrange(i, s.len() as int)
    } else if matches_at(s, p, i) {
        r + replace_from(s, p, r, i + p.len())
    } else {
        seq![s[i]] + replace_from(s, p, r, i + 1)
    }
}

pub open spec fn replace_all(s: Seq<char>, p: Seq<char>, r: Seq<char>) -> Seq<char> {
    replace_from(s, p, r, 0)
}

pub fn replace_exec(s: &Vec<char>, p: &Vec<char>, r: &Vec<char>) -> (out: Vec<char>)
    ensures
        out@ == replace_all(s@, p@, r@),
{
    let mut out: Vec<char> = Vec::new();
    let mut k: usize = 0;
    if p.len() == 0 {
        while k < s.len()
            invariant
                p@.len() == 0,
                k <= s@.len(),
                out@ + replace_from(s@, p@, r@, k as int) == replace_all(s@, p@, r@),
            decreases s@.len() - k,
        {
            let ghost before = out@;
            push_all(&mut out, r);
            out.push(s[k]);
            assert(before + replace_from(s@, p@, r@, k as int) =~= out@ + replace_from(
                s@,
                p@,
                r@,
                k + 1,
            ));
            k = k + 1;
        }
        let ghost before = out@;
        push_all(&mut out, r);
        assert(out@ =~= before + replace_from(s@, p@, r@, k as int));
        return out;
    }
    let len = s.len();
    while p.len() <= len - k
        invariant
            len == s@.len(),
            p@.len() > 0,
            k <= s@.len(),
            out@ + replace_from(s@, p@, r@, k as int) == replace_all(s@, p@, r@),
        decreases s@.len() - k,
    {
        let ghost before = out@;
        if matches_at_exec(s, p, k) {
            push_all(&mut out, r);
            assert(before + replace_from(s@, p@, r@, k as int) =~= out@ + replace_from(
                s@,
                p@,
                r@,
                k + p@.len(),
            ));
            k = k + p.len();
        } else {
            out.push(s[k]);
            assert(before + replace_from(s@, p@, r@, k as int) =~= out@ + replace_from(
                s@,
                p@,
                r@,
                k + 1,
            ));
            k = k + 1;
        }
    }
    let tail = slice_chars(s, k, s.len());
    let ghost before = out@;
    push_all(&mut out, &tail);
    assert(out@ =~= before + replace_from(s@, p@, r@, k as int));
    out
}

/// `s` with every leading occurrence of the non-empty `p` removed, repeatedly
/// (what `str::trim_start_matches` gives for a string pattern).
pub open spec fn strip_prefixes_from(s: Seq<char>, p: Seq<char>, i: int) -> Seq<char>
    decreases s.len() - i,
{
    if p.len() > 0 && matches_at(s, p, i) {
        strip_prefixes_from(s, p, i + p.len())
    } else if 0 <= i <= s.len() {
        s.subrange(i, s.len() as int)
    } else {
        seq![]
    }
}

pub open spec fn strip_prefixes(s: Seq<char>, p: Seq<char>) -> Seq<char> {
    strip_prefixes_from(s, p, 0)
}

pub fn strip_prefixes_exec(s: &Vec<char>, p: &str) -> (r: Vec<char>)
    ensures
        r@ == strip_prefixes(s@, p@),
{
    let pv = to_chars(p);
    let mut k: usize = 0;
    let len = s.len();
    if pv.len() == 0 {
        return s.clone();
    }
    while matches_at_exec(s, &pv, k)
        invariant
            len == s@.len(),
            pv@ == p@,
            pv@.len() > 0,
            k <= s@.len(),
            strip_prefixes_from(s@, p@, k as int) == strip_prefixes(s@, p@),
        decreases s@.len() - k,
    {
        k = k + pv.len();
    }
    slice_chars(s, k, s.len())
}

/// The part of `s` before the first occurrence of `p` (all of `s` when `p` does not occur).
pub open spec fn before_first(s: Seq<char>, p: Seq<char>) -> Seq<char> {
    match find(s, p) {
        Some(j) => s.subrange(0, j),
        None => s,
    }
}

/// The second piece of `s` split on the non-empty `p`: what `s.split(p).nth(1)` gives.
pub open spec fn second_piece(s: Seq<char>, p: Seq<char>) -> Option<Seq<char>> {
    match find(s, p) {
        Some(j) => Some(before_first(s.subrange(j + p.len(), s.len() as int), p)),
        None => None,
    }
}

pub fn before_first_exec(s: &Vec<char>, p: &str) -> (r: Vec<char>)
    ensures
        r@ == before_first(s@, p@),
{
    let pv = to_chars(p);
    match find_from_exec(s, &pv, 0) {
        Some(j) => {
            proof {
                lemma_find_from_bounds(s@, p@, 0);
            }
            slice_chars(s, 0, j)
        },
        None => s.clone(),
    }
}

pub fn second_piece_exec(s: &Vec<char>, p: &str) -> (r: Option<Vec<char>>)
    ensures
        r matches Some(v) ==> second_piece(s@, p@) == Some(v@),
        r is None ==> second_piece(s@, p@) is None,
{
    let pv = to_chars(p);
    match find_from_exec(s, &pv, 0) {
        Some(j) => {
            proof {
                lemma_find_from_bounds(s@, p@, 0);
            }
            let len = s.len();
            let rest = slice_chars(s, j + pv.len(), s.len());
            Some(before_first_exec(&rest, p))
        },
        None => None,
    }
}

// ---------------------------------------------------------------------------
// Whitespace
// ---------------------------------------------------------------------------
/// First position at or after `i` that is not whitespace (or `s.len()`).
pub open spec fn skip_ws(s: Seq<char>, i: int) -> int
    decreases s.len() - i,
{
    if 0 <= i < s.len() && is_ws(s[i]) {
        skip_ws(s, i + 1)
    } else {
        i
    }
}

/// Position just after the last non-whitespace character before `j` (or 0).
pub open spec fn back_ws(s: Seq<char>, j: int) -> int
    decreases j,
{
    if 0 < j <= s.len() && is_ws(s[j - 1]) {
        back_ws(s, j - 1)
    } else {
        j
    }
}

pub open spec fn trim_start(s: Seq<char>) -> Seq<char> {
    s.subrange(skip_ws(s, 0), s.len() as int)
}

pub open spec fn trim_end(s: Seq<char>) -> Seq<char> {
    s.subrange(0, back_ws(s, s.len() as int))
}

/// `s` without leading and trailing whitespace.
pub open spec fn trim(s: Seq<char>) -> Seq<char> {
    trim_end(trim_start(s))
}

proof fn lemma_skip_ws_shift(c: char, x: Seq<char>, k: int)
    requires
        0 <= k <= x.len(),
    ensures
        skip_ws(seq![c] + x, k + 1) == skip_ws(x, k) + 1,
    decreases x.len() - k,
{
    let y = seq![c] + x;
    if k < x.len() {
        assert(y[k + 1] == x[k]);
        if is_ws(x[k]) {
            lemma_skip_ws_shift(c, x, k + 1);
        }
    }
}

/// A leading whitespace character does not change the trimmed text.
pub proof fn lemma_trim_leading_ws(c: char, x: Seq<char>)
    requires
        is_ws(c),
    ensures
        trim(seq![c] + x) == trim(x),
{
    let y = seq![c] + x;
    lemma_skip_ws_shift(c, x, 0);
    assert(skip_ws(y, 0) == skip_ws(y, 1));
    lemma_skip_ws_bounds(x, 0);
    assert(trim_start(y) =~= trim_start(x));
}

proof fn lemma_skip_ws_bounds(s: Seq<char>, i: int)
    requires
        0 <= i <= s.len(),
    ensures
        i <= skip_ws(s, i) <= s.len(),
    decreases s.len() - i,
{
    if i < s.len() && is_ws(s[i]) {
        lemma_skip_ws_bounds(s, i + 1);
    }
}

/// The last character of a trimmed, non-empty text is not whitespace.
pub proof fn lemma_trimmed_ends_non_ws(x: Seq<char>)
    requires
        trim(x) == x,
        x.len() > 0,
    ensures
        !is_ws(x.last()),
{
    lemma_skip_ws_bounds(x, 0);
    let t = trim_start(x);
    if is_ws(x.last()) {
        if skip_ws(x, 0) == 0 {
            assert(t =~= x);
            assert(back_ws(t, t.len() as int) == back_ws(t, t.len() - 1));
            lemma_back_ws_bound(t, t.len() - 1);
            assert(trim(x).len() < x.len());
        } else {
            lemma_back_ws_bound(t, t.len() as int);
            assert(trim(x).len() <= t.len());
        }
    }
}

proof fn lemma_back_ws_bound(s: Seq<char>, j: int)
    requires
        0 <= j <= s.len(),
    ensures
        0 <= back_ws(s, j) <= j,
    decreases j,
{
    if 0 < j && is_ws(s[j - 1]) {
        lemma_back_ws_bound(s, j - 1);
    }
}

pub fn trim_start_exec(s: &Vec<char>) -> (r: Vec<char>)
    ensures
        r@ == trim_start(s@),
{
    let mut k: usize = 0;
    while k < s.len() && is_whitespace_char(s[k])
        invariant
            k <= s@.len(),
            skip_ws(s@, k as int) == skip_ws(s@, 0),
        decreases s@.len() - k,
    {
        k = k + 1;
    }
    slice_chars(s, k, s.len())
}

pub fn trim_end_exec(s: &Vec<char>) -> (r: Vec<char>)
    ensures
        r@ == trim_end(s@),
{
    let mut k: usize = s.len();
    while k > 0 && is_whitespace_char(s[k - 1])
        invariant
            k <= s@.len(),
            back_ws(s@, k as int) == back_ws(s@, s@.len() as int),
        decreases k,
    {
        k = k - 1;
    }
    slice_chars(s, 0, k)
}

pub fn trim_exec(s: &Vec<char>) -> (r: Vec<char>)
    ensures
        r@ == trim(s@),
{
    let t = trim_start_exec(s);
    trim_end_exec(&t)
}

/// The whitespace-separated words of `s` from position `i`, where `start` is
/// the start of the word in progress (or -1 between words).
pub open spec fn words_scan(s: Seq<char>, start: int, i: int) -> Seq<Seq<char>>
    decreases s.len() - i,
{
    if i < 0 || i >= s.len() {
        if 0 <= start < s.len() {
            seq![s.subrange(start, s.len() as int)]
        } else {
            seq![]
        }
    } else if is_ws(s[i]) {
        if start >= 0 {
            seq![s.subrange(start, i)] + words_scan(s, -1, i + 1)
        } else {
            words_scan(s, -1, i + 1)
        }
    } else if start >= 0 {
        words_scan(s, start, i + 1)
    } else {
        words_scan(s, i, i + 1)
    }
}

/// The maximal runs of non-whitespace characters of `s` (`str::split_whitespace`).
pub open spec fn words(s: Seq<char>) -> Seq<Seq<char>> {
    words_scan(s, -1, 0)
}

pub fn words_exec(s: &Vec<char>) -> (r: Vec<Vec<char>>)
    ensures
        r@.map_values(|w: Vec<char>| w@) == words(s@),
{
    let mut r: Vec<Vec<char>> = Vec::new();
    let mut start: usize = 0;
    let mut in_word = false;
    let mut k: usize = 0;
    while k < s.len()
        invariant
            k <= s@.len(),
            in_word ==> start < k,
            r@.map_values(|w: Vec<char>| w@) + words_scan(
                s@,
                if in_word {
                    start as int
                } else {
                    -1
                },
                k as int,
            ) == words(s@),
        decreases s@.len() - k,
    {
        let ghost before = r@.map_values(|w: Vec<char>| w@);
        if is_whitespace_char(s[k]) {
            if in_word {
                let w = slice_chars(s, start, k);
                r.push(w);
                assert(r@.map_values(|w: Vec<char>| w@) =~= before.push(w@));
                in_word = false;
            }
        } else if !in_word {
            in_word = true;
            start = k;
        }
        k = k + 1;
    }
    if in_word {
        let ghost before = r@.map_values(|w: Vec<char>| w@);
        let w = slice_chars(s, start, s.len());
        r.push(w);
        assert(r@.map_values(|w: Vec<char>| w@) =~= before.push(w@));
    }
    r
}

// ---------------------------------------------------------------------------
// Lines
// ---------------------------------------------------------------------------
/// `x` without one trailing carriage return.
pub open spec fn strip_cr(x: Seq<char>) -> Seq<char> {
    if x.len() > 0 && x.last() == '\r' {
        x.drop_last()
    } else {
        x
    }
}

/// The lines of `s` from position `i`, the line in progress starting at `start`.
pub open spec fn lines_scan(s: Seq<char>, start: int, i: int) -> Seq<Seq<char>>
    decreases s.len() - i,
{
    if i < 0 || i >= s.len() || start < 0 || start > i {
        if 0 <= start < s.len() {
            seq![s.subrange(start, s.len() as int)]
        } else {
            seq![]
        }
    } else if s[i] == '\n' {
        seq![strip_cr(s.subrange(start, i))] + lines_scan(s, i + 1, i + 1)
    } else {
        lines_scan(s, start, i + 1)
    }
}

/// The lines of `s` as `str::lines` yields them: split at `\n`, a `\r` just
/// before a `\n` dropped, and no empty line after a final `\n`.
pub open spec fn lines(s: Seq<char>) -> Seq<Seq<char>> {
    lines_scan(s, 0, 0)
}

/// Characters that are not line breaks do not end a line: the scan skips over them.
pub proof fn lemma_lines_scan_skip(s: Seq<char>, start: int, i: int, e: int)
    requires
        0 <= start <= i <= e <= s.len(),
        forall|j: int| i <= j < e ==> s[j] != '\n',
    ensures
        lines_scan(s, start, i) == lines_scan(s, start, e),
    decreases e - i,
{
    if i < e {
        lemma_lines_scan_skip(s, start, i + 1, e);
    }
}

pub open spec fn views(v: Seq<Vec<char>>) -> Seq<Seq<char>> {
    v.map_values(|w: Vec<char>| w@)
}

pub fn strip_cr_exec(x: Vec<char>) -> (r: Vec<char>)
    ensures
        r@ == strip_cr(x@),
{
    let mut x = x;
    if x.len() > 0 && x[x.len() - 1] == '\r' {
        x.pop();
    }
    x
}

pub fn lines_exec(s: &Vec<char>) -> (r: Vec<Vec<char>>)
    ensures
        views(r@) == lines(s@),
        forall|k: int| 0 <= k < r@.len() ==> !contains(#[trigger] r@[k]@, seq!['\n']),
{
    let mut r: Vec<Vec<char>> = Vec::new();
    let mut start: usize = 0;
    let mut k: usize = 0;
    while k < s.len()
        invariant
            start <= k <= s@.len(),
            views(r@) + lines_scan(s@, start as int, k as int) == lines(s@),
            forall|j: int| start <= j < k ==> s@[j] != '\n',
            forall|j: int| 0 <= j < r@.len() ==> !contains(#[trigger] r@[j]@, seq!['\n']),
        decreases s@.len() - k,
    {
        if s[k] == '\n' {
            let ghost before = views(r@);
            let line = strip_cr_exec(slice_chars(s, start, k));
            proof {
                lemma_no_char_no_match(line@, '\n');
            }
            r.push(line);
            assert(views(r@) =~= before.push(line@));
            start = k + 1;
        }
        k = k + 1;
    }
    if start < s.len() {
        let ghost before = views(r@);
        let line = slice_chars(s, start, s.len());
        proof {
            lemma_no_char_no_match(line@, '\n');
        }
        r.push(line);
        assert(views(r@) =~= before.push(line@));
    }
    r
}

pub proof fn lemma_no_char_no_match(x: Seq<char>, c: char)
    requires
        forall|j: int| 0 <= j < x.len() ==> x[j] != c,
    ensures
        !contains(x, seq![c]),
{
    lemma_find_from_bounds(x, seq![c], 0);
    if find(x, seq![c]) is Some {
        let j = find(x, seq![c])->0;
        assert(x.subrange(j, j + 1)[0] == x[j]);
    }
}

// ---------------------------------------------------------------------------
// Joining
// ---------------------------------------------------------------------------
/// The pieces joined with `sep` between consecutive pieces.
pub open spec fn join(pieces: Seq<Seq<char>>, sep: Seq<char>) -> Seq<char>
    decreases pieces.len(),
{
    if pieces.len() == 0 {
        seq![]
    } else if pieces.len() == 1 {
        pieces[0]
    } else {
        join(pieces.drop_last(), sep) + sep + pieces.last()
    }
}

pub fn join_exec(pieces: &Vec<Vec<char>>, sep: &str) -> (r: Vec<char>)
    ensures
        r@ == join(views(pieces@), sep@),
{
    let mut r: Vec<char> = Vec::new();
    let mut k: usize = 0;
    while k < pieces.len()
        invariant
            k <= pieces@.len(),
            r@ == join(views(pieces@).take(k as int), sep@),
        decreases pieces@.len() - k,
    {
        if k > 0 {
            push_str(&mut r, sep);
        }
        push_all(&mut r, &pieces[k]);
        assert(views(pieces@).take(k + 1).drop_last() =~= views(pieces@).take(k as int));
        k = k + 1;
    }
    assert(views(pieces@).take(pieces@.len() as int) =~= views(pieces@));
    r
}

// ---------------------------------------------------------------------------
// Integer parsing
// ---------------------------------------------------------------------------
pub open spec fn is_digit(c: char) -> bool {
    '0' <= c <= '9'
}

/// The value of a run of decimal digits.
pub open spec fn digits_value(d: Seq<char>) -> int
    decreases d.len(),
{
    if d.len() == 0 {
        0
    } else {
        10 * digits_value(d.drop_last()) + (d.last() as int - '0' as int)
    }
}

pub open spec fn all_digits(d: Seq<char>) -> bool {
    forall|k: int| 0 <= k < d.len() ==> is_digit(#[trigger] d[k])
}

/// What `str::parse::<i64>` gives: an optional sign, then one or more decimal
/// digits, and a value in the range of `i64`.
pub open spec fn parse_i64(w: Seq<char>) -> Option<int> {
    let neg = w.len() > 0 && w[0] == '-';
    let signed = w.len() > 0 && (w[0] == '-' || w[0] == '+');
    let d = if signed {
        w.drop_first()
    } else {
        w
    };
    let v = if neg {
        -digits_value(d)
    } else {
        digits_value(d)
    };
    if d.len() > 0 && all_digits(d) && i64::MIN <= v <= i64::MAX {
        Some(v)
    } else {
        None
    }
}

proof fn lemma_digits_value_nonneg(d: Seq<char>)
    requires
        all_digits(d),
    ensures
        digits_value(d) >= 0,
    decreases d.len(),
{
    if d.len() > 0 {
        assert(all_digits(d.drop_last())) by {
            assert forall|k: int| 0 <= k < d.drop_last().len() implies is_digit(
                #[trigger] d.drop_last()[k],
            ) by {
                assert(d.drop_last()[k] == d[k]);
            }
        }
        lemma_digits_value_nonneg(d.drop_last());
        assert(is_digit(d[d.len() - 1]));
    }
}

pub fn parse_i64_exec(w: &Vec<char>) -> (r: Option<i64>)
    ensures
        r matches Some(v) ==> parse_i64(w@) == Some(v as int),
        r is None ==> parse_i64(w@) is None,
{
    let neg = w.len() > 0 && w[0] == '-';
    let signed = w.len() > 0 && (w[0] == '-' || w[0] == '+');
    let first: usize = if signed {
        1
    } else {
        0
    };
    let ghost d = if signed {
        w@.drop_first()
    } else {
        w@
    };
    assert(d =~= w@.subrange(first as int, w@.len() as int));
    assert(signed == (w@.len() > 0 && (w@[0] == '-' || w@[0] == '+')));
    assert(neg == (w@.len() > 0 && w@[0] == '-'));
    if first >= w.len() {
        return None;
    }
    let mut acc: u64 = 0;
    let mut k: usize = first;
    while k < w.len()
        invariant
            first <= k <= w@.len(),
            d == w@.subrange(first as int, w@.len() as int),
            signed == (w@.len() > 0 && (w@[0] == '-' || w@[0] == '+')),
            neg == (w@.len() > 0 && w@[0] == '-'),
            d == (if signed {
                w@.drop_first()
            } else {
                w@
            }),
            all_digits(w@.subrange(first as int, k as int)),
            acc as int == digits_value(w@.subrange(first as int, k as int)),
            acc <= 9223372036854775808u64,
        decreases w@.len() - k,
    {
        let c = w[k];
        let ghost pre = w@.subrange(first as int, k as int);
        let ghost next = w@.subrange(first as int, k + 1);
        assert(next.drop_last() =~= pre);
        if !('0' <= c && c <= '9') {
            assert(d[k - first] == c);
            assert(!is_digit(d[k - first]));
            assert(!all_digits(d));
            assert(parse_i64(w@) is None);
            return None;
        }
        let dv = (c as u32 - '0' as u32) as u64;
        if acc > 922337203685477580u64 || (acc == 922337203685477580u64 && dv > 8) {
            // the value is already beyond every i64 magnitude
            proof {
                assert(all_digits(next)) by {
                    assert forall|j: int| 0 <= j < next.len() implies is_digit(#[trigger] next[j]) by {
                        if j < pre.len() {
                            assert(next[j] == pre[j]);
                        }
                    }
                }
                assert(next.last() == c);
                assert(digits_value(next) == 10 * digits_value(pre) + (c as int - '0' as int));
                assert(w@.subrange(first as int, w@.len() as int).take(k + 1 - first) =~= next);
                if all_digits(d) {
                    lemma_digits_prefix_monotone(d, k + 1 - first);
                    assert(digits_value(d) > 9223372036854775808);
                }
                assert(parse_i64(w@) is None);
            }
            return None;
        }
        acc = acc * 10 + dv;
        proof {
            assert forall|j: int| 0 <= j < next.len() implies is_digit(#[trigger] next[j]) by {
                if j < pre.len() {
                    assert(next[j] == pre[j]);
                }
            }
        }
        k = k + 1;
    }
    assert(w@.subrange(first as int, k as int) =~= d);
    if neg {
        if acc > 9223372036854775808u64 {
            return None;
        }
        if acc == 9223372036854775808u64 {
            return Some(i64::MIN);
        }
        Some(-(acc as i64))
    } else {
        if acc > 9223372036854775807u64 {
            return None;
        }
        Some(acc as i64)
    }
}

/// A longer run of digits never has a smaller value than its prefix; a value
/// above every `i64` magnitude stays above it.
proof fn lemma_digits_prefix_monotone(d: Seq<char>, n: int)
    requires
        all_digits(d),
        0 <= n <= d.len(),
        digits_value(d.take(n)) > 9223372036854775808,
    ensures
        digits_value(d) > 9223372036854775808,
    decreases d.len() - n,
{
    if n < d.len() {
        let t = d.take(n + 1);
        assert(t.drop_last() =~= d.take(n));
        assert(is_digit(d[n]));
        assert(t.last() == d[n]);
        lemma_digits_value_nonneg(d.take(n));
        lemma_digits_prefix_monotone(d, n + 1);
    } else {
        assert(d.take(n) =~= d);
    }
}

} // verus!
