//! Text primitives over character sequences.
//!
//! Every string operation the panel's parsers use is written here once, with a
//! specification over `Seq<char>` that says what `str`'s own method of the same
//! name documents, and an executable version proved against it.
use vstd::prelude::*;

verus! {

/// Unicode `White_Space`, the property that `char::is_whitespace` documents.
pub open spec fn is_ws(c: char) -> bool {
    let n = c as u32;
    ||| 0x9 <= n <= 0xd
    ||| n == 0x20
    ||| n == 0x85
    ||| n == 0xa0
    ||| n == 0x1680
    ||| 0x2000 <= n <= 0x200a
    ||| n == 0x2028
    ||| n == 0x2029
    ||| n == 0x202f
    ||| n == 0x205f
    ||| n == 0x3000
}

/// Index of the first non-whitespace character at or after `i`.
pub open spec fn ws_lead(s: Seq<char>, i: int) -> int
    decreases s.len() - i,
{
    if 0 <= i < s.len() && is_ws(s[i]) {
        ws_lead(s, i + 1)
    } else {
        i
    }
}

/// One past the last non-whitespace character at or before `j - 1`.
pub open spec fn ws_trail(s: Seq<char>, j: int) -> int
    decreases j,
{
    if 0 < j <= s.len() && is_ws(s[j - 1]) {
        ws_trail(s, j - 1)
    } else {
        j
    }
}

/// `str::trim_start`.
pub open spec fn trim_start(s: Seq<char>) -> Seq<char> {
    s.subrange(ws_lead(s, 0), s.len() as int)
}

/// `str::trim_end`.
pub open spec fn trim_end(s: Seq<char>) -> Seq<char> {
    s.subrange(0, ws_trail(s, s.len() as int))
}

/// `str::trim`.
pub open spec fn trim(s: Seq<char>) -> Seq<char> {
    trim_end(trim_start(s))
}

/// `p` occurs in `s` starting at index `i`.
pub open spec fn matches_at(s: Seq<char>, p: Seq<char>, i: int) -> bool {
    0 <= i && i + p.len() <= s.len() && s.subrange(i, i + p.len()) == p
}

/// First index at or after `i` where `p` occurs.
pub open spec fn find_from(s: Seq<char>, p: Seq<char>, i: int) -> Option<int>
    decreases s.len() + 1 - i,
{
    if i < 0 || i + p.len() > s.len() {
        None
    } else if matches_at(s, p, i) {
        Some(i)
    } else {
        find_from(s, p, i + 1)
    }
}

/// `str::find` with a string pattern.
pub open spec fn find(s: Seq<char>, p: Seq<char>) -> Option<int> {
    find_from(s, p, 0)
}

/// `str::contains` with a string pattern.
pub open spec fn contains(s: Seq<char>, p: Seq<char>) -> bool {
    find(s, p) is Some
}

/// `str::starts_with`.
pub open spec fn starts_with(s: Seq<char>, p: Seq<char>) -> bool {
    p.len() <= s.len() && s.subrange(0, p.len() as int) == p
}

/// `str::ends_with`.
pub open spec fn ends_with(s: Seq<char>, p: Seq<char>) -> bool {
    p.len() <= s.len() && s.subrange(s.len() - p.len(), s.len() as int) == p
}

/// Last index before `j` that holds `c`.
pub open spec fn last_from(s: Seq<char>, c: char, j: int) -> Option<int>
    decreases j,
{
    if j <= 0 || j > s.len() {
        None
    } else if s[j - 1] == c {
        Some(j - 1)
    } else {
        last_from(s, c, j - 1)
    }
}

/// `str::rfind` with a character pattern.
pub open spec fn rfind_char(s: Seq<char>, c: char) -> Option<int> {
    last_from(s, c, s.len() as int)
}

/// The pieces of `s` from `start`, scanning from `i`, separated by `p`.
pub open spec fn split_scan(s: Seq<char>, p: Seq<char>, start: int, i: int) -> Seq<Seq<char>>
    decreases s.len() - i,
{
    if p.len() == 0 || i < start || start < 0 || i + p.len() > s.len() {
        seq![s.subrange(start, s.len() as int)]
    } else if matches_at(s, p, i) {
        seq![s.subrange(start, i)] + split_scan(s, p, i + p.len(), i + p.len())
    } else {
        split_scan(s, p, start, i + 1)
    }
}

/// `str::split` with a non-empty string pattern.
pub open spec fn split(s: Seq<char>, p: Seq<char>) -> Seq<Seq<char>> {
    split_scan(s, p, 0, 0)
}

/// `str::splitn(2, p)`: the text before the first `p`, and the rest after it if there is one.
pub open spec fn split_once(s: Seq<char>, p: Seq<char>) -> (Seq<char>, Option<Seq<char>>) {
    match find(s, p) {
        Some(k) => (s.subrange(0, k), Some(s.subrange(k + p.len(), s.len() as int))),
        None => (s, None),
    }
}

/// A line without the carriage return that ends it.
pub open spec fn strip_cr(t: Seq<char>) -> Seq<char> {
    if t.len() > 0 && t.last() == '\r' {
        t.drop_last()
    } else {
        t
    }
}

/// Lines of `s` from `start`, scanning from `i`.
pub open spec fn lines_scan(s: Seq<char>, start: int, i: int) -> Seq<Seq<char>>
    decreases s.len() - i,
{
    if i < start || start < 0 || i >= s.len() {
        if 0 <= start < s.len() {
            seq![s.subrange(start, s.len() as int)]
        } else {
            Seq::empty()
        }
    } else if s[i] == '\n' {
        seq![strip_cr(s.subrange(start, i))] + lines_scan(s, i + 1, i + 1)
    } else {
        lines_scan(s, start, i + 1)
    }
}

/// `str::lines`: split at `\n` or `\r\n`; a final line ending adds no empty line.
pub open spec fn lines(s: Seq<char>) -> Seq<Seq<char>> {
    lines_scan(s, 0, 0)
}

/// The current word `s[start..i]`, if it is not empty.
pub open spec fn word_if_any(s: Seq<char>, start: int, i: int) -> Seq<Seq<char>> {
    if start < i {
        seq![s.subrange(start, i)]
    } else {
        Seq::empty()
    }
}

/// Words of `s` from `start`, scanning from `i`.
pub open spec fn words_scan(s: Seq<char>, start: int, i: int) -> Seq<Seq<char>>
    decreases s.len() - i,
{
    if i < start || start < 0 || i >= s.len() {
        word_if_any(s, start, s.len() as int)
    } else if is_ws(s[i]) {
        word_if_any(s, start, i) + words_scan(s, i + 1, i + 1)
    } else {
        words_scan(s, start, i + 1)
    }
}

/// `str::split_whitespace`.
pub open spec fn split_whitespace(s: Seq<char>) -> Seq<Seq<char>> {
    words_scan(s, 0, 0)
}

/// Index after the repeated occurrences of `p` that start at `i`.
pub open spec fn prefix_run(s: Seq<char>, p: Seq<char>, i: int) -> int
    decreases s.len() - i,
{
    if p.len() > 0 && matches_at(s, p, i) {
        prefix_run(s, p, i + p.len())
    } else {
        i
    }
}

/// `str::trim_start_matches` with a string pattern.
pub open spec fn trim_start_matches(s: Seq<char>, p: Seq<char>) -> Seq<char> {
    s.subrange(prefix_run(s, p, 0), s.len() as int)
}

/// Index of the first character at or after `i` that is not `c`.
pub open spec fn char_lead(s: Seq<char>, c: char, i: int) -> int
    decreases s.len() - i,
{
    if 0 <= i < s.len() && s[i] == c {
        char_lead(s, c, i + 1)
    } else {
        i
    }
}

/// One past the last character before `j` that is not `c`.
pub open spec fn char_trail(s: Seq<char>, c: char, j: int) -> int
    decreases j,
{
    if 0 < j <= s.len() && s[j - 1] == c {
        char_trail(s, c, j - 1)
    } else {
        j
    }
}

/// `str::trim_end_matches` with a character pattern.
pub open spec fn trim_end_char(s: Seq<char>, c: char) -> Seq<char> {
    s.subrange(0, char_trail(s, c, s.len() as int))
}

/// `str::trim_matches` with a character pattern.
pub open spec fn trim_char(s: Seq<char>, c: char) -> Seq<char> {
    let a = char_lead(s, c, 0);
    let b = char_trail(s, c, s.len() as int);
    if a < b {
        s.subrange(a, b)
    } else {
        Seq::empty()
    }
}

/// `s[i..]` with every `c` replaced by `r`.
pub open spec fn replace_from(s: Seq<char>, c: char, r: Seq<char>, i: int) -> Seq<char>
    decreases s.len() - i,
{
    if i < 0 || i >= s.len() {
        Seq::empty()
    } else {
        (if s[i] == c {
            r
        } else {
            seq![s[i]]
        }) + replace_from(s, c, r, i + 1)
    }
}

/// `str::replace` with a character pattern.
pub open spec fn replace_char(s: Seq<char>, c: char, r: Seq<char>) -> Seq<char> {
    replace_from(s, c, r, 0)
}

/// The pieces joined, with `sep` between neighbours (`[T]::join`).
pub open spec fn join(parts: Seq<Seq<char>>, sep: Seq<char>) -> Seq<char>
    decreases parts.len(),
{
    if parts.len() == 0 {
        Seq::empty()
    } else if parts.len() == 1 {
        parts[0]
    } else {
        join(parts.drop_last(), sep) + sep + parts.last()
    }
}

/// The views of a vector of strings.
pub open spec fn views(v: Seq<String>) -> Seq<Seq<char>> {
    v.map_values(|s: String| s@)
}

/// `char::is_whitespace`.
pub fn is_whitespace(c: char) -> (b: bool)
    ensures
        b == is_ws(c),
{
    let n = c as u32;
    (0x9 <= n && n <= 0xd) || n == 0x20 || n == 0x85 || n == 0xa0 || n == 0x1680 || (0x2000 <= n
        && n <= 0x200a) || n == 0x2028 || n == 0x2029 || n == 0x202f || n == 0x205f || n == 0x3000
}

/// The characters of `s`, in order.
pub fn chars_of(s: &str) -> (v: Vec<char>)
    ensures
        v@ == s@,
{
    let mut v: Vec<char> = Vec::new();
    for c in it: s.chars()
        invariant
            v@ == it.seq().take(it.index() as int),
            it.seq() == s@,
    {
        v.push(c);
    }
    v
}

/// `String::push`: appends one character.
#[verifier::external_body]
fn string_push(s: &mut String, c: char)
    ensures
        final(s)@ == old(s)@.push(c),
{
    s.push(c);
}

/// The string made of `v[lo..hi]`.
pub fn string_of_range(v: &Vec<char>, lo: usize, hi: usize) -> (s: String)
    requires
        lo <= hi <= v.len(),
    ensures
        s@ == v@.subrange(lo as int, hi as int),
{
    let mut s = String::new();
    let mut i: usize = lo;
    while i < hi
        invariant
            lo <= i <= hi <= v.len(),
            s@ == v@.subrange(lo as int, i as int),
        decreases hi - i,
    {
        string_push(&mut s, v[i]);
        i += 1;
        assert(s@ == v@.subrange(lo as int, i as int));
    }
    s
}

/// The string made of the characters of `v`, in order.
pub fn string_of(v: &Vec<char>) -> (s: String)
    ensures
        s@ == v@,
{
    let s = string_of_range(v, 0, v.len());
    assert(v@.subrange(0, v.len() as int) == v@);
    s
}

/// An owned copy of `s`.
pub fn owned(s: &str) -> (r: String)
    ensures
        r@ == s@,
{
    s.to_owned()
}

/// `a` followed by `b`.
pub fn concat(a: &str, b: &str) -> (r: String)
    ensures
        r@ == a@ + b@,
{
    let mut va = chars_of(a);
    let vb = chars_of(b);
    let mut i: usize = 0;
    while i < vb.len()
        invariant
            i <= vb.len(),
            vb@ == b@,
            va@ == a@ + b@.take(i as int),
        decreases vb.len() - i,
    {
        va.push(vb[i]);
        i += 1;
        assert(va@ == a@ + b@.take(i as int));
    }
    assert(b@.take(vb.len() as int) == b@);
    string_of(&va)
}

/// `a`, `b` and `c`, one after the other.
pub fn concat3(a: &str, b: &str, c: &str) -> (r: String)
    ensures
        r@ == a@ + b@ + c@,
{
    let ab = concat(a, b);
    concat(ab.as_str(), c)
}

/// Whether `p` occurs in `s` at index `i`.
pub fn matches_at_exec(s: &Vec<char>, p: &Vec<char>, i: usize) -> (b: bool)
    ensures
        b == matches_at(s@, p@, i as int),
{
    if i > s.len() || p.len() > s.len() - i {
        return false;
    }
    let mut k: usize = 0;
    while k < p.len()
        invariant
            i + p.len() <= s.len(),
            k <= p.len(),
            forall|j: int| 0 <= j < k ==> s@[i + j] == p@[j],
        decreases p.len() - k,
    {
        if s[i + k] != p[k] {
            assert(s@.subrange(i as int, i + p.len())[k as int] != p@[k as int]);
            return false;
        }
        k += 1;
    }
    assert(s@.subrange(i as int, i + p.len()) =~= p@);
    true
}

/// First index at or after `from` where `p` occurs in `s`.
pub fn find_from_exec(s: &Vec<char>, p: &Vec<char>, from: usize) -> (r: Option<usize>)
    ensures
        r matches Some(k) ==> find_from(s@, p@, from as int) == Some(k as int),
        r is None ==> find_from(s@, p@, from as int) is None,
        r matches Some(k) ==> from <= k && k + p.len() <= s.len(),
{
    let mut i: usize = from;
    while i <= s.len() && p.len() <= s.len() - i
        invariant
            from <= i,
            find_from(s@, p@, from as int) == find_from(s@, p@, i as int),
        decreases s.len() + 1 - i,
    {
        if matches_at_exec(s, p, i) {
            return Some(i);
        }
        if i >= s.len() {
            assert(p@.len() == 0 ==> s@.subrange(i as int, i as int) =~= p@);
            return None;
        }
        i += 1;
    }
    None
}

/// `str::find` with a string pattern.
pub fn find_exec(s: &str, p: &str) -> (r: Option<usize>)
    ensures
        r matches Some(k) ==> find(s@, p@) == Some(k as int),
        r is None ==> find(s@, p@) is None,
{
    let vs = chars_of(s);
    let vp = chars_of(p);
    find_from_exec(&vs, &vp, 0)
}

/// `str::contains` with a string pattern.
pub fn contains_exec(s: &str, p: &str) -> (b: bool)
    ensures
        b == contains(s@, p@),
{
    find_exec(s, p).is_some()
}

/// `str::starts_with`.
pub fn starts_with_exec(s: &str, p: &str) -> (b: bool)
    ensures
        b == starts_with(s@, p@),
{
    let vs = chars_of(s);
    let vp = chars_of(p);
    matches_at_exec(&vs, &vp, 0)
}

/// `str::ends_with`.
pub fn ends_with_exec(s: &str, p: &str) -> (b: bool)
    ensures
        b == ends_with(s@, p@),
{
    let vs = chars_of(s);
    let vp = chars_of(p);
    if vp.len() > vs.len() {
        false
    } else {
        matches_at_exec(&vs, &vp, vs.len() - vp.len())
    }
}

/// Index of the first non-whitespace character at or after `i`.
fn ws_lead_exec(v: &Vec<char>, i: usize) -> (r: usize)
    requires
        i <= v.len(),
    ensures
        r == ws_lead(v@, i as int),
        i <= r <= v.len(),
{
    let mut k = i;
    while k < v.len() && is_whitespace(v[k])
        invariant
            i <= k <= v.len(),
            ws_lead(v@, i as int) == ws_lead(v@, k as int),
        decreases v.len() - k,
    {
        k += 1;
    }
    k
}

/// One past the last non-whitespace character before `j`.
fn ws_trail_exec(v: &Vec<char>, lo: usize, j: usize) -> (r: usize)
    requires
        lo <= j <= v.len(),
        ws_trail(v@, j as int) >= lo,
    ensures
        r == ws_trail(v@, j as int),
        lo <= r <= j,
{
    let mut k = j;
    while k > lo && is_whitespace(v[k - 1])
        invariant
            lo <= k <= j <= v.len(),
            ws_trail(v@, j as int) == ws_trail(v@, k as int),
        decreases k,
    {
        k -= 1;
    }
    if k > 0 && is_whitespace(v[k - 1]) {
        assert(ws_trail(v@, k as int) == ws_trail(v@, k - 1));
        proof {
            lemma_ws_trail_le(v@, (k - 1) as int);
        }
        assert(false);
    }
    k
}

/// `ws_trail` never moves right.
pub proof fn lemma_ws_trail_le(s: Seq<char>, j: int)
    ensures
        ws_trail(s, j) <= j,
    decreases j,
{
    if 0 < j <= s.len() && is_ws(s[j - 1]) {
        lemma_ws_trail_le(s, j - 1);
    }
}

/// `ws_trail` stops at or after `lo` when `s[lo]` is not whitespace.
pub proof fn lemma_ws_trail_ge(s: Seq<char>, lo: int, j: int)
    requires
        0 <= lo < j <= s.len(),
        !is_ws(s[lo]),
    ensures
        ws_trail(s, j) > lo,
    decreases j,
{
    if is_ws(s[j - 1]) {
        lemma_ws_trail_ge(s, lo, j - 1);
    }
}

/// The trimmed text of `s` after an index offset: trimming `s[a..]` after skipping
/// leading whitespace leaves the same trailing boundary.
proof fn lemma_ws_trail_shift(s: Seq<char>, a: int, j: int)
    requires
        0 <= a <= j <= s.len(),
        ws_trail(s, j) >= a,
    ensures
        ws_trail(s.subrange(a, s.len() as int), j - a) == ws_trail(s, j) - a,
    decreases j,
{
    let t = s.subrange(a, s.len() as int);
    if 0 < j && is_ws(s[j - 1]) {
        if j - 1 >= a {
            assert(t[j - a - 1] == s[j - 1]);
            lemma_ws_trail_shift(s, a, j - 1);
        } else {
            lemma_ws_trail_le(s, j - 1);
        }
    } else if j - a > 0 {
        assert(t[j - a - 1] == s[j - 1]);
    }
}

/// `str::trim`.
pub fn trim_exec(s: &str) -> (r: String)
    ensures
        r@ == trim(s@),
{
    let v = chars_of(s);
    let a = ws_lead_exec(&v, 0);
    let ghost t = v@.subrange(a as int, v.len() as int);
    if a == v.len() {
        assert(trim(s@) =~= Seq::<char>::empty());
        return String::new();
    }
    proof {
        lemma_ws_lead_stop(v@, 0);
        lemma_ws_trail_ge(v@, a as int, v.len() as int);
        lemma_ws_trail_shift(v@, a as int, v.len() as int);
    }
    let b = ws_trail_exec(&v, a, v.len());
    let r = string_of_range(&v, a, b);
    assert(trim_start(s@) == t);
    assert(trim_end(t) =~= v@.subrange(a as int, b as int));
    r
}

/// `ws_lead` stops on a non-whitespace character or at the end.
pub proof fn lemma_ws_lead_stop(s: Seq<char>, i: int)
    requires
        0 <= i <= s.len(),
    ensures
        i <= ws_lead(s, i) <= s.len(),
        ws_lead(s, i) < s.len() ==> !is_ws(s[ws_lead(s, i)]),
    decreases s.len() - i,
{
    if i < s.len() && is_ws(s[i]) {
        lemma_ws_lead_stop(s, i + 1);
    }
}

/// `find_from` finds an index at or after the start, where the pattern occurs.
pub proof fn lemma_find_from_bounds(s: Seq<char>, p: Seq<char>, i: int)
    ensures
        find_from(s, p, i) matches Some(k) ==> i <= k && matches_at(s, p, k),
    decreases s.len() + 1 - i,
{
    if i < 0 || i + p.len() > s.len() {
    } else if matches_at(s, p, i) {
    } else {
        lemma_find_from_bounds(s, p, i + 1);
    }
}

/// Where `find_from` finds nothing, the pattern occurs at no later index.
pub proof fn lemma_find_from_none(s: Seq<char>, p: Seq<char>, i: int, j: int)
    requires
        0 <= i <= j,
        find_from(s, p, i) is None,
    ensures
        !matches_at(s, p, j),
    decreases j - i,
{
    if i + p.len() > s.len() {
    } else if i < j {
        lemma_find_from_none(s, p, i + 1, j);
    }
}

/// `find_from` passes over indices where the pattern does not occur.
pub proof fn lemma_find_from_skip(s: Seq<char>, p: Seq<char>, i: int, k: int)
    requires
        0 <= i <= k,
        forall|j: int| i <= j < k ==> !#[trigger] matches_at(s, p, j),
    ensures
        find_from(s, p, i) == find_from(s, p, k),
    decreases k - i,
{
    if i < k && i + p.len() <= s.len() {
        lemma_find_from_skip(s, p, i + 1, k);
    }
}

/// Splitting `a`, a one-character separator and `b` once at that separator
/// gives back `a` and `b` when `a` does not hold the separator.
pub proof fn lemma_split_once_first(a: Seq<char>, sep: Seq<char>, b: Seq<char>)
    requires
        sep.len() == 1,
        !contains(a, sep),
    ensures
        split_once(a + sep + b, sep) == (a, Some(b)),
{
    let s = a + sep + b;
    assert forall|j: int| 0 <= j < a.len() implies !#[trigger] matches_at(s, sep, j) by {
        lemma_find_from_none(a, sep, 0, j);
        if matches_at(s, sep, j) {
            assert(s.subrange(j, j + 1) =~= a.subrange(j, j + 1));
            assert(matches_at(a, sep, j));
        }
    }
    lemma_find_from_skip(s, sep, 0, a.len() as int);
    assert(s.subrange(a.len() as int, a.len() + 1 as int) =~= sep);
    assert(matches_at(s, sep, a.len() as int));
    assert(find(s, sep) == Some(a.len() as int));
    assert(s.subrange(0, a.len() as int) =~= a);
    assert(s.subrange(a.len() + 1 as int, s.len() as int) =~= b);
}

/// `split` always gives at least one piece.
pub proof fn lemma_split_nonempty(s: Seq<char>, p: Seq<char>)
    ensures
        split(s, p).len() >= 1,
{
    lemma_split_scan_nonempty(s, p, 0, 0);
}

/// Every scan of `split` gives at least one piece.
pub proof fn lemma_split_scan_nonempty(s: Seq<char>, p: Seq<char>, start: int, i: int)
    ensures
        split_scan(s, p, start, i).len() >= 1,
    decreases s.len() - i,
{
    if p.len() == 0 || i < start || start < 0 || i + p.len() > s.len() {
    } else if matches_at(s, p, i) {
        lemma_split_scan_nonempty(s, p, i + p.len(), i + p.len());
    } else {
        lemma_split_scan_nonempty(s, p, start, i + 1);
    }
}

/// `str::split` with a non-empty string pattern.
pub fn split_exec(s: &str, p: &str) -> (r: Vec<String>)
    requires
        p@.len() > 0,
    ensures
        views(r@) == split(s@, p@),
{
    let v = chars_of(s);
    let vp = chars_of(p);
    let mut out: Vec<String> = Vec::new();
    let mut start: usize = 0;
    let mut i: usize = 0;
    while i <= v.len() && vp.len() <= v.len() - i
        invariant
            start <= i <= v.len(),
            vp@.len() > 0,
            v@ == s@,
            vp@ == p@,
            views(out@) + split_scan(v@, vp@, start as int, i as int) == split(s@, p@),
        decreases v.len() + 1 - i,
    {
        if matches_at_exec(&v, &vp, i) {
            let piece = string_of_range(&v, start, i);
            let ghost before = views(out@);
            out.push(piece);
            assert(views(out@) == before.push(piece@));
            assert(views(out@) + split_scan(v@, vp@, (i + vp.len()) as int, (i + vp.len()) as int)
                =~= before + split_scan(v@, vp@, start as int, i as int));
            i = i + vp.len();
            start = i;
        } else {
            i += 1;
        }
    }
    let last = string_of_range(&v, start, v.len());
    let ghost before = views(out@);
    out.push(last);
    assert(views(out@) =~= before + split_scan(v@, vp@, start as int, i as int));
    out
}

/// `str::splitn(2, p)`: the text before the first `p`, and the rest after it if there is one.
pub fn split_once_exec(s: &str, p: &str) -> (r: (String, Option<String>))
    ensures
        r.0@ == split_once(s@, p@).0,
        match split_once(s@, p@).1 {
            Some(t) => r.1 matches Some(u) && u@ == t,
            None => r.1 is None,
        },
{
    let v = chars_of(s);
    let vp = chars_of(p);
    let found = find_from_exec(&v, &vp, 0);
    assert(find(s@, p@) == find_from(v@, vp@, 0));
    match found {
        Some(k) => {
            let a = string_of_range(&v, 0, k);
            let b = string_of_range(&v, k + vp.len(), v.len());
            (a, Some(b))
        },
        None => (owned(s), None),
    }
}

/// `str::lines`.
pub fn lines_exec(s: &str) -> (r: Vec<String>)
    ensures
        views(r@) == lines(s@),
{
    let v = chars_of(s);
    let mut out: Vec<String> = Vec::new();
    let mut start: usize = 0;
    let mut i: usize = 0;
    while i < v.len()
        invariant
            start <= i <= v.len(),
            v@ == s@,
            views(out@) + lines_scan(v@, start as int, i as int) == lines(s@),
        decreases v.len() - i,
    {
        if v[i] == '\n' {
            let end = if i > start && v[i - 1] == '\r' {
                i - 1
            } else {
                i
            };
            let piece = string_of_range(&v, start, end);
            assert(piece@ == strip_cr(v@.subrange(start as int, i as int)));
            let ghost before = views(out@);
            out.push(piece);
            assert(views(out@) + lines_scan(v@, (i + 1) as int, (i + 1) as int) =~= before
                + lines_scan(v@, start as int, i as int));
            i += 1;
            start = i;
        } else {
            i += 1;
        }
    }
    if start < v.len() {
        let last = string_of_range(&v, start, v.len());
        let ghost before = views(out@);
        out.push(last);
        assert(views(out@) =~= before + lines_scan(v@, start as int, i as int));
    } else {
        assert(views(out@) =~= views(out@) + lines_scan(v@, start as int, i as int));
    }
    out
}

/// `str::split_whitespace`.
pub fn split_whitespace_exec(s: &str) -> (r: Vec<String>)
    ensures
        views(r@) == split_whitespace(s@),
{
    let v = chars_of(s);
    let mut out: Vec<String> = Vec::new();
    let mut start: usize = 0;
    let mut i: usize = 0;
    while i < v.len()
        invariant
            start <= i <= v.len(),
            v@ == s@,
            views(out@) + words_scan(v@, start as int, i as int) == split_whitespace(s@),
        decreases v.len() - i,
    {
        if is_whitespace(v[i]) {
            let ghost before = views(out@);
            if start < i {
                let w = string_of_range(&v, start, i);
                out.push(w);
            }
            assert(views(out@) == before + word_if_any(v@, start as int, i as int));
            assert(views(out@) + words_scan(v@, (i + 1) as int, (i + 1) as int) =~= before
                + words_scan(v@, start as int, i as int));
            i += 1;
            start = i;
        } else {
            i += 1;
        }
    }
    let ghost before = views(out@);
    if start < v.len() {
        let w = string_of_range(&v, start, v.len());
        out.push(w);
    }
    assert(views(out@) =~= before + words_scan(v@, start as int, i as int));
    out
}

/// `str::trim_start_matches` with a non-empty string pattern.
pub fn trim_start_matches_exec(s: &str, p: &str) -> (r: String)
    ensures
        r@ == trim_start_matches(s@, p@),
{
    let v = chars_of(s);
    let vp = chars_of(p);
    let mut i: usize = 0;
    if vp.len() > 0 {
        while i <= v.len() && matches_at_exec(&v, &vp, i)
            invariant
                i <= v.len(),
                vp@.len() > 0,
                prefix_run(v@, vp@, 0) == prefix_run(v@, vp@, i as int),
            decreases v.len() - i,
        {
            i = i + vp.len();
        }
    }
    string_of_range(&v, i, v.len())
}

/// `str::trim_end_matches` with a character pattern.
pub fn trim_end_char_exec(s: &str, c: char) -> (r: String)
    ensures
        r@ == trim_end_char(s@, c),
{
    let v = chars_of(s);
    let mut j: usize = v.len();
    while j > 0 && v[j - 1] == c
        invariant
            j <= v.len(),
            char_trail(v@, c, v.len() as int) == char_trail(v@, c, j as int),
        decreases j,
    {
        j -= 1;
    }
    string_of_range(&v, 0, j)
}

/// `str::trim_matches` with a character pattern.
pub fn trim_char_exec(s: &str, c: char) -> (r: String)
    ensures
        r@ == trim_char(s@, c),
{
    let v = chars_of(s);
    let mut a: usize = 0;
    while a < v.len() && v[a] == c
        invariant
            a <= v.len(),
            char_lead(v@, c, 0) == char_lead(v@, c, a as int),
        decreases v.len() - a,
    {
        a += 1;
    }
    let mut b: usize = v.len();
    while b > 0 && v[b - 1] == c
        invariant
            b <= v.len(),
            char_trail(v@, c, v.len() as int) == char_trail(v@, c, b as int),
        decreases b,
    {
        b -= 1;
    }
    if a < b {
        string_of_range(&v, a, b)
    } else {
        String::new()
    }
}

/// `str::rfind` with a character pattern.
pub fn rfind_char_exec(s: &str, c: char) -> (r: Option<usize>)
    ensures
        r matches Some(k) ==> rfind_char(s@, c) == Some(k as int) && k < s@.len(),
        r is None ==> rfind_char(s@, c) is None,
{
    let v = chars_of(s);
    let mut j: usize = v.len();
    while j > 0
        invariant
            j <= v.len(),
            v@ == s@,
            rfind_char(s@, c) == last_from(v@, c, j as int),
        decreases j,
    {
        if v[j - 1] == c {
            return Some(j - 1);
        }
        j -= 1;
    }
    None
}

/// `str::replace` with a character pattern.
pub fn replace_char_exec(s: &str, c: char, r: &str) -> (out: String)
    ensures
        out@ == replace_char(s@, c, r@),
{
    let v = chars_of(s);
    let vr = chars_of(r);
    let mut out: Vec<char> = Vec::new();
    let mut i: usize = 0;
    while i < v.len()
        invariant
            i <= v.len(),
            v@ == s@,
            vr@ == r@,
            out@ + replace_from(v@, c, vr@, i as int) == replace_char(s@, c, r@),
        decreases v.len() - i,
    {
        let ghost before = out@;
        if v[i] == c {
            let mut k: usize = 0;
            while k < vr.len()
                invariant
                    k <= vr.len(),
                    out@ == before + vr@.take(k as int),
                decreases vr.len() - k,
            {
                out.push(vr[k]);
                k += 1;
                assert(out@ == before + vr@.take(k as int));
            }
            assert(vr@.take(vr.len() as int) == vr@);
        } else {
            out.push(v[i]);
        }
        assert(out@ + replace_from(v@, c, vr@, (i + 1) as int) =~= before + replace_from(
            v@,
            c,
            vr@,
            i as int,
        ));
        i += 1;
    }
    assert(out@ + replace_from(v@, c, vr@, i as int) =~= out@);
    string_of(&out)
}

/// `[String]::join`.
pub fn join_exec(parts: &Vec<String>, sep: &str) -> (r: String)
    ensures
        r@ == join(views(parts@), sep@),
{
    let mut r = String::new();
    let mut i: usize = 0;
    while i < parts.len()
        invariant
            i <= parts.len(),
            r@ == join(views(parts@).take(i as int), sep@),
        decreases parts.len() - i,
    {
        let ghost prev = views(parts@).take(i as int);
        if i == 0 {
            r = owned(parts[i].as_str());
        } else {
            let with_sep = concat(r.as_str(), sep);
            r = concat(with_sep.as_str(), parts[i].as_str());
        }
        assert(views(parts@).take((i + 1) as int).drop_last() =~= prev);
        i += 1;
    }
    assert(views(parts@).take(parts.len() as int) =~= views(parts@));
    r
}

} // verus!
