//! Character-level string operations used throughout the gateway, each with
//! its meaning stated over `Seq<char>`.
use vstd::prelude::*;

verus! {

/// ASCII lower-casing of one character; other characters are unchanged.
pub open spec fn ascii_lower(c: char) -> char {
    if 'A' <= c && c <= 'Z' {
        ((c as u32) + 32) as char
    } else {
        c
    }
}

/// The ASCII lower-cased form of a character sequence.
pub open spec fn ascii_lower_seq(s: Seq<char>) -> Seq<char> {
    Seq::new(s.len(), |i: int| ascii_lower(s[i]))
}

/// Equality up to ASCII case, as `str::eq_ignore_ascii_case` compares.
pub open spec fn eq_ignore_ascii_case_spec(a: Seq<char>, b: Seq<char>) -> bool {
    a.len() == b.len() && forall|i: int| 0 <= i < a.len() ==> ascii_lower(a[i]) == ascii_lower(b[i])
}

/// `p` is a prefix of `s`.
pub open spec fn starts_with_spec(s: Seq<char>, p: Seq<char>) -> bool {
    p.len() <= s.len() && s.take(p.len() as int) == p
}

/// `p` is a suffix of `s`.
pub open spec fn ends_with_spec(s: Seq<char>, p: Seq<char>) -> bool {
    p.len() <= s.len() && s.skip(s.len() - p.len()) == p
}

/// The pieces of `s` between occurrences of `sep`, as `str::split` yields
/// them: there is always at least one piece, and empty pieces are kept.
pub open spec fn split_spec(s: Seq<char>, sep: char) -> Seq<Seq<char>>
    decreases s.len(),
{
    if s.len() == 0 {
        seq![Seq::<char>::empty()]
    } else if s.last() == sep {
        split_spec(s.drop_last(), sep).push(Seq::<char>::empty())
    } else {
        let p = split_spec(s.drop_last(), sep);
        p.update(p.len() - 1, p.last().push(s.last()))
    }
}

/// The first index at or after `lo` and before `n` where `p` holds.
pub open spec fn first_where(lo: int, n: int, p: spec_fn(int) -> bool) -> Option<int>
    decreases n - lo,
{
    if lo >= n {
        None
    } else if p(lo) {
        Some(lo)
    } else {
        first_where(lo + 1, n, p)
    }
}

/// The predicate "position `i` of `s` holds `c`".
pub open spec fn char_at_is(s: Seq<char>, c: char) -> spec_fn(int) -> bool {
    |i: int| s[i] == c
}

/// The predicate "position `i` of `s` is not whitespace".
pub open spec fn not_space_at(s: Seq<char>) -> spec_fn(int) -> bool {
    |i: int| !is_whitespace_spec(s[i])
}

/// The first index of `c` in `s`.
pub open spec fn index_of_spec(s: Seq<char>, c: char) -> Option<int> {
    first_where(0, s.len() as int, char_at_is(s, c))
}

/// `str::split_once`: the parts before and after the first `c`.
pub open spec fn split_once_spec(s: Seq<char>, c: char) -> Option<(Seq<char>, Seq<char>)> {
    match index_of_spec(s, c) {
        Some(i) => Some((s.take(i), s.skip(i + 1))),
        None => None,
    }
}

/// The characters with the Unicode `White_Space` property, which
/// `char::is_whitespace` (and so `str::trim`) recognizes.
pub open spec fn is_whitespace_spec(c: char) -> bool {
    ||| '\u{9}' <= c && c <= '\u{d}'
    ||| c == ' '
    ||| c == '\u{85}'
    ||| c == '\u{a0}'
    ||| c == '\u{1680}'
    ||| '\u{2000}' <= c && c <= '\u{200a}'
    ||| c == '\u{2028}'
    ||| c == '\u{2029}'
    ||| c == '\u{202f}'
    ||| c == '\u{205f}'
    ||| c == '\u{3000}'
}

/// The start of `s` after its leading whitespace.
pub open spec fn trim_start_index(s: Seq<char>) -> int {
    match first_where(0, s.len() as int, not_space_at(s)) {
        Some(i) => i,
        None => s.len() as int,
    }
}

/// The end of `s` before its trailing whitespace (the scan runs backward).
pub open spec fn trim_end_index(s: Seq<char>) -> int
    decreases s.len(),
{
    if s.len() == 0 {
        0
    } else if is_whitespace_spec(s.last()) {
        trim_end_index(s.drop_last())
    } else {
        s.len() as int
    }
}

/// `str::trim`: `s` without leading and trailing whitespace.
pub open spec fn trim_spec(s: Seq<char>) -> Seq<char> {
    let a = trim_start_index(s);
    let b = trim_end_index(s);
    if a < b {
        s.subrange(a, b)
    } else {
        Seq::<char>::empty()
    }
}

/// The result of `str::to_lowercase` (Unicode lower-casing) on `s`.
pub uninterp spec fn unicode_lower(s: Seq<char>) -> Seq<char>;

/// `str::to_lowercase`: the contract claims the result is the Unicode
/// lower-casing of `s`, a function of `s` alone.
#[verifier::external_body]
pub(crate) fn to_lowercase(s: &str) -> (r: String)
    ensures
        r@ == unicode_lower(s@),
{
    s.to_lowercase()
}

/// Appends one character to a string (std's `String::push`).
#[verifier::external_body]
pub(crate) fn string_push(s: &mut String, c: char)
    ensures
        final(s)@ == old(s)@.push(c),
{
    s.push(c);
}

/// The characters of a string slice, in order.
pub fn chars_of(s: &str) -> (v: Vec<char>)
    ensures
        v@ == s@,
{
    let mut v: Vec<char> = Vec::new();
    for c in it: s.chars()
        invariant
            v@ == it.seq().take(it.index()),
    {
        v.push(c);
    }
    v
}

/// Builds a string from a sequence of characters.
pub fn string_of(cs: &[char]) -> (s: String)
    ensures
        s@ == cs@,
{
    let mut s = String::new();
    let mut i: usize = 0;
    while i < cs.len()
        invariant
            i <= cs.len(),
            s@ == cs@.take(i as int),
        decreases cs.len() - i,
    {
        string_push(&mut s, cs[i]);
        assert(cs@.take(i + 1) == cs@.take(i as int).push(cs@[i as int]));
        i = i + 1;
    }
    assert(cs@.take(cs.len() as int) == cs@);
    s
}

/// Appends the characters of `cs` to `s`.
pub fn push_all(s: &mut String, cs: &[char])
    ensures
        final(s)@ == old(s)@ + cs@,
{
    let mut i: usize = 0;
    while i < cs.len()
        invariant
            i <= cs.len(),
            s@ == old(s)@ + cs@.take(i as int),
        decreases cs.len() - i,
    {
        string_push(s, cs[i]);
        assert(cs@.take(i + 1) == cs@.take(i as int).push(cs@[i as int]));
        i = i + 1;
    }
    assert(cs@.take(cs.len() as int) == cs@);
}

/// ASCII lower-casing of one character.
pub fn to_ascii_lower(c: char) -> (r: char)
    ensures
        r == ascii_lower(c),
{
    if 'A' <= c && c <= 'Z' {
        let u: u8 = c as u8;
        let l: u8 = u + 32;
        l as char
    } else {
        c
    }
}

/// Character sequences are equal.
pub fn seq_eq(a: &[char], b: &[char]) -> (r: bool)
    ensures
        r == (a@ == b@),
{
    if a.len() != b.len() {
        return false;
    }
    let mut i: usize = 0;
    while i < a.len()
        invariant
            a.len() == b.len(),
            i <= a.len(),
            forall|j: int| 0 <= j < i ==> a@[j] == b@[j],
        decreases a.len() - i,
    {
        if a[i] != b[i] {
            return false;
        }
        i = i + 1;
    }
    assert(a@ =~= b@);
    true
}

/// Equality up to ASCII case (`str::eq_ignore_ascii_case`).
pub fn eq_ignore_ascii_case(a: &[char], b: &[char]) -> (r: bool)
    ensures
        r == eq_ignore_ascii_case_spec(a@, b@),
{
    if a.len() != b.len() {
        return false;
    }
    let mut i: usize = 0;
    while i < a.len()
        invariant
            a.len() == b.len(),
            i <= a.len(),
            forall|j: int| 0 <= j < i ==> ascii_lower(a@[j]) == ascii_lower(b@[j]),
        decreases a.len() - i,
    {
        if to_ascii_lower(a[i]) != to_ascii_lower(b[i]) {
            return false;
        }
        i = i + 1;
    }
    true
}

/// `s` starts with `p`.
pub fn starts_with(s: &[char], p: &[char]) -> (r: bool)
    ensures
        r == starts_with_spec(s@, p@),
{
    if p.len() > s.len() {
        return false;
    }
    let mut i: usize = 0;
    while i < p.len()
        invariant
            p.len() <= s.len(),
            i <= p.len(),
            forall|j: int| 0 <= j < i ==> s@[j] == p@[j],
        decreases p.len() - i,
    {
        if s[i] != p[i] {
            assert(s@.take(p.len() as int)[i as int] != p@[i as int]);
            return false;
        }
        i = i + 1;
    }
    assert(s@.take(p.len() as int) =~= p@);
    true
}

/// `s` ends with `p`.
pub fn ends_with(s: &[char], p: &[char]) -> (r: bool)
    ensures
        r == ends_with_spec(s@, p@),
{
    if p.len() > s.len() {
        return false;
    }
    let off: usize = s.len() - p.len();
    let mut i: usize = 0;
    while i < p.len()
        invariant
            p.len() <= s.len(),
            off == s.len() - p.len(),
            i <= p.len(),
            forall|j: int| 0 <= j < i ==> s@[off + j] == p@[j],
        decreases p.len() - i,
    {
        if s[off + i] != p[i] {
            assert(s@.skip(off as int)[i as int] != p@[i as int]);
            return false;
        }
        i = i + 1;
    }
    assert(s@.skip(off as int) =~= p@);
    true
}

/// Copies `s[from..to]`.
pub fn slice_chars(s: &[char], from: usize, to: usize) -> (r: Vec<char>)
    requires
        from <= to <= s.len(),
    ensures
        r@ == s@.subrange(from as int, to as int),
{
    let mut r: Vec<char> = Vec::new();
    let mut i: usize = from;
    while i < to
        invariant
            from <= i <= to <= s.len(),
            r@ == s@.subrange(from as int, i as int),
        decreases to - i,
    {
        r.push(s[i]);
        assert(s@.subrange(from as int, i + 1) == s@.subrange(from as int, i as int).push(s@[i as int]));
        i = i + 1;
    }
    r
}

/// A found index lies in the searched range and satisfies the predicate.
pub proof fn lemma_first_where_bounds(lo: int, n: int, p: spec_fn(int) -> bool)
    ensures
        first_where(lo, n, p) matches Some(i) ==> lo <= i < n && p(i),
    decreases n - lo,
{
    if lo < n && !p(lo) {
        lemma_first_where_bounds(lo + 1, n, p);
    }
}

/// The first index of `c` in `s`.
pub fn index_of(s: &[char], c: char) -> (r: Option<usize>)
    ensures
        match r {
            Some(i) => index_of_spec(s@, c) == Some(i as int),
            None => index_of_spec(s@, c) is None,
        },
{
    let ghost p = char_at_is(s@, c);
    let mut i: usize = 0;
    while i < s.len()
        invariant
            i <= s.len(),
            p == char_at_is(s@, c),
            first_where(0, s.len() as int, p) == first_where(i as int, s.len() as int, p),
        decreases s.len() - i,
    {
        if s[i] == c {
            return Some(i);
        }
        i = i + 1;
    }
    None
}

/// `str::split_once`.
pub fn split_once(s: &[char], c: char) -> (r: Option<(Vec<char>, Vec<char>)>)
    ensures
        match r {
            Some((a, b)) => split_once_spec(s@, c) == Some((a@, b@)),
            None => split_once_spec(s@, c) is None,
        },
{
    let n = s.len();
    match index_of(s, c) {
        Some(i) => {
            proof {
                lemma_first_where_bounds(0, s@.len() as int, char_at_is(s@, c));
                assert(first_where(0, s@.len() as int, char_at_is(s@, c)) == Some(i as int));
                assert(i < s@.len());
            }
            let a = slice_chars(s, 0, i);
            let b = slice_chars(s, i + 1, n);
            assert(a@ =~= s@.take(i as int));
            assert(b@ =~= s@.skip(i + 1));
            Some((a, b))
        },
        None => None,
    }
}

/// `str::split` on one separator character.
pub fn split(s: &[char], sep: char) -> (r: Vec<Vec<char>>)
    ensures
        r@.len() == split_spec(s@, sep).len(),
        forall|k: int| 0 <= k < r@.len() ==> #[trigger] r@[k]@ == split_spec(s@, sep)[k],
{
    let mut r: Vec<Vec<char>> = Vec::new();
    r.push(Vec::new());
    let mut i: usize = 0;
    assert(s@.take(0) =~= Seq::<char>::empty());
    while i < s.len()
        invariant
            i <= s.len(),
            r@.len() == split_spec(s@.take(i as int), sep).len(),
            r@.len() >= 1,
            forall|k: int| 0 <= k < r@.len() ==> #[trigger] r@[k]@ == split_spec(s@.take(i as int), sep)[k],
        decreases s.len() - i,
    {
        let ghost before = s@.take(i as int);
        assert(s@.take(i + 1).drop_last() =~= before);
        assert(s@.take(i + 1).last() == s@[i as int]);
        if s[i] == sep {
            r.push(Vec::new());
        } else {
            let last = r.len() - 1;
            let mut piece = r.pop().unwrap();
            piece.push(s[i]);
            r.push(piece);
            assert(r@.len() == split_spec(s@.take(i + 1), sep).len());
        }
        i = i + 1;
    }
    assert(s@.take(s.len() as int) =~= s@);
    r
}

/// `char::is_whitespace`.
pub fn is_whitespace(c: char) -> (r: bool)
    ensures
        r == is_whitespace_spec(c),
{
    ('\u{9}' <= c && c <= '\u{d}') || c == ' ' || c == '\u{85}' || c == '\u{a0}' || c == '\u{1680}'
        || ('\u{2000}' <= c && c <= '\u{200a}') || c == '\u{2028}' || c == '\u{2029}' || c
        == '\u{202f}' || c == '\u{205f}' || c == '\u{3000}'
}

/// `str::trim`.
pub fn trim(s: &[char]) -> (r: Vec<char>)
    ensures
        r@ == trim_spec(s@),
{
    let ghost p = not_space_at(s@);
    let mut a: usize = 0;
    while a < s.len()
        invariant
            a <= s.len(),
            p == not_space_at(s@),
            first_where(0, s.len() as int, p) == first_where(a as int, s.len() as int, p),
        ensures
            a <= s.len(),
            first_where(0, s.len() as int, p) == first_where(a as int, s.len() as int, p),
            a < s.len() ==> p(a as int),
        decreases s.len() - a,
    {
        if !is_whitespace(s[a]) {
            break;
        }
        a = a + 1;
    }
    assert(trim_start_index(s@) == a);
    let mut b: usize = s.len();
    assert(s@.take(s.len() as int) =~= s@);
    while b > 0
        invariant
            b <= s.len(),
            trim_end_index(s@) == trim_end_index(s@.take(b as int)),
        ensures
            b <= s.len(),
            trim_end_index(s@) == trim_end_index(s@.take(b as int)),
            b > 0 ==> !is_whitespace_spec(s@[b - 1]),
        decreases b,
    {
        assert(s@.take(b as int).drop_last() =~= s@.take(b - 1));
        if !is_whitespace(s[b - 1]) {
            break;
        }
        b = b - 1;
    }
    assert(s@.take(s.len() as int) =~= s@);
    if b > 0 {
        assert(s@.take(b as int).last() == s@[b - 1]);
    }
    assert(trim_end_index(s@) == b);
    if a < b {
        slice_chars(s, a, b)
    } else {
        Vec::new()
    }
}


/// The character of a decimal digit.
pub open spec fn digit_char(d: nat) -> char {
    (48 + d) as char
}

/// The decimal representation of `n`, without leading zeros.
pub open spec fn decimal_spec(n: nat) -> Seq<char>
    decreases n,
{
    if n < 10 {
        seq![digit_char(n)]
    } else {
        decimal_spec(n / 10).push(digit_char(n % 10))
    }
}

/// Appends the decimal representation of `n` to `s`.
pub fn push_decimal(s: &mut String, n: u64)
    ensures
        final(s)@ == old(s)@ + decimal_spec(n as nat),
    decreases n,
{
    if n >= 10 {
        push_decimal(s, n / 10);
    }
    let d: u8 = (n % 10) as u8;
    let c: char = (48u8 + d) as char;
    assert(c == digit_char((n % 10) as nat));
    string_push(s, c);
    assert(decimal_spec(n as nat) == if n < 10 { seq![digit_char(n as nat)] } else { decimal_spec((n / 10) as nat).push(digit_char((n % 10) as nat)) });
}


/// The predicate "`p` occurs in `s` starting at position `i`".
pub open spec fn occurs_at(s: Seq<char>, p: Seq<char>) -> spec_fn(int) -> bool {
    |i: int| 0 <= i && i + p.len() <= s.len() && s.subrange(i, i + p.len() as int) == p
}

/// The first position where `p` occurs in `s`.
pub open spec fn find_spec(s: Seq<char>, p: Seq<char>) -> Option<int> {
    first_where(0, s.len() + 1int, occurs_at(s, p))
}

/// `str::split_once` on a pattern: the parts before and after the first
/// occurrence of `p`.
pub open spec fn split_once_str_spec(s: Seq<char>, p: Seq<char>) -> Option<(Seq<char>, Seq<char>)> {
    match find_spec(s, p) {
        Some(i) => Some((s.take(i), s.skip(i + p.len()))),
        None => None,
    }
}

/// Whether `p` occurs at position `i` of `s`.
fn occurs_at_exec(s: &[char], p: &[char], i: usize) -> (r: bool)
    ensures
        r == occurs_at(s@, p@)(i as int),
{
    if i > s.len() || p.len() > s.len() - i {
        return false;
    }
    let mut k: usize = 0;
    while k < p.len()
        invariant
            i + p.len() <= s.len(),
            k <= p.len(),
            forall|j: int| 0 <= j < k ==> s@[i + j] == p@[j],
        decreases p.len() - k,
    {
        if s[i + k] != p[k] {
            assert(s@.subrange(i as int, i + p.len())[k as int] != p@[k as int]);
            return false;
        }
        k = k + 1;
    }
    assert(s@.subrange(i as int, i + p.len()) =~= p@);
    true
}

/// The first position where `p` occurs in `s` (`str::find`).
pub fn find_str(s: &[char], p: &[char]) -> (r: Option<usize>)
    ensures
        match r {
            Some(i) => find_spec(s@, p@) == Some(i as int),
            None => find_spec(s@, p@) is None,
        },
{
    let ghost pr = occurs_at(s@, p@);
    let mut i: usize = 0;
    while i < s.len()
        invariant
            i <= s.len(),
            pr == occurs_at(s@, p@),
            first_where(0, s.len() + 1int, pr) == first_where(i as int, s.len() + 1int, pr),
        decreases s.len() - i,
    {
        if occurs_at_exec(s, p, i) {
            return Some(i);
        }
        i = i + 1;
    }
    assert(first_where(i + 1, s.len() + 1int, pr) is None);
    if occurs_at_exec(s, p, i) {
        Some(i)
    } else {
        None
    }
}

/// `str::split_once` on a pattern.
pub fn split_once_str(s: &[char], p: &[char]) -> (r: Option<(Vec<char>, Vec<char>)>)
    ensures
        match r {
            Some((a, b)) => split_once_str_spec(s@, p@) == Some((a@, b@)),
            None => split_once_str_spec(s@, p@) is None,
        },
{
    let pl = p.len();
    let sl = s.len();
    match find_str(s, p) {
        Some(i) => {
            proof {
                lemma_first_where_bounds(0, s@.len() + 1int, occurs_at(s@, p@));
                assert(occurs_at(s@, p@)(i as int));
                assert(i + p@.len() <= s@.len());
            }
            let a = slice_chars(s, 0, i);
            assert(i + pl <= sl);
            let b = slice_chars(s, i + pl, sl);
            assert(a@ =~= s@.take(i as int));
            assert(b@ =~= s@.skip(i + p@.len()));
            Some((a, b))
        },
        None => None,
    }
}



/// ASCII lower-casing of one byte.
pub open spec fn ascii_lower_byte(b: u8) -> u8 {
    if 65 <= b && b <= 90 {
        (b + 32) as u8
    } else {
        b
    }
}

/// Byte strings equal up to ASCII case (`<[u8]>::eq_ignore_ascii_case`).
pub open spec fn bytes_eq_ignore_ascii_case_spec(a: Seq<u8>, b: Seq<u8>) -> bool {
    a.len() == b.len() && forall|i: int| 0 <= i < a.len() ==> ascii_lower_byte(a[i]) == ascii_lower_byte(b[i])
}

/// `<[u8]>::eq_ignore_ascii_case`.
pub fn bytes_eq_ignore_ascii_case(a: &[u8], b: &[u8]) -> (r: bool)
    ensures
        r == bytes_eq_ignore_ascii_case_spec(a@, b@),
{
    if a.len() != b.len() {
        return false;
    }
    let mut i: usize = 0;
    while i < a.len()
        invariant
            a.len() == b.len(),
            i <= a.len(),
            forall|j: int| 0 <= j < i ==> ascii_lower_byte(a@[j]) == ascii_lower_byte(b@[j]),
        decreases a.len() - i,
    {
        let x: u8 = a[i];
        let y: u8 = b[i];
        let xl: u8 = if 65 <= x && x <= 90 { x + 32 } else { x };
        let yl: u8 = if 65 <= y && y <= 90 { y + 32 } else { y };
        if xl != yl {
            return false;
        }
        i = i + 1;
    }
    true
}


/// `str::replace`: every occurrence of `p`, from left to right and not
/// overlapping, replaced by `r` (a pattern must not be empty).
pub open spec fn replace_spec(s: Seq<char>, p: Seq<char>, r: Seq<char>) -> Seq<char>
    decreases s.len(),
{
    if s.len() == 0 || p.len() == 0 {
        s
    } else if starts_with_spec(s, p) {
        r + replace_spec(s.skip(p.len() as int), p, r)
    } else {
        seq![s[0]] + replace_spec(s.skip(1), p, r)
    }
}

/// `str::replace` with a non-empty pattern.
pub fn replace_str(s: &str, p: &str, r: &str) -> (out: String)
    requires
        p@.len() > 0,
    ensures
        out@ == replace_spec(s@, p@, r@),
{
    let sc = chars_of(s);
    let pc = chars_of(p);
    let rc = chars_of(r);
    let mut out = String::new();
    let mut i: usize = 0;
    assert(sc@.skip(0) =~= sc@);
    assert(out@ + replace_spec(sc@, pc@, rc@) =~= replace_spec(sc@, pc@, rc@));
    while i < sc.len()
        invariant
            sc@ == s@,
            pc@ == p@,
            rc@ == r@,
            pc@.len() > 0,
            i <= sc@.len(),
            out@ + replace_spec(sc@.skip(i as int), pc@, rc@) == replace_spec(s@, p@, r@),
        decreases sc.len() - i,
    {
        let rest = slice_chars(sc.as_slice(), i, sc.len());
        assert(rest@ =~= sc@.skip(i as int));
        if starts_with(rest.as_slice(), pc.as_slice()) {
            push_all(&mut out, rc.as_slice());
            proof {
                assert(sc@.skip(i as int).skip(pc@.len() as int) =~= sc@.skip(i + pc@.len()));
                assert(out@ + replace_spec(sc@.skip(i + pc@.len()), pc@, rc@) =~= replace_spec(s@, p@, r@));
            }
            i = i + pc.len();
        } else {
            string_push(&mut out, sc[i]);
            proof {
                assert(sc@.skip(i as int).skip(1) =~= sc@.skip(i + 1));
                assert(out@ + replace_spec(sc@.skip(i + 1), pc@, rc@) =~= replace_spec(s@, p@, r@));
            }
            i = i + 1;
        }
    }
    assert(sc@.skip(i as int) =~= Seq::<char>::empty());
    assert(out@ + Seq::<char>::empty() =~= out@);
    out
}


/// The ASCII lower-cased copy of a string.
pub fn ascii_lower_string(s: &str) -> (r: String)
    ensures
        r@ == ascii_lower_seq(s@),
{
    let c = chars_of(s);
    let mut out = String::new();
    let mut i: usize = 0;
    while i < c.len()
        invariant
            i <= c@.len(),
            c@ == s@,
            out@ == ascii_lower_seq(s@).take(i as int),
        decreases c.len() - i,
    {
        string_push(&mut out, to_ascii_lower(c[i]));
        assert(ascii_lower_seq(s@).take(i + 1) =~= ascii_lower_seq(s@).take(i as int).push(ascii_lower(c@[i as int])));
        i = i + 1;
    }
    assert(ascii_lower_seq(s@).take(c@.len() as int) =~= ascii_lower_seq(s@));
    out
}

/// Whether `c` is an ASCII decimal digit.
pub open spec fn is_digit_char(c: char) -> bool {
    48 <= (c as u32) <= 57
}

/// The value of a string of decimal digits.
pub open spec fn digits_value(s: Seq<char>) -> nat
    decreases s.len(),
{
    if s.len() == 0 {
        0
    } else {
        digits_value(s.drop_last()) * 10 + ((s.last() as u32) - 48) as nat
    }
}

/// The string without a leading `+`, if it has one.
pub open spec fn sign_stripped(s: Seq<char>) -> Seq<char> {
    if s.len() > 0 && s[0] == '+' {
        s.drop_first()
    } else {
        s
    }
}

/// Every character of `d` is a decimal digit.
pub open spec fn all_digits(d: Seq<char>) -> bool {
    forall|i: int| 0 <= i < d.len() ==> is_digit_char(#[trigger] d[i])
}

/// What `str::parse::<u16>` accepts: an optional `+`, then one or more
/// decimal digits whose value fits in 16 bits.
pub open spec fn u16_text_value(s: Seq<char>) -> Option<u16> {
    let d = sign_stripped(s);
    if d.len() > 0 && all_digits(d) && digits_value(d) <= 65535 {
        Some(digits_value(d) as u16)
    } else {
        None
    }
}

/// Parses a decimal `u16` as `str::parse::<u16>` does.
pub fn parse_u16(s: &str) -> (r: Option<u16>)
    ensures
        r == u16_text_value(s@),
{
    let cs = chars_of(s);
    let mut start: usize = 0;
    if cs.len() > 0 && cs[0] == '+' {
        start = 1;
    }
    let ghost d = cs@.subrange(start as int, cs.len() as int);
    proof {
        if cs@.len() > 0 && cs@[0] == '+' {
            assert(d =~= s@.drop_first());
        } else {
            assert(d =~= s@);
        }
    }
    if start == cs.len() {
        return None;
    }
    let mut i: usize = start;
    let mut acc: u32 = 0;
    while i < cs.len()
        invariant
            start <= i <= cs.len(),
            start < cs.len(),
            cs@ == s@,
            d == cs@.subrange(start as int, cs.len() as int),
            d == sign_stripped(s@),
            forall|k: int| start <= k < i ==> is_digit_char(#[trigger] cs@[k]),
            acc == (if digits_value(cs@.subrange(start as int, i as int)) <= 65536 {
                digits_value(cs@.subrange(start as int, i as int))
            } else {
                65536
            }),
        decreases cs.len() - i,
    {
        let c = cs[i];
        let cv: u32 = c as u32;
        if cv < 48 || cv > 57 {
            proof {
                assert(d[i - start] == c);
                assert(!is_digit_char(d[i - start]));
            }
            return None;
        }
        let dv: u32 = cv - 48;
        proof {
            assert(cs@.subrange(start as int, i + 1).drop_last() =~= cs@.subrange(start as int, i as int));
            assert(cs@.subrange(start as int, i + 1).last() == c);
        }
        if acc >= 65536 {
            acc = 65536;
        } else {
            let n: u32 = acc * 10 + dv;
            acc = if n > 65536 { 65536 } else { n };
        }
        i = i + 1;
    }
    proof {
        assert(cs@.subrange(start as int, i as int) =~= d);
        assert forall|k: int| 0 <= k < d.len() implies is_digit_char(#[trigger] d[k]) by {
            assert(d[k] == cs@[start + k]);
        }
    }
    if acc <= 65535 {
        Some(acc as u16)
    } else {
        None
    }
}

} // verus!
