//! Character and string helpers shared by the parsers of this crate.
use vstd::prelude::*;

verus! {

/// Unicode `White_Space` property, as `char::is_whitespace` defines it.
pub open spec fn is_ws(c: char) -> bool {
    let u = c as u32;
    ||| (0x9 <= u && u <= 0xD)
    ||| u == 0x20
    ||| u == 0x85
    ||| u == 0xA0
    ||| u == 0x1680
    ||| (0x2000 <= u && u <= 0x200A)
    ||| u == 0x2028
    ||| u == 0x2029
    ||| u == 0x202F
    ||| u == 0x205F
    ||| u == 0x3000
}

/// Whether `c` is one of the characters `'0'..='9'`.
pub open spec fn is_digit(c: char) -> bool {
    '0' <= c && c <= '9'
}

/// Executable `char::is_whitespace`.
pub fn char_is_whitespace(c: char) -> (r: bool)
    ensures
        r == is_ws(c),
{
    let u = c as u32;
    (0x9 <= u && u <= 0xD) || u == 0x20 || u == 0x85 || u == 0xA0 || u == 0x1680 || (0x2000 <= u
        && u <= 0x200A) || u == 0x2028 || u == 0x2029 || u == 0x202F || u == 0x205F || u == 0x3000
}

/// Executable `char::is_ascii_digit`.
pub fn char_is_ascii_digit(c: char) -> (r: bool)
    ensures
        r == is_digit(c),
{
    '0' <= c && c <= '9'
}

/// The characters of `s`, in order.
pub fn chars_of(s: &str) -> (r: Vec<char>)
    ensures
        r@ == s@,
{
    let mut r: Vec<char> = Vec::new();
    for c in it: s.chars()
        invariant
            r@ == it.seq().take(it.index() as int),
            it.seq() == s@,
    {
        r.push(c);
    }
    r
}


/// `s` without its leading whitespace.
pub open spec fn trim_start(s: Seq<char>) -> Seq<char>
    decreases s.len(),
{
    if s.len() > 0 && is_ws(s[0]) {
        trim_start(s.drop_first())
    } else {
        s
    }
}

/// `s` without its trailing whitespace.
pub open spec fn trim_end(s: Seq<char>) -> Seq<char>
    decreases s.len(),
{
    if s.len() > 0 && is_ws(s.last()) {
        trim_end(s.drop_last())
    } else {
        s
    }
}

/// `s` without leading and trailing whitespace, as `str::trim` gives it.
pub open spec fn trim(s: Seq<char>) -> Seq<char> {
    trim_end(trim_start(s))
}

/// `s` without any leading or trailing occurrence of `c`, as `str::trim_matches(c)` gives it.
pub open spec fn trim_char(s: Seq<char>, c: char) -> Seq<char> {
    trim_end_char(trim_start_char(s, c), c)
}

/// `s` without any leading occurrence of `c` (`str::trim_start_matches(c)`).
pub open spec fn trim_start_char(s: Seq<char>, c: char) -> Seq<char>
    decreases s.len(),
{
    if s.len() > 0 && s[0] == c {
        trim_start_char(s.drop_first(), c)
    } else {
        s
    }
}

/// `s` without any trailing occurrence of `c` (`str::trim_end_matches(c)`).
pub open spec fn trim_end_char(s: Seq<char>, c: char) -> Seq<char>
    decreases s.len(),
{
    if s.len() > 0 && s.last() == c {
        trim_end_char(s.drop_last(), c)
    } else {
        s
    }
}

/// Whether `s` begins with `p`.
pub open spec fn starts_with(s: Seq<char>, p: Seq<char>) -> bool {
    p.len() <= s.len() && s.subrange(0, p.len() as int) == p
}

/// Whether `s` ends with `p`.
pub open spec fn ends_with(s: Seq<char>, p: Seq<char>) -> bool {
    p.len() <= s.len() && s.subrange(s.len() - p.len(), s.len() as int) == p
}

/// Whether `p` occurs in `s` at position `i`.
pub open spec fn occurs_at(s: Seq<char>, p: Seq<char>, i: int) -> bool {
    0 <= i && i + p.len() <= s.len() && s.subrange(i, i + p.len()) == p
}

/// Whether `p` occurs anywhere in `s`.
pub open spec fn contains(s: Seq<char>, p: Seq<char>) -> bool {
    exists|i: int| occurs_at(s, p, i)
}

/// The first position at which `p` occurs in `s`, as `str::find` gives it.
#[verifier::opaque]
pub open spec fn find(s: Seq<char>, p: Seq<char>) -> Option<int> {
    if contains(s, p) {
        Some(choose|i: int| occurs_at(s, p, i) && forall|j: int| 0 <= j < i ==> !occurs_at(s, p, j))
    } else {
        None
    }
}

/// Whether `s[lo..hi]` begins with `p`.
pub fn slice_starts_with(s: &Vec<char>, lo: usize, hi: usize, p: &Vec<char>) -> (r: bool)
    requires
        lo <= hi <= s@.len(),
    ensures
        r == starts_with(s@.subrange(lo as int, hi as int), p@),
{
    if p.len() > hi - lo {
        return false;
    }
    let mut k: usize = 0;
    while k < p.len()
        invariant
            lo <= hi <= s@.len(),
            p@.len() <= hi - lo,
            k <= p@.len(),
            forall|m: int| 0 <= m < k ==> s@[lo + m] == p@[m],
        decreases p@.len() - k,
    {
        if s[lo + k] != p[k] {
            assert(s@.subrange(lo as int, hi as int).subrange(0, p@.len() as int)[k as int] != p@[k as int]);
            return false;
        }
        k = k + 1;
    }
    assert(s@.subrange(lo as int, hi as int).subrange(0, p@.len() as int) =~= p@);
    true
}

/// Whether `s[lo..hi]` ends with `p`.
pub fn slice_ends_with(s: &Vec<char>, lo: usize, hi: usize, p: &Vec<char>) -> (r: bool)
    requires
        lo <= hi <= s@.len(),
    ensures
        r == ends_with(s@.subrange(lo as int, hi as int), p@),
{
    if p.len() > hi - lo {
        return false;
    }
    let start = hi - p.len();
    let r = slice_starts_with(s, start, hi, p);
    let ghost t = s@.subrange(lo as int, hi as int);
    assert(t.subrange(t.len() - p@.len(), t.len() as int) =~= s@.subrange(start as int, hi as int));
    assert(s@.subrange(start as int, hi as int).subrange(0, p@.len() as int) =~= s@.subrange(start as int, hi as int));
    r
}

/// The first position at or after `from` where `p` occurs in `s[..hi]`, if any.
pub fn slice_find_from(s: &Vec<char>, from: usize, hi: usize, p: &Vec<char>) -> (r: Option<usize>)
    requires
        from <= hi <= s@.len(),
    ensures
        match r {
            Some(i) => from <= i && occurs_at(s@.subrange(0, hi as int), p@, i as int)
                && forall|j: int| from <= j < i ==> !occurs_at(s@.subrange(0, hi as int), p@, j),
            None => forall|j: int| from <= j ==> !occurs_at(s@.subrange(0, hi as int), p@, j),
        },
{
    let ghost t = s@.subrange(0, hi as int);
    if p.len() > hi {
        return None;
    }
    let mut i: usize = from;
    if from > hi - p.len() {
        return None;
    }
    if p.len() == 0 {
        assert(t.subrange(from as int, from as int) =~= p@);
        return Some(from);
    }
    while i <= hi - p.len()
        invariant
            from <= i <= hi - p@.len() + 1,
            0 < p@.len() <= hi <= s@.len(),
            t == s@.subrange(0, hi as int),
            forall|j: int| from <= j < i ==> !occurs_at(t, p@, j),
        decreases hi - i,
    {
        let m = slice_starts_with(s, i, hi, p);
        if m {
            assert(t.subrange(i as int, i + p@.len()) =~= s@.subrange(i as int, hi as int).subrange(0, p@.len() as int));
            return Some(i);
        }
        assert(t.subrange(i as int, i + p@.len()) =~= s@.subrange(i as int, hi as int).subrange(0, p@.len() as int));
        i = i + 1;
    }
    None
}

/// The first position at which `p` occurs in `s`, as `str::find` gives it.
pub fn find_chars(s: &Vec<char>, p: &Vec<char>) -> (r: Option<usize>)
    ensures
        match r {
            Some(i) => find(s@, p@) == Some(i as int) && occurs_at(s@, p@, i as int),
            None => find(s@, p@) is None,
        },
{
    reveal(find);
    let r = slice_find_from(s, 0, s.len(), p);
    assert(s@.subrange(0, s@.len() as int) =~= s@);
    match r {
        Some(i) => {
            assert(contains(s@, p@));
            let ghost c = choose|c: int|
                occurs_at(s@, p@, c) && forall|j: int| 0 <= j < c ==> !occurs_at(s@, p@, j);
            assert(c == i) by {
                if c < i {
                    assert(!occurs_at(s@, p@, c));
                }
                if c > i {
                    assert(!occurs_at(s@, p@, i as int));
                }
            }
        },
        None => {
            assert(!contains(s@, p@));
        },
    }
    r
}

/// Where `trim_start_char(s[lo..hi], c)` begins inside `s`.
pub fn skip_leading_char(s: &Vec<char>, lo: usize, hi: usize, c: char) -> (r: usize)
    requires
        lo <= hi <= s@.len(),
    ensures
        lo <= r <= hi,
        s@.subrange(r as int, hi as int) == trim_start_char(s@.subrange(lo as int, hi as int), c),
{
    let mut k = lo;
    while k < hi && s[k] == c
        invariant
            lo <= k <= hi <= s@.len(),
            trim_start_char(s@.subrange(lo as int, hi as int), c) == trim_start_char(
                s@.subrange(k as int, hi as int),
                c,
            ),
        decreases hi - k,
    {
        assert(s@.subrange(k as int, hi as int).drop_first() =~= s@.subrange(k + 1, hi as int));
        k = k + 1;
    }
    k
}

/// `s` as a `String`.
pub fn string_of(s: &Vec<char>) -> (r: String)
    ensures
        r@ == s@,
{
    let mut r = String::new();
    let mut i: usize = 0;
    while i < s.len()
        invariant
            i <= s@.len(),
            r@ == s@.subrange(0, i as int),
        decreases s@.len() - i,
    {
        push_char(&mut r, s[i]);
        assert(s@.subrange(0, i + 1) =~= s@.subrange(0, i as int).push(s@[i as int]));
        i = i + 1;
    }
    assert(s@.subrange(0, s@.len() as int) =~= s@);
    r
}

/// Appends `c` to `s` (`String::push`).
#[verifier::external_body]
pub(crate) fn push_char(s: &mut String, c: char)
    ensures
        final(s)@ == old(s)@.push(c),
{
    s.push(c);
}


/// The position of the first `'\n'` at or after `i`, or `s.len()` if there is none.
pub open spec fn next_nl(s: Seq<char>, i: int) -> int
    decreases s.len() - i,
{
    if i < 0 || i >= s.len() {
        s.len() as int
    } else if s[i] == '\n' {
        i
    } else {
        next_nl(s, i + 1)
    }
}

/// The line that starts at `i`: up to the next `'\n'`, with one `'\r'` before that `'\n'` removed.
pub open spec fn line_at(s: Seq<char>, i: int) -> Seq<char> {
    let j = next_nl(s, i);
    let raw = s.subrange(i, j);
    if j < s.len() && raw.len() > 0 && raw.last() == '\r' {
        raw.drop_last()
    } else {
        raw
    }
}

/// The lines of `s` from position `i` on, as `str::lines` gives them.
pub open spec fn lines_from(s: Seq<char>, i: int) -> Seq<Seq<char>>
    decreases s.len() + 1 - i,
{
    if i < 0 || i >= s.len() {
        Seq::empty()
    } else {
        proof {
            lemma_next_nl_bounds(s, i);
        }
        seq![line_at(s, i)] + lines_from(s, next_nl(s, i) + 1)
    }
}

/// The lines of `s`, as `str::lines` gives them.
pub open spec fn lines(s: Seq<char>) -> Seq<Seq<char>> {
    lines_from(s, 0)
}

/// `next_nl` finds the first newline at or after `i`.
pub proof fn lemma_next_nl_bounds(s: Seq<char>, i: int)
    requires
        0 <= i <= s.len(),
    ensures
        i <= next_nl(s, i) <= s.len(),
        next_nl(s, i) < s.len() ==> s[next_nl(s, i)] == '\n',
        forall|k: int| i <= k < next_nl(s, i) ==> s[k] != '\n',
    decreases s.len() - i,
{
    if i < s.len() && s[i] != '\n' {
        lemma_next_nl_bounds(s, i + 1);
    }
}

/// Finding the next newline in `p + s` past `p` is finding it in `s`.
proof fn lemma_next_nl_shift(p: Seq<char>, s: Seq<char>, i: int)
    requires
        0 <= i <= s.len(),
    ensures
        next_nl(p + s, p.len() + i) == p.len() + next_nl(s, i),
    decreases s.len() - i,
{
    if i < s.len() {
        assert((p + s)[p.len() + i] == s[i]);
        if s[i] != '\n' {
            lemma_next_nl_shift(p, s, i + 1);
        }
    }
}

/// The lines of `p + s` past `p` are the lines of `s`.
pub proof fn lemma_lines_from_shift(p: Seq<char>, s: Seq<char>, i: int)
    requires
        0 <= i,
    ensures
        lines_from(p + s, p.len() + i) == lines_from(s, i),
    decreases s.len() + 1 - i,
{
    if i < s.len() {
        lemma_next_nl_bounds(s, i);
        lemma_next_nl_shift(p, s, i);
        let j = next_nl(s, i);
        assert((p + s).subrange(p.len() + i, p.len() + j) =~= s.subrange(i, j));
        lemma_lines_from_shift(p, s, j + 1);
        assert(lines_from(p + s, p.len() + (j + 1)) == lines_from(p + s, p.len() + j + 1));
    }
}

/// Where `x` holds no newline and `rest` starts with one, the next newline from inside `x` is
/// the one right after it.
proof fn lemma_next_nl_past(x: Seq<char>, rest: Seq<char>, i: int)
    requires
        0 <= i <= x.len(),
        rest.len() > 0,
        rest[0] == '\n',
        forall|k: int| 0 <= k < x.len() ==> x[k] != '\n',
    ensures
        next_nl(x + rest, i) == x.len(),
    decreases x.len() - i,
{
    if i < x.len() {
        assert((x + rest)[i] == x[i]);
        lemma_next_nl_past(x, rest, i + 1);
    } else {
        assert((x + rest)[i] == rest[0]);
    }
}

/// Whether `l` holds no newline and does not end with a carriage return.
pub open spec fn plain_line(l: Seq<char>) -> bool {
    &&& forall|k: int| 0 <= k < l.len() ==> l[k] != '\n'
    &&& !(l.len() > 0 && l.last() == '\r')
}

/// The lines `ls`, each followed by a newline.
pub open spec fn newline_terminated(ls: Seq<Seq<char>>) -> Seq<char>
    decreases ls.len(),
{
    if ls.len() == 0 {
        Seq::empty()
    } else {
        ls[0] + seq!['\n'] + newline_terminated(ls.drop_first())
    }
}

/// Lines that hold no newline and do not end with a carriage return, each written with a
/// newline, read back as the same lines.
pub proof fn lemma_lines_of_terminated(ls: Seq<Seq<char>>)
    requires
        forall|k: int| 0 <= k < ls.len() ==> plain_line(#[trigger] ls[k]),
    ensures
        lines(newline_terminated(ls)) == ls,
    decreases ls.len(),
{
    if ls.len() > 0 {
        let x = ls[0];
        let rest = ls.drop_first();
        assert forall|k: int| 0 <= k < rest.len() implies plain_line(#[trigger] rest[k]) by {
            assert(rest[k] == ls[k + 1]);
        }
        lemma_lines_of_terminated(rest);
        assert(plain_line(ls[0]));
        let tail = newline_terminated(rest);
        let head = x + seq!['\n'];
        let t = newline_terminated(ls);
        assert(t == head + tail);
        assert(t =~= x + (seq!['\n'] + tail));
        lemma_next_nl_past(x, seq!['\n'] + tail, 0);
        assert(t.subrange(0, x.len() as int) =~= x);
        lemma_lines_from_shift(head, tail, 0);
        assert(lines_from(t, 0) == seq![x] + lines_from(t, x.len() + 1int));
        assert(lines(t) =~= ls);
    }
}

/// The lines of `s` hold no newline.
pub proof fn lemma_lines_hold_no_newline(s: Seq<char>, i: int)
    requires
        0 <= i,
    ensures
        forall|k: int, m: int|
            0 <= k < lines_from(s, i).len() && 0 <= m < lines_from(s, i)[k].len() ==> #[trigger] lines_from(s, i)[k][m]
                != '\n',
    decreases s.len() + 1 - i,
{
    if i < s.len() {
        lemma_next_nl_bounds(s, i);
        let j = next_nl(s, i);
        lemma_lines_hold_no_newline(s, j + 1);
        let ls = lines_from(s, i);
        assert forall|k: int, m: int|
            0 <= k < ls.len() && 0 <= m < ls[k].len() implies #[trigger] ls[k][m] != '\n' by {
            if k == 0 {
                assert(ls[0] == line_at(s, i));
                assert(s.subrange(i, j)[m] == s[i + m]);
            } else {
                assert(ls[k] == lines_from(s, j + 1)[k - 1]);
            }
        }
    }
}

/// Where the line starting at `i` ends (after dropping a `'\r'` before its `'\n'`), and where the
/// next line starts.
pub fn next_line(s: &Vec<char>, i: usize) -> (r: (usize, usize))
    requires
        i < s@.len(),
    ensures
        i <= r.0 <= r.1 <= s@.len(),
        s@.subrange(i as int, r.0 as int) == line_at(s@, i as int),
        r.1 == next_nl(s@, i as int) + 1 || (r.1 == s@.len() && next_nl(s@, i as int) == s@.len()),
        r.1 > i,
{
    let mut j: usize = i;
    while j < s.len() && s[j] != '\n'
        invariant
            i <= j <= s@.len(),
            next_nl(s@, i as int) == next_nl(s@, j as int),
        decreases s@.len() - j,
    {
        j = j + 1;
    }
    proof {
        lemma_next_nl_bounds(s@, j as int);
    }
    let mut end = j;
    if j < s.len() && j > i && s[j - 1] == '\r' {
        end = j - 1;
        assert(s@.subrange(i as int, j as int).drop_last() =~= s@.subrange(i as int, end as int));
    }
    let next = if j < s.len() { j + 1 } else { j };
    (end, next)
}

/// The bounds of `trim(s[a..b])` inside `s`.
pub fn trim_bounds(s: &Vec<char>, a: usize, b: usize) -> (r: (usize, usize))
    requires
        a <= b <= s@.len(),
    ensures
        a <= r.0 <= r.1 <= b,
        s@.subrange(r.0 as int, r.1 as int) == trim(s@.subrange(a as int, b as int)),
{
    let mut lo = a;
    while lo < b && char_is_whitespace(s[lo])
        invariant
            a <= lo <= b <= s@.len(),
            trim_start(s@.subrange(a as int, b as int)) == trim_start(s@.subrange(lo as int, b as int)),
        decreases b - lo,
    {
        assert(s@.subrange(lo as int, b as int).drop_first() =~= s@.subrange(lo + 1, b as int));
        lo = lo + 1;
    }
    assert(trim_start(s@.subrange(lo as int, b as int)) == s@.subrange(lo as int, b as int));
    let mut hi = b;
    while hi > lo && char_is_whitespace(s[hi - 1])
        invariant
            a <= lo <= hi <= b <= s@.len(),
            trim_end(s@.subrange(lo as int, b as int)) == trim_end(s@.subrange(lo as int, hi as int)),
        decreases hi - lo,
    {
        assert(s@.subrange(lo as int, hi as int).drop_last() =~= s@.subrange(lo as int, hi - 1));
        hi = hi - 1;
    }
    (lo, hi)
}

/// `s[lo..hi]` as a new vector.
pub fn sub_vec(s: &Vec<char>, lo: usize, hi: usize) -> (r: Vec<char>)
    requires
        lo <= hi <= s@.len(),
    ensures
        r@ == s@.subrange(lo as int, hi as int),
{
    let mut r: Vec<char> = Vec::new();
    let mut k = lo;
    while k < hi
        invariant
            lo <= k <= hi <= s@.len(),
            r@ == s@.subrange(lo as int, k as int),
        decreases hi - k,
    {
        r.push(s[k]);
        assert(s@.subrange(lo as int, k + 1) =~= s@.subrange(lo as int, k as int).push(s@[k as int]));
        k = k + 1;
    }
    r
}


/// The bounds of `trim_char(s[a..b], c)` inside `s`.
pub fn trim_char_bounds(s: &Vec<char>, a: usize, b: usize, c: char) -> (r: (usize, usize))
    requires
        a <= b <= s@.len(),
    ensures
        a <= r.0 <= r.1 <= b,
        s@.subrange(r.0 as int, r.1 as int) == trim_char(s@.subrange(a as int, b as int), c),
{
    let mut lo = a;
    while lo < b && s[lo] == c
        invariant
            a <= lo <= b <= s@.len(),
            trim_start_char(s@.subrange(a as int, b as int), c) == trim_start_char(
                s@.subrange(lo as int, b as int),
                c,
            ),
        decreases b - lo,
    {
        assert(s@.subrange(lo as int, b as int).drop_first() =~= s@.subrange(lo + 1, b as int));
        lo = lo + 1;
    }
    assert(trim_start_char(s@.subrange(lo as int, b as int), c) == s@.subrange(lo as int, b as int));
    let mut hi = b;
    while hi > lo && s[hi - 1] == c
        invariant
            a <= lo <= hi <= b <= s@.len(),
            trim_end_char(s@.subrange(lo as int, b as int), c) == trim_end_char(
                s@.subrange(lo as int, hi as int),
                c,
            ),
        decreases hi - lo,
    {
        assert(s@.subrange(lo as int, hi as int).drop_last() =~= s@.subrange(lo as int, hi - 1));
        hi = hi - 1;
    }
    (lo, hi)
}

/// Appends `t` to `v`.
pub fn append_chars(v: &mut Vec<char>, t: &Vec<char>)
    ensures
        final(v)@ == old(v)@ + t@,
{
    let mut k: usize = 0;
    while k < t.len()
        invariant
            k <= t@.len(),
            v@ == old(v)@ + t@.subrange(0, k as int),
        decreases t@.len() - k,
    {
        v.push(t[k]);
        assert(t@.subrange(0, k + 1) =~= t@.subrange(0, k as int).push(t@[k as int]));
        k = k + 1;
    }
    assert(t@.subrange(0, t@.len() as int) =~= t@);
}


/// The character sequences that the vectors of `v` hold.
pub open spec fn views(v: Seq<Vec<char>>) -> Seq<Seq<char>> {
    v.map_values(|x: Vec<char>| x@)
}

/// The decimal digit character for `d` (below ten).
pub open spec fn digit_char(d: nat) -> char {
    if d == 0 {
        '0'
    } else if d == 1 {
        '1'
    } else if d == 2 {
        '2'
    } else if d == 3 {
        '3'
    } else if d == 4 {
        '4'
    } else if d == 5 {
        '5'
    } else if d == 6 {
        '6'
    } else if d == 7 {
        '7'
    } else if d == 8 {
        '8'
    } else {
        '9'
    }
}

/// The decimal digits of `n`, without leading zeros (`"0"` for zero).
pub open spec fn decimal(n: nat) -> Seq<char>
    decreases n,
{
    if n < 10 {
        seq![digit_char(n)]
    } else {
        decimal(n / 10).push(digit_char(n % 10))
    }
}

/// `s` padded on the left with `c` to at least `width` characters, as the format spec
/// `{:c>width}` gives it.
pub open spec fn pad_left(s: Seq<char>, c: char, width: nat) -> Seq<char> {
    if s.len() >= width {
        s
    } else {
        Seq::new((width - s.len()) as nat, |i: int| c) + s
    }
}

/// The decimal text of `n` with zeros after any sign to at least `width` characters, as the
/// format spec `{:0width}` gives it for an integer.
pub open spec fn zero_padded(n: int, width: nat) -> Seq<char> {
    if n < 0 {
        seq!['-'] + pad_left(decimal((-n) as nat), '0', if width > 0 { (width - 1) as nat } else { 0 })
    } else {
        pad_left(decimal(n as nat), '0', width)
    }
}

/// The decimal text of `n`, as `to_string` gives it for an integer.
pub open spec fn signed_decimal(n: int) -> Seq<char> {
    zero_padded(n, 0)
}

/// Executable `digit_char`.
fn digit_of(d: u64) -> (r: char)
    requires
        d < 10,
    ensures
        r == digit_char(d as nat),
{
    if d == 0 {
        '0'
    } else if d == 1 {
        '1'
    } else if d == 2 {
        '2'
    } else if d == 3 {
        '3'
    } else if d == 4 {
        '4'
    } else if d == 5 {
        '5'
    } else if d == 6 {
        '6'
    } else if d == 7 {
        '7'
    } else if d == 8 {
        '8'
    } else {
        '9'
    }
}

/// The decimal digits of `n`.
pub fn decimal_chars(n: u64) -> (r: Vec<char>)
    ensures
        r@ == decimal(n as nat),
    decreases n,
{
    if n < 10 {
        let mut r: Vec<char> = Vec::new();
        r.push(digit_of(n));
        r
    } else {
        let mut r = decimal_chars(n / 10);
        r.push(digit_of(n % 10));
        r
    }
}

/// `s` padded on the left with `c` to at least `width` characters.
pub fn pad_left_chars(s: &Vec<char>, c: char, width: usize) -> (r: Vec<char>)
    ensures
        r@ == pad_left(s@, c, width as nat),
{
    let mut r: Vec<char> = Vec::new();
    if s.len() < width {
        let n = width - s.len();
        let mut k: usize = 0;
        while k < n
            invariant
                k <= n,
                r@ == Seq::new(k as nat, |i: int| c),
            decreases n - k,
        {
            r.push(c);
            assert(r@ =~= Seq::new((k + 1) as nat, |i: int| c));
            k = k + 1;
        }
    }
    append_chars(&mut r, s);
    proof {
        if s@.len() >= width {
            assert(r@ =~= s@);
        }
    }
    r
}

/// The decimal text of `n` with zeros after any sign to at least `width` characters.
pub fn zero_padded_chars(n: i64, width: usize) -> (r: Vec<char>)
    ensures
        r@ == zero_padded(n as int, width as nat),
{
    if n < 0 {
        let m: u64 = if n == i64::MIN {
            9223372036854775808u64
        } else {
            (-n) as u64
        };
        let digits = decimal_chars(m);
        let w = if width > 0 { width - 1 } else { 0 };
        let padded = pad_left_chars(&digits, '0', w);
        let mut r: Vec<char> = Vec::new();
        r.push('-');
        append_chars(&mut r, &padded);
        assert(r@ =~= seq!['-'] + padded@);
        r
    } else {
        let digits = decimal_chars(n as u64);
        pad_left_chars(&digits, '0', width)
    }
}

/// Appends the characters of `t` to `v`.
pub fn append_str(v: &mut Vec<char>, t: &str)
    ensures
        final(v)@ == old(v)@ + t@,
{
    let c = chars_of(t);
    append_chars(v, &c);
}

/// Appends the decimal digits of `n` to `v`.
pub fn append_decimal(v: &mut Vec<char>, n: u64)
    ensures
        final(v)@ == old(v)@ + decimal(n as nat),
{
    let d = decimal_chars(n);
    append_chars(v, &d);
}

/// `s` padded on the right with `c` to at least `width` characters, as the format spec
/// `{:<width}` gives it.
pub open spec fn pad_right(s: Seq<char>, c: char, width: nat) -> Seq<char> {
    if s.len() >= width {
        s
    } else {
        s + Seq::new((width - s.len()) as nat, |i: int| c)
    }
}

/// Appends `t` to `v`, padded on the right with spaces to at least `width` characters.
pub fn append_padded(v: &mut Vec<char>, t: &str, width: usize)
    ensures
        final(v)@ == old(v)@ + pad_right(t@, ' ', width as nat),
{
    let c = chars_of(t);
    append_chars(v, &c);
    if c.len() < width {
        let n = width - c.len();
        let ghost before = v@;
        let mut k: usize = 0;
        while k < n
            invariant
                k <= n,
                v@ == before + Seq::new(k as nat, |i: int| ' '),
            decreases n - k,
        {
            v.push(' ');
            assert(v@ =~= before + Seq::new((k + 1) as nat, |i: int| ' '));
            k = k + 1;
        }
        assert(before + Seq::new(n as nat, |i: int| ' ') =~= old(v)@ + pad_right(t@, ' ', width as nat));
    } else {
        assert(pad_right(t@, ' ', width as nat) == t@);
    }
}

/// `n` copies of `s`, one after another (`str::repeat`).
pub open spec fn repeat(s: Seq<char>, n: nat) -> Seq<char>
    decreases n,
{
    if n == 0 {
        Seq::empty()
    } else {
        repeat(s, (n - 1) as nat) + s
    }
}

/// Appends `n` copies of `t` to `v`.
pub fn append_repeated(v: &mut Vec<char>, t: &str, n: usize)
    ensures
        final(v)@ == old(v)@ + repeat(t@, n as nat),
{
    let c = chars_of(t);
    let mut k: usize = 0;
    while k < n
        invariant
            k <= n,
            c@ == t@,
            v@ == old(v)@ + repeat(t@, k as nat),
        decreases n - k,
    {
        append_chars(v, &c);
        assert(old(v)@ + repeat(t@, (k + 1) as nat) =~= old(v)@ + repeat(t@, k as nat) + t@);
        k = k + 1;
    }
}

/// The items of `items` joined by `sep` (`join` of a slice of strings).
pub open spec fn join_with(items: Seq<Seq<char>>, sep: Seq<char>) -> Seq<char>
    decreases items.len(),
{
    if items.len() == 0 {
        Seq::empty()
    } else if items.len() == 1 {
        items[0]
    } else {
        join_with(items.drop_last(), sep) + sep + items.last()
    }
}

/// Appends the strings of `items`, joined by `sep`, to `v`.
pub fn append_joined(v: &mut Vec<char>, items: &Vec<String>, sep: &str)
    ensures
        final(v)@ == old(v)@ + join_with(items@.map_values(|x: String| x@), sep@),
{
    let ghost views = items@.map_values(|x: String| x@);
    let mut k: usize = 0;
    assert(views.take(0) =~= Seq::<Seq<char>>::empty());
    while k < items.len()
        invariant
            k <= items@.len(),
            views == items@.map_values(|x: String| x@),
            v@ == old(v)@ + join_with(views.take(k as int), sep@),
        decreases items@.len() - k,
    {
        let ghost before = v@;
        assert(views.take(k + 1).drop_last() =~= views.take(k as int));
        assert(views.take(k + 1).last() == items@[k as int]@);
        if k > 0 {
            append_str(v, sep);
        }
        append_str(v, items[k].as_str());
        proof {
            if k == 0 {
                assert(views.take(1) =~= seq![items@[0]@]);
                assert(v@ =~= old(v)@ + join_with(views.take(1), sep@));
            } else {
                assert(v@ =~= old(v)@ + join_with(views.take(k + 1), sep@));
            }
        }
        k = k + 1;
    }
    assert(views.take(items@.len() as int) =~= views);
}

/// `s` without leading and trailing whitespace (`str::trim`).
pub fn trimmed(s: &str) -> (r: String)
    ensures
        r@ == trim(s@),
{
    let c = chars_of(s);
    let (lo, hi) = trim_bounds(&c, 0, c.len());
    assert(c@.subrange(0, c@.len() as int) =~= c@);
    let t = sub_vec(&c, lo, hi);
    string_of(&t)
}

/// `s` with every occurrence of the non-empty `pat` replaced by `with`, occurrences taken from
/// the left without overlapping (`str::replace`).
pub open spec fn replace_all(s: Seq<char>, pat: Seq<char>, with: Seq<char>) -> Seq<char>
    recommends
        pat.len() > 0,
    decreases s.len(),
{
    if s.len() == 0 || pat.len() == 0 {
        s
    } else if starts_with(s, pat) {
        with + replace_all(s.subrange(pat.len() as int, s.len() as int), pat, with)
    } else {
        seq![s[0]] + replace_all(s.subrange(1, s.len() as int), pat, with)
    }
}

/// `s` with every occurrence of `pat` replaced by `with`.
pub fn replace_chars(s: &Vec<char>, pat: &Vec<char>, with: &Vec<char>) -> (r: Vec<char>)
    requires
        pat@.len() > 0,
    ensures
        r@ == replace_all(s@, pat@, with@),
{
    let mut out: Vec<char> = Vec::new();
    let mut i: usize = 0;
    assert(s@.subrange(0, s@.len() as int) =~= s@);
    while i < s.len()
        invariant
            i <= s@.len(),
            pat@.len() > 0,
            out@ + replace_all(s@.subrange(i as int, s@.len() as int), pat@, with@) == replace_all(
                s@,
                pat@,
                with@,
            ),
        decreases s@.len() - i,
    {
        let ghost t = s@.subrange(i as int, s@.len() as int);
        let ghost before = out@;
        if slice_starts_with(s, i, s.len(), pat) {
            append_chars(&mut out, with);
            assert(t.subrange(pat@.len() as int, t.len() as int) =~= s@.subrange(
                i + pat@.len(),
                s@.len() as int,
            ));
            i = i + pat.len();
            assert(before + (with@ + replace_all(s@.subrange(i as int, s@.len() as int), pat@, with@))
                =~= out@ + replace_all(s@.subrange(i as int, s@.len() as int), pat@, with@));
        } else {
            out.push(s[i]);
            assert(t.subrange(1, t.len() as int) =~= s@.subrange(i + 1, s@.len() as int));
            assert(t[0] == s@[i as int]);
            i = i + 1;
            assert(before + (seq![s@[i - 1]] + replace_all(
                s@.subrange(i as int, s@.len() as int),
                pat@,
                with@,
            )) =~= out@ + replace_all(s@.subrange(i as int, s@.len() as int), pat@, with@));
        }
    }
    assert(out@ + replace_all(s@.subrange(i as int, s@.len() as int), pat@, with@) =~= out@);
    out
}

/// `s` with every occurrence of the non-empty `pat` removed.
pub fn without(s: &str, pat: &str) -> (r: String)
    requires
        pat@.len() > 0,
    ensures
        r@ == replace_all(s@, pat@, Seq::empty()),
{
    let c = chars_of(s);
    let p = chars_of(pat);
    let e: Vec<char> = Vec::new();
    let r = replace_chars(&c, &p, &e);
    string_of(&r)
}

/// The pieces of `s` between the occurrences of `c`, as `str::split(c)` gives them (one more
/// piece than there are occurrences).
pub open spec fn split_char(s: Seq<char>, c: char) -> Seq<Seq<char>>
    decreases s.len(),
{
    if s.len() == 0 {
        seq![Seq::empty()]
    } else {
        let p = split_char(s.drop_last(), c);
        if s.last() == c {
            p.push(Seq::empty())
        } else {
            p.update(p.len() - 1, p.last().push(s.last()))
        }
    }
}

/// `split_char` never gives an empty list.
pub proof fn lemma_split_char_nonempty(s: Seq<char>, c: char)
    ensures
        split_char(s, c).len() >= 1,
    decreases s.len(),
{
    if s.len() > 0 {
        lemma_split_char_nonempty(s.drop_last(), c);
    }
}

/// The pieces of `s` between the occurrences of `c`.
pub fn split_chars(s: &str, c: char) -> (r: Vec<Vec<char>>)
    ensures
        views(r@) == split_char(s@, c),
{
    let cs = chars_of(s);
    let mut r: Vec<Vec<char>> = Vec::new();
    let mut cur: Vec<char> = Vec::new();
    let mut k: usize = 0;
    assert(cs@.take(0) =~= Seq::<char>::empty());
    assert(views(r@).push(cur@) =~= split_char(cs@.take(0), c));
    while k < cs.len()
        invariant
            k <= cs@.len(),
            views(r@).push(cur@) == split_char(cs@.take(k as int), c),
        decreases cs@.len() - k,
    {
        assert(cs@.take(k + 1).drop_last() =~= cs@.take(k as int));
        proof {
            lemma_split_char_nonempty(cs@.take(k as int), c);
        }
        let ghost before_r = views(r@);
        let ghost before_cur = cur@;
        if cs[k] == c {
            let done = cur;
            r.push(done);
            cur = Vec::new();
            assert(views(r@) =~= before_r.push(before_cur));
            assert(views(r@).push(cur@) =~= split_char(cs@.take(k + 1), c));
        } else {
            cur.push(cs[k]);
            assert(views(r@).push(cur@) =~= split_char(cs@.take(k + 1), c));
        }
        k = k + 1;
    }
    assert(cs@.take(cs@.len() as int) =~= cs@);
    let ghost before_r = views(r@);
    r.push(cur);
    assert(views(r@) =~= before_r.push(cur@));
    r
}

/// `n` question marks joined by commas: the placeholders of an `IN (..)` list.
pub open spec fn placeholders(n: nat) -> Seq<char> {
    join_with(Seq::new(n, |i: int| "?"@), ","@)
}

/// Appends `n` question marks joined by commas to `v`.
pub fn append_placeholders(v: &mut Vec<char>, n: usize)
    ensures
        final(v)@ == old(v)@ + placeholders(n as nat),
{
    let ghost q = Seq::new(n as nat, |i: int| "?"@);
    let mut k: usize = 0;
    assert(q.take(0) =~= Seq::<Seq<char>>::empty());
    while k < n
        invariant
            k <= n,
            q == Seq::new(n as nat, |i: int| "?"@),
            v@ == old(v)@ + join_with(q.take(k as int), ","@),
        decreases n - k,
    {
        assert(q.take(k + 1).drop_last() =~= q.take(k as int));
        assert(q.take(k + 1).last() == "?"@);
        if k > 0 {
            append_str(v, ",");
        }
        append_str(v, "?");
        proof {
            if k == 0 {
                assert(q.take(1) =~= seq!["?"@]);
            }
            assert(v@ =~= old(v)@ + join_with(q.take(k + 1), ","@));
        }
        k = k + 1;
    }
    assert(q.take(n as int) =~= q);
}

/// Whether `a` comes strictly before `b` in lexicographic order of characters (the order of
/// `str`, since UTF-8 keeps the order of code points).
pub open spec fn str_lt(a: Seq<char>, b: Seq<char>) -> bool
    decreases a.len(),
{
    if a.len() == 0 {
        b.len() > 0
    } else if b.len() == 0 {
        false
    } else if a[0] != b[0] {
        (a[0] as u32) < (b[0] as u32)
    } else {
        str_lt(a.drop_first(), b.drop_first())
    }
}

/// No text comes before itself.
pub proof fn lemma_str_lt_irreflexive(a: Seq<char>)
    ensures
        !str_lt(a, a),
    decreases a.len(),
{
    if a.len() > 0 {
        lemma_str_lt_irreflexive(a.drop_first());
    }
}

/// The order of texts is transitive.
pub proof fn lemma_str_lt_transitive(a: Seq<char>, b: Seq<char>, c: Seq<char>)
    requires
        str_lt(a, b),
        str_lt(b, c),
    ensures
        str_lt(a, c),
    decreases a.len(),
{
    if a.len() > 0 && a[0] == b[0] && b[0] == c[0] {
        lemma_str_lt_transitive(a.drop_first(), b.drop_first(), c.drop_first());
    }
}

/// Of two different texts, one comes before the other.
pub proof fn lemma_str_lt_total(a: Seq<char>, b: Seq<char>)
    requires
        a != b,
    ensures
        str_lt(a, b) || str_lt(b, a),
    decreases a.len(),
{
    if a.len() == 0 {
        assert(b.len() > 0) by {
            if b.len() == 0 {
                assert(a =~= b);
            }
        }
    } else if b.len() == 0 {
    } else if a[0] != b[0] {
        vstd::utf8::char_u32_cast(a[0], a[0] as u32);
        vstd::utf8::char_u32_cast(b[0], b[0] as u32);
    } else {
        if a.drop_first() == b.drop_first() {
            assert(a =~= seq![a[0]] + a.drop_first());
            assert(b =~= seq![b[0]] + b.drop_first());
        }
        lemma_str_lt_total(a.drop_first(), b.drop_first());
    }
}

/// Whether `a` comes strictly before `b` in lexicographic order.
pub fn chars_lt(a: &Vec<char>, b: &Vec<char>) -> (r: bool)
    ensures
        r == str_lt(a@, b@),
{
    let mut k: usize = 0;
    assert(a@.skip(0) =~= a@ && b@.skip(0) =~= b@);
    while k < a.len() && k < b.len()
        invariant
            k <= a@.len(),
            k <= b@.len(),
            str_lt(a@, b@) == str_lt(a@.skip(k as int), b@.skip(k as int)),
        decreases a@.len() - k,
    {
        if a[k] != b[k] {
            return (a[k] as u32) < (b[k] as u32);
        }
        assert(a@.skip(k as int).drop_first() =~= a@.skip(k + 1));
        assert(b@.skip(k as int).drop_first() =~= b@.skip(k + 1));
        k = k + 1;
    }
    k == a.len() && k < b.len()
}

/// How many question marks (query placeholders) the first `k` characters of `s` hold.
pub open spec fn qmarks_upto(s: Seq<char>, k: int) -> nat
    decreases k,
{
    if k <= 0 {
        0
    } else {
        qmarks_upto(s, k - 1) + if s[k - 1] == '?' {
            1nat
        } else {
            0nat
        }
    }
}

/// How many question marks (query placeholders) `s` holds.
pub open spec fn qmarks(s: Seq<char>) -> nat {
    qmarks_upto(s, s.len() as int)
}

/// Texts that agree on their first `k` characters hold as many placeholders there.
proof fn lemma_qmarks_prefix(s: Seq<char>, t: Seq<char>, k: int)
    requires
        0 <= k <= s.len(),
        k <= t.len(),
        forall|i: int| 0 <= i < k ==> s[i] == t[i],
    ensures
        qmarks_upto(s, k) == qmarks_upto(t, k),
    decreases k,
{
    if k > 0 {
        lemma_qmarks_prefix(s, t, k - 1);
    }
}

/// The placeholders of `s + t` up to `s.len() + k` are those of `s` and of `t` up to `k`.
proof fn lemma_qmarks_add_upto(s: Seq<char>, t: Seq<char>, k: int)
    requires
        0 <= k <= t.len(),
    ensures
        qmarks_upto(s + t, s.len() + k) == qmarks(s) + qmarks_upto(t, k),
    decreases k,
{
    if k == 0 {
        lemma_qmarks_prefix(s + t, s, s.len() as int);
    } else {
        lemma_qmarks_add_upto(s, t, k - 1);
        assert((s + t)[s.len() + k - 1] == t[k - 1]);
    }
}

/// The placeholders of a concatenation are those of its parts.
pub proof fn lemma_qmarks_add(s: Seq<char>, t: Seq<char>)
    ensures
        qmarks(s + t) == qmarks(s) + qmarks(t),
{
    lemma_qmarks_add_upto(s, t, t.len() as int);
}

/// Appending a character adds a placeholder exactly when it is a question mark.
pub proof fn lemma_qmarks_push(s: Seq<char>, c: char)
    ensures
        qmarks(s.push(c)) == qmarks(s) + if c == '?' {
            1nat
        } else {
            0nat
        },
{
    lemma_qmarks_prefix(s.push(c), s, s.len() as int);
}

/// The one-character texts `?` and `,`.
proof fn lemma_qmarks_marks()
    ensures
        qmarks("?"@) == 1,
        qmarks(","@) == 0,
{
    reveal_strlit("?");
    reveal_strlit(",");
    reveal_with_fuel(qmarks_upto, 2);
}

/// An `IN (..)` list of `n` placeholders holds `n` question marks.
pub proof fn lemma_qmarks_placeholders(n: nat)
    ensures
        qmarks(placeholders(n)) == n,
    decreases n,
{
    lemma_qmarks_marks();
    let q = Seq::new(n, |i: int| "?"@);
    if n == 0 {
    } else if n == 1 {
    } else {
        let p = Seq::new((n - 1) as nat, |i: int| "?"@);
        assert(q.drop_last() =~= p);
        lemma_qmarks_placeholders((n - 1) as nat);
        lemma_qmarks_add(join_with(p, ","@), ","@);
        lemma_qmarks_add(join_with(p, ","@) + ","@, "?"@);
    }
}

/// No decimal digit is a question mark.
proof fn lemma_digit_not_qmark(d: nat)
    ensures
        digit_char(d) != '?',
{
}

/// Decimal digits hold no placeholder.
pub proof fn lemma_qmarks_decimal(n: nat)
    ensures
        qmarks(decimal(n)) == 0,
    decreases n,
{
    if n < 10 {
        lemma_digit_not_qmark(n);
        lemma_qmarks_push(Seq::<char>::empty(), digit_char(n));
        assert(seq![digit_char(n)] =~= Seq::<char>::empty().push(digit_char(n)));
    } else {
        lemma_qmarks_decimal(n / 10);
        lemma_digit_not_qmark(n % 10);
        lemma_qmarks_push(decimal(n / 10), digit_char(n % 10));
    }
}

/// Padding with a character other than a question mark adds no placeholder.
pub proof fn lemma_qmarks_pad_left(s: Seq<char>, c: char, width: nat)
    requires
        c != '?',
    ensures
        qmarks(pad_left(s, c, width)) == qmarks(s),
{
    if s.len() < width {
        let fill = Seq::new((width - s.len()) as nat, |i: int| c);
        lemma_qmarks_add(fill, s);
        lemma_qmarks_fill(fill, c, fill.len() as int);
    }
}

/// The first `k` characters of a text made only of `c`, other than a question mark, hold no
/// placeholder.
proof fn lemma_qmarks_fill(s: Seq<char>, c: char, k: int)
    requires
        c != '?',
        k <= s.len(),
        forall|i: int| 0 <= i < s.len() ==> s[i] == c,
    ensures
        qmarks_upto(s, k) == 0,
    decreases k,
{
    if k > 0 {
        lemma_qmarks_fill(s, c, k - 1);
    }
}

/// The decimal text of an integer holds no placeholder.
pub proof fn lemma_qmarks_zero_padded(n: int, width: nat)
    ensures
        qmarks(zero_padded(n, width)) == 0,
{
    if n < 0 {
        let w: nat = if width > 0 { (width - 1) as nat } else { 0 };
        lemma_qmarks_decimal((-n) as nat);
        lemma_qmarks_pad_left(decimal((-n) as nat), '0', w);
        lemma_qmarks_add(seq!['-'], pad_left(decimal((-n) as nat), '0', w));
        lemma_qmarks_push(Seq::<char>::empty(), '-');
        assert(seq!['-'] =~= Seq::<char>::empty().push('-'));
    } else {
        lemma_qmarks_decimal(n as nat);
        lemma_qmarks_pad_left(decimal(n as nat), '0', width);
    }
}

} // verus!

