//! Character-level text model used by the Kotlin source rewriting: strings are
//! handled as sequences of `char`, with the line, whitespace and search
//! notions that the rewriting relies on stated as spec functions.
use vstd::prelude::*;

verus! {

broadcast use vstd::string::group_string_axioms;

// ---------------------------------------------------------------------------
// Characters
// ---------------------------------------------------------------------------

/// Unicode `White_Space` property (the characters that `char::is_whitespace`
/// and `str::trim_start` treat as whitespace).
pub open spec fn is_white_space(c: char) -> bool {
    ||| ('\u{9}' <= c && c <= '\u{d}')
    ||| c == ' '
    ||| c == '\u{85}'
    ||| c == '\u{a0}'
    ||| c == '\u{1680}'
    ||| ('\u{2000}' <= c && c <= '\u{200a}')
    ||| c == '\u{2028}'
    ||| c == '\u{2029}'
    ||| c == '\u{202f}'
    ||| c == '\u{205f}'
    ||| c == '\u{3000}'
}

/// Whether `c` has the Unicode `White_Space` property.
pub fn is_whitespace(c: char) -> (b: bool)
    ensures
        b == is_white_space(c),
{
    ('\u{9}' <= c && c <= '\u{d}') || c == ' ' || c == '\u{85}' || c == '\u{a0}' || c
        == '\u{1680}' || ('\u{2000}' <= c && c <= '\u{200a}') || c == '\u{2028}' || c
        == '\u{2029}' || c == '\u{202f}' || c == '\u{205f}' || c == '\u{3000}'
}

/// ASCII letters and digits.
pub open spec fn is_ascii_alnum(c: char) -> bool {
    ('0' <= c && c <= '9') || ('a' <= c && c <= 'z') || ('A' <= c && c <= 'Z')
}

/// ASCII lowercase mapping of a single character (other characters unchanged).
pub open spec fn ascii_lower(c: char) -> char {
    if 'A' <= c && c <= 'Z' {
        ((c as u32) + 32) as char
    } else {
        c
    }
}

/// An ASCII character.
pub open spec fn is_ascii_char(c: char) -> bool {
    (c as u32) < 128
}

/// Every character is ASCII.
pub open spec fn all_ascii(s: Seq<char>) -> bool {
    forall|k: int| 0 <= k < s.len() ==> is_ascii_char(#[trigger] s[k])
}

/// Every character mapped to its ASCII lowercase.
pub open spec fn ascii_lower_all(s: Seq<char>) -> Seq<char> {
    s.map_values(|c: char| ascii_lower(c))
}

/// Two character sequences are equal up to ASCII case.
pub open spec fn eq_ignore_ascii_case(a: Seq<char>, b: Seq<char>) -> bool {
    &&& a.len() == b.len()
    &&& forall|i: int| 0 <= i < a.len() ==> ascii_lower(#[trigger] a[i]) == ascii_lower(b[i])
}

fn ascii_lower_char(c: char) -> (r: char)
    ensures
        r == ascii_lower(c),
{
    if 'A' <= c && c <= 'Z' {
        let code: u8 = ((c as u32) + 32) as u8;
        code as char
    } else {
        c
    }
}

/// Compares a string slice with a character sequence, ignoring ASCII case.
pub fn str_eq_ignore_ascii_case(a: &str, b: &[char]) -> (r: bool)
    ensures
        r == eq_ignore_ascii_case(a@, b@),
{
    let av = chars_of(a);
    if av.len() != b.len() {
        return false;
    }
    let mut i: usize = 0;
    while i < av.len()
        invariant
            av@ == a@,
            av.len() == b.len(),
            i <= av.len(),
            forall|k: int| 0 <= k < i ==> ascii_lower(#[trigger] av@[k]) == ascii_lower(b@[k]),
        decreases av.len() - i,
    {
        if ascii_lower_char(av[i]) != ascii_lower_char(b[i]) {
            return false;
        }
        i = i + 1;
    }
    true
}

// ---------------------------------------------------------------------------
// Decimal numbers
// ---------------------------------------------------------------------------

/// The decimal digit character of `d` (for `d < 10`).
pub open spec fn digit_char(d: nat) -> char {
    ((d + 48) as u8) as char
}

/// Decimal digits of a natural number, without leading zeros.
pub open spec fn decimal(n: nat) -> Seq<char>
    decreases n,
{
    if n < 10 {
        seq![digit_char(n)]
    } else {
        decimal(n / 10).push(digit_char(n % 10))
    }
}

/// Decimal text of an integer: a `'-'` before the digits of a negative one.
pub open spec fn signed_decimal(v: int) -> Seq<char> {
    if v < 0 {
        seq!['-'] + decimal((-v) as nat)
    } else {
        decimal(v as nat)
    }
}

/// Appends the decimal digits of `n`.
pub fn push_decimal(out: &mut Vec<char>, n: u64)
    ensures
        final(out)@ == old(out)@ + decimal(n as nat),
    decreases n,
{
    if n >= 10 {
        push_decimal(out, n / 10);
    }
    let d: u8 = (n % 10) as u8;
    out.push((d + 48) as char);
}

/// Appends the decimal text of `v`.
pub fn push_signed_decimal(out: &mut Vec<char>, v: i64)
    requires
        v > i64::MIN,
    ensures
        final(out)@ == old(out)@ + signed_decimal(v as int),
{
    if v < 0 {
        out.push('-');
        push_decimal(out, (-v) as u64);
    } else {
        push_decimal(out, v as u64);
    }
}

// ---------------------------------------------------------------------------
// Conversions between `str`/`String` and character vectors
// ---------------------------------------------------------------------------

/// Appends one character to a `String` (std `String::push`).
#[verifier::external_body]
fn push_char(s: &mut String, c: char)
    ensures
        final(s)@ == old(s)@.push(c),
{
    s.push(c);
}

/// The characters of a string slice, in order.
pub fn chars_of(s: &str) -> (v: Vec<char>)
    ensures
        v@ == s@,
{
    let mut v: Vec<char> = Vec::new();
    for c in it: s.chars()
        invariant
            it.seq() == s@,
            v@ == it.seq().take(it.index() as int),
    {
        v.push(c);
    }
    v
}

/// Builds a `String` holding exactly the given characters.
pub fn string_of(v: &[char]) -> (s: String)
    ensures
        s@ == v@,
{
    let mut s = String::new();
    let mut i: usize = 0;
    while i < v.len()
        invariant
            i <= v.len(),
            s@ == v@.take(i as int),
        decreases v.len() - i,
    {
        push_char(&mut s, v[i]);
        assert(v@.take(i + 1) == v@.take(i as int).push(v@[i as int]));
        i = i + 1;
    }
    assert(v@.take(v.len() as int) == v@);
    s
}

/// Appends the characters of `src` to `dst`.
pub fn extend_chars(dst: &mut Vec<char>, src: &[char])
    ensures
        final(dst)@ == old(dst)@ + src@,
{
    let mut i: usize = 0;
    while i < src.len()
        invariant
            i <= src.len(),
            dst@ == old(dst)@ + src@.take(i as int),
        decreases src.len() - i,
    {
        dst.push(src[i]);
        assert(src@.take(i + 1) == src@.take(i as int).push(src@[i as int]));
        i = i + 1;
    }
    assert(src@.take(src.len() as int) == src@);
}

/// Appends `src@.subrange(lo, hi)` to `dst`.
pub fn extend_range(dst: &mut Vec<char>, src: &[char], lo: usize, hi: usize)
    requires
        lo <= hi <= src@.len(),
    ensures
        final(dst)@ == old(dst)@ + src@.subrange(lo as int, hi as int),
{
    let mut i: usize = lo;
    while i < hi
        invariant
            lo <= i <= hi,
            hi <= src@.len(),
            dst@ == old(dst)@ + src@.subrange(lo as int, i as int),
        decreases hi - i,
    {
        dst.push(src[i]);
        assert(src@.subrange(lo as int, i + 1) == src@.subrange(lo as int, i as int).push(
            src@[i as int],
        ));
        i = i + 1;
    }
}

/// Character-sequence views of a sequence of character vectors.
pub open spec fn views(ls: Seq<Vec<char>>) -> Seq<Seq<char>> {
    ls.map_values(|l: Vec<char>| l@)
}

// ---------------------------------------------------------------------------
// Prefixes, search, trimming
// ---------------------------------------------------------------------------

/// `p` is a prefix of `s`.
pub open spec fn starts_with(s: Seq<char>, p: Seq<char>) -> bool {
    p.len() <= s.len() && s.take(p.len() as int) == p
}

/// `s` with its leading whitespace removed (`str::trim_start`).
pub open spec fn trim_start(s: Seq<char>) -> Seq<char>
    decreases s.len(),
{
    if s.len() > 0 && is_white_space(s[0]) {
        trim_start(s.drop_first())
    } else {
        s
    }
}

/// Index of the first character of `v` at or after which no leading
/// whitespace remains: `v@.skip(result) == trim_start(v@)`.
pub fn trim_start_index(v: &[char]) -> (k: usize)
    ensures
        k <= v@.len(),
        v@.skip(k as int) == trim_start(v@),
{
    let mut k: usize = 0;
    assert(v@.skip(0) == v@);
    while k < v.len() && is_whitespace(v[k])
        invariant
            k <= v@.len(),
            trim_start(v@.skip(k as int)) == trim_start(v@),
        decreases v.len() - k,
    {
        assert(v@.skip(k as int).drop_first() == v@.skip(k + 1));
        k = k + 1;
    }
    k
}

/// Whether `v@.skip(from)` starts with `p`.
pub fn starts_with_at(v: &[char], from: usize, p: &[char]) -> (r: bool)
    requires
        from <= v@.len(),
    ensures
        r == starts_with(v@.skip(from as int), p@),
{
    if p.len() > v.len() - from {
        return false;
    }
    let mut i: usize = 0;
    while i < p.len()
        invariant
            from <= v@.len(),
            v@.len() == v.len(),
            p@.len() <= v@.len() - from,
            i <= p@.len(),
            forall|k: int| 0 <= k < i ==> #[trigger] p@[k] == v@[from + k],
        decreases p.len() - i,
    {
        assert(i < p@.len());
        assert(from + i < v@.len());
        let idx: usize = from + i;
        if v[idx] != p[i] {
            assert(v@.skip(from as int).take(p@.len() as int)[i as int] != p@[i as int]);
            return false;
        }
        i = i + 1;
    }
    assert(v@.skip(from as int).take(p@.len() as int) =~= p@);
    true
}

/// Whether `v@.skip(from)` equals `w@`.
pub fn equals_at(v: &[char], from: usize, w: &[char]) -> (r: bool)
    requires
        from <= v@.len(),
    ensures
        r == (v@.skip(from as int) == w@),
{
    if v.len() - from != w.len() {
        assert(v@.skip(from as int).len() != w@.len());
        return false;
    }
    let b = starts_with_at(v, from, w);
    assert(v@.skip(from as int).take(w@.len() as int) == v@.skip(from as int));
    b
}

/// Whether the line is empty once leading whitespace is removed.
pub open spec fn is_blank(l: Seq<char>) -> bool {
    trim_start(l).len() == 0
}

/// First index `i >= from` at which `m` occurs in `s` (`str::find`).
pub open spec fn find_from(s: Seq<char>, m: Seq<char>, from: int) -> Option<int>
    decreases s.len() + 1 - from,
{
    if from < 0 || from + m.len() > s.len() {
        None
    } else if s.subrange(from, from + m.len()) == m {
        Some(from)
    } else {
        find_from(s, m, from + 1)
    }
}

pub proof fn lemma_find_from_bounds(s: Seq<char>, m: Seq<char>, from: int)
    ensures
        find_from(s, m, from) matches Some(p) ==> from <= p && p + m.len() <= s.len()
            && s.subrange(p, p + m.len()) == m,
    decreases s.len() + 1 - from,
{
    if from < 0 || from + m.len() > s.len() {
    } else if s.subrange(from, from + m.len()) == m {
    } else {
        lemma_find_from_bounds(s, m, from + 1);
    }
}

/// Finds the first occurrence of `m` in `v` at or after `from`.
pub fn find_chars(v: &[char], m: &[char], from: usize) -> (r: Option<usize>)
    requires
        from <= v@.len(),
    ensures
        match r {
            Some(p) => find_from(v@, m@, from as int) == Some(p as int),
            None => find_from(v@, m@, from as int) is None,
        },
        r matches Some(p) ==> from <= p && p + m@.len() <= v@.len()
            && v@.subrange(p as int, p + m@.len()) == m@,
{
    if m.len() > v.len() {
        return None;
    }
    let last: usize = v.len() - m.len();
    if from > last {
        return None;
    }
    let mut i = from;
    while i <= last
        invariant
            from <= i,
            i <= last + 1,
            last == v@.len() - m@.len(),
            from <= v@.len(),
            find_from(v@, m@, i as int) == find_from(v@, m@, from as int),
        decreases last - i,
    {
        assert(v@.skip(i as int).take(m@.len() as int) == v@.subrange(i as int, i + m@.len()));
        if starts_with_at(v, i, m) {
            proof { lemma_find_from_bounds(v@, m@, from as int); }
            return Some(i);
        }
        if i == last {
            assert(find_from(v@, m@, i + 1) is None);
            return None;
        }
        i = i + 1;
    }
    None
}

/// Start of the segment that ends at `i`: one past the last `'.'` before `i`,
/// or 0 when there is none.
pub open spec fn segment_start(s: Seq<char>, i: int) -> int
    decreases i,
{
    if i <= 0 {
        0
    } else if s[i - 1] == '.' {
        i
    } else {
        segment_start(s, i - 1)
    }
}

/// The part of `s` after its last `'.'`, or all of `s` when it has none
/// (`s.rsplit('.').next()`).
pub open spec fn after_last_dot(s: Seq<char>) -> Seq<char> {
    s.skip(segment_start(s, s.len() as int))
}

// ---------------------------------------------------------------------------
// Lines (`str::lines`) and joining them back
// ---------------------------------------------------------------------------

/// A line without its terminating `'\r'`, if it has one.
pub open spec fn strip_cr(l: Seq<char>) -> Seq<char> {
    if l.len() > 0 && l.last() == '\r' {
        l.drop_last()
    } else {
        l
    }
}

/// The lines of `s` from position `i` on, where the current line began at
/// `start`. A line ends at `'\n'` or `"\r\n"`; the final line needs no
/// terminator, and a string that ends with a terminator has no empty last line.
pub open spec fn lines_from(s: Seq<char>, start: int, i: int) -> Seq<Seq<char>>
    decreases s.len() - i,
{
    if i >= s.len() {
        if start < s.len() {
            seq![s.subrange(start, s.len() as int)]
        } else {
            seq![]
        }
    } else if s[i] == '\n' {
        seq![strip_cr(s.subrange(start, i))] + lines_from(s, i + 1, i + 1)
    } else {
        lines_from(s, start, i + 1)
    }
}

/// The lines of `s`, as `str::lines` yields them.
pub open spec fn lines(s: Seq<char>) -> Seq<Seq<char>> {
    lines_from(s, 0, 0)
}

/// Lines joined with `'\n'` between them (`[&str]::join("\n")`).
pub open spec fn join_lines(ls: Seq<Seq<char>>) -> Seq<char>
    decreases ls.len(),
{
    if ls.len() == 0 {
        seq![]
    } else if ls.len() == 1 {
        ls[0]
    } else {
        join_lines(ls.drop_last()) + seq!['\n'] + ls.last()
    }
}

proof fn lemma_views_push(ls: Seq<Vec<char>>, l: Vec<char>)
    ensures
        views(ls.push(l)) == views(ls).push(l@),
{
    assert(views(ls.push(l)) =~= views(ls).push(l@));
}

/// Splits a character vector into its lines.
pub fn split_lines(v: &[char]) -> (r: Vec<Vec<char>>)
    ensures
        views(r@) == lines(v@),
{
    let mut out: Vec<Vec<char>> = Vec::new();
    let mut cur: Vec<char> = Vec::new();
    let mut start: usize = 0;
    let mut i: usize = 0;
    while i < v.len()
        invariant
            start <= i <= v@.len(),
            cur@ == v@.subrange(start as int, i as int),
            views(out@) + lines_from(v@, start as int, i as int) == lines(v@),
        decreases v.len() - i,
    {
        if v[i] == '\n' {
            let ghost line = v@.subrange(start as int, i as int);
            if cur.len() > 0 && cur[cur.len() - 1] == '\r' {
                cur.pop();
            }
            assert(cur@ == strip_cr(line));
            proof {
                lemma_views_push(out@, cur);
                assert(views(out@.push(cur)) + lines_from(v@, i + 1, i + 1) =~= views(out@)
                    + lines_from(v@, start as int, i as int));
            }
            out.push(cur);
            cur = Vec::new();
            start = i + 1;
        } else {
            cur.push(v[i]);
            assert(v@.subrange(start as int, i + 1) == v@.subrange(start as int, i as int).push(
                v@[i as int],
            ));
        }
        i = i + 1;
    }
    if start < v.len() {
        proof {
            lemma_views_push(out@, cur);
            assert(views(out@.push(cur)) =~= views(out@) + lines_from(
                v@,
                start as int,
                i as int,
            ));
        }
        out.push(cur);
    } else {
        assert(views(out@) =~= views(out@) + lines_from(v@, start as int, i as int));
    }
    out
}

/// Joins lines with `'\n'` and appends a final `'\n'`
/// (`lines.join("\n") + "\n"`).
pub fn join_lines_nl(ls: &Vec<Vec<char>>) -> (r: Vec<char>)
    ensures
        r@ == join_lines(views(ls@)) + seq!['\n'],
{
    let mut out: Vec<char> = Vec::new();
    let mut i: usize = 0;
    while i < ls.len()
        invariant
            i <= ls@.len(),
            out@ == join_lines(views(ls@).take(i as int)),
        decreases ls.len() - i,
    {
        let ghost prefix = views(ls@).take(i as int);
        let ghost next = views(ls@).take(i + 1);
        assert(next.drop_last() == prefix);
        assert(next.last() == ls@[i as int]@);
        if i > 0 {
            out.push('\n');
        }
        extend_chars(&mut out, ls[i].as_slice());
        proof {
            if i == 0 {
                assert(next.len() == 1);
            }
        }
        i = i + 1;
    }
    assert(views(ls@).take(ls@.len() as int) == views(ls@));
    out.push('\n');
    out
}

} // verus!

verus! {

// ---------------------------------------------------------------------------
// Facts about lines, joining and trimming
// ---------------------------------------------------------------------------

/// The sequence holds no `'\n'`.
pub open spec fn no_newline(l: Seq<char>) -> bool {
    forall|k: int| 0 <= k < l.len() ==> l[k] != '\n'
}

/// No element of `ls` holds a `'\n'`.
pub open spec fn all_no_newline(ls: Seq<Seq<char>>) -> bool {
    forall|k: int| 0 <= k < ls.len() ==> no_newline(#[trigger] ls[k])
}

/// Every line with one trailing `'\r'` removed.
pub open spec fn strip_all(ls: Seq<Seq<char>>) -> Seq<Seq<char>> {
    ls.map_values(|l: Seq<char>| strip_cr(l))
}

proof fn lemma_lines_scan(s: Seq<char>, start: int, i: int, e: int)
    requires
        0 <= start <= i <= e < s.len(),
        s[e] == '\n',
        forall|k: int| i <= k < e ==> s[k] != '\n',
    ensures
        lines_from(s, start, i) == seq![strip_cr(s.subrange(start, e))] + lines_from(
            s,
            e + 1,
            e + 1,
        ),
    decreases e - i,
{
    if i < e {
        lemma_lines_scan(s, start, i + 1, e);
    }
}

proof fn lemma_lines_shift(p: Seq<char>, r: Seq<char>, st: int, i: int)
    requires
        0 <= st <= i,
    ensures
        lines_from(p + r, p.len() + st, p.len() + i) == lines_from(r, st, i),
    decreases r.len() - i,
{
    let s = p + r;
    if i >= r.len() {
        if st < r.len() {
            assert(s.subrange(p.len() + st, s.len() as int) =~= r.subrange(st, r.len() as int));
        }
    } else if r[i] == '\n' {
        lemma_lines_shift(p, r, i + 1, i + 1);
        assert(s.subrange(p.len() + st, p.len() + i) =~= r.subrange(st, i));
    } else {
        lemma_lines_shift(p, r, st, i + 1);
    }
}

/// A line followed by `'\n'` and more text: its lines are that line (without
/// a trailing `'\r'`) followed by the lines of the rest.
pub proof fn lemma_lines_cons(a: Seq<char>, r: Seq<char>)
    requires
        no_newline(a),
    ensures
        lines(a + seq!['\n'] + r) == seq![strip_cr(a)] + lines(r),
{
    let s = a + seq!['\n'] + r;
    lemma_lines_scan(s, 0, 0, a.len() as int);
    assert(s.subrange(0, a.len() as int) =~= a);
    lemma_lines_shift(a + seq!['\n'], r, 0, 0);
}

proof fn lemma_lines_from_no_newline(s: Seq<char>, start: int, i: int)
    requires
        0 <= start <= i,
        forall|k: int| start <= k < i && k < s.len() ==> s[k] != '\n',
    ensures
        all_no_newline(lines_from(s, start, i)),
    decreases s.len() - i,
{
    if i >= s.len() {
    } else if s[i] == '\n' {
        lemma_lines_from_no_newline(s, i + 1, i + 1);
        let l = s.subrange(start, i);
        assert(no_newline(strip_cr(l)));
        let rest = lines_from(s, i + 1, i + 1);
        assert forall|k: int| 0 <= k < (seq![strip_cr(l)] + rest).len() implies no_newline(
            #[trigger] (seq![strip_cr(l)] + rest)[k],
        ) by {
            if k > 0 {
                assert((seq![strip_cr(l)] + rest)[k] == rest[k - 1]);
            }
        }
    } else {
        lemma_lines_from_no_newline(s, start, i + 1);
    }
}

/// No line of a text holds a `'\n'`.
pub proof fn lemma_lines_no_newline(s: Seq<char>)
    ensures
        all_no_newline(lines(s)),
{
    lemma_lines_from_no_newline(s, 0, 0);
}

/// Joining at least two lines: the first line, a `'\n'`, and the rest joined.
pub proof fn lemma_join_unfold_front(ls: Seq<Seq<char>>)
    requires
        ls.len() >= 2,
    ensures
        join_lines(ls) == ls[0] + seq!['\n'] + join_lines(ls.drop_first()),
    decreases ls.len(),
{
    if ls.len() == 2 {
        assert(ls.drop_last().len() == 1);
        assert(ls.drop_first().len() == 1);
        assert(join_lines(ls.drop_last()) == ls[0]);
        assert(join_lines(ls.drop_first()) == ls[1]);
    } else {
        let dl = ls.drop_last();
        let df = ls.drop_first();
        lemma_join_unfold_front(dl);
        assert(df.drop_last() =~= dl.drop_first());
        assert(df.last() == ls.last());
        assert(dl[0] == ls[0]);
        assert(join_lines(df) == join_lines(df.drop_last()) + seq!['\n'] + df.last());
        assert(join_lines(ls) == join_lines(dl) + seq!['\n'] + ls.last());
        assert(join_lines(ls) =~= ls[0] + seq!['\n'] + join_lines(df));
    }
}

/// Joined lines followed by a final `'\n'` split back into the same lines,
/// each without one trailing `'\r'`.
pub proof fn lemma_lines_of_joined(ls: Seq<Seq<char>>)
    requires
        ls.len() > 0,
        all_no_newline(ls),
    ensures
        lines(join_lines(ls) + seq!['\n']) == strip_all(ls),
    decreases ls.len(),
{
    let empty: Seq<char> = seq![];
    if ls.len() == 1 {
        assert(ls[0] + seq!['\n'] =~= ls[0] + seq!['\n'] + empty);
        lemma_lines_cons(ls[0], empty);
        assert(lines(empty) =~= Seq::<Seq<char>>::empty());
        assert(strip_all(ls) =~= seq![strip_cr(ls[0])]);
    } else {
        lemma_join_unfold_front(ls);
        let rest = ls.drop_first();
        assert(no_newline(ls[0]));
        assert(all_no_newline(rest)) by {
            assert forall|k: int| 0 <= k < rest.len() implies no_newline(#[trigger] rest[k]) by {
                assert(rest[k] == ls[k + 1]);
            }
        }
        lemma_lines_of_joined(rest);
        assert(join_lines(ls) + seq!['\n'] =~= ls[0] + seq!['\n'] + (join_lines(rest) + seq![
            '\n',
        ]));
        lemma_lines_cons(ls[0], join_lines(rest) + seq!['\n']);
        assert(strip_all(ls) =~= seq![strip_cr(ls[0])] + strip_all(rest));
    }
}

/// Leading-whitespace removal of a concatenation.
pub proof fn lemma_trim_start_concat(a: Seq<char>, b: Seq<char>)
    ensures
        trim_start(a + b) == if trim_start(a).len() == 0 {
            trim_start(b)
        } else {
            trim_start(a) + b
        },
    decreases a.len(),
{
    if a.len() == 0 {
        assert(a + b =~= b);
    } else if is_white_space(a[0]) {
        assert((a + b).drop_first() =~= a.drop_first() + b);
        lemma_trim_start_concat(a.drop_first(), b);
    } else {
        assert((a + b)[0] == a[0]);
    }
}

/// A prefix whose last character differs from `c` is a prefix of `t` exactly
/// when it is a prefix of `t` followed by `c`.
pub proof fn lemma_starts_with_push(t: Seq<char>, p: Seq<char>, c: char)
    requires
        p.len() > 0,
        p.last() != c,
    ensures
        starts_with(t.push(c), p) == starts_with(t, p),
{
    if t.len() >= p.len() {
        assert(t.push(c).take(p.len() as int) =~= t.take(p.len() as int));
    } else if t.len() + 1 == p.len() {
        assert(t.push(c).take(p.len() as int).last() == c);
    }
}

/// Removing a trailing `'\r'` changes neither whether a line is blank nor
/// whether, after its leading whitespace, it starts with `p` (for a nonempty
/// `p` that does not end with `'\r'`).
pub proof fn lemma_strip_cr_line(l: Seq<char>, p: Seq<char>)
    requires
        p.len() > 0,
        p.last() != '\r',
    ensures
        starts_with(trim_start(strip_cr(l)), p) == starts_with(trim_start(l), p),
        is_blank(strip_cr(l)) == is_blank(l),
{
    if l.len() > 0 && l.last() == '\r' {
        let x = l.drop_last();
        assert(l =~= x + seq!['\r']);
        lemma_trim_start_concat(x, seq!['\r']);
        let cr: Seq<char> = seq!['\r'];
        assert(trim_start(cr.drop_first()) == trim_start(cr.drop_first()));
        assert(cr.drop_first() =~= Seq::<char>::empty());
        assert(trim_start(cr).len() == 0);
        if trim_start(x).len() != 0 {
            assert(trim_start(x) + cr =~= trim_start(x).push('\r'));
            lemma_starts_with_push(trim_start(x), p, '\r');
        }
    }
}

/// The sequence holds no `c`.
pub open spec fn avoids(l: Seq<char>, c: char) -> bool {
    forall|k: int| 0 <= k < l.len() ==> l[k] != c
}

proof fn lemma_lines_from_avoid_cr(s: Seq<char>, start: int, i: int)
    requires
        0 <= start <= i,
        avoids(s, '\r'),
    ensures
        forall|k: int|
            0 <= k < lines_from(s, start, i).len() ==> avoids(
                #[trigger] lines_from(s, start, i)[k],
                '\r',
            ),
    decreases s.len() - i,
{
    if i >= s.len() {
        if start < s.len() {
            let l = s.subrange(start, s.len() as int);
            assert forall|k: int| 0 <= k < l.len() implies l[k] != '\r' by {
                assert(l[k] == s[start + k]);
            }
            assert(lines_from(s, start, i) == seq![l]);
        } else {
            assert(lines_from(s, start, i).len() == 0);
        }
    } else if s[i] == '\n' {
        lemma_lines_from_avoid_cr(s, i + 1, i + 1);
        let l0 = s.subrange(start, i);
        assert forall|k: int| 0 <= k < l0.len() implies l0[k] != '\r' by {
            assert(l0[k] == s[start + k]);
        }
        let l = strip_cr(l0);
        assert(avoids(l, '\r'));
        let rest = lines_from(s, i + 1, i + 1);
        assert(lines_from(s, start, i) == seq![l] + rest);
        assert forall|k: int| 0 <= k < (seq![l] + rest).len() implies avoids(
            #[trigger] (seq![l] + rest)[k],
            '\r',
        ) by {
            if k > 0 {
                assert((seq![l] + rest)[k] == rest[k - 1]);
            }
        }
    } else {
        lemma_lines_from_avoid_cr(s, start, i + 1);
        assert(lines_from(s, start, i) == lines_from(s, start, i + 1));
    }
}

/// In a text without `'\r'`, no line holds a `'\r'`, so removing trailing
/// `'\r'`s changes no line.
pub proof fn lemma_lines_avoid_cr(s: Seq<char>)
    requires
        avoids(s, '\r'),
    ensures
        forall|k: int| 0 <= k < lines(s).len() ==> avoids(#[trigger] lines(s)[k], '\r'),
        strip_all(lines(s)) == lines(s),
{
    lemma_lines_from_avoid_cr(s, 0, 0);
    let ls = lines(s);
    assert forall|k: int| 0 <= k < ls.len() implies #[trigger] strip_all(ls)[k] == ls[k] by {
        if ls[k].len() > 0 {
            assert(ls[k][ls[k].len() - 1] != '\r');
        }
    }
    assert(strip_all(ls) =~= ls);
}

proof fn lemma_lines_from_nonempty(s: Seq<char>, start: int, i: int)
    requires
        0 <= start <= i,
        start < s.len(),
    ensures
        lines_from(s, start, i).len() > 0,
    decreases s.len() - i,
{
    if i < s.len() && s[i] != '\n' {
        lemma_lines_from_nonempty(s, start, i + 1);
    }
}

proof fn lemma_join_terminated_from(s: Seq<char>, start: int, i: int)
    requires
        0 <= start <= i,
        start < s.len(),
        s.last() == '\n',
        avoids(s, '\r'),
        forall|k: int| start <= k < i ==> s[k] != '\n',
    ensures
        join_lines(lines_from(s, start, i)) + seq!['\n'] == s.subrange(start, s.len() as int),
    decreases s.len() - i,
{
    assert(i < s.len()) by {
        if i >= s.len() {
            assert(s[s.len() - 1] != '\n');
        }
    }
    if s[i] == '\n' {
        let a = s.subrange(start, i);
        if a.len() > 0 {
            assert(a.last() == s[i - 1]);
        }
        assert(strip_cr(a) == a);
        let rest = lines_from(s, i + 1, i + 1);
        if i + 1 == s.len() {
            assert(rest =~= Seq::<Seq<char>>::empty());
            assert(seq![a] + rest =~= seq![a]);
            assert(a + seq!['\n'] =~= s.subrange(start, s.len() as int));
        } else {
            lemma_join_terminated_from(s, i + 1, i + 1);
            lemma_lines_from_nonempty(s, i + 1, i + 1);
            let all = seq![a] + rest;
            assert(all[0] == a);
            assert(all.drop_first() =~= rest);
            lemma_join_unfold_front(all);
            assert(join_lines(all) + seq!['\n'] =~= a + seq!['\n'] + (join_lines(rest) + seq![
                '\n',
            ]));
            assert(s.subrange(start, s.len() as int) =~= a + seq!['\n'] + s.subrange(
                i + 1,
                s.len() as int,
            ));
        }
    } else {
        lemma_join_terminated_from(s, start, i + 1);
    }
}

/// A nonempty text without `'\r'` that ends with `'\n'` is its lines joined
/// with `'\n'` plus a final `'\n'`.
pub proof fn lemma_join_lines_terminated(s: Seq<char>)
    requires
        s.len() > 0,
        s.last() == '\n',
        avoids(s, '\r'),
    ensures
        join_lines(lines(s)) + seq!['\n'] == s,
{
    lemma_join_terminated_from(s, 0, 0);
    assert(s.subrange(0, s.len() as int) =~= s);
}

} // verus!
