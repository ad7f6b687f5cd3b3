//! Character-level string operations with stated semantics.
use vstd::prelude::*;

verus! {

/// Appends one character to a string (`String::push`).
#[verifier::external_body]
pub(crate) fn push_char(s: &mut String, c: char)
    ensures
        final(s)@ == old(s)@.push(c),
{
    s.push(c);
}

/// The characters of a string slice, in order.
pub fn chars_of(s: &str) -> (out: Vec<char>)
    ensures
        out@ == s@,
{
    let mut out: Vec<char> = Vec::new();
    for c in it: s.chars()
        invariant
            out@ == it.seq().take(it.index() as int),
            it.seq() == s@,
    {
        out.push(c);
    }
    out
}

/// Appends the characters `v[from..to]` to `s`.
pub fn push_chars(s: &mut String, v: &Vec<char>, from: usize, to: usize)
    requires
        from <= to <= v.len(),
    ensures
        final(s)@ == old(s)@ + v@.subrange(from as int, to as int),
{
    let mut i: usize = from;
    while i < to
        invariant
            from <= i <= to <= v.len(),
            s@ == old(s)@ + v@.subrange(from as int, i as int),
        decreases to - i,
    {
        push_char(s, v[i]);
        i = i + 1;
        assert(s@ =~= old(s)@ + v@.subrange(from as int, i as int));
    }
}

/// A string holding `v[from..to]`.
pub fn string_of(v: &Vec<char>, from: usize, to: usize) -> (out: String)
    requires
        from <= to <= v.len(),
    ensures
        out@ == v@.subrange(from as int, to as int),
{
    let mut out = String::new();
    push_chars(&mut out, v, from, to);
    assert(out@ =~= v@.subrange(from as int, to as int));
    out
}

/// Appends a string slice to `s`.
pub fn push_str(s: &mut String, t: &str)
    ensures
        final(s)@ == old(s)@ + t@,
{
    let v = chars_of(t);
    push_chars(s, &v, 0, v.len());
    assert(v@.subrange(0, v@.len() as int) =~= v@);
}

/// `a` followed by `b`.
pub fn concat(a: &str, b: &str) -> (out: String)
    ensures
        out@ == a@ + b@,
{
    let mut out = String::new();
    push_str(&mut out, a);
    push_str(&mut out, b);
    assert(out@ =~= a@ + b@);
    out
}

/// Character-wise equality of two character vectors.
pub fn chars_eq(a: &Vec<char>, b: &Vec<char>) -> (r: bool)
    ensures
        r == (a@ == b@),
{
    if a.len() != b.len() {
        return false;
    }
    let mut i: usize = 0;
    while i < a.len()
        invariant
            a.len() == b.len(),
            0 <= i <= a.len(),
            forall|k: int| 0 <= k < i ==> a@[k] == b@[k],
        decreases a.len() - i,
    {
        if a[i] != b[i] {
            return false;
        }
        i = i + 1;
    }
    assert(a@ =~= b@);
    true
}

/// Equality of two string slices.
pub fn str_eq(a: &str, b: &str) -> (r: bool)
    ensures
        r == (a@ == b@),
{
    let va = chars_of(a);
    let vb = chars_of(b);
    chars_eq(&va, &vb)
}

/// Whether `p` occurs in `s` starting at position `i`.
pub open spec fn occurs_at(s: Seq<char>, p: Seq<char>, i: int) -> bool {
    0 <= i && i + p.len() <= s.len() && s.subrange(i, i + p.len()) == p
}

/// Whether `p` occurs anywhere in `s`.
pub open spec fn contains_seq(s: Seq<char>, p: Seq<char>) -> bool {
    exists|i: int| occurs_at(s, p, i)
}

/// Whether `p` occurs in `s` at position `i` (vector form).
pub fn occurs_at_exec(s: &Vec<char>, p: &Vec<char>, i: usize) -> (r: bool)
    ensures
        r == occurs_at(s@, p@, i as int),
{
    if i > s.len() || p.len() > s.len() - i {
        return false;
    }
    let mut k: usize = 0;
    while k < p.len()
        invariant
            i + p.len() <= s.len(),
            0 <= k <= p.len(),
            forall|j: int| 0 <= j < k ==> s@[i + j] == p@[j],
        decreases p.len() - k,
    {
        if s[i + k] != p[k] {
            assert(s@.subrange(i as int, i + p.len())[k as int] != p@[k as int]);
            return false;
        }
        k = k + 1;
    }
    assert(s@.subrange(i as int, i + p.len()) =~= p@);
    true
}

/// The first position at or after `from` where `p` occurs in `s`.
pub fn find_from(s: &Vec<char>, p: &Vec<char>, from: usize) -> (r: Option<usize>)
    requires
        from <= s.len(),
    ensures
        match r {
            Some(i) => from <= i && occurs_at(s@, p@, i as int)
                && forall|j: int| from <= j < i ==> !occurs_at(s@, p@, j),
            None => forall|j: int| from <= j ==> !occurs_at(s@, p@, j),
        },
{
    let mut i: usize = from;
    while i < s.len()
        invariant
            from <= i <= s.len(),
            forall|j: int| from <= j < i ==> !occurs_at(s@, p@, j),
        decreases s.len() - i,
    {
        if occurs_at_exec(s, p, i) {
            return Some(i);
        }
        i = i + 1;
    }
    if occurs_at_exec(s, p, i) {
        return Some(i);
    }
    assert forall|j: int| from <= j implies !occurs_at(s@, p@, j) by {
        if j > s.len() {
            assert(!occurs_at(s@, p@, j));
        }
    }
    None
}

/// Whether `p` occurs anywhere in `s`.
pub fn contains_str(s: &str, p: &str) -> (r: bool)
    ensures
        r == contains_seq(s@, p@),
{
    let vs = chars_of(s);
    let vp = chars_of(p);
    match find_from(&vs, &vp, 0) {
        Some(_) => true,
        None => false,
    }
}

/// Whether `s` begins with `p`.
pub fn starts_with(s: &str, p: &str) -> (r: bool)
    ensures
        r == p@.is_prefix_of(s@),
{
    let vs = chars_of(s);
    let vp = chars_of(p);
    occurs_at_exec(&vs, &vp, 0)
}

/// Whether `s` ends with `p`.
pub fn ends_with(s: &str, p: &str) -> (r: bool)
    ensures
        r == p@.is_suffix_of(s@),
{
    let vs = chars_of(s);
    let vp = chars_of(p);
    if vp.len() > vs.len() {
        return false;
    }
    occurs_at_exec(&vs, &vp, vs.len() - vp.len())
}

/// The Unicode `White_Space` property (what `char::is_whitespace` tests).
pub open spec fn is_white_space(c: char) -> bool {
    let u = c as u32;
    (0x09 <= u <= 0x0D) || u == 0x20 || u == 0x85 || u == 0xA0 || u == 0x1680 || (0x2000 <= u
        <= 0x200A) || u == 0x2028 || u == 0x2029 || u == 0x202F || u == 0x205F || u == 0x3000
}

/// Whether a character is Unicode white space.
pub fn is_white_space_exec(c: char) -> (r: bool)
    ensures
        r == is_white_space(c),
{
    let u = c as u32;
    (0x09 <= u && u <= 0x0D) || u == 0x20 || u == 0x85 || u == 0xA0 || u == 0x1680 || (0x2000
        <= u && u <= 0x200A) || u == 0x2028 || u == 0x2029 || u == 0x202F || u == 0x205F || u
        == 0x3000
}

/// `s` without its leading white space.
pub open spec fn trim_start_seq(s: Seq<char>) -> Seq<char>
    decreases s.len(),
{
    if s.len() > 0 && is_white_space(s[0]) {
        trim_start_seq(s.drop_first())
    } else {
        s
    }
}

/// `s` without its trailing white space.
pub open spec fn trim_end_seq(s: Seq<char>) -> Seq<char>
    decreases s.len(),
{
    if s.len() > 0 && is_white_space(s.last()) {
        trim_end_seq(s.drop_last())
    } else {
        s
    }
}

/// `s` without leading and trailing white space (what `str::trim` gives).
pub open spec fn trim_seq(s: Seq<char>) -> Seq<char> {
    trim_end_seq(trim_start_seq(s))
}

proof fn lemma_trim_start_suffix(s: Seq<char>)
    ensures
        trim_start_seq(s).len() <= s.len(),
        trim_start_seq(s) == s.subrange(s.len() - trim_start_seq(s).len(), s.len() as int),
    decreases s.len(),
{
    if s.len() > 0 && is_white_space(s[0]) {
        lemma_trim_start_suffix(s.drop_first());
        let t = trim_start_seq(s.drop_first());
        assert(s.drop_first().subrange(s.len() - 1 - t.len(), s.len() - 1) =~= s.subrange(
            s.len() - t.len(),
            s.len() as int,
        ));
    } else {
        assert(s.subrange(0, s.len() as int) =~= s);
    }
}

proof fn lemma_trim_end_len(s: Seq<char>)
    ensures
        trim_end_seq(s).len() <= s.len(),
    decreases s.len(),
{
    if s.len() > 0 && is_white_space(s.last()) {
        lemma_trim_end_len(s.drop_last());
    }
}

/// A non-empty string that trimming leaves unchanged neither starts nor ends with white
/// space.
pub proof fn lemma_trimmed_ends(s: Seq<char>)
    requires
        trim_seq(s) == s,
        s.len() > 0,
    ensures
        !is_white_space(s[0]),
        !is_white_space(s.last()),
{
    let t = trim_start_seq(s);
    lemma_trim_start_suffix(s);
    lemma_trim_end_len(t);
    assert(t.len() == s.len());
    assert(t =~= s);
    if is_white_space(s[0]) {
        lemma_trim_start_suffix(s.drop_first());
    }
    if is_white_space(s.last()) {
        lemma_trim_end_len(s.drop_last());
    }
}

/// The position of the first non-white-space character at or after `from`.
fn skip_white_space(v: &Vec<char>, from: usize) -> (r: usize)
    requires
        from <= v.len(),
    ensures
        from <= r <= v.len(),
        trim_start_seq(v@.subrange(from as int, v.len() as int)) == v@.subrange(
            r as int,
            v.len() as int,
        ),
{
    let mut i: usize = from;
    while i < v.len() && is_white_space_exec(v[i])
        invariant
            from <= i <= v.len(),
            trim_start_seq(v@.subrange(from as int, v.len() as int)) == trim_start_seq(
                v@.subrange(i as int, v.len() as int),
            ),
        decreases v.len() - i,
    {
        assert(v@.subrange(i as int, v.len() as int).drop_first() =~= v@.subrange(
            i + 1,
            v.len() as int,
        ));
        i = i + 1;
    }
    i
}

/// The end of `v[from..to]` once trailing white space is removed.
fn trailing_white_space_start(v: &Vec<char>, from: usize, to: usize) -> (r: usize)
    requires
        from <= to <= v.len(),
    ensures
        from <= r <= to,
        trim_end_seq(v@.subrange(from as int, to as int)) == v@.subrange(from as int, r as int),
{
    let mut j: usize = to;
    while j > from && is_white_space_exec(v[j - 1])
        invariant
            from <= j <= to <= v.len(),
            trim_end_seq(v@.subrange(from as int, to as int)) == trim_end_seq(
                v@.subrange(from as int, j as int),
            ),
        decreases j - from,
    {
        assert(v@.subrange(from as int, j as int).drop_last() =~= v@.subrange(
            from as int,
            j - 1,
        ));
        j = j - 1;
    }
    j
}

/// Bounds `(a, b)` such that `v[a..b]` is `v` trimmed.
pub fn trim_bounds(v: &Vec<char>) -> (r: (usize, usize))
    ensures
        r.0 <= r.1 <= v.len(),
        trim_seq(v@) == v@.subrange(r.0 as int, r.1 as int),
{
    let a = skip_white_space(v, 0);
    let b = trailing_white_space_start(v, a, v.len());
    assert(v@.subrange(0, v.len() as int) =~= v@);
    (a, b)
}

/// `s` without its trailing white space (`str::trim_end`).
pub fn trim_end(s: &str) -> (out: String)
    ensures
        out@ == trim_end_seq(s@),
{
    let v = chars_of(s);
    let e = trailing_white_space_start(&v, 0, v.len());
    assert(v@.subrange(0, v.len() as int) =~= v@);
    string_of(&v, 0, e)
}

/// `s` with leading and trailing white space removed (`str::trim`).
pub fn trim(s: &str) -> (out: String)
    ensures
        out@ == trim_seq(s@),
{
    let v = chars_of(s);
    let (a, b) = trim_bounds(&v);
    string_of(&v, a, b)
}

/// ASCII lower-casing of one character (`char::to_ascii_lowercase`).
pub open spec fn ascii_lower(c: char) -> char {
    if 'A' <= c && c <= 'Z' {
        ((c as u32) + 32) as char
    } else {
        c
    }
}

/// ASCII lower-casing of one character.
pub fn ascii_lower_exec(c: char) -> (r: char)
    ensures
        r == ascii_lower(c),
{
    if 'A' <= c && c <= 'Z' {
        let u: u8 = ((c as u32) + 32) as u8;
        u as char
    } else {
        c
    }
}

/// Whether two strings are equal ignoring ASCII case (`str::eq_ignore_ascii_case`).
pub open spec fn eq_ignore_ascii_case_seq(a: Seq<char>, b: Seq<char>) -> bool {
    a.len() == b.len() && forall|i: int| 0 <= i < a.len() ==> ascii_lower(a[i]) == ascii_lower(b[i])
}

/// Whether two character vectors are equal ignoring ASCII case.
pub fn eq_ignore_ascii_case(a: &Vec<char>, b: &Vec<char>) -> (r: bool)
    ensures
        r == eq_ignore_ascii_case_seq(a@, b@),
{
    if a.len() != b.len() {
        return false;
    }
    let mut i: usize = 0;
    while i < a.len()
        invariant
            a.len() == b.len(),
            0 <= i <= a.len(),
            forall|k: int| 0 <= k < i ==> ascii_lower(a@[k]) == ascii_lower(b@[k]),
        decreases a.len() - i,
    {
        if ascii_lower_exec(a[i]) != ascii_lower_exec(b[i]) {
            return false;
        }
        i = i + 1;
    }
    true
}

/// The decimal digit character for `d < 10`.
pub open spec fn digit_char(d: nat) -> char {
    ((d + 48) as u32) as char
}

/// The decimal representation of `n`, without leading zeros (`"0"` for zero).
pub open spec fn decimal(n: nat) -> Seq<char>
    decreases n,
{
    if n < 10 {
        seq![digit_char(n)]
    } else {
        decimal(n / 10).push(digit_char(n % 10))
    }
}

/// Appends the decimal representation of `n` to `out`.
pub fn push_decimal(out: &mut String, n: u64)
    ensures
        final(out)@ == old(out)@ + decimal(n as nat),
    decreases n,
{
    if n >= 10 {
        push_decimal(out, n / 10);
    }
    let d: u8 = (n % 10) as u8;
    let c: char = (d + 48) as char;
    assert(c == digit_char((n % 10) as nat));
    push_char(out, c);
    proof {
        if n >= 10 {
            assert(decimal(n as nat) == decimal((n / 10) as nat).push(c));
            assert(old(out)@ + decimal(n as nat) =~= out@);
        } else {
            assert(decimal(n as nat) == seq![c]);
            assert(old(out)@ + decimal(n as nat) =~= out@);
        }
    }
}

/// The decimal representation of an unsigned integer (`u64::to_string`).
pub fn decimal_string(n: u64) -> (out: String)
    ensures
        out@ == decimal(n as nat),
{
    let mut out = String::new();
    push_decimal(&mut out, n);
    assert(out@ =~= decimal(n as nat));
    out
}

/// Length of the first line of `s`: the position of its first `'\n'`, or its length.
pub open spec fn line_end(s: Seq<char>) -> nat
    decreases s.len(),
{
    if s.len() == 0 {
        0
    } else if s[0] == '\n' {
        0
    } else {
        1 + line_end(s.drop_first())
    }
}

proof fn lemma_line_end_bound(s: Seq<char>)
    ensures
        line_end(s) <= s.len(),
        line_end(s) < s.len() ==> s[line_end(s) as int] == '\n',
        forall|j: int| 0 <= j < line_end(s) ==> s[j] != '\n',
    decreases s.len(),
{
    if s.len() > 0 && s[0] != '\n' {
        lemma_line_end_bound(s.drop_first());
        assert forall|j: int| 0 <= j < line_end(s) implies s[j] != '\n' by {
            if j > 0 {
                assert(s[j] == s.drop_first()[j - 1]);
            }
        }
    }
}

/// A line with one trailing carriage return removed.
pub open spec fn strip_cr(l: Seq<char>) -> Seq<char> {
    if l.len() > 0 && l.last() == '\r' {
        l.drop_last()
    } else {
        l
    }
}

/// The lines of `s` as `str::lines` yields them: split after each `'\n'`, one `'\r'`
/// before that `'\n'` dropped, and no empty line after a final `'\n'`.
pub open spec fn lines_seq(s: Seq<char>) -> Seq<Seq<char>>
    decreases s.len(),
{
    if s.len() == 0 {
        Seq::empty()
    } else {
        let k = line_end(s);
        if k >= s.len() {
            seq![s]
        } else {
            seq![strip_cr(s.subrange(0, k as int))] + lines_seq(s.subrange(k as int + 1, s.len() as int))
        }
    }
}

/// A first line free of newlines ends where its text ends.
pub proof fn lemma_line_end_prefix(a: Seq<char>, s: Seq<char>)
    requires
        forall|j: int| 0 <= j < a.len() ==> a[j] != '\n',
    ensures
        line_end(a + s) == a.len() + line_end(s),
    decreases a.len(),
{
    if a.len() > 0 {
        assert((a + s).drop_first() =~= a.drop_first() + s);
        lemma_line_end_prefix(a.drop_first(), s);
    } else {
        assert(a + s =~= s);
    }
}

/// A line free of newlines, a newline, then more text: the line comes first.
pub proof fn lemma_lines_cons(a: Seq<char>, rest: Seq<char>)
    requires
        forall|j: int| 0 <= j < a.len() ==> a[j] != '\n',
    ensures
        lines_seq(a + seq!['\n'] + rest) == seq![strip_cr(a)] + lines_seq(rest),
{
    let x = a + seq!['\n'] + rest;
    assert(x =~= a + (seq!['\n'] + rest));
    lemma_line_end_prefix(a, seq!['\n'] + rest);
    assert((seq!['\n'] + rest)[0] == '\n');
    assert(line_end(seq!['\n'] + rest) == 0);
    assert(x.subrange(0, a.len() as int) =~= a);
    assert(x.subrange(a.len() as int + 1, x.len() as int) =~= rest);
}

/// The position of the first `'\n'` at or after `from`, or the length of `v`.
fn next_newline(v: &Vec<char>, from: usize) -> (r: usize)
    requires
        from <= v.len(),
    ensures
        from <= r <= v.len(),
        r - from == line_end(v@.subrange(from as int, v.len() as int)),
{
    let mut i: usize = from;
    while i < v.len() && v[i] != '\n'
        invariant
            from <= i <= v.len(),
            line_end(v@.subrange(from as int, v.len() as int)) == (i - from) + line_end(
                v@.subrange(i as int, v.len() as int),
            ),
        decreases v.len() - i,
    {
        assert(v@.subrange(i as int, v.len() as int).drop_first() =~= v@.subrange(
            i + 1,
            v.len() as int,
        ));
        i = i + 1;
    }
    i
}

/// The lines of `s` (`str::lines`).
pub fn lines(s: &str) -> (out: Vec<String>)
    ensures
        out@.map_values(|l: String| l@) == lines_seq(s@),
{
    let v = chars_of(s);
    let mut out: Vec<String> = Vec::new();
    let mut i: usize = 0;
    assert(v@.subrange(0, v.len() as int) =~= v@);
    while i < v.len()
        invariant
            i <= v.len(),
            v@ == s@,
            lines_seq(s@) == out@.map_values(|l: String| l@) + lines_seq(
                v@.subrange(i as int, v.len() as int),
            ),
        decreases v.len() - i,
    {
        let ghost rest = v@.subrange(i as int, v.len() as int);
        let k = next_newline(&v, i);
        proof {
            lemma_line_end_bound(rest);
        }
        let ghost old_out = out@.map_values(|l: String| l@);
        if k == v.len() {
            let line = string_of(&v, i, k);
            out.push(line);
            assert(rest =~= v@.subrange(i as int, k as int));
            assert(lines_seq(rest) == seq![rest]);
            assert(out@.map_values(|l: String| l@) =~= old_out.push(rest));
            assert(v@.subrange(k as int, v.len() as int) =~= Seq::<char>::empty());
            assert(lines_seq(v@.subrange(k as int, v.len() as int)) =~= Seq::<Seq<char>>::empty());
            assert(old_out + lines_seq(rest) =~= out@.map_values(|l: String| l@) + lines_seq(
                v@.subrange(k as int, v.len() as int),
            ));
            i = k;
        } else {
            let mut e: usize = k;
            if e > i && v[e - 1] == '\r' {
                e = e - 1;
            }
            let line = string_of(&v, i, e);
            out.push(line);
            assert(rest.subrange(0, (k - i) as int) =~= v@.subrange(i as int, k as int));
            assert(strip_cr(v@.subrange(i as int, k as int)) =~= v@.subrange(i as int, e as int));
            assert(rest.subrange((k - i) + 1, rest.len() as int) =~= v@.subrange(
                k + 1,
                v.len() as int,
            ));
            assert(out@.map_values(|l: String| l@) =~= old_out.push(
                v@.subrange(i as int, e as int),
            ));
            assert(old_out + lines_seq(rest) =~= out@.map_values(|l: String| l@) + lines_seq(
                v@.subrange(k + 1, v.len() as int),
            ));
            i = k + 1;
        }
    }
    assert(v@.subrange(i as int, v.len() as int) =~= Seq::<char>::empty());
    assert(out@.map_values(|l: String| l@) + Seq::<Seq<char>>::empty() =~= out@.map_values(
        |l: String| l@,
    ));
    out
}

/// `s` with every trailing occurrence of `p` removed, one after another
/// (`str::trim_end_matches` with a string pattern).
pub open spec fn trim_end_matches_seq(s: Seq<char>, p: Seq<char>) -> Seq<char>
    decreases s.len(),
{
    if p.len() > 0 && p.is_suffix_of(s) {
        trim_end_matches_seq(s.subrange(0, s.len() - p.len()), p)
    } else {
        s
    }
}

/// `s` with every leading occurrence of `p` removed, one after another
/// (`str::trim_start_matches` with a string pattern).
pub open spec fn trim_start_matches_seq(s: Seq<char>, p: Seq<char>) -> Seq<char>
    decreases s.len(),
{
    if p.len() > 0 && p.is_prefix_of(s) {
        trim_start_matches_seq(s.subrange(p.len() as int, s.len() as int), p)
    } else {
        s
    }
}

/// The end of `v[..to]` once trailing occurrences of `p` are removed.
pub fn trim_end_matches_bound(v: &Vec<char>, p: &Vec<char>, to: usize) -> (r: usize)
    requires
        to <= v.len(),
    ensures
        r <= to,
        trim_end_matches_seq(v@.subrange(0, to as int), p@) == v@.subrange(0, r as int),
{
    let mut j: usize = to;
    if p.len() == 0 {
        return j;
    }
    while j >= p.len() && occurs_at_exec(v, p, j - p.len())
        invariant
            j <= to <= v.len(),
            p.len() > 0,
            trim_end_matches_seq(v@.subrange(0, to as int), p@) == trim_end_matches_seq(
                v@.subrange(0, j as int),
                p@,
            ),
        decreases j,
    {
        let ghost cur = v@.subrange(0, j as int);
        assert(cur.subrange((cur.len() - p.len()) as int, cur.len() as int) =~= v@.subrange(
            j - p.len(),
            j as int,
        ));
        assert(cur.subrange(0, cur.len() - p.len()) =~= v@.subrange(0, j - p.len()));
        j = j - p.len();
    }
    proof {
        let cur = v@.subrange(0, j as int);
        if j >= p.len() {
            assert(cur.subrange((cur.len() - p.len()) as int, cur.len() as int) =~= v@.subrange(
                j - p.len(),
                j as int,
            ));
        }
    }
    j
}

/// The start of `v[from..]` once leading occurrences of `p` are removed.
pub fn trim_start_matches_bound(v: &Vec<char>, p: &Vec<char>, from: usize) -> (r: usize)
    requires
        from <= v.len(),
    ensures
        from <= r <= v.len(),
        trim_start_matches_seq(v@.subrange(from as int, v.len() as int), p@) == v@.subrange(
            r as int,
            v.len() as int,
        ),
{
    let mut i: usize = from;
    if p.len() == 0 {
        return i;
    }
    while occurs_at_exec(v, p, i)
        invariant
            from <= i <= v.len(),
            p.len() > 0,
            trim_start_matches_seq(v@.subrange(from as int, v.len() as int), p@)
                == trim_start_matches_seq(v@.subrange(i as int, v.len() as int), p@),
        decreases v.len() - i,
    {
        let ghost cur = v@.subrange(i as int, v.len() as int);
        assert(cur.subrange(0, p.len() as int) =~= v@.subrange(i as int, i + p.len()));
        assert(cur.subrange(p.len() as int, cur.len() as int) =~= v@.subrange(
            i + p.len(),
            v.len() as int,
        ));
        i = i + p.len();
    }
    proof {
        let cur = v@.subrange(i as int, v.len() as int);
        if p.len() <= cur.len() {
            assert(cur.subrange(0, p.len() as int) =~= v@.subrange(i as int, i + p.len()));
        }
    }
    i
}

/// `str::trim_end_matches` with a string pattern.
pub fn trim_end_matches(s: &str, p: &str) -> (out: String)
    ensures
        out@ == trim_end_matches_seq(s@, p@),
{
    let v = chars_of(s);
    let vp = chars_of(p);
    let e = trim_end_matches_bound(&v, &vp, v.len());
    assert(v@.subrange(0, v.len() as int) =~= v@);
    string_of(&v, 0, e)
}

/// `str::trim_start_matches` with a string pattern.
pub fn trim_start_matches(s: &str, p: &str) -> (out: String)
    ensures
        out@ == trim_start_matches_seq(s@, p@),
{
    let v = chars_of(s);
    let vp = chars_of(p);
    let b = trim_start_matches_bound(&v, &vp, 0);
    assert(v@.subrange(0, v.len() as int) =~= v@);
    string_of(&v, b, v.len())
}

/// What `str::to_lowercase` gives: every character replaced by its Unicode lower-case
/// mapping.
pub uninterp spec fn unicode_lowercase(s: Seq<char>) -> Seq<char>;

/// `str::to_lowercase`. Unicode's case mappings (several characters each, some
/// context-dependent) are named rather than written out; the result depends on the string
/// alone.
#[verifier::external_body]
pub(crate) fn to_lowercase(s: &str) -> (r: String)
    ensures
        r@ == unicode_lowercase(s@),
{
    s.to_lowercase()
}

/// What `str::to_uppercase` gives: every character replaced by its Unicode upper-case
/// mapping.
pub uninterp spec fn unicode_uppercase(s: Seq<char>) -> Seq<char>;

/// `str::to_uppercase`. As with lower-casing, the mappings are named; the result
/// depends on the string alone.
#[verifier::external_body]
pub(crate) fn to_uppercase(s: &str) -> (r: String)
    ensures
        r@ == unicode_uppercase(s@),
{
    s.to_uppercase()
}

} // verus!
