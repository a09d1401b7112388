//! Character-level string helpers with specifications over `Seq<char>`.
//!
//! Every string in this crate is reasoned about through its view, the
//! sequence of `char`s it holds. The helpers here move between `&str`,
//! `String` and `Vec<char>`, classify ASCII characters, and read and write
//! decimal numbers exactly as `core` does.

use vstd::prelude::*;

verus! {

/// `String::push` appends one character at the end of the string.
pub assume_specification[ String::push ](s: &mut String, ch: char)
    ensures
        final(s)@ == old(s)@.push(ch),
;

/// `char::to_ascii_lowercase` maps `'A'..='Z'` to `'a'..='z'` and leaves
/// every other character unchanged.
pub assume_specification[ char::to_ascii_lowercase ](c: &char) -> (r: char)
    ensures
        r == lower(*c),
;

// ---------------------------------------------------------------------------
// Character classes
// ---------------------------------------------------------------------------

/// ASCII decimal digit.
pub open spec fn is_digit(c: char) -> bool {
    '0' <= c && c <= '9'
}

/// ASCII upper-case letter.
pub open spec fn is_upper(c: char) -> bool {
    'A' <= c && c <= 'Z'
}

/// ASCII lower-case letter.
pub open spec fn is_lower(c: char) -> bool {
    'a' <= c && c <= 'z'
}

/// ASCII letter.
pub open spec fn is_alpha(c: char) -> bool {
    is_upper(c) || is_lower(c)
}

/// ASCII letter or digit.
pub open spec fn is_alnum(c: char) -> bool {
    is_alpha(c) || is_digit(c)
}

/// ASCII character (code point below 128).
pub open spec fn is_ascii_char(c: char) -> bool {
    (c as u32) < 128
}

/// ASCII lower-casing of one character.
pub open spec fn lower(c: char) -> char {
    if is_upper(c) {
        ((c as u32) + 32) as char
    } else {
        c
    }
}

/// ASCII lower-casing of a whole sequence.
pub open spec fn lower_seq(s: Seq<char>) -> Seq<char> {
    s.map_values(|c: char| lower(c))
}

/// Every character is ASCII.
pub open spec fn all_ascii(s: Seq<char>) -> bool {
    forall|i: int| 0 <= i < s.len() ==> is_ascii_char(#[trigger] s[i])
}

/// Every character is an ASCII digit.
pub open spec fn all_digits(s: Seq<char>) -> bool {
    forall|i: int| 0 <= i < s.len() ==> is_digit(#[trigger] s[i])
}

/// Unicode `White_Space`, the set that `char::is_whitespace`, `str::trim`
/// and `str::split_whitespace` use.
pub open spec fn is_space(c: char) -> bool {
    let u = c as u32;
    (0x9 <= u && u <= 0xD) || u == 0x20 || u == 0x85 || u == 0xA0 || u == 0x1680 || (0x2000 <= u
        && u <= 0x200A) || u == 0x2028 || u == 0x2029 || u == 0x202F || u == 0x205F || u == 0x3000
}

/// Executable ASCII digit test.
pub fn is_digit_char(c: char) -> (r: bool)
    ensures
        r == is_digit(c),
{
    '0' <= c && c <= '9'
}

/// Executable ASCII letter test.
pub fn is_alpha_char(c: char) -> (r: bool)
    ensures
        r == is_alpha(c),
{
    ('A' <= c && c <= 'Z') || ('a' <= c && c <= 'z')
}

/// Executable ASCII letter-or-digit test.
pub fn is_alnum_char(c: char) -> (r: bool)
    ensures
        r == is_alnum(c),
{
    is_alpha_char(c) || is_digit_char(c)
}

/// Executable ASCII test.
pub fn is_ascii_char_exec(c: char) -> (r: bool)
    ensures
        r == is_ascii_char(c),
{
    (c as u32) < 128
}

/// Executable Unicode whitespace test.
pub fn is_space_char(c: char) -> (r: bool)
    ensures
        r == is_space(c),
{
    let u = c as u32;
    (0x9 <= u && u <= 0xD) || u == 0x20 || u == 0x85 || u == 0xA0 || u == 0x1680 || (0x2000 <= u
        && u <= 0x200A) || u == 0x2028 || u == 0x2029 || u == 0x202F || u == 0x205F || u == 0x3000
}

// ---------------------------------------------------------------------------
// Conversions
// ---------------------------------------------------------------------------

/// The characters of a string slice, in order.
pub fn chars_of(s: &str) -> (v: Vec<char>)
    ensures
        v@ == s@,
{
    let mut v: Vec<char> = Vec::new();
    for c in it: s.chars()
        invariant
            v@ == it.seq().take(it.index() as int),
    {
        v.push(c);
    }
    v
}

/// Build a `String` holding exactly the given characters.
pub fn string_of(v: &Vec<char>) -> (s: String)
    ensures
        s@ == v@,
{
    string_of_range(v, 0, v.len())
}

/// Build a `String` from `v[from..to]`.
pub fn string_of_range(v: &Vec<char>, from: usize, to: usize) -> (s: String)
    requires
        from <= to <= v.len(),
    ensures
        s@ == v@.subrange(from as int, to as int),
{
    let mut s = String::new();
    let mut i: usize = from;
    while i < to
        invariant
            from <= i <= to <= v.len(),
            s@ == v@.subrange(from as int, i as int),
        decreases to - i,
    {
        s.push(v[i]);
        i += 1;
        assert(v@.subrange(from as int, i as int) == v@.subrange(from as int, i - 1).push(
            v@[i - 1],
        ));
    }
    s
}

/// Append the characters of `v` to `s`.
pub fn push_all(s: &mut String, v: &Vec<char>)
    ensures
        final(s)@ == old(s)@ + v@,
{
    let mut i: usize = 0;
    while i < v.len()
        invariant
            i <= v.len(),
            s@ == old(s)@ + v@.take(i as int),
        decreases v.len() - i,
    {
        s.push(v[i]);
        i += 1;
        assert(v@.take(i as int) == v@.take(i - 1).push(v@[i - 1]));
        assert(old(s)@ + v@.take(i as int) == (old(s)@ + v@.take(i - 1)).push(v@[i - 1]));
    }
    assert(v@.take(v.len() as int) == v@);
}

/// Append a string slice to `s`.
pub fn push_str(s: &mut String, t: &str)
    ensures
        final(s)@ == old(s)@ + t@,
{
    let v = chars_of(t);
    push_all(s, &v);
}

/// An owned copy of a string slice.
pub fn owned(t: &str) -> (s: String)
    ensures
        s@ == t@,
{
    let mut s = String::new();
    push_str(&mut s, t);
    assert(Seq::<char>::empty() + t@ == t@);
    s
}

/// Values that turn into an owned `String` with known contents
/// (`&str`, `String`, `&String`).
pub trait IntoText {
    /// The characters the value stands for.
    spec fn text_view(&self) -> Seq<char>;

    /// The owned string.
    fn into_text(self) -> (r: String)
        ensures
            r@ == self.text_view(),
    ;
}

impl<'a> IntoText for &'a str {
    open spec fn text_view(&self) -> Seq<char> {
        (*self)@
    }

    fn into_text(self) -> (r: String) {
        owned(self)
    }
}

impl IntoText for String {
    open spec fn text_view(&self) -> Seq<char> {
        self@
    }

    fn into_text(self) -> (r: String) {
        self
    }
}

impl<'a> IntoText for &'a String {
    open spec fn text_view(&self) -> Seq<char> {
        (*self)@
    }

    fn into_text(self) -> (r: String) {
        self.clone()
    }
}

/// Content equality of two string slices.
pub fn str_eq(a: &str, b: &str) -> (r: bool)
    ensures
        r == (a@ == b@),
{
    let x = chars_of(a);
    let y = chars_of(b);
    seq_eq(&x, &y)
}

/// Content equality of two character vectors.
pub fn seq_eq(x: &Vec<char>, y: &Vec<char>) -> (r: bool)
    ensures
        r == (x@ == y@),
{
    if x.len() != y.len() {
        return false;
    }
    let mut i: usize = 0;
    while i < x.len()
        invariant
            x.len() == y.len(),
            i <= x.len(),
            forall|j: int| 0 <= j < i ==> x@[j] == y@[j],
        decreases x.len() - i,
    {
        if x[i] != y[i] {
            return false;
        }
        i += 1;
    }
    assert(x@ =~= y@);
    true
}

/// ASCII lower-casing of a character vector.
pub fn lower_vec(v: &Vec<char>) -> (r: Vec<char>)
    ensures
        r@ == lower_seq(v@),
{
    let mut r: Vec<char> = Vec::new();
    let mut i: usize = 0;
    while i < v.len()
        invariant
            i <= v.len(),
            r@ == lower_seq(v@.take(i as int)),
        decreases v.len() - i,
    {
        r.push(v[i].to_ascii_lowercase());
        i += 1;
        assert(lower_seq(v@.take(i as int)) =~= lower_seq(v@.take(i - 1)).push(lower(v@[i - 1])));
    }
    assert(v@.take(v.len() as int) == v@);
    r
}

/// ASCII lower-casing of a string slice.
pub fn to_lower(s: &str) -> (r: String)
    ensures
        r@ == lower_seq(s@),
{
    let v = chars_of(s);
    let l = lower_vec(&v);
    string_of(&l)
}

/// Whether every character of `v` is ASCII.
pub fn vec_all_ascii(v: &Vec<char>) -> (r: bool)
    ensures
        r == all_ascii(v@),
{
    let mut i: usize = 0;
    while i < v.len()
        invariant
            i <= v.len(),
            forall|j: int| 0 <= j < i ==> is_ascii_char(#[trigger] v@[j]),
        decreases v.len() - i,
    {
        if !is_ascii_char_exec(v[i]) {
            return false;
        }
        i += 1;
    }
    true
}

// ---------------------------------------------------------------------------
// Sequence searching
// ---------------------------------------------------------------------------

/// `s` begins with `p`.
pub open spec fn starts_with(s: Seq<char>, p: Seq<char>) -> bool {
    p.len() <= s.len() && s.take(p.len() as int) == p
}

/// `s` ends with `p`.
pub open spec fn ends_with(s: Seq<char>, p: Seq<char>) -> bool {
    p.len() <= s.len() && s.skip(s.len() - p.len()) == p
}

/// `s` contains the character `c`.
pub open spec fn has_char(s: Seq<char>, c: char) -> bool {
    exists|i: int| 0 <= i < s.len() && s[i] == c
}

/// Index of the first `c` in `s`, or `s.len()` when there is none.
pub open spec fn first_index(s: Seq<char>, c: char) -> int
    decreases s.len(),
{
    if s.len() == 0 {
        0
    } else if s[0] == c {
        0
    } else {
        1 + first_index(s.drop_first(), c)
    }
}

/// Facts about [`first_index`].
pub proof fn lemma_first_index(s: Seq<char>, c: char)
    ensures
        0 <= first_index(s, c) <= s.len(),
        forall|j: int| 0 <= j < first_index(s, c) ==> s[j] != c,
        first_index(s, c) < s.len() ==> s[first_index(s, c)] == c,
        (first_index(s, c) < s.len()) == has_char(s, c),
    decreases s.len(),
{
    if s.len() > 0 && s[0] != c {
        lemma_first_index(s.drop_first(), c);
        assert forall|j: int| 0 <= j < first_index(s, c) implies s[j] != c by {
            if j > 0 {
                assert(s[j] == s.drop_first()[j - 1]);
            }
        }
        if has_char(s, c) {
            let k = choose|k: int| 0 <= k < s.len() && s[k] == c;
            assert(s.drop_first()[k - 1] == c);
        }
        if has_char(s.drop_first(), c) {
            let k = choose|k: int| 0 <= k < s.drop_first().len() && s.drop_first()[k] == c;
            assert(s[k + 1] == c);
        }
    }
}

/// Position of the first `c` in `v` (or `v.len()`).
pub fn find_char(v: &Vec<char>, c: char) -> (r: usize)
    ensures
        r == first_index(v@, c),
{
    proof {
        lemma_first_index(v@, c);
    }
    let mut i: usize = 0;
    while i < v.len()
        invariant
            i <= v.len(),
            forall|j: int| 0 <= j < i ==> v@[j] != c,
            0 <= first_index(v@, c) <= v@.len(),
            forall|j: int| 0 <= j < first_index(v@, c) ==> v@[j] != c,
            first_index(v@, c) < v@.len() ==> v@[first_index(v@, c)] == c,
        decreases v.len() - i,
    {
        if v[i] == c {
            return i;
        }
        i += 1;
    }
    i
}

/// Whether `v` ends with `p`.
pub fn vec_ends_with(v: &Vec<char>, p: &Vec<char>) -> (r: bool)
    ensures
        r == ends_with(v@, p@),
{
    if p.len() > v.len() {
        return false;
    }
    let off = v.len() - p.len();
    let mut i: usize = 0;
    while i < p.len()
        invariant
            off == v.len() - p.len(),
            i <= p.len(),
            forall|j: int| 0 <= j < i ==> v@[off + j] == p@[j],
        decreases p.len() - i,
    {
        if v[off + i] != p[i] {
            assert(v@.skip(off as int)[i as int] == v@[off + i]);
            return false;
        }
        i += 1;
    }
    assert(v@.skip(off as int) =~= p@);
    true
}

/// Whether `v` begins with `p`.
pub fn vec_starts_with(v: &Vec<char>, p: &Vec<char>) -> (r: bool)
    ensures
        r == starts_with(v@, p@),
{
    if p.len() > v.len() {
        return false;
    }
    let mut i: usize = 0;
    while i < p.len()
        invariant
            p.len() <= v.len(),
            i <= p.len(),
            forall|j: int| 0 <= j < i ==> v@[j] == p@[j],
        decreases p.len() - i,
    {
        if v[i] != p[i] {
            assert(v@.take(p.len() as int)[i as int] == v@[i as int]);
            return false;
        }
        i += 1;
    }
    assert(v@.take(p.len() as int) =~= p@);
    true
}

// ---------------------------------------------------------------------------
// Splitting
// ---------------------------------------------------------------------------

/// The pieces of `s` between occurrences of `sep`, as `str::split` yields
/// them (always at least one piece; empty pieces are kept).
pub open spec fn split(s: Seq<char>, sep: char) -> Seq<Seq<char>>
    decreases s.len(),
{
    if s.len() == 0 {
        seq![Seq::<char>::empty()]
    } else {
        let p = split(s.drop_last(), sep);
        if s.last() == sep {
            p.push(Seq::<char>::empty())
        } else {
            p.update(p.len() - 1, p.last().push(s.last()))
        }
    }
}

/// [`split`] always yields at least one piece.
pub proof fn lemma_split_nonempty(s: Seq<char>, sep: char)
    ensures
        split(s, sep).len() >= 1,
    decreases s.len(),
{
    if s.len() > 0 {
        lemma_split_nonempty(s.drop_last(), sep);
    }
}

/// A sequence without `sep` splits into itself alone.
pub proof fn lemma_split_none(s: Seq<char>, sep: char)
    requires
        !has_char(s, sep),
    ensures
        split(s, sep) == seq![s],
    decreases s.len(),
{
    if s.len() > 0 {
        let t = s.drop_last();
        assert(!has_char(t, sep)) by {
            if has_char(t, sep) {
                let k = choose|k: int| 0 <= k < t.len() && t[k] == sep;
                assert(s[k] == sep);
            }
        }
        lemma_split_none(t, sep);
        assert(s.last() != sep) by {
            assert(s[s.len() - 1] == s.last());
        }
        assert(t.push(s.last()) == s);
        let p = split(t, sep);
        assert(split(s, sep) == p.update(p.len() - 1, p.last().push(s.last())));
        assert(p.update(0, t.push(s.last())) =~= seq![s]);
    } else {
        assert(s =~= Seq::<char>::empty());
    }
}

/// Appending `sep` and then a piece without `sep` adds that piece.
pub proof fn lemma_split_append(a: Seq<char>, b: Seq<char>, sep: char)
    requires
        !has_char(b, sep),
    ensures
        split(a.push(sep) + b, sep) == split(a, sep).push(b),
    decreases b.len(),
{
    let w = a.push(sep) + b;
    if b.len() == 0 {
        assert(w == a.push(sep));
        assert(w.drop_last() == a);
        assert(split(w, sep) == split(a, sep).push(Seq::<char>::empty()));
        assert(b =~= Seq::<char>::empty());
    } else {
        let c = b.drop_last();
        assert(!has_char(c, sep)) by {
            if has_char(c, sep) {
                let k = choose|k: int| 0 <= k < c.len() && c[k] == sep;
                assert(b[k] == sep);
            }
        }
        lemma_split_append(a, c, sep);
        assert(w.drop_last() == a.push(sep) + c);
        assert(w.last() == b.last());
        assert(b.last() != sep) by {
            assert(b[b.len() - 1] == b.last());
        }
        assert(c.push(b.last()) == b);
        let p = split(a.push(sep) + c, sep);
        assert(split(w, sep) == p.update(p.len() - 1, p.last().push(b.last())));
        assert(p.update(p.len() - 1, p.last().push(b.last())) =~= split(a, sep).push(b));
    }
}

/// Splitting `a`, `sep`, `b` gives the pieces of `a` and then those of `b`.
pub proof fn lemma_split_concat(a: Seq<char>, b: Seq<char>, sep: char)
    ensures
        split(a.push(sep) + b, sep) == split(a, sep) + split(b, sep),
    decreases b.len(),
{
    let w = a.push(sep) + b;
    if b.len() == 0 {
        assert(w == a.push(sep));
        assert(w.drop_last() == a);
        assert(split(w, sep) == split(a, sep).push(Seq::<char>::empty()));
        assert(b =~= Seq::<char>::empty());
        assert(split(b, sep) == seq![Seq::<char>::empty()]);
        assert(split(a, sep).push(Seq::<char>::empty()) =~= split(a, sep) + seq![Seq::<char>::empty()]);
    } else {
        let c = b.drop_last();
        let x = b.last();
        lemma_split_concat(a, c, sep);
        crate::text::lemma_split_nonempty(c, sep);
        assert(w.drop_last() == a.push(sep) + c);
        assert(w.last() == x);
        let pa = split(a, sep);
        let q = split(c, sep);
        if x == sep {
            assert(split(w, sep) == (pa + q).push(Seq::<char>::empty()));
            assert(split(b, sep) == q.push(Seq::<char>::empty()));
            assert((pa + q).push(Seq::<char>::empty()) =~= pa + q.push(Seq::<char>::empty()));
        } else {
            let pq = pa + q;
            assert(split(w, sep) == pq.update(pq.len() - 1, pq.last().push(x)));
            assert(split(b, sep) == q.update(q.len() - 1, q.last().push(x)));
            assert(pq.update(pq.len() - 1, pq.last().push(x)) =~= pa + q.update(
                q.len() - 1,
                q.last().push(x),
            ));
        }
    }
}

/// The pieces of `v` between occurrences of `sep`.
pub fn split_vec(v: &Vec<char>, sep: char) -> (r: Vec<Vec<char>>)
    ensures
        r@.len() == split(v@, sep).len(),
        forall|i: int| 0 <= i < r@.len() ==> #[trigger] r@[i]@ == split(v@, sep)[i],
{
    let mut r: Vec<Vec<char>> = Vec::new();
    let mut cur: Vec<char> = Vec::new();
    let mut i: usize = 0;
    proof {
        lemma_split_nonempty(Seq::<char>::empty(), sep);
    }
    while i < v.len()
        invariant
            i <= v.len(),
            r@.len() + 1 == split(v@.take(i as int), sep).len(),
            forall|j: int| 0 <= j < r@.len() ==> #[trigger] r@[j]@ == split(v@.take(i as int), sep)[j],
            cur@ == split(v@.take(i as int), sep).last(),
        decreases v.len() - i,
    {
        let c = v[i];
        proof {
            lemma_split_nonempty(v@.take(i as int), sep);
            assert(v@.take(i + 1).drop_last() == v@.take(i as int));
            assert(v@.take(i + 1).last() == c);
        }
        if c == sep {
            r.push(cur);
            cur = Vec::new();
        } else {
            cur.push(c);
        }
        i += 1;
    }
    assert(v@.take(v.len() as int) == v@);
    r.push(cur);
    r
}

/// `s` without leading and trailing whitespace (`str::trim`).
pub open spec fn trimmed(s: Seq<char>) -> Seq<char>
    decreases s.len(),
{
    if s.len() > 0 && is_space(s[0]) {
        trimmed(s.drop_first())
    } else if s.len() > 0 && is_space(s.last()) {
        trimmed(s.drop_last())
    } else {
        s
    }
}

/// `s` without leading and trailing whitespace.
pub fn trim(s: &str) -> (r: String)
    ensures
        r@ == trimmed(s@),
{
    let v = chars_of(s);
    let mut lo: usize = 0;
    let mut hi: usize = v.len();
    assert(v@.subrange(0, v@.len() as int) == v@);
    while lo < hi && is_space_char(v[lo])
        invariant
            v@ == s@,
            lo <= hi <= v@.len(),
            hi == v@.len(),
            trimmed(v@.subrange(lo as int, hi as int)) == trimmed(s@),
        decreases hi - lo,
    {
        assert(v@.subrange(lo as int, hi as int).drop_first() == v@.subrange(lo + 1, hi as int));
        lo += 1;
    }
    while lo < hi && is_space_char(v[hi - 1])
        invariant
            v@ == s@,
            lo <= hi <= v@.len(),
            lo == hi || !is_space(v@[lo as int]),
            trimmed(v@.subrange(lo as int, hi as int)) == trimmed(s@),
        decreases hi - lo,
    {
        let ghost t = v@.subrange(lo as int, hi as int);
        assert(t[0] == v@[lo as int]);
        assert(t.last() == v@[hi - 1]);
        assert(t.drop_last() == v@.subrange(lo as int, hi - 1));
        hi -= 1;
    }
    let ghost t = v@.subrange(lo as int, hi as int);
    if lo < hi {
        assert(t[0] == v@[lo as int]);
        assert(t.last() == v@[hi - 1]);
    }
    assert(v@.subrange(0, v@.len() as int) == v@);
    string_of_range(&v, lo, hi)
}

/// The lines of a text as `str::lines` yields them: split at `\n`, one
/// trailing `\r` dropped from each, and no empty line after a final `\n`.
pub open spec fn text_lines(s: Seq<char>) -> Seq<Seq<char>> {
    let p = split(s, '\n');
    let q = if p.last().len() == 0 {
        p.drop_last()
    } else {
        p
    };
    q.map_values(|l: Seq<char>| if l.len() > 0 && l.last() == '\r' {
        l.drop_last()
    } else {
        l
    })
}

/// The lines of `s`, as `str::lines` yields them.
pub fn lines_of(s: &str) -> (r: Vec<String>)
    ensures
        r@.map_values(|x: String| x@) == text_lines(s@),
{
    let v = chars_of(s);
    let pieces = split_vec(&v, '\n');
    let ghost ps = pieces@.map_values(|p: Vec<char>| p@);
    assert(ps =~= split(s@, '\n'));
    proof {
        lemma_split_nonempty(s@, '\n');
    }
    let n = if pieces[pieces.len() - 1].len() == 0 {
        pieces.len() - 1
    } else {
        pieces.len()
    };
    let ghost q = if ps.last().len() == 0 {
        ps.drop_last()
    } else {
        ps
    };
    assert(q =~= ps.take(n as int));
    let ghost lines = text_lines(s@);
    let mut r: Vec<String> = Vec::new();
    let mut i: usize = 0;
    while i < n
        invariant
            n <= pieces@.len(),
            ps == pieces@.map_values(|p: Vec<char>| p@),
            q == ps.take(n as int),
            lines == q.map_values(|l: Seq<char>| if l.len() > 0 && l.last() == '\r' {
                l.drop_last()
            } else {
                l
            }),
            i <= n,
            r@.map_values(|x: String| x@) == lines.take(i as int),
        decreases n - i,
    {
        let piece = &pieces[i];
        let line = if piece.len() > 0 && piece[piece.len() - 1] == '\r' {
            let s = string_of_range(piece, 0, piece.len() - 1);
            assert(piece@.subrange(0, piece@.len() - 1) == piece@.drop_last());
            s
        } else {
            string_of(piece)
        };
        assert(lines[i as int] == line@);
        let ghost prev = r@;
        r.push(line);
        assert(lines.take(i + 1) == lines.take(i as int).push(lines[i as int]));
        assert(r@.map_values(|x: String| x@) =~= prev.map_values(|x: String| x@).push(
            lines[i as int],
        ));
        i += 1;
    }
    assert(lines.take(n as int) == lines);
    r
}

// ---------------------------------------------------------------------------
// Words and joining
// ---------------------------------------------------------------------------

/// The pieces joined with `sep` between each two.
pub open spec fn joined(pieces: Seq<Seq<char>>, sep: Seq<char>) -> Seq<char>
    decreases pieces.len(),
{
    if pieces.len() == 0 {
        Seq::empty()
    } else if pieces.len() == 1 {
        pieces[0]
    } else {
        joined(pieces.drop_last(), sep) + sep + pieces.last()
    }
}

/// The views of string slices.
pub open spec fn str_views(s: Seq<&str>) -> Seq<Seq<char>> {
    s.map_values(|x: &str| x@)
}

/// No character of `s` is whitespace.
pub open spec fn no_space(s: Seq<char>) -> bool {
    forall|i: int| 0 <= i < s.len() ==> !is_space(#[trigger] s[i])
}

/// The maximal runs of non-whitespace characters of `s`, in order, as
/// `str::split_whitespace` yields them.
pub open spec fn words(s: Seq<char>) -> Seq<Seq<char>>
    decreases s.len(),
{
    if s.len() == 0 {
        Seq::empty()
    } else {
        let p = words(s.drop_last());
        let c = s.last();
        if is_space(c) {
            p
        } else if s.len() > 1 && !is_space(s[s.len() - 2]) {
            p.update(p.len() - 1, p.last().push(c))
        } else {
            p.push(seq![c])
        }
    }
}

/// A text that ends in a non-space character has at least one word.
pub proof fn lemma_words_nonempty(s: Seq<char>)
    requires
        s.len() > 0,
        !is_space(s.last()),
    ensures
        words(s).len() > 0,
    decreases s.len(),
{
    if s.len() > 1 && !is_space(s[s.len() - 2]) {
        let t = s.drop_last();
        assert(t.last() == s[s.len() - 2]);
        lemma_words_nonempty(t);
    }
}

/// The words of `s`, as `String`s.
pub fn words_of(s: &str) -> (r: Vec<String>)
    ensures
        r@.len() == words(s@).len(),
        forall|j: int| 0 <= j < r@.len() ==> #[trigger] r@[j]@ == words(s@)[j],
{
    let v = chars_of(s);
    let mut r: Vec<String> = Vec::new();
    let mut cur = String::new();
    let mut in_word = false;
    let mut i: usize = 0;
    while i < v.len()
        invariant
            v@ == s@,
            i <= v@.len(),
            in_word == (i > 0 && !is_space(v@[i - 1])),
            in_word ==> r@.len() + 1 == words(v@.take(i as int)).len() && cur@ == words(
                v@.take(i as int),
            ).last(),
            !in_word ==> r@.len() == words(v@.take(i as int)).len(),
            forall|j: int| 0 <= j < r@.len() ==> #[trigger] r@[j]@ == words(v@.take(i as int))[j],
        decreases v.len() - i,
    {
        let c = v[i];
        let ghost t = v@.take(i + 1);
        assert(t.drop_last() == v@.take(i as int));
        assert(t.last() == c);
        if i > 0 {
            assert(t[t.len() - 2] == v@[i - 1]);
        }
        if is_space_char(c) {
            if in_word {
                r.push(cur);
                cur = String::new();
            }
            in_word = false;
        } else {
            if in_word {
                cur.push(c);
            } else {
                cur = String::new();
                cur.push(c);
                assert(cur@ =~= seq![c]);
            }
            in_word = true;
        }
        i += 1;
    }
    assert(v@.take(v.len() as int) == v@);
    if in_word {
        r.push(cur);
    }
    r
}

/// A single run without whitespace is one word.
pub proof fn lemma_words_single(w: Seq<char>)
    requires
        w.len() > 0,
        no_space(w),
    ensures
        words(w) == seq![w],
    decreases w.len(),
{
    let c = w.last();
    assert(!is_space(w[w.len() - 1]));
    if w.len() == 1 {
        assert(w.drop_last() =~= Seq::<char>::empty());
        assert(words(w.drop_last()) == Seq::<Seq<char>>::empty());
        assert(w =~= seq![c]);
        assert(Seq::<Seq<char>>::empty().push(seq![c]) =~= seq![w]);
    } else {
        let t = w.drop_last();
        assert(no_space(t)) by {
            assert forall|i: int| 0 <= i < t.len() implies !is_space(#[trigger] t[i]) by {
                assert(t[i] == w[i]);
            }
        }
        lemma_words_single(t);
        assert(!is_space(w[w.len() - 2]));
        assert(t.push(c) == w);
        assert(words(w) == seq![t].update(0, t.push(c)));
        assert(seq![t].update(0, t.push(c)) =~= seq![w]);
    }
}

/// A space and then a non-empty run without whitespace add one word.
pub proof fn lemma_words_append(a: Seq<char>, w: Seq<char>)
    requires
        w.len() > 0,
        no_space(w),
    ensures
        words(a.push(' ') + w) == words(a).push(w),
    decreases w.len(),
{
    let x = a.push(' ') + w;
    let c = w.last();
    assert(!is_space(w[w.len() - 1]));
    assert(x.last() == c);
    assert(is_space(' '));
    if w.len() == 1 {
        assert(x.drop_last() == a.push(' '));
        assert(a.push(' ').drop_last() == a);
        assert(x[x.len() - 2] == ' ');
        assert(words(a.push(' ')) == words(a));
        assert(words(x) == words(a).push(seq![c]));
        assert(w =~= seq![c]);
    } else {
        let t = w.drop_last();
        assert(no_space(t)) by {
            assert forall|i: int| 0 <= i < t.len() implies !is_space(#[trigger] t[i]) by {
                assert(t[i] == w[i]);
            }
        }
        lemma_words_append(a, t);
        assert(x.drop_last() == a.push(' ') + t);
        assert(x[x.len() - 2] == w[w.len() - 2]);
        assert(!is_space(w[w.len() - 2]));
        assert(t.push(c) == w);
        let p = words(a).push(t);
        assert(words(x) == p.update(p.len() - 1, p.last().push(c)));
        assert(p.update(p.len() - 1, p.last().push(c)) =~= words(a).push(w));
    }
}

/// Joining runs without whitespace by single spaces and splitting the
/// result at whitespace gives the runs back.
pub proof fn lemma_words_joined(ws: Seq<Seq<char>>)
    requires
        ws.len() > 0,
        forall|i: int| 0 <= i < ws.len() ==> (#[trigger] ws[i]).len() > 0 && no_space(ws[i]),
    ensures
        words(joined(ws, seq![' '])) == ws,
    decreases ws.len(),
{
    if ws.len() == 1 {
        lemma_words_single(ws[0]);
        assert(seq![ws[0]] =~= ws);
    } else {
        let t = ws.drop_last();
        assert forall|i: int| 0 <= i < t.len() implies (#[trigger] t[i]).len() > 0 && no_space(t[i]) by {
            assert(t[i] == ws[i]);
        }
        lemma_words_joined(t);
        let j = joined(t, seq![' ']);
        assert(j + seq![' '] == j.push(' '));
        assert(ws[ws.len() - 1] == ws.last());
        lemma_words_append(j, ws.last());
        assert(t.push(ws.last()) == ws);
    }
}

/// `x`, then `sep`, then `ws` joined, is `x` and `ws` joined.
pub proof fn lemma_joined_cons(x: Seq<char>, ws: Seq<Seq<char>>, sep: Seq<char>)
    requires
        ws.len() > 0,
    ensures
        x + sep + joined(ws, sep) == joined(seq![x] + ws, sep),
    decreases ws.len(),
{
    let l = seq![x] + ws;
    if ws.len() == 1 {
        assert(l.drop_last() =~= seq![x]);
        assert(l.last() == ws[0]);
        assert(joined(seq![x], sep) == x);
        assert(joined(ws, sep) == ws[0]);
        assert(joined(l, sep) == joined(l.drop_last(), sep) + sep + l.last());
    } else {
        lemma_joined_cons(x, ws.drop_last(), sep);
        assert(l.drop_last() =~= seq![x] + ws.drop_last());
        assert(l.last() == ws.last());
        assert(joined(l, sep) == joined(l.drop_last(), sep) + sep + l.last());
        assert(joined(ws, sep) == joined(ws.drop_last(), sep) + sep + ws.last());
        assert(x + sep + (joined(ws.drop_last(), sep) + sep + ws.last()) =~= (x + sep + joined(
            ws.drop_last(),
            sep,
        )) + sep + ws.last());
    }
}

/// Joining pieces without `c` by a separator without `c` gives a text
/// without `c`.
pub proof fn lemma_joined_no_char(ws: Seq<Seq<char>>, sep: Seq<char>, c: char)
    requires
        !has_char(sep, c),
        forall|i: int| 0 <= i < ws.len() ==> !has_char(#[trigger] ws[i], c),
    ensures
        !has_char(joined(ws, sep), c),
    decreases ws.len(),
{
    if ws.len() > 1 {
        let t = ws.drop_last();
        assert forall|i: int| 0 <= i < t.len() implies !has_char(#[trigger] t[i], c) by {
            assert(t[i] == ws[i]);
        }
        lemma_joined_no_char(t, sep, c);
        let j = joined(t, sep);
        let all = j + sep + ws.last();
        assert(!has_char(ws[ws.len() - 1], c));
        if has_char(all, c) {
            let k = choose|k: int| 0 <= k < all.len() && all[k] == c;
            if k < j.len() {
                assert(j[k] == c);
            } else if k < j.len() + sep.len() {
                assert(sep[k - j.len()] == c);
            } else {
                assert(ws.last()[k - j.len() - sep.len()] == c);
            }
        }
    } else if ws.len() == 1 {
        assert(!has_char(ws[0], c));
    }
}

/// The strings of `v` joined with `sep` between each two.
pub fn join_strings(v: &Vec<String>, sep: &str) -> (r: String)
    ensures
        r@ == joined(v@.map_values(|x: String| x@), sep@),
{
    let ghost all = v@.map_values(|x: String| x@);
    let mut r = String::new();
    let mut i: usize = 0;
    while i < v.len()
        invariant
            all == v@.map_values(|x: String| x@),
            i <= v@.len(),
            r@ == joined(all.take(i as int), sep@),
        decreases v.len() - i,
    {
        assert(all.take(i + 1).drop_last() == all.take(i as int));
        assert(all.take(i + 1).last() == v@[i as int]@);
        if i > 0 {
            push_str(&mut r, sep);
        } else {
            assert(r@ == Seq::<char>::empty());
        }
        push_str(&mut r, v[i].as_str());
        if i == 0 {
            assert(r@ =~= v@[0]@);
        }
        i += 1;
    }
    assert(all.take(v.len() as int) == all);
    r
}

// ---------------------------------------------------------------------------
// Decimal numbers
// ---------------------------------------------------------------------------

/// The character of one decimal digit.
pub open spec fn digit_char(d: nat) -> char {
    ((d % 10) + 48) as char
}

/// The numeric value of an ASCII digit.
pub open spec fn digit_value(c: char) -> nat {
    ((c as u32) - 48) as nat
}

/// The shortest decimal rendering of `n`, as `Display` writes it.
pub open spec fn decimal(n: nat) -> Seq<char>
    decreases n,
{
    if n < 10 {
        seq![digit_char(n)]
    } else {
        decimal(n / 10).push(digit_char(n % 10))
    }
}

/// Decimal rendering of an unsigned integer.
pub fn decimal_vec(n: u64) -> (v: Vec<char>)
    ensures
        v@ == decimal(n as nat),
    decreases n,
{
    let d = (n % 10) as u32;
    let c = char_of_digit(d);
    if n < 10 {
        let mut v = Vec::new();
        v.push(c);
        assert(v@ =~= seq![digit_char(n as nat)]);
        v
    } else {
        let mut v = decimal_vec(n / 10);
        v.push(c);
        v
    }
}

/// The character of one decimal digit.
pub fn char_of_digit(d: u32) -> (c: char)
    requires
        d < 10,
    ensures
        c == digit_char(d as nat),
{
    if d == 0 {
        '0'
    } else if d == 1 {
        '1'
    } else if d == 2 {
        '2'
    } else if d == 3 {
        '3'
    } else if d == 4 {
        '4'
    } else if d == 5 {
        '5'
    } else if d == 6 {
        '6'
    } else if d == 7 {
        '7'
    } else if d == 8 {
        '8'
    } else {
        '9'
    }
}

/// Decimal rendering of an unsigned integer, as a `String`.
pub fn decimal_string(n: u64) -> (s: String)
    ensures
        s@ == decimal(n as nat),
{
    let v = decimal_vec(n);
    string_of(&v)
}

/// Why `core` refused to parse an integer (`core::num::IntErrorKind`,
/// restricted to the kinds an unsigned parse can produce).
#[derive(Debug, Clone, Copy, PartialEq, Eq)]
pub enum IntErrorKind {
    /// The input was empty.
    Empty,
    /// A character other than an ASCII digit (after an optional `+`).
    InvalidDigit,
    /// The value exceeds the target type.
    PosOverflow,
}

/// The text of `e`'s `Display` (`ParseIntError::to_string`).
pub open spec fn int_error_text(e: IntErrorKind) -> Seq<char> {
    match e {
        IntErrorKind::Empty => "cannot parse integer from empty string"@,
        IntErrorKind::InvalidDigit => "invalid digit found in string"@,
        IntErrorKind::PosOverflow => "number too large to fit in target type"@,
    }
}

/// The message of a parse error, as `ParseIntError::to_string` writes it.
pub fn int_error_string(e: IntErrorKind) -> (s: String)
    ensures
        s@ == int_error_text(e),
{
    match e {
        IntErrorKind::Empty => owned("cannot parse integer from empty string"),
        IntErrorKind::InvalidDigit => owned("invalid digit found in string"),
        IntErrorKind::PosOverflow => owned("number too large to fit in target type"),
    }
}

/// The value of a sequence of decimal digits.
pub open spec fn digits_value(s: Seq<char>) -> nat
    decreases s.len(),
{
    if s.len() == 0 {
        0
    } else {
        digits_value(s.drop_last()) * 10 + digit_value(s.last())
    }
}

/// Scan `d` left to right as `core` does: the first non-digit gives
/// `InvalidDigit`, the first step past `max` gives `PosOverflow`.
pub open spec fn scan_digits(d: Seq<char>, max: nat) -> Result<nat, IntErrorKind>
    decreases d.len(),
{
    if d.len() == 0 {
        Ok(0)
    } else {
        match scan_digits(d.drop_last(), max) {
            Err(e) => Err(e),
            Ok(v) => if !is_digit(d.last()) {
                Err(IntErrorKind::InvalidDigit)
            } else if v * 10 + digit_value(d.last()) > max {
                Err(IntErrorKind::PosOverflow)
            } else {
                Ok(v * 10 + digit_value(d.last()))
            },
        }
    }
}

/// What `<uN as FromStr>::from_str` returns for `s`, where `max` is
/// `uN::MAX`.
pub open spec fn parse_uint(s: Seq<char>, max: nat) -> Result<nat, IntErrorKind> {
    if s.len() == 0 {
        Err(IntErrorKind::Empty)
    } else if s[0] == '+' {
        if s.len() == 1 {
            Err(IntErrorKind::InvalidDigit)
        } else {
            scan_digits(s.drop_first(), max)
        }
    } else {
        scan_digits(s, max)
    }
}

/// A successful scan stays within `max`.
pub proof fn lemma_scan_bounded(d: Seq<char>, max: nat)
    ensures
        scan_digits(d, max) is Ok ==> scan_digits(d, max)->Ok_0 <= max,
    decreases d.len(),
{
    if d.len() > 0 {
        lemma_scan_bounded(d.drop_last(), max);
    }
}

/// Parse an unsigned decimal integer no greater than `max`, exactly as
/// `core`'s `from_str` for unsigned integers does.
pub fn parse_uint_exec(s: &str, max: u64) -> (r: Result<u64, IntErrorKind>)
    ensures
        match parse_uint(s@, max as nat) {
            Ok(v) => r == Ok::<u64, IntErrorKind>(v as u64),
            Err(e) => r == Err::<u64, IntErrorKind>(e),
        },
{
    let v = chars_of(s);
    parse_uint_vec(&v, max)
}

/// [`parse_uint_exec`] on a character vector.
pub fn parse_uint_vec(v: &Vec<char>, max: u64) -> (r: Result<u64, IntErrorKind>)
    ensures
        match parse_uint(v@, max as nat) {
            Ok(n) => r == Ok::<u64, IntErrorKind>(n as u64),
            Err(e) => r == Err::<u64, IntErrorKind>(e),
        },
{
    let ghost s = v@;
    if v.len() == 0 {
        return Err(IntErrorKind::Empty);
    }
    let mut start: usize = 0;
    if v[0] == '+' {
        if v.len() == 1 {
            return Err(IntErrorKind::InvalidDigit);
        }
        start = 1;
    }
    let ghost d = v@.skip(start as int);
    assert(start == 1 ==> d == v@.drop_first());
    assert(start == 0 ==> d == v@);
    let mut acc: u64 = 0;
    let mut i: usize = start;
    while i < v.len()
        invariant
            start <= i <= v.len(),
            v@ == s,
            v@.len() > 0,
            start == 0 || start == 1,
            start == 1 ==> v@[0] == '+' && v@.len() > 1 && d == v@.drop_first(),
            start == 0 ==> v@[0] != '+' && d == v@,
            d == v@.skip(start as int),
            scan_digits(d.take(i - start), max as nat) == Ok::<nat, IntErrorKind>(acc as nat),
            acc <= max,
        decreases v.len() - i,
    {
        let c = v[i];
        assert(d.take(i + 1 - start).drop_last() == d.take(i - start));
        assert(d.take(i + 1 - start).last() == c);
        if !is_digit_char(c) {
            assert(scan_digits(d.take(i + 1 - start), max as nat) == Err::<nat, IntErrorKind>(
                IntErrorKind::InvalidDigit,
            ));
            proof {
                lemma_scan_prefix_err(d, (i + 1 - start) as nat, max as nat);
            }
            assert(scan_digits(d, max as nat) == Err::<nat, IntErrorKind>(
                IntErrorKind::InvalidDigit,
            ));
            return Err(IntErrorKind::InvalidDigit);
        }
        let dv = (c as u32 - 48) as u64;
        if dv > max || acc > (max - dv) / 10 {
            assert(acc * 10 + dv > max) by (nonlinear_arith)
                requires
                    dv > max || acc > (max - dv) / 10,
                    dv < 10,
            ;
            assert(scan_digits(d.take(i + 1 - start), max as nat) == Err::<nat, IntErrorKind>(
                IntErrorKind::PosOverflow,
            ));
            proof {
                lemma_scan_prefix_err(d, (i + 1 - start) as nat, max as nat);
            }
            return Err(IntErrorKind::PosOverflow);
        }
        assert(acc * 10 + dv <= max) by (nonlinear_arith)
            requires
                acc <= (max - dv) / 10,
                dv <= max,
        ;
        acc = acc * 10 + dv;
        i += 1;
    }
    assert(d.take(v.len() - start) == d);
    Ok(acc)
}

/// `decimal(n)` is a non-empty run of digits.
pub proof fn lemma_decimal_digits(n: nat)
    ensures
        decimal(n).len() >= 1,
        all_digits(decimal(n)),
    decreases n,
{
    if n >= 10 {
        lemma_decimal_digits(n / 10);
        assert(is_digit(digit_char(n % 10)));
    } else {
        assert(is_digit(digit_char(n)));
    }
}

/// Reading back a decimal rendering gives the number.
pub proof fn lemma_scan_decimal(n: nat, max: nat)
    requires
        n <= max,
    ensures
        scan_digits(decimal(n), max) == Ok::<nat, IntErrorKind>(n),
    decreases n,
{
    let d = decimal(n);
    if n < 10 {
        assert(d.drop_last() =~= Seq::<char>::empty());
        assert(digit_value(digit_char(n)) == n);
        assert(scan_digits(Seq::<char>::empty(), max) == Ok::<nat, IntErrorKind>(0));
        assert(d.last() == digit_char(n));
        assert(is_digit(digit_char(n)));
    } else {
        lemma_scan_decimal(n / 10, max);
        assert(d == decimal(n / 10).push(digit_char(n % 10)));
        assert(d.drop_last() == decimal(n / 10));
        assert(d.last() == digit_char(n % 10));
        assert(digit_value(digit_char(n % 10)) == n % 10);
        assert(is_digit(digit_char(n % 10)));
        assert((n / 10) * 10 + n % 10 == n);
    }
}

/// Parsing a decimal rendering gives the number back.
pub proof fn lemma_parse_decimal(n: nat, max: nat)
    requires
        n <= max,
    ensures
        parse_uint(decimal(n), max) == Ok::<nat, IntErrorKind>(n),
{
    lemma_decimal_digits(n);
    lemma_scan_decimal(n, max);
    assert(is_digit(decimal(n)[0]));
}

/// Once the scan of a prefix fails, the scan of the whole fails the same way.
pub proof fn lemma_scan_prefix_err(d: Seq<char>, k: nat, max: nat)
    requires
        k <= d.len(),
        scan_digits(d.take(k as int), max) is Err,
    ensures
        scan_digits(d, max) == scan_digits(d.take(k as int), max),
    decreases d.len() - k,
{
    if k < d.len() {
        let t = d.take(k as int + 1);
        assert(t.drop_last() == d.take(k as int));
        lemma_scan_prefix_err(d, k + 1, max);
    } else {
        assert(d.take(k as int) == d);
    }
}

/// `u16::from_str(s).ok()`.
pub fn parse_u16(s: &str) -> (r: Option<u16>)
    ensures
        r == match parse_uint(s@, u16::MAX as nat) {
            Ok(v) => Some(v as u16),
            Err(_) => None::<u16>,
        },
{
    match parse_uint_exec(s, 0xFFFF) {
        Ok(v) => Some(v as u16),
        Err(_) => None,
    }
}

/// `u32::from_str(s).ok()`.
pub fn parse_u32(s: &str) -> (r: Option<u32>)
    ensures
        r == match parse_uint(s@, u32::MAX as nat) {
            Ok(v) => Some(v as u32),
            Err(_) => None::<u32>,
        },
{
    match parse_uint_exec(s, 0xFFFF_FFFF) {
        Ok(v) => Some(v as u32),
        Err(_) => None,
    }
}

} // verus!
