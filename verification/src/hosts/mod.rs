//! `/etc/hosts` synchronization: the managed block and its lines.
//!
//! Reading and writing the file is the caller's business; this module
//! parses lines, renders the managed block, finds it in a file's text and
//! computes the text with the block replaced or removed.

use vstd::prelude::*;
use crate::routing::match_::strings_view;
use crate::text::{
    chars_of, find_char, first_index, has_char, is_space, is_space_char, join_strings, joined,
    lemma_first_index, lemma_joined_cons, lemma_joined_no_char, lemma_split_append,
    lemma_words_joined, no_space,
    owned, push_str, split, split_vec, string_of_range, words, words_of,
};

verus! {

/// The marker that starts the Portless-managed block.
pub const BLOCK_BEGIN: &'static str = "# >>> portless >>> begin";

/// The marker that ends the Portless-managed block.
pub const BLOCK_END: &'static str = "# <<< portless <<< end";

/// The comment line under the start marker.
pub const BLOCK_NOTE: &'static str = "# DO NOT EDIT -- managed by `portless`. See `portless hosts`.";

/// A hosts line as plain text: the address and the names.
pub type LineText = (Seq<char>, Seq<Seq<char>>);

/// A single line in the hosts file.
#[derive(Debug, Clone, PartialEq, Eq)]
pub struct HostsLine {
    /// IP address.
    pub ip: String,
    /// Hostnames.
    pub hostnames: Vec<String>,
}

/// The text of a line's fields.
pub open spec fn line_text(l: HostsLine) -> LineText {
    (l.ip@, strings_view(l.hostnames@))
}

/// The part of a line before any `#`.
pub open spec fn before_comment(s: Seq<char>) -> Seq<char> {
    s.take(first_index(s, '#'))
}

/// What [`HostsLine::parse`] reads from `s`: the words before any `#`, the
/// first being the address and the rest the names; nothing unless there
/// are at least two words.
pub open spec fn parse_line(s: Seq<char>) -> Option<LineText> {
    let w = words(before_comment(s));
    if w.len() < 2 {
        None
    } else {
        Some((w[0], w.skip(1)))
    }
}

/// The address, a space, and the names separated by single spaces.
pub open spec fn format_line(l: LineText) -> Seq<char> {
    l.0 + seq![' '] + joined(l.1, seq![' '])
}

/// A field that a hosts line can carry and read back: not empty, without
/// whitespace and without `#`.
pub open spec fn plain_field(s: Seq<char>) -> bool {
    s.len() > 0 && no_space(s) && !has_char(s, '#')
}

/// A line that formats to text that parses back to it.
pub open spec fn plain_line(l: LineText) -> bool {
    plain_field(l.0) && l.1.len() > 0 && forall|i: int| 0 <= i < l.1.len() ==> plain_field(
        #[trigger] l.1[i],
    )
}

impl HostsLine {
    /// Parse a single hosts line.
    pub fn parse(line: &str) -> (r: Option<Self>)
        ensures
            match parse_line(line@) {
                None => r is None,
                Some(t) => r is Some && line_text(r->Some_0) == t,
            },
    {
        let v = chars_of(line);
        let k = find_char(&v, '#');
        proof {
            lemma_first_index(line@, '#');
        }
        let head = string_of_range(&v, 0, k);
        assert(head@ == before_comment(line@));
        let mut w = words_of(head.as_str());
        if w.len() < 2 {
            return None;
        }
        let ghost ws = words(before_comment(line@));
        let ghost w0 = w@;
        let ip = w.remove(0);
        assert(strings_view(w@) =~= ws.skip(1)) by {
            assert forall|j: int| 0 <= j < w@.len() implies #[trigger] strings_view(w@)[j] == ws.skip(
                1,
            )[j] by {
                assert(w@[j] == w0[j + 1]);
            }
        }
        Some(HostsLine { ip, hostnames: w })
    }

    /// Format as a hosts line.
    pub fn format(&self) -> (s: String)
        ensures
            s@ == format_line(line_text(*self)),
    {
        let mut s = owned(self.ip.as_str());
        s.push(' ');
        let names = join_strings(&self.hostnames, " ");
        push_str(&mut s, names.as_str());
        proof {
            reveal_strlit(" ");
        }
        assert(" "@ == seq![' ']);
        s
    }
}

/// A line whose fields are plain reads back as itself from its text.
pub proof fn lemma_format_round_trip(l: LineText)
    requires
        plain_line(l),
    ensures
        parse_line(format_line(l)) == Some(l),
{
    let all = seq![l.0] + l.1;
    lemma_joined_cons(l.0, l.1, seq![' ']);
    assert forall|i: int| 0 <= i < all.len() implies (#[trigger] all[i]).len() > 0 && no_space(
        all[i],
    ) && !has_char(all[i], '#') by {
        if i > 0 {
            assert(all[i] == l.1[i - 1]);
        }
    }
    lemma_words_joined(all);
    assert(!has_char(seq![' '], '#')) by {
        if has_char(seq![' '], '#') {
            let k = choose|k: int| 0 <= k < 1 && seq![' '][k] == '#';
            assert(seq![' '][k] == ' ');
        }
    }
    lemma_joined_no_char(all, seq![' '], '#');
    let text = format_line(l);
    lemma_first_index(text, '#');
    assert(text.take(text.len() as int) == text);
    assert(all[0] == l.0);
    assert(all.skip(1) =~= l.1);
}

// ---------------------------------------------------------------------------
// The managed block
// ---------------------------------------------------------------------------

/// The lines of a block, one formatted line after another, each ending
/// in `\n`.
pub open spec fn lines_text(ls: Seq<LineText>) -> Seq<char>
    decreases ls.len(),
{
    if ls.len() == 0 {
        Seq::empty()
    } else {
        lines_text(ls.drop_last()) + format_line(ls.last()) + seq!['\n']
    }
}

/// The rendered block: the start marker, the note, the lines, the end
/// marker, each on a line of its own.
pub open spec fn block_text(ls: Seq<LineText>) -> Seq<char> {
    BLOCK_BEGIN@ + seq!['\n'] + BLOCK_NOTE@ + seq!['\n'] + lines_text(ls) + BLOCK_END@ + seq!['\n']
}

/// The text of each line of a slice.
pub open spec fn lines_of(ls: Seq<HostsLine>) -> Seq<LineText> {
    ls.map_values(|l: HostsLine| line_text(l))
}

/// Render the block for the given lines.
pub fn render_lines(ls: &[HostsLine]) -> (s: String)
    ensures
        s@ == block_text(lines_of(ls@)),
{
    let mut s = owned(BLOCK_BEGIN);
    s.push('\n');
    push_str(&mut s, BLOCK_NOTE);
    s.push('\n');
    let ghost head = s@;
    let mut i: usize = 0;
    while i < ls.len()
        invariant
            i <= ls@.len(),
            head == BLOCK_BEGIN@ + seq!['\n'] + BLOCK_NOTE@ + seq!['\n'],
            s@ == head + lines_text(lines_of(ls@).take(i as int)),
        decreases ls.len() - i,
    {
        let ghost prev = s@;
        let f = ls[i].format();
        push_str(&mut s, f.as_str());
        s.push('\n');
        assert(lines_of(ls@).take(i + 1).drop_last() == lines_of(ls@).take(i as int));
        assert(lines_of(ls@).take(i + 1).last() == line_text(ls@[i as int]));
        assert(s@ =~= head + lines_text(lines_of(ls@).take(i + 1)));
        i += 1;
    }
    assert(lines_of(ls@).take(ls@.len() as int) == lines_of(ls@));
    push_str(&mut s, BLOCK_END);
    s.push('\n');
    assert(s@ =~= block_text(lines_of(ls@)));
    s
}

/// A managed block of entries (always writes a single block).
#[derive(Debug, Clone)]
pub struct HostsBlock {
    /// Lines.
    pub lines: Vec<HostsLine>,
}

/// `p` occurs in `s` at `i`.
pub open spec fn occurs_at(s: Seq<char>, p: Seq<char>, i: int) -> bool {
    0 <= i && i + p.len() <= s.len() && s.subrange(i, i + p.len()) == p
}

/// The first position at or after `i` where `p` occurs in `s`.
pub open spec fn find_from(s: Seq<char>, p: Seq<char>, i: int) -> Option<int>
    decreases s.len() + 1 - i,
{
    if i < 0 || i + p.len() > s.len() {
        None
    } else if occurs_at(s, p, i) {
        Some(i)
    } else {
        find_from(s, p, i + 1)
    }
}

/// The first position where `p` occurs in `s`, as `str::find` gives it.
pub open spec fn find(s: Seq<char>, p: Seq<char>) -> Option<int> {
    find_from(s, p, 0)
}

/// Facts about [`find_from`].
pub proof fn lemma_find_from(s: Seq<char>, p: Seq<char>, i: int)
    requires
        0 <= i,
    ensures
        match find_from(s, p, i) {
            Some(k) => i <= k && occurs_at(s, p, k) && forall|j: int| i <= j < k ==> !occurs_at(
                s,
                p,
                j,
            ),
            None => forall|j: int| i <= j ==> !occurs_at(s, p, j),
        },
    decreases s.len() + 1 - i,
{
    if i + p.len() <= s.len() && !occurs_at(s, p, i) {
        lemma_find_from(s, p, i + 1);
    }
}

/// Whether `p` occurs in `v` at `i`.
fn occurs_at_exec(v: &Vec<char>, p: &Vec<char>, i: usize) -> (r: bool)
    ensures
        r == occurs_at(v@, p@, i as int),
{
    if p.len() > v.len() || i > v.len() - p.len() {
        return false;
    }
    let mut j: usize = 0;
    while j < p.len()
        invariant
            i + p@.len() <= v@.len(),
            j <= p@.len(),
            forall|k: int| 0 <= k < j ==> v@[i + k] == p@[k],
        decreases p.len() - j,
    {
        let vl = v.len();
        assert(i + j < vl);
        if v[i + j] != p[j] {
            assert(v@.subrange(i as int, i + p@.len())[j as int] == v@[i + j]);
            return false;
        }
        j += 1;
    }
    assert(v@.subrange(i as int, i + p@.len()) =~= p@);
    true
}

/// The first position of `p` in `v`.
pub fn find_in(v: &Vec<char>, p: &Vec<char>) -> (r: Option<usize>)
    ensures
        match r {
            Some(i) => find(v@, p@) == Some(i as int),
            None => find(v@, p@) is None,
        },
{
    if p.len() == 0 {
        assert(v@.subrange(0, 0) =~= p@);
        return Some(0);
    }
    if p.len() > v.len() {
        return None;
    }
    let mut i: usize = 0;
    while i <= v.len() - p.len()
        invariant
            1 <= p@.len() <= v@.len(),
            i <= v@.len() - p@.len() + 1,
            find(v@, p@) == find_from(v@, p@, i as int),
        decreases v.len() + 1 - i,
    {
        if occurs_at_exec(v, p, i) {
            return Some(i);
        }
        i += 1;
    }
    None
}

/// Where the block's markers are: the start marker, and the end marker
/// when it comes no earlier than the start marker.
pub open spec fn block_span(c: Seq<char>) -> Option<(int, int)> {
    match find(c, BLOCK_BEGIN@) {
        None => None,
        Some(s) => match find(c, BLOCK_END@) {
            None => None,
            Some(e) => if e < s {
                None
            } else {
                Some((s, e))
            },
        },
    }
}

/// The start marker has no `#` but its first character, so an end marker
/// never begins inside it.
pub proof fn lemma_markers_apart(c: Seq<char>, s: int, e: int)
    requires
        occurs_at(c, BLOCK_BEGIN@, s),
        occurs_at(c, BLOCK_END@, e),
        s <= e,
    ensures
        s + BLOCK_BEGIN@.len() <= e,
{
    reveal_strlit("# >>> portless >>> begin");
    reveal_strlit("# <<< portless <<< end");
    let b = BLOCK_BEGIN@;
    let d = BLOCK_END@;
    if e < s + b.len() {
        assert(c.subrange(s, s + b.len())[e - s] == c[e]);
        assert(c.subrange(e, e + d.len())[0] == c[e]);
        assert(c[e] == '#');
        if e == s {
            assert(c.subrange(s, s + b.len())[2] == c[s + 2]);
            assert(c.subrange(e, e + d.len())[2] == c[e + 2]);
        } else {
            assert(b[e - s] == '#');
        }
    }
}

/// The lines read from the pieces of a block's body: every piece that
/// parses, in order.
pub open spec fn parsed_lines(pieces: Seq<Seq<char>>) -> Seq<LineText>
    decreases pieces.len(),
{
    if pieces.len() == 0 {
        Seq::empty()
    } else {
        match parse_line(pieces.last()) {
            Some(l) => parsed_lines(pieces.drop_last()).push(l),
            None => parsed_lines(pieces.drop_last()),
        }
    }
}

/// The lines of the block found in `c`, between its markers. A line's
/// trailing `\r` is whitespace to the parser, so cutting the body at each
/// `\n` reads the same lines as `str::lines` does.
pub open spec fn block_lines(c: Seq<char>, s: int, e: int) -> Seq<LineText> {
    parsed_lines(split(c.subrange(s + BLOCK_BEGIN@.len(), e), '\n'))
}

/// The number of bytes of the UTF-8 encoding of `s`.
pub open spec fn byte_len(s: Seq<char>) -> nat {
    vstd::utf8::encode_utf8(s).len()
}

/// Parse each piece and keep the lines that parse.
fn parse_pieces(pieces: &Vec<Vec<char>>) -> (r: Vec<HostsLine>)
    ensures
        lines_of(r@) == parsed_lines(pieces@.map_values(|p: Vec<char>| p@)),
{
    let ghost ps = pieces@.map_values(|p: Vec<char>| p@);
    let mut r: Vec<HostsLine> = Vec::new();
    let mut i: usize = 0;
    while i < pieces.len()
        invariant
            ps == pieces@.map_values(|p: Vec<char>| p@),
            i <= ps.len(),
            lines_of(r@) == parsed_lines(ps.take(i as int)),
        decreases pieces.len() - i,
    {
        assert(ps.take(i + 1).drop_last() == ps.take(i as int));
        assert(ps.take(i + 1).last() == pieces@[i as int]@);
        let text = crate::text::string_of(&pieces[i]);
        let ghost prev = r@;
        match HostsLine::parse(text.as_str()) {
            Some(l) => {
                r.push(l);
                assert(lines_of(r@) =~= lines_of(prev).push(line_text(l)));
            },
            None => {},
        }
        i += 1;
    }
    assert(ps.take(pieces.len() as int) == ps);
    r
}

/// The start and end (character positions) of the block in `v`, and its
/// lines.
fn find_block(v: &Vec<char>) -> (r: Option<(usize, usize, Vec<HostsLine>)>)
    ensures
        match block_span(v@) {
            None => r is None,
            Some((s, e)) => r is Some && r->Some_0.0 == s && r->Some_0.1 == e && lines_of(
                r->Some_0.2@,
            ) == block_lines(v@, s, e),
        },
        match r {
            Some((s, e, _)) => s + BLOCK_BEGIN@.len() <= e && e + BLOCK_END@.len() <= v@.len(),
            None => true,
        },
{
    let begin = chars_of(BLOCK_BEGIN);
    let end = chars_of(BLOCK_END);
    let s = match find_in(v, &begin) {
        Some(s) => s,
        None => return None,
    };
    let e = match find_in(v, &end) {
        Some(e) => e,
        None => return None,
    };
    if e < s {
        return None;
    }
    proof {
        lemma_find_from(v@, begin@, 0);
        lemma_find_from(v@, end@, 0);
        lemma_markers_apart(v@, s as int, e as int);
    }
    let body_start = s + begin.len();
    let mut body: Vec<char> = Vec::new();
    let mut i: usize = body_start;
    while i < e
        invariant
            body_start <= i <= e <= v@.len(),
            body@ == v@.subrange(body_start as int, i as int),
        decreases e - i,
    {
        body.push(v[i]);
        assert(v@.subrange(body_start as int, i + 1) == v@.subrange(body_start as int, i as int).push(
            v@[i as int],
        ));
        i += 1;
    }
    let pieces = split_vec(&body, '\n');
    assert(pieces@.map_values(|p: Vec<char>| p@) =~= split(body@, '\n'));
    let lines = parse_pieces(&pieces);
    Some((s, e, lines))
}

impl HostsBlock {
    /// Render as a string block.
    pub fn render(&self) -> (s: String)
        ensures
            s@ == block_text(lines_of(self.lines@)),
    {
        render_lines(self.lines.as_slice())
    }

    /// Find the block in a hosts file's text: the byte offsets of its start
    /// and of the end of its end marker, and its lines.
    pub fn extract(content: &str) -> (r: Option<(usize, usize, Self)>)
        ensures
            match block_span(content@) {
                None => r is None,
                Some((s, e)) => r is Some && r->Some_0.0 == byte_len(content@.take(s))
                    && r->Some_0.1 == byte_len(content@.take(e + BLOCK_END@.len()))
                    && lines_of(r->Some_0.2.lines@) == block_lines(content@, s, e),
            },
    {
        let v = chars_of(content);
        match find_block(&v) {
            None => None,
            Some((s, e, lines)) => {
                let end_len = chars_of(BLOCK_END).len();
                let vl = v.len();
                assert(e + end_len <= vl);
                let start_bytes = content.substring_char(0, s).as_bytes().len();
                let end_bytes = content.substring_char(0, e + end_len).as_bytes().len();
                assert(content@.subrange(0, s as int) == content@.take(s as int));
                assert(content@.subrange(0, e + end_len) == content@.take(e + end_len));
                Some((start_bytes, end_bytes, HostsBlock { lines }))
            },
        }
    }
}

// ---------------------------------------------------------------------------
// Replacing the block
// ---------------------------------------------------------------------------

/// `s` without its trailing whitespace (`str::trim_end`).
pub open spec fn trim_end(s: Seq<char>) -> Seq<char>
    decreases s.len(),
{
    if s.len() > 0 && is_space(s.last()) {
        trim_end(s.drop_last())
    } else {
        s
    }
}

/// `s` without its trailing spaces, tabs and newlines.
pub open spec fn trim_blank_end(s: Seq<char>) -> Seq<char>
    decreases s.len(),
{
    if s.len() > 0 && (s.last() == ' ' || s.last() == '\n' || s.last() == '\t') {
        trim_blank_end(s.drop_last())
    } else {
        s
    }
}

/// `s` without its leading newlines.
pub open spec fn trim_newlines_start(s: Seq<char>) -> Seq<char>
    decreases s.len(),
{
    if s.len() > 0 && s[0] == '\n' {
        trim_newlines_start(s.drop_first())
    } else {
        s
    }
}

/// `s` without one leading newline, if it has one.
pub open spec fn drop_newline(s: Seq<char>) -> Seq<char> {
    if s.len() > 0 && s[0] == '\n' {
        s.drop_first()
    } else {
        s
    }
}

/// The hosts file's text with the managed block set to `es`. With no
/// block yet, a block is appended after a blank line (nothing changes
/// when there are no entries); with a block, it is replaced (the rendered
/// block ends its own line, so the newline after the old end marker goes),
/// or removed together with the blank space around it when there are no
/// entries.
pub open spec fn replaced(c: Seq<char>, es: Seq<LineText>) -> Seq<char> {
    match block_span(c) {
        None => if es.len() == 0 {
            c
        } else {
            trim_end(c) + seq!['\n', '\n'] + block_text(es)
        },
        Some((s, e)) => if es.len() == 0 {
            trim_blank_end(c.take(s)) + seq!['\n'] + trim_newlines_start(
                c.skip(e + BLOCK_END@.len()),
            )
        } else {
            c.take(s) + block_text(es) + drop_newline(c.skip(e + BLOCK_END@.len()))
        },
    }
}

/// Whether a trailing `c` is trimmed: a space, tab or newline when
/// `blank_only`, else any whitespace.
fn trailing_drop(c: char, blank_only: bool) -> (r: bool)
    ensures
        r == if blank_only {
            c == ' ' || c == '\n' || c == '\t'
        } else {
            is_space(c)
        },
{
    if blank_only {
        c == ' ' || c == '\n' || c == '\t'
    } else {
        is_space_char(c)
    }
}

/// The length of `v[..end]` without its trailing characters that `drop`
/// accepts.
fn trimmed_end_len(v: &Vec<char>, end: usize, blank_only: bool) -> (n: usize)
    requires
        end <= v@.len(),
    ensures
        n <= end,
        blank_only ==> v@.take(n as int) == trim_blank_end(v@.take(end as int)),
        !blank_only ==> v@.take(n as int) == trim_end(v@.take(end as int)),
{
    let mut n = end;
    while n > 0 && trailing_drop(v[n - 1], blank_only)
        invariant
            n <= end <= v@.len(),
            blank_only ==> trim_blank_end(v@.take(n as int)) == trim_blank_end(v@.take(end as int)),
            !blank_only ==> trim_end(v@.take(n as int)) == trim_end(v@.take(end as int)),
        decreases n,
    {
        assert(v@.take(n as int).drop_last() == v@.take(n - 1));
        assert(v@.take(n as int).last() == v@[n - 1]);
        n -= 1;
    }
    if n > 0 {
        assert(v@.take(n as int).last() == v@[n - 1]);
    }
    n
}

/// The position in `v` after the newlines that start at `from`.
fn skip_newlines(v: &Vec<char>, from: usize) -> (n: usize)
    requires
        from <= v@.len(),
    ensures
        from <= n <= v@.len(),
        v@.skip(n as int) == trim_newlines_start(v@.skip(from as int)),
{
    let mut n = from;
    while n < v.len() && v[n] == '\n'
        invariant
            from <= n <= v@.len(),
            trim_newlines_start(v@.skip(n as int)) == trim_newlines_start(v@.skip(from as int)),
        decreases v.len() - n,
    {
        assert(v@.skip(n as int).drop_first() == v@.skip(n + 1));
        assert(v@.skip(n as int)[0] == v@[n as int]);
        n += 1;
    }
    if n < v.len() {
        assert(v@.skip(n as int)[0] == v@[n as int]);
    }
    n
}

/// Append `v[from..to]` to `s`.
fn push_range(s: &mut String, v: &Vec<char>, from: usize, to: usize)
    requires
        from <= to <= v@.len(),
    ensures
        final(s)@ == old(s)@ + v@.subrange(from as int, to as int),
{
    let part = string_of_range(v, from, to);
    push_str(s, part.as_str());
}

/// The hosts file's text with the managed block set to `entries`.
pub fn replace_block(content: &str, entries: &[HostsLine]) -> (r: String)
    ensures
        r@ == replaced(content@, lines_of(entries@)),
{
    let v = chars_of(content);
    match find_block(&v) {
        None => {
            if entries.len() == 0 {
                return owned(content);
            }
            let n = trimmed_end_len(&v, v.len(), false);
            assert(v@.take(v@.len() as int) == v@);
            let mut s = string_of_range(&v, 0, n);
            s.push('\n');
            s.push('\n');
            let block = render_lines(entries);
            push_str(&mut s, block.as_str());
            assert(v@.subrange(0, n as int) == v@.take(n as int));
            assert(s@ =~= trim_end(content@) + seq!['\n', '\n'] + block_text(lines_of(entries@)));
            s
        },
        Some((start, end, _)) => {
            let end_len = chars_of(BLOCK_END).len();
            let vl = v.len();
            assert(end + end_len <= vl);
            let after = end + end_len;
            if entries.len() == 0 {
                let n = trimmed_end_len(&v, start, true);
                let mut s = string_of_range(&v, 0, n);
                s.push('\n');
                let m = skip_newlines(&v, after);
                push_range(&mut s, &v, m, v.len());
                assert(v@.subrange(0, n as int) == v@.take(n as int));
                assert(v@.subrange(m as int, v@.len() as int) == v@.skip(m as int));
                assert(s@ =~= trim_blank_end(content@.take(start as int)) + seq!['\n']
                    + trim_newlines_start(content@.skip(after as int)));
                s
            } else {
                let mut s = string_of_range(&v, 0, start);
                let block = render_lines(entries);
                push_str(&mut s, block.as_str());
                let m = if after < vl && v[after] == '\n' {
                    after + 1
                } else {
                    after
                };
                push_range(&mut s, &v, m, v.len());
                assert(v@.subrange(0, start as int) == v@.take(start as int));
                assert(v@.subrange(m as int, v@.len() as int) =~= drop_newline(v@.skip(after as int)));
                assert(s@ =~= content@.take(start as int) + block_text(lines_of(entries@))
                    + drop_newline(content@.skip(after as int)));
                s
            }
        },
    }
}


// ---------------------------------------------------------------------------
// Reading back what was written
// ---------------------------------------------------------------------------

/// The characters of the markers and the note that the proofs below rely
/// on: each has `#` at its start and nowhere else, and no newline.
proof fn lemma_marker_chars()
    ensures
        BLOCK_BEGIN@.len() == 24,
        BLOCK_END@.len() == 22,
        BLOCK_NOTE@.len() == 61,
        BLOCK_BEGIN@[0] == '#' && BLOCK_BEGIN@[2] == '>',
        BLOCK_END@[0] == '#' && BLOCK_END@[2] == '<',
        BLOCK_NOTE@[0] == '#' && BLOCK_NOTE@[2] == 'D',
        forall|k: int| 0 < k < 24 ==> #[trigger] BLOCK_BEGIN@[k] != '#',
        forall|k: int| 0 < k < 61 ==> #[trigger] BLOCK_NOTE@[k] != '#',
        forall|k: int| 0 < k < 22 ==> #[trigger] BLOCK_END@[k] != '#',
        !has_char(BLOCK_BEGIN@, '\n'),
        !has_char(BLOCK_END@, '\n'),
        !has_char(BLOCK_NOTE@, '\n'),
{
    reveal_strlit("# >>> portless >>> begin");
    reveal_strlit("# <<< portless <<< end");
    reveal_strlit("# DO NOT EDIT -- managed by `portless`. See `portless hosts`.");
}

/// `c` occurs in `a + b` exactly when it occurs in `a` or in `b`.
proof fn lemma_has_char_add(a: Seq<char>, b: Seq<char>, c: char)
    ensures
        has_char(a + b, c) == (has_char(a, c) || has_char(b, c)),
{
    if has_char(a + b, c) {
        let k = choose|k: int| 0 <= k < (a + b).len() && (a + b)[k] == c;
        if k < a.len() {
            assert(a[k] == c);
        } else {
            assert(b[k - a.len()] == c);
        }
    }
    if has_char(a, c) {
        let k = choose|k: int| 0 <= k < a.len() && a[k] == c;
        assert((a + b)[k] == c);
    }
    if has_char(b, c) {
        let k = choose|k: int| 0 <= k < b.len() && b[k] == c;
        assert((a + b)[k + a.len()] == c);
    }
}

/// A formatted plain line holds neither `#` nor a newline.
proof fn lemma_format_no_char(l: LineText, c: char)
    requires
        plain_line(l),
        c == '#' || c == '\n',
    ensures
        !has_char(format_line(l), c),
{
    assert forall|i: int| 0 <= i < l.1.len() implies !has_char(#[trigger] l.1[i], c) by {
        let w = l.1[i];
        assert(plain_field(w));
        if has_char(w, c) {
            let k = choose|k: int| 0 <= k < w.len() && w[k] == c;
            assert(!is_space(w[k]));
        }
    }
    assert(!has_char(seq![' '], c)) by {
        if has_char(seq![' '], c) {
            let k = choose|k: int| 0 <= k < 1 && seq![' '][k] == c;
            assert(seq![' '][k] == ' ');
        }
    }
    lemma_joined_no_char(l.1, seq![' '], c);
    assert(!has_char(l.0, c)) by {
        if has_char(l.0, c) {
            let k = choose|k: int| 0 <= k < l.0.len() && l.0[k] == c;
            assert(!is_space(l.0[k]));
        }
    }
    lemma_has_char_add(l.0, seq![' '], c);
    lemma_has_char_add(l.0 + seq![' '], joined(l.1, seq![' ']), c);
}

/// The lines of a block of plain lines hold no `#`.
proof fn lemma_lines_text_no_hash(ls: Seq<LineText>)
    requires
        forall|i: int| 0 <= i < ls.len() ==> plain_line(#[trigger] ls[i]),
    ensures
        !has_char(lines_text(ls), '#'),
    decreases ls.len(),
{
    if ls.len() > 0 {
        let t = ls.drop_last();
        assert forall|i: int| 0 <= i < t.len() implies plain_line(#[trigger] t[i]) by {
            assert(t[i] == ls[i]);
        }
        lemma_lines_text_no_hash(t);
        assert(plain_line(ls[ls.len() - 1]));
        lemma_format_no_char(ls.last(), '#');
        assert(!has_char(seq!['\n'], '#')) by {
            if has_char(seq!['\n'], '#') {
                let k = choose|k: int| 0 <= k < 1 && seq!['\n'][k] == '#';
                assert(seq!['\n'][k] == '\n');
            }
        }
        lemma_has_char_add(lines_text(t), format_line(ls.last()), '#');
        lemma_has_char_add(lines_text(t) + format_line(ls.last()), seq!['\n'], '#');
    }
}

/// Two texts that agree on their first `n` characters have the same
/// occurrences of `p` that end within them.
proof fn lemma_occurs_same_prefix(a: Seq<char>, b: Seq<char>, p: Seq<char>, n: int, j: int)
    requires
        n <= a.len(),
        n <= b.len(),
        a.take(n) == b.take(n),
        0 <= j,
        j + p.len() <= n,
    ensures
        occurs_at(a, p, j) == occurs_at(b, p, j),
{
    assert(a.subrange(j, j + p.len()) =~= a.take(n).subrange(j, j + p.len()));
    assert(b.subrange(j, j + p.len()) =~= b.take(n).subrange(j, j + p.len()));
}

/// The first occurrence: where `p` occurs at `k` and nowhere before.
proof fn lemma_find_is(s: Seq<char>, p: Seq<char>, i: int, k: int)
    requires
        0 <= i <= k,
        occurs_at(s, p, k),
        forall|j: int| i <= j < k ==> !occurs_at(s, p, j),
    ensures
        find_from(s, p, i) == Some(k),
    decreases k - i,
{
    if i < k {
        assert(!occurs_at(s, p, i));
        lemma_find_is(s, p, i + 1, k);
    }
}

/// The formatted text of each line.
pub open spec fn formats(ls: Seq<LineText>) -> Seq<Seq<char>> {
    ls.map_values(|l: LineText| format_line(l))
}

/// Cutting a text that ends in a newline followed by a block's lines at
/// each newline gives the pieces before, the formatted lines, and an
/// empty last piece.
proof fn lemma_split_lines(a0: Seq<char>, ls: Seq<LineText>)
    requires
        forall|i: int| 0 <= i < ls.len() ==> plain_line(#[trigger] ls[i]),
    ensures
        split(a0.push('\n') + lines_text(ls), '\n') == (split(a0, '\n') + formats(ls)).push(
            Seq::<char>::empty(),
        ),
    decreases ls.len(),
{
    let e = Seq::<char>::empty();
    assert(!has_char(e, '\n'));
    if ls.len() == 0 {
        lemma_split_append(a0, e, '\n');
        assert(a0.push('\n') + lines_text(ls) =~= a0.push('\n') + e);
        assert(split(a0, '\n') + formats(ls) =~= split(a0, '\n'));
    } else {
        let t = ls.drop_last();
        let l = ls.last();
        assert forall|i: int| 0 <= i < t.len() implies plain_line(#[trigger] t[i]) by {
            assert(t[i] == ls[i]);
        }
        lemma_split_lines(a0, t);
        let w = a0.push('\n') + lines_text(t);
        assert(w.len() > 0 && w.last() == '\n');
        let w0 = w.drop_last();
        assert(w0.push('\n') + e =~= w);
        lemma_split_append(w0, e, '\n');
        assert(split(w0, '\n') =~= split(w, '\n').drop_last());
        assert(split(w0, '\n') =~= split(a0, '\n') + formats(t));
        let f = format_line(l);
        assert(plain_line(ls[ls.len() - 1]));
        lemma_format_no_char(l, '\n');
        lemma_split_append(w0, f, '\n');
        assert(w0.push('\n') + f =~= w + f);
        let x = w + f;
        lemma_split_append(x, e, '\n');
        assert(a0.push('\n') + lines_text(ls) =~= x.push('\n') + e);
        assert(formats(ls) =~= formats(t).push(f));
        assert((split(a0, '\n') + formats(t)).push(f) =~= split(a0, '\n') + formats(ls));
    }
}

/// Reading lines from two runs of pieces reads the lines of each in turn.
proof fn lemma_parsed_add(a: Seq<Seq<char>>, b: Seq<Seq<char>>)
    ensures
        parsed_lines(a + b) == parsed_lines(a) + parsed_lines(b),
    decreases b.len(),
{
    if b.len() == 0 {
        assert(a + b =~= a);
        assert(parsed_lines(a) + parsed_lines(b) =~= parsed_lines(a));
    } else {
        lemma_parsed_add(a, b.drop_last());
        assert((a + b).drop_last() =~= a + b.drop_last());
        assert((a + b).last() == b.last());
        match parse_line(b.last()) {
            Some(l) => {
                assert((parsed_lines(a) + parsed_lines(b.drop_last())).push(l) =~= parsed_lines(a)
                    + parsed_lines(b.drop_last()).push(l));
            },
            None => {},
        }
    }
}

/// Formatted plain lines read back as themselves.
proof fn lemma_parsed_formats(ls: Seq<LineText>)
    requires
        forall|i: int| 0 <= i < ls.len() ==> plain_line(#[trigger] ls[i]),
    ensures
        parsed_lines(formats(ls)) == ls,
    decreases ls.len(),
{
    if ls.len() > 0 {
        let t = ls.drop_last();
        assert forall|i: int| 0 <= i < t.len() implies plain_line(#[trigger] t[i]) by {
            assert(t[i] == ls[i]);
        }
        lemma_parsed_formats(t);
        assert(formats(ls).drop_last() =~= formats(t));
        assert(plain_line(ls[ls.len() - 1]));
        lemma_format_round_trip(ls.last());
        assert(t.push(ls.last()) =~= ls);
    }
}

/// The length of a rendered block up to its end marker.
pub open spec fn block_head_len(ls: Seq<LineText>) -> int {
    (BLOCK_BEGIN@.len() + 1 + BLOCK_NOTE@.len() + 1 + lines_text(ls).len()) as int
}

/// A block of plain lines written at `k`, with neither marker occurring
/// before it, is the block found there, and its lines are read back.
proof fn lemma_block_at(r: Seq<char>, k: int, es: Seq<LineText>)
    requires
        forall|i: int| 0 <= i < es.len() ==> plain_line(#[trigger] es[i]),
        0 <= k,
        k + block_text(es).len() <= r.len(),
        r.subrange(k, k + block_text(es).len()) == block_text(es),
        forall|j: int|
            0 <= j < k ==> !occurs_at(r, BLOCK_BEGIN@, j) && !occurs_at(r, BLOCK_END@, j),
    ensures
        block_span(r) == Some((k, k + block_head_len(es))),
        block_lines(r, k, k + block_head_len(es)) == es,
{
    lemma_marker_chars();
    lemma_lines_text_no_hash(es);
    let b = block_text(es);
    let lt = lines_text(es);
    let m = k + block_head_len(es);
    let hl = block_head_len(es);
    assert(b.len() == hl + 23);
    assert(r.subrange(k, k + 24) =~= b.subrange(0, 24));
    assert(b.subrange(0, 24) =~= BLOCK_BEGIN@);
    lemma_find_is(r, BLOCK_BEGIN@, 0, k);
    assert(r.subrange(m, m + 22) =~= b.subrange(hl, hl + 22));
    assert(b.subrange(hl, hl + 22) =~= BLOCK_END@);
    assert forall|j: int| 0 <= j < m implies !occurs_at(r, BLOCK_END@, j) by {
        if k <= j && occurs_at(r, BLOCK_END@, j) {
            let d = j - k;
            assert(r.subrange(j, j + 22)[0] == r[j]);
            assert(r.subrange(j, j + 22)[2] == r[j + 2]);
            assert(r[j] == '#');
            assert(r[j + 2] == '<');
            assert(r[j] == b[d]);
            assert(r[j + 2] == b[d + 2]);
            if d < 24 {
                assert(b[d] == BLOCK_BEGIN@[d]);
                assert(b[2] == BLOCK_BEGIN@[2]);
            } else if d == 24 {
                assert(b[d] == '\n');
            } else if d < 86 {
                assert(b[d] == BLOCK_NOTE@[d - 25]);
                assert(b[27] == BLOCK_NOTE@[2]);
            } else if d == 86 {
                assert(b[d] == '\n');
            } else {
                assert(b[d] == lt[d - 87]);
            }
        }
    }
    lemma_find_is(r, BLOCK_END@, 0, m);
    let body = r.subrange(k + 24, m);
    let a0 = seq!['\n'] + BLOCK_NOTE@;
    assert(body =~= b.subrange(24, hl));
    assert(body =~= a0.push('\n') + lt);
    lemma_split_lines(a0, es);
    let e = Seq::<char>::empty();
    lemma_split_append(e, BLOCK_NOTE@, '\n');
    assert(e.push('\n') + BLOCK_NOTE@ =~= a0);
    assert(split(a0, '\n') =~= seq![e, BLOCK_NOTE@]);
    let pieces = split(body, '\n');
    assert(pieces =~= seq![e, BLOCK_NOTE@] + formats(es) + seq![e]);
    lemma_parsed_add(seq![e, BLOCK_NOTE@] + formats(es), seq![e]);
    lemma_parsed_add(seq![e, BLOCK_NOTE@], formats(es));
    lemma_parsed_formats(es);
    assert(first_index(BLOCK_NOTE@, '#') == 0);
    assert(before_comment(BLOCK_NOTE@) =~= e);
    assert(before_comment(e) =~= e);
    assert(parse_line(BLOCK_NOTE@) is None);
    assert(parse_line(e) is None);
    assert(seq![e, BLOCK_NOTE@].drop_last() =~= seq![e]);
    assert(seq![e].drop_last() =~= Seq::<Seq<char>>::empty());
    assert(parsed_lines(Seq::<Seq<char>>::empty()) =~= Seq::<LineText>::empty());
    assert(seq![e].last() == e);
    assert(parsed_lines(seq![e]) =~= Seq::<LineText>::empty());
    assert(parsed_lines(seq![e, BLOCK_NOTE@]) =~= Seq::<LineText>::empty());
}

/// [`trim_end`] keeps a prefix.
proof fn lemma_trim_end_prefix(c: Seq<char>)
    ensures
        trim_end(c).len() <= c.len(),
        trim_end(c) == c.take(trim_end(c).len() as int),
    decreases c.len(),
{
    if c.len() > 0 && is_space(c.last()) {
        lemma_trim_end_prefix(c.drop_last());
        let t = trim_end(c.drop_last());
        assert(c.drop_last().take(t.len() as int) =~= c.take(t.len() as int));
    } else {
        assert(c.take(c.len() as int) =~= c);
    }
}

/// Where the block of `replaced(c, es)` stands: at `k`, found there, with
/// the rest of the text behind it.
proof fn lemma_replaced_shape(c: Seq<char>, es: Seq<LineText>) -> (k: int)
    requires
        es.len() > 0,
        forall|i: int| 0 <= i < es.len() ==> plain_line(#[trigger] es[i]),
        block_span(c) is Some || (find(c, BLOCK_BEGIN@) is None && find(c, BLOCK_END@) is None),
    ensures
        0 <= k,
        k + block_text(es).len() <= replaced(c, es).len(),
        replaced(c, es).subrange(k, k + block_text(es).len()) == block_text(es),
        block_span(replaced(c, es)) == Some((k, k + block_head_len(es))),
        block_lines(replaced(c, es), k, k + block_head_len(es)) == es,
        block_span(c) is None ==> k == trim_end(c).len() + 2,
{
    lemma_marker_chars();
    let b = block_text(es);
    let r = replaced(c, es);
    lemma_find_from(c, BLOCK_BEGIN@, 0);
    lemma_find_from(c, BLOCK_END@, 0);
    match block_span(c) {
        Some((s, e)) => {
            lemma_markers_apart(c, s, e);
            let after = e + BLOCK_END@.len();
            assert(r == c.take(s) + b + drop_newline(c.skip(after)));
            assert(r.subrange(s, s + b.len()) =~= b);
            assert(c.subrange(s, s + 24) =~= BLOCK_BEGIN@);
            assert(b.subrange(0, 24) =~= BLOCK_BEGIN@);
            assert(r.take(s + 24) =~= c.take(s + 24)) by {
                assert forall|i: int| 0 <= i < s + 24 implies #[trigger] r.take(s + 24)[i]
                    == c.take(s + 24)[i] by {
                    if i >= s {
                        assert(r[i] == b[i - s]);
                        assert(b[i - s] == b.subrange(0, 24)[i - s]);
                        assert(c[i] == c.subrange(s, s + 24)[i - s]);
                    }
                }
            }
            assert forall|j: int| 0 <= j < s implies !occurs_at(r, BLOCK_BEGIN@, j) && !occurs_at(
                r,
                BLOCK_END@,
                j,
            ) by {
                lemma_occurs_same_prefix(r, c, BLOCK_BEGIN@, s + 24, j);
                lemma_occurs_same_prefix(r, c, BLOCK_END@, s + 24, j);
            }
            lemma_block_at(r, s, es);
            s
        },
        None => {
            let t = trim_end(c);
            lemma_trim_end_prefix(c);
            let q: int = t.len() as int + 2;
            assert(r == t + seq!['\n', '\n'] + b);
            assert(r.subrange(q, q + b.len()) =~= b);
            assert(r.take(t.len() as int) =~= c.take(t.len() as int));
            assert forall|j: int| 0 <= j < q implies !occurs_at(r, BLOCK_BEGIN@, j) && !occurs_at(
                r,
                BLOCK_END@,
                j,
            ) by {
                assert forall|p: Seq<char>|
                    p.len() > 0 && !has_char(p, '\n') && (forall|i: int|
                        0 <= i ==> !occurs_at(c, p, i)) implies !#[trigger] occurs_at(r, p, j) by {
                    if occurs_at(r, p, j) {
                        if j + p.len() <= t.len() {
                            lemma_occurs_same_prefix(r, c, p, t.len() as int, j);
                        } else {
                            let x = if j < t.len() {
                                t.len() as int
                            } else {
                                j
                            };
                            assert(r[x] == '\n');
                            assert(r.subrange(j, j + p.len())[x - j] == r[x]);
                            assert(p[x - j] == '\n');
                        }
                    }
                }
                assert(BLOCK_BEGIN@.len() > 0 && BLOCK_END@.len() > 0);
            }
            lemma_block_at(r, q, es);
            q
        },
    }
}

/// Writing entries into a hosts file's text and reading its block back
/// gives the entries, provided every field is plain (non-empty, without
/// whitespace or `#`) and the text either holds a block or neither marker.
pub proof fn lemma_replace_then_read(c: Seq<char>, es: Seq<LineText>)
    requires
        es.len() > 0,
        forall|i: int| 0 <= i < es.len() ==> plain_line(#[trigger] es[i]),
        block_span(c) is Some || (find(c, BLOCK_BEGIN@) is None && find(c, BLOCK_END@) is None),
    ensures
        match block_span(replaced(c, es)) {
            Some((s, e)) => block_lines(replaced(c, es), s, e) == es,
            None => false,
        },
{
    lemma_replaced_shape(c, es);
}

/// Syncing the same entries again leaves the text as it is.
pub proof fn lemma_resync_unchanged(c: Seq<char>, es: Seq<LineText>)
    requires
        es.len() > 0,
        forall|i: int| 0 <= i < es.len() ==> plain_line(#[trigger] es[i]),
        block_span(c) is Some || (find(c, BLOCK_BEGIN@) is None && find(c, BLOCK_END@) is None),
    ensures
        replaced(replaced(c, es), es) == replaced(c, es),
{
    lemma_marker_chars();
    let r = replaced(c, es);
    let b = block_text(es);
    let k = lemma_replaced_shape(c, es);
    let after = k + block_head_len(es) + BLOCK_END@.len();
    assert(after == k + b.len() - 1);
    assert(b[b.len() - 1] == '\n');
    assert(r[after] == r.subrange(k, k + b.len())[b.len() - 1]);
    let rest = r.skip(k + b.len());
    assert(drop_newline(r.skip(after)) =~= rest);
    assert(r.take(k) + b + rest =~= r) by {
        assert forall|i: int| 0 <= i < r.len() implies #[trigger] (r.take(k) + b + rest)[i] == r[i] by {
            if k <= i < k + b.len() {
                assert(r.subrange(k, k + b.len())[i - k] == r[i]);
            }
        }
    }
}

/// A rendered block of plain lines is found at the start of its own text,
/// and its lines read back as the rendered ones.
pub proof fn lemma_render_then_read(es: Seq<LineText>)
    requires
        forall|i: int| 0 <= i < es.len() ==> plain_line(#[trigger] es[i]),
    ensures
        block_span(block_text(es)) == Some((0int, block_head_len(es))),
        block_lines(block_text(es), 0, block_head_len(es)) == es,
{
    let b = block_text(es);
    assert(b.subrange(0, b.len() as int) =~= b);
    lemma_block_at(b, 0, es);
}

/// [`trim_end`] leaves no whitespace at the end.
proof fn lemma_trim_end_last(c: Seq<char>)
    ensures
        trim_end(c).len() > 0 ==> !is_space(trim_end(c).last()),
    decreases c.len(),
{
    if c.len() > 0 && is_space(c.last()) {
        lemma_trim_end_last(c.drop_last());
    }
}

/// Syncing entries into a text without a block and then cleaning the
/// block out gives the text back, when the text ends in a single line
/// break after its last non-blank character.
pub proof fn lemma_sync_then_clean(c: Seq<char>, es: Seq<LineText>)
    requires
        es.len() > 0,
        forall|i: int| 0 <= i < es.len() ==> plain_line(#[trigger] es[i]),
        find(c, BLOCK_BEGIN@) is None,
        find(c, BLOCK_END@) is None,
        c == trim_end(c) + seq!['\n'],
    ensures
        replaced(replaced(c, es), Seq::empty()) == c,
{
    let t = trim_end(c);
    let b = block_text(es);
    let r = replaced(c, es);
    assert(block_span(c) is None);
    let k = lemma_replaced_shape(c, es);
    assert(r == t + seq!['\n', '\n'] + b);
    let after = k + block_head_len(es) + BLOCK_END@.len();
    assert(after == r.len() - 1) by {
        lemma_marker_chars();
    }
    assert(trim_newlines_start(r.skip(after)) =~= Seq::<char>::empty()) by {
        let nl = seq!['\n'];
        assert(r.skip(after) =~= nl);
        assert(nl.drop_first() =~= Seq::<char>::empty());
        assert(trim_newlines_start(Seq::<char>::empty()) =~= Seq::<char>::empty());
        assert(nl.len() > 0 && nl[0] == '\n');
        assert(trim_newlines_start(nl) == trim_newlines_start(nl.drop_first()));
    }
    assert(trim_blank_end(r.take(k)) == t) by {
        let t1 = t + seq!['\n'];
        let t2 = t + seq!['\n', '\n'];
        assert(r.take(k) =~= t2);
        assert(t2.drop_last() =~= t1);
        assert(t1.drop_last() =~= t);
        lemma_trim_end_last(c);
        if t.len() > 0 {
            assert(!is_space(t.last()));
        }
        assert(trim_blank_end(t) == t);
        assert(t1.last() == '\n');
        assert(trim_blank_end(t1) == trim_blank_end(t1.drop_last()));
        assert(t2.last() == '\n');
        assert(trim_blank_end(t2) == trim_blank_end(t2.drop_last()));
    }
}

/// A rendered block of plain lines placed after a text that holds
/// neither marker, with any text after it, is the block that is found: it
/// starts where the text before it ends, its end marker ends just before
/// the block's final newline, and its lines read back as the rendered
/// ones.
pub proof fn lemma_read_embedded(p: Seq<char>, es: Seq<LineText>, q: Seq<char>)
    requires
        forall|i: int| 0 <= i < es.len() ==> plain_line(#[trigger] es[i]),
        find(p, BLOCK_BEGIN@) is None,
        find(p, BLOCK_END@) is None,
    ensures
        block_span(p + block_text(es) + q) == Some((p.len() as int, p.len() + block_head_len(es))),
        p.len() + block_head_len(es) + BLOCK_END@.len() == p.len() + block_text(es).len() - 1,
        block_lines(p + block_text(es) + q, p.len() as int, p.len() + block_head_len(es)) == es,
{
    lemma_marker_chars();
    let b = block_text(es);
    let r = p + b + q;
    let k = p.len() as int;
    lemma_find_from(p, BLOCK_BEGIN@, 0);
    lemma_find_from(p, BLOCK_END@, 0);
    assert(r.subrange(k, k + b.len()) =~= b);
    assert(r.take(k) =~= p.take(k));
    assert(r[k] == '#') by {
        assert(r[k] == b[0]);
        assert(b[0] == BLOCK_BEGIN@[0]);
    }
    assert forall|j: int| 0 <= j < k implies !occurs_at(r, BLOCK_BEGIN@, j) && !occurs_at(
        r,
        BLOCK_END@,
        j,
    ) by {
        if j + 24 <= k {
            lemma_occurs_same_prefix(r, p, BLOCK_BEGIN@, k, j);
        } else if occurs_at(r, BLOCK_BEGIN@, j) {
            assert(r.subrange(j, j + 24)[k - j] == r[k]);
            assert(BLOCK_BEGIN@[k - j] == '#');
        }
        if j + 22 <= k {
            lemma_occurs_same_prefix(r, p, BLOCK_END@, k, j);
        } else if occurs_at(r, BLOCK_END@, j) {
            assert(r.subrange(j, j + 22)[k - j] == r[k]);
            assert(BLOCK_END@[k - j] == '#');
        }
    }
    lemma_block_at(r, k, es);
}

/// Cleaning the block out keeps everything outside it: the text before
/// the block (without its trailing blank space) comes first, then one line
/// break, then the text after the end marker (without its leading line
/// breaks) to the end; nothing else is added or lost.
pub proof fn lemma_clean_keeps_outside(c: Seq<char>, s: int, e: int)
    requires
        block_span(c) == Some((s, e)),
    ensures
        ({
            let r = replaced(c, Seq::empty());
            let before = trim_blank_end(c.take(s));
            let after = trim_newlines_start(c.skip(e + BLOCK_END@.len()));
            &&& r.len() == before.len() + 1 + after.len()
            &&& r.take(before.len() as int) == before
            &&& r[before.len() as int] == '\n'
            &&& r.skip(before.len() as int + 1) == after
        }),
{
    let r = replaced(c, Seq::empty());
    let before = trim_blank_end(c.take(s));
    let after = trim_newlines_start(c.skip(e + BLOCK_END@.len()));
    assert(r == before + seq!['\n'] + after);
    assert(r.take(before.len() as int) =~= before);
    assert(r.skip(before.len() as int + 1) =~= after);
}

/// Text after the end marker that does not start with a line break is
/// kept whole by a clean: the result ends with it.
pub proof fn lemma_clean_keeps_tail(c: Seq<char>, s: int, e: int)
    requires
        block_span(c) == Some((s, e)),
        c.skip(e + BLOCK_END@.len()).len() > 0 ==> c.skip(e + BLOCK_END@.len())[0] != '\n',
    ensures
        ({
            let r = replaced(c, Seq::empty());
            let tail = c.skip(e + BLOCK_END@.len());
            &&& r.len() >= tail.len()
            &&& r.skip(r.len() - tail.len()) == tail
        }),
{
    lemma_clean_keeps_outside(c, s, e);
    let tail = c.skip(e + BLOCK_END@.len());
    assert(trim_newlines_start(tail) == tail);
    let r = replaced(c, Seq::empty());
    let before = trim_blank_end(c.take(s));
    assert(r.skip(r.len() - tail.len()) =~= r.skip(before.len() as int + 1));
}

} // verus!
