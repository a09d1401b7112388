//! Hostname validation, parsing, and DNS-label handling.

use vstd::prelude::*;
use vstd::string::StrSliceExecFns;
use crate::common::error::Error;
use crate::text::{
    IntoText, all_ascii, chars_of, ends_with, find_char, first_index, has_char, is_alnum, is_alnum_char,
    is_ascii_char, is_digit, is_lower, lemma_first_index, lower, owned, push_all, push_str, seq_eq, split, split_vec,
    string_of, string_of_range, vec_all_ascii, vec_ends_with,
};

verus! {

/// Maximum length of a single DNS label.
pub const MAX_LABEL_LEN: usize = 63;

/// Maximum total hostname length.
pub const MAX_HOST_LEN: usize = 253;

// ---------------------------------------------------------------------------
// Specification
// ---------------------------------------------------------------------------

/// A character allowed inside a DNS label.
pub open spec fn is_label_char(c: char) -> bool {
    is_alnum(c) || c == '-'
}

/// Every character is allowed inside a DNS label.
pub open spec fn all_label_chars(l: Seq<char>) -> bool {
    forall|i: int| 0 <= i < l.len() ==> is_label_char(#[trigger] l[i])
}

/// A valid DNS label: 1..=63 letters, digits and hyphens, with no leading or
/// trailing hyphen.
pub open spec fn valid_label(l: Seq<char>) -> bool {
    &&& 0 < l.len() <= 63
    &&& all_label_chars(l)
    &&& l[0] != '-'
    &&& l.last() != '-'
}

/// The complaint about one label of `host`, if any.
pub open spec fn label_error(label: Seq<char>, host: Seq<char>) -> Option<Seq<char>> {
    if label.len() == 0 {
        Some("empty label in '"@ + host + "'"@)
    } else if label.len() > 63 {
        Some("label '"@ + label + "' exceeds 63 characters"@)
    } else if !all_label_chars(label) {
        Some("label '"@ + label + "' contains invalid characters"@)
    } else if label[0] == '-' || label.last() == '-' {
        Some("label '"@ + label + "' may not start or end with a hyphen"@)
    } else {
        None
    }
}

/// The complaint about the first bad label, if any.
pub open spec fn labels_error(labels: Seq<Seq<char>>, host: Seq<char>) -> Option<Seq<char>>
    decreases labels.len(),
{
    if labels.len() == 0 {
        None
    } else {
        match label_error(labels[0], host) {
            Some(m) => Some(m),
            None => labels_error(labels.drop_first(), host),
        }
    }
}

/// Why `s` is not a valid hostname (RFC 952 / RFC 1123), if it is not.
pub open spec fn hostname_error(s: Seq<char>) -> Option<Seq<char>> {
    if s.len() == 0 {
        Some("empty"@)
    } else if !all_ascii(s) {
        Some("non-ASCII characters are not allowed"@)
    } else if s.len() > 253 {
        Some("longer than 253 characters"@)
    } else {
        labels_error(split(s, '.'), s)
    }
}

/// `s` is a valid hostname.
pub open spec fn valid_hostname(s: Seq<char>) -> bool {
    hostname_error(s) is None
}

/// No label has a complaint exactly when every label is valid.
pub proof fn lemma_labels_error_none(labels: Seq<Seq<char>>, host: Seq<char>)
    ensures
        labels_error(labels, host) is None <==> forall|i: int|
            0 <= i < labels.len() ==> valid_label(#[trigger] labels[i]),
    decreases labels.len(),
{
    if labels.len() > 0 {
        lemma_labels_error_none(labels.drop_first(), host);
        if labels_error(labels, host) is None {
            assert forall|i: int| 0 <= i < labels.len() implies valid_label(#[trigger] labels[i]) by {
                if i > 0 {
                    assert(labels[i] == labels.drop_first()[i - 1]);
                }
            }
        }
        if forall|i: int| 0 <= i < labels.len() ==> valid_label(#[trigger] labels[i]) {
            assert(valid_label(labels[0]));
            assert forall|i: int|
                0 <= i < labels.drop_first().len() implies valid_label(
                #[trigger] labels.drop_first()[i],
            ) by {
                assert(labels.drop_first()[i] == labels[i + 1]);
            }
        }
    }
}

/// A valid hostname is nonempty ASCII of at most 253 characters whose
/// dot-separated labels are all valid.
pub proof fn lemma_valid_hostname(s: Seq<char>)
    ensures
        valid_hostname(s) <==> (0 < s.len() <= 253 && all_ascii(s) && forall|i: int|
            0 <= i < split(s, '.').len() ==> valid_label(#[trigger] split(s, '.')[i])),
{
    lemma_labels_error_none(split(s, '.'), s);
}

/// The separators that `sanitize_label` turns into a hyphen.
pub open spec fn is_sanitize_sep(c: char) -> bool {
    c == '-' || c == '_' || c == '.' || c == '/' || c == ' '
}

/// One step of `sanitize_label`: keep lower-cased letters and digits, turn a
/// separator into a single hyphen (never first, never doubled), drop the rest.
pub open spec fn sanitize_step(out: Seq<char>, c: char) -> Seq<char> {
    let l = lower(c);
    if is_alnum(l) {
        out.push(l)
    } else if is_sanitize_sep(l) && out.len() > 0 && out.last() != '-' {
        out.push('-')
    } else {
        out
    }
}

/// `sanitize_step` over the whole input.
pub open spec fn sanitize_scan(s: Seq<char>) -> Seq<char>
    decreases s.len(),
{
    if s.len() == 0 {
        Seq::<char>::empty()
    } else {
        sanitize_step(sanitize_scan(s.drop_last()), s.last())
    }
}

/// `s` without its trailing hyphens.
pub open spec fn trim_dashes(s: Seq<char>) -> Seq<char>
    decreases s.len(),
{
    if s.len() > 0 && s.last() == '-' {
        trim_dashes(s.drop_last())
    } else {
        s
    }
}

/// What `sanitize_label` returns for `s`.
pub open spec fn sanitize(s: Seq<char>) -> Seq<char> {
    let t = trim_dashes(sanitize_scan(s));
    let u = if t.len() == 0 {
        "app"@
    } else {
        t
    };
    if u.len() > 63 {
        trim_dashes(u.take(63))
    } else {
        u
    }
}

/// The part of `s` after its first `.`, if it has one.
pub open spec fn parent_of(s: Seq<char>) -> Option<Seq<char>> {
    if has_char(s, '.') {
        Some(s.skip(first_index(s, '.') + 1))
    } else {
        None
    }
}

/// The part of `s` before its first `.` (all of `s` when there is none).
pub open spec fn leftmost_of(s: Seq<char>) -> Seq<char> {
    s.take(first_index(s, '.'))
}

/// The nonempty pieces, in order.
pub open spec fn nonempty_pieces(ps: Seq<Seq<char>>) -> Seq<Seq<char>>
    decreases ps.len(),
{
    if ps.len() == 0 {
        Seq::<Seq<char>>::empty()
    } else if ps.last().len() > 0 {
        nonempty_pieces(ps.drop_last()).push(ps.last())
    } else {
        nonempty_pieces(ps.drop_last())
    }
}

// ---------------------------------------------------------------------------
// Lemmas
// ---------------------------------------------------------------------------

/// A parent is strictly shorter than its child.
pub proof fn lemma_parent_shorter(h: Seq<char>)
    ensures
        parent_of(h) matches Some(p) ==> p.len() < h.len(),
{
    lemma_first_index(h, '.');
}

/// Trimming keeps a prefix that does not end in a hyphen, and keeps at
/// least one character when the first one is not a hyphen.
pub proof fn lemma_trim_dashes(s: Seq<char>)
    ensures
        trim_dashes(s).len() <= s.len(),
        trim_dashes(s) == s.take(trim_dashes(s).len() as int),
        trim_dashes(s).len() == 0 || trim_dashes(s).last() != '-',
        s.len() > 0 && s[0] != '-' ==> trim_dashes(s).len() > 0,
    decreases s.len(),
{
    if s.len() > 0 && s.last() == '-' {
        lemma_trim_dashes(s.drop_last());
        let t = trim_dashes(s.drop_last());
        assert(s.drop_last().take(t.len() as int) == s.take(t.len() as int));
        if s.len() > 1 && s[0] != '-' {
            assert(s.drop_last()[0] == s[0]);
        }
    } else {
        assert(s.take(s.len() as int) == s);
    }
}

/// The scan yields label characters, never starts with a hyphen, and never
/// holds two hyphens in a row.
pub proof fn lemma_sanitize_scan(s: Seq<char>)
    ensures
        all_label_chars(sanitize_scan(s)),
        all_ascii(sanitize_scan(s)),
        sanitize_scan(s).len() > 0 ==> sanitize_scan(s)[0] != '-',
    decreases s.len(),
{
    if s.len() > 0 {
        lemma_sanitize_scan(s.drop_last());
        let out = sanitize_scan(s.drop_last());
        let r = sanitize_scan(s);
        assert forall|i: int| 0 <= i < r.len() implies is_label_char(#[trigger] r[i])
            && is_ascii_char(r[i]) by {
            if i < out.len() {
                assert(r[i] == out[i]);
                assert(is_label_char(out[i]));
                assert(is_ascii_char(out[i]));
            }
        }
        if r.len() > 0 && out.len() > 0 {
            assert(r[0] == out[0]);
        }
    }
}

/// `sanitize_label` always produces a valid DNS label.
pub proof fn lemma_sanitize_valid(s: Seq<char>)
    ensures
        valid_label(sanitize(s)),
        all_ascii(sanitize(s)),
{
    let sc = sanitize_scan(s);
    lemma_sanitize_scan(s);
    lemma_trim_dashes(sc);
    let t = trim_dashes(sc);
    assert(forall|i: int| 0 <= i < t.len() ==> t[i] == sc[i]);
    let u = if t.len() == 0 {
        "app"@
    } else {
        t
    };
    reveal_strlit("app");
    assert(all_label_chars(u) && all_ascii(u)) by {
        if t.len() > 0 {
            assert forall|i: int| 0 <= i < t.len() implies is_label_char(#[trigger] t[i]) by {
                assert(t[i] == sc[i]);
            }
            assert forall|i: int| 0 <= i < t.len() implies is_ascii_char(#[trigger] t[i]) by {
                assert(t[i] == sc[i]);
            }
        }
    }
    assert(u.len() > 0 && u[0] != '-' && u.last() != '-') by {
        if t.len() > 0 {
            assert(t[0] == sc[0]);
        }
    }
    if u.len() > 63 {
        let w = u.take(63);
        lemma_trim_dashes(w);
        let r = trim_dashes(w);
        assert forall|i: int| 0 <= i < r.len() implies is_label_char(#[trigger] r[i])
            && is_ascii_char(r[i]) by {
            assert(r[i] == w[i]);
            assert(w[i] == u[i]);
        }
        assert(w[0] == u[0]);
        assert(r[0] == w[0]);
    }
}

/// Lower-case ASCII letters, digits and hyphens only.
pub open spec fn lower_label_chars(s: Seq<char>) -> bool {
    forall|i: int| 0 <= i < s.len() ==> is_lower(#[trigger] s[i]) || is_digit(s[i]) || s[i] == '-'
}

/// No two hyphens in a row.
pub open spec fn no_double_dash(s: Seq<char>) -> bool {
    forall|i: int| 0 <= i < s.len() - 1 ==> !(#[trigger] s[i] == '-' && s[i + 1] == '-')
}

/// The scan yields lower-case label characters and never two hyphens in a
/// row.
proof fn lemma_scan_clean(s: Seq<char>)
    ensures
        lower_label_chars(sanitize_scan(s)),
        no_double_dash(sanitize_scan(s)),
    decreases s.len(),
{
    if s.len() > 0 {
        lemma_scan_clean(s.drop_last());
        let out = sanitize_scan(s.drop_last());
        let r = sanitize_scan(s);
        let l = lower(s.last());
        assert(is_alnum(l) ==> is_lower(l) || is_digit(l));
        assert forall|i: int| 0 <= i < r.len() implies is_lower(#[trigger] r[i]) || is_digit(r[i])
            || r[i] == '-' by {
            if i < out.len() {
                assert(r[i] == out[i]);
            }
        }
        assert forall|i: int| 0 <= i < r.len() - 1 implies !(#[trigger] r[i] == '-' && r[i + 1]
            == '-') by {
            if i + 1 < out.len() {
                assert(r[i] == out[i] && r[i + 1] == out[i + 1]);
            } else {
                assert(r[i] == out[i]);
                assert(out[out.len() - 1] == out.last());
            }
        }
    }
}

/// A text made of lower-case label characters, not starting with a hyphen
/// and without two hyphens in a row, scans to itself.
proof fn lemma_scan_fixed(r: Seq<char>)
    requires
        lower_label_chars(r),
        no_double_dash(r),
        r.len() > 0 ==> r[0] != '-',
    ensures
        sanitize_scan(r) == r,
    decreases r.len(),
{
    if r.len() > 0 {
        let t = r.drop_last();
        assert(lower_label_chars(t)) by {
            assert forall|i: int| 0 <= i < t.len() implies is_lower(#[trigger] t[i]) || is_digit(t[i])
                || t[i] == '-' by {
                assert(t[i] == r[i]);
            }
        }
        assert(no_double_dash(t)) by {
            assert forall|i: int| 0 <= i < t.len() - 1 implies !(#[trigger] t[i] == '-' && t[i + 1]
                == '-') by {
                assert(t[i] == r[i] && t[i + 1] == r[i + 1]);
            }
        }
        if t.len() > 0 {
            assert(t[0] == r[0]);
        }
        lemma_scan_fixed(t);
        let c = r.last();
        assert(c == r[r.len() - 1]);
        assert(is_lower(c) || is_digit(c) || c == '-');
        assert(lower(c) == c);
        if c == '-' {
            assert(r.len() >= 2);
            assert(t.last() == r[r.len() - 2]);
            assert(!(r[r.len() - 2] == '-' && r[r.len() - 1] == '-'));
        }
        assert(t.push(c) =~= r);
    }
}

/// What `sanitize_label` returns is a valid DNS label of lower-case ASCII
/// letters, digits and hyphens, without a dot or two hyphens in a row, and
/// sanitizing it again leaves it as it is.
pub proof fn lemma_sanitize_label(s: Seq<char>)
    ensures
        valid_label(sanitize(s)),
        lower_label_chars(sanitize(s)),
        no_double_dash(sanitize(s)),
        !has_char(sanitize(s), '.'),
        sanitize(sanitize(s)) == sanitize(s),
{
    lemma_sanitize_valid(s);
    let sc = sanitize_scan(s);
    lemma_scan_clean(s);
    lemma_trim_dashes(sc);
    let t = trim_dashes(sc);
    let u = if t.len() == 0 {
        "app"@
    } else {
        t
    };
    reveal_strlit("app");
    assert(lower_label_chars(u) && no_double_dash(u)) by {
        if t.len() > 0 {
            assert forall|i: int| 0 <= i < t.len() implies is_lower(#[trigger] t[i]) || is_digit(
                t[i],
            ) || t[i] == '-' by {
                assert(t[i] == sc[i]);
            }
            assert forall|i: int| 0 <= i < t.len() - 1 implies !(#[trigger] t[i] == '-' && t[i + 1]
                == '-') by {
                assert(t[i] == sc[i] && t[i + 1] == sc[i + 1]);
            }
        }
    }
    let r = sanitize(s);
    assert(lower_label_chars(r) && no_double_dash(r)) by {
        if u.len() > 63 {
            let w = u.take(63);
            lemma_trim_dashes(w);
            assert forall|i: int| 0 <= i < r.len() implies is_lower(#[trigger] r[i]) || is_digit(
                r[i],
            ) || r[i] == '-' by {
                assert(r[i] == w[i] && w[i] == u[i]);
            }
            assert forall|i: int| 0 <= i < r.len() - 1 implies !(#[trigger] r[i] == '-' && r[i + 1]
                == '-') by {
                assert(r[i] == w[i] && w[i] == u[i]);
                assert(r[i + 1] == w[i + 1] && w[i + 1] == u[i + 1]);
            }
        }
    }
    assert(!has_char(r, '.')) by {
        if has_char(r, '.') {
            let k = choose|k: int| 0 <= k < r.len() && r[k] == '.';
            assert(is_lower(r[k]) || is_digit(r[k]) || r[k] == '-');
        }
    }
    lemma_scan_fixed(r);
    assert(trim_dashes(r) == r);
}

/// Pieces that are all nonempty are kept as they are.
proof fn lemma_nonempty_pieces_all(ps: Seq<Seq<char>>)
    requires
        forall|i: int| 0 <= i < ps.len() ==> (#[trigger] ps[i]).len() > 0,
    ensures
        nonempty_pieces(ps) == ps,
    decreases ps.len(),
{
    if ps.len() > 0 {
        let t = ps.drop_last();
        assert forall|i: int| 0 <= i < t.len() implies (#[trigger] t[i]).len() > 0 by {
            assert(t[i] == ps[i]);
        }
        lemma_nonempty_pieces_all(t);
        assert(ps[ps.len() - 1] == ps.last());
        assert(t.push(ps.last()) =~= ps);
    }
}

/// The parent of a valid hostname: there is one exactly when the name has
/// a dot; then the name is its leftmost (nonempty) label, a dot and the
/// parent, the parent is a valid hostname, and it has one label fewer.
pub proof fn lemma_parent_valid(s: Seq<char>)
    requires
        valid_hostname(s),
    ensures
        parent_of(s) is None <==> !has_char(s, '.'),
        parent_of(s) matches Some(p) ==> {
            &&& s == leftmost_of(s) + seq!['.'] + p
            &&& leftmost_of(s).len() > 0
            &&& valid_hostname(p)
            &&& nonempty_pieces(split(p, '.')).len() + 1 == nonempty_pieces(split(s, '.')).len()
        },
{
    if has_char(s, '.') {
        lemma_first_index(s, '.');
        let k = first_index(s, '.');
        let a = s.take(k);
        let p = s.skip(k + 1);
        assert(s =~= a.push('.') + p);
        assert(leftmost_of(s) == a);
        assert(a + seq!['.'] + p =~= a.push('.') + p);
        lemma_valid_hostname(s);
        crate::text::lemma_split_concat(a, p, '.');
        assert(!has_char(a, '.')) by {
            if has_char(a, '.') {
                let j = choose|j: int| 0 <= j < a.len() && a[j] == '.';
                assert(s[j] == '.');
            }
        }
        crate::text::lemma_split_none(a, '.');
        let ps = split(s, '.');
        let pp = split(p, '.');
        assert(ps == seq![a] + pp);
        assert(valid_label(ps[0]));
        assert(ps[0] == a);
        assert forall|i: int| 0 <= i < pp.len() implies valid_label(#[trigger] pp[i]) by {
            assert(ps[i + 1] == pp[i]);
        }
        crate::text::lemma_split_nonempty(p, '.');
        assert(p.len() > 0) by {
            if p.len() == 0 {
                assert(pp == seq![Seq::<char>::empty()]);
                assert(valid_label(pp[0]));
            }
        }
        assert(all_ascii(p)) by {
            assert forall|i: int| 0 <= i < p.len() implies is_ascii_char(#[trigger] p[i]) by {
                assert(p[i] == s[i + k + 1]);
            }
        }
        lemma_valid_hostname(p);
        assert forall|i: int| 0 <= i < ps.len() implies (#[trigger] ps[i]).len() > 0 by {
            assert(valid_label(ps[i]));
        }
        assert forall|i: int| 0 <= i < pp.len() implies (#[trigger] pp[i]).len() > 0 by {
            assert(valid_label(pp[i]));
        }
        lemma_nonempty_pieces_all(ps);
        lemma_nonempty_pieces_all(pp);
    }
}

/// Only lower-case ASCII letters and digits.
pub open spec fn lower_alnum(s: Seq<char>) -> bool {
    forall|i: int| 0 <= i < s.len() ==> is_lower(#[trigger] s[i]) || is_digit(s[i])
}

/// Scanning `a`, a separator and then more lower-case letters and digits
/// gives `a`, one hyphen, and those characters.
proof fn lemma_scan_joined(a: Seq<char>, sep: char, b: Seq<char>)
    requires
        a.len() > 0,
        lower_alnum(a),
        lower_alnum(b),
        sep == '-' || sep == '_' || sep == '.' || sep == '/' || sep == ' ',
    ensures
        sanitize_scan(a.push(sep) + b) == a.push('-') + b,
    decreases b.len(),
{
    if b.len() == 0 {
        assert(a.push(sep) + b =~= a.push(sep));
        assert((a.push(sep)).drop_last() =~= a);
        assert(lower_label_chars(a)) by {
            assert forall|i: int| 0 <= i < a.len() implies is_lower(#[trigger] a[i]) || is_digit(a[i])
                || a[i] == '-' by {}
        }
        assert(no_double_dash(a)) by {
            assert forall|i: int| 0 <= i < a.len() - 1 implies !(#[trigger] a[i] == '-' && a[i + 1]
                == '-') by {
                assert(is_lower(a[i]) || is_digit(a[i]));
            }
        }
        assert(is_lower(a[0]) || is_digit(a[0]));
        lemma_scan_fixed(a);
        assert(a.last() == a[a.len() - 1]);
        assert(is_lower(a.last()) || is_digit(a.last()));
        assert(lower(sep) == sep);
        assert(a.push('-') + b =~= a.push('-'));
    } else {
        let c = b.last();
        let b0 = b.drop_last();
        assert(lower_alnum(b0)) by {
            assert forall|i: int| 0 <= i < b0.len() implies is_lower(#[trigger] b0[i]) || is_digit(b0[i]) by {
                assert(b0[i] == b[i]);
            }
        }
        lemma_scan_joined(a, sep, b0);
        assert((a.push(sep) + b).drop_last() =~= a.push(sep) + b0);
        assert((a.push(sep) + b).last() == c);
        assert(c == b[b.len() - 1]);
        assert(is_lower(c) || is_digit(c));
        assert(lower(c) == c);
        assert((a.push('-') + b0).push(c) =~= a.push('-') + b);
    }
}

/// A separator (`-`, `_`, `.`, `/` or a space) between two runs of
/// lower-case letters and digits becomes exactly one hyphen, as long as the
/// result fits in a label.
pub proof fn lemma_sanitize_separator(a: Seq<char>, sep: char, b: Seq<char>)
    requires
        a.len() > 0,
        b.len() > 0,
        lower_alnum(a),
        lower_alnum(b),
        sep == '-' || sep == '_' || sep == '.' || sep == '/' || sep == ' ',
        a.len() + 1 + b.len() <= 63,
    ensures
        sanitize(a.push(sep) + b) == a.push('-') + b,
{
    lemma_scan_joined(a, sep, b);
    let r = a.push('-') + b;
    assert(r.last() == b[b.len() - 1]);
    assert(is_lower(b[b.len() - 1]) || is_digit(b[b.len() - 1]));
    assert(trim_dashes(r) == r);
}

/// Facts about [`nonempty_pieces`].
pub proof fn lemma_nonempty_pieces(ps: Seq<Seq<char>>)
    ensures
        nonempty_pieces(ps).len() <= ps.len(),
        forall|i: int|
            0 <= i < nonempty_pieces(ps).len() ==> (#[trigger] nonempty_pieces(ps)[i]).len() > 0,
    decreases ps.len(),
{
    if ps.len() > 0 {
        lemma_nonempty_pieces(ps.drop_last());
    }
}

// ---------------------------------------------------------------------------
// Executable code
// ---------------------------------------------------------------------------

/// `"label '" + label + tail`.
fn label_message(label: &Vec<char>, tail: &str) -> (m: String)
    ensures
        m@ == "label '"@ + label@ + tail@,
{
    let mut m = owned("label '");
    push_all(&mut m, label);
    push_str(&mut m, tail);
    m
}

/// Whether every character of `l` is a label character.
fn vec_all_label_chars(l: &Vec<char>) -> (r: bool)
    ensures
        r == all_label_chars(l@),
{
    let mut i: usize = 0;
    while i < l.len()
        invariant
            i <= l.len(),
            forall|j: int| 0 <= j < i ==> is_label_char(#[trigger] l@[j]),
        decreases l.len() - i,
    {
        if !(is_alnum_char(l[i]) || l[i] == '-') {
            return false;
        }
        i += 1;
    }
    true
}

/// The complaint about one label.
fn check_label(label: &Vec<char>, host: &Vec<char>) -> (r: Option<String>)
    ensures
        match label_error(label@, host@) {
            Some(m) => r is Some && r->Some_0@ == m,
            None => r is None,
        },
{
    if label.len() == 0 {
        let mut m = owned("empty label in '");
        push_all(&mut m, host);
        push_str(&mut m, "'");
        return Some(m);
    }
    if label.len() > MAX_LABEL_LEN {
        return Some(label_message(label, "' exceeds 63 characters"));
    }
    if !vec_all_label_chars(label) {
        return Some(label_message(label, "' contains invalid characters"));
    }
    if label[0] == '-' || label[label.len() - 1] == '-' {
        return Some(label_message(label, "' may not start or end with a hyphen"));
    }
    None
}

/// Validate a hostname string according to RFC 952 / RFC 1123.
///
/// - ASCII only.
/// - Each label 1..=63 characters.
/// - Labels consist of letters, digits, and `-` (no leading/trailing hyphen).
/// - Total length ≤ 253.
///
/// The error is always [`Error::InvalidHostname`], carrying the complaint
/// that [`hostname_error`] names.
pub fn validate(hostname: &str) -> (r: Result<(), Error>)
    ensures
        r is Ok <==> valid_hostname(hostname@),
        r matches Err(e) ==> e is InvalidHostname && hostname_error(hostname@) == Some(
            e->InvalidHostname_0@,
        ),
{
    let v = chars_of(hostname);
    if v.len() == 0 {
        return Err(Error::InvalidHostname(owned("empty")));
    }
    if !vec_all_ascii(&v) {
        return Err(Error::InvalidHostname(owned("non-ASCII characters are not allowed")));
    }
    if v.len() > MAX_HOST_LEN {
        return Err(Error::InvalidHostname(owned("longer than 253 characters")));
    }
    let labels = split_vec(&v, '.');
    let ghost ls = split(v@, '.');
    assert(ls.skip(0) == ls);
    assert(hostname_error(v@) == labels_error(ls, v@));
    let mut i: usize = 0;
    while i < labels.len()
        invariant
            v@ == hostname@,
            hostname_error(v@) == labels_error(ls, v@),
            labels@.len() == ls.len(),
            forall|j: int| 0 <= j < labels@.len() ==> #[trigger] labels@[j]@ == ls[j],
            i <= labels.len(),
            labels_error(ls, v@) == labels_error(ls.skip(i as int), v@),
        decreases labels.len() - i,
    {
        let r = check_label(&labels[i], &v);
        assert(ls.skip(i as int)[0] == ls[i as int]);
        assert(ls.skip(i as int).drop_first() == ls.skip(i + 1));
        match r {
            Some(m) => {
                return Err(Error::InvalidHostname(m));
            },
            None => {},
        }
        i += 1;
    }
    assert(ls.skip(labels.len() as int).len() == 0);
    Ok(())
}

/// Sanitize an arbitrary string into a valid DNS label: letters are
/// lower-cased, runs of `-`, `_`, `.`, `/` and spaces become one hyphen, other
/// characters are dropped, trailing hyphens are removed, an empty result
/// becomes `app`, and the result is cut to 63 characters.
pub fn sanitize_label(input: &str) -> (out: String)
    ensures
        out@ == sanitize(input@),
        valid_label(out@),
{
    let v = chars_of(input);
    let mut out: Vec<char> = Vec::new();
    let mut i: usize = 0;
    while i < v.len()
        invariant
            i <= v.len(),
            out@ == sanitize_scan(v@.take(i as int)),
        decreases v.len() - i,
    {
        let c = v[i].to_ascii_lowercase();
        assert(v@.take(i + 1).drop_last() == v@.take(i as int));
        if is_alnum_char(c) {
            out.push(c);
        } else if (c == '-' || c == '_' || c == '.' || c == '/' || c == ' ') && out.len() > 0
            && out[out.len() - 1] != '-' {
            out.push('-');
        }
        i += 1;
    }
    assert(v@.take(v.len() as int) == v@);
    trim_trailing_dashes(&mut out);
    if out.len() == 0 {
        out = chars_of("app");
    }
    if out.len() > MAX_LABEL_LEN {
        out.truncate(MAX_LABEL_LEN);
        trim_trailing_dashes(&mut out);
    }
    proof {
        lemma_sanitize_valid(input@);
    }
    string_of(&out)
}

/// Remove trailing hyphens.
fn trim_trailing_dashes(out: &mut Vec<char>)
    ensures
        final(out)@ == trim_dashes(old(out)@),
{
    while out.len() > 0 && out[out.len() - 1] == '-'
        invariant
            trim_dashes(out@) == trim_dashes(old(out)@),
        decreases out.len(),
    {
        out.pop();
    }
}

/// A validated DNS hostname.
#[derive(Debug, Clone, PartialEq, Eq, Hash, PartialOrd, Ord)]
pub struct Host(String);

impl View for Host {
    type V = Seq<char>;

    closed spec fn view(&self) -> Seq<char> {
        self.0@
    }
}

impl Host {
    /// Create a new validated hostname.
    pub fn new<S: IntoText>(s: S) -> (r: Result<Self, Error>)
        ensures
            r is Ok <==> valid_hostname(s.text_view()),
            r matches Ok(h) ==> h@ == s.text_view(),
            r matches Err(e) ==> e is InvalidHostname && hostname_error(s.text_view()) == Some(
                e->InvalidHostname_0@,
            ),
    {
        let s = s.into_text();
        match validate(s.as_str()) {
            Ok(()) => Ok(Host(s)),
            Err(e) => Err(e),
        }
    }

    /// Build from a string without validation. Caller is responsible for
    /// having already validated the value.
    pub fn new_unchecked<S: IntoText>(s: S) -> (h: Self)
        ensures
            h@ == s.text_view(),
    {
        Host(s.into_text())
    }

    /// Access the inner string slice.
    pub fn as_str(&self) -> (r: &str)
        ensures
            r@ == self@,
    {
        self.0.as_str()
    }

    /// Consume into the inner string.
    pub fn into_string(self) -> (r: String)
        ensures
            r@ == self@,
    {
        self.0
    }

    /// The number of DNS labels (split on `.`, empty pieces not counted).
    pub fn label_count(&self) -> (n: usize)
        ensures
            n == nonempty_pieces(split(self@, '.')).len(),
    {
        let l = self.labels();
        l.len()
    }

    /// Whether the hostname is ASCII only.
    pub fn is_ascii(&self) -> (r: bool)
        ensures
            r == all_ascii(self@),
    {
        let v = chars_of(self.0.as_str());
        vec_all_ascii(&v)
    }

    /// The nonempty labels in left-to-right order.
    pub fn labels(&self) -> (r: Vec<String>)
        ensures
            r@.len() == nonempty_pieces(split(self@, '.')).len(),
            forall|i: int|
                0 <= i < r@.len() ==> #[trigger] r@[i]@ == nonempty_pieces(split(self@, '.'))[i],
    {
        let v = chars_of(self.0.as_str());
        let pieces = split_vec(&v, '.');
        let ghost ps = split(v@, '.');
        let mut r: Vec<String> = Vec::new();
        let mut i: usize = 0;
        while i < pieces.len()
            invariant
                pieces@.len() == ps.len(),
                forall|j: int| 0 <= j < pieces@.len() ==> #[trigger] pieces@[j]@ == ps[j],
                i <= pieces.len(),
                r@.len() == nonempty_pieces(ps.take(i as int)).len(),
                forall|j: int|
                    0 <= j < r@.len() ==> #[trigger] r@[j]@ == nonempty_pieces(ps.take(i as int))[j],
            decreases pieces.len() - i,
        {
            assert(ps.take(i + 1).drop_last() == ps.take(i as int));
            if pieces[i].len() > 0 {
                r.push(string_of(&pieces[i]));
            }
            i += 1;
        }
        assert(ps.take(pieces.len() as int) == ps);
        r
    }

    /// The full parent hostname (everything after the leftmost label).
    /// Returns `None` if there is no parent (e.g. the apex).
    pub fn parent(&self) -> (r: Option<Self>)
        ensures
            match parent_of(self@) {
                Some(p) => r is Some && r->Some_0@ == p,
                None => r is None,
            },
    {
        let v = chars_of(self.0.as_str());
        let i = find_char(&v, '.');
        proof {
            lemma_first_index(v@, '.');
        }
        if i == v.len() {
            None
        } else {
            Some(Host(string_of_range(&v, i + 1, v.len())))
        }
    }

    /// The leftmost label (e.g. `myapp` for `myapp.api.localhost`), unless
    /// it is empty.
    pub fn leftmost_label(&self) -> (r: Option<&str>)
        ensures
            leftmost_of(self@).len() > 0 ==> r is Some && r->Some_0@ == leftmost_of(self@),
            leftmost_of(self@).len() == 0 ==> r is None,
    {
        let v = chars_of(self.0.as_str());
        let i = find_char(&v, '.');
        proof {
            lemma_first_index(v@, '.');
        }
        if i == 0 {
            None
        } else {
            Some(self.0.as_str().substring_char(0, i))
        }
    }

    /// Returns true if this host is a strict subdomain of `prefix`:
    /// `api.myapp.localhost`.starts_with_subdomain(`myapp.localhost`) = true.
    pub fn starts_with_subdomain(&self, prefix: &Host) -> (r: bool)
        ensures
            r == (self@ != prefix@ && ends_with(self@, seq!['.'] + prefix@)),
    {
        let v = chars_of(self.0.as_str());
        let p = chars_of(prefix.0.as_str());
        if seq_eq(&v, &p) {
            return false;
        }
        let mut dotted: Vec<char> = Vec::new();
        dotted.push('.');
        let mut q = p;
        dotted.append(&mut q);
        assert(dotted@ == seq!['.'] + p@);
        vec_ends_with(&v, &dotted)
    }

    /// The part of this host before `.parent`, when this host is a strict
    /// subdomain of `parent`: `api` for `api.myapp.localhost` and
    /// `myapp.localhost`.
    pub fn subdomain_of(&self, parent: &Host) -> (r: Option<String>)
        ensures
            self@ != parent@ && ends_with(self@, seq!['.'] + parent@) ==> r is Some
                && r->Some_0@ == self@.take(self@.len() - parent@.len() - 1),
            !(self@ != parent@ && ends_with(self@, seq!['.'] + parent@)) ==> r is None,
    {
        if !self.starts_with_subdomain(parent) {
            return None;
        }
        let v = chars_of(self.0.as_str());
        let n = parent.0.as_str().unicode_len();
        Some(string_of_range(&v, 0, v.len() - n - 1))
    }
}

} // verus!
