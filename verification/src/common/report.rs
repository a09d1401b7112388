//! GitHub issue reporting: the text of a pre-filled issue URL.
//!
//! Whenever `portless` hits a condition it cannot recover from, it prints a
//! short, copy-pasteable message that includes a pre-filled
//! `https://github.com/muhammad-fiaz/portless/issues/new?...` URL so the
//! user can file a report in one click. This module builds that URL: the
//! issue body, the percent-encoding of each query parameter, and the caps
//! that keep the URL under GitHub's limit.

use vstd::prelude::*;
use vstd::utf8::{encode_scalar, encode_utf8};
use crate::common::ISSUES_URL;
use crate::common::error::{Error, hint_of, message_of};
use crate::platform::system::{OsKind, os_name};
use crate::process::spawn::texts;
use crate::text::{
    chars_of, first_index, has_char, joined, lemma_first_index, owned, push_str, str_views,
    string_of_range,
};

verus! {

// ---------------------------------------------------------------------------
// Percent-encoding
// ---------------------------------------------------------------------------

/// Upper-case hexadecimal digit of `n < 16`.
pub open spec fn hex_digit(n: u8) -> char {
    if n < 10 {
        (n + 48) as char
    } else {
        (n + 55) as char
    }
}

/// Bytes that RFC 3986 leaves unreserved: ASCII letters and digits, `-`,
/// `.`, `_` and `~`.
pub open spec fn url_safe(b: u8) -> bool {
    (48 <= b <= 57) || (65 <= b <= 90) || (97 <= b <= 122) || b == 45 || b == 46 || b == 95
        || b == 126
}

/// One byte, percent-encoded.
pub open spec fn encode_byte(b: u8) -> Seq<char> {
    if url_safe(b) {
        seq![b as char]
    } else {
        seq!['%', hex_digit(b / 16), hex_digit(b % 16)]
    }
}

/// A byte sequence, percent-encoded byte by byte.
pub open spec fn percent_encoded(bs: Seq<u8>) -> Seq<char>
    decreases bs.len(),
{
    if bs.len() == 0 {
        Seq::empty()
    } else {
        percent_encoded(bs.drop_last()) + encode_byte(bs.last())
    }
}

/// The hexadecimal digit of `n < 16`.
fn hex_char(n: u8) -> (c: char)
    requires
        n < 16,
    ensures
        c == hex_digit(n),
{
    if n < 10 {
        (n + 48) as char
    } else {
        (n + 55) as char
    }
}

/// Minimal RFC 3986 percent-encoder for the issue-URL parameters: every
/// byte of the UTF-8 encoding outside the unreserved set becomes `%XX`.
pub fn percent_encode(s: &str) -> (out: String)
    ensures
        out@ == percent_encoded(encode_utf8(s@)),
{
    let bytes = s.as_bytes();
    let ghost bs = encode_utf8(s@);
    let mut out = String::new();
    let mut i: usize = 0;
    while i < bytes.len()
        invariant
            bytes@ == bs,
            i <= bs.len(),
            out@ == percent_encoded(bs.take(i as int)),
        decreases bytes.len() - i,
    {
        let c = bytes[i];
        assert(bs.take(i + 1).drop_last() == bs.take(i as int));
        assert(bs.take(i + 1).last() == c);
        let safe = (48 <= c && c <= 57) || (65 <= c && c <= 90) || (97 <= c && c <= 122) || c == 45
            || c == 46 || c == 95 || c == 126;
        if safe {
            out.push(c as char);
            assert(out@ == percent_encoded(bs.take(i as int)) + seq![c as char]);
        } else {
            out.push('%');
            out.push(hex_char(c / 16));
            out.push(hex_char(c % 16));
            assert(out@ =~= percent_encoded(bs.take(i as int)) + seq![
                '%',
                hex_digit(c / 16),
                hex_digit(c % 16),
            ]);
        }
        i += 1;
    }
    assert(bs.take(bytes.len() as int) == bs);
    out
}

// ---------------------------------------------------------------------------
// Truncation
// ---------------------------------------------------------------------------

/// The number of bytes of `c` in UTF-8.
pub open spec fn char_width(c: char) -> nat {
    encode_scalar(c as u32).len()
}

/// How many leading characters of `s` fit in `max` bytes of UTF-8.
pub open spec fn fit_count(s: Seq<char>, max: nat) -> nat
    decreases s.len(),
{
    if s.len() == 0 || char_width(s[0]) > max {
        0
    } else {
        1 + fit_count(s.drop_first(), (max - char_width(s[0])) as nat)
    }
}

/// `s` itself when its UTF-8 encoding has at most `max` bytes; otherwise
/// the longest prefix that fits in `max` bytes, followed by `…`.
pub open spec fn truncated(s: Seq<char>, max: nat) -> Seq<char> {
    if encode_utf8(s).len() <= max {
        s
    } else {
        s.take(fit_count(s, max) as int).push('…')
    }
}

/// The prefix of `s` that fits in `max` bytes does fit.
proof fn lemma_fit_prefix(s: Seq<char>, max: nat)
    ensures
        fit_count(s, max) <= s.len(),
        encode_utf8(s.take(fit_count(s, max) as int)).len() <= max,
    decreases s.len(),
{
    if s.len() == 0 || char_width(s[0]) > max {
        assert(s.take(0) =~= Seq::<char>::empty());
    } else {
        let rest = s.drop_first();
        let m = (max - char_width(s[0])) as nat;
        lemma_fit_prefix(rest, m);
        let t = s.take(fit_count(s, max) as int);
        assert(t[0] == s[0]);
        assert(t.drop_first() =~= rest.take(fit_count(rest, m) as int));
    }
}

/// Appending a character adds its width to the encoding's length.
proof fn lemma_encode_push(x: Seq<char>, c: char)
    ensures
        encode_utf8(x.push(c)).len() == encode_utf8(x).len() + char_width(c),
    decreases x.len(),
{
    if x.len() == 0 {
        assert(x.push(c).drop_first() =~= Seq::<char>::empty());
        assert(x.push(c)[0] == c);
        assert(encode_utf8(Seq::<char>::empty()).len() == 0);
        assert(encode_utf8(x).len() == 0);
    } else {
        lemma_encode_push(x.drop_first(), c);
        assert(x.push(c).drop_first() =~= x.drop_first().push(c));
        assert(x.push(c)[0] == x[0]);
    }
}

/// A cut text keeps at most `max` bytes of the original and adds the
/// three-byte `…`: the result never encodes to more than `max + 3` bytes,
/// and a text that fits is left as it is.
pub proof fn lemma_truncated_len(s: Seq<char>, max: nat)
    ensures
        encode_utf8(truncated(s, max)).len() <= max + 3,
        encode_utf8(s).len() <= max ==> truncated(s, max) == s,
{
    if encode_utf8(s).len() > max {
        let t = s.take(fit_count(s, max) as int);
        lemma_fit_prefix(s, max);
        lemma_encode_push(t, '…');
        assert(('…' as u32) == 0x2026u32);
        assert(vstd::utf8::has_width_3_encoding('…' as u32));
    }
}

/// The UTF-8 width of one character.
fn char_width_exec(c: char) -> (w: usize)
    ensures
        w == char_width(c),
        1 <= w <= 4,
{
    proof {
        vstd::utf8::char_is_scalar(c);
    }
    let u = c as u32;
    if u <= 0x7F {
        1
    } else if u <= 0x7FF {
        2
    } else if u <= 0xFFFF {
        3
    } else {
        4
    }
}

/// Cap `s` at `max` bytes, cutting at a character boundary and marking the
/// cut with `…`.
pub fn truncate(s: &str, max: usize) -> (r: String)
    ensures
        r@ == truncated(s@, max as nat),
{
    if s.as_bytes().len() <= max {
        return owned(s);
    }
    let v = chars_of(s);
    let mut used: usize = 0;
    let mut i: usize = 0;
    let mut done = false;
    assert(s@.skip(0) == s@);
    while i < v.len() && !done
        invariant
            v@ == s@,
            i <= v@.len(),
            used <= max,
            fit_count(s@, max as nat) == i + fit_count(s@.skip(i as int), (max - used) as nat),
            done ==> i < v@.len() && char_width(s@[i as int]) > max - used,
        decreases v.len() - i + (if done { 0int } else { 1int }),
    {
        let w = char_width_exec(v[i]);
        let ghost rest = s@.skip(i as int);
        assert(rest[0] == v@[i as int]);
        if w > max - used {
            done = true;
        } else {
            assert(rest.drop_first() == s@.skip(i + 1));
            used = used + w;
            i += 1;
        }
    }
    assert(fit_count(s@.skip(i as int), (max - used) as nat) == 0) by {
        if i < v.len() {
            assert(s@.skip(i as int)[0] == s@[i as int]);
        }
    }
    let mut r = string_of_range(&v, 0, i);
    r.push('…');
    assert(s@.take(i as int) == v@.subrange(0, i as int));
    r
}

// ---------------------------------------------------------------------------
// First line
// ---------------------------------------------------------------------------

/// What `s.lines().next().unwrap_or(s)` gives: the text before the first
/// `\n` without one trailing `\r`; the whole of `s` when it has no `\n`.
pub open spec fn first_line_of(s: Seq<char>) -> Seq<char> {
    if !has_char(s, '\n') {
        s
    } else {
        let p = s.take(first_index(s, '\n'));
        if p.len() > 0 && p.last() == '\r' {
            p.drop_last()
        } else {
            p
        }
    }
}

/// The first line of `s`.
pub fn first_line(s: &str) -> (r: &str)
    ensures
        r@ == first_line_of(s@),
{
    let v = chars_of(s);
    let i = crate::text::find_char(&v, '\n');
    proof {
        lemma_first_index(s@, '\n');
    }
    if i == v.len() {
        return s;
    }
    if i > 0 && v[i - 1] == '\r' {
        s.substring_char(0, i - 1)
    } else {
        s.substring_char(0, i)
    }
}

// ---------------------------------------------------------------------------
// Issue body and URL
// ---------------------------------------------------------------------------

/// A labelled line of the issue body, when there is a value for it.
pub open spec fn body_line(label: Seq<char>, value: Option<&str>) -> Seq<char> {
    match value {
        Some(v) => label + v@ + "`\n"@,
        None => Seq::empty(),
    }
}

/// The issue template: what happened, then the optional location, version
/// and host lines, then the empty sections for the reporter to fill in.
pub open spec fn issue_body(
    kind: Seq<char>,
    message: Seq<char>,
    location: Option<&str>,
    version: Option<&str>,
    host_triple: Option<&str>,
) -> Seq<char> {
    "### What happened\n\n"@ + kind + ": `"@ + message + "`\n\n"@
        + body_line("**location:** `"@, location) + body_line("**portless version:** `"@, version)
        + body_line("**host:** `"@, host_triple)
        + "\n### Steps to reproduce\n\n1. \n2. \n3. \n\n"@
        + "### Expected behaviour\n\n\n"@
        + "### Actual behaviour\n\n\n"@
        + "### Logs / extra context\n\n```\n\n```\n"@
}

/// Append a labelled line when there is a value.
fn push_line(body: &mut String, label: &str, value: Option<&str>)
    ensures
        final(body)@ == old(body)@ + body_line(label@, value),
{
    match value {
        Some(v) => {
            push_str(body, label);
            push_str(body, v);
            push_str(body, "`\n");
            assert(final(body)@ =~= old(body)@ + (label@ + v@ + "`\n"@));
        },
        None => {
            assert(old(body)@ + Seq::<char>::empty() =~= old(body)@);
        },
    }
}

/// The body of a pre-filled issue.
pub fn build_issue_body(
    kind: &str,
    message: &str,
    location: Option<&str>,
    version: Option<&str>,
    host_triple: Option<&str>,
) -> (body: String)
    ensures
        body@ == issue_body(kind@, message@, location, version, host_triple),
{
    let mut body = owned("### What happened\n\n");
    push_str(&mut body, kind);
    push_str(&mut body, ": `");
    push_str(&mut body, message);
    push_str(&mut body, "`\n\n");
    push_line(&mut body, "**location:** `", location);
    push_line(&mut body, "**portless version:** `", version);
    push_line(&mut body, "**host:** `", host_triple);
    push_str(&mut body, "\n### Steps to reproduce\n\n1. \n2. \n3. \n\n");
    push_str(&mut body, "### Expected behaviour\n\n\n");
    push_str(&mut body, "### Actual behaviour\n\n\n");
    push_str(&mut body, "### Logs / extra context\n\n```\n\n```\n");
    body
}

/// `labels.join(",")`.
fn join_commas(labels: &[&str]) -> (r: String)
    ensures
        r@ == joined(str_views(labels@), ","@),
{
    let mut r = String::new();
    let mut i: usize = 0;
    while i < labels.len()
        invariant
            i <= labels@.len(),
            r@ == joined(str_views(labels@.take(i as int)), ","@),
        decreases labels.len() - i,
    {
        let ghost prev = str_views(labels@.take(i as int));
        assert(str_views(labels@.take(i + 1)).drop_last() == prev);
        assert(str_views(labels@.take(i + 1)).last() == labels@[i as int]@);
        if i > 0 {
            push_str(&mut r, ",");
        } else {
            assert(prev.len() == 0);
            assert(r@ == Seq::<char>::empty());
        }
        push_str(&mut r, labels[i]);
        if i == 0 {
            assert(r@ =~= labels@[0]@);
        }
        i += 1;
    }
    assert(labels@.take(labels@.len() as int) == labels@);
    r
}

/// The pre-filled `issues/new` URL: the title capped at 200 bytes, the body
/// at 6000, the labels joined with `,`, each parameter percent-encoded.
pub open spec fn issue_url(title: Seq<char>, body: Seq<char>, labels: Seq<Seq<char>>) -> Seq<char> {
    ISSUES_URL@ + "/new?"@ + "title="@ + percent_encoded(encode_utf8(truncated(title, 200)))
        + "&body="@ + percent_encoded(encode_utf8(truncated(body, 6000))) + "&labels="@
        + percent_encoded(encode_utf8(joined(labels, ","@)))
}

/// The URL of a pre-filled GitHub issue.
pub fn build_issue_url(title: &str, body: &str, labels: &[&str]) -> (url: String)
    ensures
        url@ == issue_url(title@, body@, str_views(labels@)),
{
    let title = truncate(title, 200);
    let body = truncate(body, 6000);
    let labels = join_commas(labels);
    let mut url = owned(ISSUES_URL);
    push_str(&mut url, "/new?");
    push_str(&mut url, "title=");
    let t = percent_encode(title.as_str());
    push_str(&mut url, t.as_str());
    push_str(&mut url, "&body=");
    let b = percent_encode(body.as_str());
    push_str(&mut url, b.as_str());
    push_str(&mut url, "&labels=");
    let l = percent_encode(labels.as_str());
    push_str(&mut url, l.as_str());
    url
}

/// The platform an issue report names: `<os>/<arch>` for Linux, macOS and
/// Windows on `x86_64` or `aarch64`; none elsewhere.
pub open spec fn host_triple_spec(os: OsKind, arch: Seq<char>) -> Option<Seq<char>> {
    if (os == OsKind::Linux || os == OsKind::Macos || os == OsKind::Windows) && (arch
        == "x86_64"@ || arch == "aarch64"@) {
        Some(os_name(os) + "/"@ + arch)
    } else {
        None
    }
}

/// The platform an issue report names, from the OS and the CPU
/// architecture the binary was built for.
pub fn host_triple_for(os: OsKind, arch: &str) -> (r: Option<String>)
    ensures
        match host_triple_spec(os, arch@) {
            Some(t) => r is Some && r->Some_0@ == t,
            None => r is None,
        },
{
    let known_os = match os {
        OsKind::Linux | OsKind::Macos | OsKind::Windows => true,
        _ => false,
    };
    if known_os && (crate::text::str_eq(arch, "x86_64") || crate::text::str_eq(arch, "aarch64")) {
        let mut t = owned(os.as_str());
        push_str(&mut t, "/");
        push_str(&mut t, arch);
        Some(t)
    } else {
        None
    }
}

/// The ruler around a panic report.
pub const REPORT_RULE: &'static str = "============================================================";

/// What an error report prints: a blank line, the error, its hint when it
/// has one, and for an error that looks like a bug, a pre-filled issue URL.
pub open spec fn error_report_spec(e: Error, version: &str, host: Option<&str>) -> Seq<Seq<char>> {
    let msg = message_of(e);
    let head = seq![Seq::<char>::empty(), "portless: "@ + msg];
    let with_hint = match hint_of(e) {
        Some(h) => head.push("hint:     "@ + h),
        None => head,
    };
    if e is StateCorruption || e is Lock || e is LoopDetected || e is NotImplemented || e is Bind
        || e is Other {
        with_hint + seq![
            Seq::<char>::empty(),
            "If this looks like a bug, please file a report:"@,
            "  "@ + issue_url(
                "error: "@ + msg,
                issue_body("error"@, msg, None, Some(version), host),
                seq!["bug"@],
            ),
        ]
    } else {
        with_hint
    }
}

/// Append a line.
fn push_text_line(v: &mut Vec<String>, line: String)
    ensures
        texts(final(v)@) == texts(old(v)@).push(line@),
{
    v.push(line);
    assert(texts(v@) =~= texts(old(v)@).push(line@));
}

/// `a` followed by `b`.
fn concat(a: &str, b: &str) -> (r: String)
    ensures
        r@ == a@ + b@,
{
    let mut r = owned(a);
    push_str(&mut r, b);
    r
}

impl Error {
    /// The lines of the report of this error: a blank line, the error, its
    /// hint, and for an error that looks like a bug a pre-filled issue URL
    /// naming `version` and the `host` platform.
    pub fn report_lines(&self, version: &str, host: Option<&str>) -> (r: Vec<String>)
        ensures
            texts(r@) == error_report_spec(*self, version, host),
    {
        let msg = self.to_string();
        let mut r: Vec<String> = Vec::new();
        push_text_line(&mut r, String::new());
        push_text_line(&mut r, concat("portless: ", msg.as_str()));
        match self.hint() {
            Some(h) => push_text_line(&mut r, concat("hint:     ", h.as_str())),
            None => {},
        }
        let ghost with_hint = texts(r@);
        if self.is_reportable() {
            let title = concat("error: ", msg.as_str());
            let body = build_issue_body("error", msg.as_str(), None, Some(version), host);
            let url = build_issue_url(title.as_str(), body.as_str(), &["bug"]);
            assert(str_views(seq!["bug"]) =~= seq!["bug"@]);
            push_text_line(&mut r, String::new());
            push_text_line(&mut r, owned("If this looks like a bug, please file a report:"));
            push_text_line(&mut r, concat("  ", url.as_str()));
            assert(texts(r@) =~= with_hint + seq![
                Seq::<char>::empty(),
                "If this looks like a bug, please file a report:"@,
                "  "@ + url@,
            ]);
        }
        r
    }
}

/// What a panic report prints: between rulers, a pre-filled issue URL for
/// the panic, then its payload, location, version and host (`unknown`
/// when the platform is not named).
pub open spec fn panic_report_spec(
    payload: Seq<char>,
    location: &str,
    version: &str,
    host: Option<&str>,
) -> Seq<Seq<char>> {
    seq![
        Seq::<char>::empty(),
        REPORT_RULE@,
        "portless hit an unexpected internal error (a panic)."@,
        "This is a bug. Please file a report:"@,
        "  "@ + issue_url(
            "panic: "@ + first_line_of(payload),
            issue_body("panic"@, payload, Some(location), Some(version), host),
            seq!["bug"@, "panic"@],
        ),
        Seq::<char>::empty(),
        "  payload:  "@ + payload,
        "  location: "@ + location@,
        "  version:  "@ + version@,
        "  host:     "@ + match host {
            Some(h) => h@,
            None => "unknown"@,
        },
        REPORT_RULE@,
    ]
}

/// The lines of the report of a panic with `payload` at `location`.
pub fn panic_report_lines(payload: &str, location: &str, version: &str, host: Option<&str>) -> (r: Vec<
    String,
>)
    ensures
        texts(r@) == panic_report_spec(payload@, location, version, host),
{
    let title = concat("panic: ", first_line(payload));
    let body = build_issue_body("panic", payload, Some(location), Some(version), host);
    let url = build_issue_url(title.as_str(), body.as_str(), &["bug", "panic"]);
    assert(str_views(seq!["bug", "panic"]) =~= seq!["bug"@, "panic"@]);
    let mut r: Vec<String> = Vec::new();
    push_text_line(&mut r, String::new());
    push_text_line(&mut r, owned(REPORT_RULE));
    push_text_line(&mut r, owned("portless hit an unexpected internal error (a panic)."));
    push_text_line(&mut r, owned("This is a bug. Please file a report:"));
    push_text_line(&mut r, concat("  ", url.as_str()));
    push_text_line(&mut r, String::new());
    push_text_line(&mut r, concat("  payload:  ", payload));
    push_text_line(&mut r, concat("  location: ", location));
    push_text_line(&mut r, concat("  version:  ", version));
    let h: &str = match host {
        Some(h) => h,
        None => "unknown",
    };
    push_text_line(&mut r, concat("  host:     ", h));
    push_text_line(&mut r, owned(REPORT_RULE));
    assert(texts(r@) =~= panic_report_spec(payload@, location, version, host));
    r
}

} // verus!
