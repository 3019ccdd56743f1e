//! The textual format of the identity store.
//!
//! A store is written as one line per entry,
//!
//! ```text
//! "key" = { name = "value", email = "value" }
//! ```
//!
//! with backslash escapes for `\`, `"`, and the control characters
//! newline, carriage return and tab inside the quoted strings.  Blank
//! lines, lines of whitespace and lines whose first non-blank character
//! is `#` are ignored when reading.  Duplicate keys are rejected.
//!
//! `ser` gives the exact text written for a sequence of entries and
//! `parse_doc` the exact meaning of a text; `lemma_round_trip` proves
//! that reading back what was written yields the same entries.

use vstd::prelude::*;
use vstd::string::StrSliceExecFns;
use vstd::string::StringExecFns;
use crate::author::Author;

verus! {

/// One stored entry, as a mathematical value: the key and the two
/// identity fields, each a character sequence.
pub ghost struct EntryV {
    pub key: Seq<char>,
    pub name: Seq<char>,
    pub email: Seq<char>,
}

// ---------------------------------------------------------------------------
// Serialization, at the spec level.
// ---------------------------------------------------------------------------

/// The escaped form of a single character inside a quoted string.
pub open spec fn esc_char(c: char) -> Seq<char> {
    if c == '\\' {
        seq!['\\', '\\']
    } else if c == '"' {
        seq!['\\', '"']
    } else if c == '\n' {
        seq!['\\', 'n']
    } else if c == '\r' {
        seq!['\\', 'r']
    } else if c == '\t' {
        seq!['\\', 't']
    } else {
        seq![c]
    }
}

/// The escaped form of a whole string.
pub open spec fn esc(s: Seq<char>) -> Seq<char>
    decreases s.len(),
{
    if s.len() == 0 {
        Seq::empty()
    } else {
        esc_char(s[0]) + esc(s.drop_first())
    }
}

/// A string as it stands in an entry line: escaped and surrounded by
/// double quotes.
pub open spec fn quoted(s: Seq<char>) -> Seq<char> {
    seq!['"'] + esc(s) + seq!['"']
}

/// The fixed text between the key and the name value.
pub open spec fn tok_name() -> Seq<char> {
    " = { name = "@
}

/// The fixed text between the name value and the email value.
pub open spec fn tok_email() -> Seq<char> {
    ", email = "@
}

/// The fixed text closing an entry line.
pub open spec fn tok_end() -> Seq<char> {
    " }"@
}

/// The line written for one entry.
pub open spec fn entry_line(e: EntryV) -> Seq<char> {
    quoted(e.key) + tok_name() + quoted(e.name) + tok_email() + quoted(e.email) + tok_end()
}

/// The whole text written for a sequence of entries: one line per
/// entry, each followed by a newline.
pub open spec fn ser(es: Seq<EntryV>) -> Seq<char>
    decreases es.len(),
{
    if es.len() == 0 {
        Seq::empty()
    } else {
        entry_line(es[0]) + seq!['\n'] + ser(es.drop_first())
    }
}

// ---------------------------------------------------------------------------
// Parsing, at the spec level.
// ---------------------------------------------------------------------------

/// Blank characters that may surround an entry on its line.
pub open spec fn is_ws(c: char) -> bool {
    c == ' ' || c == '\t' || c == '\r'
}

/// The rest of `s` once leading blanks are gone.
pub open spec fn skip_ws(s: Seq<char>) -> Seq<char>
    decreases s.len(),
{
    if s.len() > 0 && is_ws(s[0]) {
        skip_ws(s.drop_first())
    } else {
        s
    }
}

/// The character stood for by the escape code `c`, if `\c` is a valid
/// escape.
pub open spec fn unesc_code(c: char) -> Option<char> {
    if c == '\\' {
        Some('\\')
    } else if c == '"' {
        Some('"')
    } else if c == 'n' {
        Some('\n')
    } else if c == 'r' {
        Some('\r')
    } else if c == 't' {
        Some('\t')
    } else {
        None
    }
}

/// Scans the body of a quoted string.  `s` is the text after the
/// opening quote; the result is the unescaped content together with the
/// text after the closing quote, or `None` if the string never closes
/// or uses an unknown escape.
pub open spec fn scan_str(s: Seq<char>) -> Option<(Seq<char>, Seq<char>)>
    decreases s.len(),
{
    if s.len() == 0 {
        None
    } else if s[0] == '"' {
        Some((Seq::empty(), s.drop_first()))
    } else if s[0] == '\\' {
        if s.len() < 2 {
            None
        } else {
            match unesc_code(s[1]) {
                None => None,
                Some(c) => match scan_str(s.skip(2)) {
                    None => None,
                    Some(p) => Some((seq![c] + p.0, p.1)),
                },
            }
        }
    } else {
        match scan_str(s.drop_first()) {
            None => None,
            Some(p) => Some((seq![s[0]] + p.0, p.1)),
        }
    }
}

/// Scans a whole quoted string, opening quote included.
pub open spec fn scan_quoted(s: Seq<char>) -> Option<(Seq<char>, Seq<char>)> {
    if s.len() > 0 && s[0] == '"' {
        scan_str(s.drop_first())
    } else {
        None
    }
}

/// Consumes the fixed text `lit` from the front of `s`.
pub open spec fn expect(lit: Seq<char>, s: Seq<char>) -> Option<Seq<char>> {
    if lit.len() <= s.len() && s.subrange(0, lit.len() as int) == lit {
        Some(s.skip(lit.len() as int))
    } else {
        None
    }
}

/// The meaning of one line that is not blank and not a comment.
pub open spec fn parse_entry(t: Seq<char>) -> Option<EntryV> {
    match scan_quoted(t) {
        None => None,
        Some(kp) => match expect(tok_name(), kp.1) {
            None => None,
            Some(r2) => match scan_quoted(r2) {
                None => None,
                Some(np) => match expect(tok_email(), np.1) {
                    None => None,
                    Some(r4) => match scan_quoted(r4) {
                        None => None,
                        Some(ep) => match expect(tok_end(), ep.1) {
                            None => None,
                            Some(r6) => if skip_ws(r6).len() == 0 {
                                Some(EntryV { key: kp.0, name: np.0, email: ep.0 })
                            } else {
                                None
                            },
                        },
                    },
                },
            },
        },
    }
}

/// What one line of the document contributes.
pub ghost enum LineParse {
    /// A blank line or a comment.
    Skip,
    /// A well-formed entry.
    Entry(EntryV),
    /// Anything else: the document is malformed.
    Bad,
}

/// The meaning of one line.
pub open spec fn parse_line(line: Seq<char>) -> LineParse {
    let t = skip_ws(line);
    if t.len() == 0 || t[0] == '#' {
        LineParse::Skip
    } else {
        match parse_entry(t) {
            Some(e) => LineParse::Entry(e),
            None => LineParse::Bad,
        }
    }
}

/// The first line of `s`, without its newline.
pub open spec fn first_line(s: Seq<char>) -> Seq<char>
    decreases s.len(),
{
    if s.len() == 0 || s[0] == '\n' {
        Seq::empty()
    } else {
        seq![s[0]] + first_line(s.drop_first())
    }
}

/// Everything in `s` after its first line and that line's newline.
pub open spec fn rest_after(s: Seq<char>) -> Seq<char>
    decreases s.len(),
{
    if s.len() == 0 {
        s
    } else if s[0] == '\n' {
        s.drop_first()
    } else {
        rest_after(s.drop_first())
    }
}

/// Whether some entry of `es` carries the key `k`.
pub open spec fn has_key(es: Seq<EntryV>, k: Seq<char>) -> bool
    decreases es.len(),
{
    es.len() > 0 && (es[0].key == k || has_key(es.drop_first(), k))
}

/// Whether the keys of `es` are pairwise distinct.
pub open spec fn unique_keys(es: Seq<EntryV>) -> bool
    decreases es.len(),
{
    es.len() == 0 || (!has_key(es.drop_first(), es[0].key) && unique_keys(es.drop_first()))
}

/// The meaning of a whole document: its entries in order of
/// appearance, or `None` if some line is malformed or a key occurs
/// twice.
pub open spec fn parse_doc(s: Seq<char>) -> Option<Seq<EntryV>>
    decreases s.len() via parse_doc_dec
{
    if s.len() == 0 {
        Some(Seq::empty())
    } else {
        match parse_line(first_line(s)) {
            LineParse::Skip => parse_doc(rest_after(s)),
            LineParse::Bad => None,
            LineParse::Entry(e) => match parse_doc(rest_after(s)) {
                None => None,
                Some(es) => if has_key(es, e.key) {
                    None
                } else {
                    Some(seq![e] + es)
                },
            },
        }
    }
}

#[via_fn]
proof fn parse_doc_dec(s: Seq<char>) {
    if s.len() > 0 {
        lemma_rest_after_shorter(s);
    }
}

/// A line ends where the first newline stands: what comes after the
/// first line is shorter than the whole.
pub proof fn lemma_rest_after_shorter(s: Seq<char>)
    requires
        s.len() > 0,
    ensures
        rest_after(s).len() < s.len(),
    decreases s.len(),
{
    if s[0] == '\n' {
    } else if s.len() == 1 {
        assert(rest_after(s) == rest_after(s.drop_first()));
        assert(s.drop_first().len() == 0);
    } else {
        lemma_rest_after_shorter(s.drop_first());
    }
}

// ---------------------------------------------------------------------------
// Round trip: parsing back what was written yields the same entries.
// ---------------------------------------------------------------------------

/// Whether `s` is free of newlines, so that it stays on one line.
pub open spec fn no_nl(s: Seq<char>) -> bool {
    forall|i: int| 0 <= i < s.len() ==> s[i] != '\n'
}

proof fn lemma_no_nl_concat(a: Seq<char>, b: Seq<char>)
    requires
        no_nl(a),
        no_nl(b),
    ensures
        no_nl(a + b),
{
    assert forall|i: int| 0 <= i < (a + b).len() implies (a + b)[i] != '\n' by {
        if i < a.len() {
            assert((a + b)[i] == a[i]);
        } else {
            assert((a + b)[i] == b[i - a.len()]);
        }
    }
}

proof fn lemma_esc_no_nl(s: Seq<char>)
    ensures
        no_nl(esc(s)),
    decreases s.len(),
{
    if s.len() == 0 {
    } else {
        lemma_esc_no_nl(s.drop_first());
        let c = s[0];
        assert(no_nl(esc_char(c))) by {
            if c == '\\' || c == '"' || c == '\n' || c == '\r' || c == '\t' {
                assert(esc_char(c).len() == 2);
                assert(esc_char(c)[0] == '\\');
                assert(esc_char(c)[1] != '\n');
            } else {
                assert(esc_char(c) =~= seq![c]);
            }
        }
        lemma_no_nl_concat(esc_char(c), esc(s.drop_first()));
    }
}

proof fn lemma_tokens_no_nl()
    ensures
        no_nl(tok_name()),
        no_nl(tok_email()),
        no_nl(tok_end()),
{
    reveal_strlit(" = { name = ");
    reveal_strlit(", email = ");
    reveal_strlit(" }");
    assert(tok_name() =~= seq![' ', '=', ' ', '{', ' ', 'n', 'a', 'm', 'e', ' ', '=', ' ']);
    assert(tok_email() =~= seq![',', ' ', 'e', 'm', 'a', 'i', 'l', ' ', '=', ' ']);
    assert(tok_end() =~= seq![' ', '}']);
}

proof fn lemma_quoted_no_nl(s: Seq<char>)
    ensures
        no_nl(quoted(s)),
{
    lemma_esc_no_nl(s);
    assert(no_nl(seq!['"']));
    lemma_no_nl_concat(seq!['"'], esc(s));
    lemma_no_nl_concat(seq!['"'] + esc(s), seq!['"']);
    assert(quoted(s) =~= (seq!['"'] + esc(s)) + seq!['"']);
}

proof fn lemma_entry_line_no_nl(e: EntryV)
    ensures
        no_nl(entry_line(e)),
{
    lemma_quoted_no_nl(e.key);
    lemma_quoted_no_nl(e.name);
    lemma_quoted_no_nl(e.email);
    lemma_tokens_no_nl();
    let a = quoted(e.key);
    let b = tok_name();
    let c = quoted(e.name);
    let d = tok_email();
    let f = quoted(e.email);
    let g = tok_end();
    lemma_no_nl_concat(a, b);
    lemma_no_nl_concat(a + b, c);
    lemma_no_nl_concat(a + b + c, d);
    lemma_no_nl_concat(a + b + c + d, f);
    lemma_no_nl_concat(a + b + c + d + f, g);
}

/// Splitting off the first line undoes joining a newline-free line to
/// the rest of a document.
proof fn lemma_split(a: Seq<char>, b: Seq<char>)
    requires
        no_nl(a),
    ensures
        first_line(a + seq!['\n'] + b) == a,
        rest_after(a + seq!['\n'] + b) == b,
    decreases a.len(),
{
    let s = a + seq!['\n'] + b;
    if a.len() == 0 {
        assert(s =~= seq!['\n'] + b);
        assert(s[0] == '\n');
        assert(first_line(s) =~= a);
        assert(s.drop_first() =~= b);
    } else {
        assert(s[0] == a[0]);
        assert(a[0] != '\n');
        assert(s.drop_first() =~= a.drop_first() + seq!['\n'] + b);
        assert(no_nl(a.drop_first())) by {
            assert forall|i: int| 0 <= i < a.drop_first().len() implies a.drop_first()[i] != '\n'
            by {
                assert(a.drop_first()[i] == a[i + 1]);
            }
        }
        lemma_split(a.drop_first(), b);
        assert(first_line(s) == seq![s[0]] + first_line(s.drop_first()));
        assert(seq![a[0]] + a.drop_first() =~= a);
        assert(first_line(s) == a);
        assert(rest_after(s) == rest_after(s.drop_first()));
    }
}

/// Scanning a quoted-string body undoes escaping: the content comes
/// back exactly, and scanning stops at the closing quote.
proof fn lemma_scan_esc(x: Seq<char>, r: Seq<char>)
    ensures
        scan_str(esc(x) + seq!['"'] + r) == Some((x, r)),
    decreases x.len(),
{
    let s = esc(x) + seq!['"'] + r;
    if x.len() == 0 {
        assert(s =~= seq!['"'] + r);
        assert(s[0] == '"');
        assert(s.drop_first() =~= r);
        assert(scan_str(s) == Some((Seq::<char>::empty(), s.drop_first())));
        assert(Seq::<char>::empty() =~= x);
    } else {
        let c = x[0];
        let x1 = x.drop_first();
        assert(esc(x) == esc_char(c) + esc(x1));
        let s1 = esc(x1) + seq!['"'] + r;
        lemma_scan_esc(x1, r);
        assert(seq![c] + x1 =~= x);
        if c == '\\' || c == '"' || c == '\n' || c == '\r' || c == '\t' {
            let code: char = if c == '\\' {
                '\\'
            } else if c == '"' {
                '"'
            } else if c == '\n' {
                'n'
            } else if c == '\r' {
                'r'
            } else {
                't'
            };
            assert(esc_char(c) =~= seq!['\\', code]);
            assert(esc(x).len() >= 2);
            assert(s.len() >= 2);
            assert(s[0] == esc(x)[0]);
            assert(s[1] == esc(x)[1]);
            assert(esc(x)[0] == '\\');
            assert(esc(x)[1] == code);
            assert(unesc_code(code) == Some(c));
            assert(s.skip(2) =~= s1);
            assert(scan_str(s.skip(2)) == Some((x1, r)));
            assert(scan_str(s) == Some((seq![c] + x1, r)));
        } else {
            assert(esc_char(c) =~= seq![c]);
            assert(esc(x) =~= seq![c] + esc(x1));
            assert(s[0] == c);
            assert(c != '"' && c != '\\');
            assert(s.drop_first() =~= s1);
            assert(scan_str(s.drop_first()) == Some((x1, r)));
            assert(scan_str(s) == Some((seq![c] + x1, r)));
        }
    }
}

/// Consuming a literal succeeds exactly on texts that start with it.
proof fn lemma_expect(l: Seq<char>, r: Seq<char>)
    ensures
        expect(l, l + r) == Some(r),
{
    let s = l + r;
    assert(s.subrange(0, l.len() as int) =~= l);
    assert(s.skip(l.len() as int) =~= r);
}

/// The line written for an entry parses back to exactly that entry.
proof fn lemma_parse_line_entry(e: EntryV)
    ensures
        parse_line(entry_line(e)) == LineParse::Entry(e),
{
    let t = entry_line(e);
    assert(quoted(e.key)[0] == '"');
    assert(t[0] == '"');
    assert(t.len() > 0);
    assert(!is_ws('"'));
    assert(skip_ws(t) == t);

    let rest1 = tok_name() + quoted(e.name) + tok_email() + quoted(e.email) + tok_end();
    assert(t.drop_first() =~= esc(e.key) + seq!['"'] + rest1);
    lemma_scan_esc(e.key, rest1);
    assert(scan_quoted(t) == Some((e.key, rest1)));

    let rest2 = quoted(e.name) + tok_email() + quoted(e.email) + tok_end();
    assert(rest1 =~= tok_name() + rest2);
    lemma_expect(tok_name(), rest2);
    assert(expect(tok_name(), rest1) == Some(rest2));

    let rest3 = tok_email() + quoted(e.email) + tok_end();
    assert(rest2[0] == '"');
    assert(rest2.drop_first() =~= esc(e.name) + seq!['"'] + rest3);
    lemma_scan_esc(e.name, rest3);
    assert(scan_quoted(rest2) == Some((e.name, rest3)));

    let rest4 = quoted(e.email) + tok_end();
    assert(rest3 =~= tok_email() + rest4);
    lemma_expect(tok_email(), rest4);
    assert(expect(tok_email(), rest3) == Some(rest4));

    let rest5 = tok_end();
    assert(rest4[0] == '"');
    assert(rest4.drop_first() =~= esc(e.email) + seq!['"'] + rest5);
    lemma_scan_esc(e.email, rest5);
    assert(scan_quoted(rest4) == Some((e.email, rest5)));

    assert(rest5 =~= tok_end() + Seq::<char>::empty());
    lemma_expect(tok_end(), Seq::<char>::empty());
    assert(expect(tok_end(), rest5) == Some(Seq::<char>::empty()));
    assert(skip_ws(Seq::<char>::empty()).len() == 0);

    assert(parse_entry(t) == Some(e));
}

/// Reading back the text written for a store yields exactly the
/// entries that were written, in their order, whenever the keys are
/// pairwise distinct.
#[verifier::rlimit(50)]
pub proof fn lemma_round_trip(es: Seq<EntryV>)
    requires
        unique_keys(es),
    ensures
        parse_doc(ser(es)) == Some(es),
    decreases es.len(),
{
    if es.len() == 0 {
        assert(ser(es).len() == 0);
        assert(Seq::<EntryV>::empty() =~= es);
    } else {
        let e = es[0];
        let rest = es.drop_first();
        let s = ser(es);
        assert(s == entry_line(e) + seq!['\n'] + ser(rest));
        lemma_entry_line_no_nl(e);
        lemma_split(entry_line(e), ser(rest));
        assert(s.len() > 0) by {
            assert(quoted(e.key).len() > 0);
            assert(entry_line(e).len() > 0);
        }
        assert(first_line(s) == entry_line(e));
        assert(rest_after(s) == ser(rest));
        lemma_parse_line_entry(e);
        lemma_round_trip(rest);
        assert(!has_key(rest, e.key));
        assert(seq![e] + rest =~= es);
    }
}

// ---------------------------------------------------------------------------
// Bridging lemmas used by the executable reader and writer.
// ---------------------------------------------------------------------------

/// Escaping a concatenation escapes the pieces.
pub proof fn lemma_esc_concat(a: Seq<char>, b: Seq<char>)
    ensures
        esc(a + b) == esc(a) + esc(b),
    decreases a.len(),
{
    if a.len() == 0 {
        assert(a + b =~= b);
        assert(esc(a) + esc(b) =~= esc(b));
    } else {
        assert((a + b)[0] == a[0]);
        assert((a + b).len() > 0);
        assert((a + b).drop_first() =~= a.drop_first() + b);
        lemma_esc_concat(a.drop_first(), b);
        assert(esc(a + b) == esc_char(a[0]) + (esc(a.drop_first()) + esc(b)));
        assert(esc_char(a[0]) + (esc(a.drop_first()) + esc(b)) =~= (esc_char(a[0]) + esc(
            a.drop_first(),
        )) + esc(b));
    }
}

/// A key stands in a sequence of entries exactly when some index
/// carries it.
pub proof fn lemma_has_key_exists(es: Seq<EntryV>, k: Seq<char>)
    ensures
        has_key(es, k) <==> exists|i: int| 0 <= i < es.len() && es[i].key == k,
    decreases es.len(),
{
    if es.len() == 0 {
    } else {
        let rest = es.drop_first();
        lemma_has_key_exists(rest, k);
        assert(forall|i: int| 0 <= i < rest.len() ==> rest[i] == es[i + 1]);
        if has_key(es, k) {
            if es[0].key == k {
                assert(0 <= 0 < es.len() && es[0].key == k);
            } else {
                let i = choose|i: int| 0 <= i < rest.len() && rest[i].key == k;
                assert(es[i + 1].key == k);
            }
        }
        if exists|i: int| 0 <= i < es.len() && es[i].key == k {
            let i = choose|i: int| 0 <= i < es.len() && es[i].key == k;
            if i > 0 {
                assert(rest[i - 1].key == k);
            }
        }
    }
}

/// Pairwise distinctness of keys, stated over indices.
pub proof fn lemma_unique_keys_index(es: Seq<EntryV>)
    ensures
        unique_keys(es) <==> (forall|i: int, j: int|
            0 <= i < j < es.len() ==> es[i].key != es[j].key),
    decreases es.len(),
{
    if es.len() == 0 {
    } else {
        let rest = es.drop_first();
        lemma_unique_keys_index(rest);
        lemma_has_key_exists(rest, es[0].key);
        assert(forall|i: int| 0 <= i < rest.len() ==> rest[i] == es[i + 1]);
        if unique_keys(es) {
            assert forall|i: int, j: int| 0 <= i < j < es.len() implies es[i].key != es[j].key by {
                if i == 0 {
                    assert(!(0 <= j - 1 < rest.len() && rest[j - 1].key == es[0].key));
                    assert(rest[j - 1] == es[j]);
                } else {
                    assert(rest[i - 1].key != rest[j - 1].key);
                }
            }
        }
        if forall|i: int, j: int| 0 <= i < j < es.len() ==> es[i].key != es[j].key {
            assert forall|i: int, j: int| 0 <= i < j < rest.len() implies rest[i].key
                != rest[j].key by {
                assert(es[i + 1].key != es[j + 1].key);
            }
            assert(!has_key(rest, es[0].key)) by {
                if has_key(rest, es[0].key) {
                    let i = choose|i: int| 0 <= i < rest.len() && rest[i].key == es[0].key;
                    assert(es[0].key != es[i + 1].key);
                }
            }
        }
    }
}

/// Whatever a document parses to has pairwise distinct keys.
pub proof fn lemma_parse_doc_unique(s: Seq<char>)
    ensures
        parse_doc(s) matches Some(es) ==> unique_keys(es),
    decreases s.len(),
{
    if s.len() == 0 {
    } else {
        lemma_rest_after_shorter(s);
        lemma_parse_doc_unique(rest_after(s));
        match parse_line(first_line(s)) {
            LineParse::Skip => {},
            LineParse::Bad => {},
            LineParse::Entry(e) => {
                match parse_doc(rest_after(s)) {
                    None => {},
                    Some(es) => {
                        if !has_key(es, e.key) {
                            let whole = seq![e] + es;
                            assert(whole.drop_first() =~= es);
                            assert(whole[0] == e);
                            assert(unique_keys(whole));
                        }
                    },
                }
            },
        }
    }
}

// ---------------------------------------------------------------------------
// The executable writer.
// ---------------------------------------------------------------------------

/// Relies on collecting an iterator of characters into a `String`: the
/// result holds exactly those characters, in order.
#[verifier::external_body]
pub(crate) fn string_from_chars(v: &Vec<char>) -> (s: String)
    ensures
        s@ == v@,
{
    v.iter().collect()
}

/// The characters of `s`, as a vector.
pub(crate) fn chars_of(s: &str) -> (v: Vec<char>)
    ensures
        v@ == s@,
{
    let n = s.unicode_len();
    let mut v: Vec<char> = Vec::new();
    let mut i: usize = 0;
    while i < n
        invariant
            i <= n,
            n == s@.len(),
            v@ == s@.take(i as int),
        decreases n - i,
    {
        let c = s.get_char(i);
        v.push(c);
        assert(s@.take(i + 1 as int) =~= s@.take(i as int).push(s@[i as int]));
        i += 1;
    }
    assert(s@.take(n as int) =~= s@);
    v
}

/// Appends the characters of `s` to `out`.
pub(crate) fn push_str_chars(out: &mut Vec<char>, s: &str)
    ensures
        final(out)@ == old(out)@ + s@,
{
    let n = s.unicode_len();
    let mut i: usize = 0;
    while i < n
        invariant
            i <= n,
            n == s@.len(),
            out@ == old(out)@ + s@.take(i as int),
        decreases n - i,
    {
        let c = s.get_char(i);
        out.push(c);
        assert(s@.take(i + 1 as int) =~= s@.take(i as int).push(s@[i as int]));
        assert(old(out)@ + s@.take(i + 1 as int) =~= (old(out)@ + s@.take(i as int)).push(
            s@[i as int],
        ));
        i += 1;
    }
    assert(s@.take(n as int) =~= s@);
}

/// Appends the escaped form of `s` to `out`.
pub(crate) fn push_escaped(out: &mut Vec<char>, s: &str)
    ensures
        final(out)@ == old(out)@ + esc(s@),
{
    let n = s.unicode_len();
    let mut i: usize = 0;
    assert(out@ =~= old(out)@ + esc(s@.take(0)));
    while i < n
        invariant
            i <= n,
            n == s@.len(),
            out@ == old(out)@ + esc(s@.take(i as int)),
        decreases n - i,
    {
        let c = s.get_char(i);
        proof {
            lemma_esc_concat(s@.take(i as int), seq![c]);
            assert(s@.take(i + 1 as int) =~= s@.take(i as int) + seq![c]);
            assert(seq![c].drop_first() =~= Seq::<char>::empty());
            assert(esc(Seq::<char>::empty()) == Seq::<char>::empty());
            assert(seq![c].len() == 1 && seq![c][0] == c);
            assert(esc(seq![c]) == esc_char(c) + esc(Seq::<char>::empty()));
            assert(esc(seq![c]) =~= esc_char(c));
        }
        let ghost before = out@;
        if c == '\\' {
            out.push('\\');
            out.push('\\');
        } else if c == '"' {
            out.push('\\');
            out.push('"');
        } else if c == '\n' {
            out.push('\\');
            out.push('n');
        } else if c == '\r' {
            out.push('\\');
            out.push('r');
        } else if c == '\t' {
            out.push('\\');
            out.push('t');
        } else {
            out.push(c);
        }
        assert(out@ =~= before + esc_char(c));
        assert(out@ =~= old(out)@ + esc(s@.take(i + 1 as int)));
        i += 1;
    }
    assert(s@.take(n as int) =~= s@);
}

/// Appends the quoted, escaped form of `s` to `out`.
pub(crate) fn push_quoted(out: &mut Vec<char>, s: &str)
    ensures
        final(out)@ == old(out)@ + quoted(s@),
{
    out.push('"');
    assert(out@ =~= old(out)@ + seq!['"']);
    push_escaped(out, s);
    out.push('"');
    assert(out@ =~= old(out)@ + quoted(s@));
}

// ---------------------------------------------------------------------------
// The executable reader.
// ---------------------------------------------------------------------------

/// The escape codes accepted after a backslash.
fn unesc_char(c: char) -> (r: Option<char>)
    ensures
        r == unesc_code(c),
{
    if c == '\\' {
        Some('\\')
    } else if c == '"' {
        Some('"')
    } else if c == 'n' {
        Some('\n')
    } else if c == 'r' {
        Some('\r')
    } else if c == 't' {
        Some('\t')
    } else {
        None
    }
}

/// Scans a quoted-string body starting at `pos` (just after the
/// opening quote), appending the unescaped content to `out`; returns
/// the position just after the closing quote.
fn scan_str_exec(v: &Vec<char>, pos: usize, out: &mut Vec<char>) -> (r: Option<usize>)
    requires
        pos <= v@.len(),
    ensures
        match r {
            Some(p) => p <= v@.len() && (scan_str(v@.skip(pos as int)) matches Some(pair)
                && final(out)@ == old(out)@ + pair.0 && v@.skip(p as int) == pair.1),
            None => scan_str(v@.skip(pos as int)) is None,
        },
    decreases v@.len() - pos,
{
    let ghost s = v@.skip(pos as int);
    if pos == v.len() {
        return None;
    }
    let c = v[pos];
    assert(c == s[0]);
    if c == '"' {
        assert(v@.skip(pos + 1 as int) =~= s.drop_first());
        assert(out@ =~= out@ + Seq::<char>::empty());
        return Some(pos + 1);
    }
    if c == '\\' {
        if pos + 1 == v.len() {
            assert(s.len() < 2);
            return None;
        }
        let code = v[pos + 1];
        assert(code == s[1]);
        match unesc_char(code) {
            None => None,
            Some(ch) => {
                out.push(ch);
                let ghost mid = out@;
                assert(v@.skip(pos + 2 as int) =~= s.skip(2));
                match scan_str_exec(v, pos + 2, out) {
                    None => None,
                    Some(p) => {
                        proof {
                            let pair2 = scan_str(s.skip(2)).unwrap();
                            assert(out@ =~= mid + pair2.0);
                            assert(out@ =~= old(out)@ + (seq![ch] + pair2.0));
                        }
                        Some(p)
                    },
                }
            },
        }
    } else {
        out.push(c);
        let ghost mid = out@;
        assert(v@.skip(pos + 1 as int) =~= s.drop_first());
        match scan_str_exec(v, pos + 1, out) {
            None => None,
            Some(p) => {
                proof {
                    let pair2 = scan_str(s.drop_first()).unwrap();
                    assert(out@ =~= mid + pair2.0);
                    assert(out@ =~= old(out)@ + (seq![c] + pair2.0));
                }
                Some(p)
            },
        }
    }
}

/// Consumes the literal `lit` at `pos`; returns the position after it.
fn expect_lit(v: &Vec<char>, pos: usize, lit: &str) -> (r: Option<usize>)
    requires
        pos <= v@.len(),
    ensures
        match r {
            Some(p) => p <= v@.len() && expect(lit@, v@.skip(pos as int)) == Some(
                v@.skip(p as int),
            ),
            None => expect(lit@, v@.skip(pos as int)) is None,
        },
{
    let ghost s = v@.skip(pos as int);
    let n = lit.unicode_len();
    if n > v.len() - pos {
        assert(lit@.len() > s.len());
        return None;
    }
    let mut i: usize = 0;
    while i < n
        invariant
            i <= n,
            n == lit@.len(),
            pos <= v@.len(),
            pos + n <= v@.len(),
            pos + n <= usize::MAX,
            s == v@.skip(pos as int),
            forall|j: int| 0 <= j < i ==> v@[pos + j] == lit@[j],
        decreases n - i,
    {
        let c = lit.get_char(i);
        if v[pos + i] != c {
            proof {
                assert(s.len() == v@.len() - pos);
                assert(s[i as int] == v@[pos + i]);
                assert(s.subrange(0, n as int)[i as int] == s[i as int]);
                assert(s.subrange(0, n as int) != lit@);
            }
            return None;
        }
        i += 1;
    }
    proof {
        assert(s.subrange(0, n as int) =~= lit@) by {
            assert(forall|j: int| 0 <= j < n ==> s.subrange(0, n as int)[j] == v@[pos + j]);
        }
        assert(s.skip(n as int) =~= v@.skip(pos + n as int));
    }
    Some(pos + n)
}

/// Skips blanks from `pos`; returns the first position that is not a
/// blank.
fn skip_ws_exec(v: &Vec<char>, pos: usize) -> (p: usize)
    requires
        pos <= v@.len(),
    ensures
        pos <= p <= v@.len(),
        skip_ws(v@.skip(pos as int)) == v@.skip(p as int),
    decreases v@.len() - pos,
{
    let ghost s = v@.skip(pos as int);
    if pos == v.len() {
        return pos;
    }
    let c = v[pos];
    assert(c == s[0]);
    if c == ' ' || c == '\t' || c == '\r' {
        assert(v@.skip(pos + 1 as int) =~= s.drop_first());
        skip_ws_exec(v, pos + 1)
    } else {
        assert(!is_ws(c));
        pos
    }
}

/// Cuts the first line out of `v` starting at `pos`; returns the line
/// (newline excluded) and the position after its newline.
fn next_line_exec(v: &Vec<char>, pos: usize) -> (r: (Vec<char>, usize))
    requires
        pos <= v@.len(),
    ensures
        r.1 <= v@.len(),
        r.0@ == first_line(v@.skip(pos as int)),
        v@.skip(r.1 as int) == rest_after(v@.skip(pos as int)),
        pos < v@.len() ==> r.1 > pos,
{
    let mut line: Vec<char> = Vec::new();
    let mut i: usize = pos;
    while i < v.len() && v[i] != '\n'
        invariant
            pos <= i <= v@.len(),
            first_line(v@.skip(pos as int)) == line@ + first_line(v@.skip(i as int)),
            rest_after(v@.skip(pos as int)) == rest_after(v@.skip(i as int)),
        decreases v@.len() - i,
    {
        let c = v[i];
        let ghost s = v@.skip(i as int);
        assert(c == s[0]);
        assert(v@.skip(i + 1 as int) =~= s.drop_first());
        assert(first_line(s) == seq![c] + first_line(s.drop_first()));
        line.push(c);
        assert(line@.push(c) + first_line(s.drop_first()) =~= line@ + (seq![c] + first_line(
            s.drop_first(),
        )));
        i += 1;
    }
    let ghost s = v@.skip(i as int);
    if i == v.len() {
        assert(s.len() == 0);
        assert(first_line(s) =~= Seq::<char>::empty());
        assert(line@ + first_line(s) =~= line@);
        assert(rest_after(s) == s);
        assert(s =~= v@.skip(i as int));
        (line, i)
    } else {
        assert(v[i as int] == '\n');
        assert(s[0] == '\n');
        assert(first_line(s) =~= Seq::<char>::empty());
        assert(line@ + first_line(s) =~= line@);
        assert(rest_after(s) == s.drop_first());
        assert(v@.skip(i + 1 as int) =~= s.drop_first());
        (line, i + 1)
    }
}

/// What one line of the document contributes, as executable values.
pub enum ParsedLine {
    /// A blank line or a comment.
    Skip,
    /// An entry: key, name, email.
    Entry(String, String, String),
    /// A malformed line.
    Bad,
}

/// Reads one line.
fn parse_line_exec(line: &Vec<char>) -> (r: ParsedLine)
    ensures
        match r {
            ParsedLine::Skip => parse_line(line@) is Skip,
            ParsedLine::Bad => parse_line(line@) is Bad,
            ParsedLine::Entry(k, n, m) => parse_line(line@) == LineParse::Entry(
                EntryV { key: k@, name: n@, email: m@ },
            ),
        },
{
    assert(line@.skip(0) =~= line@);
    let t0 = skip_ws_exec(line, 0);
    let ghost t = skip_ws(line@);
    assert(t == line@.skip(t0 as int));
    if t0 == line.len() {
        assert(t.len() == 0);
        return ParsedLine::Skip;
    }
    let c = line[t0];
    assert(c == t[0]);
    if c == '#' {
        return ParsedLine::Skip;
    }
    if c != '"' {
        assert(scan_quoted(t) is None);
        return ParsedLine::Bad;
    }
    let mut key: Vec<char> = Vec::new();
    assert(line@.skip(t0 + 1 as int) =~= t.drop_first());
    let p1 = match scan_str_exec(line, t0 + 1, &mut key) {
        None => {
            return ParsedLine::Bad;
        },
        Some(p) => p,
    };
    let p2 = match expect_lit(line, p1, " = { name = ") {
        None => {
            return ParsedLine::Bad;
        },
        Some(p) => p,
    };
    let ghost r2 = line@.skip(p2 as int);
    if p2 == line.len() {
        assert(scan_quoted(r2) is None);
        return ParsedLine::Bad;
    }
    let c2 = line[p2];
    assert(c2 == r2[0]);
    if c2 != '"' {
        assert(scan_quoted(r2) is None);
        return ParsedLine::Bad;
    }
    let mut name: Vec<char> = Vec::new();
    assert(line@.skip(p2 + 1 as int) =~= r2.drop_first());
    let p3 = match scan_str_exec(line, p2 + 1, &mut name) {
        None => {
            return ParsedLine::Bad;
        },
        Some(p) => p,
    };
    let p4 = match expect_lit(line, p3, ", email = ") {
        None => {
            return ParsedLine::Bad;
        },
        Some(p) => p,
    };
    let ghost r4 = line@.skip(p4 as int);
    if p4 == line.len() {
        assert(scan_quoted(r4) is None);
        return ParsedLine::Bad;
    }
    let c4 = line[p4];
    assert(c4 == r4[0]);
    if c4 != '"' {
        assert(scan_quoted(r4) is None);
        return ParsedLine::Bad;
    }
    let mut email: Vec<char> = Vec::new();
    assert(line@.skip(p4 + 1 as int) =~= r4.drop_first());
    let p5 = match scan_str_exec(line, p4 + 1, &mut email) {
        None => {
            return ParsedLine::Bad;
        },
        Some(p) => p,
    };
    let p6 = match expect_lit(line, p5, " }") {
        None => {
            return ParsedLine::Bad;
        },
        Some(p) => p,
    };
    let p7 = skip_ws_exec(line, p6);
    if p7 != line.len() {
        assert(skip_ws(line@.skip(p6 as int)).len() > 0);
        return ParsedLine::Bad;
    }
    assert(skip_ws(line@.skip(p6 as int)).len() == 0);
    ParsedLine::Entry(string_from_chars(&key), string_from_chars(&name), string_from_chars(&email))
}

/// The entries of a stored vector, as mathematical values.
pub open spec fn entries_view(s: Seq<(String, Author)>) -> Seq<EntryV> {
    s.map(|i: int, p: (String, Author)| EntryV { key: p.0@, name: p.1.name@, email: p.1.email@ })
}

/// Whether some stored entry carries the key `k`.
fn contains_key_exec(es: &Vec<(String, Author)>, k: &String) -> (r: bool)
    ensures
        r == has_key(entries_view(es@), k@),
{
    let ghost evs = entries_view(es@);
    let mut i: usize = 0;
    while i < es.len()
        invariant
            i <= es@.len(),
            evs == entries_view(es@),
            forall|j: int| 0 <= j < i ==> evs[j].key != k@,
        decreases es@.len() - i,
    {
        let pair = &es[i];
        if pair.0 == *k {
            proof {
                assert(es@[i as int].0@ == k@);
                assert(evs[i as int].key == k@);
                assert(exists|j: int| 0 <= j < evs.len() && evs[j].key == k@);
                lemma_has_key_exists(evs, k@);
            }
            return true;
        }
        proof {
            assert(es@[i as int].0@ != k@);
            assert(evs[i as int].key != k@);
        }
        i += 1;
    }
    proof {
        lemma_has_key_exists(evs, k@);
        assert(!(exists|j: int| 0 <= j < evs.len() && evs[j].key == k@));
    }
    false
}

/// Reads a whole document from `pos` on: its entries in order, or a
/// line naming what went wrong — the malformed line, or the
/// identifier that occurs twice.
pub fn parse_doc_exec(v: &Vec<char>, pos: usize) -> (r: Result<Vec<(String, Author)>, String>)
    requires
        pos <= v@.len(),
    ensures
        match r {
            Ok(es) => parse_doc(v@.skip(pos as int)) == Some(entries_view(es@)),
            Err(_) => parse_doc(v@.skip(pos as int)) is None,
        },
    decreases v@.len() - pos,
{
    let ghost s = v@.skip(pos as int);
    if pos == v.len() {
        assert(s.len() == 0);
        let es: Vec<(String, Author)> = Vec::new();
        assert(entries_view(es@) =~= Seq::<EntryV>::empty());
        return Ok(es);
    }
    let (line, next) = next_line_exec(v, pos);
    match parse_line_exec(&line) {
        ParsedLine::Skip => parse_doc_exec(v, next),
        ParsedLine::Bad => {
            let mut reason = String::from_str("malformed entry '");
            reason.append(string_from_chars(&line).as_str());
            reason.append("'");
            Err(reason)
        },
        ParsedLine::Entry(k, n, m) => {
            let ghost e = EntryV { key: k@, name: n@, email: m@ };
            match parse_doc_exec(v, next) {
                Err(reason) => Err(reason),
                Ok(mut es) => {
                    if contains_key_exec(&es, &k) {
                        let mut reason = String::from_str("duplicate identifier '");
                        reason.append(k.as_str());
                        reason.append("'");
                        Err(reason)
                    } else {
                        let ghost before = es@;
                        let a = Author { name: n, email: m };
                        let pair = (k, a);
                        proof {
                            assert(e == (EntryV {
                                key: pair.0@,
                                name: pair.1.name@,
                                email: pair.1.email@,
                            }));
                        }
                        es.insert(0, pair);
                        proof {
                            assert(es@ =~= seq![pair] + before);
                            assert(entries_view(es@) =~= seq![e] + entries_view(before));
                        }
                        Ok(es)
                    }
                },
            }
        },
    }
}

} // verus!
