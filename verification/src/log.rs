//! The structured log grammar. A line of text is parsed into a trace
//! record `[<trace_id> <duration>] <tag>: <content>`, a trivial record
//! `<tag>: <content>`, or kept raw when neither grammar matches.
//! Parsing is total: malformed input never fails, it degrades to `Raw`.
use vstd::prelude::*;
use vstd::string::*;

verus! {

pub type TraceId = u32;

/// A trivial log record, written `tag: content` on the wire.
pub struct TrivialLogItem {
    pub tag: String,
    pub content: String,
}

/// A trace log record, written `[trace_id duration] tag: content` on
/// the wire.
pub struct TraceLogItem {
    pub trace_id: TraceId,
    pub duration: String,
    pub content: TrivialLogItem,
}

/// The result of parsing one line: exactly one variant is active, and
/// `Raw` keeps the original text when no grammar matched.
pub enum StructuredLogItem {
    Trace(TraceLogItem),
    Trivial(TrivialLogItem),
    Raw(String),
}

/// The envelope decoded from one transport-level line: a record kind
/// and the structured payload.
pub struct LogItem {
    pub log_type: String,
    pub payload: StructuredLogItem,
}

/// Mathematical image of a trivial record.
pub struct TrivialV {
    pub tag: Seq<char>,
    pub content: Seq<char>,
}

/// Mathematical image of a trace record.
pub struct TraceV {
    pub trace_id: TraceId,
    pub duration: Seq<char>,
    pub content: TrivialV,
}

/// Mathematical image of a parsed line.
pub enum StructuredV {
    Trace(TraceV),
    Trivial(TrivialV),
    Raw(Seq<char>),
}

/// Mathematical image of a decoded envelope.
pub struct LogItemV {
    pub log_type: Seq<char>,
    pub payload: StructuredV,
}

impl View for TrivialLogItem {
    type V = TrivialV;

    open spec fn view(&self) -> TrivialV {
        TrivialV { tag: self.tag@, content: self.content@ }
    }
}

impl View for TraceLogItem {
    type V = TraceV;

    open spec fn view(&self) -> TraceV {
        TraceV { trace_id: self.trace_id, duration: self.duration@, content: self.content@ }
    }
}

impl View for StructuredLogItem {
    type V = StructuredV;

    open spec fn view(&self) -> StructuredV {
        match self {
            StructuredLogItem::Trace(t) => StructuredV::Trace(t@),
            StructuredLogItem::Trivial(t) => StructuredV::Trivial(t@),
            StructuredLogItem::Raw(s) => StructuredV::Raw(s@),
        }
    }
}

impl View for LogItem {
    type V = LogItemV;

    open spec fn view(&self) -> LogItemV {
        LogItemV { log_type: self.log_type@, payload: self.payload@ }
    }
}

// ---------------------------------------------------------------------------
// Substring search, specified pointwise.
// ---------------------------------------------------------------------------
/// `pat` occurs in `s` starting at index `i`.
pub open spec fn pat_at(s: Seq<char>, pat: Seq<char>, i: int) -> bool {
    &&& 0 <= i
    &&& i + pat.len() <= s.len()
    &&& forall|j: int| 0 <= j < pat.len() ==> s[i + j] == pat[j]
}

/// Index of the first occurrence of `pat` in `s` at or after `i`.
pub open spec fn find_from(s: Seq<char>, pat: Seq<char>, i: int) -> Option<int>
    decreases s.len() - i,
{
    if !(0 <= i && i + pat.len() <= s.len()) {
        None
    } else if pat_at(s, pat, i) {
        Some(i)
    } else if pat.len() == 0 {
        None
    } else {
        find_from(s, pat, i + 1)
    }
}

/// Index of the first occurrence of `pat` in `s`, if any.
pub open spec fn find_pat(s: Seq<char>, pat: Seq<char>) -> Option<int> {
    find_from(s, pat, 0)
}

/// The two pieces of `s` around the first occurrence of `pat`, the
/// separator itself dropped; `None` when `pat` does not occur. This is
/// the image of splitting a string once on a separator.
pub open spec fn split2(s: Seq<char>, pat: Seq<char>) -> Option<(Seq<char>, Seq<char>)> {
    match find_pat(s, pat) {
        Some(i) => Some((s.subrange(0, i), s.subrange(i + pat.len(), s.len() as int))),
        None => None,
    }
}

pub open spec fn trivial_sep() -> Seq<char> {
    seq![':', ' ']
}

pub open spec fn bracket_sep() -> Seq<char> {
    seq![']', ' ']
}

pub open spec fn space_sep() -> Seq<char> {
    seq![' ']
}

// ---------------------------------------------------------------------------
// Decimal numbers.
// ---------------------------------------------------------------------------
pub open spec fn is_digit(c: char) -> bool {
    '0' <= c && c <= '9'
}

pub open spec fn digit_val(c: char) -> nat {
    (c as int - '0' as int) as nat
}

/// Value of a sequence of decimal digits, most significant first.
pub open spec fn dec_val(s: Seq<char>) -> nat
    decreases s.len(),
{
    if s.len() == 0 {
        0
    } else {
        dec_val(s.drop_last()) * 10 + digit_val(s.last())
    }
}

pub open spec fn all_digits(s: Seq<char>) -> bool {
    forall|i: int| 0 <= i < s.len() ==> is_digit(s[i])
}

/// The digit part of an unsigned decimal literal: an optional leading
/// `+` sign is dropped, as the standard unsigned parser does.
pub open spec fn digits_part(s: Seq<char>) -> Seq<char> {
    if s.len() > 0 && s[0] == '+' {
        s.subrange(1, s.len() as int)
    } else {
        s
    }
}

/// What parsing `s` as an unsigned 32-bit decimal integer yields:
/// defined exactly when the digit part is a non-empty run of digits
/// whose value fits.
pub open spec fn u32_of_dec(s: Seq<char>) -> Option<u32> {
    if digits_part(s).len() > 0 && all_digits(digits_part(s)) && dec_val(digits_part(s))
        <= u32::MAX {
        Some(dec_val(digits_part(s)) as u32)
    } else {
        None
    }
}

// ---------------------------------------------------------------------------
// The grammar itself.
// ---------------------------------------------------------------------------
/// The trivial grammar: split once on `": "`; both pieces must exist.
pub open spec fn trivial_of(s: Seq<char>) -> Option<TrivialV> {
    match split2(s, trivial_sep()) {
        Some(p) => Some(TrivialV { tag: p.0, content: p.1 }),
        None => None,
    }
}

/// The trace grammar: a leading `[`, then `<id> <duration>` up to the
/// first `"] "`, then a trivial record.
pub open spec fn trace_of(s: Seq<char>) -> Option<TraceV> {
    if s.len() > 0 && s[0] == '[' {
        match split2(s.subrange(1, s.len() as int), bracket_sep()) {
            Some(bt) => match split2(bt.0, space_sep()) {
                Some(idur) => match u32_of_dec(idur.0) {
                    Some(id) => match trivial_of(bt.1) {
                        Some(tv) => Some(
                            TraceV { trace_id: id, duration: idur.1, content: tv },
                        ),
                        None => None,
                    },
                    None => None,
                },
                None => None,
            },
            None => None,
        }
    } else {
        None
    }
}

/// What parsing a whole line yields: the trace grammar is attempted on
/// lines that begin with `[`, the trivial grammar on all others, and
/// failure of either keeps the original text raw.
pub open spec fn parse_spec(s: Seq<char>) -> StructuredV {
    if s.len() > 0 && s[0] == '[' {
        match trace_of(s) {
            Some(t) => StructuredV::Trace(t),
            None => StructuredV::Raw(s),
        }
    } else {
        match trivial_of(s) {
            Some(t) => StructuredV::Trivial(t),
            None => StructuredV::Raw(s),
        }
    }
}

// ---------------------------------------------------------------------------
// Search lemmas.
// ---------------------------------------------------------------------------
proof fn lemma_find_from_none(s: Seq<char>, pat: Seq<char>, i: int)
    requires
        0 <= i,
        forall|j: int| i <= j ==> !pat_at(s, pat, j),
    ensures
        find_from(s, pat, i) is None,
    decreases s.len() - i,
{
    if 0 <= i && i + pat.len() <= s.len() && !pat_at(s, pat, i) && pat.len() > 0 {
        lemma_find_from_none(s, pat, i + 1);
    }
}

proof fn lemma_find_from_some(s: Seq<char>, pat: Seq<char>, i: int, k: int)
    requires
        0 <= i <= k,
        pat_at(s, pat, k),
        forall|j: int| i <= j < k ==> !pat_at(s, pat, j),
    ensures
        find_from(s, pat, i) == Some(k),
    decreases k - i,
{
    if i < k {
        lemma_find_from_some(s, pat, i + 1, k);
    }
}

/// What a `find_pat` answer means, in both directions.
pub proof fn lemma_find_pat_props(s: Seq<char>, pat: Seq<char>)
    ensures
        match find_pat(s, pat) {
            Some(i) => pat_at(s, pat, i) && forall|j: int| 0 <= j < i ==> !pat_at(s, pat, j),
            None => forall|j: int| !pat_at(s, pat, j),
        },
{
    lemma_find_pat_props_from(s, pat, 0);
}

proof fn lemma_find_pat_props_from(s: Seq<char>, pat: Seq<char>, i: int)
    requires
        0 <= i,
    ensures
        match find_from(s, pat, i) {
            Some(k) => pat_at(s, pat, k) && i <= k && forall|j: int| i <= j < k ==> !pat_at(
                s,
                pat,
                j,
            ),
            None => forall|j: int| i <= j ==> !pat_at(s, pat, j),
        },
    decreases s.len() - i,
{
    if !(0 <= i && i + pat.len() <= s.len()) {
        assert forall|j: int| i <= j implies !pat_at(s, pat, j) by {
            if pat_at(s, pat, j) {
                assert(j + pat.len() <= s.len());
            }
        }
    } else if pat_at(s, pat, i) {
    } else if pat.len() == 0 {
        assert(pat_at(s, pat, i));
    } else {
        lemma_find_pat_props_from(s, pat, i + 1);
    }
}

// ---------------------------------------------------------------------------
// Grammar laws.
// ---------------------------------------------------------------------------
/// Splitting on `": "` inverts concatenation: a tag free of the
/// separator, the separator, and any content split back into exactly
/// that tag and content.
pub proof fn lemma_trivial_split(tag: Seq<char>, content: Seq<char>)
    requires
        forall|j: int| !pat_at(tag, trivial_sep(), j),
    ensures
        trivial_of(tag + trivial_sep() + content) == Some(TrivialV { tag, content }),
{
    let s = tag + trivial_sep() + content;
    let p = trivial_sep();
    let n = tag.len() as int;
    assert(p.len() == 2 && p[0] == ':' && p[1] == ' ');
    assert(s[n] == ':');
    assert(s[n + 1] == ' ');
    assert forall|j: int| 0 <= j < p.len() implies s[n + j] == p[j] by {
        if j == 0 {
        } else {
            assert(j == 1);
        }
    }
    assert(pat_at(s, p, n));
    assert forall|j: int| 0 <= j < n implies !pat_at(s, p, j) by {
        if pat_at(s, p, j) {
            assert(s[j] == p[0] && s[j + 1] == p[1]);
            if j + 1 < n {
                assert(s[j] == tag[j] && s[j + 1] == tag[j + 1]);
                assert(pat_at(tag, p, j));
            } else {
                assert(j + 1 == n);
                assert(s[j + 1] == ':');
            }
        }
    }
    lemma_find_from_some(s, p, 0, n);
    assert(s.subrange(0, n) =~= tag);
    assert(s.subrange(n + 2, s.len() as int) =~= content);
}

/// Law: a line that does not begin with `[` and contains the `": "`
/// separator parses to a trivial record whose tag and content
/// reassemble the line around the first separator occurrence.
pub proof fn lemma_parse_trivial(s: Seq<char>)
    requires
        s.len() == 0 || s[0] != '[',
        exists|j: int| pat_at(s, trivial_sep(), j),
    ensures
        parse_spec(s) is Trivial,
        ({
            let t = parse_spec(s)->Trivial_0;
            &&& t.tag + trivial_sep() + t.content == s
            &&& pat_at(s, trivial_sep(), t.tag.len() as int)
            &&& forall|j: int| 0 <= j < t.tag.len() ==> !pat_at(s, trivial_sep(), j)
        }),
{
    let p = trivial_sep();
    lemma_find_pat_props(s, p);
    match find_pat(s, p) {
        None => {
            let j = choose|j: int| pat_at(s, p, j);
            assert(false);
        },
        Some(i) => {
            assert(p.len() == 2 && p[0] == ':' && p[1] == ' ');
            let t = parse_spec(s)->Trivial_0;
            assert(t.tag == s.subrange(0, i));
            assert(t.content == s.subrange(i + 2, s.len() as int));
            assert(s[i] == ':' && s[i + 1] == ' ');
            assert(t.tag + p + t.content =~= s);
        },
    }
}

/// Law: a line that does not begin with `[` and has no `": "`
/// separator parses to the raw fallback, the text unchanged.
pub proof fn lemma_parse_raw(s: Seq<char>)
    requires
        s.len() == 0 || s[0] != '[',
        forall|j: int| !pat_at(s, trivial_sep(), j),
    ensures
        parse_spec(s) == StructuredV::Raw(s),
{
    lemma_find_pat_props(s, trivial_sep());
    match find_pat(s, trivial_sep()) {
        None => {},
        Some(i) => {
            assert(pat_at(s, trivial_sep(), i));
        },
    }
}

/// The bracket part of the trace grammar inverts concatenation: with an
/// identifier free of `]` and spaces and a duration free of `]`, the
/// first `"] "` sits right after the duration, and the first space
/// right after the identifier.
proof fn lemma_bracket_parts(id_txt: Seq<char>, dur: Seq<char>, tail: Seq<char>)
    requires
        forall|j: int| 0 <= j < id_txt.len() ==> id_txt[j] != ']' && id_txt[j] != ' ',
        forall|j: int| 0 <= j < dur.len() ==> dur[j] != ']',
    ensures
        split2(id_txt + space_sep() + dur + bracket_sep() + tail, bracket_sep()) == Some(
            (id_txt + space_sep() + dur, tail),
        ),
        split2(id_txt + space_sep() + dur, space_sep()) == Some((id_txt, dur)),
{
    let sp = space_sep();
    let br = bracket_sep();
    assert(sp.len() == 1 && sp[0] == ' ');
    assert(br.len() == 2 && br[0] == ']' && br[1] == ' ');
    let bracket = id_txt + sp + dur;
    let rest = id_txt + sp + dur + br + tail;
    let m = id_txt.len() as int;
    let q = bracket.len() as int;
    assert(rest =~= bracket + br + tail);
    assert(rest[q] == ']' && rest[q + 1] == ' ');
    assert forall|j: int| 0 <= j < br.len() implies rest[q + j] == br[j] by {
        if j == 0 {
        } else {
            assert(j == 1);
        }
    }
    assert(pat_at(rest, br, q));
    assert forall|j: int| 0 <= j < q implies !pat_at(rest, br, j) by {
        if pat_at(rest, br, j) {
            assert(rest[j] == ']');
            assert(rest[j] == bracket[j]);
            if j < m {
                assert(bracket[j] == id_txt[j]);
            } else if j == m {
                assert(bracket[j] == ' ');
            } else {
                assert(bracket[j] == dur[j - m - 1]);
            }
        }
    }
    lemma_find_from_some(rest, br, 0, q);
    assert(rest.subrange(0, q) =~= bracket);
    assert(rest.subrange(q + 2, rest.len() as int) =~= tail);
    assert(bracket[m] == ' ');
    assert forall|j: int| 0 <= j < sp.len() implies bracket[m + j] == sp[j] by {
        assert(j == 0);
    }
    assert(pat_at(bracket, sp, m));
    assert forall|j: int| 0 <= j < m implies !pat_at(bracket, sp, j) by {
        if pat_at(bracket, sp, j) {
            assert(bracket[j] == ' ');
            assert(bracket[j] == id_txt[j]);
        }
    }
    lemma_find_from_some(bracket, sp, 0, m);
    assert(bracket.subrange(0, m) =~= id_txt);
    assert(bracket.subrange(m + 1, q) =~= dur);
}

/// Every character of a text that parses as an unsigned decimal is a
/// digit or the leading sign, so none of them is `]` or a space.
proof fn lemma_dec_text_chars(id_txt: Seq<char>)
    requires
        u32_of_dec(id_txt) is Some,
    ensures
        forall|j: int| 0 <= j < id_txt.len() ==> id_txt[j] != ']' && id_txt[j] != ' ',
{
    let d = digits_part(id_txt);
    assert forall|j: int| 0 <= j < id_txt.len() implies id_txt[j] != ']' && id_txt[j] != ' ' by {
        if id_txt.len() > 0 && id_txt[0] == '+' {
            if j > 0 {
                assert(id_txt[j] == d[j - 1]);
                assert(is_digit(d[j - 1]));
            }
        } else {
            assert(id_txt[j] == d[j]);
            assert(is_digit(d[j]));
        }
    }
}

/// Law: a well-formed trace line `[<id> <dur>] <tag>: <content>` — the
/// identifier a valid unsigned decimal, the duration free of `]`, the
/// tag free of the `": "` separator — parses to exactly that trace
/// record.
pub proof fn lemma_parse_trace(id_txt: Seq<char>, dur: Seq<char>, tag: Seq<char>, content: Seq<
    char,
>)
    requires
        u32_of_dec(id_txt) is Some,
        forall|j: int| 0 <= j < dur.len() ==> dur[j] != ']',
        forall|j: int| !pat_at(tag, trivial_sep(), j),
    ensures
        ({
            let s = seq!['['] + id_txt + space_sep() + dur + bracket_sep() + tag + trivial_sep()
                + content;
            parse_spec(s) matches StructuredV::Trace(t) && u32_of_dec(id_txt) == Some(t.trace_id)
                && t.duration == dur && t.content == TrivialV { tag, content }
        }),
{
    let s = seq!['['] + id_txt + space_sep() + dur + bracket_sep() + tag + trivial_sep() + content;
    let tail = tag + trivial_sep() + content;
    let rest = id_txt + space_sep() + dur + bracket_sep() + tail;
    assert(s[0] == '[');
    assert(s.subrange(1, s.len() as int) =~= rest);
    lemma_dec_text_chars(id_txt);
    lemma_bracket_parts(id_txt, dur, tail);
    lemma_trivial_split(tag, content);
}

/// Law: a trace-shaped line whose identifier is not a valid unsigned
/// decimal parses to the raw fallback, the text unchanged.
pub proof fn lemma_parse_trace_bad_id(id_txt: Seq<char>, dur: Seq<char>, tail: Seq<char>)
    requires
        u32_of_dec(id_txt) is None,
        forall|j: int| 0 <= j < id_txt.len() ==> id_txt[j] != ']' && id_txt[j] != ' ',
        forall|j: int| 0 <= j < dur.len() ==> dur[j] != ']',
    ensures
        ({
            let s = seq!['['] + id_txt + space_sep() + dur + bracket_sep() + tail;
            parse_spec(s) == StructuredV::Raw(s)
        }),
{
    let s = seq!['['] + id_txt + space_sep() + dur + bracket_sep() + tail;
    let rest = id_txt + space_sep() + dur + bracket_sep() + tail;
    assert(s[0] == '[');
    assert(s.subrange(1, s.len() as int) =~= rest);
    lemma_bracket_parts(id_txt, dur, tail);
}

// ---------------------------------------------------------------------------
// Executable search.
// ---------------------------------------------------------------------------
/// First occurrence of the two-character pattern `c0 c1` in `s`.
fn find_pat2(s: &str, c0: char, c1: char) -> (r: Option<usize>)
    ensures
        match r {
            Some(i) => find_pat(s@, seq![c0, c1]) == Some(i as int),
            None => find_pat(s@, seq![c0, c1]) is None,
        },
{
    let ghost pat: Seq<char> = seq![c0, c1];
    proof {
        assert(pat.len() == 2 && pat[0] == c0 && pat[1] == c1);
    }
    let n = s.unicode_len();
    if n < 2 {
        proof {
            assert forall|j: int| !pat_at(s@, pat, j) by {
                if pat_at(s@, pat, j) {
                    assert(j + 2 <= s@.len());
                }
            }
            lemma_find_from_none(s@, pat, 0);
        }
        return None;
    }
    let mut i: usize = 0;
    while i < n - 1
        invariant
            i <= n,
            2 <= n == s@.len(),
            pat.len() == 2 && pat[0] == c0 && pat[1] == c1,
            forall|j: int| 0 <= j < i ==> !pat_at(s@, pat, j),
        decreases n - i,
    {
        if s.get_char(i) == c0 && s.get_char(i + 1) == c1 {
            proof {
                assert forall|j: int| 0 <= j < pat.len() implies s@[i + j] == pat[j] by {
                    if j == 0 {
                        assert(s@[i as int] == c0);
                    } else {
                        assert(j == 1);
                        assert(s@[i + 1] == c1);
                    }
                }
                assert(pat_at(s@, pat, i as int));
                lemma_find_from_some(s@, pat, 0, i as int);
                assert(pat =~= seq![c0, c1]);
            }
            return Some(i);
        }
        proof {
            assert(!pat_at(s@, pat, i as int));
        }
        i = i + 1;
    }
    proof {
        assert forall|j: int| !pat_at(s@, pat, j) by {
            if pat_at(s@, pat, j) {
                assert(j + 2 <= s@.len());
                assert(j < i);
            }
        }
        lemma_find_from_none(s@, pat, 0);
    }
    None
}

/// First occurrence of the single character `c0` in `s`.
fn find_pat1(s: &str, c0: char) -> (r: Option<usize>)
    ensures
        match r {
            Some(i) => find_pat(s@, seq![c0]) == Some(i as int),
            None => find_pat(s@, seq![c0]) is None,
        },
{
    let ghost pat: Seq<char> = seq![c0];
    proof {
        assert(pat.len() == 1 && pat[0] == c0);
    }
    let n = s.unicode_len();
    let mut i: usize = 0;
    while i < n
        invariant
            i <= n,
            n == s@.len(),
            pat.len() == 1 && pat[0] == c0,
            forall|j: int| 0 <= j < i ==> !pat_at(s@, pat, j),
        decreases n - i,
    {
        if s.get_char(i) == c0 {
            proof {
                assert forall|j: int| 0 <= j < pat.len() implies s@[i + j] == pat[j] by {
                    assert(j == 0);
                    assert(s@[i as int] == c0);
                }
                assert(pat_at(s@, pat, i as int));
                lemma_find_from_some(s@, pat, 0, i as int);
                assert(pat =~= seq![c0]);
            }
            return Some(i);
        }
        proof {
            assert(!pat_at(s@, pat, i as int));
        }
        i = i + 1;
    }
    proof {
        assert forall|j: int| !pat_at(s@, pat, j) by {
            if pat_at(s@, pat, j) {
                assert(j + 1 <= s@.len());
                assert(j < i);
            }
        }
        lemma_find_from_none(s@, pat, 0);
    }
    None
}

// ---------------------------------------------------------------------------
// Executable decimal parsing.
// ---------------------------------------------------------------------------
/// `dec_val` never shrinks when digits are appended.
proof fn lemma_dec_val_prefix(s: Seq<char>, k: int)
    requires
        0 <= k <= s.len(),
    ensures
        dec_val(s.subrange(0, k)) <= dec_val(s),
    decreases s.len() - k,
{
    if k == s.len() {
        assert(s.subrange(0, k) =~= s);
    } else {
        let a = s.subrange(0, k);
        let b = s.subrange(0, k + 1);
        assert(b.drop_last() =~= a);
        assert(dec_val(b) == dec_val(a) * 10 + digit_val(b.last()));
        lemma_dec_val_prefix(s, k + 1);
    }
}

/// Parse `s` as an unsigned 32-bit decimal integer, exactly as
/// `u32_of_dec` describes: an optional `+` sign, then one or more
/// digits, value within range.
pub fn parse_u32_str(s: &str) -> (r: Option<u32>)
    ensures
        r == u32_of_dec(s@),
{
    let n = s.unicode_len();
    let start: usize = if n > 0 && s.get_char(0) == '+' {
        1
    } else {
        0
    };
    let ghost d: Seq<char> = digits_part(s@);
    proof {
        assert(d =~= s@.subrange(start as int, n as int));
    }
    if n == start {
        return None;
    }
    let mut acc: u64 = 0;
    let mut i: usize = start;
    while i < n
        invariant
            start <= i <= n,
            n == s@.len(),
            d == s@.subrange(start as int, n as int),
            d == digits_part(s@),
            acc <= u32::MAX,
            acc == dec_val(s@.subrange(start as int, i as int)),
            all_digits(s@.subrange(start as int, i as int)),
        decreases n - i,
    {
        let c = s.get_char(i);
        if !(c >= '0' && c <= '9') {
            proof {
                assert(d[i - start] == s@[i as int]);
                assert(!all_digits(d));
            }
            return None;
        }
        let dv: u64 = (c as u32 - '0' as u32) as u64;
        let ghost prev = s@.subrange(start as int, i as int);
        let ghost cur = s@.subrange(start as int, i + 1);
        proof {
            assert(cur.drop_last() =~= prev);
            assert(cur.last() == s@[i as int]);
            assert(dv == digit_val(s@[i as int]));
        }
        acc = acc * 10 + dv;
        assert(acc == dec_val(cur));
        if acc > 0xffff_ffffu64 {
            proof {
                if all_digits(d) {
                    assert(cur =~= d.subrange(0, i + 1 - start));
                    lemma_dec_val_prefix(d, i + 1 - start);
                }
            }
            return None;
        }
        proof {
            assert forall|j: int| 0 <= j < cur.len() implies is_digit(cur[j]) by {
                if j < prev.len() {
                    assert(cur[j] == prev[j]);
                }
            }
        }
        i = i + 1;
    }
    proof {
        assert(s@.subrange(start as int, i as int) =~= d);
    }
    Some(acc as u32)
}

// ---------------------------------------------------------------------------
// Executable grammar.
// ---------------------------------------------------------------------------
impl TrivialLogItem {
    /// Parse a `tag: content` record; `None` exactly when the line has
    /// no `": "` separator.
    pub fn try_from(s: &str) -> (r: Option<TrivialLogItem>)
        ensures
            match r {
                Some(t) => trivial_of(s@) == Some(t@),
                None => trivial_of(s@) is None,
            },
    {
        match find_pat2(s, ':', ' ') {
            Some(i) => {
                proof {
                    assert(seq![':', ' '] =~= trivial_sep());
                    lemma_find_pat_props(s@, trivial_sep());
                }
                let n = s.unicode_len();
                let tag = s.substring_char(0, i).to_owned();
                let content = s.substring_char(i + 2, n).to_owned();
                Some(TrivialLogItem { tag, content })
            },
            None => {
                proof {
                    assert(seq![':', ' '] =~= trivial_sep());
                }
                None
            },
        }
    }

    pub fn clone(&self) -> (r: TrivialLogItem)
        ensures
            r@ == self@,
    {
        TrivialLogItem { tag: self.tag.clone(), content: self.content.clone() }
    }
}

impl TraceLogItem {
    /// Parse a `[trace_id duration] tag: content` record; `None`
    /// exactly when the trace grammar does not match.
    pub fn try_from(s: &str) -> (r: Option<TraceLogItem>)
        ensures
            match r {
                Some(t) => trace_of(s@) == Some(t@),
                None => trace_of(s@) is None,
            },
    {
        let n = s.unicode_len();
        if n == 0 || s.get_char(0) != '[' {
            return None;
        }
        let rest = s.substring_char(1, n);
        match find_pat2(rest, ']', ' ') {
            None => {
                proof {
                    assert(seq![']', ' '] =~= bracket_sep());
                }
                None
            },
            Some(i) => {
                proof {
                    assert(seq![']', ' '] =~= bracket_sep());
                    lemma_find_pat_props(rest@, bracket_sep());
                }
                let rn = rest.unicode_len();
                let bracket = rest.substring_char(0, i);
                let tail = rest.substring_char(i + 2, rn);
                match find_pat1(bracket, ' ') {
                    None => {
                        proof {
                            assert(seq![' '] =~= space_sep());
                        }
                        None
                    },
                    Some(k) => {
                        proof {
                            assert(seq![' '] =~= space_sep());
                            lemma_find_pat_props(bracket@, space_sep());
                        }
                        let bn = bracket.unicode_len();
                        let id_txt = bracket.substring_char(0, k);
                        let duration = bracket.substring_char(k + 1, bn).to_owned();
                        match parse_u32_str(id_txt) {
                            None => None,
                            Some(id) => match TrivialLogItem::try_from(tail) {
                                None => None,
                                Some(content) => Some(
                                    TraceLogItem { trace_id: id, duration, content },
                                ),
                            },
                        }
                    },
                }
            },
        }
    }
}

impl LogItem {
    /// Build the envelope from its decoded fields, parsing the payload
    /// text by the structured grammar.
    pub fn from_parts(log_type: String, payload: String) -> (r: LogItem)
        ensures
            r@.log_type == log_type@,
            r@.payload == parse_spec(payload@),
    {
        LogItem { log_type, payload: StructuredLogItem::from(payload) }
    }
}

impl StructuredLogItem {
    /// Parse one line. Total: a line matching neither grammar comes
    /// back unchanged as `Raw`.
    pub fn from(s: String) -> (r: StructuredLogItem)
        ensures
            r@ == parse_spec(s@),
    {
        let n = s.as_str().unicode_len();
        if n > 0 && s.as_str().get_char(0) == '[' {
            match TraceLogItem::try_from(s.as_str()) {
                Some(t) => StructuredLogItem::Trace(t),
                None => StructuredLogItem::Raw(s),
            }
        } else {
            match TrivialLogItem::try_from(s.as_str()) {
                Some(t) => StructuredLogItem::Trivial(t),
                None => StructuredLogItem::Raw(s),
            }
        }
    }
}

} // verus!
