//! The leaf capability: matching a compiled regular expression against the
//! remaining input.
//!
//! The pattern is searched for its leftmost match anywhere in the remaining
//! input — not only at the cursor — and the cursor then advances to the end
//! of the whole match, silently skipping any unmatched leading characters.
//! Grammars that must not skip should anchor their patterns at the start.
//! All positions in this module count characters, as the cursor does. Every
//! match yields one record per capture group; a group that took part in no
//! alternative of the match contributes an empty slice at the whole match's
//! start.

use vstd::prelude::*;
use regex::Regex;
use crate::buffer::Buffer;
use crate::parser::Parser;

verus! {

/// `regex::Regex` as an opaque type: a compiled pattern, spoken of in
/// contracts only through [`regex_src`].
#[verifier::external_type_specification]
#[verifier::external_body]
pub struct ExRegex(Regex);

/// The abstract content of a compiled regular expression. For one built by
/// `Regex::new` — the only way this crate builds them — it is the pattern
/// text; a regex built elsewhere with non-default options has some other,
/// unknown content.
pub uninterp spec fn regex_src(re: Regex) -> Seq<char>;

/// Whether a pattern text is a valid regular expression, as `Regex::new`
/// decides it.
pub uninterp spec fn regex_valid(pattern: Seq<char>) -> bool;

/// What `Regex::captures` returns for a pattern over a text: nothing when the
/// pattern does not match, otherwise one entry per capture group — the whole
/// match first — each either absent (the group took part in no alternative of
/// the match) or the character span `(start, end)` of what it captured.
pub uninterp spec fn regex_captures(pattern: Seq<char>, text: Seq<char>) -> Option<
    Seq<Option<(int, int)>>,
>;

/// The pattern text was not a valid regular expression.
#[derive(Debug)]
pub struct PatternError;

/// The terminal's pattern did not match at all within the searched text.
#[derive(Debug)]
pub struct RegexParserError;

/// A raw capture entry as handed over by the regex engine: the text before
/// the captured span, and the captured span itself.
pub type RawCapture<'t> = Option<(&'t str, &'t str)>;

/// One raw capture entry agrees with one span of [`regex_captures`].
pub open spec fn capture_matches(text: Seq<char>, span: Option<(int, int)>, raw: RawCapture)
    -> bool {
    match span {
        Some(se) => match raw {
            Some(ps) => 0 <= se.0 <= se.1 <= text.len() && ps.0@ == text.subrange(0, se.0)
                && ps.1@ == text.subrange(se.0, se.1),
            None => false,
        },
        None => raw is None,
    }
}


/// Relies on `Regex::new`: compilation succeeds exactly for valid pattern
/// texts, and the compiled value's behaviour is determined by the pattern
/// text alone, since `Regex::new` uses the default configuration.
#[verifier::external_body]
fn compile_regex(pattern: &str) -> (r: Result<Regex, PatternError>)
    ensures
        r is Ok <==> regex_valid(pattern@),
        r matches Ok(re) ==> regex_src(re) == pattern@,
{
    match Regex::new(pattern) {
        Ok(re) => Ok(re),
        Err(_) => Err(PatternError),
    }
}

/// Relies on `Regex::clone`: the clone is the same compiled pattern.
#[verifier::external_body]
fn clone_regex(re: &Regex) -> (r: Regex)
    ensures
        regex_src(r) == regex_src(*re),
{
    re.clone()
}

/// Relies on `Regex::captures`, `Captures::iter` and `Match`: the leftmost
/// match is found, its capture list starts with the whole match, which is
/// always present, and every match's offsets sit on character boundaries, so
/// each captured span is the slice of the text that its character span
/// denotes.
#[verifier::external_body]
fn captures_raw<'t>(re: &Regex, text: &'t str) -> (r: Option<Vec<RawCapture<'t>>>)
    ensures
        r is Some <==> regex_captures(regex_src(*re), text@) is Some,
        r matches Some(v) ==> (regex_captures(regex_src(*re), text@) matches Some(spans)
            && v@.len() == spans.len() && spans.len() >= 1 && spans[0] is Some && forall|i: int|
            0 <= i < spans.len() ==> capture_matches(text@, spans[i], v@[i])),
{
    let caps = re.captures(text)?;
    Some(
        caps.iter().map(
            |m: Option<regex::Match<'t>>| m.map(|m| (&text[..m.start()], m.as_str())),
        ).collect(),
    )
}

/// Builds a regex terminal straight from a pattern text, written
/// `pattern.into_parser()`; fails when the text is not a valid regular
/// expression.
pub trait IntoRegexParser {
    fn into_parser(&self) -> Result<RegexParser, PatternError>;
}

impl IntoRegexParser for str {
    fn into_parser(&self) -> (res: Result<RegexParser, PatternError>)
        ensures
            res is Ok <==> regex_valid(self@),
            res matches Ok(p) ==> p.pattern() == self@,
    {
        RegexParser::new(self)
    }
}

impl<'a> Buffer<'a> {
    /// Searches the remaining input for the pattern's leftmost match, handing
    /// the raw capture entries back without moving the cursor.
    pub fn try_match_regex(&self, regex: &Regex) -> (r: Option<Vec<RawCapture<'a>>>)
        requires
            self.inv(),
        ensures
            r is Some <==> regex_captures(regex_src(*regex), self.remaining_view()) is Some,
            r matches Some(v) ==> (regex_captures(regex_src(*regex), self.remaining_view())
                matches Some(spans) && v@.len() == spans.len() && spans.len() >= 1
                && spans[0] is Some && forall|i: int|
                0 <= i < spans.len() ==> capture_matches(self.remaining_view(), spans[i], v@[i])),
    {
        captures_raw(regex, self.remaining())
    }
}

/// A regex-backed leaf capability. A successful parse yields one
/// [`RegexParserMatch`] per capture group, the whole match first.
pub struct RegexParser {
    regex: Regex,
}

/// One captured span: absolute character offsets into the source, and the
/// captured text borrowed from it.
#[derive(Debug, Copy, Clone)]
pub struct RegexParserMatch<'a> {
    pub start: usize,
    pub end: usize,
    pub matched: &'a str,
}

/// One produced match record agrees with one capture span: a present group's
/// record carries its absolute character span and the matched slice; a group
/// that took part in no alternative of the match carries the empty slice at
/// the whole match's start.
pub open spec fn match_agrees(
    src: Seq<char>,
    entry: int,
    whole_start: int,
    span: Option<(int, int)>,
    m: RegexParserMatch,
) -> bool {
    match span {
        Some(se) => {
            &&& 0 <= se.0 <= se.1
            &&& entry + se.1 <= src.len()
            &&& m.start == entry + se.0
            &&& m.end == entry + se.1
            &&& m.matched@ == src.subrange(entry + se.0, entry + se.1)
        },
        None => {
            &&& m.start == entry + whole_start
            &&& m.end == entry + whole_start
            &&& m.matched@ == Seq::<char>::empty()
        },
    }
}

impl RegexParser {
    /// The pattern text this terminal was compiled from.
    pub closed spec fn pattern(&self) -> Seq<char> {
        regex_src(self.regex)
    }

    /// Compiles a pattern text into a terminal capability; fails at
    /// construction time when the text is not a valid regular expression.
    pub fn new(r: &str) -> (res: Result<Self, PatternError>)
        ensures
            res is Ok <==> regex_valid(r@),
            res matches Ok(p) ==> p.pattern() == r@,
    {
        match compile_regex(r) {
            Ok(regex) => Ok(RegexParser { regex }),
            Err(e) => Err(e),
        }
    }
}

impl Clone for RegexParser {
    fn clone(&self) -> (r: Self)
        ensures
            r.pattern() == self.pattern(),
    {
        RegexParser { regex: clone_regex(&self.regex) }
    }
}

impl<'a> Parser<'a, Vec<RegexParserMatch<'a>>, RegexParserError> for RegexParser {
    open spec fn backtracks(&self) -> bool {
        true
    }

    open spec fn parsed(
        &self,
        src: Seq<char>,
        entry: int,
        exit: int,
        r: Result<Vec<RegexParserMatch<'a>>, RegexParserError>,
    ) -> bool {
        let spans = regex_captures(self.pattern(), src.subrange(entry, src.len() as int));
        &&& (r is Ok <==> spans is Some)
        &&& (r is Err ==> exit == entry)
        &&& (r matches Ok(v) ==> (spans matches Some(sp) && sp.len() >= 1 && sp[0] is Some
            && v@.len() == sp.len() && exit == entry + sp[0]->Some_0.1 && forall|i: int|
            0 <= i < sp.len() ==> match_agrees(src, entry, sp[0]->Some_0.0, sp[i], #[trigger] v@[
            i])))
    }

    fn parse(&self, buf: &mut Buffer<'a>) -> (r: Result<
        Vec<RegexParserMatch<'a>>,
        RegexParserError,
    >) {
        let entry = buf.index();
        let limit = buf.len();
        let text = buf.remaining();
        let total = text.unicode_len();
        let raw = match captures_raw(&self.regex, text) {
            Some(v) => v,
            None => {
                return Err(RegexParserError);
            },
        };
        let ghost spans = regex_captures(self.pattern(), old(buf).remaining_view())->Some_0;
        proof {
            assert(capture_matches(old(buf).remaining_view(), spans[0], raw@[0]));
        }
        let whole_start = match &raw[0] {
            Some(pair) => pair.0.unicode_len(),
            None => {
                proof {
                    assert(false);
                }
                return Err(RegexParserError);
            },
        };
        let mut out: Vec<RegexParserMatch<'a>> = Vec::new();
        let mut i: usize = 0;
        while i < raw.len()
            invariant
                buf.inv(),
                *buf == *old(buf),
                entry == old(buf).pos(),
                regex_captures(self.pattern(), old(buf).remaining_view()) == Some(spans),
                raw@.len() == spans.len(),
                spans.len() >= 1,
                spans[0] is Some,
                whole_start == spans[0]->Some_0.0,
                forall|j: int|
                    0 <= j < spans.len() ==> capture_matches(
                        old(buf).remaining_view(),
                        spans[j],
                        raw@[j],
                    ),
                i <= raw@.len(),
                out@.len() == i,
                forall|j: int|
                    0 <= j < i ==> match_agrees(
                        old(buf).src(),
                        old(buf).pos(),
                        spans[0]->Some_0.0,
                        spans[j],
                        #[trigger] out@[j],
                    ),
                total == old(buf).remaining_view().len(),
                limit == old(buf).src().len(),
                entry + total == limit,
            decreases raw@.len() - i,
        {
            let entry_raw = &raw[i];
            proof {
                assert(capture_matches(old(buf).remaining_view(), spans[i as int], raw@[i as int]));
            }
            match entry_raw {
                Some(pair) => {
                    let start_rel = pair.0.unicode_len();
                    let match_len = pair.1.unicode_len();
                    proof {
                        let se = spans[i as int]->Some_0;
                        assert(old(buf).remaining_view() == old(buf).src().subrange(
                            old(buf).pos(),
                            old(buf).src().len() as int,
                        ));
                        assert(old(buf).src().subrange(
                            old(buf).pos(),
                            old(buf).src().len() as int,
                        ).subrange(se.0, se.1) == old(buf).src().subrange(
                            old(buf).pos() + se.0,
                            old(buf).pos() + se.1,
                        ));
                        assert(pair.0@.len() == se.0);
                        assert(pair.1@.len() == se.1 - se.0);
                        assert(entry + start_rel + match_len <= limit);
                    }
                    let start = entry + start_rel;
                    let end = start + match_len;
                    out.push(RegexParserMatch { start, end, matched: pair.1 });
                    proof {
                        assert(match_agrees(
                            old(buf).src(),
                            old(buf).pos(),
                            spans[0]->Some_0.0,
                            spans[i as int],
                            out@[i as int],
                        ));
                    }
                },
                None => {
                    proof {
                        reveal_strlit("");
                        let se0 = spans[0]->Some_0;
                        assert(capture_matches(old(buf).remaining_view(), spans[0], raw@[0]));
                        assert(se0.0 <= se0.1 <= total);
                        assert(entry + whole_start <= limit);
                    }
                    let at = entry + whole_start;
                    out.push(RegexParserMatch { start: at, end: at, matched: "" });
                    proof {
                        reveal_strlit("");
                        assert(out@[i as int].matched@ =~= Seq::<char>::empty());
                        assert(match_agrees(
                            old(buf).src(),
                            old(buf).pos(),
                            spans[0]->Some_0.0,
                            spans[i as int],
                            out@[i as int],
                        ));
                    }
                },
            }
            i = i + 1;
        }
        let whole_end = out[0].end;
        proof {
            assert(match_agrees(
                old(buf).src(),
                old(buf).pos(),
                spans[0]->Some_0.0,
                spans[0],
                out@[0],
            ));
            assert(whole_end == old(buf).pos() + spans[0]->Some_0.1);
        }
        buf.set_index(whole_end);
        Ok(out)
    }
}

} // verus!
