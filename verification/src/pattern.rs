//! Finding URL-shaped substrings in text.
//!
//! Matching is done by the `regex` crate. What it finds for a given text is
//! not restated here: it is named ([`regex_matches`]) and the contracts
//! speak of that name. What is proved is everything around the search: that
//! every match becomes exactly one substring, cut at the reported offsets,
//! in the order reported.

use regex::Regex;
use vstd::prelude::*;
use vstd::string::StringSliceAdditionalSpecFns;
use vstd::utf8::*;

verus! {

broadcast use vstd::utf8::group_utf8_lib;

/// The pattern that URLs are recognised by: `http://` or `https://`, a host
/// part, and a path part that stops at whitespace and closing brackets.
pub const URL_PATTERN: &'static str = r"https?:\/\/[\w\d.:]+\/?[\w\d./?=#%:!\-,]+";

/// `regex::Regex`, a compiled expression. Its inside is not looked into.
#[verifier::external_type_specification]
#[verifier::external_body]
pub struct ExRegex(Regex);

/// `regex::Error`, why an expression did not compile. It is not looked into.
#[verifier::external_type_specification]
#[verifier::external_body]
pub struct ExRegexError(regex::Error);

/// The pattern text that a compiled `Regex` was built from
/// (what `Regex::as_str` returns).
pub uninterp spec fn regex_source(re: Regex) -> Seq<char>;

/// The matches that `Regex::find_iter` yields for a haystack, each as the
/// pair of byte offsets (start, end) into the haystack's UTF-8 encoding.
pub uninterp spec fn regex_matches(re: Regex, haystack: Seq<char>) -> Seq<(usize, usize)>;

/// Whether `span` delimits a substring of the text whose UTF-8 encoding is
/// `bytes`: it lies within the text and both ends fall between characters.
pub open spec fn span_fits(bytes: Seq<u8>, span: (usize, usize)) -> bool {
    &&& span.0 <= span.1 <= bytes.len()
    &&& is_char_boundary(bytes, span.0 as int)
    &&& is_char_boundary(bytes, span.1 as int)
}

/// Whether every span delimits a substring of the text encoded as `bytes`.
pub open spec fn spans_fit(bytes: Seq<u8>, spans: Seq<(usize, usize)>) -> bool {
    forall|i: int| 0 <= i < spans.len() ==> span_fits(bytes, #[trigger] spans[i])
}

/// Whether the spans come in order of appearance without overlapping: each
/// one ends no later than the next one starts.
pub open spec fn spans_ascend(spans: Seq<(usize, usize)>) -> bool {
    forall|i: int| 0 <= i < spans.len() - 1 ==> (#[trigger] spans[i]).1 <= spans[i + 1].0
}

/// The substring of `text` that `span` delimits.
pub open spec fn span_text(text: Seq<char>, span: (usize, usize)) -> Seq<char> {
    decode_utf8(encode_utf8(text).subrange(span.0 as int, span.1 as int))
}

/// The substrings of `text` that `spans` delimit, one per span, in order.
pub open spec fn span_texts(text: Seq<char>, spans: Seq<(usize, usize)>) -> Seq<Seq<char>> {
    Seq::new(spans.len(), |i: int| span_text(text, spans[i]))
}

/// Calls `Regex::new`. Whether it succeeds depends on the pattern alone and
/// is named, not decided here. When it succeeds, the compiled expression
/// reports the given pattern as its source.
#[verifier::external_body]
fn compile_regex(pattern: &str) -> (compiled: Result<Regex, regex::Error>)
    ensures
        compiled is Ok <==> regex_compiles(pattern@),
        compiled matches Ok(re) ==> regex_source(re) == pattern@,
{
    Regex::new(pattern)
}

/// Calls `Regex::find_iter` and collects the byte offsets of every match.
///
/// Claimed of it, as the crate documents: the matches are a function of the
/// expression and the haystack; each match starts no later than it ends,
/// lies within the haystack, and starts and ends on a character boundary;
/// successive matches do not overlap.
#[verifier::external_body]
fn regex_find_all(re: &Regex, haystack: &str) -> (spans: Vec<(usize, usize)>)
    ensures
        spans@ == regex_matches(*re, haystack@),
        spans_fit(haystack.spec_bytes(), spans@),
        spans_ascend(spans@),
{
    re.find_iter(haystack).map(|m| (m.start(), m.end())).collect()
}

/// Renders a `regex::Error` through its `Display` impl; the text is left open.
#[verifier::external_body]
fn regex_error_text(err: &regex::Error) -> String {
    err.to_string()
}

/// Why the URL pattern could not be compiled.
#[derive(Debug)]
pub struct PatternError {
    /// The matcher's description of the failure.
    pub message: String,
}

/// The compiled URL matcher. Build it once and share it: it is immutable.
pub struct UrlPattern {
    re: Regex,
}

/// Cuts the substrings that `spans` delimit out of `haystack`.
pub fn slices<'a>(haystack: &'a str, spans: &Vec<(usize, usize)>) -> (pieces: Vec<&'a str>)
    requires
        spans_fit(haystack.spec_bytes(), spans@),
    ensures
        pieces.len() == spans.len(),
        pieces.deep_view() == span_texts(haystack@, spans@),
{
    let mut pieces: Vec<&'a str> = Vec::new();
    let mut i: usize = 0;
    while i < spans.len()
        invariant
            i <= spans.len(),
            spans_fit(haystack.spec_bytes(), spans@),
            pieces.len() == i,
            forall|k: int| 0 <= k < i ==> (#[trigger] pieces@[k])@ == span_text(haystack@, spans@[k]),
        decreases spans.len() - i,
    {
        let span = spans[i];
        let ghost bytes = haystack.spec_bytes();
        let (head, _) = haystack.split_at(span.1);
        proof {
            lemma_boundary_in_prefix(bytes, span.0 as int, span.1 as int);
        }
        let (_, piece) = head.split_at(span.0);
        assert(piece.spec_bytes() == bytes.subrange(span.0 as int, span.1 as int));
        pieces.push(piece);
        i += 1;
    }
    pieces
}

/// A character boundary of a text is also one of each prefix that reaches
/// it, when the prefix itself ends on a character boundary.
proof fn lemma_boundary_in_prefix(bytes: Seq<u8>, index: int, end: int)
    requires
        valid_utf8(bytes),
        0 <= index <= end <= bytes.len(),
        is_char_boundary(bytes, index),
        is_char_boundary(bytes, end),
    ensures
        valid_utf8(bytes.subrange(0, end)),
        is_char_boundary(bytes.subrange(0, end), index),
{
    let prefix = bytes.subrange(0, end);
    valid_utf8_split(bytes, end);
    if index == end {
        is_char_boundary_start_end_of_seq(prefix);
    } else {
        is_char_boundary_iff_not_is_continuation_byte(bytes, index);
        is_char_boundary_iff_not_is_continuation_byte(prefix, index);
    }
}

/// What a fitting span delimits is a piece of the text: the text is what
/// stands before the span, then the span's substring, then what stands
/// after the span.
pub proof fn lemma_span_text_is_part(text: Seq<char>, span: (usize, usize))
    requires
        span_fits(encode_utf8(text), span),
    ensures
        text == decode_utf8(encode_utf8(text).subrange(0, span.0 as int)) + span_text(text, span)
            + decode_utf8(
            encode_utf8(text).subrange(span.1 as int, encode_utf8(text).len() as int),
        ),
{
    let bytes = encode_utf8(text);
    let prefix = bytes.subrange(0, span.1 as int);
    lemma_boundary_in_prefix(bytes, span.0 as int, span.1 as int);
    decode_utf8_split(bytes, span.1 as int);
    decode_utf8_split(prefix, span.0 as int);
    assert(prefix.subrange(0, span.0 as int) =~= bytes.subrange(0, span.0 as int));
    assert(prefix.subrange(span.0 as int, prefix.len() as int) =~= bytes.subrange(
        span.0 as int,
        span.1 as int,
    ));
}

/// Spans that fit a text and come in order do not overlap: of any two, the
/// earlier one ends no later than the later one starts.
pub proof fn lemma_spans_do_not_overlap(
    bytes: Seq<u8>,
    spans: Seq<(usize, usize)>,
    earlier: int,
    later: int,
)
    requires
        spans_fit(bytes, spans),
        spans_ascend(spans),
        0 <= earlier < later < spans.len(),
    ensures
        spans[earlier].1 <= spans[later].0,
    decreases later - earlier,
{
    if earlier + 1 < later {
        lemma_spans_do_not_overlap(bytes, spans, earlier, later - 1);
        assert(span_fits(bytes, spans[later - 1]));
    }
}

/// A text in which the matcher finds nothing holds no URLs.
pub proof fn lemma_no_match_no_url(pattern: UrlPattern, text: Seq<char>)
    requires
        pattern.matches(text).len() == 0,
    ensures
        pattern.urls_in(text) == Seq::<Seq<char>>::empty(),
{
    assert(pattern.urls_in(text) =~= Seq::<Seq<char>>::empty());
}

/// Extraction depends on the matcher and the text alone: what
/// [`UrlPattern::find_urls`] returns for a text, it returns for that text
/// every time.
pub proof fn lemma_extraction_is_repeatable(
    pattern: UrlPattern,
    text: Seq<char>,
    first: Vec<&str>,
    second: Vec<&str>,
)
    requires
        first.deep_view() == pattern.urls_in(text),
        second.deep_view() == pattern.urls_in(text),
    ensures
        first.len() == second.len(),
        forall|i: int| 0 <= i < first.len() ==> first@[i]@ == second@[i]@,
{
    assert(first.deep_view().len() == first.len());
    assert(second.deep_view().len() == second.len());
    assert forall|i: int| 0 <= i < first.len() implies first@[i]@ == second@[i]@ by {
        assert(first.deep_view()[i] == first@[i]@);
        assert(second.deep_view()[i] == second@[i]@);
    }
}

impl UrlPattern {
    #[verifier::type_invariant]
    spec fn built_from_url_pattern(self) -> bool {
        regex_source(self.re) == URL_PATTERN@
    }

    /// The pattern text that this matcher was compiled from.
    pub closed spec fn source(&self) -> Seq<char> {
        regex_source(self.re)
    }

    /// Where this matcher finds URLs in `text`: byte offsets (start, end) of
    /// every match, in order of appearance.
    pub closed spec fn matches(&self, text: Seq<char>) -> Seq<(usize, usize)> {
        regex_matches(self.re, text)
    }

    /// The URLs that this matcher finds in `text`: one per match, each the
    /// substring at the match's offsets, in order of appearance.
    pub open spec fn urls_in(&self, text: Seq<char>) -> Seq<Seq<char>> {
        span_texts(text, self.matches(text))
    }

    /// Compiles [`URL_PATTERN`].
    ///
    /// Succeeds exactly when the matcher accepts the pattern; a failure
    /// carries its description. A matcher that is returned was built from it.
    pub fn compile() -> (compiled: Result<UrlPattern, PatternError>)
        ensures
            compiled is Ok <==> regex_compiles(URL_PATTERN@),
            compiled matches Ok(pattern) ==> pattern.source() == URL_PATTERN@,
    {
        match compile_regex(URL_PATTERN) {
            Ok(re) => Ok(UrlPattern { re }),
            Err(err) => Err(PatternError { message: regex_error_text(&err) }),
        }
    }

    /// Returns where the URL-shaped substrings of `haystack` stand: for each
    /// one the byte offsets of its start and its end, in order of
    /// appearance. The spans fit the text and do not overlap.
    pub fn find_spans(&self, haystack: &str) -> (spans: Vec<(usize, usize)>)
        ensures
            self.source() == URL_PATTERN@,
            spans@ == self.matches(haystack@),
            spans_fit(encode_utf8(haystack@), spans@),
            spans_ascend(spans@),
    {
        proof {
            use_type_invariant(self);
        }
        regex_find_all(&self.re, haystack)
    }

    /// Returns every URL-shaped substring of `haystack`, in order of
    /// appearance. A URL that occurs twice is returned twice.
    pub fn find_urls<'a>(&self, haystack: &'a str) -> (urls: Vec<&'a str>)
        ensures
            self.source() == URL_PATTERN@,
            urls.deep_view() == self.urls_in(haystack@),
            urls.len() == self.matches(haystack@).len(),
            spans_fit(encode_utf8(haystack@), self.matches(haystack@)),
            spans_ascend(self.matches(haystack@)),
    {
        let spans = self.find_spans(haystack);
        slices(haystack, &spans)
    }
}

/// Whether `Regex::new` compiles a pattern. It does unless the pattern is
/// not a valid expression or its compiled form exceeds the size limit that
/// the matcher sets by default.
pub uninterp spec fn regex_compiles(pattern: Seq<char>) -> bool;

} // verus!
