//! Compiled regular expressions.

use vstd::prelude::*;
use vstd::utf8::*;
use regex::Regex;
use crate::error::GrepError;

verus! {

/// `regex::Regex`, a compiled expression. Nothing of its inside is known
/// here; it is only handed back to the `regex` crate.
#[verifier::external_type_specification]
#[verifier::external_body]
pub struct ExRegex(regex::Regex);

/// Whether `regex::Regex::new` accepts the pattern text `source`. The crate
/// compiles with fixed options and a fixed size limit and reads nothing of
/// its surroundings, so on one build the text alone decides.
pub uninterp spec fn regex_accepts(source: Seq<char>) -> bool;

/// What `regex::Regex::find` returns on `haystack` for the expression
/// compiled from `source`: the byte offsets of the leftmost match, if any.
pub uninterp spec fn regex_first_match(source: Seq<char>, haystack: Seq<char>) -> Option<(usize, usize)>;

/// `from..to` is a byte range of the UTF-8 encoding of `text` whose two ends
/// fall between characters.
pub open spec fn is_span_of(text: Seq<char>, from: int, to: int) -> bool {
    &&& 0 <= from <= to <= encode_utf8(text).len()
    &&& is_char_boundary(encode_utf8(text), from)
    &&& is_char_boundary(encode_utf8(text), to)
}

/// A regular expression together with the text it was compiled from.
///
/// The fields are private and `Pattern::new` is the only way to a value, so
/// `regex` is always the expression that `regex::Regex::new` made of `source`.
/// The contract of a search rests on that.
pub struct Pattern {
    source: String,
    regex: Regex,
}

impl View for Pattern {
    type V = Seq<char>;

    /// The pattern text.
    closed spec fn view(&self) -> Seq<char> {
        self.source@
    }
}

/// Calls `regex::Regex::new` and keeps the compiled expression beside its
/// text. The call succeeds exactly when `regex_accepts` holds of the text; it
/// does not panic on any text.
#[verifier::external_body]
fn regex_new(source: &str) -> (r: Result<Pattern, regex::Error>)
    ensures
        r is Ok <==> regex_accepts(source@),
        r matches Ok(p) ==> p@ == source@,
{
    match Regex::new(source) {
        Ok(regex) => Ok(Pattern { source: source.to_string(), regex }),
        Err(e) => Err(e),
    }
}

/// Calls `regex::Regex::find` and hands out the start and end of the match.
/// The result is `regex_first_match` of the pattern text and the haystack.
/// The `regex` crate promises of every match that its start is not behind its
/// end and that both are byte offsets at which the haystack can be sliced,
/// which is what `is_span_of` says.
#[verifier::external_body]
fn regex_find(pattern: &Pattern, haystack: &str) -> (r: Option<(usize, usize)>)
    ensures
        r == regex_first_match(pattern@, haystack@),
        r matches Some((from, to)) ==> is_span_of(haystack@, from as int, to as int),
{
    pattern.regex.find(haystack).map(|m| (m.start(), m.end()))
}

impl Pattern {
    /// Compiles `source`.
    pub fn new(source: &str) -> (r: Result<Pattern, GrepError>)
        ensures
            r is Ok <==> regex_accepts(source@),
            r matches Ok(p) ==> p@ == source@,
            r matches Err(e) ==> e is InvalidPattern,
    {
        match regex_new(source) {
            Ok(p) => Ok(p),
            Err(e) => Err(GrepError::InvalidPattern(e)),
        }
    }

    /// The first match in `line`, as byte offsets.
    pub fn find(&self, line: &str) -> (r: Option<(usize, usize)>)
        ensures
            r == regex_first_match(self@, line@),
            r matches Some((from, to)) ==> is_span_of(line@, from as int, to as int),
    {
        regex_find(self, line)
    }
}

} // verus!
