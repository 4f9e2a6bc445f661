//! A search and what carries it out.

use vstd::prelude::*;
use crate::error::GrepError;
use crate::pattern::{regex_accepts, Pattern};
use crate::strategy::{default_strategy, is_report, matches_in};

verus! {

/// A way to scan one file: from its path, its content and the compiled
/// pattern to the text that is written for it.
pub trait Strategy {
    /// Scans the content of one file. A strategy that fails says so with an
    /// error; the failure concerns this file only.
    fn scan(&self, path: &str, input: &[u8], pattern: &Pattern) -> Result<String, GrepError>;
}

/// The strategy that reports each matching line once, with its first match.
#[derive(Clone, Copy, Debug)]
pub struct DefaultStrategy;

impl Strategy for DefaultStrategy {
    /// Never fails: matching and formatting cannot go wrong.
    fn scan(&self, path: &str, input: &[u8], pattern: &Pattern) -> (r: Result<String, GrepError>)
        ensures
            r is Ok,
            r matches Ok(out) ==> {
                &&& is_report(out@, path@, matches_in(pattern@, input@))
                &&& out@.len() == 0 <==> matches_in(pattern@, input@).len() == 0
            },
    {
        Ok(default_strategy(path, input, pattern))
    }
}

/// What to search for, and in which files.
pub struct GrepConfig {
    /// The regular expression.
    pub pattern: String,
    /// The glob that names the files.
    pub glob: String,
}

/// A search that is ready to run: the compiled pattern and the strategy that
/// scans each file with it.
pub struct Matcher<S> {
    pub pattern: Pattern,
    pub strategy: S,
}

impl<S: Strategy> Matcher<S> {
    /// Scans the content of the file at `path` and returns what is to be
    /// written for it, or the failure of the strategy. Files are scanned
    /// independently of each other.
    pub fn scan(&self, path: &str, input: &[u8]) -> (r: Result<String, GrepError>)
        ensures
            call_ensures(S::scan, (&self.strategy, path, input, &self.pattern), r),
    {
        self.strategy.scan(path, input, &self.pattern)
    }
}

/// Whether `glob::Pattern::new` accepts the glob text `glob`. What counts as
/// a path separator is the platform's; on one platform the text alone decides.
pub uninterp spec fn glob_accepts(glob: Seq<char>) -> bool;

/// Checks the syntax of a glob with `glob::Pattern::new`, which only parses
/// the text and touches no file. The compiled glob is dropped; the error is
/// handed on. The call succeeds exactly when `glob_accepts` holds of the text.
#[verifier::external_body]
fn glob_check(glob: &str) -> (r: Result<(), glob::PatternError>)
    ensures
        r is Ok <==> glob_accepts(glob@),
{
    match glob::Pattern::new(glob) {
        Ok(_) => Ok(()),
        Err(e) => Err(e),
    }
}

impl GrepConfig {
    /// Prepares the search with the default strategy. Fails as `match_with`
    /// does.
    pub fn match_with_default_strategy(&self) -> (r: Result<Matcher<DefaultStrategy>, GrepError>)
        ensures
            r is Ok <==> regex_accepts(self.pattern@) && glob_accepts(self.glob@),
            r matches Ok(matcher) ==> matcher.pattern@ == self.pattern@,
            r matches Err(e) ==> (e is InvalidPattern <==> !regex_accepts(self.pattern@)),
            r matches Err(e) ==> (e is InvalidGlob <==> regex_accepts(self.pattern@)),
    {
        self.match_with(DefaultStrategy)
    }

    /// Prepares the search with `strategy`. The pattern is compiled first: if
    /// it does not compile the result is `InvalidPattern`, whatever the glob
    /// is. Then the syntax of the glob is checked: a malformed glob gives
    /// `InvalidGlob`. Both happen before any file is looked at.
    pub fn match_with<S: Strategy>(&self, strategy: S) -> (r: Result<Matcher<S>, GrepError>)
        ensures
            r is Ok <==> regex_accepts(self.pattern@) && glob_accepts(self.glob@),
            r matches Ok(matcher) ==> matcher.pattern@ == self.pattern@ && matcher.strategy
                == strategy,
            r matches Err(e) ==> (e is InvalidPattern <==> !regex_accepts(self.pattern@)),
            r matches Err(e) ==> (e is InvalidGlob <==> regex_accepts(self.pattern@)),
    {
        match Pattern::new(self.pattern.as_str()) {
            Ok(pattern) => match glob_check(self.glob.as_str()) {
                Ok(()) => Ok(Matcher { pattern, strategy }),
                Err(e) => Err(GrepError::InvalidGlob(e)),
            },
            Err(e) => Err(e),
        }
    }
}

} // verus!
