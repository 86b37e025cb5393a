//! The pattern set: the search patterns, matched as a set, and the one
//! pattern that recognises a continuation line.
//!
//! Patterns are compiled and matched by the `regex` crate. What this module
//! takes on trust about that crate is stated on the items of its first part.

use regex::bytes::Regex;
use regex::bytes::RegexSet;
use vstd::prelude::*;

verus! {

/// `regex::bytes::Regex`, a compiled pattern, carried through as it is.
#[verifier::external_type_specification]
#[verifier::external_body]
pub struct ExRegex(regex::bytes::Regex);

/// `regex::bytes::RegexSet`, a compiled set of patterns, carried through as
/// it is.
#[verifier::external_type_specification]
#[verifier::external_body]
pub struct ExRegexSet(regex::bytes::RegexSet);

/// `regex::Error`, the reason why a pattern was refused.
#[verifier::external_type_specification]
#[verifier::external_body]
pub struct ExRegexError(regex::Error);

/// The pattern text that a regex was compiled from.
pub uninterp spec fn regex_source(re: Regex) -> Seq<char>;

/// Whether a regex was compiled with the options of
/// `regex::bytes::Regex::new`: the defaults of its builder, none changed.
pub uninterp spec fn compiled_plain(re: Regex) -> bool;

/// The pattern texts that a set was compiled from, in their order.
pub uninterp spec fn set_sources(set: RegexSet) -> Seq<Seq<char>>;

/// Whether a set was compiled with the defaults of
/// `regex::bytes::RegexSetBuilder` and multi-line mode switched on, and no
/// other option changed.
pub uninterp spec fn compiled_multi_line(set: RegexSet) -> bool;

/// Whether `pattern` matches somewhere in `haystack`, as `is_match` decides
/// it for a regex compiled from `pattern` with the builder's defaults and
/// multi-line mode as `multi_line` says. With `multi_line`, `^` and `$` also
/// match at line boundaries inside the haystack.
pub uninterp spec fn pattern_matches(
    pattern: Seq<char>,
    multi_line: bool,
    haystack: Seq<u8>,
) -> bool;

/// Whether `regex::bytes::Regex::new` accepts `pattern`.
pub uninterp spec fn pattern_compiles(pattern: Seq<char>) -> bool;

/// Whether `regex::bytes::RegexSetBuilder`, in multi-line mode, accepts
/// `patterns` as one set.
pub uninterp spec fn set_compiles(patterns: Seq<Seq<char>>) -> bool;

/// Calls `regex::bytes::Regex::new`. Trusted: whether it succeeds depends on
/// the pattern alone, and the regex it returns was compiled from that pattern
/// with the default options.
#[verifier::external_body]
fn compile_regex(pattern: &str) -> (r: Result<Regex, regex::Error>)
    ensures
        r.is_ok() == pattern_compiles(pattern@),
        r matches Ok(re) ==> regex_source(re) == pattern@ && compiled_plain(re),
{
    Regex::new(pattern)
}

/// Calls `regex::bytes::RegexSetBuilder::new`, `multi_line(true)` and `build`.
/// Trusted: whether it succeeds depends on the patterns alone, and the set it
/// returns was compiled from those patterns, in their order, in multi-line
/// mode and with no other option changed.
#[verifier::external_body]
fn compile_set(patterns: &Vec<String>) -> (r: Result<RegexSet, regex::Error>)
    ensures
        r.is_ok() == set_compiles(patterns.deep_view()),
        r matches Ok(set) ==> set_sources(set) == patterns.deep_view() && compiled_multi_line(
            set,
        ),
{
    regex::bytes::RegexSetBuilder::new(patterns).multi_line(true).build()
}

/// Calls `regex::bytes::Regex::is_match`. Trusted: for a regex compiled with
/// the default options, the answer is that of its pattern on the haystack.
/// Nothing is claimed of a regex compiled otherwise.
#[verifier::external_body]
fn regex_is_match(re: &Regex, haystack: &[u8]) -> (r: bool)
    ensures
        compiled_plain(*re) ==> r == pattern_matches(regex_source(*re), false, haystack@),
{
    re.is_match(haystack)
}

/// Calls `regex::bytes::RegexSet::is_match`. Trusted: a set compiled in
/// multi-line mode, with no other option changed, matches exactly when one of
/// its patterns, read in that mode, matches. Nothing is claimed of a set
/// compiled otherwise.
#[verifier::external_body]
fn set_is_match(set: &RegexSet, haystack: &[u8]) -> (r: bool)
    ensures
        compiled_multi_line(*set) ==> r == (exists|i: int|
            0 <= i < set_sources(*set).len() && #[trigger] pattern_matches(
                set_sources(*set)[i],
                true,
                haystack@,
            )),
{
    set.is_match(haystack)
}

/// The text that a `regex::Error` displays as: what its `to_string` returns.
pub uninterp spec fn error_description(err: regex::Error) -> Seq<char>;

/// Calls `to_string` on a `regex::Error`. Trusted: the text depends on the
/// error alone.
#[verifier::external_body]
fn error_text(err: &regex::Error) -> (text: String)
    ensures
        text@ == error_description(*err),
{
    err.to_string()
}

/// The continuation pattern used when none is given: a line that begins with
/// white space continues the line before it.
pub const DEFAULT_CONTINUATION: &'static str = "^\\s+";

/// Whether one of `patterns`, read in multi-line mode, matches somewhere in
/// `haystack`.
pub open spec fn any_pattern_matches(patterns: Seq<Seq<char>>, haystack: Seq<u8>) -> bool {
    exists|i: int| 0 <= i < patterns.len() && #[trigger] pattern_matches(patterns[i], true, haystack)
}

/// The continuation pattern that a request stands for.
pub open spec fn chosen_continuation(continuation: Option<&str>) -> Seq<char> {
    match continuation {
        Some(text) => text@,
        None => DEFAULT_CONTINUATION@,
    }
}

/// Why a pattern set could not be built.
pub enum PatternError {
    /// The search patterns were refused.
    Search(regex::Error),
    /// The continuation pattern was refused.
    Continuation(regex::Error),
}

impl PatternError {
    /// The text of the error: that of the refusal it carries, whichever
    /// pattern was refused.
    pub open spec fn description(&self) -> Seq<char> {
        match self {
            PatternError::Search(err) => error_description(*err),
            PatternError::Continuation(err) => error_description(*err),
        }
    }

    /// A description of the error for a person to read: the text of the
    /// refusal it carries.
    pub fn message(&self) -> (text: String)
        ensures
            text@ == self.description(),
    {
        match self {
            PatternError::Search(err) => error_text(err),
            PatternError::Continuation(err) => error_text(err),
        }
    }
}

/// The compiled search patterns and the compiled continuation pattern.
pub struct PatternSet {
    pub searches: RegexSet,
    pub continuation: Regex,
}

impl PatternSet {
    /// Whether both parts were compiled as `new` compiles them: the search
    /// patterns as one set in multi-line mode, the continuation pattern with
    /// the default options. The contracts of matching speak of such a pattern
    /// set only.
    pub open spec fn valid(&self) -> bool {
        compiled_multi_line(self.searches) && compiled_plain(self.continuation)
    }

    /// The search patterns, in the order they were given.
    pub open spec fn search_patterns(&self) -> Seq<Seq<char>> {
        set_sources(self.searches)
    }

    /// The continuation pattern.
    pub open spec fn continuation_pattern(&self) -> Seq<char> {
        regex_source(self.continuation)
    }

    /// Whether a record with these bytes matches: some search pattern matches
    /// somewhere in it.
    pub open spec fn matches_spec(&self, bytes: Seq<u8>) -> bool {
        any_pattern_matches(self.search_patterns(), bytes)
    }

    /// Whether a physical line with these bytes is a continuation line.
    pub open spec fn is_continuation_spec(&self, line: Seq<u8>) -> bool {
        pattern_matches(self.continuation_pattern(), false, line)
    }

    /// Puts a pattern set together from the two compilations. An error of the
    /// search patterns comes before one of the continuation pattern. The
    /// pattern set is valid if the two parts were compiled as `new` compiles
    /// them.
    pub fn from_compiled(
        searches: Result<RegexSet, regex::Error>,
        continuation: Result<Regex, regex::Error>,
    ) -> (r: Result<PatternSet, PatternError>)
        ensures
            r.is_ok() == (searches.is_ok() && continuation.is_ok()),
            r matches Ok(set) ==> searches == Ok::<RegexSet, regex::Error>(set.searches)
                && continuation == Ok::<Regex, regex::Error>(set.continuation),
            r matches Err(PatternError::Search(err)) ==> searches == Err::<
                RegexSet,
                regex::Error,
            >(err),
            r matches Err(PatternError::Continuation(err)) ==> searches.is_ok() && continuation
                == Err::<Regex, regex::Error>(err),
    {
        match searches {
            Err(err) => Err(PatternError::Search(err)),
            Ok(searches) => match continuation {
                Err(err) => Err(PatternError::Continuation(err)),
                Ok(continuation) => Ok(PatternSet { searches, continuation }),
            },
        }
    }

    /// Compiles the search patterns as one multi-line set, and the
    /// continuation pattern, or the default one where none is given.
    pub fn new(
        patterns: &Vec<String>,
        continuation: Option<&str>,
    ) -> (r: Result<PatternSet, PatternError>)
        ensures
            r.is_ok() == (set_compiles(patterns.deep_view()) && pattern_compiles(
                chosen_continuation(continuation),
            )),
            r matches Ok(set) ==> set.valid() && set.search_patterns() == patterns.deep_view()
                && set.continuation_pattern() == chosen_continuation(continuation),
            r matches Err(err) ==> (err is Search <==> !set_compiles(patterns.deep_view())),
    {
        let text: &str = match continuation {
            Some(text) => text,
            None => DEFAULT_CONTINUATION,
        };
        PatternSet::from_compiled(compile_set(patterns), compile_regex(text))
    }

    /// Whether some search pattern matches somewhere in `bytes`.
    pub fn matches(&self, bytes: &[u8]) -> (r: bool)
        ensures
            self.valid() ==> r == self.matches_spec(bytes@),
    {
        set_is_match(&self.searches, bytes)
    }

    /// Whether the physical line `line` is a continuation line.
    pub fn is_continuation(&self, line: &[u8]) -> (r: bool)
        ensures
            self.valid() ==> r == self.is_continuation_spec(line@),
    {
        regex_is_match(&self.continuation, line)
    }
}

/// Whether a set of patterns matches does not depend on the order of the
/// patterns: two sequences with the same patterns, each as often as in the
/// other, match the same haystacks.
pub proof fn lemma_match_ignores_pattern_order(
    first: Seq<Seq<char>>,
    second: Seq<Seq<char>>,
    haystack: Seq<u8>,
)
    requires
        first.to_multiset() == second.to_multiset(),
    ensures
        any_pattern_matches(first, haystack) == any_pattern_matches(second, haystack),
{
    first.to_multiset_ensures();
    second.to_multiset_ensures();
    if any_pattern_matches(first, haystack) {
        let i = choose|i: int|
            0 <= i < first.len() && #[trigger] pattern_matches(first[i], true, haystack);
        assert(first.contains(first[i]));
        assert(second.to_multiset().count(first[i]) > 0);
        assert(second.contains(first[i]));
        let j = choose|j: int| 0 <= j < second.len() && second[j] == first[i];
        assert(pattern_matches(second[j], true, haystack));
    }
    if any_pattern_matches(second, haystack) {
        let i = choose|i: int|
            0 <= i < second.len() && #[trigger] pattern_matches(second[i], true, haystack);
        assert(second.contains(second[i]));
        assert(first.to_multiset().count(second[i]) > 0);
        assert(first.contains(second[i]));
        let j = choose|j: int| 0 <= j < first.len() && first[j] == second[i];
        assert(pattern_matches(first[j], true, haystack));
    }
}

/// A set matches exactly when one of its patterns does: with no pattern it
/// matches nothing, and one more pattern adds that pattern's matches.
pub proof fn lemma_match_is_any_of(patterns: Seq<Seq<char>>, extra: Seq<char>, haystack: Seq<u8>)
    ensures
        !any_pattern_matches(Seq::empty(), haystack),
        any_pattern_matches(patterns.push(extra), haystack) == (any_pattern_matches(
            patterns,
            haystack,
        ) || pattern_matches(extra, true, haystack)),
{
    let more = patterns.push(extra);
    if any_pattern_matches(patterns, haystack) {
        let i = choose|i: int|
            0 <= i < patterns.len() && #[trigger] pattern_matches(patterns[i], true, haystack);
        assert(more[i] == patterns[i]);
    }
    if pattern_matches(extra, true, haystack) {
        assert(more[patterns.len() as int] == extra);
    }
    if any_pattern_matches(more, haystack) {
        let i = choose|i: int|
            0 <= i < more.len() && #[trigger] pattern_matches(more[i], true, haystack);
        if i < patterns.len() {
            assert(more[i] == patterns[i]);
        } else {
            assert(more[i] == extra);
        }
    }
}

} // verus!
