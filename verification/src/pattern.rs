//! Compiled regular expressions, held together with the pattern they were
//! compiled from. Matching is done by the `regex` crate.
use vstd::prelude::*;

verus! {

#[verifier::external_type_specification]
#[verifier::external_body]
pub struct ExRegex(regex::Regex);

/// `Clone` of `regex::Regex`; nothing is claimed of the copy, which Verus
/// cannot look into.
pub assume_specification[ <regex::Regex as Clone>::clone ](r: &regex::Regex) -> regex::Regex;

/// Whether `regex::Regex::new` accepts `pattern`.
pub uninterp spec fn regex_compiles(pattern: Seq<char>) -> bool;

/// What `regex::Regex::is_match` answers for the regex compiled from
/// `pattern` on `text` (whether some substring of `text` matches).
pub uninterp spec fn regex_is_match(pattern: Seq<char>, text: Seq<char>) -> bool;

/// The text of capture group 1 of the leftmost-first match of the regex
/// compiled from `pattern` in `text`; `None` when there is no match or the
/// group took no part in it.
pub uninterp spec fn regex_group1(pattern: Seq<char>, text: Seq<char>) -> Option<Seq<char>>;

/// A regular expression together with its source pattern. The only way to
/// build one is [`SgRegex::new`], so `compiled` is always the regex compiled
/// from `pattern`.
#[derive(Clone, Debug)]
pub struct SgRegex {
    pattern: String,
    compiled: regex::Regex,
}

impl View for SgRegex {
    type V = Seq<char>;

    closed spec fn view(&self) -> Seq<char> {
        self.pattern@
    }
}

/// `regex::Regex::new`: the contract claims that the result is `Some`
/// exactly when the `regex` crate accepts the pattern.
#[verifier::external_body]
fn compile(pattern: &str) -> (r: Option<regex::Regex>)
    ensures
        r is Some <==> regex_compiles(pattern@),
{
    regex::Regex::new(pattern).ok()
}

impl SgRegex {
    /// Compiles `pattern`: `None` when the `regex` crate refuses it; the
    /// regex remembers the pattern it came from.
    pub fn new(pattern: &str) -> (r: Option<SgRegex>)
        ensures
            r is Some <==> regex_compiles(pattern@),
            r matches Some(x) ==> x@ == pattern@,
    {
        match compile(pattern) {
            Some(compiled) => Some(SgRegex { pattern: pattern.to_string(), compiled }),
            None => None,
        }
    }

    /// The pattern this regex was compiled from.
    pub fn as_str(&self) -> (r: &str)
        ensures
            r@ == self@,
    {
        self.pattern.as_str()
    }

    /// `regex::Regex::is_match`: the contract claims the answer is the one
    /// the `regex` crate gives for this pattern and `text`.
    #[verifier::external_body]
    pub(crate) fn is_match(&self, text: &str) -> (r: bool)
        ensures
            r == regex_is_match(self@, text@),
    {
        self.compiled.is_match(text)
    }

    /// `regex::Regex::captures` followed by `Captures::get(1)`: the contract
    /// claims the text of group 1 of the first match, as the `regex` crate
    /// finds it.
    #[verifier::external_body]
    pub(crate) fn group1(&self, text: &str) -> (r: Option<String>)
        ensures
            r matches Some(g) ==> regex_group1(self@, text@) == Some(g@),
            r is None ==> regex_group1(self@, text@) is None,
    {
        match self.compiled.captures(text) {
            Some(caps) => match caps.get(1) {
                Some(m) => Some(m.as_str().to_string()),
                None => None,
            },
            None => None,
        }
    }
}

} // verus!
