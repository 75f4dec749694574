//! URLs and the match patterns that rules are written in.
//!
//! Parsing a URL, compiling a pattern and matching one against the other are
//! the work of the `url` and `webextension_pattern` crates. This module gives
//! each of those three results a name, and keeps two types whose values are
//! known to be accepted by them: [`ValidUrl`] and [`Pattern`].

use vstd::prelude::*;

verus! {

/// `url::ParseError`, the error of `url::Url::parse`. Its values are carried
/// through; nothing is claimed of them.
#[verifier::external_type_specification]
#[verifier::external_body]
pub struct ExParseError(url::ParseError);

/// The error with which `url::Url::parse` rejects `text`; nothing where it
/// accepts `text`.
pub uninterp spec fn url_parse_failure(text: Seq<char>) -> Option<url::ParseError>;

/// The message of the error with which `webextension_pattern::Pattern`
/// rejects `source` when it is made from a string; nothing where it accepts
/// `source`.
pub uninterp spec fn pattern_compile_failure(source: Seq<char>) -> Option<Seq<char>>;

/// What `webextension_pattern::Pattern::is_match` answers for the pattern made
/// from `source` and the URL parsed from `url`.
pub uninterp spec fn pattern_matches(source: Seq<char>, url: Seq<char>) -> bool;

/// Calls `url::Url::parse` and keeps only whether it succeeded. The contract
/// claims that the outcome is the named one: success exactly where
/// `url_parse_failure` is empty, and otherwise the error named there.
#[verifier::external_body]
fn check_url(text: &str) -> (outcome: Result<(), url::ParseError>)
    ensures
        outcome == (match url_parse_failure(text@) {
            Some(error) => Err::<(), url::ParseError>(error),
            None => Ok(()),
        }),
{
    match url::Url::parse(text) {
        Ok(_) => Ok(()),
        Err(error) => Err(error),
    }
}

/// Calls `webextension_pattern::Pattern::try_from` on a copy of `source`,
/// which reads it in the crate's relaxed format, and keeps only whether it
/// succeeded, and of an error only its message. The contract claims that the
/// outcome is the named one: success exactly where `pattern_compile_failure`
/// is empty, and otherwise the message named there.
#[verifier::external_body]
fn check_pattern(source: &str) -> (outcome: Result<(), String>)
    ensures
        match outcome {
            Ok(_) => pattern_compile_failure(source@) is None,
            Err(message) => pattern_compile_failure(source@) == Some(message@),
        },
{
    match webextension_pattern::Pattern::try_from(source.to_owned()) {
        Ok(_) => Ok(()),
        Err(error) => Err(error.to_string()),
    }
}

/// Calls `webextension_pattern::Pattern::is_match`. The pattern and the URL
/// that the call takes are made of `source` and `url` as in `check_pattern`
/// and `check_url`, by `Pattern::try_from` and `url::Url::parse`. The contract
/// claims that the answer is the named one where both texts are accepted, and
/// that there is no answer where either is rejected.
#[verifier::external_body]
fn match_text(source: &str, url: &str) -> (answer: Option<bool>)
    ensures
        answer == (if pattern_compile_failure(source@) is None && url_parse_failure(url@) is None {
            Some(pattern_matches(source@, url@))
        } else {
            None
        }),
{
    let pattern = webextension_pattern::Pattern::try_from(source.to_owned()).ok()?;
    let url = url::Url::parse(url).ok()?;
    Some(pattern.is_match(&url))
}

/// What parsing `text` as a URL gives: the text itself where it is accepted.
pub open spec fn parsed(text: Seq<char>) -> Result<Seq<char>, url::ParseError> {
    match url_parse_failure(text) {
        Some(error) => Err(error),
        None => Ok(text),
    }
}

/// What compiling `source` as a pattern gives: the source itself where it is
/// accepted.
pub open spec fn compiled(source: Seq<char>) -> Result<Seq<char>, Seq<char>> {
    match pattern_compile_failure(source) {
        Some(error) => Err(error),
        None => Ok(source),
    }
}

/// A string that parses as a URL. Its view is the string.
#[derive(Debug)]
pub struct ValidUrl {
    text: String,
}

impl View for ValidUrl {
    type V = Seq<char>;

    closed spec fn view(&self) -> Seq<char> {
        self.text@
    }
}

impl ValidUrl {
    #[verifier::type_invariant]
    spec fn accepted(&self) -> bool {
        url_parse_failure(self@) is None
    }

    /// Accepts `text` if it parses as a URL, and otherwise returns the
    /// parser's error.
    pub fn parse(text: &str) -> (outcome: Result<ValidUrl, url::ParseError>)
        ensures
            match outcome {
                Ok(url) => parsed(text@) == Ok::<Seq<char>, url::ParseError>(url@),
                Err(error) => parsed(text@) == Err::<Seq<char>, url::ParseError>(error),
            },
    {
        match check_url(text) {
            Ok(_) => Ok(ValidUrl { text: text.to_owned() }),
            Err(error) => Err(error),
        }
    }

    /// The URL as it was written.
    pub fn as_str(&self) -> (text: &str)
        ensures
            text@ == self@,
            url_parse_failure(self@) is None,
    {
        proof {
            use_type_invariant(self);
        }
        self.text.as_str()
    }
}

/// A match pattern that compiles. Its view is the text it was written as,
/// which is kept so that the pattern can be written out again unchanged.
#[derive(Debug)]
pub struct Pattern {
    raw: String,
}

impl View for Pattern {
    type V = Seq<char>;

    closed spec fn view(&self) -> Seq<char> {
        self.raw@
    }
}

impl Clone for Pattern {
    fn clone(&self) -> (copy: Self)
        ensures
            copy@ == self@,
    {
        proof {
            use_type_invariant(self);
        }
        Pattern { raw: self.raw.clone() }
    }
}

impl Pattern {
    #[verifier::type_invariant]
    spec fn accepted(&self) -> bool {
        pattern_compile_failure(self@) is None
    }

    /// Accepts `raw` if it compiles as a match pattern, and otherwise returns
    /// the message of the compiler's error.
    pub fn compile(raw: &str) -> (outcome: Result<Pattern, String>)
        ensures
            match outcome {
                Ok(pattern) => compiled(raw@) == Ok::<Seq<char>, Seq<char>>(pattern@),
                Err(message) => compiled(raw@) == Err::<Seq<char>, Seq<char>>(message@),
            },
    {
        match check_pattern(raw) {
            Ok(_) => Ok(Pattern { raw: raw.to_owned() }),
            Err(error) => Err(error),
        }
    }

    /// The pattern as it was written.
    pub fn as_str(&self) -> (raw: &str)
        ensures
            raw@ == self@,
            pattern_compile_failure(self@) is None,
    {
        proof {
            use_type_invariant(self);
        }
        self.raw.as_str()
    }

    /// Whether the pattern matches `url`.
    pub fn is_match(&self, url: &ValidUrl) -> (answer: bool)
        ensures
            answer == pattern_matches(self@, url@),
    {
        match match_text(self.as_str(), url.as_str()) {
            Some(answer) => answer,
            None => false,
        }
    }
}

} // verus!
