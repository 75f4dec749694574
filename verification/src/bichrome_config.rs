//! Rules that name a profile directly and are written as regular
//! expressions, and how such rules are filled in from a template.

use vstd::prelude::*;
use crate::ordered_map::{lookup, OrderedMap};
use crate::search::first_from;
use crate::text::view_of;

verus! {

/// The message of the error with which `regex::Regex::new` rejects `source`;
/// nothing where it accepts `source`.
pub uninterp spec fn regex_compile_failure(source: Seq<char>) -> Option<Seq<char>>;

/// What `regex::Regex::is_match` answers for the expression compiled from
/// `source` and the text `haystack`.
pub uninterp spec fn regex_matches(source: Seq<char>, haystack: Seq<char>) -> bool;

/// Calls `regex::Regex::new` and keeps only whether it succeeded, and of an
/// error only its message. The contract claims that the outcome is the named
/// one: success exactly where `regex_compile_failure` is empty, and otherwise
/// the message named there.
#[verifier::external_body]
fn check_regex(source: &str) -> (outcome: Result<(), String>)
    ensures
        match outcome {
            Ok(_) => regex_compile_failure(source@) is None,
            Err(message) => regex_compile_failure(source@) == Some(message@),
        },
{
    match regex::Regex::new(source) {
        Ok(_) => Ok(()),
        Err(error) => Err(error.to_string()),
    }
}

/// Calls `regex::Regex::is_match`. The expression that the call takes is
/// compiled from `source` as in `check_regex`, by `regex::Regex::new`. The
/// contract claims that the answer is the named one where `source` is
/// accepted, and that there is no answer where it is rejected.
#[verifier::external_body]
fn regex_match_text(source: &str, haystack: &str) -> (answer: Option<bool>)
    ensures
        answer == (if regex_compile_failure(source@) is None {
            Some(regex_matches(source@, haystack@))
        } else {
            None
        }),
{
    let expression = regex::Regex::new(source).ok()?;
    Some(expression.is_match(haystack))
}

/// A regular expression that compiles. Its view is the text it was written
/// as.
#[derive(Debug)]
pub struct Pattern {
    raw: String,
}

impl View for Pattern {
    type V = Seq<char>;

    closed spec fn view(&self) -> Seq<char> {
        self.raw@
    }
}

impl Clone for Pattern {
    fn clone(&self) -> (copy: Self)
        ensures
            copy@ == self@,
    {
        proof {
            use_type_invariant(self);
        }
        Pattern { raw: self.raw.clone() }
    }
}

impl Pattern {
    #[verifier::type_invariant]
    spec fn accepted(&self) -> bool {
        regex_compile_failure(self@) is None
    }

    /// Accepts `raw` if it compiles as a regular expression, and otherwise
    /// returns the message of the compiler's error.
    pub fn try_from(raw: String) -> (outcome: Result<Pattern, String>)
        ensures
            match outcome {
                Ok(pattern) => regex_compile_failure(raw@) is None && pattern@ == raw@,
                Err(message) => regex_compile_failure(raw@) == Some(message@),
            },
    {
        match check_regex(raw.as_str()) {
            Ok(_) => Ok(Pattern { raw }),
            Err(message) => Err(message),
        }
    }

    /// The expression as it was written.
    pub fn into(self) -> (raw: String)
        ensures
            raw@ == self@,
            regex_compile_failure(self@) is None,
    {
        proof {
            use_type_invariant(&self);
        }
        self.raw
    }

    /// Whether the expression matches somewhere in `url`.
    pub fn is_match(&self, url: &str) -> (answer: bool)
        ensures
            answer == regex_matches(self@, url@),
    {
        proof {
            use_type_invariant(self);
        }
        match regex_match_text(self.raw.as_str(), url) {
            Some(answer) => answer,
            None => false,
        }
    }
}

/// A profile and the expressions whose URLs go to it.
#[derive(Debug, Clone)]
pub struct ProfilePatterns {
    pub profile: String,
    pub patterns: Vec<Pattern>,
}

/// The view of a [`ProfilePatterns`].
pub struct ProfilePatternsView {
    pub profile: Seq<char>,
    pub patterns: Seq<Seq<char>>,
}

/// The views of a sequence of expressions.
pub open spec fn pattern_views(patterns: Seq<Pattern>) -> Seq<Seq<char>> {
    Seq::new(patterns.len(), |i: int| patterns[i]@)
}

impl View for ProfilePatterns {
    type V = ProfilePatternsView;

    open spec fn view(&self) -> ProfilePatternsView {
        ProfilePatternsView { profile: self.profile@, patterns: pattern_views(self.patterns@) }
    }
}

/// The selectors of a user, in the order in which they are tried. Its view is
/// the sequence of their views.
#[derive(Debug, Clone)]
pub struct Configuration {
    pub profile_selection: Vec<ProfilePatterns>,
}

/// The views of a sequence of selectors.
pub open spec fn selector_views(selectors: Seq<ProfilePatterns>) -> Seq<ProfilePatternsView> {
    Seq::new(selectors.len(), |i: int| selectors[i]@)
}

impl View for Configuration {
    type V = Seq<ProfilePatternsView>;

    open spec fn view(&self) -> Seq<ProfilePatternsView> {
        selector_views(self.profile_selection@)
    }
}

/// For each expression of each selector, whether it matches `url`.
pub open spec fn pattern_answers(selectors: Seq<ProfilePatternsView>, url: Seq<char>) -> Seq<
    Seq<bool>,
> {
    Seq::new(
        selectors.len(),
        |i: int|
            Seq::new(
                selectors[i].patterns.len(),
                |j: int| regex_matches(selectors[i].patterns[j], url),
            ),
    )
}

/// The views of a sequence of vectors.
pub open spec fn answer_views(matches: Seq<Vec<bool>>) -> Seq<Seq<bool>> {
    Seq::new(matches.len(), |i: int| matches[i]@)
}

/// The predicate "`matches` records an expression of selector `i` as
/// matching".
pub open spec fn is_hit(matches: Seq<Seq<bool>>) -> spec_fn(int) -> bool {
    |i: int| 0 <= i < matches.len() && matches[i].contains(true)
}

/// The profile for a URL of which `matches` records, selector by selector and
/// expression by expression, whether the expression matches it: that of the
/// first selector with an expression that matches.
pub open spec fn chosen_for_matches(selectors: Seq<ProfilePatternsView>, matches: Seq<Seq<bool>>) -> Option<
    Seq<char>,
> {
    match first_from(is_hit(matches), 0, selectors.len() as int) {
        Some(i) => Some(selectors[i].profile),
        None => None,
    }
}

/// The profile for `url`: that of the first selector one of whose expressions
/// matches `url`.
pub open spec fn chosen_profile(selectors: Seq<ProfilePatternsView>, url: Seq<char>) -> Option<
    Seq<char>,
> {
    chosen_for_matches(selectors, pattern_answers(selectors, url))
}

/// Asks each of `patterns` whether it matches `url`.
fn ask_patterns(patterns: &Vec<Pattern>, url: &str) -> (answers: Vec<bool>)
    ensures
        answers@ == Seq::new(
            patterns@.len(),
            |j: int| regex_matches(pattern_views(patterns@)[j], url@),
        ),
{
    let ghost expected = Seq::new(
        patterns@.len(),
        |j: int| regex_matches(pattern_views(patterns@)[j], url@),
    );
    let n: usize = patterns.len();
    let mut answers: Vec<bool> = Vec::new();
    let mut j: usize = 0;
    while j < n
        invariant
            j <= n,
            n == patterns@.len(),
            expected == Seq::new(
                patterns@.len(),
                |j: int| regex_matches(pattern_views(patterns@)[j], url@),
            ),
            answers@ == expected.take(j as int),
        decreases n - j,
    {
        let answer = patterns[j].is_match(url);
        answers.push(answer);
        assert(answers@ =~= expected.take(j + 1));
        j = j + 1;
    }
    assert(expected.take(n as int) =~= expected);
    answers
}

/// Whether `answers` holds a `true`.
fn any_true(answers: &Vec<bool>) -> (found: bool)
    ensures
        found == answers@.contains(true),
{
    let n: usize = answers.len();
    let mut j: usize = 0;
    while j < n
        invariant
            j <= n,
            n == answers@.len(),
            forall|k: int| 0 <= k < j ==> !answers@[k],
        decreases n - j,
    {
        if answers[j] {
            return true;
        }
        j = j + 1;
    }
    false
}

impl Configuration {
    /// The configuration without selectors.
    pub fn empty() -> (config: Configuration)
        ensures
            config@ == Seq::<ProfilePatternsView>::empty(),
    {
        let config = Configuration { profile_selection: Vec::new() };
        assert(config@ =~= Seq::<ProfilePatternsView>::empty());
        config
    }

    /// Asks each expression of each selector whether it matches `url`.
    pub fn pattern_matches(&self, url: &str) -> (matches: Vec<Vec<bool>>)
        ensures
            answer_views(matches@) == pattern_answers(self@, url@),
    {
        let n: usize = self.profile_selection.len();
        let mut matches: Vec<Vec<bool>> = Vec::new();
        let mut i: usize = 0;
        while i < n
            invariant
                i <= n,
                n == self.profile_selection@.len(),
                answer_views(matches@) == pattern_answers(self@, url@).take(i as int),
            decreases n - i,
        {
            let selector = &self.profile_selection[i];
            assert(self@[i as int] == selector@);
            let ghost before = answer_views(matches@);
            let answers = ask_patterns(&selector.patterns, url);
            assert(answers@ =~= pattern_answers(self@, url@)[i as int]);
            matches.push(answers);
            assert(answer_views(matches@) =~= before.push(answers@));
            assert(pattern_answers(self@, url@).take(i + 1) =~= pattern_answers(self@, url@).take(
                i as int,
            ).push(answers@));
            i = i + 1;
        }
        assert(pattern_answers(self@, url@).take(n as int) =~= pattern_answers(self@, url@));
        matches
    }

    /// Finds the profile for a URL of which `matches` records, selector by
    /// selector and expression by expression, whether the expression matches
    /// it. A selector without a record does not match.
    pub fn choose_for_matches<'a>(&'a self, matches: &Vec<Vec<bool>>) -> (profile: Option<
        &'a String,
    >)
        ensures
            view_of(profile) == chosen_for_matches(self@, answer_views(matches@)),
    {
        let n: usize = self.profile_selection.len();
        let mut i: usize = 0;
        while i < n
            invariant
                i <= n,
                n == self.profile_selection@.len(),
                first_from(is_hit(answer_views(matches@)), 0, n as int) == first_from(
                    is_hit(answer_views(matches@)),
                    i as int,
                    n as int,
                ),
            decreases n - i,
        {
            if i < matches.len() && any_true(&matches[i]) {
                let selector = &self.profile_selection[i];
                assert(self@[i as int] == selector@);
                return Some(&selector.profile);
            }
            i = i + 1;
        }
        None
    }

    /// Finds the profile for `url`.
    pub fn choose_profile(&self, url: &str) -> (profile: Option<&String>)
        ensures
            view_of(profile) == chosen_profile(self@, url@),
    {
        let matches = self.pattern_matches(url);
        self.choose_for_matches(&matches)
    }
}

/// A configuration whose selectors name placeholders, and the hosted domain
/// that each placeholder stands for.
#[derive(Debug)]
pub struct Template {
    pub profiles: OrderedMap<String>,
    pub configuration: Configuration,
}

/// A placeholder of a template could not be replaced by a profile.
#[derive(Debug, Clone)]
pub struct MissingProfileMappingError {
    pub profile: String,
}

/// The predicate "entry `i` holds `value`".
pub open spec fn has_value(entries: Seq<(Seq<char>, Seq<char>)>, value: Seq<char>) -> spec_fn(
    int,
) -> bool {
    |i: int| entries[i].1 == value
}

/// The key of the first entry that holds `value`.
pub open spec fn key_of(entries: Seq<(Seq<char>, Seq<char>)>, value: Seq<char>) -> Option<
    Seq<char>,
> {
    match first_from(has_value(entries, value), 0, entries.len() as int) {
        Some(i) => Some(entries[i].0),
        None => None,
    }
}

/// The profile that replaces `placeholder`: the first profile that
/// `domain_profile_mapping` files with the hosted domain that the template
/// gives for the placeholder.
pub open spec fn replacement(
    template_profiles: Seq<(Seq<char>, Seq<char>)>,
    domain_profile_mapping: Seq<(Seq<char>, Seq<char>)>,
    placeholder: Seq<char>,
) -> Option<Seq<char>> {
    match lookup(template_profiles, placeholder) {
        Some(hosted_domain) => key_of(domain_profile_mapping, hosted_domain),
        None => None,
    }
}

/// The predicate "the placeholder of selector `i` has no replacement".
pub open spec fn is_unmapped(
    selectors: Seq<ProfilePatternsView>,
    template_profiles: Seq<(Seq<char>, Seq<char>)>,
    domain_profile_mapping: Seq<(Seq<char>, Seq<char>)>,
) -> spec_fn(int) -> bool {
    |i: int| replacement(template_profiles, domain_profile_mapping, selectors[i].profile) is None
}

/// The selectors with each placeholder replaced.
pub open spec fn replaced(
    selectors: Seq<ProfilePatternsView>,
    template_profiles: Seq<(Seq<char>, Seq<char>)>,
    domain_profile_mapping: Seq<(Seq<char>, Seq<char>)>,
) -> Seq<ProfilePatternsView> {
    Seq::new(
        selectors.len(),
        |i: int|
            ProfilePatternsView {
                profile: replacement(
                    template_profiles,
                    domain_profile_mapping,
                    selectors[i].profile,
                )->0,
                patterns: selectors[i].patterns,
            },
    )
}

/// The configuration generated from a template: its selectors with each
/// placeholder replaced, unless a placeholder has no replacement; then the
/// first such placeholder.
pub open spec fn generated(
    selectors: Seq<ProfilePatternsView>,
    template_profiles: Seq<(Seq<char>, Seq<char>)>,
    domain_profile_mapping: Seq<(Seq<char>, Seq<char>)>,
) -> Result<Seq<ProfilePatternsView>, Seq<char>> {
    match first_from(
        is_unmapped(selectors, template_profiles, domain_profile_mapping),
        0,
        selectors.len() as int,
    ) {
        Some(i) => Err(selectors[i].profile),
        None => Ok(replaced(selectors, template_profiles, domain_profile_mapping)),
    }
}

/// The view of what generating a configuration gives.
pub open spec fn generated_view(
    outcome: Result<Configuration, MissingProfileMappingError>,
) -> Result<Seq<ProfilePatternsView>, Seq<char>> {
    match outcome {
        Ok(config) => Ok(config@),
        Err(error) => Err(error.profile@),
    }
}

/// The key of the first entry of `entries` that holds `value`.
fn find_key<'a>(entries: &'a OrderedMap<String>, value: &String) -> (key: Option<&'a String>)
    ensures
        view_of(key) == key_of(entries@, value@),
{
    let n: usize = entries.len();
    let mut i: usize = 0;
    while i < n
        invariant
            i <= n,
            n == entries@.len(),
            first_from(has_value(entries@, value@), 0, n as int) == first_from(
                has_value(entries@, value@),
                i as int,
                n as int,
            ),
        decreases n - i,
    {
        if *entries.value_at(i) == *value {
            return Some(entries.key_at(i));
        }
        i = i + 1;
    }
    None
}

/// The profile that replaces `placeholder`.
fn find_replacement<'a>(
    template_profiles: &OrderedMap<String>,
    domain_profile_mapping: &'a OrderedMap<String>,
    placeholder: &String,
) -> (profile: Option<&'a String>)
    ensures
        view_of(profile) == replacement(
            template_profiles@,
            domain_profile_mapping@,
            placeholder@,
        ),
{
    match template_profiles.get(placeholder.as_str()) {
        Some(hosted_domain) => find_key(domain_profile_mapping, hosted_domain),
        None => None,
    }
}

/// Generates a configuration from `template`: in each selector the
/// placeholder is replaced by the first profile that `domain_profile_mapping`
/// files with the placeholder's hosted domain. A placeholder without a hosted
/// domain, or with one that no profile is filed with, is an error.
pub fn generate_config(template: Template, domain_profile_mapping: &OrderedMap<String>) -> (outcome:
    Result<Configuration, MissingProfileMappingError>)
    ensures
        generated_view(outcome) == generated(
            template.configuration@,
            template.profiles@,
            domain_profile_mapping@,
        ),
{
    let ghost selectors = template.configuration@;
    let ghost unmapped = is_unmapped(selectors, template.profiles@, domain_profile_mapping@);
    let Template { profiles, configuration } = template;
    let mut remaining: Vec<ProfilePatterns> = configuration.profile_selection;
    let n: usize = remaining.len();
    let mut done: Vec<ProfilePatterns> = Vec::new();
    let mut i: usize = 0;
    while i < n
        invariant
            i <= n,
            n == selectors.len(),
            selectors == template.configuration@,
            profiles@ == template.profiles@,
            unmapped == is_unmapped(selectors, profiles@, domain_profile_mapping@),
            remaining@.len() == n - i,
            forall|j: int| 0 <= j < n - i ==> (#[trigger] remaining@[j])@ == selectors[i + j],
            first_from(unmapped, 0, n as int) == first_from(unmapped, i as int, n as int),
            selector_views(done@) == replaced(
                selectors,
                profiles@,
                domain_profile_mapping@,
            ).take(i as int),
        decreases n - i,
    {
        let ghost before = selector_views(done@);
        assert(remaining@[0]@ == selectors[i + 0]);
        let ghost rest = remaining@;
        let selector = remaining.remove(0);
        assert forall|j: int| 0 <= j < n - (i + 1) implies (#[trigger] remaining@[j])@
            == selectors[i + 1 + j] by {
            assert(remaining@[j] == rest[j + 1]);
        }
        let ProfilePatterns { profile, patterns } = selector;
        match find_replacement(&profiles, domain_profile_mapping, &profile) {
            Some(replacement) => {
                let mapped = ProfilePatterns { profile: replacement.clone(), patterns };
                done.push(mapped);
                assert(selector_views(done@) =~= before.push(mapped@));
                assert(replaced(selectors, profiles@, domain_profile_mapping@).take(i + 1)
                    =~= replaced(selectors, profiles@, domain_profile_mapping@).take(
                    i as int,
                ).push(mapped@));
            },
            None => {
                return Err(MissingProfileMappingError { profile });
            },
        }
        i = i + 1;
    }
    proof {
        assert(replaced(selectors, profiles@, domain_profile_mapping@).take(n as int)
            =~= replaced(selectors, profiles@, domain_profile_mapping@));
    }
    Ok(Configuration { profile_selection: done })
}

} // verus!
