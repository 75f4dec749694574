//! The rules a user writes, and how a URL is matched against them.

use vstd::prelude::*;
use crate::chrome_local_state;
use crate::ordered_map::{lookup, OrderedMap};
use crate::search::{first_from, lemma_first_from_is, lemma_first_from_none};
use crate::text::text_of;
use crate::url_pattern::{pattern_matches, url_parse_failure, Pattern, ValidUrl};

verus! {

/// Why a URL could not be routed.
#[derive(Debug)]
pub enum Error {
    /// The configuration could not be read; holds the message of the failure.
    InvalidFile(String),
    /// The configuration is malformed; holds the message of the failure.
    InvalidJson(String),
    /// A rule or the default names a profile that is not declared.
    MissingProfile(String),
    /// The browser's profile directory could not be located.
    CantLocateChromeLocalState,
    /// The browser's profile directory could not be loaded.
    CantParseChromeLocalState(chrome_local_state::Error),
    /// No profile of the directory belongs to this hosted domain.
    InvalidHostedDomain(String),
    /// No profile of the directory goes by this name.
    InvalidProfileName(String),
    /// This text is not a URL.
    InvalidUrlPassedIn(String, url::ParseError),
}

/// The view of an [`Error`].
pub enum ErrorView {
    InvalidFile(Seq<char>),
    InvalidJson(Seq<char>),
    MissingProfile(Seq<char>),
    CantLocateChromeLocalState,
    CantParseChromeLocalState(chrome_local_state::ErrorView),
    InvalidHostedDomain(Seq<char>),
    InvalidProfileName(Seq<char>),
    InvalidUrlPassedIn(Seq<char>, url::ParseError),
}

impl View for Error {
    type V = ErrorView;

    open spec fn view(&self) -> ErrorView {
        match self {
            Error::InvalidFile(message) => ErrorView::InvalidFile(message@),
            Error::InvalidJson(message) => ErrorView::InvalidJson(message@),
            Error::MissingProfile(name) => ErrorView::MissingProfile(name@),
            Error::CantLocateChromeLocalState => ErrorView::CantLocateChromeLocalState,
            Error::CantParseChromeLocalState(cause) => ErrorView::CantParseChromeLocalState(cause@),
            Error::InvalidHostedDomain(domain) => ErrorView::InvalidHostedDomain(domain@),
            Error::InvalidProfileName(name) => ErrorView::InvalidProfileName(name@),
            Error::InvalidUrlPassedIn(text, cause) => ErrorView::InvalidUrlPassedIn(text@, *cause),
        }
    }
}

/// How a rule refers to a Chrome profile.
#[derive(Debug)]
pub enum ChromeProfile {
    /// By identifier, display name or shortcut name.
    ByName { name: String },
    /// By the hosted domain of the account signed in to it.
    ByHostedDomain { hosted_domain: String },
    /// Chrome is started without naming a profile.
    NoProfile {},
}

/// The view of a [`ChromeProfile`].
pub enum ChromeProfileView {
    ByName { name: Seq<char> },
    ByHostedDomain { hosted_domain: Seq<char> },
    NoProfile,
}

impl View for ChromeProfile {
    type V = ChromeProfileView;

    open spec fn view(&self) -> ChromeProfileView {
        match self {
            ChromeProfile::ByName { name } => ChromeProfileView::ByName { name: name@ },
            ChromeProfile::ByHostedDomain { hosted_domain } => ChromeProfileView::ByHostedDomain {
                hosted_domain: hosted_domain@,
            },
            ChromeProfile::NoProfile {  } => ChromeProfileView::NoProfile,
        }
    }
}

impl Clone for ChromeProfile {
    fn clone(&self) -> (copy: Self)
        ensures
            copy == *self,
    {
        match self {
            ChromeProfile::ByName { name } => ChromeProfile::ByName { name: name.clone() },
            ChromeProfile::ByHostedDomain { hosted_domain } => ChromeProfile::ByHostedDomain {
                hosted_domain: hosted_domain.clone(),
            },
            ChromeProfile::NoProfile {  } => ChromeProfile::NoProfile {  },
        }
    }
}

/// How a rule refers to an Edge profile.
#[derive(Debug)]
pub enum EdgeProfile {
    /// By the identifier of the profile.
    ByName { name: String },
    /// Edge is started without naming a profile.
    NoProfile {},
}

/// The view of an [`EdgeProfile`].
pub enum EdgeProfileView {
    ByName { name: Seq<char> },
    NoProfile,
}

impl View for EdgeProfile {
    type V = EdgeProfileView;

    open spec fn view(&self) -> EdgeProfileView {
        match self {
            EdgeProfile::ByName { name } => EdgeProfileView::ByName { name: name@ },
            EdgeProfile::NoProfile {  } => EdgeProfileView::NoProfile,
        }
    }
}

impl Clone for EdgeProfile {
    fn clone(&self) -> (copy: Self)
        ensures
            copy == *self,
    {
        match self {
            EdgeProfile::ByName { name } => EdgeProfile::ByName { name: name.clone() },
            EdgeProfile::NoProfile {  } => EdgeProfile::NoProfile {  },
        }
    }
}

/// A browser that a URL can be sent to.
#[derive(Debug)]
pub enum Browser {
    Chrome(ChromeProfile),
    Firefox,
    OsDefault,
    Edge(EdgeProfile),
    Safari,
}

/// The view of a [`Browser`].
pub enum BrowserView {
    Chrome(ChromeProfileView),
    Firefox,
    OsDefault,
    Edge(EdgeProfileView),
    Safari,
}

impl View for Browser {
    type V = BrowserView;

    open spec fn view(&self) -> BrowserView {
        match self {
            Browser::Chrome(profile) => BrowserView::Chrome(profile@),
            Browser::Firefox => BrowserView::Firefox,
            Browser::OsDefault => BrowserView::OsDefault,
            Browser::Edge(profile) => BrowserView::Edge(profile@),
            Browser::Safari => BrowserView::Safari,
        }
    }
}

impl Clone for Browser {
    fn clone(&self) -> (copy: Self)
        ensures
            copy == *self,
    {
        match self {
            Browser::Chrome(profile) => Browser::Chrome(profile.clone()),
            Browser::Firefox => Browser::Firefox,
            Browser::OsDefault => Browser::OsDefault,
            Browser::Edge(profile) => Browser::Edge(profile.clone()),
            Browser::Safari => Browser::Safari,
        }
    }
}

/// A rule: URLs that match `pattern` go to the browser declared as `profile`.
#[derive(Debug, Clone)]
pub struct ProfilePattern {
    pub profile: String,
    pub pattern: Pattern,
}

/// The view of a [`ProfilePattern`]: the name of the profile and the text of
/// the pattern.
pub struct ProfilePatternView {
    pub profile: Seq<char>,
    pub pattern: Seq<char>,
}

impl View for ProfilePattern {
    type V = ProfilePatternView;

    open spec fn view(&self) -> ProfilePatternView {
        ProfilePatternView { profile: self.profile@, pattern: self.pattern@ }
    }
}

/// The rules of a user: the browsers declared under a name each, the rules in
/// the order in which they are tried, and the name of the browser for URLs
/// that no rule matches.
#[derive(Debug)]
pub struct Configuration {
    pub default_profile: Option<String>,
    pub profiles: OrderedMap<Browser>,
    pub profile_selection: Vec<ProfilePattern>,
}

/// The view of a [`Configuration`].
pub struct ConfigurationView {
    pub default_profile: Option<Seq<char>>,
    pub profiles: Seq<(Seq<char>, BrowserView)>,
    pub profile_selection: Seq<ProfilePatternView>,
}

/// The views of a sequence of rules.
pub open spec fn rule_views(rules: Seq<ProfilePattern>) -> Seq<ProfilePatternView> {
    Seq::new(rules.len(), |i: int| rules[i]@)
}

impl View for Configuration {
    type V = ConfigurationView;

    open spec fn view(&self) -> ConfigurationView {
        ConfigurationView {
            default_profile: text_of(self.default_profile),
            profiles: self.profiles@,
            profile_selection: rule_views(self.profile_selection@),
        }
    }
}

/// The view of what selecting a browser gives.
pub open spec fn choice_view(outcome: Result<Browser, Error>) -> Result<BrowserView, ErrorView> {
    match outcome {
        Ok(browser) => Ok(browser@),
        Err(error) => Err(error@),
    }
}

/// The view of what looking up a declared browser gives.
pub open spec fn declared_view(outcome: Result<&Browser, Error>) -> Result<BrowserView, ErrorView> {
    match outcome {
        Ok(browser) => Ok(browser@),
        Err(error) => Err(error@),
    }
}

/// For each rule, whether its pattern matches `url`.
pub open spec fn rule_answers(rules: Seq<ProfilePatternView>, url: Seq<char>) -> Seq<bool> {
    Seq::new(rules.len(), |i: int| pattern_matches(rules[i].pattern, url))
}

/// The predicate "`matches` records rule `i` as matching".
pub open spec fn is_marked(matches: Seq<bool>) -> spec_fn(int) -> bool {
    |i: int| 0 <= i < matches.len() && matches[i]
}

/// The position of the first rule that `matches` records as matching.
pub open spec fn first_marked_rule(rules: Seq<ProfilePatternView>, matches: Seq<bool>) -> Option<
    int,
> {
    first_from(is_marked(matches), 0, rules.len() as int)
}

/// The browser declared as `name`; `MissingProfile` where none is.
pub open spec fn declared_browser(profiles: Seq<(Seq<char>, BrowserView)>, name: Seq<char>) -> Result<
    BrowserView,
    ErrorView,
> {
    match lookup(profiles, name) {
        Some(browser) => Ok(browser),
        None => Err(ErrorView::MissingProfile(name)),
    }
}

/// The browser for URLs that no rule matches: the one declared as the
/// default, or Chrome without a profile where there is no default.
pub open spec fn fallback_browser(config: ConfigurationView) -> Result<BrowserView, ErrorView> {
    match config.default_profile {
        Some(name) => declared_browser(config.profiles, name),
        None => Ok(BrowserView::Chrome(ChromeProfileView::NoProfile)),
    }
}

/// The browser for a URL of which `matches` records, rule by rule, whether
/// the rule matches it: the first rule that matches decides, and the browser
/// it names must be declared; where no rule matches, the fallback is taken.
pub open spec fn chosen_for_matches(config: ConfigurationView, matches: Seq<bool>) -> Result<
    BrowserView,
    ErrorView,
> {
    match first_marked_rule(config.profile_selection, matches) {
        Some(i) => declared_browser(config.profiles, config.profile_selection[i].profile),
        None => fallback_browser(config),
    }
}

/// The browser for `url`. Text that is not a URL is refused; a URL goes
/// where the rules that match it send it.
pub open spec fn chosen_browser(config: ConfigurationView, url: Seq<char>) -> Result<
    BrowserView,
    ErrorView,
> {
    match url_parse_failure(url) {
        Some(cause) => Err(ErrorView::InvalidUrlPassedIn(url, cause)),
        None => chosen_for_matches(config, rule_answers(config.profile_selection, url)),
    }
}

/// The configuration without rules, declared browsers or default.
pub open spec fn empty_configuration() -> ConfigurationView {
    ConfigurationView {
        default_profile: None,
        profiles: Seq::empty(),
        profile_selection: Seq::empty(),
    }
}

impl Configuration {
    /// The configuration without rules, declared browsers or default.
    pub fn empty() -> (config: Configuration)
        ensures
            config@ == empty_configuration(),
    {
        let config = Configuration {
            default_profile: None,
            profiles: OrderedMap::new(),
            profile_selection: Vec::new(),
        };
        assert(rule_views(config.profile_selection@) =~= Seq::empty());
        config
    }

    /// The configuration to go on with after loading: the one that was
    /// loaded, or the empty one where loading failed.
    pub fn loaded_or_empty(loaded: Result<Configuration, Error>) -> (config: Configuration)
        ensures
            match loaded {
                Ok(loaded) => config == loaded,
                Err(_) => config@ == empty_configuration(),
            },
    {
        match loaded {
            Ok(config) => config,
            Err(_) => Configuration::empty(),
        }
    }

    /// The browser declared as `profile_name`.
    pub fn get_profile(&self, profile_name: &str) -> (outcome: Result<&Browser, Error>)
        ensures
            declared_view(outcome) == declared_browser(self@.profiles, profile_name@),
    {
        match self.profiles.get(profile_name) {
            Some(browser) => Ok(browser),
            None => Err(Error::MissingProfile(profile_name.to_owned())),
        }
    }

    /// Asks each rule whether its pattern matches `url`.
    pub fn rule_matches(&self, url: &ValidUrl) -> (matches: Vec<bool>)
        ensures
            matches@ == rule_answers(self@.profile_selection, url@),
    {
        let n: usize = self.profile_selection.len();
        let mut matches: Vec<bool> = Vec::new();
        let mut i: usize = 0;
        while i < n
            invariant
                i <= n,
                n == self.profile_selection@.len(),
                matches@ == rule_answers(self@.profile_selection, url@).take(i as int),
            decreases n - i,
        {
            let rule = &self.profile_selection[i];
            assert(self@.profile_selection[i as int] == rule@);
            let ghost before = matches@;
            let answer = rule.pattern.is_match(url);
            matches.push(answer);
            assert(matches@ =~= rule_answers(self@.profile_selection, url@).take(i + 1));
            i = i + 1;
        }
        assert(matches@ =~= rule_answers(self@.profile_selection, url@));
        matches
    }

    /// Finds the browser for a URL of which `matches` records, rule by rule,
    /// whether the rule matches it. A rule without a record does not match.
    pub fn choose_for_matches(&self, matches: &Vec<bool>) -> (outcome: Result<Browser, Error>)
        ensures
            choice_view(outcome) == chosen_for_matches(self@, matches@),
    {
        let n: usize = self.profile_selection.len();
        let mut i: usize = 0;
        while i < n
            invariant
                i <= n,
                n == self.profile_selection@.len(),
                first_marked_rule(self@.profile_selection, matches@) == first_from(
                    is_marked(matches@),
                    i as int,
                    n as int,
                ),
            decreases n - i,
        {
            if i < matches.len() && matches[i] {
                let rule = &self.profile_selection[i];
                assert(self@.profile_selection[i as int] == rule@);
                return match self.get_profile(rule.profile.as_str()) {
                    Ok(browser) => Ok(browser.clone()),
                    Err(error) => Err(error),
                };
            }
            i = i + 1;
        }
        match &self.default_profile {
            Some(name) => match self.get_profile(name.as_str()) {
                Ok(browser) => Ok(browser.clone()),
                Err(error) => Err(error),
            },
            None => Ok(Browser::Chrome(ChromeProfile::NoProfile {  })),
        }
    }

    /// Finds the browser for `url`.
    pub fn choose_browser(&self, url: &str) -> (outcome: Result<Browser, Error>)
        ensures
            choice_view(outcome) == chosen_browser(self@, url@),
    {
        match ValidUrl::parse(url) {
            Ok(target) => {
                let matches = self.rule_matches(&target);
                self.choose_for_matches(&matches)
            },
            Err(cause) => Err(Error::InvalidUrlPassedIn(url.to_owned(), cause)),
        }
    }

    /// Finds the browser for each of `urls`. Each URL has an outcome of its
    /// own: the failure of one does not touch the others.
    pub fn choose_browsers(&self, urls: &Vec<String>) -> (outcomes: Vec<Result<Browser, Error>>)
        ensures
            outcomes@.len() == urls@.len(),
            forall|i: int|
                0 <= i < urls@.len() ==> choice_view(#[trigger] outcomes@[i]) == chosen_browser(
                    self@,
                    urls@[i]@,
                ),
    {
        let n: usize = urls.len();
        let mut outcomes: Vec<Result<Browser, Error>> = Vec::new();
        let mut i: usize = 0;
        while i < n
            invariant
                i <= n,
                n == urls@.len(),
                outcomes@.len() == i,
                forall|j: int|
                    0 <= j < i ==> choice_view(#[trigger] outcomes@[j]) == chosen_browser(
                        self@,
                        urls@[j]@,
                    ),
            decreases n - i,
        {
            let outcome = self.choose_browser(urls[i].as_str());
            outcomes.push(outcome);
            i = i + 1;
        }
        outcomes
    }
}

/// The first rule that is recorded as matching decides, whatever rules follow
/// it: where rule `i` is so recorded and no rule before it is, the browser is
/// the one that rule `i` names.
pub proof fn lemma_first_marked_rule_decides(config: ConfigurationView, matches: Seq<bool>, i: int)
    requires
        0 <= i < config.profile_selection.len(),
        i < matches.len(),
        matches[i],
        forall|j: int| 0 <= j < i ==> !matches[j],
    ensures
        first_marked_rule(config.profile_selection, matches) == Some(i),
        chosen_for_matches(config, matches) == declared_browser(
            config.profiles,
            config.profile_selection[i].profile,
        ),
{
    let holds = is_marked(matches);
    assert forall|j: int| 0 <= j < i implies !#[trigger] holds(j) by {}
    lemma_first_from_is(holds, 0, config.profile_selection.len() as int, i);
}

/// Where no rule is recorded as matching, the fallback is taken, whatever the
/// rules are.
pub proof fn lemma_fallback_without_marked_rule(config: ConfigurationView, matches: Seq<bool>)
    requires
        forall|j: int| 0 <= j < matches.len() ==> !matches[j],
    ensures
        chosen_for_matches(config, matches) == fallback_browser(config),
{
    let holds = is_marked(matches);
    assert forall|j: int| 0 <= j < config.profile_selection.len() implies !#[trigger] holds(j) by {}
    lemma_first_from_none(holds, 0, config.profile_selection.len() as int);
}

/// The first rule that matches decides, whatever rules follow it: where rule
/// `i` matches `url` and no rule before it does, `url` goes to the browser
/// that rule `i` names.
pub proof fn lemma_first_matching_rule_wins(config: ConfigurationView, url: Seq<char>, i: int)
    requires
        url_parse_failure(url) is None,
        0 <= i < config.profile_selection.len(),
        pattern_matches(config.profile_selection[i].pattern, url),
        forall|j: int| 0 <= j < i ==> !pattern_matches(config.profile_selection[j].pattern, url),
    ensures
        chosen_browser(config, url) == declared_browser(
            config.profiles,
            config.profile_selection[i].profile,
        ),
{
    lemma_first_marked_rule_decides(config, rule_answers(config.profile_selection, url), i);
}

/// With the empty configuration every URL goes to Chrome without a profile.
pub proof fn lemma_empty_configuration_chooses_chrome(url: Seq<char>)
    requires
        url_parse_failure(url) is None,
    ensures
        chosen_browser(empty_configuration(), url) == Ok::<BrowserView, ErrorView>(
            BrowserView::Chrome(ChromeProfileView::NoProfile),
        ),
{
}

/// Where no rule matches `url` and a default is set, `url` goes to the
/// browser that the default names, whatever the rules are.
pub proof fn lemma_default_when_no_rule_matches(
    config: ConfigurationView,
    url: Seq<char>,
    name: Seq<char>,
)
    requires
        url_parse_failure(url) is None,
        config.default_profile == Some(name),
        forall|j: int|
            0 <= j < config.profile_selection.len() ==> !pattern_matches(
                config.profile_selection[j].pattern,
                url,
            ),
    ensures
        chosen_browser(config, url) == declared_browser(config.profiles, name),
{
    lemma_fallback_without_marked_rule(config, rule_answers(config.profile_selection, url));
}

/// Where no rule matches `url` and no default is set, `url` goes to Chrome
/// without a profile, whatever the rules are.
pub proof fn lemma_chrome_when_nothing_applies(config: ConfigurationView, url: Seq<char>)
    requires
        url_parse_failure(url) is None,
        config.default_profile is None,
        forall|j: int|
            0 <= j < config.profile_selection.len() ==> !pattern_matches(
                config.profile_selection[j].pattern,
                url,
            ),
    ensures
        chosen_browser(config, url) == Ok::<BrowserView, ErrorView>(
            BrowserView::Chrome(ChromeProfileView::NoProfile),
        ),
{
    lemma_fallback_without_marked_rule(config, rule_answers(config.profile_selection, url));
}

/// A rule that matches but names an undeclared profile ends the selection
/// with `MissingProfile`: neither a later rule nor the default is tried.
pub proof fn lemma_missing_profile_is_fatal(config: ConfigurationView, url: Seq<char>, i: int)
    requires
        url_parse_failure(url) is None,
        0 <= i < config.profile_selection.len(),
        pattern_matches(config.profile_selection[i].pattern, url),
        forall|j: int| 0 <= j < i ==> !pattern_matches(config.profile_selection[j].pattern, url),
        lookup(config.profiles, config.profile_selection[i].profile) is None,
    ensures
        chosen_browser(config, url) == Err::<BrowserView, ErrorView>(
            ErrorView::MissingProfile(config.profile_selection[i].profile),
        ),
{
    lemma_first_matching_rule_wins(config, url, i);
}

/// Text that is not a URL is refused whatever the configuration holds.
pub proof fn lemma_invalid_url_is_refused(config: ConfigurationView, url: Seq<char>)
    requires
        url_parse_failure(url) is Some,
    ensures
        chosen_browser(config, url) == Err::<BrowserView, ErrorView>(
            ErrorView::InvalidUrlPassedIn(url, url_parse_failure(url)->0),
        ),
{
}

} // verus!
