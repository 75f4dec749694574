//! How a configuration is made of its written parts, and written out again.

use vstd::prelude::*;
use crate::config::{
    chosen_browser, rule_views, Browser, BrowserView, Configuration, ConfigurationView, Error,
    ErrorView, ProfilePattern, ProfilePatternView,
};
use crate::ordered_map::OrderedMap;
use crate::search::{first_from, lemma_first_from_none};
use crate::text::text_of;
use crate::url_pattern::{compiled, pattern_compile_failure, Pattern};

verus! {

/// The views of rules as they are written: the name of a profile and the
/// text of a pattern each.
pub open spec fn source_views(sources: Seq<(String, String)>) -> Seq<(Seq<char>, Seq<char>)> {
    Seq::new(sources.len(), |i: int| (sources[i].0@, sources[i].1@))
}

/// Rules as they are written.
pub open spec fn sources_of(rules: Seq<ProfilePatternView>) -> Seq<(Seq<char>, Seq<char>)> {
    Seq::new(rules.len(), |i: int| (rules[i].profile, rules[i].pattern))
}

/// The views of rules that have been through the compiler: of each the name
/// of the profile, and the pattern or the message with which it was rejected.
pub open spec fn outcome_views(outcomes: Seq<(String, Result<Pattern, String>)>) -> Seq<
    (Seq<char>, Result<Seq<char>, Seq<char>>),
> {
    Seq::new(
        outcomes.len(),
        |i: int|
            (
                outcomes[i].0@,
                match outcomes[i].1 {
                    Ok(pattern) => Ok(pattern@),
                    Err(message) => Err(message@),
                },
            ),
    )
}

/// What the compiler makes of the rules written as `sources`.
pub open spec fn compile_outcomes(sources: Seq<(Seq<char>, Seq<char>)>) -> Seq<
    (Seq<char>, Result<Seq<char>, Seq<char>>),
> {
    Seq::new(sources.len(), |i: int| (sources[i].0, compiled(sources[i].1)))
}

/// The predicate "the pattern of rule `i` was rejected".
pub open spec fn is_rejected(outcomes: Seq<(Seq<char>, Result<Seq<char>, Seq<char>>)>) -> spec_fn(
    int,
) -> bool {
    |i: int| outcomes[i].1 is Err
}

/// The rules whose patterns were accepted.
pub open spec fn accepted_rules(outcomes: Seq<(Seq<char>, Result<Seq<char>, Seq<char>>)>) -> Seq<
    ProfilePatternView,
> {
    Seq::new(
        outcomes.len(),
        |i: int| ProfilePatternView { profile: outcomes[i].0, pattern: outcomes[i].1->Ok_0 },
    )
}

/// The rules of a configuration, given what the compiler made of each: all of
/// them, unless a pattern was rejected; then the message for the first such
/// pattern, as a malformed configuration.
pub open spec fn assembled_rules(outcomes: Seq<(Seq<char>, Result<Seq<char>, Seq<char>>)>) -> Result<
    Seq<ProfilePatternView>,
    ErrorView,
> {
    match first_from(is_rejected(outcomes), 0, outcomes.len() as int) {
        Some(i) => Err(ErrorView::InvalidJson(outcomes[i].1->Err_0)),
        None => Ok(accepted_rules(outcomes)),
    }
}

/// What compiling the rules written as `sources` gives.
pub open spec fn compiled_rules(sources: Seq<(Seq<char>, Seq<char>)>) -> Result<
    Seq<ProfilePatternView>,
    ErrorView,
> {
    assembled_rules(compile_outcomes(sources))
}

/// The view of what assembling rules gives.
pub open spec fn rules_view(outcome: Result<Vec<ProfilePattern>, Error>) -> Result<
    Seq<ProfilePatternView>,
    ErrorView,
> {
    match outcome {
        Ok(rules) => Ok(rule_views(rules@)),
        Err(error) => Err(error@),
    }
}

/// What loading a configuration from its written parts gives.
pub open spec fn loaded(
    default_profile: Option<Seq<char>>,
    profiles: Seq<(Seq<char>, BrowserView)>,
    sources: Seq<(Seq<char>, Seq<char>)>,
) -> Result<ConfigurationView, ErrorView> {
    match compiled_rules(sources) {
        Ok(rules) => Ok(ConfigurationView { default_profile, profiles, profile_selection: rules }),
        Err(error) => Err(error),
    }
}

/// The view of what loading a configuration gives.
pub open spec fn loaded_view(outcome: Result<Configuration, Error>) -> Result<
    ConfigurationView,
    ErrorView,
> {
    match outcome {
        Ok(config) => Ok(config@),
        Err(error) => Err(error@),
    }
}

impl Configuration {
    /// Hands each pattern of the rules written as `sources` to the compiler.
    pub fn compile_rules(sources: &Vec<(String, String)>) -> (outcomes: Vec<
        (String, Result<Pattern, String>),
    >)
        ensures
            outcome_views(outcomes@) == compile_outcomes(source_views(sources@)),
    {
        let ghost expected = compile_outcomes(source_views(sources@));
        let n: usize = sources.len();
        let mut outcomes: Vec<(String, Result<Pattern, String>)> = Vec::new();
        let mut i: usize = 0;
        while i < n
            invariant
                i <= n,
                n == sources@.len(),
                expected == compile_outcomes(source_views(sources@)),
                outcome_views(outcomes@) == expected.take(i as int),
            decreases n - i,
        {
            let source = &sources[i];
            let ghost before = outcome_views(outcomes@);
            assert(source_views(sources@)[i as int] == (source.0@, source.1@));
            let outcome = (source.0.clone(), Pattern::compile(source.1.as_str()));
            outcomes.push(outcome);
            assert(outcome_views(outcomes@) =~= before.push(expected[i as int]));
            assert(expected.take(i + 1) =~= expected.take(i as int).push(expected[i as int]));
            i = i + 1;
        }
        assert(expected.take(n as int) =~= expected);
        outcomes
    }

    /// Makes the rules of a configuration of what the compiler made of each.
    /// The first pattern that was rejected makes the whole configuration
    /// malformed.
    pub fn assemble_rules(outcomes: &Vec<(String, Result<Pattern, String>)>) -> (outcome: Result<
        Vec<ProfilePattern>,
        Error,
    >)
        ensures
            rules_view(outcome) == assembled_rules(outcome_views(outcomes@)),
    {
        let ghost given = outcome_views(outcomes@);
        let n: usize = outcomes.len();
        let mut rules: Vec<ProfilePattern> = Vec::new();
        let mut i: usize = 0;
        while i < n
            invariant
                i <= n,
                n == outcomes@.len(),
                given == outcome_views(outcomes@),
                first_from(is_rejected(given), 0, n as int) == first_from(
                    is_rejected(given),
                    i as int,
                    n as int,
                ),
                rule_views(rules@) == accepted_rules(given).take(i as int),
            decreases n - i,
        {
            let ghost before = rule_views(rules@);
            match &outcomes[i].1 {
                Ok(pattern) => {
                    let rule = ProfilePattern {
                        profile: outcomes[i].0.clone(),
                        pattern: pattern.clone(),
                    };
                    rules.push(rule);
                    assert(rule_views(rules@) =~= before.push(rule@));
                    assert(accepted_rules(given).take(i + 1) =~= accepted_rules(given).take(
                        i as int,
                    ).push(rule@));
                },
                Err(message) => {
                    return Err(Error::InvalidJson(message.clone()));
                },
            }
            i = i + 1;
        }
        assert(accepted_rules(given).take(n as int) =~= accepted_rules(given));
        Ok(rules)
    }

    /// Loads a configuration from its written parts: the default, the
    /// declared browsers, and the rules, each written as the name of a profile
    /// and the text of a pattern. Every pattern must compile; the first that
    /// does not makes the whole configuration malformed.
    pub fn new(
        default_profile: Option<String>,
        profiles: OrderedMap<Browser>,
        sources: &Vec<(String, String)>,
    ) -> (outcome: Result<Configuration, Error>)
        ensures
            loaded_view(outcome) == loaded(
                text_of(default_profile),
                profiles@,
                source_views(sources@),
            ),
    {
        let outcomes = Configuration::compile_rules(sources);
        match Configuration::assemble_rules(&outcomes) {
            Ok(rules) => Ok(Configuration { default_profile, profiles, profile_selection: rules }),
            Err(error) => Err(error),
        }
    }

    /// The rules as they are written, for writing the configuration out: of
    /// each rule the name of the profile and the text of the pattern. Each of
    /// the patterns compiles.
    pub fn rule_sources(&self) -> (sources: Vec<(String, String)>)
        ensures
            source_views(sources@) == sources_of(self@.profile_selection),
            forall|i: int|
                0 <= i < sources@.len() ==> pattern_compile_failure(
                    #[trigger] source_views(sources@)[i].1,
                ) is None,
    {
        let n: usize = self.profile_selection.len();
        let mut sources: Vec<(String, String)> = Vec::new();
        let mut i: usize = 0;
        while i < n
            invariant
                i <= n,
                n == self.profile_selection@.len(),
                source_views(sources@) == sources_of(self@.profile_selection).take(i as int),
                forall|j: int|
                    0 <= j < sources@.len() ==> pattern_compile_failure(
                        #[trigger] source_views(sources@)[j].1,
                    ) is None,
            decreases n - i,
        {
            let rule = &self.profile_selection[i];
            let ghost before = source_views(sources@);
            assert(self@.profile_selection[i as int] == rule@);
            let source = (rule.profile.clone(), rule.pattern.as_str().to_owned());
            sources.push(source);
            assert(source_views(sources@) =~= before.push((rule@.profile, rule@.pattern)));
            assert(sources_of(self@.profile_selection).take(i + 1) =~= sources_of(
                self@.profile_selection,
            ).take(i as int).push((rule@.profile, rule@.pattern)));
            i = i + 1;
        }
        assert(sources_of(self@.profile_selection).take(n as int) =~= sources_of(
            self@.profile_selection,
        ));
        sources
    }
}

/// A configuration that is written out and loaded again is the same
/// configuration, so that every URL goes where it went before.
pub proof fn lemma_written_configuration_loads_unchanged(config: ConfigurationView, url: Seq<char>)
    requires
        forall|i: int|
            0 <= i < config.profile_selection.len() ==> pattern_compile_failure(
                #[trigger] config.profile_selection[i].pattern,
            ) is None,
    ensures
        loaded(config.default_profile, config.profiles, sources_of(config.profile_selection))
            == Ok::<ConfigurationView, ErrorView>(config),
        chosen_browser(
            loaded(
                config.default_profile,
                config.profiles,
                sources_of(config.profile_selection),
            )->Ok_0,
            url,
        ) == chosen_browser(config, url),
{
    let sources = sources_of(config.profile_selection);
    let outcomes = compile_outcomes(sources);
    let holds = is_rejected(outcomes);
    assert forall|j: int| 0 <= j < outcomes.len() implies !#[trigger] holds(j) by {
        assert(sources[j].1 == config.profile_selection[j].pattern);
    }
    lemma_first_from_none(holds, 0, outcomes.len() as int);
    assert(accepted_rules(outcomes) =~= config.profile_selection);
}

} // verus!
