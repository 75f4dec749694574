use bichrome::config::{Browser, ChromeProfile, Configuration, EdgeProfile, Error};
use bichrome::ordered_map::OrderedMap;
use bichrome::url_pattern::{Pattern, ValidUrl};

fn rules(sources: &[(&str, &str)]) -> Vec<(String, String)> {
    sources
        .iter()
        .map(|(profile, pattern)| (profile.to_string(), pattern.to_string()))
        .collect()
}

fn by_domain(domain: &str) -> Browser {
    Browser::Chrome(ChromeProfile::ByHostedDomain {
        hosted_domain: domain.to_string(),
    })
}

fn by_name(name: &str) -> Browser {
    Browser::Chrome(ChromeProfile::ByName {
        name: name.to_string(),
    })
}

fn configuration(
    default_profile: Option<&str>,
    browsers: Vec<(&str, Browser)>,
    sources: &[(&str, &str)],
) -> Configuration {
    let mut profiles = OrderedMap::new();
    for (name, browser) in browsers {
        profiles.insert(name.to_string(), browser);
    }
    Configuration::new(
        default_profile.map(|name| name.to_string()),
        profiles,
        &rules(sources),
    )
    .expect("the patterns compile")
}

fn work_configuration() -> Configuration {
    configuration(
        None,
        vec![("work", by_domain("corp.example.com"))],
        &[("work", "*://*.corp.example.com/*")],
    )
}

#[test]
fn url_parsing_accepts_absolute_urls() {
    let url = ValidUrl::parse("https://mail.corp.example.com/inbox").expect("a URL");
    assert_eq!(url.as_str(), "https://mail.corp.example.com/inbox");
    assert!(ValidUrl::parse("file:///tmp/page.html").is_ok());
}

#[test]
fn url_parsing_rejects_text_that_is_no_url() {
    assert_eq!(
        ValidUrl::parse("not a url").err(),
        Some(url::ParseError::RelativeUrlWithoutBase)
    );
    assert_eq!(
        ValidUrl::parse("https://").err(),
        Some(url::ParseError::EmptyHost)
    );
    assert_eq!(
        ValidUrl::parse("https://example.com:99999/").err(),
        Some(url::ParseError::InvalidPort)
    );
}

#[test]
fn pattern_keeps_the_text_it_was_written_as() {
    let pattern = Pattern::compile("https://Example.com/Path*").expect("a pattern");
    assert_eq!(pattern.as_str(), "https://Example.com/Path*");
    assert_eq!(pattern.clone().as_str(), "https://Example.com/Path*");
}

#[test]
fn pattern_matches_scheme_host_and_path() {
    let url = |text: &str| ValidUrl::parse(text).expect("a URL");
    let pattern = Pattern::compile("*://google.com/foo*bar").expect("a pattern");
    assert!(!pattern.is_match(&url("http://google.com/")));
    assert!(pattern.is_match(&url("https://google.com/foo/baz/bar")));
    assert!(pattern.is_match(&url("https://google.com/foo_bar")));
    assert!(!pattern.is_match(&url("https://mail.google.com/foo_bar")));
    assert!(!pattern.is_match(&url("ftp://google.com/foo_bar")));
}

#[test]
fn pattern_may_leave_out_scheme_and_path() {
    let url = |text: &str| ValidUrl::parse(text).expect("a URL");
    let pattern = Pattern::compile("*.google.com").expect("a pattern");
    assert!(pattern.is_match(&url("http://google.com/")));
    assert!(pattern.is_match(&url("https://google.com/foo_bar")));
    assert!(pattern.is_match(&url("https://mail.google.com/something_else")));
    assert!(!pattern.is_match(&url("https://notgoogle.com/")));
    let everything = Pattern::compile("<all_urls>").expect("a pattern");
    assert!(everything.is_match(&url("file:///tmp/page.html")));
}

#[test]
fn pattern_matching_works_on_the_parsed_url() {
    let url = |text: &str| ValidUrl::parse(text).expect("a URL");
    let pattern = Pattern::compile("https://example.com/").expect("a pattern");
    assert!(pattern.is_match(&url("https://example.com")));
    assert!(pattern.is_match(&url("https://EXAMPLE.com/")));
    assert!(pattern.is_match(&url("HTTPS://example.com:443/")));
}

#[test]
fn pattern_that_compiles_too_large_is_rejected() {
    let mut source = String::from("example.com/");
    for _ in 0..400_000 {
        source.push_str("*a");
    }
    let message = Pattern::compile(&source).err().expect("too large to compile");
    assert!(message.starts_with("failed to compile regex"));
}

#[test]
fn matching_rule_with_hosted_domain_is_chosen() {
    let config = work_configuration();
    let browser = config
        .choose_browser("https://mail.corp.example.com/inbox")
        .expect("a browser");
    match browser {
        Browser::Chrome(ChromeProfile::ByHostedDomain { hosted_domain }) => {
            assert_eq!(hosted_domain, "corp.example.com")
        }
        other => panic!("unexpected browser {:?}", other),
    }
}

#[test]
fn no_rule_and_no_default_gives_chrome_without_profile() {
    let config = work_configuration();
    let browser = config
        .choose_browser("https://news.ycombinator.com")
        .expect("a browser");
    assert!(matches!(
        browser,
        Browser::Chrome(ChromeProfile::NoProfile {})
    ));
}

#[test]
fn rule_naming_undeclared_profile_is_an_error() {
    let config = configuration(None, vec![], &[("work", "*://*.corp.example.com/*")]);
    for url in [
        "https://mail.corp.example.com/inbox",
        "http://corp.example.com/",
        "https://a.b.corp.example.com/x?y=z",
    ] {
        match config.choose_browser(url) {
            Err(Error::MissingProfile(name)) => assert_eq!(name, "work"),
            other => panic!("unexpected outcome {:?}", other),
        }
    }
    assert!(matches!(
        config.choose_browser("https://example.org/"),
        Ok(Browser::Chrome(ChromeProfile::NoProfile {}))
    ));
}

#[test]
fn text_that_is_no_url_is_refused_whatever_the_configuration() {
    let configs = vec![
        Configuration::empty(),
        work_configuration(),
        configuration(
            Some("home"),
            vec![("home", Browser::Firefox)],
            &[("home", "<all_urls>")],
        ),
    ];
    for config in configs {
        match config.choose_browser("not a url") {
            Err(Error::InvalidUrlPassedIn(text, cause)) => {
                assert_eq!(text, "not a url");
                assert_eq!(cause, url::ParseError::RelativeUrlWithoutBase);
            }
            other => panic!("unexpected outcome {:?}", other),
        }
    }
}

#[test]
fn first_matching_rule_wins_over_later_more_specific_rule() {
    let config = configuration(
        None,
        vec![("general", Browser::Firefox), ("specific", Browser::Safari)],
        &[
            ("general", "*://*.example.com/*"),
            ("specific", "https://mail.example.com/inbox"),
        ],
    );
    assert!(matches!(
        config.choose_browser("https://mail.example.com/inbox"),
        Ok(Browser::Firefox)
    ));
    let swapped = configuration(
        None,
        vec![("general", Browser::Firefox), ("specific", Browser::Safari)],
        &[
            ("specific", "https://mail.example.com/inbox"),
            ("general", "*://*.example.com/*"),
        ],
    );
    assert!(matches!(
        swapped.choose_browser("https://mail.example.com/inbox"),
        Ok(Browser::Safari)
    ));
    assert!(matches!(
        swapped.choose_browser("https://mail.example.com/other"),
        Ok(Browser::Firefox)
    ));
}

#[test]
fn empty_configuration_always_gives_chrome_without_profile() {
    let config = Configuration::empty();
    assert!(config.default_profile.is_none());
    assert_eq!(config.profiles.len(), 0);
    assert!(config.profile_selection.is_empty());
    for url in [
        "https://example.com/",
        "http://localhost:8080/path?query#fragment",
        "file:///tmp/page.html",
        "mailto:someone@example.com",
    ] {
        assert!(matches!(
            config.choose_browser(url),
            Ok(Browser::Chrome(ChromeProfile::NoProfile {}))
        ));
    }
}

#[test]
fn default_is_taken_when_no_rule_matches() {
    let config = configuration(
        Some("home"),
        vec![("home", by_name("Personal")), ("work", Browser::Firefox)],
        &[("work", "*://*.corp.example.com/*")],
    );
    match config.choose_browser("https://news.ycombinator.com") {
        Ok(Browser::Chrome(ChromeProfile::ByName { name })) => assert_eq!(name, "Personal"),
        other => panic!("unexpected outcome {:?}", other),
    }
    match config.get_profile("home") {
        Ok(Browser::Chrome(ChromeProfile::ByName { name })) => assert_eq!(name, "Personal"),
        other => panic!("unexpected outcome {:?}", other),
    }
    let without_rules = configuration(Some("home"), vec![("home", by_name("Personal"))], &[]);
    match without_rules.choose_browser("https://news.ycombinator.com") {
        Ok(Browser::Chrome(ChromeProfile::ByName { name })) => assert_eq!(name, "Personal"),
        other => panic!("unexpected outcome {:?}", other),
    }
}

#[test]
fn undeclared_default_is_an_error() {
    let config = configuration(Some("home"), vec![("work", Browser::Firefox)], &[]);
    match config.choose_browser("https://example.com/") {
        Err(Error::MissingProfile(name)) => assert_eq!(name, "home"),
        other => panic!("unexpected outcome {:?}", other),
    }
}

#[test]
fn missing_profile_does_not_fall_through_to_later_rule_or_default() {
    let config = configuration(
        Some("home"),
        vec![("home", Browser::Firefox), ("other", Browser::Safari)],
        &[("work", "*://*.example.com/*"), ("other", "<all_urls>")],
    );
    match config.choose_browser("https://www.example.com/") {
        Err(Error::MissingProfile(name)) => assert_eq!(name, "work"),
        other => panic!("unexpected outcome {:?}", other),
    }
    assert!(matches!(
        config.choose_browser("https://www.example.org/"),
        Ok(Browser::Safari)
    ));
}

#[test]
fn declared_browsers_are_found_by_name() {
    let config = configuration(
        None,
        vec![
            ("a", Browser::Firefox),
            ("b", Browser::OsDefault),
            (
                "c",
                Browser::Edge(EdgeProfile::ByName {
                    name: "Profile 1".to_string(),
                }),
            ),
        ],
        &[],
    );
    assert!(matches!(config.get_profile("a"), Ok(Browser::Firefox)));
    assert!(matches!(config.get_profile("b"), Ok(Browser::OsDefault)));
    assert!(matches!(
        config.get_profile("c"),
        Ok(Browser::Edge(EdgeProfile::ByName { .. }))
    ));
    match config.get_profile("d") {
        Err(Error::MissingProfile(name)) => assert_eq!(name, "d"),
        other => panic!("unexpected outcome {:?}", other),
    }
}

#[test]
fn configuration_with_pattern_that_does_not_compile_is_malformed() {
    let mut too_large = String::from("example.com/");
    for _ in 0..400_000 {
        too_large.push_str("*a");
    }
    let sources = vec![
        ("work".to_string(), "*://*.corp.example.com/*".to_string()),
        ("home".to_string(), too_large),
    ];
    match Configuration::new(None, OrderedMap::new(), &sources) {
        Err(Error::InvalidJson(message)) => {
            assert!(message.starts_with("failed to compile regex"))
        }
        other => panic!("unexpected outcome {:?}", other),
    }
}

#[test]
fn malformed_configuration_is_replaced_by_the_empty_one() {
    let cause = serde_json::from_str::<serde_json::Value>("{ \"profiles\": ")
        .expect_err("malformed");
    let loaded = Err(Error::InvalidJson(cause.to_string()));
    let config = Configuration::loaded_or_empty(loaded);
    assert!(config.default_profile.is_none());
    assert_eq!(config.profiles.len(), 0);
    assert!(config.profile_selection.is_empty());
    assert!(matches!(
        config.choose_browser("https://mail.corp.example.com/inbox"),
        Ok(Browser::Chrome(ChromeProfile::NoProfile {}))
    ));
    let unreadable = Err(Error::InvalidFile("No such file or directory".to_string()));
    let config = Configuration::loaded_or_empty(unreadable);
    assert!(matches!(
        config.choose_browser("https://example.com/"),
        Ok(Browser::Chrome(ChromeProfile::NoProfile {}))
    ));
}

#[test]
fn loaded_configuration_is_kept() {
    let config = Configuration::loaded_or_empty(Ok(work_configuration()));
    assert_eq!(config.profile_selection.len(), 1);
    assert!(matches!(
        config.choose_browser("https://mail.corp.example.com/inbox"),
        Ok(Browser::Chrome(ChromeProfile::ByHostedDomain { .. }))
    ));
}

#[test]
fn configuration_written_out_and_loaded_again_chooses_the_same() {
    let browsers = || {
        vec![
            ("work", by_domain("corp.example.com")),
            ("home", Browser::Firefox),
        ]
    };
    let config = configuration(
        Some("home"),
        browsers(),
        &[
            ("work", "https://*.corp.example.com/private/*"),
            ("missing", "HTTP://intranet/"),
            ("home", "*.example.org"),
        ],
    );
    let sources = config.rule_sources();
    assert_eq!(
        sources,
        rules(&[
            ("work", "https://*.corp.example.com/private/*"),
            ("missing", "HTTP://intranet/"),
            ("home", "*.example.org"),
        ])
    );
    let mut profiles = OrderedMap::new();
    for (name, browser) in browsers() {
        profiles.insert(name.to_string(), browser);
    }
    let reloaded = Configuration::new(config.default_profile.clone(), profiles, &sources)
        .expect("the patterns compile");
    for url in [
        "https://mail.corp.example.com/private/inbox",
        "http://mail.corp.example.com/private/inbox",
        "http://intranet/",
        "https://intranet/",
        "https://www.example.org/",
        "https://news.ycombinator.com",
        "not a url",
    ] {
        let before = format!("{:?}", config.choose_browser(url));
        let after = format!("{:?}", reloaded.choose_browser(url));
        assert_eq!(before, after);
    }
}

#[test]
fn rules_answer_one_by_one() {
    let config = configuration(
        None,
        vec![],
        &[
            ("a", "*://*.example.com/*"),
            ("b", "https://mail.example.com/inbox"),
            ("c", "*.example.org"),
            ("d", "<all_urls>"),
        ],
    );
    let url = |text: &str| ValidUrl::parse(text).expect("a URL");
    assert_eq!(
        config.rule_matches(&url("https://mail.example.com/inbox")),
        vec![true, true, false, true]
    );
    assert_eq!(
        config.rule_matches(&url("http://www.example.org/")),
        vec![false, false, true, true]
    );
    assert_eq!(
        config.rule_matches(&url("file:///tmp/page.html")),
        vec![false, false, false, true]
    );
    assert_eq!(
        Configuration::empty().rule_matches(&url("https://example.com/")),
        Vec::<bool>::new()
    );
}

#[test]
fn first_recorded_match_decides() {
    let config = configuration(
        Some("fallback"),
        vec![
            ("first", Browser::Firefox),
            ("second", Browser::Safari),
            ("fallback", Browser::OsDefault),
        ],
        &[
            ("first", "*.example.com"),
            ("second", "*.example.org"),
            ("third", "*.example.net"),
        ],
    );
    assert!(matches!(
        config.choose_for_matches(&vec![true, true, true]),
        Ok(Browser::Firefox)
    ));
    assert!(matches!(
        config.choose_for_matches(&vec![false, true, true]),
        Ok(Browser::Safari)
    ));
    match config.choose_for_matches(&vec![false, false, true]) {
        Err(Error::MissingProfile(name)) => assert_eq!(name, "third"),
        other => panic!("unexpected outcome {:?}", other),
    }
    assert!(matches!(
        config.choose_for_matches(&vec![false, false, false]),
        Ok(Browser::OsDefault)
    ));
}

#[test]
fn rules_without_a_record_do_not_match() {
    let config = configuration(
        None,
        vec![("first", Browser::Firefox), ("second", Browser::Safari)],
        &[("first", "*.example.com"), ("second", "*.example.org")],
    );
    assert!(matches!(
        config.choose_for_matches(&vec![]),
        Ok(Browser::Chrome(ChromeProfile::NoProfile {}))
    ));
    assert!(matches!(
        config.choose_for_matches(&vec![false]),
        Ok(Browser::Chrome(ChromeProfile::NoProfile {}))
    ));
    assert!(matches!(
        config.choose_for_matches(&vec![false, true, true]),
        Ok(Browser::Safari)
    ));
    assert!(matches!(
        config.choose_for_matches(&vec![false, false, true]),
        Ok(Browser::Chrome(ChromeProfile::NoProfile {}))
    ));
}

#[test]
fn each_url_has_an_outcome_of_its_own() {
    let config = configuration(
        None,
        vec![("home", Browser::Firefox)],
        &[("home", "*.example.org"), ("work", "*.example.com")],
    );
    let urls = vec![
        "not a url".to_string(),
        "https://www.example.org/".to_string(),
        "https://www.example.com/".to_string(),
        "https://www.example.net/".to_string(),
    ];
    let outcomes = config.choose_browsers(&urls);
    assert_eq!(outcomes.len(), 4);
    assert!(matches!(outcomes[0], Err(Error::InvalidUrlPassedIn(..))));
    assert!(matches!(outcomes[1], Ok(Browser::Firefox)));
    assert!(matches!(outcomes[2], Err(Error::MissingProfile(_))));
    assert!(matches!(
        outcomes[3],
        Ok(Browser::Chrome(ChromeProfile::NoProfile {}))
    ));
    assert!(config.choose_browsers(&vec![]).is_empty());
}

#[test]
fn rules_are_compiled_one_by_one() {
    let mut too_large = String::from("example.com/");
    for _ in 0..400_000 {
        too_large.push_str("*a");
    }
    let sources = vec![
        ("work".to_string(), "*://*.corp.example.com/*".to_string()),
        ("home".to_string(), too_large),
        ("play".to_string(), "*".to_string()),
    ];
    let outcomes = Configuration::compile_rules(&sources);
    assert_eq!(outcomes.len(), 3);
    assert_eq!(outcomes[0].0, "work");
    assert_eq!(
        outcomes[0].1.as_ref().map(|pattern| pattern.as_str()).ok(),
        Some("*://*.corp.example.com/*")
    );
    assert_eq!(outcomes[1].0, "home");
    assert!(outcomes[1].1.is_err());
    assert_eq!(outcomes[2].0, "play");
    assert_eq!(
        outcomes[2].1.as_ref().map(|pattern| pattern.as_str()).ok(),
        Some("*")
    );
}

#[test]
fn first_rejected_pattern_makes_the_rules_malformed() {
    let accepted = |text: &str| Pattern::compile(text).expect("a pattern");
    let outcomes = vec![
        ("a".to_string(), Ok(accepted("*.example.com"))),
        ("b".to_string(), Err("first message".to_string())),
        ("c".to_string(), Err("second message".to_string())),
    ];
    match Configuration::assemble_rules(&outcomes) {
        Err(Error::InvalidJson(message)) => assert_eq!(message, "first message"),
        other => panic!("unexpected outcome {:?}", other),
    }
    let outcomes = vec![
        ("a".to_string(), Ok(accepted("*.example.com"))),
        ("b".to_string(), Ok(accepted("<all_urls>"))),
    ];
    let rules = Configuration::assemble_rules(&outcomes).expect("rules");
    let written: Vec<(&str, &str)> = rules
        .iter()
        .map(|rule| (rule.profile.as_str(), rule.pattern.as_str()))
        .collect();
    assert_eq!(written, vec![("a", "*.example.com"), ("b", "<all_urls>")]);
    assert!(Configuration::assemble_rules(&vec![])
        .expect("rules")
        .is_empty());
}
