use bichrome::chrome_local_state::{ChromeProfile, Error, LocalState, ProfilesData};
use bichrome::config::{self, Browser, Configuration, EdgeProfile};
use bichrome::launch::{handle_url, BrowserKind};
use bichrome::ordered_map::OrderedMap;

fn corporate_directory() -> ProfilesData {
    let mut info_cache = OrderedMap::new();
    info_cache.insert(
        "Default".to_string(),
        ChromeProfile {
            hosted_domain: Some("NO_HOSTED_DOMAIN".to_string()),
            name: Some("Person 1".to_string()),
            shortcut_name: None,
        },
    );
    info_cache.insert(
        "Profile 2".to_string(),
        ChromeProfile {
            hosted_domain: Some("corp.example.com".to_string()),
            name: Some("Work".to_string()),
            shortcut_name: None,
        },
    );
    ProfilesData { info_cache }
}

fn work_configuration() -> Configuration {
    let mut profiles = OrderedMap::new();
    profiles.insert(
        "work".to_string(),
        Browser::Chrome(config::ChromeProfile::ByHostedDomain {
            hosted_domain: "corp.example.com".to_string(),
        }),
    );
    let sources = vec![("work".to_string(), "*://*.corp.example.com/*".to_string())];
    Configuration::new(None, profiles, &sources).expect("the pattern compiles")
}

#[test]
fn url_of_the_hosted_domain_opens_its_profile() {
    let directive = handle_url(
        &work_configuration(),
        "https://mail.corp.example.com/inbox",
        LocalState::Loaded(corporate_directory()),
    )
    .expect("a launch directive");
    assert_eq!(directive.browser, BrowserKind::Chrome);
    assert_eq!(
        directive.arguments,
        vec![
            "--profile-directory=Profile 2",
            "https://mail.corp.example.com/inbox"
        ]
    );
}

#[test]
fn url_that_no_rule_matches_opens_chrome_without_profile() {
    let directive = handle_url(
        &work_configuration(),
        "https://news.ycombinator.com",
        LocalState::Loaded(corporate_directory()),
    )
    .expect("a launch directive");
    assert_eq!(directive.browser, BrowserKind::Chrome);
    assert_eq!(directive.arguments, vec!["https://news.ycombinator.com"]);
    let directive = handle_url(
        &work_configuration(),
        "https://news.ycombinator.com",
        LocalState::NotLocated,
    )
        .expect("a launch directive");
    assert_eq!(directive.browser, BrowserKind::Chrome);
    assert_eq!(directive.arguments, vec!["https://news.ycombinator.com"]);
}

#[test]
fn hosted_domain_missing_from_the_directory_is_an_error() {
    let mut info_cache = OrderedMap::new();
    info_cache.insert(
        "Default".to_string(),
        ChromeProfile {
            hosted_domain: Some("other.example.com".to_string()),
            name: None,
            shortcut_name: None,
        },
    );
    let outcome = handle_url(
        &work_configuration(),
        "https://mail.corp.example.com/inbox",
        LocalState::Loaded(ProfilesData { info_cache }),
    );
    match outcome {
        Err(config::Error::InvalidHostedDomain(domain)) => {
            assert_eq!(domain, "corp.example.com")
        }
        other => panic!("unexpected outcome {:?}", other),
    }
}

#[test]
fn failures_of_one_url_leave_the_next_alone() {
    let config = work_configuration();
    let outcomes: Vec<_> = [
        "not a url",
        "https://mail.corp.example.com/inbox",
        "https://example.org/",
    ]
    .iter()
    .map(|url| handle_url(&config, url, LocalState::NotLocated))
    .collect();
    assert!(matches!(
        outcomes[0],
        Err(config::Error::InvalidUrlPassedIn(..))
    ));
    assert!(matches!(
        outcomes[1],
        Err(config::Error::CantLocateChromeLocalState)
    ));
    assert!(matches!(outcomes[2], Ok(_)));
}

#[test]
fn unreadable_directory_is_reported_with_its_cause() {
    let outcome = handle_url(
        &work_configuration(),
        "https://mail.corp.example.com/inbox",
        LocalState::NotLoaded(Error::InvalidJson("expected value".to_string())),
    );
    match outcome {
        Err(config::Error::CantParseChromeLocalState(Error::InvalidJson(message))) => {
            assert_eq!(message, "expected value")
        }
        other => panic!("unexpected outcome {:?}", other),
    }
}

#[test]
fn browsers_without_profiles_get_the_url_alone() {
    for (browser, kind) in [
        (Browser::Firefox, BrowserKind::Firefox),
        (Browser::Safari, BrowserKind::Safari),
        (Browser::OsDefault, BrowserKind::OsDefault),
    ] {
        assert_eq!(browser.kind(), kind);
        assert!(!browser.needs_local_state());
        assert!(matches!(browser.get_argument(LocalState::NotLocated), Ok(None)));
        let directive = browser
            .launch_directive(LocalState::Loaded(corporate_directory()), "https://example.com/")
            .expect("a launch directive");
        assert_eq!(directive.browser, kind);
        assert_eq!(directive.arguments, vec!["https://example.com/"]);
    }
}

#[test]
fn edge_gets_its_profile_before_the_url() {
    let browser = Browser::Edge(EdgeProfile::ByName {
        name: "Profile 1".to_string(),
    });
    assert_eq!(browser.kind(), BrowserKind::Edge);
    assert!(!browser.needs_local_state());
    let directive = browser
        .launch_directive(LocalState::NotLocated, "https://example.com/")
        .expect("a launch directive");
    assert_eq!(
        directive.arguments,
        vec!["--profile-directory=Profile 1", "https://example.com/"]
    );
    let plain = Browser::Edge(EdgeProfile::NoProfile {});
    let directive = plain
        .launch_directive(LocalState::NotLocated, "https://example.com/")
        .expect("a launch directive");
    assert_eq!(directive.browser, BrowserKind::Edge);
    assert_eq!(directive.arguments, vec!["https://example.com/"]);
}

#[test]
fn chrome_by_name_needs_the_directory() {
    let browser = Browser::Chrome(config::ChromeProfile::ByName {
        name: "Work".to_string(),
    });
    assert_eq!(browser.kind(), BrowserKind::Chrome);
    assert!(browser.needs_local_state());
    assert!(!Browser::Chrome(config::ChromeProfile::NoProfile {}).needs_local_state());
    let directive = browser
        .launch_directive(LocalState::Loaded(corporate_directory()), "https://example.com/")
        .expect("a launch directive");
    assert_eq!(
        directive.arguments,
        vec!["--profile-directory=Profile 2", "https://example.com/"]
    );
    assert!(matches!(
        browser.launch_directive(LocalState::NotLocated, "https://example.com/"),
        Err(config::Error::CantLocateChromeLocalState)
    ));
}
