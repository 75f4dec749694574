use bichrome::chrome_local_state::{ChromeProfile, Error, LocalState, ProfilesData};
use bichrome::config;
use bichrome::ordered_map::OrderedMap;

fn entry(hosted_domain: Option<&str>, name: Option<&str>, shortcut_name: Option<&str>) -> ChromeProfile {
    ChromeProfile {
        hosted_domain: hosted_domain.map(|text| text.to_string()),
        name: name.map(|text| text.to_string()),
        shortcut_name: shortcut_name.map(|text| text.to_string()),
    }
}

fn directory(entries: Vec<(&str, ChromeProfile)>) -> ProfilesData {
    let mut info_cache = OrderedMap::new();
    for (id, profile) in entries {
        info_cache.insert(id.to_string(), profile);
    }
    ProfilesData { info_cache }
}

fn sample() -> ProfilesData {
    directory(vec![
        ("Default", entry(Some("NO_HOSTED_DOMAIN"), Some("Person 1"), Some("Home"))),
        ("Profile 1", entry(Some("corp.example.com"), Some("Work"), Some("Default"))),
        ("Profile 2", entry(Some("corp.example.com"), Some("Home"), None)),
        ("Profile 3", entry(None, Some("Profile 1"), Some("Work"))),
    ])
}

fn by_domain(domain: &str) -> config::ChromeProfile {
    config::ChromeProfile::ByHostedDomain {
        hosted_domain: domain.to_string(),
    }
}

fn by_name(name: &str) -> config::ChromeProfile {
    config::ChromeProfile::ByName {
        name: name.to_string(),
    }
}

#[test]
fn profiles_of_a_hosted_domain_come_in_directory_order() {
    let profiles = sample();
    assert_eq!(
        profiles.profiles_by_hosted_domain("corp.example.com"),
        vec!["Profile 1", "Profile 2"]
    );
    assert_eq!(
        profiles.profiles_by_hosted_domain("NO_HOSTED_DOMAIN"),
        vec!["Default"]
    );
    assert!(profiles.profiles_by_hosted_domain("example.org").is_empty());
    assert!(profiles.profiles_by_hosted_domain("").is_empty());
    assert!(directory(vec![])
        .profiles_by_hosted_domain("corp.example.com")
        .is_empty());
}

#[test]
fn name_is_first_looked_up_among_identifiers() {
    let profiles = sample();
    assert_eq!(profiles.profile_by_name("Profile 1"), Some("Profile 1"));
    assert_eq!(profiles.profile_by_name("Default"), Some("Default"));
}

#[test]
fn name_is_then_looked_up_among_display_names() {
    let profiles = sample();
    assert_eq!(profiles.profile_by_name("Person 1"), Some("Default"));
    assert_eq!(profiles.profile_by_name("Work"), Some("Profile 1"));
}

#[test]
fn display_name_comes_before_shortcut_name_of_an_earlier_profile() {
    let profiles = sample();
    assert_eq!(profiles.profile_by_name("Home"), Some("Profile 2"));
}

#[test]
fn name_is_last_looked_up_among_shortcut_names() {
    let profiles = directory(vec![
        ("Default", entry(None, Some("Person 1"), Some("Home"))),
        ("Profile 1", entry(None, None, Some("Home"))),
    ]);
    assert_eq!(profiles.profile_by_name("Home"), Some("Default"));
    assert_eq!(profiles.profile_by_name("home"), None);
    assert_eq!(profiles.profile_by_name(""), None);
    assert_eq!(directory(vec![]).profile_by_name("Home"), None);
}

#[test]
fn hosted_domain_stands_for_its_first_profile_every_time() {
    for _ in 0..3 {
        let argument = by_domain("corp.example.com")
            .get_argument(LocalState::Loaded(sample()))
            .expect("a profile");
        assert_eq!(argument.as_deref(), Some("--profile-directory=Profile 1"));
    }
    let reordered = directory(vec![
        ("Profile 2", entry(Some("corp.example.com"), None, None)),
        ("Profile 1", entry(Some("corp.example.com"), None, None)),
    ]);
    let argument = by_domain("corp.example.com")
        .get_argument(LocalState::Loaded(reordered))
        .expect("a profile");
    assert_eq!(argument.as_deref(), Some("--profile-directory=Profile 2"));
}

#[test]
fn hosted_domain_without_profile_is_an_error() {
    match by_domain("example.org").get_argument(LocalState::Loaded(sample())) {
        Err(config::Error::InvalidHostedDomain(domain)) => assert_eq!(domain, "example.org"),
        other => panic!("unexpected outcome {:?}", other),
    }
}

#[test]
fn name_is_resolved_to_an_identifier() {
    let argument = by_name("Work")
        .get_argument(LocalState::Loaded(sample()))
        .expect("a profile");
    assert_eq!(argument.as_deref(), Some("--profile-directory=Profile 1"));
    let argument = by_name("Profile 3")
        .get_argument(LocalState::Loaded(sample()))
        .expect("a profile");
    assert_eq!(argument.as_deref(), Some("--profile-directory=Profile 3"));
}

#[test]
fn name_without_profile_is_an_error() {
    match by_name("Nobody").get_argument(LocalState::Loaded(sample())) {
        Err(config::Error::InvalidProfileName(name)) => assert_eq!(name, "Nobody"),
        other => panic!("unexpected outcome {:?}", other),
    }
}

#[test]
fn directory_that_was_not_located_is_an_error() {
    assert!(matches!(
        by_name("Work").get_argument(LocalState::NotLocated),
        Err(config::Error::CantLocateChromeLocalState)
    ));
    assert!(matches!(
        by_domain("corp.example.com").get_argument(LocalState::NotLocated),
        Err(config::Error::CantLocateChromeLocalState)
    ));
}

#[test]
fn directory_that_was_not_loaded_is_an_error() {
    let unreadable = Error::InvalidFile("permission denied".to_string());
    match by_name("Work").get_argument(LocalState::NotLoaded(unreadable)) {
        Err(config::Error::CantParseChromeLocalState(Error::InvalidFile(message))) => {
            assert_eq!(message, "permission denied")
        }
        other => panic!("unexpected outcome {:?}", other),
    }
    let malformed = Error::InvalidJson("missing field `profile`".to_string());
    match by_domain("corp.example.com").get_argument(LocalState::NotLoaded(malformed)) {
        Err(config::Error::CantParseChromeLocalState(Error::InvalidJson(message))) => {
            assert_eq!(message, "missing field `profile`")
        }
        other => panic!("unexpected outcome {:?}", other),
    }
}

#[test]
fn chrome_without_profile_needs_no_directory() {
    let profile = config::ChromeProfile::NoProfile {};
    assert!(!profile.needs_local_state());
    assert!(by_name("Work").needs_local_state());
    assert!(by_domain("corp.example.com").needs_local_state());
    assert!(matches!(profile.get_argument(LocalState::NotLocated), Ok(None)));
    let unreadable = Error::InvalidFile("permission denied".to_string());
    assert!(matches!(
        profile.get_argument(LocalState::NotLoaded(unreadable)),
        Ok(None)
    ));
    assert!(matches!(profile.get_argument(LocalState::Loaded(sample())), Ok(None)));
}

#[test]
fn edge_profile_is_named_as_written() {
    let profile = config::EdgeProfile::ByName {
        name: "Profile 7".to_string(),
    };
    let argument = profile.get_argument().expect("an argument");
    assert_eq!(argument.as_deref(), Some("--profile-directory=Profile 7"));
    let none = config::EdgeProfile::NoProfile {};
    assert!(matches!(none.get_argument(), Ok(None)));
}

#[test]
fn profile_argument_is_the_switch_and_the_identifier() {
    assert_eq!(
        bichrome::resolution::profile_argument("Profile 2"),
        "--profile-directory=Profile 2"
    );
    assert_eq!(bichrome::resolution::profile_argument(""), "--profile-directory=");
}

#[test]
fn local_state_is_made_of_what_looking_for_the_directory_gave() {
    assert!(matches!(LocalState::new(None), LocalState::NotLocated));
    let unreadable = Error::InvalidFile("permission denied".to_string());
    match LocalState::new(Some(Err(unreadable))) {
        LocalState::NotLoaded(Error::InvalidFile(message)) => {
            assert_eq!(message, "permission denied")
        }
        other => panic!("unexpected local state {:?}", other),
    }
    match LocalState::new(Some(Ok(sample()))) {
        LocalState::Loaded(profiles) => assert_eq!(profiles.info_cache.len(), 4),
        other => panic!("unexpected local state {:?}", other),
    }
}
