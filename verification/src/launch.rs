//! What is handed to the program that starts the browser: which browser, and
//! with which arguments.

use vstd::prelude::*;
use crate::chrome_local_state::{LocalState, LocalStateView};
use crate::config::{
    chosen_browser, Browser, BrowserView, Configuration, ConfigurationView, Error, ErrorView,
};
use crate::resolution::{argument_view, chrome_argument, edge_argument, profile_switch};
use crate::text::{string_views, text_of};

verus! {

/// The program that a URL is opened with.
#[derive(Debug, Clone, Copy, PartialEq, Eq, Structural)]
pub enum BrowserKind {
    Chrome,
    Firefox,
    OsDefault,
    Edge,
    Safari,
}

/// A browser and the arguments to start it with.
#[derive(Debug)]
pub struct LaunchDirective {
    pub browser: BrowserKind,
    pub arguments: Vec<String>,
}

/// The view of a [`LaunchDirective`].
pub struct LaunchDirectiveView {
    pub browser: BrowserKind,
    pub arguments: Seq<Seq<char>>,
}

impl View for LaunchDirective {
    type V = LaunchDirectiveView;

    open spec fn view(&self) -> LaunchDirectiveView {
        LaunchDirectiveView { browser: self.browser, arguments: string_views(self.arguments@) }
    }
}

/// The view of what building a launch directive gives.
pub open spec fn directive_view(outcome: Result<LaunchDirective, Error>) -> Result<
    LaunchDirectiveView,
    ErrorView,
> {
    match outcome {
        Ok(directive) => Ok(directive@),
        Err(error) => Err(error@),
    }
}

/// The program behind a browser.
pub open spec fn kind_of(browser: BrowserView) -> BrowserKind {
    match browser {
        BrowserView::Chrome(_) => BrowserKind::Chrome,
        BrowserView::Firefox => BrowserKind::Firefox,
        BrowserView::OsDefault => BrowserKind::OsDefault,
        BrowserView::Edge(_) => BrowserKind::Edge,
        BrowserView::Safari => BrowserKind::Safari,
    }
}

/// Whether the profile directory is consulted for a browser: only for Chrome
/// with a profile given by name or by hosted domain.
pub open spec fn consults_directory(browser: BrowserView) -> bool {
    browser matches BrowserView::Chrome(profile) && !(profile is NoProfile)
}

/// The profile argument of a browser: Chrome's and Edge's where they name a
/// profile, none for the browsers that have no profiles.
pub open spec fn browser_argument(
    browser: BrowserView,
    local_state: LocalStateView,
) -> Result<Option<Seq<char>>, ErrorView> {
    match browser {
        BrowserView::Chrome(profile) => chrome_argument(profile, local_state),
        BrowserView::Edge(profile) => Ok(edge_argument(profile)),
        _ => Ok(None),
    }
}

/// The arguments of a launch: the profile argument, if any, and then the URL.
pub open spec fn launch_arguments(argument: Option<Seq<char>>, url: Seq<char>) -> Seq<Seq<char>> {
    match argument {
        Some(argument) => seq![argument, url],
        None => seq![url],
    }
}

/// The launch directive that opens `url` in `browser`.
pub open spec fn directive(
    browser: BrowserView,
    local_state: LocalStateView,
    url: Seq<char>,
) -> Result<LaunchDirectiveView, ErrorView> {
    match browser_argument(browser, local_state) {
        Ok(argument) => Ok(
            LaunchDirectiveView {
                browser: kind_of(browser),
                arguments: launch_arguments(argument, url),
            },
        ),
        Err(error) => Err(error),
    }
}

/// The launch directive for `url` under `config`: that of the browser chosen
/// for it.
pub open spec fn routed(
    config: ConfigurationView,
    local_state: LocalStateView,
    url: Seq<char>,
) -> Result<LaunchDirectiveView, ErrorView> {
    match chosen_browser(config, url) {
        Ok(browser) => directive(browser, local_state, url),
        Err(error) => Err(error),
    }
}

impl Browser {
    /// The program behind the browser.
    pub fn kind(&self) -> (kind: BrowserKind)
        ensures
            kind == kind_of(self@),
    {
        match self {
            Browser::Chrome(_) => BrowserKind::Chrome,
            Browser::Firefox => BrowserKind::Firefox,
            Browser::OsDefault => BrowserKind::OsDefault,
            Browser::Edge(_) => BrowserKind::Edge,
            Browser::Safari => BrowserKind::Safari,
        }
    }

    /// Whether the profile directory has to be loaded before the browser can
    /// be started.
    pub fn needs_local_state(&self) -> (needed: bool)
        ensures
            needed == consults_directory(self@),
    {
        match self {
            Browser::Chrome(profile) => profile.needs_local_state(),
            _ => false,
        }
    }

    /// The profile argument to start the browser with.
    pub fn get_argument(
        &self,
        local_state: LocalState,
    ) -> (outcome: Result<Option<String>, Error>)
        ensures
            argument_view(outcome) == browser_argument(self@, local_state@),
    {
        match self {
            Browser::Chrome(profile) => profile.get_argument(local_state),
            Browser::Edge(profile) => profile.get_argument(),
            _ => Ok(None),
        }
    }

    /// The launch directive that opens `url` in this browser.
    pub fn launch_directive(
        &self,
        local_state: LocalState,
        url: &str,
    ) -> (outcome: Result<LaunchDirective, Error>)
        ensures
            directive_view(outcome) == directive(self@, local_state@, url@),
    {
        let argument = match self.get_argument(local_state) {
            Ok(argument) => argument,
            Err(error) => {
                return Err(error);
            },
        };
        let mut arguments: Vec<String> = Vec::new();
        match argument {
            Some(argument) => {
                arguments.push(argument);
            },
            None => {},
        }
        arguments.push(url.to_owned());
        let directive = LaunchDirective { browser: self.kind(), arguments };
        assert(directive@.arguments =~= launch_arguments(
            text_of(argument),
            url@,
        ));
        Ok(directive)
    }
}

/// Routes `url`: chooses the browser for it under `config` and builds the
/// launch directive.
pub fn handle_url(
    config: &Configuration,
    url: &str,
    local_state: LocalState,
) -> (outcome: Result<LaunchDirective, Error>)
    ensures
        directive_view(outcome) == routed(config@, local_state@, url@),
{
    match config.choose_browser(url) {
        Ok(browser) => browser.launch_directive(local_state, url),
        Err(error) => Err(error),
    }
}

/// In every launch directive the URL is the last argument. A profile
/// argument, where there is one, is the only other argument, comes first and
/// begins with the profile switch; browsers without profiles never get one.
pub proof fn lemma_launch_arguments(
    browser: BrowserView,
    local_state: LocalStateView,
    url: Seq<char>,
)
    requires
        directive(browser, local_state, url) is Ok,
    ensures
        ({
            let arguments = directive(browser, local_state, url)->Ok_0.arguments;
            &&& 1 <= arguments.len() <= 2
            &&& arguments.last() == url
            &&& arguments.len() == 2 ==> arguments[0].len() >= profile_switch().len()
                && arguments[0].take(profile_switch().len() as int) == profile_switch()
            &&& arguments.len() == 2 ==> browser is Chrome || browser is Edge
        }),
{
    match browser_argument(browser, local_state) {
        Ok(Some(argument)) => {
            assert(argument.take(profile_switch().len() as int) =~= profile_switch());
        },
        _ => {},
    }
}

/// Where the browser does not consult the profile directory, its launch
/// directive is the same whatever became of the directory.
pub proof fn lemma_directory_not_consulted(
    browser: BrowserView,
    first: LocalStateView,
    second: LocalStateView,
    url: Seq<char>,
)
    requires
        !consults_directory(browser),
    ensures
        directive(browser, first, url) is Ok,
        directive(browser, first, url) == directive(browser, second, url),
{
}

} // verus!
