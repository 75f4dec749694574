//! How the profile that a rule refers to becomes the argument that makes the
//! browser open it.

use vstd::prelude::*;
use crate::chrome_local_state::{
    id_by_hosted_domain, id_by_name, ids_in_domain, in_domain_at, lemma_first_in_domain,
    DirectoryView, LocalState, LocalStateView, ProfilesData,
};
use crate::config::{ChromeProfile, ChromeProfileView, EdgeProfile, EdgeProfileView, Error, ErrorView};
use crate::search::lemma_first_from_is;
use crate::text::{text_of, texts};

verus! {

/// The switch that tells a browser which profile directory to open.
pub open spec fn profile_switch() -> Seq<char> {
    "--profile-directory="@
}

/// The profile directory, or the error that stands for its absence.
pub open spec fn directory(local_state: LocalStateView) -> Result<DirectoryView, ErrorView> {
    match local_state {
        LocalStateView::NotLocated => Err(ErrorView::CantLocateChromeLocalState),
        LocalStateView::NotLoaded(cause) => Err(ErrorView::CantParseChromeLocalState(cause)),
        LocalStateView::Loaded(entries) => Ok(entries),
    }
}

/// The argument that opens the profile with identifier `id`, if there is one.
pub open spec fn switch_to(id: Option<Seq<char>>, missing: ErrorView) -> Result<
    Option<Seq<char>>,
    ErrorView,
> {
    match id {
        Some(id) => Ok(Some(profile_switch() + id)),
        None => Err(missing),
    }
}

/// The profile argument for Chrome. Without a profile there is none, and the
/// directory is not consulted. A name or a hosted domain is resolved in the
/// directory, which must have been loaded, and must stand for a profile.
pub open spec fn chrome_argument(profile: ChromeProfileView, local_state: LocalStateView) -> Result<
    Option<Seq<char>>,
    ErrorView,
> {
    match profile {
        ChromeProfileView::NoProfile => Ok(None),
        ChromeProfileView::ByName { name } => match directory(local_state) {
            Ok(entries) => switch_to(id_by_name(entries, name), ErrorView::InvalidProfileName(name)),
            Err(error) => Err(error),
        },
        ChromeProfileView::ByHostedDomain { hosted_domain } => match directory(local_state) {
            Ok(entries) => switch_to(
                id_by_hosted_domain(entries, hosted_domain),
                ErrorView::InvalidHostedDomain(hosted_domain),
            ),
            Err(error) => Err(error),
        },
    }
}

/// The profile argument for Edge: the profile is named as it is written.
pub open spec fn edge_argument(profile: EdgeProfileView) -> Option<Seq<char>> {
    match profile {
        EdgeProfileView::ByName { name } => Some(profile_switch() + name),
        EdgeProfileView::NoProfile => None,
    }
}

/// The view of what resolving a profile argument gives.
pub open spec fn argument_view(outcome: Result<Option<String>, Error>) -> Result<
    Option<Seq<char>>,
    ErrorView,
> {
    match outcome {
        Ok(argument) => Ok(text_of(argument)),
        Err(error) => Err(error@),
    }
}

/// Builds the argument that opens the profile with identifier `id`.
pub fn profile_argument(id: &str) -> (argument: String)
    ensures
        argument@ == profile_switch() + id@,
{
    let mut argument = String::from_str("--profile-directory=");
    argument.append(id);
    argument
}

/// Takes the directory out of the local state.
fn loaded_directory(local_state: LocalState) -> (outcome: Result<ProfilesData, Error>)
    ensures
        match outcome {
            Ok(profiles) => directory(local_state@) == Ok::<DirectoryView, ErrorView>(profiles@),
            Err(error) => directory(local_state@) == Err::<DirectoryView, ErrorView>(error@),
        },
{
    match local_state {
        LocalState::NotLocated => Err(Error::CantLocateChromeLocalState),
        LocalState::NotLoaded(cause) => Err(Error::CantParseChromeLocalState(cause)),
        LocalState::Loaded(profiles) => Ok(profiles),
    }
}

impl ChromeProfile {
    /// Whether the reference must be resolved in the profile directory.
    pub fn needs_local_state(&self) -> (needed: bool)
        ensures
            needed == !(self@ is NoProfile),
    {
        match self {
            ChromeProfile::NoProfile {  } => false,
            _ => true,
        }
    }

    /// The argument that makes Chrome open the profile referred to. The
    /// local state is consulted only where a name or a hosted domain has to be
    /// resolved.
    pub fn get_argument(&self, local_state: LocalState) -> (outcome: Result<Option<String>, Error>)
        ensures
            argument_view(outcome) == chrome_argument(self@, local_state@),
    {
        match self {
            ChromeProfile::ByName { name } => {
                let profiles = match loaded_directory(local_state) {
                    Ok(profiles) => profiles,
                    Err(error) => {
                        return Err(error);
                    },
                };
                match profiles.profile_by_name(name.as_str()) {
                    Some(id) => Ok(Some(profile_argument(id))),
                    None => Err(Error::InvalidProfileName(name.clone())),
                }
            },
            ChromeProfile::ByHostedDomain { hosted_domain } => {
                let profiles = match loaded_directory(local_state) {
                    Ok(profiles) => profiles,
                    Err(error) => {
                        return Err(error);
                    },
                };
                let matching_profiles = profiles.profiles_by_hosted_domain(hosted_domain.as_str());
                proof {
                    lemma_first_in_domain(profiles@, hosted_domain@);
                    assert(texts(matching_profiles@).len()
                        == matching_profiles@.len());
                }
                if matching_profiles.len() == 0 {
                    Err(Error::InvalidHostedDomain(hosted_domain.clone()))
                } else {
                    assert(texts(matching_profiles@)[0]
                        == matching_profiles@[0]@);
                    Ok(Some(profile_argument(matching_profiles[0].as_str())))
                }
            },
            ChromeProfile::NoProfile {  } => Ok(None),
        }
    }
}

impl EdgeProfile {
    /// The argument that makes Edge open the profile referred to.
    pub fn get_argument(&self) -> (outcome: Result<Option<String>, Error>)
        ensures
            argument_view(outcome) == Ok::<Option<Seq<char>>, ErrorView>(edge_argument(self@)),
    {
        match self {
            EdgeProfile::ByName { name } => Ok(Some(profile_argument(name.as_str()))),
            EdgeProfile::NoProfile {  } => Ok(None),
        }
    }
}

/// A hosted domain stands for the first profile, in directory order, that
/// belongs to it: where entry `i` belongs to `domain` and no entry before it
/// does, Chrome is told to open the profile of entry `i`.
pub proof fn lemma_hosted_domain_takes_first_profile(
    entries: DirectoryView,
    domain: Seq<char>,
    i: int,
)
    requires
        0 <= i < entries.len(),
        entries[i].1.hosted_domain == Some(domain),
        forall|j: int| 0 <= j < i ==> entries[j].1.hosted_domain != Some(domain),
    ensures
        id_by_hosted_domain(entries, domain) == Some(entries[i].0),
        ids_in_domain(entries, domain).len() > 0,
        ids_in_domain(entries, domain)[0] == entries[i].0,
        chrome_argument(
            ChromeProfileView::ByHostedDomain { hosted_domain: domain },
            LocalStateView::Loaded(entries),
        ) == Ok::<Option<Seq<char>>, ErrorView>(Some(profile_switch() + entries[i].0)),
{
    let holds = in_domain_at(entries, domain);
    assert forall|j: int| 0 <= j < i implies !#[trigger] holds(j) by {}
    lemma_first_from_is(holds, 0, entries.len() as int, i);
    lemma_first_in_domain(entries, domain);
}

} // verus!
