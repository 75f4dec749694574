//! The browser's own directory of installed profiles, and how a name or a
//! hosted domain is looked up in it.

use vstd::prelude::*;
use crate::ordered_map::{has_key, OrderedMap};
use crate::search::{first_from, lemma_first_from, lemma_first_from_is, lemma_first_from_none};
use crate::text::{text_of, texts, view_of};

verus! {

/// Why the profile directory could not be loaded, with the message of the
/// failure underneath.
#[derive(Debug)]
pub enum Error {
    /// The document could not be read.
    InvalidFile(String),
    /// The document was read but is not a profile directory.
    InvalidJson(String),
}

/// The view of an [`Error`].
pub enum ErrorView {
    InvalidFile(Seq<char>),
    InvalidJson(Seq<char>),
}

impl View for Error {
    type V = ErrorView;

    open spec fn view(&self) -> ErrorView {
        match self {
            Error::InvalidFile(message) => ErrorView::InvalidFile(message@),
            Error::InvalidJson(message) => ErrorView::InvalidJson(message@),
        }
    }
}

/// What the directory records of one profile.
#[derive(Debug)]
pub struct ChromeProfile {
    pub hosted_domain: Option<String>,
    pub name: Option<String>,
    pub shortcut_name: Option<String>,
}

/// The view of a [`ChromeProfile`].
pub struct ChromeProfileView {
    pub hosted_domain: Option<Seq<char>>,
    pub name: Option<Seq<char>>,
    pub shortcut_name: Option<Seq<char>>,
}

impl View for ChromeProfile {
    type V = ChromeProfileView;

    open spec fn view(&self) -> ChromeProfileView {
        ChromeProfileView {
            hosted_domain: text_of(self.hosted_domain),
            name: text_of(self.name),
            shortcut_name: text_of(self.shortcut_name),
        }
    }
}

/// The view of the profile directory: its entries in directory order, each an
/// identifier and what the directory records of the profile.
pub type DirectoryView = Seq<(Seq<char>, ChromeProfileView)>;

/// The profile directory: profiles filed under their identifiers, in the
/// order of the directory.
#[derive(Debug)]
pub struct ProfilesData {
    pub info_cache: OrderedMap<ChromeProfile>,
}

impl View for ProfilesData {
    type V = DirectoryView;

    open spec fn view(&self) -> DirectoryView {
        self.info_cache@
    }
}

/// What looking for the profile directory and loading it gave.
#[derive(Debug)]
pub enum LocalState {
    /// The directory was not located.
    NotLocated,
    /// The directory was located and could not be loaded.
    NotLoaded(Error),
    /// The directory.
    Loaded(ProfilesData),
}

/// The view of a [`LocalState`].
pub enum LocalStateView {
    NotLocated,
    NotLoaded(ErrorView),
    Loaded(DirectoryView),
}

impl View for LocalState {
    type V = LocalStateView;

    open spec fn view(&self) -> LocalStateView {
        match self {
            LocalState::NotLocated => LocalStateView::NotLocated,
            LocalState::NotLoaded(cause) => LocalStateView::NotLoaded(cause@),
            LocalState::Loaded(profiles) => LocalStateView::Loaded(profiles@),
        }
    }
}

impl LocalState {
    /// The local state after looking for the directory, which gave nothing
    /// where it was not located, and else what loading it gave.
    pub fn new(found: Option<Result<ProfilesData, Error>>) -> (local_state: LocalState)
        ensures
            local_state == (match found {
                None => LocalState::NotLocated,
                Some(Err(cause)) => LocalState::NotLoaded(cause),
                Some(Ok(profiles)) => LocalState::Loaded(profiles),
            }),
    {
        match found {
            None => LocalState::NotLocated,
            Some(Err(cause)) => LocalState::NotLoaded(cause),
            Some(Ok(profiles)) => LocalState::Loaded(profiles),
        }
    }
}

/// The predicate "the profile of this entry belongs to `domain`".
pub open spec fn in_domain(domain: Seq<char>) -> spec_fn((Seq<char>, ChromeProfileView)) -> bool {
    |entry: (Seq<char>, ChromeProfileView)| entry.1.hosted_domain == Some(domain)
}

/// The identifier of an entry.
pub open spec fn identifier() -> spec_fn((Seq<char>, ChromeProfileView)) -> Seq<char> {
    |entry: (Seq<char>, ChromeProfileView)| entry.0
}

/// The identifiers of the profiles that belong to `domain`, in directory order.
pub open spec fn ids_in_domain(entries: DirectoryView, domain: Seq<char>) -> Seq<Seq<char>> {
    entries.filter(in_domain(domain)).map_values(identifier())
}

/// The predicate "the profile of entry `i` belongs to `domain`".
pub open spec fn in_domain_at(entries: DirectoryView, domain: Seq<char>) -> spec_fn(int) -> bool {
    |i: int| entries[i].1.hosted_domain == Some(domain)
}

/// The predicate "the profile of entry `i` is displayed as `name`".
pub open spec fn has_display_name(entries: DirectoryView, name: Seq<char>) -> spec_fn(int) -> bool {
    |i: int| entries[i].1.name == Some(name)
}

/// The predicate "the shortcut of the profile of entry `i` is called `name`".
pub open spec fn has_shortcut_name(
    entries: DirectoryView,
    name: Seq<char>,
) -> spec_fn(int) -> bool {
    |i: int| entries[i].1.shortcut_name == Some(name)
}

/// The identifier of entry `i`, where there is an `i`.
pub open spec fn id_at(entries: DirectoryView, i: Option<int>) -> Option<Seq<char>>{
    match i {
        Some(i) => Some(entries[i].0),
        None => None,
    }
}

/// The identifier that `name` stands for: that of the profile filed under
/// `name`; failing that, of the first profile displayed as `name`; failing
/// that, of the first profile whose shortcut is called `name`.
pub open spec fn id_by_name(entries: DirectoryView, name: Seq<char>) -> Option<Seq<char>>{
    let n = entries.len() as int;
    if first_from(has_key(entries, name), 0, n) is Some {
        id_at(entries, first_from(has_key(entries, name), 0, n))
    } else if first_from(has_display_name(entries, name), 0, n) is Some {
        id_at(entries, first_from(has_display_name(entries, name), 0, n))
    } else {
        id_at(entries, first_from(has_shortcut_name(entries, name), 0, n))
    }
}

/// The identifier that `domain` stands for: that of the first profile, in
/// directory order, that belongs to `domain`.
pub open spec fn id_by_hosted_domain(
    entries: DirectoryView,
    domain: Seq<char>,
) -> Option<Seq<char>> {
    id_at(entries, first_from(in_domain_at(entries, domain), 0, entries.len() as int))
}

/// Whether an optional string is present and equal to `wanted`.
fn is_text(value: &Option<String>, wanted: &String) -> (same: bool)
    ensures
        same == (text_of(*value) == Some(wanted@)),
{
    match value {
        Some(text) => *text == *wanted,
        None => false,
    }
}

/// The first of the identifiers of a domain is that of the first profile
/// that belongs to it; there are none where no profile does.
pub proof fn lemma_first_in_domain(entries: DirectoryView, domain: Seq<char>)
    ensures
        match id_by_hosted_domain(entries, domain) {
            Some(id) => ids_in_domain(entries, domain).len() > 0 && ids_in_domain(
                entries,
                domain,
            )[0] == id,
            None => ids_in_domain(entries, domain).len() == 0,
        },
    decreases entries.len(),
{
    let n = entries.len() as int;
    let holds = in_domain_at(entries, domain);
    reveal(Seq::filter);
    lemma_first_from(holds, 0, n);
    if n > 0 {
        let front = entries.drop_last();
        let front_holds = in_domain_at(front, domain);
        lemma_first_in_domain(front, domain);
        lemma_first_from(front_holds, 0, n - 1);
        assert forall|j: int| 0 <= j < n - 1 implies #[trigger] holds(j) == front_holds(j) by {}
        let kept = front.filter(in_domain(domain));
        assert(kept.push(entries.last()).map_values(identifier()) =~= kept.map_values(
            identifier(),
        ).push(entries.last().0));
        match first_from(front_holds, 0, n - 1) {
            Some(i) => {
                assert(holds(i));
                lemma_first_from_is(holds, 0, n, i);
            },
            None => {
                if holds(n - 1) {
                    lemma_first_from_is(holds, 0, n, n - 1);
                } else {
                    lemma_first_from_none(holds, 0, n);
                }
            },
        }
    }
}

/// An identifier stands for itself, whatever the profiles are called: where
/// a profile is filed under `name`, `name` is resolved to `name`.
pub proof fn lemma_identifier_stands_for_itself(entries: DirectoryView, name: Seq<char>, i: int)
    requires
        0 <= i < entries.len(),
        entries[i].0 == name,
    ensures
        id_by_name(entries, name) == Some(name),
{
    let holds = has_key(entries, name);
    assert(holds(i));
    lemma_first_from(holds, 0, entries.len() as int);
}

/// A display name comes before a shortcut name: where no profile is filed
/// under `name`, entry `i` is displayed as `name` and no entry before it is,
/// `name` is resolved to the identifier of entry `i`, whatever the shortcuts
/// are called.
pub proof fn lemma_display_name_before_shortcut_name(
    entries: DirectoryView,
    name: Seq<char>,
    i: int,
)
    requires
        0 <= i < entries.len(),
        forall|j: int| 0 <= j < entries.len() ==> entries[j].0 != name,
        entries[i].1.name == Some(name),
        forall|j: int| 0 <= j < i ==> entries[j].1.name != Some(name),
    ensures
        id_by_name(entries, name) == Some(entries[i].0),
{
    let n = entries.len() as int;
    let filed = has_key(entries, name);
    let displayed = has_display_name(entries, name);
    assert forall|j: int| 0 <= j < n implies !#[trigger] filed(j) by {}
    lemma_first_from_none(filed, 0, n);
    assert forall|j: int| 0 <= j < i implies !#[trigger] displayed(j) by {}
    lemma_first_from_is(displayed, 0, n, i);
}

impl ProfilesData {
    /// The identifiers of the profiles that belong to `hosted_domain`, in
    /// directory order.
    pub fn profiles_by_hosted_domain(&self, hosted_domain: &str) -> (ids: Vec<&String>)
        ensures
            texts(ids@) == ids_in_domain(self@, hosted_domain@),
    {
        let wanted: String = hosted_domain.to_owned();
        let n: usize = self.info_cache.len();
        let mut ids: Vec<&String> = Vec::new();
        let mut i: usize = 0;
        assert(self@.take(0) =~= Seq::empty());
        reveal(Seq::filter);
        while i < n
            invariant
                i <= n,
                n == self@.len(),
                wanted@ == hosted_domain@,
                texts(ids@) == ids_in_domain(self@.take(i as int), hosted_domain@),
            decreases n - i,
        {
            let ghost seen = self@.take(i as int);
            let ghost entry = self@[i as int];
            let ghost kept = seen.filter(in_domain(hosted_domain@));
            let ghost found = ids@;
            proof {
                assert(self@.take(i + 1) =~= seen.push(entry));
                seen.lemma_filter_push(entry, in_domain(hosted_domain@));
                assert(kept.push(entry).map_values(identifier()) =~= kept.map_values(
                    identifier(),
                ).push(entry.0));
            }
            if is_text(&self.info_cache.value_at(i).hosted_domain, &wanted) {
                ids.push(self.info_cache.key_at(i));
                assert(texts(ids@) =~= texts(found).push(entry.0));
            }
            i = i + 1;
        }
        assert(self@.take(n as int) =~= self@);
        ids
    }

    /// The position of the first profile displayed as `name`.
    fn position_by_display_name(&self, name: &String) -> (found: Option<usize>)
        ensures
            match found {
                Some(i) => i < self@.len() && first_from(
                    has_display_name(self@, name@),
                    0,
                    self@.len() as int,
                ) == Some(i as int),
                None => first_from(has_display_name(self@, name@), 0, self@.len() as int) is None,
            },
    {
        let n: usize = self.info_cache.len();
        let mut i: usize = 0;
        while i < n
            invariant
                i <= n,
                n == self@.len(),
                first_from(has_display_name(self@, name@), 0, n as int) == first_from(
                    has_display_name(self@, name@),
                    i as int,
                    n as int,
                ),
            decreases n - i,
        {
            if is_text(&self.info_cache.value_at(i).name, name) {
                return Some(i);
            }
            i = i + 1;
        }
        None
    }

    /// The position of the first profile whose shortcut is called `name`.
    fn position_by_shortcut_name(&self, name: &String) -> (found: Option<usize>)
        ensures
            match found {
                Some(i) => i < self@.len() && first_from(
                    has_shortcut_name(self@, name@),
                    0,
                    self@.len() as int,
                ) == Some(i as int),
                None => first_from(has_shortcut_name(self@, name@), 0, self@.len() as int) is None,
            },
    {
        let n: usize = self.info_cache.len();
        let mut i: usize = 0;
        while i < n
            invariant
                i <= n,
                n == self@.len(),
                first_from(has_shortcut_name(self@, name@), 0, n as int) == first_from(
                    has_shortcut_name(self@, name@),
                    i as int,
                    n as int,
                ),
            decreases n - i,
        {
            if is_text(&self.info_cache.value_at(i).shortcut_name, name) {
                return Some(i);
            }
            i = i + 1;
        }
        None
    }

    /// The identifier of the profile that `name` stands for: a profile filed
    /// under `name` comes before one displayed as `name`, and that before one
    /// whose shortcut is called `name`.
    pub fn profile_by_name(&self, name: &str) -> (id: Option<&str>)
        ensures
            view_of(id) == id_by_name(self@, name@),
    {
        if let Some(i) = self.info_cache.position(name) {
            return Some(self.info_cache.key_at(i).as_str());
        }
        let wanted: String = name.to_owned();
        if let Some(i) = self.position_by_display_name(&wanted) {
            return Some(self.info_cache.key_at(i).as_str());
        }
        match self.position_by_shortcut_name(&wanted) {
            Some(i) => Some(self.info_cache.key_at(i).as_str()),
            None => None,
        }
    }
}

} // verus!
