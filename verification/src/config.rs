//! The submodules of a repository that are to be checked out.
use crate::failure::Failure;
use crate::text::{copy_option, copy_strings, join, text_of, texts};
use std::collections::HashMap;
use vstd::prelude::*;

verus! {

/// The name of the file that lists the submodules of a repository.
pub const CONFIG_FILE: &'static str = "Checkout.toml";

/// What is configured for a submodule.
#[derive(Debug)]
pub struct Submodule {
    /// The categories that the submodule belongs to.
    pub categories: Vec<String>,
    /// Whether all of its own submodules are to be checked out, whatever its configuration says.
    pub recursive: Option<bool>,
    /// Its name, where that is not its path.
    pub name: Option<String>,
}

/// What is configured for a submodule, as a value.
#[verifier::ext_equal]
pub struct SubmoduleView {
    pub categories: Seq<Seq<char>>,
    pub recursive: Option<bool>,
    pub name: Option<Seq<char>>,
}

impl View for Submodule {
    type V = SubmoduleView;

    open spec fn view(&self) -> SubmoduleView {
        SubmoduleView {
            categories: texts(self.categories@),
            recursive: self.recursive,
            name: text_of(self.name),
        }
    }
}

/// What a list of submodules says of each path, a path being given by the number that stands for
/// it: of two entries for one path the later holds.
pub open spec fn by_path(entries: Seq<(usize, SubmoduleView)>) -> ConfigView
    decreases entries.len(),
{
    if entries.len() == 0 {
        Map::empty()
    } else {
        by_path(entries.drop_last()).insert(entries.last().0, entries.last().1)
    }
}

/// A submodule that a repository has: the number that stands for its path, and its name.
pub type Listed = (usize, Option<String>);

/// What is configured for the submodules that a repository has, all of them recursive and of the
/// same categories.
pub open spec fn listed(
    listing: Seq<Listed>,
    categories: Seq<Seq<char>>,
) -> Seq<(usize, SubmoduleView)> {
    listing.map_values(
        |l: Listed|
            (
                l.0,
                SubmoduleView { categories, recursive: Some(true), name: text_of(l.1) },
            ),
    )
}

/// What is configured for each path, as a value.
pub type ConfigView = Map<usize, SubmoduleView>;

/// The submodules that are to be checked out, by the numbers that stand for their paths.
#[derive(Debug)]
pub struct Config {
    submodules: HashMap<usize, Submodule>,
}

impl View for Config {
    type V = ConfigView;

    closed spec fn view(&self) -> ConfigView {
        self.submodules@.map_values(|s: Submodule| s@)
    }
}

/// What came of an attempt to read a configuration file.
#[derive(Debug)]
pub enum FileRead {
    /// There is no such file.
    Missing,
    /// The file could not be read.
    Unreadable,
    /// The file was read, and holds a configuration.
    Parsed(Config),
    /// The file was read, and does not hold a configuration, for this reason.
    Malformed(Failure),
}

impl Config {
    /// No submodules.
    pub fn new() -> (config: Config)
        ensures
            config@ == ConfigView::empty(),
    {
        let config = Config { submodules: HashMap::new() };
        assert(config@ =~= ConfigView::empty());
        config
    }

    /// The number of submodules.
    pub fn len(&self) -> (len: usize)
        ensures
            len == self@.len(),
    {
        broadcast use vstd::std_specs::hash::group_hash_axioms;

        assert(self@.dom() =~= self.submodules@.dom());
        self.submodules.len()
    }

    /// The numbers that stand for the paths of the submodules, each of them once. They come in no
    /// particular order.
    pub fn paths(&self) -> (paths: Vec<usize>)
        ensures
            paths@.no_duplicates(),
            forall|path: usize| paths@.contains(path) <==> self@.contains_key(path),
    {
        broadcast use vstd::std_specs::hash::group_hash_axioms;

        let mut paths: Vec<usize> = Vec::new();
        for path in it: self.submodules.keys()
            invariant
                it.seq().no_duplicates(),
                it.seq().unref().to_set() == self.submodules@.dom(),
                paths@ == it.seq().unref().take(it.index() as int),
                it.index() == it.seq().len() ==> paths@ == it.seq().unref(),
        {
            paths.push(*path);
            assert(it.seq().unref().take(it.index() + 1) =~= paths@);
        }
        assert forall|path: usize| paths@.contains(path) <==> self@.contains_key(path) by {
            assert(paths@.to_set().contains(path) <==> self.submodules@.dom().contains(path));
        }
        paths
    }

    /// What is configured for a path.
    pub fn get(&self, path: usize) -> (submodule: Option<&Submodule>)
        ensures
            match submodule {
                Some(submodule) => self@.contains_key(path) && submodule@ == self@[path],
                None => !self@.contains_key(path),
            },
    {
        broadcast use vstd::std_specs::hash::group_hash_axioms;

        self.submodules.get(&path)
    }

    /// Configures a submodule, in place of what was configured for that path.
    pub fn insert(&mut self, path: usize, submodule: Submodule)
        ensures
            final(self)@ == old(self)@.insert(path, submodule@),
    {
        broadcast use vstd::std_specs::hash::group_hash_axioms;

        self.submodules.insert(path, submodule);
        assert(self@ =~= old(self)@.insert(path, submodule@));
    }

    /// The configuration of a repository all of whose submodules are to be checked out: each is
    /// recursive and of the given categories. Of two submodules at one path the later holds.
    pub fn from_repository(
        listing: Result<Vec<Listed>, Failure>,
        categories: &Vec<String>,
    ) -> (config: Result<Config, Failure>)
        ensures
            match (listing, config) {
                (Ok(listing), Ok(config)) => config@ == by_path(
                    listed(listing@, texts(categories@)),
                ),
                (Err(cause), Err(failure)) => failure@ == seq!["Could not load submodules"@]
                    + cause@,
                _ => false,
            },
    {
        let listing = match listing {
            Ok(listing) => listing,
            Err(cause) => {
                return Err(cause.context("Could not load submodules".to_owned()));
            },
        };
        let ghost all = listed(listing@, texts(categories@));
        let mut config = Config::new();
        let mut i: usize = 0;
        assert(all.take(0) =~= seq![]);
        while i < listing.len()
            invariant
                all == listed(listing@, texts(categories@)),
                i <= listing@.len(),
                config@ == by_path(all.take(i as int)),
            decreases listing@.len() - i,
        {
            let name = copy_option(&listing[i].1);
            let submodule = Submodule {
                categories: copy_strings(categories),
                recursive: Some(true),
                name,
            };
            proof {
                let now = all.take(i + 1);
                assert(now.drop_last() =~= all.take(i as int));
                assert(now.last() == all[i as int]);
                assert(all[i as int] == (listing@[i as int].0, submodule@));
            }
            config.insert(listing[i].0, submodule);
            i = i + 1;
        }
        assert(all.take(i as int) =~= all);
        Ok(config)
    }

    /// The configuration in the file at `path`. A repository need not have one.
    pub fn load(path: &str, read: FileRead) -> (config: Result<Option<Config>, Failure>)
        ensures
            match read {
                FileRead::Missing => config == Ok::<Option<Config>, Failure>(None),
                FileRead::Unreadable => config matches Err(failure) && failure@ == seq![
                    "Could not open '"@ + path@ + "' as a toml file"@,
                ],
                FileRead::Parsed(parsed) => config == Ok::<Option<Config>, Failure>(Some(parsed)),
                FileRead::Malformed(cause) => config matches Err(failure) && failure@ == seq![
                    "Could not deserialize '"@ + path@ + "' as a configuration object"@,
                ] + cause@,
            },
    {
        match read {
            FileRead::Missing => Ok(None),
            FileRead::Unreadable => Err(
                Failure::new(join("Could not open '", path, "' as a toml file")),
            ),
            FileRead::Parsed(parsed) => Ok(Some(parsed)),
            FileRead::Malformed(cause) => Err(
                cause.context(join("Could not deserialize '", path, "' as a configuration object")),
            ),
        }
    }
}

/// The configuration of the root repository at `root`, which must have one.
pub fn root_config(
    root: &str,
    loaded: Result<Option<Config>, Failure>,
) -> (config: Result<Config, Failure>)
    ensures
        match loaded {
            Ok(Some(found)) => config == Ok::<Config, Failure>(found),
            Ok(None) => config matches Err(failure) && failure@ == seq![
                "Could not find 'Checkout.toml' in '"@ + root@ + "'"@,
            ],
            Err(cause) => config matches Err(failure) && failure@ == seq![
                "Error reading configuration in '"@ + root@ + "'"@,
            ] + cause@,
        },
{
    match loaded {
        Ok(Some(found)) => Ok(found),
        Ok(None) => Err(Failure::new(join("Could not find 'Checkout.toml' in '", root, "'"))),
        Err(cause) => Err(cause.context(join("Error reading configuration in '", root, "'"))),
    }
}

/// Of the entries for one path the last one holds.
pub proof fn law_last_entry_holds(entries: Seq<(usize, SubmoduleView)>, i: int)
    requires
        0 <= i < entries.len(),
        forall|j: int| i < j < entries.len() ==> (#[trigger] entries[j]).0 != entries[i].0,
    ensures
        by_path(entries).contains_key(entries[i].0),
        by_path(entries)[entries[i].0] == entries[i].1,
    decreases entries.len(),
{
    if i < entries.len() - 1 {
        let front = entries.drop_last();
        assert(front[i] == entries[i]);
        assert(entries.last() == entries[entries.len() - 1]);
        assert forall|j: int| i < j < front.len() implies (#[trigger] front[j]).0
            != front[i].0 by {
            assert(front[j] == entries[j]);
        }
        law_last_entry_holds(front, i);
    }
}

/// Nothing is configured for a path without an entry.
pub proof fn law_only_entries_are_configured(entries: Seq<(usize, SubmoduleView)>, path: usize)
    ensures
        by_path(entries).contains_key(path) <==> exists|i: int|
            0 <= i < entries.len() && (#[trigger] entries[i]).0 == path,
    decreases entries.len(),
{
    if entries.len() > 0 {
        let front = entries.drop_last();
        law_only_entries_are_configured(front, path);
        if by_path(entries).contains_key(path) {
            if entries.last().0 == path {
                assert(entries[entries.len() - 1].0 == path);
            } else {
                let i = choose|i: int| 0 <= i < front.len() && (#[trigger] front[i]).0 == path;
                assert(entries[i].0 == path);
            }
        }
        if exists|i: int| 0 <= i < entries.len() && (#[trigger] entries[i]).0 == path {
            let i = choose|i: int| 0 <= i < entries.len() && (#[trigger] entries[i]).0 == path;
            if i < front.len() {
                assert(front[i].0 == path);
            }
        }
    }
}

/// Every submodule that a repository has is listed under its own path and name, as a recursive one
/// with the given categories.
pub proof fn law_every_submodule_is_listed(
    listing: Seq<Listed>,
    categories: Seq<Seq<char>>,
    i: int,
)
    requires
        0 <= i < listing.len(),
    ensures
        listed(listing, categories).len() == listing.len(),
        ({
            let (path, submodule) = listed(listing, categories)[i];
            &&& path == listing[i].0
            &&& submodule.categories == categories
            &&& submodule.recursive == Some(true)
            &&& listing[i].1 matches Some(name) ==> submodule.name == Some(name@)
            &&& listing[i].1 is None ==> submodule.name is None
        }),
{
}

/// What is configured for a submodule is seen as it is.
pub proof fn law_submodules_are_seen_whole(submodule: Submodule)
    ensures
        submodule@.categories == texts(submodule.categories@),
        submodule@.recursive == submodule.recursive,
        submodule@.name == text_of(submodule.name),
{
}

/// A configuration that was read is the one that is loaded, and a missing file is none. Every other
/// file fails, with its path in the message, and a malformed one with its cause behind.
pub proof fn law_what_is_loaded(
    path: &str,
    read: FileRead,
    loaded: Result<Option<Config>, Failure>,
)
    requires
        call_ensures(Config::load, (path, read), loaded),
    ensures
        read is Missing ==> loaded == Ok::<Option<Config>, Failure>(None),
        read matches FileRead::Parsed(config) ==> loaded == Ok::<Option<Config>, Failure>(
            Some(config),
        ),
        read is Unreadable ==> (loaded matches Err(failure) && failure@.len() == 1 && failure@[0]
            == "Could not open '"@ + path@ + "' as a toml file"@),
        read matches FileRead::Malformed(cause) ==> (loaded matches Err(failure) && failure@.skip(1)
            == cause@ && failure@[0] == "Could not deserialize '"@ + path@
            + "' as a configuration object"@),
{
    if let FileRead::Malformed(cause) = read {
        assert(loaded->Err_0@.skip(1) =~= cause@);
    }
}

/// The root repository is run with the configuration that it has; it fails without one, and where
/// it could not be loaded, and says where.
pub proof fn law_the_root_has_a_configuration(
    root: &str,
    loaded: Result<Option<Config>, Failure>,
    config: Result<Config, Failure>,
)
    requires
        call_ensures(root_config, (root, loaded), config),
    ensures
        config is Ok <==> (loaded matches Ok(found) && found is Some),
        loaded matches Ok(Some(found)) ==> config == Ok::<Config, Failure>(found),
        loaded matches Ok(None) ==> (config matches Err(failure) && failure@.len() == 1
            && failure@[0] == "Could not find 'Checkout.toml' in '"@ + root@ + "'"@),
        loaded matches Err(cause) ==> (config matches Err(failure) && failure@.skip(1) == cause@
            && failure@[0] == "Error reading configuration in '"@ + root@ + "'"@),
{
    if let Err(cause) = loaded {
        assert(config->Err_0@.skip(1) =~= cause@);
    }
}

/// All submodules that a repository has are configured where they could be listed; otherwise the
/// cause is kept behind what could not be done.
pub proof fn law_what_a_repository_configures(
    listing: Result<Vec<Listed>, Failure>,
    categories: &Vec<String>,
    config: Result<Config, Failure>,
)
    requires
        call_ensures(Config::from_repository, (listing, categories), config),
    ensures
        config is Ok <==> listing is Ok,
        listing matches Ok(list) ==> (forall|path: usize| #[trigger]
            config->Ok_0@.contains_key(path) <==> exists|i: int|
                0 <= i < list@.len() && (#[trigger] list@[i]).0 == path),
        listing matches Err(cause) ==> config->Err_0@.skip(1) == cause@ && config->Err_0@[0]
            == "Could not load submodules"@,
{
    match listing {
        Ok(list) => {
            let all = listed(list@, texts(categories@));
            assert forall|path: usize| #[trigger] config->Ok_0@.contains_key(path) <==> exists|
                i: int,
            |
                0 <= i < list@.len() && (#[trigger] list@[i]).0 == path by {
                law_only_entries_are_configured(all, path);
                if config->Ok_0@.contains_key(path) {
                    let i = choose|i: int| 0 <= i < all.len() && (#[trigger] all[i]).0 == path;
                    assert(list@[i].0 == path);
                }
                if exists|i: int| 0 <= i < list@.len() && (#[trigger] list@[i]).0 == path {
                    let i = choose|i: int| 0 <= i < list@.len() && (#[trigger] list@[i]).0 == path;
                    assert(all[i].0 == path);
                }
            }
        },
        Err(cause) => {
            assert(config->Err_0@.skip(1) =~= cause@);
        },
    }
}

} // verus!
