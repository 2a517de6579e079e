//! What the tool is asked to do, on the command line and through the environment.
use crate::failure::Failure;
use crate::text::{join, lower, lowercase, spells_false, split_words, text_of, texts, words};
use vstd::prelude::*;

verus! {

/// The environment variable with the categories to bump.
pub const BUMP_VARIABLE: &'static str = "TETRANE_CHECKOUT_BUMP";

/// The environment variable with the categories to ignore.
pub const IGNORE_VARIABLE: &'static str = "TETRANE_CHECKOUT_IGNORE";

/// The environment variable with the path of the root repository.
pub const REPOSITORY_PATH_VARIABLE: &'static str = "TETRANE_CHECKOUT_REPOSITORY_PATH";

/// The environment variable that tells whether to force the checkout.
pub const FORCE_CHECKOUT_VARIABLE: &'static str = "TETRANE_CHECKOUT_FORCE_CHECKOUT";

/// What the tool is asked to do.
#[derive(Debug)]
pub struct Args {
    /// The categories of submodules to move to the tip of their branch.
    pub bump: Vec<String>,
    /// The categories of submodules to leave alone.
    pub ignore: Vec<String>,
    /// The path of the root repository.
    pub repository_path: Option<String>,
    /// Whether to go on even where files are modified.
    pub force_checkout: bool,
    /// Whether to show debug messages.
    pub debug: bool,
}

/// What the tool is asked to do, as a value.
#[verifier::ext_equal]
pub struct ArgsView {
    pub bump: Seq<Seq<char>>,
    pub ignore: Seq<Seq<char>>,
    pub repository_path: Option<Seq<char>>,
    pub force_checkout: bool,
    pub debug: bool,
}

impl View for Args {
    type V = ArgsView;

    open spec fn view(&self) -> ArgsView {
        ArgsView {
            bump: texts(self.bump@),
            ignore: texts(self.ignore@),
            repository_path: text_of(self.repository_path),
            force_checkout: self.force_checkout,
            debug: self.debug,
        }
    }
}

/// The values of the environment variables, as far as they are set to valid Unicode.
#[derive(Debug)]
pub struct Environment {
    pub bump: Option<String>,
    pub ignore: Option<String>,
    pub repository_path: Option<String>,
    pub force_checkout: Option<String>,
}

/// The words of an optional text.
pub open spec fn words_of(text: Option<Seq<char>>) -> Seq<Seq<char>> {
    match text {
        Some(text) => words(text),
        None => seq![],
    }
}

/// Whether the value of a variable means yes: it is neither "0" nor "false" in any letters.
pub open spec fn means_yes(value: Seq<char>) -> bool {
    value != "0"@ && lowercase(value) != "false"@
}

/// What is asked for once the environment is taken into account: its categories come on top, its
/// path and its choice to force the checkout come in place of those of the command line.
pub open spec fn merged(
    args: ArgsView,
    bump: Option<Seq<char>>,
    ignore: Option<Seq<char>>,
    repository_path: Option<Seq<char>>,
    force_checkout: Option<Seq<char>>,
) -> ArgsView {
    ArgsView {
        bump: args.bump + words_of(bump),
        ignore: args.ignore + words_of(ignore),
        repository_path: if repository_path is Some {
            repository_path
        } else {
            args.repository_path
        },
        force_checkout: match force_checkout {
            Some(value) => means_yes(value),
            None => args.force_checkout,
        },
        debug: args.debug,
    }
}

/// Which messages are shown.
#[derive(Clone, Copy, Debug, PartialEq, Eq, Structural)]
pub enum LogLevel {
    Debug,
    Info,
}

/// Appends the words of `text` to `list`.
fn extend_with_words(list: &mut Vec<String>, text: &Option<String>)
    ensures
        texts(final(list)@) == texts(old(list)@) + words_of(text_of(*text)),
{
    if let Some(text) = text {
        let mut more = split_words(text.as_str());
        let ghost (before, added) = (list@, more@);
        list.append(&mut more);
        assert(texts(list@) =~= texts(before) + texts(added));
    } else {
        assert(texts(list@) + Seq::<Seq<char>>::empty() =~= texts(list@));
    }
}

impl Args {
    /// Takes the environment into account.
    pub fn merge_from_env(&mut self, environment: Environment)
        ensures
            final(self)@ == merged(
                old(self)@,
                text_of(environment.bump),
                text_of(environment.ignore),
                text_of(environment.repository_path),
                text_of(environment.force_checkout),
            ),
    {
        extend_with_words(&mut self.bump, &environment.bump);
        extend_with_words(&mut self.ignore, &environment.ignore);
        if let Some(repository_path) = environment.repository_path {
            self.repository_path = Some(repository_path);
        }
        if let Some(force_checkout) = environment.force_checkout {
            self.force_checkout =
            force_checkout != "0".to_owned() && !spells_false(force_checkout.as_str());
        }
    }

    /// The path of the root repository: the current directory where none is given.
    pub fn root_path(&self) -> (path: String)
        ensures
            path@ == match self@.repository_path {
                Some(path) => path,
                None => "."@,
            },
    {
        match &self.repository_path {
            Some(path) => path.clone(),
            None => ".".to_owned(),
        }
    }

    /// Which messages are shown.
    pub fn log_level(&self) -> (level: LogLevel)
        ensures
            level == if self@.debug {
                LogLevel::Debug
            } else {
                LogLevel::Info
            },
    {
        if self.debug {
            LogLevel::Debug
        } else {
            LogLevel::Info
        }
    }
}

/// The failure to find the root repository at `path`.
pub fn unresolved(path: &str, cause: Failure) -> (failure: Failure)
    ensures
        failure@ == seq!["Cannot resolve '"@ + path@ + "'"@] + cause@,
{
    cause.context(join("Cannot resolve '", path, "'"))
}

/// An environment without any of the variables changes nothing.
pub proof fn law_empty_environment_changes_nothing(args: ArgsView)
    ensures
        merged(args, None, None, None, None) == args,
{
    assert(args.bump + words_of(None) =~= args.bump);
    assert(args.ignore + words_of(None) =~= args.ignore);
}

/// The environment takes no category of the command line away.
pub proof fn law_command_line_categories_stay(
    args: ArgsView,
    bump: Option<Seq<char>>,
    ignore: Option<Seq<char>>,
    repository_path: Option<Seq<char>>,
    force_checkout: Option<Seq<char>>,
)
    ensures
        args.bump.is_prefix_of(merged(args, bump, ignore, repository_path, force_checkout).bump),
        args.ignore.is_prefix_of(
            merged(args, bump, ignore, repository_path, force_checkout).ignore,
        ),
{
    assert(args.bump =~= (args.bump + words_of(bump)).take(args.bump.len() as int));
    assert(args.ignore =~= (args.ignore + words_of(ignore)).take(args.ignore.len() as int));
}

/// Of all values of the variable, only "0" and the word "false", in small or capital letters, mean
/// no.
pub proof fn law_what_means_no(value: Seq<char>)
    ensures
        !means_yes(value) <==> {
            ||| value.len() == 1 && value[0] == '0'
            ||| {
                &&& value.len() == 5
                &&& value[0] == 'f' || value[0] == 'F'
                &&& value[1] == 'a' || value[1] == 'A'
                &&& value[2] == 'l' || value[2] == 'L'
                &&& value[3] == 's' || value[3] == 'S'
                &&& value[4] == 'e' || value[4] == 'E'
            }
        },
{
    reveal_strlit("0");
    reveal_strlit("false");
    let small = lowercase(value);
    if value.len() == 1 && value[0] == '0' {
        assert(value =~= "0"@);
    }
    if value == "0"@ {
        assert(value.len() == 1 && value[0] == '0');
    }
    if value.len() == 5 {
        assert(forall|i: int| 0 <= i < 5 ==> #[trigger] small[i] == lower(value[i]));
        assert(small == "false"@ <==> small[0] == 'f' && small[1] == 'a' && small[2] == 'l'
            && small[3] == 's' && small[4] == 'e') by {
            if small[0] == 'f' && small[1] == 'a' && small[2] == 'l' && small[3] == 's' && small[4]
                == 'e' {
                assert(small =~= "false"@);
            }
        }
        assert(lower(value[0]) == 'f' <==> value[0] == 'f' || value[0] == 'F');
        assert(lower(value[1]) == 'a' <==> value[1] == 'a' || value[1] == 'A');
        assert(lower(value[2]) == 'l' <==> value[2] == 'l' || value[2] == 'L');
        assert(lower(value[3]) == 's' <==> value[3] == 's' || value[3] == 'S');
        assert(lower(value[4]) == 'e' <==> value[4] == 'e' || value[4] == 'E');
    } else {
        assert(small.len() != "false"@.len());
    }
}

/// Each variable that is set bears on its own argument, and on no other: categories are added
/// behind those of the command line, the path and the choice to force the checkout are replaced.
pub proof fn law_each_variable_bears_on_its_own_argument(
    args: ArgsView,
    bump: Option<Seq<char>>,
    ignore: Option<Seq<char>>,
    repository_path: Option<Seq<char>>,
    force_checkout: Option<Seq<char>>,
)
    ensures
        ({
            let all = merged(args, bump, ignore, repository_path, force_checkout);
            &&& bump matches Some(text) ==> all.bump == args.bump + words(text)
            &&& bump is None ==> all.bump == args.bump
            &&& ignore matches Some(text) ==> all.ignore == args.ignore + words(text)
            &&& ignore is None ==> all.ignore == args.ignore
            &&& repository_path is Some ==> all.repository_path == repository_path
            &&& repository_path is None ==> all.repository_path == args.repository_path
            &&& force_checkout matches Some(value) ==> (all.force_checkout <==> means_yes(value))
            &&& force_checkout is None ==> all.force_checkout == args.force_checkout
            &&& all.debug == args.debug
        }),
{
    law_empty_environment_changes_nothing(args);
}

/// Arguments are seen as they are given.
pub proof fn law_arguments_are_seen_whole(args: Args)
    ensures
        args@.bump == texts(args.bump@),
        args@.ignore == texts(args.ignore@),
        args@.repository_path == text_of(args.repository_path),
        args@.force_checkout == args.force_checkout,
        args@.debug == args.debug,
{
}

/// The tool runs where it is told, or else where it is; it shows debug messages exactly on request;
/// and a root that cannot be found is named, with the cause behind.
pub proof fn law_where_and_how_the_tool_runs(
    args: Args,
    root: String,
    level: LogLevel,
    path: &str,
    cause: Failure,
    failure: Failure,
)
    requires
        call_ensures(Args::root_path, (&args,), root),
        call_ensures(Args::log_level, (&args,), level),
        call_ensures(unresolved, (path, cause), failure),
    ensures
        args.repository_path matches Some(given) ==> root@ == given@,
        args.repository_path is None ==> root@ == "."@,
        level == LogLevel::Debug <==> args.debug,
        failure@[0] == "Cannot resolve '"@ + path@ + "'"@,
        failure@.skip(1) == cause@,
{
    assert(failure@.skip(1) =~= cause@);
}

} // verus!
