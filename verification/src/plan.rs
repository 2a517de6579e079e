//! Which submodules are checked out, and how.
use crate::config::{by_path, listed, Config, ConfigView, Listed, SubmoduleView};
use crate::text::{contains_text, copy_option, copy_strings, text_of, texts};
use vstd::prelude::*;

verus! {

/// Where a submodule is moved to.
#[derive(Clone, Copy, Debug, PartialEq, Eq, Structural)]
pub enum Operation {
    /// To the tip of its branch on the remote.
    Bump,
    /// To the commit that its repository records for it.
    Checkout,
}

/// Whether two lists share an element.
pub open spec fn overlap(a: Seq<Seq<char>>, b: Seq<Seq<char>>) -> bool {
    exists|i: int| 0 <= i < a.len() && b.contains(#[trigger] a[i])
}

/// What is done to a submodule of these categories: nothing where one of them is ignored, a bump
/// where one of them is bumped, and a checkout otherwise.
pub open spec fn operation_for(
    categories: Seq<Seq<char>>,
    bumped: Seq<Seq<char>>,
    ignored: Seq<Seq<char>>,
) -> Option<Operation> {
    if overlap(categories, ignored) {
        None
    } else if overlap(categories, bumped) {
        Some(Operation::Bump)
    } else {
        Some(Operation::Checkout)
    }
}

/// A submodule that is to be checked out.
#[derive(Debug)]
pub struct Planned {
    /// The number that stands for its path.
    pub path: usize,
    pub operation: Operation,
    /// Whether all of its own submodules are to be checked out.
    pub recursive: bool,
    pub categories: Vec<String>,
    pub name: Option<String>,
}

/// A submodule that is to be checked out, as a value.
#[verifier::ext_equal]
pub struct PlannedView {
    pub path: usize,
    pub operation: Operation,
    pub recursive: bool,
    pub categories: Seq<Seq<char>>,
    pub name: Option<Seq<char>>,
}

impl View for Planned {
    type V = PlannedView;

    open spec fn view(&self) -> PlannedView {
        PlannedView {
            path: self.path,
            operation: self.operation,
            recursive: self.recursive,
            categories: texts(self.categories@),
            name: text_of(self.name),
        }
    }
}

/// What is planned for one submodule.
pub open spec fn planned(
    path: usize,
    submodule: SubmoduleView,
    operation: Operation,
) -> PlannedView {
    PlannedView {
        path,
        operation,
        recursive: submodule.recursive == Some(true),
        categories: submodule.categories,
        name: submodule.name,
    }
}

/// What is planned for a path, if anything is.
pub open spec fn planned_at(
    config: ConfigView,
    bumped: Seq<Seq<char>>,
    ignored: Seq<Seq<char>>,
    path: usize,
) -> Option<PlannedView> {
    if config.contains_key(path) {
        match operation_for(config[path].categories, bumped, ignored) {
            Some(operation) => Some(planned(path, config[path], operation)),
            None => None,
        }
    } else {
        None
    }
}

/// Whether a list is a plan for a configuration: it has, for each configured submodule that is not
/// ignored and for nothing else, what is to be done to it, and it has it once.
pub open spec fn is_plan(
    plan: Seq<PlannedView>,
    config: ConfigView,
    bumped: Seq<Seq<char>>,
    ignored: Seq<Seq<char>>,
) -> bool {
    &&& forall|i: int, j: int|
        0 <= i < j < plan.len() ==> (#[trigger] plan[i]).path != (#[trigger] plan[j]).path
    &&& forall|i: int|
        0 <= i < plan.len() ==> planned_at(config, bumped, ignored, (#[trigger] plan[i]).path)
            == Some(plan[i])
    &&& forall|path: usize|
        (#[trigger] planned_at(config, bumped, ignored, path)) is Some ==> exists|i: int|
            0 <= i < plan.len() && (#[trigger] plan[i]).path == path
}

/// A plan as a value.
pub open spec fn plan_view(plan: Seq<Planned>) -> Seq<PlannedView> {
    plan.map_values(|p: Planned| p@)
}

/// Decides what is done to a submodule of these categories.
pub fn choose_operation(
    categories: &Vec<String>,
    bumped: &Vec<String>,
    ignored: &Vec<String>,
) -> (operation: Option<Operation>)
    ensures
        operation == operation_for(texts(categories@), texts(bumped@), texts(ignored@)),
{
    let ghost all = texts(categories@);
    let mut operation = Operation::Checkout;
    let mut i: usize = 0;
    while i < categories.len()
        invariant
            all == texts(categories@),
            i <= categories@.len(),
            forall|k: int| 0 <= k < i ==> !texts(ignored@).contains(#[trigger] all[k]),
            operation == Operation::Bump <==> exists|k: int|
                0 <= k < i && texts(bumped@).contains(#[trigger] all[k]),
        decreases categories@.len() - i,
    {
        assert(all[i as int] == categories@[i as int]@);
        if contains_text(ignored, &categories[i]) {
            assert(overlap(all, texts(ignored@)));
            return None;
        }
        if contains_text(bumped, &categories[i]) {
            operation = Operation::Bump;
        }
        i = i + 1;
    }
    assert(!overlap(all, texts(ignored@)));
    assert(operation == Operation::Bump <==> overlap(all, texts(bumped@)));
    Some(operation)
}

/// Plans the checkout of the submodules of a repository, each of them once. They come in no
/// particular order.
pub fn plan(config: &Config, bumped: &Vec<String>, ignored: &Vec<String>) -> (plan: Vec<Planned>)
    ensures
        is_plan(plan_view(plan@), config@, texts(bumped@), texts(ignored@)),
{
    let paths = config.paths();
    let mut plan: Vec<Planned> = Vec::new();
    let ghost mut origin: Seq<int> = seq![];
    let mut i: usize = 0;
    while i < paths.len()
        invariant
            i <= paths@.len(),
            paths@.no_duplicates(),
            forall|path: usize| paths@.contains(path) <==> config@.contains_key(path),
            origin.len() == plan@.len(),
            forall|k: int|
                0 <= k < plan@.len() ==> 0 <= #[trigger] origin[k] < i && plan@[k].path
                    == paths@[origin[k]],
            forall|k: int, l: int|
                0 <= k < l < plan@.len() ==> #[trigger] origin[k] < #[trigger] origin[l],
            forall|k: int|
                0 <= k < plan@.len() ==> planned_at(
                    config@,
                    texts(bumped@),
                    texts(ignored@),
                    (#[trigger] plan@[k]).path,
                ) == Some(plan@[k]@),
            forall|k: int|
                0 <= k < i && planned_at(
                    config@,
                    texts(bumped@),
                    texts(ignored@),
                    #[trigger] paths@[k],
                ) is Some ==> exists|l: int|
                    0 <= l < plan@.len() && (#[trigger] plan@[l]).path == paths@[k],
        decreases paths@.len() - i,
    {
        let path = paths[i];
        let ghost before = plan@;
        assert(paths@.contains(path));
        if let Some(submodule) = config.get(path) {
            if let Some(operation) = choose_operation(&submodule.categories, bumped, ignored) {
                let recursive = match submodule.recursive {
                    Some(recursive) => recursive,
                    None => false,
                };
                let item = Planned {
                    path,
                    operation,
                    recursive,
                    categories: copy_strings(&submodule.categories),
                    name: copy_option(&submodule.name),
                };
                plan.push(item);
                proof {
                    origin = origin.push(i as int);
                    assert(item@ =~= planned(path, submodule@, operation));
                    assert(plan@[before.len() as int].path == path);
                    assert forall|k: int|
                        0 <= k < i && planned_at(
                            config@,
                            texts(bumped@),
                            texts(ignored@),
                            #[trigger] paths@[k],
                        ) is Some implies exists|l: int|
                        0 <= l < plan@.len() && (#[trigger] plan@[l]).path == paths@[k] by {
                        let l = choose|l: int|
                            0 <= l < before.len() && (#[trigger] before[l]).path == paths@[k];
                        assert(plan@[l].path == paths@[k]);
                    }
                }
            }
        }
        i = i + 1;
    }
    proof {
        let view = plan_view(plan@);
        assert forall|k: int, l: int| 0 <= k < l < view.len() implies (#[trigger] view[k]).path != (
        #[trigger] view[l]).path by {
            assert(origin[k] < origin[l]);
        }
        assert forall|path: usize|
            (#[trigger] planned_at(config@, texts(bumped@), texts(ignored@), path))
                is Some implies exists|k: int|
            0 <= k < view.len() && (#[trigger] view[k]).path == path by {
            assert(paths@.contains(path));
            let at = choose|k: int| 0 <= k < paths@.len() && paths@[k] == path;
            let l = choose|l: int|
                0 <= l < plan@.len() && (#[trigger] plan@[l]).path == paths@[at];
            assert(view[l].path == path);
        }
    }
    plan
}

/// To ignore a category wins over to bump one: a submodule with an ignored category is left
/// alone whatever is bumped.
pub proof fn law_ignoring_wins(
    categories: Seq<Seq<char>>,
    bumped: Seq<Seq<char>>,
    ignored: Seq<Seq<char>>,
    category: Seq<char>,
)
    requires
        categories.contains(category),
        ignored.contains(category),
    ensures
        operation_for(categories, bumped, ignored) is None,
{
    let i = choose|i: int| 0 <= i < categories.len() && categories[i] == category;
    assert(ignored.contains(categories[i]));
}

/// What is done to a submodule depends only on which categories it has, which are bumped and
/// which are ignored, not on their order or how often they are named.
pub proof fn law_only_membership_counts(
    categories: Seq<Seq<char>>,
    bumped: Seq<Seq<char>>,
    ignored: Seq<Seq<char>>,
    other_categories: Seq<Seq<char>>,
    other_bumped: Seq<Seq<char>>,
    other_ignored: Seq<Seq<char>>,
)
    requires
        categories.to_set() == other_categories.to_set(),
        bumped.to_set() == other_bumped.to_set(),
        ignored.to_set() == other_ignored.to_set(),
    ensures
        operation_for(categories, bumped, ignored) == operation_for(
            other_categories,
            other_bumped,
            other_ignored,
        ),
{
    lemma_overlap_by_membership(categories, ignored, other_categories, other_ignored);
    lemma_overlap_by_membership(other_categories, other_ignored, categories, ignored);
    lemma_overlap_by_membership(categories, bumped, other_categories, other_bumped);
    lemma_overlap_by_membership(other_categories, other_bumped, categories, bumped);
}

/// Two lists that share an element still do with more elements.
proof fn lemma_overlap_by_membership(
    a: Seq<Seq<char>>,
    b: Seq<Seq<char>>,
    more_a: Seq<Seq<char>>,
    more_b: Seq<Seq<char>>,
)
    requires
        a.to_set().subset_of(more_a.to_set()),
        b.to_set().subset_of(more_b.to_set()),
    ensures
        overlap(a, b) ==> overlap(more_a, more_b),
{
    if overlap(a, b) {
        let i = choose|i: int| 0 <= i < a.len() && b.contains(#[trigger] a[i]);
        assert(a.to_set().contains(a[i]));
        assert(b.to_set().contains(a[i]));
        assert(more_a.to_set().contains(a[i]));
        assert(more_b.to_set().contains(a[i]));
        let j = choose|j: int| 0 <= j < more_a.len() && more_a[j] == a[i];
        assert(more_b.contains(more_a[j]));
    }
}

/// To ignore more categories never adds a submodule, and changes nothing for those that are still
/// checked out.
pub proof fn law_ignoring_more_only_removes(
    categories: Seq<Seq<char>>,
    bumped: Seq<Seq<char>>,
    ignored: Seq<Seq<char>>,
    more_ignored: Seq<Seq<char>>,
)
    requires
        ignored.to_set().subset_of(more_ignored.to_set()),
    ensures
        operation_for(categories, bumped, more_ignored) is None || operation_for(
            categories,
            bumped,
            more_ignored,
        ) == operation_for(categories, bumped, ignored),
{
    lemma_overlap_by_membership(categories, ignored, categories, more_ignored);
}

/// Two plans for one configuration differ in their order only.
pub proof fn law_plans_differ_in_order_only(
    plan: Seq<PlannedView>,
    other: Seq<PlannedView>,
    config: ConfigView,
    bumped: Seq<Seq<char>>,
    ignored: Seq<Seq<char>>,
)
    requires
        is_plan(plan, config, bumped, ignored),
        is_plan(other, config, bumped, ignored),
    ensures
        plan.to_multiset() == other.to_multiset(),
{
    broadcast use vstd::seq_lib::group_to_multiset_ensures;

    assert(plan.no_duplicates());
    assert(other.no_duplicates());
    plan.lemma_multiset_has_no_duplicates();
    other.lemma_multiset_has_no_duplicates();
    assert forall|item: PlannedView| plan.contains(item) <==> other.contains(item) by {
        if plan.contains(item) {
            lemma_plan_contains(plan, other, config, bumped, ignored, item);
        }
        if other.contains(item) {
            lemma_plan_contains(other, plan, config, bumped, ignored, item);
        }
    }
    assert forall|item: PlannedView| plan.to_multiset().count(item) == other.to_multiset().count(
        item,
    ) by {
        assert(plan.contains(item) <==> other.contains(item));
        assert(plan.contains(item) <==> plan.to_multiset().count(item) > 0);
        assert(other.contains(item) <==> other.to_multiset().count(item) > 0);
    }
    assert(plan.to_multiset() =~= other.to_multiset());
}

/// What one plan has, another for the same configuration has too.
proof fn lemma_plan_contains(
    plan: Seq<PlannedView>,
    other: Seq<PlannedView>,
    config: ConfigView,
    bumped: Seq<Seq<char>>,
    ignored: Seq<Seq<char>>,
    item: PlannedView,
)
    requires
        is_plan(plan, config, bumped, ignored),
        is_plan(other, config, bumped, ignored),
        plan.contains(item),
    ensures
        other.contains(item),
{
    let i = choose|i: int| 0 <= i < plan.len() && plan[i] == item;
    assert(planned_at(config, bumped, ignored, plan[i].path) is Some);
    let j = choose|j: int| 0 <= j < other.len() && (#[trigger] other[j]).path == item.path;
    assert(other[j] == item);
}

/// The submodules of a recursive submodule follow it: what is planned for them is the same
/// operation, for every one of them, and they are recursive again.
pub proof fn law_nested_submodules_follow(
    categories: Seq<Seq<char>>,
    bumped: Seq<Seq<char>>,
    ignored: Seq<Seq<char>>,
    operation: Operation,
    listing: Seq<Listed>,
    plan: Seq<PlannedView>,
)
    requires
        operation_for(categories, bumped, ignored) == Some(operation),
        is_plan(plan, by_path(listed(listing, categories)), bumped, ignored),
    ensures
        forall|i: int|
            0 <= i < plan.len() ==> {
                let item = #[trigger] plan[i];
                item.operation == operation && item.recursive && item.categories == categories
            },
        forall|k: int|
            0 <= k < listing.len() ==> exists|i: int|
                0 <= i < plan.len() && (#[trigger] plan[i]).path == (#[trigger] listing[k]).0,
{
    let nested = by_path(listed(listing, categories));
    assert forall|i: int| 0 <= i < plan.len() implies {
        let item = #[trigger] plan[i];
        item.operation == operation && item.recursive && item.categories == categories
    } by {
        assert(planned_at(nested, bumped, ignored, plan[i].path) is Some);
        lemma_listed_alike(listing, categories, plan[i].path);
    }
    assert forall|k: int| 0 <= k < listing.len() implies exists|i: int|
        0 <= i < plan.len() && (#[trigger] plan[i]).path == (#[trigger] listing[k]).0 by {
        lemma_listed(listing, categories, k);
        lemma_listed_alike(listing, categories, listing[k].0);
        assert(planned_at(nested, bumped, ignored, listing[k].0) is Some);
    }
}

/// Everything that a repository has is configured.
proof fn lemma_listed(listing: Seq<Listed>, categories: Seq<Seq<char>>, k: int)
    requires
        0 <= k < listing.len(),
    ensures
        by_path(listed(listing, categories)).contains_key(listing[k].0),
    decreases listing.len(),
{
    let all = listed(listing, categories);
    assert(all.last() == all[all.len() - 1]);
    assert(all.drop_last() =~= listed(listing.drop_last(), categories));
    if k < listing.len() - 1 {
        lemma_listed(listing.drop_last(), categories, k);
    }
}

/// A submodule that is to be checked out with all of its own submodules: the list of those, and
/// what is planned for them.
pub struct Level {
    pub item: PlannedView,
    pub listing: Seq<Listed>,
    pub plan: Seq<PlannedView>,
}

/// Whether each level is what is planned for a submodule of the level before, as one of a
/// repository all of whose submodules are to be checked out.
pub open spec fn is_chain(
    levels: Seq<Level>,
    bumped: Seq<Seq<char>>,
    ignored: Seq<Seq<char>>,
) -> bool {
    &&& forall|k: int|
        0 <= k < levels.len() ==> is_plan(
            (#[trigger] levels[k]).plan,
            by_path(listed(levels[k].listing, levels[k].item.categories)),
            bumped,
            ignored,
        )
    &&& forall|k: int|
        0 < k < levels.len() ==> levels[k - 1].plan.contains((#[trigger] levels[k]).item)
}

/// A recursive submodule is followed at any depth: along each chain of submodules below it, every
/// submodule of every level is planned, for the same operation, and is recursive again.
pub proof fn law_submodules_follow_at_any_depth(
    levels: Seq<Level>,
    bumped: Seq<Seq<char>>,
    ignored: Seq<Seq<char>>,
    k: int,
)
    requires
        is_chain(levels, bumped, ignored),
        levels[0].item.recursive,
        operation_for(levels[0].item.categories, bumped, ignored) == Some(levels[0].item.operation),
        0 <= k < levels.len(),
    ensures
        levels[k].item.recursive,
        levels[k].item.operation == levels[0].item.operation,
        levels[k].item.categories == levels[0].item.categories,
        forall|i: int|
            0 <= i < levels[k].plan.len() ==> {
                let item = #[trigger] levels[k].plan[i];
                item.operation == levels[0].item.operation && item.recursive && item.categories
                    == levels[0].item.categories
            },
        forall|l: int|
            0 <= l < levels[k].listing.len() ==> exists|i: int|
                0 <= i < levels[k].plan.len() && (#[trigger] levels[k].plan[i]).path == (
                #[trigger] levels[k].listing[l]).0,
    decreases k,
{
    if k > 0 {
        law_submodules_follow_at_any_depth(levels, bumped, ignored, k - 1);
        let plan = levels[k - 1].plan;
        assert(plan.contains(levels[k].item));
        let i = choose|i: int| 0 <= i < plan.len() && plan[i] == levels[k].item;
        assert(plan[i] == levels[k].item);
    }
    law_nested_submodules_follow(
        levels[k].item.categories,
        bumped,
        ignored,
        levels[k].item.operation,
        levels[k].listing,
        levels[k].plan,
    );
}

/// Everything listed of a repository is recursive and of the same categories.
proof fn lemma_listed_alike(listing: Seq<Listed>, categories: Seq<Seq<char>>, path: usize)
    requires
        by_path(listed(listing, categories)).contains_key(path),
    ensures
        by_path(listed(listing, categories))[path].categories == categories,
        by_path(listed(listing, categories))[path].recursive == Some(true),
    decreases listing.len(),
{
    let all = listed(listing, categories);
    if listing.len() > 0 {
        assert(all.last() == all[all.len() - 1]);
        assert(all.drop_last() =~= listed(listing.drop_last(), categories));
        if all.last().0 != path {
            lemma_listed_alike(listing.drop_last(), categories, path);
        }
    }
}

/// A submodule is left alone exactly where it has an ignored category; of the others, it is bumped
/// exactly where it has a bumped one, whatever other categories there are.
pub proof fn law_shared_categories_decide(
    categories: Seq<Seq<char>>,
    bumped: Seq<Seq<char>>,
    ignored: Seq<Seq<char>>,
)
    ensures
        ({
            let is_ignored = exists|c: Seq<char>| #[trigger]
                categories.contains(c) && ignored.contains(c);
            let is_bumped = exists|c: Seq<char>| #[trigger]
                categories.contains(c) && bumped.contains(c);
            let operation = operation_for(categories, bumped, ignored);
            &&& operation is None <==> is_ignored
            &&& operation == Some(Operation::Bump) <==> !is_ignored && is_bumped
            &&& operation == Some(Operation::Checkout) <==> !is_ignored && !is_bumped
        }),
{
    lemma_overlap_is_a_shared_element(categories, ignored);
    lemma_overlap_is_a_shared_element(categories, bumped);
}

proof fn lemma_overlap_is_a_shared_element(a: Seq<Seq<char>>, b: Seq<Seq<char>>)
    ensures
        overlap(a, b) <==> exists|c: Seq<char>| #[trigger] a.contains(c) && b.contains(c),
{
    if overlap(a, b) {
        let i = choose|i: int| 0 <= i < a.len() && b.contains(#[trigger] a[i]);
        assert(a.contains(a[i]) && b.contains(a[i]));
    }
    if exists|c: Seq<char>| #[trigger] a.contains(c) && b.contains(c) {
        let c = choose|c: Seq<char>| #[trigger] a.contains(c) && b.contains(c);
        let i = choose|i: int| 0 <= i < a.len() && a[i] == c;
        assert(b.contains(a[i]));
    }
}

/// A plan has each configured submodule that is not ignored exactly once, with the operation that
/// its categories call for, its own categories and name, and as a recursive one exactly where that
/// is configured; and it has nothing else.
pub proof fn law_plan_covers_the_configuration(
    plan: Seq<PlannedView>,
    config: ConfigView,
    bumped: Seq<Seq<char>>,
    ignored: Seq<Seq<char>>,
    path: usize,
)
    requires
        is_plan(plan, config, bumped, ignored),
    ensures
        config.contains_key(path) && operation_for(config[path].categories, bumped, ignored) is Some
            <==> exists|i: int| 0 <= i < plan.len() && (#[trigger] plan[i]).path == path,
        forall|i: int|
            0 <= i < plan.len() && (#[trigger] plan[i]).path == path ==> {
                &&& Some(plan[i].operation) == operation_for(
                    config[path].categories,
                    bumped,
                    ignored,
                )
                &&& plan[i].categories == config[path].categories
                &&& plan[i].name == config[path].name
                &&& plan[i].recursive <==> config[path].recursive == Some(true)
            },
        forall|i: int, j: int|
            0 <= i < plan.len() && 0 <= j < plan.len() && (#[trigger] plan[i]).path == path && (
            #[trigger] plan[j]).path == path ==> i == j,
{
    if config.contains_key(path) && operation_for(config[path].categories, bumped, ignored)
        is Some {
        assert(planned_at(config, bumped, ignored, path) is Some);
    }
    assert forall|i: int| 0 <= i < plan.len() && (#[trigger] plan[i]).path == path implies
        planned_at(config, bumped, ignored, path) == Some(plan[i]) by {}
}

/// What is planned is seen as it is.
pub proof fn law_plans_are_seen_whole(plan: Seq<Planned>)
    ensures
        plan_view(plan).len() == plan.len(),
        forall|i: int|
            0 <= i < plan.len() ==> {
                let seen = #[trigger] plan_view(plan)[i];
                &&& seen.path == plan[i].path
                &&& seen.operation == plan[i].operation
                &&& seen.recursive == plan[i].recursive
                &&& seen.categories == texts(plan[i].categories@)
                &&& seen.name == text_of(plan[i].name)
            },
{
}

/// What is decided for a submodule is what its categories call for.
pub proof fn law_what_is_decided(
    categories: &Vec<String>,
    bumped: &Vec<String>,
    ignored: &Vec<String>,
    operation: Option<Operation>,
)
    requires
        call_ensures(choose_operation, (categories, bumped, ignored), operation),
    ensures
        operation is None <==> exists|c: Seq<char>| #[trigger]
            texts(categories@).contains(c) && texts(ignored@).contains(c),
        operation is Some ==> (operation == Some(Operation::Bump) <==> exists|c: Seq<char>|
            #[trigger] texts(categories@).contains(c) && texts(bumped@).contains(c)),
{
    law_shared_categories_decide(texts(categories@), texts(bumped@), texts(ignored@));
}

} // verus!
