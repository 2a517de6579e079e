//! The visits of all submodules below a repository, and what they report together.
//!
//! The submodules of one repository are visited side by side, so their reports come in any order.
//! The visit of a submodule goes on only when those of its own submodules are over.
use crate::config::{by_path, law_only_entries_are_configured, listed, ConfigView, Listed};
use crate::plan::{is_plan, law_nested_submodules_follow, planned_at, PlannedView};
use crate::report::{
    failures, law_every_outcome_is_counted, lemma_successes_counted, successes, Outcome,
};
use crate::visit::{
    had_trouble_below, law_visit_reports_its_checkout_last, lemma_visit, reports_after,
    stage_after, ConfigSource, EventView, NextView, Stage, VisitView,
};
use crate::CheckoutResult;
use vstd::prelude::*;

verus! {

/// The visit of a submodule, and those of its own submodules.
pub struct Node {
    /// The visit at its start.
    pub visit: VisitView,
    /// What happened in the visit.
    pub events: Seq<EventView>,
    /// The visits of its own submodules.
    pub below: Seq<Node>,
}

impl Node {
    /// Whether the visit took place, from its start to its end.
    pub open spec fn is_over(self) -> bool {
        &&& self.visit.stage == Stage::CheckingOut
        &&& self.events.len() > 0
        &&& self.events[0] is CheckedOut
        &&& stage_after(self.visit, self.events) == Stage::Finished
    }

    /// How the checkout of the submodule ended.
    pub open spec fn result(self) -> Outcome {
        self.events[0]->CheckedOut_0
    }

    /// What the visit itself reported, in order.
    pub open spec fn reports(self) -> Seq<Outcome> {
        reports_after(self.visit, self.events)
    }

    /// Whether something was wrong with its own submodules as a whole.
    pub open spec fn has_trouble(self) -> bool {
        had_trouble_below(self.visit, self.events)
    }

    /// Whether the submodules in this configuration were to be visited.
    pub open spec fn descends_to(self, config: ConfigView) -> bool {
        exists|i: int|
            0 <= i < self.events.len() && (VisitView {
                stage: stage_after(self.visit, #[trigger] self.events.take(i)),
                ..self.visit
            }).react(self.events[i]).next == NextView::Descend(config)
    }
}

/// What is planned for the submodules that are visited.
pub open spec fn plans(forest: Seq<Node>) -> Seq<PlannedView> {
    forest.map_values(|n: Node| n.visit.planned)
}

/// Whether these visits took place, and in each of them those of the submodules that were to be
/// visited, and no others.
pub open spec fn took_place(
    forest: Seq<Node>,
    bumped: Seq<Seq<char>>,
    ignored: Seq<Seq<char>>,
) -> bool
    decreases forest,
{
    forall|i: int|
        0 <= i < forest.len() ==> {
            let node = #[trigger] forest[i];
            &&& node.is_over()
            &&& forall|config: ConfigView| #[trigger]
                node.descends_to(config) ==> is_plan(plans(node.below), config, bumped, ignored)
            &&& (forall|config: ConfigView| !#[trigger] node.descends_to(config))
                ==> node.below.len() == 0
            &&& took_place(node.below, bumped, ignored)
        }
}

/// How many visits, at any depth, are such that `p`.
pub open spec fn tally(forest: Seq<Node>, p: spec_fn(Node) -> bool) -> nat
    decreases forest,
{
    if forest.len() == 0 {
        0
    } else {
        tally(forest.drop_last(), p) + tally(forest.last().below, p) + if p(forest.last()) {
            1nat
        } else {
            0nat
        }
    }
}

/// Whether a list holds the elements of two others, each in its order.
pub open spec fn is_shuffle(a: Seq<Outcome>, b: Seq<Outcome>, list: Seq<Outcome>) -> bool
    decreases list.len(),
{
    if list.len() == 0 {
        a.len() == 0 && b.len() == 0
    } else {
        ||| a.len() > 0 && a.last() == list.last() && is_shuffle(
            a.drop_last(),
            b,
            list.drop_last(),
        )
        ||| b.len() > 0 && b.last() == list.last() && is_shuffle(
            a,
            b.drop_last(),
            list.drop_last(),
        )
    }
}

/// Whether these visits can report this, in this order: what they report each comes in any order
/// among them, and what is below a submodule reports first, then the submodule itself.
pub open spec fn can_report(forest: Seq<Node>, list: Seq<Outcome>) -> bool
    decreases forest,
{
    if forest.len() == 0 {
        list.len() == 0
    } else {
        exists|others: Seq<Outcome>, below: Seq<Outcome>|
            can_report(forest.drop_last(), others) && can_report(forest.last().below, below)
                && #[trigger] is_shuffle(others, below + forest.last().reports(), list)
    }
}

/// A list that is shuffled from two others holds what they hold.
proof fn lemma_shuffle(a: Seq<Outcome>, b: Seq<Outcome>, list: Seq<Outcome>)
    requires
        is_shuffle(a, b, list),
    ensures
        list.len() == a.len() + b.len(),
        list.to_multiset() == a.to_multiset().add(b.to_multiset()),
    decreases list.len(),
{
    broadcast use vstd::seq_lib::group_to_multiset_ensures;

    if list.len() == 0 {
        assert(list =~= seq![]);
        assert(a =~= seq![]);
        assert(b =~= seq![]);
        assert(list.to_multiset() =~= a.to_multiset().add(b.to_multiset()));
    } else {
        let front = list.drop_last();
        assert(list =~= front.push(list.last()));
        if a.len() > 0 && a.last() == list.last() && is_shuffle(a.drop_last(), b, front) {
            lemma_shuffle(a.drop_last(), b, front);
            assert(a =~= a.drop_last().push(a.last()));
        } else {
            lemma_shuffle(a, b.drop_last(), front);
            assert(b =~= b.drop_last().push(b.last()));
        }
        assert(list.to_multiset() =~= a.to_multiset().add(b.to_multiset()));
    }
}

/// A list that is shuffled from nothing and another is that other.
proof fn lemma_shuffle_alone(b: Seq<Outcome>, list: Seq<Outcome>)
    requires
        is_shuffle(seq![], b, list),
    ensures
        list == b,
    decreases list.len(),
{
    if list.len() > 0 {
        lemma_shuffle_alone(b.drop_last(), list.drop_last());
        assert(list =~= list.drop_last().push(list.last()));
        assert(b =~= b.drop_last().push(b.last()));
    }
}

/// What a visit itself reported, counted.
proof fn lemma_own_reports(node: Node, result: CheckoutResult)
    requires
        node.is_over(),
    ensures
        node.reports().len() == 1 + if node.has_trouble() {
            1nat
        } else {
            0nat
        },
        node.reports().to_multiset().count(Outcome::Ok(result)) == if node.result()
            == Outcome::Ok(result) {
            1nat
        } else {
            0nat
        },
{
    broadcast use vstd::seq_lib::group_to_multiset_ensures;

    law_visit_reports_its_checkout_last(node.visit, node.events, node.result());
    let reports = node.reports();
    let empty = Seq::<Outcome>::empty();
    if node.has_trouble() {
        assert(reports =~= empty.push(reports[0]).push(reports[1]));
    } else {
        assert(reports =~= empty.push(reports[0]));
    }
}

/// The visits below a node took place where its own did.
proof fn lemma_took_place(forest: Seq<Node>, bumped: Seq<Seq<char>>, ignored: Seq<Seq<char>>)
    requires
        forest.len() > 0,
        took_place(forest, bumped, ignored),
    ensures
        took_place(forest.drop_last(), bumped, ignored),
        forest.last().is_over(),
        took_place(forest.last().below, bumped, ignored),
{
    let front = forest.drop_last();
    assert(forest[forest.len() - 1].is_over());
    assert forall|i: int| 0 <= i < front.len() implies {
        let node = #[trigger] front[i];
        &&& node.is_over()
        &&& forall|config: ConfigView| #[trigger]
            node.descends_to(config) ==> is_plan(plans(node.below), config, bumped, ignored)
        &&& (forall|config: ConfigView| !#[trigger] node.descends_to(config)) ==> node.below.len()
            == 0
        &&& took_place(node.below, bumped, ignored)
    } by {
        assert(front[i] == forest[i]);
    }
}

/// What visits at any depth report, counted.
proof fn lemma_reports(
    forest: Seq<Node>,
    list: Seq<Outcome>,
    bumped: Seq<Seq<char>>,
    ignored: Seq<Seq<char>>,
    result: CheckoutResult,
)
    requires
        took_place(forest, bumped, ignored),
        can_report(forest, list),
    ensures
        list.len() == tally(forest, |n: Node| true) + tally(forest, |n: Node| n.has_trouble()),
        list.to_multiset().count(Outcome::Ok(result)) == tally(
            forest,
            |n: Node| n.result() == Outcome::Ok(result),
        ),
    decreases forest,
{
    broadcast use vstd::seq_lib::group_to_multiset_ensures;

    if forest.len() == 0 {
        assert(list =~= seq![]);
    } else {
        let node = forest.last();
        let (others, below) = choose|others: Seq<Outcome>, below: Seq<Outcome>|
            can_report(forest.drop_last(), others) && can_report(forest.last().below, below)
                && #[trigger] is_shuffle(others, below + forest.last().reports(), list);
        lemma_took_place(forest, bumped, ignored);
        assert(node == forest[forest.len() - 1]);
        lemma_reports(forest.drop_last(), others, bumped, ignored, result);
        lemma_reports(node.below, below, bumped, ignored, result);
        lemma_own_reports(node, result);
        lemma_shuffle(others, below + node.reports(), list);
        vstd::seq_lib::lemma_multiset_commutative(below, node.reports());
    }
}

/// Every checkout succeeded, one way or the other, or failed.
proof fn lemma_tally_splits(forest: Seq<Node>)
    ensures
        tally(forest, |n: Node| true) == tally(
            forest,
            |n: Node| n.result() == Outcome::Ok(CheckoutResult::Changed),
        ) + tally(forest, |n: Node| n.result() == Outcome::Ok(CheckoutResult::Unchanged)) + tally(
            forest,
            |n: Node| n.result() is Err,
        ),
    decreases forest,
{
    if forest.len() > 0 {
        assert(forest.last() == forest[forest.len() - 1]);
        lemma_tally_splits(forest.drop_last());
        lemma_tally_splits(forest.last().below);
        match forest.last().result() {
            Ok(CheckoutResult::Changed) => {},
            Ok(CheckoutResult::Unchanged) => {},
            Err(_) => {},
        }
    }
}

/// Over all submodules at any depth, there is one report for each checkout, as a success of its
/// kind or as a failure, and one more failure for each submodule whose own submodules could not be
/// told or visited as a whole; there are no others.
pub proof fn law_reports_add_up(
    forest: Seq<Node>,
    list: Seq<Outcome>,
    bumped: Seq<Seq<char>>,
    ignored: Seq<Seq<char>>,
)
    requires
        took_place(forest, bumped, ignored),
        can_report(forest, list),
    ensures
        list.len() == tally(forest, |n: Node| true) + tally(forest, |n: Node| n.has_trouble()),
        successes(list, CheckoutResult::Changed).len() == tally(
            forest,
            |n: Node| n.result() == Outcome::Ok(CheckoutResult::Changed),
        ),
        successes(list, CheckoutResult::Unchanged).len() == tally(
            forest,
            |n: Node| n.result() == Outcome::Ok(CheckoutResult::Unchanged),
        ),
        failures(list).len() == tally(forest, |n: Node| n.result() is Err) + tally(
            forest,
            |n: Node| n.has_trouble(),
        ),
{
    lemma_reports(forest, list, bumped, ignored, CheckoutResult::Changed);
    lemma_reports(forest, list, bumped, ignored, CheckoutResult::Unchanged);
    lemma_successes_counted(list, CheckoutResult::Changed);
    lemma_successes_counted(list, CheckoutResult::Unchanged);
    law_every_outcome_is_counted(list);
    lemma_tally_splits(forest);
}

/// A run is without failures exactly where, at any depth, every checkout succeeded and nothing was
/// wrong with the submodules of a submodule as a whole.
pub proof fn law_run_fails_with_any_submodule(
    forest: Seq<Node>,
    list: Seq<Outcome>,
    bumped: Seq<Seq<char>>,
    ignored: Seq<Seq<char>>,
)
    requires
        took_place(forest, bumped, ignored),
        can_report(forest, list),
    ensures
        failures(list).len() == 0 <==> tally(
            forest,
            |n: Node| n.result() is Err || n.has_trouble(),
        ) == 0,
{
    law_reports_add_up(forest, list, bumped, ignored);
    lemma_tally_either(forest);
}

/// Nothing failed where neither of the two failed.
proof fn lemma_tally_either(forest: Seq<Node>)
    ensures
        tally(forest, |n: Node| n.result() is Err || n.has_trouble()) == 0 <==> tally(
            forest,
            |n: Node| n.result() is Err,
        ) == 0 && tally(forest, |n: Node| n.has_trouble()) == 0,
    decreases forest,
{
    if forest.len() > 0 {
        assert(forest.last() == forest[forest.len() - 1]);
        lemma_tally_either(forest.drop_last());
        lemma_tally_either(forest.last().below);
    }
}

/// Everything that is below a submodule is reported before the submodule, whose own checkout comes
/// last of all.
pub proof fn law_submodules_are_reported_before_their_parent(
    node: Node,
    list: Seq<Outcome>,
    bumped: Seq<Seq<char>>,
    ignored: Seq<Seq<char>>,
)
    requires
        took_place(seq![node], bumped, ignored),
        can_report(seq![node], list),
    ensures
        exists|below: Seq<Outcome>| #[trigger]
            can_report(node.below, below) && list == below + node.reports(),
        list.len() > 0,
        list.last() == node.visit.own_report(node.result()),
{
    let forest = seq![node];
    assert(forest.drop_last() =~= seq![]);
    assert(forest.last() == node);
    let (others, below) = choose|others: Seq<Outcome>, below: Seq<Outcome>|
        can_report(forest.drop_last(), others) && can_report(forest.last().below, below)
            && #[trigger] is_shuffle(others, below + forest.last().reports(), list);
    assert(others =~= seq![]);
    lemma_shuffle_alone(below + node.reports(), list);
    lemma_took_place(forest, bumped, ignored);
    law_visit_reports_its_checkout_last(node.visit, node.events, node.result());
}

/// A recursive submodule whose own submodules were listed, as its visit asked for, has every one of
/// them visited, for the same operation as itself and as a recursive one of the same categories,
/// and no others.
pub proof fn law_recursive_submodules_are_followed(
    forest: Seq<Node>,
    config: ConfigView,
    bumped: Seq<Seq<char>>,
    ignored: Seq<Seq<char>>,
    i: int,
    k: int,
    listing: Seq<Listed>,
)
    requires
        took_place(forest, bumped, ignored),
        is_plan(plans(forest), config, bumped, ignored),
        0 <= i < forest.len(),
        forest[i].visit.planned.recursive,
        0 <= k < forest[i].events.len(),
        stage_after(forest[i].visit, forest[i].events.take(k)) is ReadingConfig,
        forest[i].events[k] == EventView::ConfigRead(
            Ok(Some(by_path(listed(listing, forest[i].visit.planned.categories)))),
        ),
    ensures
        forest[i].visit.react(forest[i].events[0]).next == NextView::ReadConfig(
            ConfigSource::Repository(forest[i].visit.planned.categories),
        ),
        forall|l: int|
            0 <= l < listing.len() ==> exists|j: int|
                0 <= j < forest[i].below.len() && (
                #[trigger] forest[i].below[j]).visit.planned.path == (#[trigger] listing[l]).0,
        forall|j: int|
            0 <= j < forest[i].below.len() ==> {
                let nested = (#[trigger] forest[i].below[j]).visit.planned;
                &&& nested.operation == forest[i].visit.planned.operation
                &&& nested.recursive
                &&& nested.categories == forest[i].visit.planned.categories
                &&& exists|l: int|
                    0 <= l < listing.len() && (#[trigger] listing[l]).0 == nested.path
            },
{
    let node = forest[i];
    let planned = node.visit.planned;
    let found = by_path(listed(listing, planned.categories));
    let past = node.events.take(k);
    if k == 0 {
        assert(past =~= seq![]);
    }
    assert(past[0] == node.events[0]);
    lemma_visit(node.visit, past, node.result());
    let reading = VisitView { stage: stage_after(node.visit, past), ..node.visit };
    assert(reading.react(node.events[k]).next == NextView::Descend(found));
    assert(node.descends_to(found));
    let plan = plans(node.below);
    assert(is_plan(plan, found, bumped, ignored));
    assert(plans(forest)[i] == planned);
    assert(planned_at(config, bumped, ignored, planned.path) == Some(planned));
    law_nested_submodules_follow(
        planned.categories,
        bumped,
        ignored,
        planned.operation,
        listing,
        plan,
    );
    assert forall|l: int| 0 <= l < listing.len() implies exists|j: int|
        0 <= j < node.below.len() && (#[trigger] node.below[j]).visit.planned.path == (
        #[trigger] listing[l]).0 by {
        let j = choose|j: int|
            0 <= j < plan.len() && (#[trigger] plan[j]).path == (#[trigger] listing[l]).0;
        assert(node.below[j].visit.planned == plan[j]);
    }
    assert forall|j: int| 0 <= j < node.below.len() implies {
        let nested = (#[trigger] node.below[j]).visit.planned;
        &&& nested.operation == planned.operation
        &&& nested.recursive
        &&& nested.categories == planned.categories
        &&& exists|l: int| 0 <= l < listing.len() && (#[trigger] listing[l]).0 == nested.path
    } by {
        assert(plan[j] == node.below[j].visit.planned);
        let path = plan[j].path;
        assert(planned_at(found, bumped, ignored, path) is Some);
        law_only_entries_are_configured(listed(listing, planned.categories), path);
        let all = listed(listing, planned.categories);
        let l = choose|l: int| 0 <= l < all.len() && (#[trigger] all[l]).0 == path;
        assert(listing[l].0 == path);
    }
}

} // verus!
