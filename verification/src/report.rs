//! What is told at the end of a run.
use crate::failure::{description, outcome, Failure};
use crate::text::{decimal, decimal_text};
use crate::CheckoutResult;
use vstd::prelude::*;

verus! {

/// The outcome of the checkout of a submodule, as a value.
pub type Outcome = Result<CheckoutResult, Seq<Seq<char>>>;

/// The outcomes of a list as values.
pub open spec fn outcomes(list: Seq<Result<CheckoutResult, Failure>>) -> Seq<Outcome> {
    list.map_values(|r: Result<CheckoutResult, Failure>| outcome(r))
}

/// The successful outcomes of one kind.
pub open spec fn successes(list: Seq<Outcome>, result: CheckoutResult) -> Seq<Outcome> {
    list.filter(|o: Outcome| o == Ok::<CheckoutResult, Seq<Seq<char>>>(result))
}

/// The unsuccessful outcomes.
pub open spec fn failures(list: Seq<Outcome>) -> Seq<Outcome> {
    list.filter(|o: Outcome| o is Err)
}

/// Text in bright green.
pub open spec fn bright_green(text: Seq<char>) -> Seq<char> {
    "\x1b[92m"@ + text + "\x1b[39m"@
}

/// Text in bright red.
pub open spec fn bright_red(text: Seq<char>) -> Seq<char> {
    "\x1b[91m"@ + text + "\x1b[39m"@
}

/// Text in green.
pub open spec fn green(text: Seq<char>) -> Seq<char> {
    "\x1b[32m"@ + text + "\x1b[39m"@
}

/// Text in red.
pub open spec fn red(text: Seq<char>) -> Seq<char> {
    "\x1b[31m"@ + text + "\x1b[39m"@
}

/// Text in a dimmed style.
pub open spec fn dimmed(text: Seq<char>) -> Seq<char> {
    "\x1b[2m"@ + text + "\x1b[0m"@
}

/// The descriptions of failures, one after the other.
pub open spec fn descriptions(list: Seq<Outcome>) -> Seq<char>
    decreases list.len(),
{
    if list.len() == 0 {
        seq![]
    } else {
        descriptions(list.drop_last()) + description(list.last()->Err_0)
    }
}

/// How many submodules were moved and how many were not.
pub open spec fn counts(list: Seq<Outcome>) -> Seq<char> {
    ": "@ + green(decimal(successes(list, CheckoutResult::Changed).len())) + " checkouts, "@
        + dimmed(decimal(successes(list, CheckoutResult::Unchanged).len())) + " unchanged"@
}

/// What is told of these outcomes.
pub open spec fn summary(list: Seq<Outcome>) -> Seq<char> {
    if failures(list).len() == 0 {
        "\n"@ + bright_green("SUCCESS"@) + counts(list) + "\n"@
    } else {
        "\n"@ + bright_red("FAIL"@) + counts(list) + ", "@ + red(decimal(failures(list).len()))
            + " error(s)\n\nCommand failed due to the following error(s):\n\n"@ + descriptions(
            failures(list),
        )
    }
}

/// `owo_colors::OwoColorize::bright_green`, shown: the text between the escape sequences for a
/// bright green foreground and for the default foreground.
#[verifier::external_body]
fn bright_green_text(text: &str) -> (shown: String)
    ensures
        shown@ == bright_green(text@),
{
    format!("{}", owo_colors::OwoColorize::bright_green(&text))
}

/// `owo_colors::OwoColorize::bright_red`, shown: the text between the escape sequences for a
/// bright red foreground and for the default foreground.
#[verifier::external_body]
fn bright_red_text(text: &str) -> (shown: String)
    ensures
        shown@ == bright_red(text@),
{
    format!("{}", owo_colors::OwoColorize::bright_red(&text))
}

/// `owo_colors::OwoColorize::green`, shown: the text between the escape sequences for a green
/// foreground and for the default foreground.
#[verifier::external_body]
fn green_text(text: &str) -> (shown: String)
    ensures
        shown@ == green(text@),
{
    format!("{}", owo_colors::OwoColorize::green(&text))
}

/// `owo_colors::OwoColorize::red`, shown: the text between the escape sequences for a red
/// foreground and for the default foreground.
#[verifier::external_body]
fn red_text(text: &str) -> (shown: String)
    ensures
        shown@ == red(text@),
{
    format!("{}", owo_colors::OwoColorize::red(&text))
}

/// `owo_colors::OwoColorize::dimmed`, shown: the text between the escape sequences for a dimmed
/// style and for no style.
#[verifier::external_body]
fn dimmed_text(text: &str) -> (shown: String)
    ensures
        shown@ == dimmed(text@),
{
    format!("{}", owo_colors::OwoColorize::dimmed(&text))
}

/// What is told at the end of a run, and how the run ends.
#[derive(Debug)]
pub struct Report {
    pub text: String,
    pub result: Result<(), Failure>,
}

/// What one more outcome adds to the successful ones of one kind.
proof fn lemma_successes_push(list: Seq<Outcome>, last: Outcome, result: CheckoutResult)
    ensures
        successes(list.push(last), result) == if last == Ok::<CheckoutResult, Seq<Seq<char>>>(
            result,
        ) {
            successes(list, result).push(last)
        } else {
            successes(list, result)
        },
        successes(list, result).len() <= list.len(),
{
    reveal(Seq::filter);
    assert(list.push(last).drop_last() =~= list);
    list.lemma_filter_len(|o: Outcome| o == Ok::<CheckoutResult, Seq<Seq<char>>>(result));
}

/// What one more outcome adds to the unsuccessful ones.
proof fn lemma_failures_push(list: Seq<Outcome>, last: Outcome)
    ensures
        failures(list.push(last)) == if last is Err {
            failures(list).push(last)
        } else {
            failures(list)
        },
        failures(list).len() <= list.len(),
{
    reveal(Seq::filter);
    assert(list.push(last).drop_last() =~= list);
    list.lemma_filter_len(|o: Outcome| o is Err);
}

/// Reports the outcomes of a run. The run is successful exactly where no outcome is a failure.
pub fn report_errors(list: &Vec<Result<CheckoutResult, Failure>>) -> (report: Report)
    ensures
        report.text@ == summary(outcomes(list@)),
        match report.result {
            Ok(_) => failures(outcomes(list@)).len() == 0,
            Err(failure) => failures(outcomes(list@)).len() != 0 && failure@ == seq![
                "Command terminated with errors"@,
            ],
        },
{
    let ghost all = outcomes(list@);
    let mut changed: usize = 0;
    let mut unchanged: usize = 0;
    let mut errors: usize = 0;
    let mut described = String::new();
    let mut i: usize = 0;
    proof {
        reveal(Seq::filter);
        assert(all.take(0) =~= seq![]);
    }
    while i < list.len()
        invariant
            all == outcomes(list@),
            i <= list@.len(),
            changed == successes(all.take(i as int), CheckoutResult::Changed).len(),
            unchanged == successes(all.take(i as int), CheckoutResult::Unchanged).len(),
            errors == failures(all.take(i as int)).len(),
            changed <= i,
            unchanged <= i,
            errors <= i,
            described@ == descriptions(failures(all.take(i as int))),
        decreases list@.len() - i,
    {
        proof {
            let seen = all.take(i as int);
            let last = outcome(list@[i as int]);
            assert(all[i as int] == last);
            assert(all.take(i + 1) =~= seen.push(last));
            lemma_successes_push(seen, last, CheckoutResult::Changed);
            lemma_successes_push(seen, last, CheckoutResult::Unchanged);
            lemma_failures_push(seen, last);
            assert(failures(seen).push(last).drop_last() =~= failures(seen));
        }
        match &list[i] {
            Ok(CheckoutResult::Changed) => {
                changed = changed + 1;
            },
            Ok(CheckoutResult::Unchanged) => {
                unchanged = unchanged + 1;
            },
            Err(failure) => {
                errors = errors + 1;
                described.append(failure.describe().as_str());
            },
        }
        i = i + 1;
    }
    assert(all.take(i as int) =~= all);
    let mut counted = ": ".to_owned();
    counted.append(green_text(decimal_text(changed).as_str()).as_str());
    counted.append(" checkouts, ");
    counted.append(dimmed_text(decimal_text(unchanged).as_str()).as_str());
    counted.append(" unchanged");
    assert(counted@ =~= counts(all));
    let mut text = "\n".to_owned();
    if errors == 0 {
        text.append(bright_green_text("SUCCESS").as_str());
        text.append(counted.as_str());
        text.append("\n");
        Report { text, result: Ok(()) }
    } else {
        text.append(bright_red_text("FAIL").as_str());
        text.append(counted.as_str());
        text.append(", ");
        text.append(red_text(decimal_text(errors).as_str()).as_str());
        text.append(" error(s)\n\nCommand failed due to the following error(s):\n\n");
        text.append(described.as_str());
        Report { text, result: Err(Failure::new("Command terminated with errors".to_owned())) }
    }
}

/// Every outcome is counted once: as a move, as none, or as a failure.
pub proof fn law_every_outcome_is_counted(list: Seq<Outcome>)
    ensures
        list.len() == successes(list, CheckoutResult::Changed).len() + successes(
            list,
            CheckoutResult::Unchanged,
        ).len() + failures(list).len(),
    decreases list.len(),
{
    reveal(Seq::filter);
    if list.len() > 0 {
        let front = list.drop_last();
        law_every_outcome_is_counted(front);
        assert(list =~= front.push(list.last()));
        lemma_successes_push(front, list.last(), CheckoutResult::Changed);
        lemma_successes_push(front, list.last(), CheckoutResult::Unchanged);
        lemma_failures_push(front, list.last());
        match list.last() {
            Ok(CheckoutResult::Changed) => {},
            Ok(CheckoutResult::Unchanged) => {},
            Err(_) => {},
        }
    }
}

/// The successful outcomes of one kind are as many as a list holds.
pub proof fn lemma_successes_counted(list: Seq<Outcome>, result: CheckoutResult)
    ensures
        successes(list, result).len() == list.to_multiset().count(
            Ok::<CheckoutResult, Seq<Seq<char>>>(result),
        ),
    decreases list.len(),
{
    broadcast use vstd::seq_lib::group_to_multiset_ensures;

    reveal(Seq::filter);
    if list.len() > 0 {
        let front = list.drop_last();
        lemma_successes_counted(front, result);
        assert(list =~= front.push(list.last()));
        lemma_successes_push(front, list.last(), result);
    }
}

/// A failure is among the unsuccessful outcomes as often as a list holds it.
proof fn lemma_failures_counted(list: Seq<Outcome>, failure: Outcome)
    ensures
        failures(list).to_multiset().count(failure) == if failure is Err {
            list.to_multiset().count(failure)
        } else {
            0
        },
    decreases list.len(),
{
    broadcast use vstd::seq_lib::group_to_multiset_ensures;

    reveal(Seq::filter);
    if list.len() > 0 {
        let front = list.drop_last();
        lemma_failures_counted(front, failure);
        assert(list =~= front.push(list.last()));
        lemma_failures_push(front, list.last());
    }
}

/// In whatever order outcomes come, the run ends the same, with the same counts, and tells the
/// same failures.
pub proof fn law_order_of_outcomes_does_not_count(list: Seq<Outcome>, other: Seq<Outcome>)
    requires
        list.to_multiset() == other.to_multiset(),
    ensures
        counts(list) == counts(other),
        failures(list).len() == failures(other).len(),
        failures(list).to_multiset() == failures(other).to_multiset(),
{
    broadcast use vstd::seq_lib::group_to_multiset_ensures;

    lemma_successes_counted(list, CheckoutResult::Changed);
    lemma_successes_counted(other, CheckoutResult::Changed);
    lemma_successes_counted(list, CheckoutResult::Unchanged);
    lemma_successes_counted(other, CheckoutResult::Unchanged);
    assert forall|o: Outcome| failures(list).to_multiset().count(o) == failures(
        other,
    ).to_multiset().count(o) by {
        lemma_failures_counted(list, o);
        lemma_failures_counted(other, o);
    }
    assert(failures(list).to_multiset() =~= failures(other).to_multiset());
    assert(failures(list).to_multiset().len() == failures(list).len());
    assert(failures(other).to_multiset().len() == failures(other).len());
}

/// Outcomes are seen as they are, in order.
pub proof fn law_outcomes_are_seen_whole(list: Seq<Result<CheckoutResult, Failure>>)
    ensures
        outcomes(list).len() == list.len(),
        forall|i: int|
            0 <= i < list.len() ==> match list[i] {
                Ok(result) => #[trigger] outcomes(list)[i] == Outcome::Ok(result),
                Err(failure) => outcomes(list)[i] == Outcome::Err(failure@),
            },
{
}

/// How often an outcome of one kind, and how often a failure, is among outcomes goes up by one with
/// each such outcome and with no other, and the failures stay in their order.
pub proof fn law_each_outcome_counts_once(list: Seq<Outcome>, last: Outcome, result: CheckoutResult)
    ensures
        successes(seq![], result).len() == 0,
        failures(seq![]).len() == 0,
        successes(list.push(last), result).len() == successes(list, result).len() + if last
            == Outcome::Ok(result) {
            1nat
        } else {
            0nat
        },
        failures(list.push(last)) == match last {
            Ok(_) => failures(list),
            Err(_) => failures(list).push(last),
        },
{
    reveal(Seq::filter);
    lemma_successes_push(list, last, result);
    lemma_failures_push(list, last);
}

/// What is told of a run: whether it succeeded, how many submodules were moved and how many were
/// not, and of a run with failures their number and each of them in turn.
pub proof fn law_what_is_told(list: Seq<Outcome>)
    ensures
        ({
            let counted = ": "@ + ("\x1b[32m"@ + decimal(
                successes(list, CheckoutResult::Changed).len(),
            ) + "\x1b[39m"@) + " checkouts, "@ + ("\x1b[2m"@ + decimal(
                successes(list, CheckoutResult::Unchanged).len(),
            ) + "\x1b[0m"@) + " unchanged"@;
            &&& failures(list).len() == 0 ==> summary(list) == "\n"@ + ("\x1b[92m"@ + "SUCCESS"@
                + "\x1b[39m"@) + counted + "\n"@
            &&& failures(list).len() > 0 ==> summary(list) == "\n"@ + ("\x1b[91m"@ + "FAIL"@
                + "\x1b[39m"@) + counted + ", "@ + ("\x1b[31m"@ + decimal(failures(list).len())
                + "\x1b[39m"@)
                + " error(s)\n\nCommand failed due to the following error(s):\n\n"@
                + descriptions(failures(list))
        }),
{
}

/// Each failure is described once, in turn.
pub proof fn law_each_failure_is_described(list: Seq<Outcome>, messages: Seq<Seq<char>>)
    ensures
        descriptions(seq![]).len() == 0,
        descriptions(list.push(Err(messages))) == descriptions(list) + description(messages),
{
    assert(list.push(Err(messages)).drop_last() =~= list);
}

/// A run that is reported succeeds exactly where no outcome is a failure.
pub proof fn law_a_failure_fails_the_run(
    list: &Vec<Result<CheckoutResult, Failure>>,
    report: Report,
)
    requires
        call_ensures(report_errors, (list,), report),
    ensures
        report.result is Ok <==> forall|i: int| 0 <= i < list@.len() ==> #[trigger] list@[i] is Ok,
        report.result matches Err(failure) ==> failure@ == seq!["Command terminated with errors"@],
{
    let all = outcomes(list@);
    lemma_failures_are_errors(all);
    assert forall|i: int| 0 <= i < list@.len() implies (#[trigger] list@[i] is Ok <==> all[i]
        is Ok) by {}
    if failures(all).len() == 0 {
        assert forall|i: int| 0 <= i < list@.len() implies #[trigger] list@[i] is Ok by {
            assert(all[i] is Ok);
        }
    } else {
        let i = choose|i: int| 0 <= i < all.len() && #[trigger] all[i] is Err;
        assert(list@[i] is Err);
    }
}

/// There are failures exactly where an outcome is one.
proof fn lemma_failures_are_errors(list: Seq<Outcome>)
    ensures
        failures(list).len() > 0 <==> exists|i: int|
            0 <= i < list.len() && #[trigger] list[i] is Err,
    decreases list.len(),
{
    reveal(Seq::filter);
    if list.len() > 0 {
        let front = list.drop_last();
        lemma_failures_are_errors(front);
        assert(list =~= front.push(list.last()));
        lemma_failures_push(front, list.last());
        if failures(front).len() > 0 {
            let i = choose|i: int| 0 <= i < front.len() && #[trigger] front[i] is Err;
            assert(list[i] is Err);
        }
        if list.last() is Err {
            assert(list[list.len() - 1] is Err);
        }
        if exists|i: int| 0 <= i < list.len() && #[trigger] list[i] is Err {
            let i = choose|i: int| 0 <= i < list.len() && #[trigger] list[i] is Err;
            if i < front.len() {
                assert(front[i] is Err);
            }
        }
    }
}

} // verus!
