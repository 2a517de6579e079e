//! The visit of one submodule: its checkout, and then that of its own submodules.
use crate::config::{
    by_path, law_only_entries_are_configured, listed, Config, ConfigView, Listed,
};
use crate::failure::{outcome, Failure};
use crate::plan::{Planned, PlannedView};
use crate::report::{outcomes, Outcome};
use crate::text::{copy_strings, texts};
use crate::CheckoutResult;
use vstd::prelude::*;

verus! {

/// How far a visit has come: what it waits for.
#[derive(Clone, Copy, Debug, PartialEq, Eq, Structural)]
pub enum Stage {
    /// The submodule is being checked out.
    CheckingOut,
    /// It was checked out, and its configuration is being read.
    ReadingConfig(CheckoutResult),
    /// It was checked out, and its own submodules are being visited.
    Descending(CheckoutResult),
    /// The visit is over.
    Finished,
}

/// What happens in a visit, with failures of type `F` and configurations of type `C`.
#[derive(Debug)]
pub enum Event<F, C> {
    /// The checkout of the submodule ended.
    CheckedOut(Result<CheckoutResult, F>),
    /// The configuration of the submodule was read, or there is none.
    ConfigRead(Result<Option<C>, F>),
    /// The visit of its own submodules ended.
    Descended(Result<(), F>),
}

/// What happens in a visit, as a value.
pub type EventView = Event<Seq<Seq<char>>, ConfigView>;

impl View for Event<Failure, Config> {
    type V = EventView;

    open spec fn view(&self) -> EventView {
        match *self {
            Event::CheckedOut(result) => Event::CheckedOut(outcome(result)),
            Event::ConfigRead(Ok(Some(config))) => Event::ConfigRead(Ok(Some(config@))),
            Event::ConfigRead(Ok(None)) => Event::ConfigRead(Ok(None)),
            Event::ConfigRead(Err(failure)) => Event::ConfigRead(Err(failure@)),
            Event::Descended(result) => Event::Descended(outcome(result)),
        }
    }
}

/// Where the configuration of a submodule comes from, with its categories of type `L`.
#[derive(Debug)]
pub enum ConfigSource<L> {
    /// All submodules that it has, with these categories.
    Repository(L),
    /// Its configuration file.
    File,
}

/// What comes next in a visit, with categories of type `L` and configurations of type `C`.
#[derive(Debug)]
pub enum Next<L, C> {
    /// Read the configuration of the submodule.
    ReadConfig(ConfigSource<L>),
    /// Visit the submodules in this configuration.
    Descend(C),
    /// The visit is over.
    Finish,
    /// The event does not fit; it is disregarded.
    Unexpected,
}

/// What comes next in a visit, as a value.
pub type NextView = Next<Seq<Seq<char>>, ConfigView>;

impl View for Next<Vec<String>, Config> {
    type V = NextView;

    open spec fn view(&self) -> NextView {
        match *self {
            Next::ReadConfig(ConfigSource::Repository(categories)) => Next::ReadConfig(
                ConfigSource::Repository(texts(categories@)),
            ),
            Next::ReadConfig(ConfigSource::File) => Next::ReadConfig(ConfigSource::File),
            Next::Descend(config) => Next::Descend(config@),
            Next::Finish => Next::Finish,
            Next::Unexpected => Next::Unexpected,
        }
    }
}

/// What follows an event: outcomes to report, and what comes next.
#[derive(Debug)]
pub struct Reaction {
    pub reports: Vec<Result<CheckoutResult, Failure>>,
    pub next: Next<Vec<String>, Config>,
}

/// What follows an event, as a value, with the stage that it leads to.
pub struct ReactionView {
    pub stage: Stage,
    pub reports: Seq<Outcome>,
    pub next: NextView,
}

/// The visit of one submodule.
#[derive(Debug)]
pub struct Visit {
    /// What is planned for the submodule.
    pub planned: Planned,
    /// The path of the submodule, for display.
    pub path: String,
    /// What the submodule is called where its checkout fails.
    pub label: String,
    pub stage: Stage,
}

/// The visit of one submodule, as a value.
#[verifier::ext_equal]
pub struct VisitView {
    pub planned: PlannedView,
    pub path: Seq<char>,
    pub label: Seq<char>,
    pub stage: Stage,
}

impl View for Visit {
    type V = VisitView;

    open spec fn view(&self) -> VisitView {
        VisitView {
            planned: self.planned@,
            path: self.path@,
            label: self.label@,
            stage: self.stage,
        }
    }
}

/// The message of a failed checkout of the submodule called `name`.
pub open spec fn failed_message(name: Seq<char>) -> Seq<char> {
    "Error while checkouting "@ + name
}

impl VisitView {
    /// What is reported of the checkout of the submodule itself.
    pub open spec fn own_report(self, result: Outcome) -> Outcome {
        match result {
            Ok(done) => Ok(done),
            Err(cause) => Err(seq![failed_message(self.label)] + cause),
        }
    }

    /// Where the configuration of the submodule comes from.
    pub open spec fn source(self) -> ConfigSource<Seq<Seq<char>>> {
        if self.planned.recursive {
            ConfigSource::Repository(self.planned.categories)
        } else {
            ConfigSource::File
        }
    }

    /// The end of the visit, with these reports.
    pub open spec fn end(self, reports: Seq<Outcome>) -> ReactionView {
        ReactionView { stage: Stage::Finished, reports, next: Next::Finish }
    }

    /// What follows an event.
    ///
    /// A submodule whose checkout failed has its own submodules left alone. What is wrong with
    /// its own submodules as a whole is reported first, its own checkout last.
    pub open spec fn react(
        self,
        event: EventView,
    ) -> ReactionView {
        match (self.stage, event) {
            (Stage::CheckingOut, Event::CheckedOut(Ok(done))) => ReactionView {
                stage: Stage::ReadingConfig(done),
                reports: seq![],
                next: Next::ReadConfig(self.source()),
            },
            (Stage::CheckingOut, Event::CheckedOut(Err(cause))) => self.end(
                seq![self.own_report(Err(cause))],
            ),
            (Stage::ReadingConfig(done), Event::ConfigRead(Ok(Some(config)))) => ReactionView {
                stage: Stage::Descending(done),
                reports: seq![],
                next: Next::Descend(config),
            },
            (Stage::ReadingConfig(done), Event::ConfigRead(Ok(None))) => self.end(
                seq![self.own_report(Ok(done))],
            ),
            (Stage::ReadingConfig(done), Event::ConfigRead(Err(failure))) => self.end(
                seq![Err(failure), self.own_report(Ok(done))],
            ),
            (Stage::Descending(done), Event::Descended(Ok(_))) => self.end(
                seq![self.own_report(Ok(done))],
            ),
            (Stage::Descending(done), Event::Descended(Err(cause))) => self.end(
                seq![Err(seq![failed_message(self.path)] + cause), self.own_report(Ok(done))],
            ),
            _ => ReactionView { stage: self.stage, reports: seq![], next: Next::Unexpected },
        }
    }
}

/// What a submodule is called where its checkout fails: its path below the root, or else the path
/// of its repository.
pub fn checkout_label(below_root: Option<String>, repository: String) -> (label: String)
    ensures
        label == match below_root {
            Some(path) => path,
            None => repository,
        },
{
    match below_root {
        Some(path) => path,
        None => repository,
    }
}

/// The message of a failed checkout of the submodule called `name`.
fn failed_text(name: &str) -> (text: String)
    ensures
        text@ == failed_message(name@),
{
    let mut text = "Error while checkouting ".to_owned();
    text.append(name);
    text
}

/// The list of one outcome.
fn single(report: Result<CheckoutResult, Failure>) -> (reports: Vec<
    Result<CheckoutResult, Failure>,
>)
    ensures
        outcomes(reports@) == seq![outcome(report)],
{
    let mut reports: Vec<Result<CheckoutResult, Failure>> = Vec::new();
    reports.push(report);
    assert(outcomes(reports@) =~= seq![outcome(report)]);
    reports
}

/// The list of a failure and the success that it follows.
fn pair(failure: Failure, done: CheckoutResult) -> (reports: Vec<Result<CheckoutResult, Failure>>)
    ensures
        outcomes(reports@) == seq![Err(failure@), Ok(done)],
{
    let mut reports: Vec<Result<CheckoutResult, Failure>> = Vec::new();
    reports.push(Err(failure));
    reports.push(Ok(done));
    assert(outcomes(reports@) =~= seq![Err(failure@), Ok(done)]);
    reports
}

impl Visit {
    /// A visit before the checkout of the submodule.
    pub fn new(planned: Planned, path: String, label: String) -> (visit: Visit)
        ensures
            visit@ == (VisitView {
                planned: planned@,
                path: path@,
                label: label@,
                stage: Stage::CheckingOut,
            }),
    {
        Visit { planned, path, label, stage: Stage::CheckingOut }
    }

    /// Where the configuration of the submodule comes from.
    fn source(&self) -> (source: ConfigSource<Vec<String>>)
        ensures
            match source {
                ConfigSource::Repository(categories) => self@.source()
                    == ConfigSource::Repository(texts(categories@)),
                ConfigSource::File => self@.source() == ConfigSource::<Seq<Seq<char>>>::File,
            },
    {
        if self.planned.recursive {
            ConfigSource::Repository(copy_strings(&self.planned.categories))
        } else {
            ConfigSource::File
        }
    }

    /// Ends the visit with these reports.
    fn end(&mut self, reports: Vec<Result<CheckoutResult, Failure>>) -> (reaction: Reaction)
        ensures
            final(self)@ == (VisitView { stage: Stage::Finished, ..old(self)@ }),
            reaction.reports == reports,
            reaction.next == Next::<Vec<String>, Config>::Finish,
    {
        self.stage = Stage::Finished;
        Reaction { reports, next: Next::Finish }
    }

    /// Takes what happened, and decides what follows.
    pub fn react(&mut self, event: Event<Failure, Config>) -> (reaction: Reaction)
        ensures
            final(self)@ == (VisitView { stage: old(self)@.react(event@).stage, ..old(self)@ }),
            outcomes(reaction.reports@) == old(self)@.react(event@).reports,
            reaction.next@ == old(self)@.react(event@).next,
    {
        let reports: Vec<Result<CheckoutResult, Failure>> = Vec::new();
        assert(outcomes(reports@) =~= seq![]);
        match (self.stage, event) {
            (Stage::CheckingOut, Event::CheckedOut(Ok(done))) => {
                self.stage = Stage::ReadingConfig(done);
                Reaction { reports, next: Next::ReadConfig(self.source()) }
            },
            (Stage::CheckingOut, Event::CheckedOut(Err(cause))) => {
                let failure = cause.context(failed_text(self.label.as_str()));
                self.end(single(Err(failure)))
            },
            (Stage::ReadingConfig(done), Event::ConfigRead(Ok(Some(config)))) => {
                self.stage = Stage::Descending(done);
                Reaction { reports, next: Next::Descend(config) }
            },
            (Stage::ReadingConfig(done), Event::ConfigRead(Ok(None))) => self.end(
                single(Ok(done)),
            ),
            (Stage::ReadingConfig(done), Event::ConfigRead(Err(failure))) => self.end(
                pair(failure, done),
            ),
            (Stage::Descending(done), Event::Descended(Ok(_))) => self.end(single(Ok(done))),
            (Stage::Descending(done), Event::Descended(Err(cause))) => {
                let failure = cause.context(failed_text(self.path.as_str()));
                self.end(pair(failure, done))
            },
            _ => Reaction { reports, next: Next::Unexpected },
        }
    }
}

/// The configuration of a recursive submodule, given whether its repository could be opened and
/// then which submodules it has.
pub fn recursive_config(
    opened: Result<Result<Vec<Listed>, Failure>, Failure>,
    categories: &Vec<String>,
) -> (config: Result<Option<Config>, Failure>)
    ensures
        match (opened, config) {
            (Ok(Ok(listing)), Ok(Some(config))) => config@ == by_path(
                listed(listing@, texts(categories@)),
            ),
            (Ok(Err(cause)), Err(failure)) => failure@ == seq![
                "Could not load config"@,
                "Could not load submodules"@,
            ] + cause@,
            (Err(cause), Err(failure)) => failure@ == seq!["Could not open submodule"@] + cause@,
            _ => false,
        },
{
    match opened {
        Ok(listing) => match Config::from_repository(listing, categories) {
            Ok(config) => Ok(Some(config)),
            Err(cause) => {
                let failure = cause.context("Could not load config".to_owned());
                proof {
                    let inner = listing->Err_0@;
                    assert(failure@ =~= seq!["Could not load config"@, "Could not load submodules"@]
                        + inner);
                }
                Err(failure)
            },
        },
        Err(cause) => Err(cause.context("Could not open submodule".to_owned())),
    }
}

/// The configuration of a submodule that is not recursive, given what its configuration file
/// holds.
pub fn file_config(
    loaded: Result<Option<Config>, Failure>,
) -> (config: Result<Option<Config>, Failure>)
    ensures
        match loaded {
            Ok(found) => config == Ok::<Option<Config>, Failure>(found),
            Err(cause) => config matches Err(failure) && failure@ == seq![
                "Error reading configuration"@,
            ] + cause@,
        },
{
    match loaded {
        Ok(found) => Ok(found),
        Err(cause) => Err(cause.context("Error reading configuration".to_owned())),
    }
}

/// The stage of a visit after these events.
pub open spec fn stage_after(
    visit: VisitView,
    events: Seq<EventView>,
) -> Stage
    decreases events.len(),
{
    if events.len() == 0 {
        visit.stage
    } else {
        let before = VisitView { stage: stage_after(visit, events.drop_last()), ..visit };
        before.react(events.last()).stage
    }
}

/// Everything that a visit reported by the end of these events, in order.
pub open spec fn reports_after(
    visit: VisitView,
    events: Seq<EventView>,
) -> Seq<Outcome>
    decreases events.len(),
{
    if events.len() == 0 {
        seq![]
    } else {
        let before = VisitView { stage: stage_after(visit, events.drop_last()), ..visit };
        reports_after(visit, events.drop_last()) + before.react(events.last()).reports
    }
}

/// Whether an event, in this stage, says that something is wrong with the submodules of a
/// submodule as a whole: their configuration could not be read, or they could not be visited.
pub open spec fn is_trouble_below(stage: Stage, event: EventView) -> bool {
    match (stage, event) {
        (Stage::ReadingConfig(_), Event::ConfigRead(Err(_))) => true,
        (Stage::Descending(_), Event::Descended(Err(_))) => true,
        _ => false,
    }
}

/// Whether something was wrong with the submodules of a submodule as a whole in its visit.
pub open spec fn had_trouble_below(visit: VisitView, events: Seq<EventView>) -> bool {
    exists|i: int|
        0 <= i < events.len() && is_trouble_below(
            stage_after(visit, #[trigger] events.take(i)),
            events[i],
        )
}

/// A visit that is over reported the checkout of its own submodule, once and last. Before that it
/// reported one failure where something was wrong with its own submodules as a whole, and nothing
/// otherwise.
pub proof fn law_visit_reports_its_checkout_last(
    visit: VisitView,
    events: Seq<EventView>,
    result: Outcome,
)
    requires
        visit.stage == Stage::CheckingOut,
        events.len() > 0,
        events[0] == EventView::CheckedOut(result),
        stage_after(visit, events) == Stage::Finished,
    ensures
        ({
            let reports = reports_after(visit, events);
            &&& reports.last() == visit.own_report(result)
            &&& if had_trouble_below(visit, events) {
                reports.len() == 2 && reports[0] is Err && result is Ok
            } else {
                reports.len() == 1
            }
        }),
{
    lemma_visit(visit, events, result);
}

/// What is reported and what is still to come of a visit.
pub proof fn lemma_visit(
    visit: VisitView,
    events: Seq<EventView>,
    result: Outcome,
)
    requires
        visit.stage == Stage::CheckingOut,
        events.len() > 0,
        events[0] == EventView::CheckedOut(result),
    ensures
        ({
            let reports = reports_after(visit, events);
            match stage_after(visit, events) {
                Stage::CheckingOut => false,
                Stage::ReadingConfig(done) => reports.len() == 0 && result == Outcome::Ok(done)
                    && !had_trouble_below(visit, events),
                Stage::Descending(done) => reports.len() == 0 && result == Outcome::Ok(done)
                    && !had_trouble_below(visit, events),
                Stage::Finished => {
                    &&& reports.len() > 0
                    &&& reports.last() == visit.own_report(result)
                    &&& if had_trouble_below(visit, events) {
                        reports.len() == 2 && reports[0] is Err && result is Ok
                    } else {
                        reports.len() == 1
                    }
                },
            }
        }),
    decreases events.len(),
{
    let front = events.drop_last();
    if events.len() == 1 {
        assert(front.len() == 0);
        assert(events.last() == events[0]);
    } else {
        assert(front[0] == events[0]);
        lemma_visit(visit, front, result);
    }
    lemma_trouble_below(visit, events);
}

/// There was trouble below where there was before the last event, or where the last event says so.
proof fn lemma_trouble_below(visit: VisitView, events: Seq<EventView>)
    requires
        events.len() > 0,
    ensures
        had_trouble_below(visit, events) <==> had_trouble_below(visit, events.drop_last())
            || is_trouble_below(stage_after(visit, events.drop_last()), events.last()),
{
    let front = events.drop_last();
    let last = events.len() - 1;
    assert(events.take(last) =~= front);
    assert forall|i: int| 0 <= i < front.len() implies #[trigger] front.take(i) == events.take(
        i,
    ) by {
        assert(front.take(i) =~= events.take(i));
    }
    if had_trouble_below(visit, events) {
        let i = choose|i: int|
            0 <= i < events.len() && is_trouble_below(
                stage_after(visit, #[trigger] events.take(i)),
                events[i],
            );
        if i < last {
            assert(is_trouble_below(stage_after(visit, front.take(i)), front[i]));
        }
    }
    if had_trouble_below(visit, front) {
        let i = choose|i: int|
            0 <= i < front.len() && is_trouble_below(
                stage_after(visit, #[trigger] front.take(i)),
                front[i],
            );
        assert(is_trouble_below(stage_after(visit, events.take(i)), events[i]));
    }
    if is_trouble_below(stage_after(visit, front), events.last()) {
        assert(is_trouble_below(stage_after(visit, events.take(last)), events[last]));
    }
}

/// The submodules of a submodule are not visited unless its checkout succeeded.
pub proof fn law_failed_checkout_ends_the_visit(visit: VisitView, cause: Seq<Seq<char>>)
    requires
        visit.stage == Stage::CheckingOut,
    ensures
        ({
            let reaction = visit.react(Event::CheckedOut(Err(cause)));
            &&& reaction.next == NextView::Finish
            &&& reaction.stage == Stage::Finished
            &&& reaction.reports == seq![visit.own_report(Err(cause))]
        }),
{
}

/// How a visit goes, whatever is planned for the submodule. A failed checkout ends it. After a
/// successful one the configuration is read: of a recursive submodule, all submodules that it has,
/// under its own categories; of any other, its configuration file. Where there is none, or none can
/// be read, the visit ends; otherwise the submodules in it, just as they were read, are visited,
/// and then the visit ends.
pub proof fn law_how_a_visit_goes(
    visit: VisitView,
    done: CheckoutResult,
    config: ConfigView,
    cause: Seq<Seq<char>>,
)
    requires
        visit.stage == Stage::CheckingOut,
    ensures
        ({
            let failed = visit.react(Event::CheckedOut(Err(cause)));
            let checked_out = visit.react(Event::CheckedOut(Ok(done)));
            let reading = VisitView { stage: checked_out.stage, ..visit };
            let read = reading.react(Event::ConfigRead(Ok(Some(config))));
            let descending = VisitView { stage: read.stage, ..visit };
            let bare = reading.react(Event::ConfigRead(Ok(None)));
            let unread = reading.react(Event::ConfigRead(Err(cause)));
            let over = descending.react(Event::Descended(Ok(())));
            let broken = descending.react(Event::Descended(Err(cause)));
            &&& failed.next == NextView::Finish
            &&& failed.reports == seq![
                Outcome::Err(seq!["Error while checkouting "@ + visit.label] + cause),
            ]
            &&& visit.planned.recursive ==> checked_out.next == NextView::ReadConfig(
                ConfigSource::Repository(visit.planned.categories),
            )
            &&& !visit.planned.recursive ==> checked_out.next == NextView::ReadConfig(
                ConfigSource::File,
            )
            &&& checked_out.reports.len() == 0
            &&& read.next == NextView::Descend(config)
            &&& read.reports.len() == 0
            &&& bare.next == NextView::Finish
            &&& bare.reports == seq![Outcome::Ok(done)]
            &&& unread.next == NextView::Finish
            &&& unread.reports == seq![Outcome::Err(cause), Outcome::Ok(done)]
            &&& over.next == NextView::Finish
            &&& over.reports == seq![Outcome::Ok(done)]
            &&& broken.next == NextView::Finish
            &&& broken.reports == seq![
                Outcome::Err(seq!["Error while checkouting "@ + visit.path] + cause),
                Outcome::Ok(done),
            ]
        }),
{
}

/// Two visits of submodules that agree on whether they are recursive, and on their categories, read
/// the same configuration, whatever else is planned for them and however their checkouts went.
pub proof fn law_recursion_decides_what_is_read(
    visit: VisitView,
    other: VisitView,
    done: CheckoutResult,
    other_done: CheckoutResult,
)
    requires
        visit.stage == Stage::CheckingOut,
        other.stage == Stage::CheckingOut,
        visit.planned.recursive == other.planned.recursive,
        visit.planned.categories == other.planned.categories,
    ensures
        visit.react(Event::CheckedOut(Ok(done))).next == other.react(
            Event::CheckedOut(Ok(other_done)),
        ).next,
        visit.react(Event::CheckedOut(Ok(done))).next is ReadConfig,
{
}

/// The checkout comes first, the configuration next, and the descent last; whatever else happens
/// is disregarded, and a visit that is over stays over.
pub proof fn law_events_come_in_turn(
    visit: VisitView,
    event: EventView,
)
    ensures
        ({
            let in_turn = match visit.stage {
                Stage::CheckingOut => event is CheckedOut,
                Stage::ReadingConfig(_) => event is ConfigRead,
                Stage::Descending(_) => event is Descended,
                Stage::Finished => false,
            };
            let reaction = visit.react(event);
            &&& !in_turn ==> reaction.next == NextView::Unexpected && reaction.stage == visit.stage
                && reaction.reports.len() == 0
            &&& in_turn ==> reaction.next !is Unexpected
            &&& reaction.next == NextView::Finish <==> in_turn && reaction.stage == Stage::Finished
        }),
{
}

/// Visits, events and what comes next are seen as they are.
pub proof fn law_visits_are_seen_whole(
    visit: Visit,
    event: Event<Failure, Config>,
    next: Next<Vec<String>, Config>,
)
    ensures
        visit@.planned == visit.planned@,
        visit@.path == visit.path@,
        visit@.label == visit.label@,
        visit@.stage == visit.stage,
        match event {
            Event::CheckedOut(Ok(done)) => event@ == EventView::CheckedOut(Ok(done)),
            Event::CheckedOut(Err(failure)) => event@ == EventView::CheckedOut(Err(failure@)),
            Event::ConfigRead(Ok(Some(config))) => event@ == EventView::ConfigRead(
                Ok(Some(config@)),
            ),
            Event::ConfigRead(Ok(None)) => event@ == EventView::ConfigRead(Ok(None)),
            Event::ConfigRead(Err(failure)) => event@ == EventView::ConfigRead(Err(failure@)),
            Event::Descended(Ok(_)) => event@ == EventView::Descended(Ok(())),
            Event::Descended(Err(failure)) => event@ == EventView::Descended(Err(failure@)),
        },
        match next {
            Next::ReadConfig(ConfigSource::Repository(categories)) => next@
                == NextView::ReadConfig(ConfigSource::Repository(texts(categories@))),
            Next::ReadConfig(ConfigSource::File) => next@ == NextView::ReadConfig(
                ConfigSource::File,
            ),
            Next::Descend(config) => next@ == NextView::Descend(config@),
            Next::Finish => next@ == NextView::Finish,
            Next::Unexpected => next@ == NextView::Unexpected,
        },
{
}

/// A submodule is called by its path below the root, or else by its repository.
pub proof fn law_what_a_submodule_is_called(
    below_root: Option<String>,
    repository: String,
    label: String,
)
    requires
        call_ensures(checkout_label, (below_root, repository), label),
    ensures
        below_root matches Some(path) ==> label@ == path@,
        below_root is None ==> label@ == repository@,
{
}

/// The configuration of a submodule is what its file holds; of a recursive one, all submodules that
/// it has. What went wrong is kept behind what could not be done.
pub proof fn law_what_is_configured_below(
    loaded: Result<Option<Config>, Failure>,
    from_file: Result<Option<Config>, Failure>,
    opened: Result<Result<Vec<Listed>, Failure>, Failure>,
    categories: &Vec<String>,
    from_repository: Result<Option<Config>, Failure>,
)
    requires
        call_ensures(file_config, (loaded,), from_file),
        call_ensures(recursive_config, (opened, categories), from_repository),
    ensures
        loaded is Ok ==> from_file == loaded,
        loaded matches Err(cause) ==> (from_file matches Err(failure) && failure@.skip(1) == cause@
            && failure@[0] == "Error reading configuration"@),
        opened matches Ok(Ok(listing)) ==> (from_repository matches Ok(Some(config)) && forall|
            i: int,
        |
            0 <= i < listing@.len() ==> config@.contains_key((#[trigger] listing@[i]).0)),
        opened matches Ok(Err(cause)) ==> (from_repository matches Err(failure) && failure@.skip(2)
            == cause@ && failure@[0] == "Could not load config"@ && failure@[1]
            == "Could not load submodules"@),
        opened matches Err(cause) ==> (from_repository matches Err(failure) && failure@.skip(1)
            == cause@ && failure@[0] == "Could not open submodule"@),
{
    if let Err(cause) = loaded {
        assert(from_file->Err_0@.skip(1) =~= cause@);
    }
    match opened {
        Ok(Ok(listing)) => {
            let all = listed(listing@, texts(categories@));
            assert forall|i: int| 0 <= i < listing@.len() implies by_path(all).contains_key(
                (#[trigger] listing@[i]).0,
            ) by {
                assert(all[i].0 == listing@[i].0);
                law_only_entries_are_configured(all, listing@[i].0);
            }
        },
        Ok(Err(cause)) => {
            assert(from_repository->Err_0@.skip(2) =~= cause@);
        },
        Err(cause) => {
            assert(from_repository->Err_0@.skip(1) =~= cause@);
        },
    }
}

} // verus!
