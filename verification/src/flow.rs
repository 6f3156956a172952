//! The course of one run: which step follows which outcome.
use vstd::prelude::*;
use crate::cli::Cli;

verus! {

/// Where a run stands.
#[derive(Clone, Copy, PartialEq, Eq, Structural, Debug)]
pub enum Stage {
    Start,
    Staging,
    CheckingStaged,
    Collecting,
    Generating,
    Committing,
    Finished,
}

/// What the last step came to.
#[derive(Clone, Copy, PartialEq, Eq, Structural, Debug)]
pub enum Event {
    Started,
    StagingDone,
    StagedChecked { has_staged: bool },
    ChangesCollected { api_key_present: bool },
    MessagesGenerated { count: usize },
    CommitDone,
}

/// Why a run stops without a message.
#[derive(Clone, Copy, PartialEq, Eq, Structural, Debug)]
pub enum Failure {
    NoStagedChanges,
    MissingApiKey,
}

/// What to do next.
#[derive(Clone, Copy, PartialEq, Eq, Structural, Debug)]
pub enum Action {
    /// Stage every change of the work tree.
    StageAll,
    /// Find out whether the index holds changes.
    CheckStaged,
    /// Read the staged diff and the project context, and look at the API key.
    CollectChanges,
    /// Ask the model for this many messages.
    Generate { suggestions: usize },
    /// Show the one message.
    ShowMessage,
    /// Show the one message, then commit with it.
    ShowMessageAndCommit,
    /// Show all the suggestions.
    ShowSuggestions,
    /// Report the commit.
    ReportCommitted,
    /// Stop with this failure.
    Fail(Failure),
    /// Nothing: the outcome does not belong to this stage.
    Ignore,
}

/// The options that steer a run.
pub struct RunOptions {
    pub commit: bool,
    pub all: bool,
    pub number: u8,
}

/// The options that steer a run, from the command line.
pub open spec fn options_of(cli: Cli) -> RunOptions {
    RunOptions { commit: cli.commit, all: cli.all, number: cli.number }
}

/// The stage and the action that follow an outcome.
pub open spec fn step(o: RunOptions, stage: Stage, event: Event) -> (Stage, Action) {
    match (stage, event) {
        (Stage::Start, Event::Started) => if o.all {
            (Stage::Staging, Action::StageAll)
        } else {
            (Stage::CheckingStaged, Action::CheckStaged)
        },
        (Stage::Staging, Event::StagingDone) => (Stage::CheckingStaged, Action::CheckStaged),
        (Stage::CheckingStaged, Event::StagedChecked { has_staged }) => if has_staged {
            (Stage::Collecting, Action::CollectChanges)
        } else {
            (Stage::Finished, Action::Fail(Failure::NoStagedChanges))
        },
        (Stage::Collecting, Event::ChangesCollected { api_key_present }) => if api_key_present {
            (Stage::Generating, Action::Generate { suggestions: o.number as usize })
        } else {
            (Stage::Finished, Action::Fail(Failure::MissingApiKey))
        },
        (Stage::Generating, Event::MessagesGenerated { count }) => if o.number == 1 {
            if o.commit {
                (Stage::Committing, Action::ShowMessageAndCommit)
            } else {
                (Stage::Finished, Action::ShowMessage)
            }
        } else {
            (Stage::Finished, Action::ShowSuggestions)
        },
        (Stage::Committing, Event::CommitDone) => (Stage::Finished, Action::ReportCommitted),
        _ => (stage, Action::Ignore),
    }
}

/// Whether an outcome can be handled at a stage: a single message is shown only when
/// the model gave at least one.
pub open spec fn step_allowed(o: RunOptions, stage: Stage, event: Event) -> bool {
    match (stage, event) {
        (Stage::Generating, Event::MessagesGenerated { count }) => o.number == 1 ==> count >= 1,
        _ => true,
    }
}

/// The stage and the action that follow an outcome of the run steered by `cli`.
pub fn next_step(cli: &Cli, stage: Stage, event: Event) -> (r: (Stage, Action))
    requires
        step_allowed(options_of(*cli), stage, event),
    ensures
        r == step(options_of(*cli), stage, event),
{
    match (stage, event) {
        (Stage::Start, Event::Started) => if cli.all {
            (Stage::Staging, Action::StageAll)
        } else {
            (Stage::CheckingStaged, Action::CheckStaged)
        },
        (Stage::Staging, Event::StagingDone) => (Stage::CheckingStaged, Action::CheckStaged),
        (Stage::CheckingStaged, Event::StagedChecked { has_staged }) => if has_staged {
            (Stage::Collecting, Action::CollectChanges)
        } else {
            (Stage::Finished, Action::Fail(Failure::NoStagedChanges))
        },
        (Stage::Collecting, Event::ChangesCollected { api_key_present }) => if api_key_present {
            (Stage::Generating, Action::Generate { suggestions: cli.number as usize })
        } else {
            (Stage::Finished, Action::Fail(Failure::MissingApiKey))
        },
        (Stage::Generating, Event::MessagesGenerated { count: _ }) => if cli.number == 1 {
            if cli.commit {
                (Stage::Committing, Action::ShowMessageAndCommit)
            } else {
                (Stage::Finished, Action::ShowMessage)
            }
        } else {
            (Stage::Finished, Action::ShowSuggestions)
        },
        (Stage::Committing, Event::CommitDone) => (Stage::Finished, Action::ReportCommitted),
        _ => (stage, Action::Ignore),
    }
}

/// The stage reached and the actions taken after a sequence of outcomes, from `start`.
pub open spec fn run(o: RunOptions, start: Stage, events: Seq<Event>) -> (Stage, Seq<Action>)
    decreases events.len(),
{
    if events.len() == 0 {
        (start, Seq::empty())
    } else {
        let (s, acts) = run(o, start, events.drop_last());
        let (s2, a) = step(o, s, events.last());
        (s2, acts.push(a))
    }
}

/// Whether `e` is among `events`.
pub open spec fn seen(events: Seq<Event>, e: Event) -> bool {
    exists|i: int| 0 <= i < events.len() && events[i] == e
}

/// Whether `a` is among `actions`.
pub open spec fn taken(actions: Seq<Action>, a: Action) -> bool {
    exists|i: int| 0 <= i < actions.len() && actions[i] == a
}

/// Whether some request for messages is among `actions`.
pub open spec fn generated(actions: Seq<Action>) -> bool {
    exists|i: int| 0 <= i < actions.len() && actions[i] is Generate
}

/// Changes are staged first only when the command line asks for it; a commit is made
/// only when it was asked for and a single message was asked for.
pub proof fn lemma_step_respects_options(o: RunOptions, stage: Stage, event: Event)
    ensures
        step(o, stage, event).1 == Action::StageAll ==> o.all,
        step(o, stage, event).1 == Action::ShowMessageAndCommit ==> o.commit && o.number == 1,
        step(o, stage, event).1 == Action::ShowMessage ==> !o.commit && o.number == 1,
        step(o, stage, event).1 == Action::ShowSuggestions ==> o.number != 1,
        step(o, stage, event).1 matches Action::Generate { suggestions } ==> suggestions
            == o.number as usize,
{
}

/// A run starts by staging every change exactly when the command line asks for it
/// (`-a`), whatever else it asks; otherwise it starts by checking for staged changes.
pub proof fn lemma_start_stages_exactly_with_all(o: RunOptions)
    ensures
        step(o, Stage::Start, Event::Started).1 == Action::StageAll <==> o.all,
        step(o, Stage::Start, Event::Started).1 == Action::CheckStaged <==> !o.all,
        o.all ==> step(o, Stage::Start, Event::Started).0 == Stage::Staging,
        !o.all ==> step(o, Stage::Start, Event::Started).0 == Stage::CheckingStaged,
        run(o, Stage::Start, seq![Event::Started]).1 == (if o.all {
            seq![Action::StageAll]
        } else {
            seq![Action::CheckStaged]
        }),
{
    let evs = seq![Event::Started];
    assert(evs.drop_last() =~= Seq::<Event>::empty());
    assert(evs.last() == Event::Started);
    assert(run(o, Stage::Start, evs.drop_last()) == (Stage::Start, Seq::<Action>::empty()));
    let a = step(o, Stage::Start, Event::Started).1;
    assert(run(o, Stage::Start, evs).1 == Seq::<Action>::empty().push(a));
    assert(Seq::<Action>::empty().push(a) =~= seq![a]);
}

/// What each outcome leads to: after staging, the staged changes are checked; with
/// staged changes they are collected, without them the run fails; with an API key
/// the model is asked for as many messages as the command line says, without one the
/// run fails; one message asked for is shown, and committed with `-c`; several are
/// shown as suggestions; a commit is reported.
pub proof fn lemma_each_outcome(o: RunOptions)
    ensures
        step(o, Stage::Staging, Event::StagingDone) == (Stage::CheckingStaged, Action::CheckStaged),
        step(o, Stage::CheckingStaged, Event::StagedChecked { has_staged: true }) == (
            Stage::Collecting,
            Action::CollectChanges,
        ),
        step(o, Stage::CheckingStaged, Event::StagedChecked { has_staged: false }) == (
            Stage::Finished,
            Action::Fail(Failure::NoStagedChanges),
        ),
        step(o, Stage::Collecting, Event::ChangesCollected { api_key_present: true }) == (
            Stage::Generating,
            Action::Generate { suggestions: o.number as usize },
        ),
        step(o, Stage::Collecting, Event::ChangesCollected { api_key_present: false }) == (
            Stage::Finished,
            Action::Fail(Failure::MissingApiKey),
        ),
        forall|count: usize|
            #![trigger step(o, Stage::Generating, Event::MessagesGenerated { count })]
            {
                let r = step(o, Stage::Generating, Event::MessagesGenerated { count });
                &&& (o.number == 1 && o.commit) ==> r == (
                    Stage::Committing,
                    Action::ShowMessageAndCommit,
                )
                &&& (o.number == 1 && !o.commit) ==> r == (Stage::Finished, Action::ShowMessage)
                &&& o.number != 1 ==> r == (Stage::Finished, Action::ShowSuggestions)
            },
        step(o, Stage::Committing, Event::CommitDone) == (Stage::Finished, Action::ReportCommitted),
        forall|e: Event| #[trigger] step(o, Stage::Finished, e) == (Stage::Finished, Action::Ignore),
{
}

/// In any run, the model is asked only after the index was found to hold staged
/// changes and an API key was found; a commit is made only after that, too, and only
/// when the command line asked for one commit with one message.
pub proof fn lemma_run_guards(o: RunOptions, events: Seq<Event>)
    ensures
        ({
            let (s, acts) = run(o, Stage::Start, events);
            &&& generated(acts) ==> seen(events, Event::StagedChecked { has_staged: true })
                && seen(events, Event::ChangesCollected { api_key_present: true })
            &&& taken(acts, Action::ShowMessageAndCommit) ==> generated(acts) && o.commit
                && o.number == 1
            &&& taken(acts, Action::StageAll) ==> o.all
        }),
{
    lemma_run_invariant(o, events);
}

proof fn lemma_run_invariant(o: RunOptions, events: Seq<Event>)
    ensures
        ({
            let (s, acts) = run(o, Stage::Start, events);
            &&& s == Stage::Collecting ==> seen(events, Event::StagedChecked { has_staged: true })
            &&& (s == Stage::Generating || s == Stage::Committing) ==> seen(
                events,
                Event::StagedChecked { has_staged: true },
            ) && seen(events, Event::ChangesCollected { api_key_present: true }) && generated(
                acts,
            )
            &&& generated(acts) ==> seen(events, Event::StagedChecked { has_staged: true })
                && seen(events, Event::ChangesCollected { api_key_present: true })
            &&& taken(acts, Action::ShowMessageAndCommit) ==> generated(acts) && o.commit
                && o.number == 1
            &&& taken(acts, Action::StageAll) ==> o.all
        }),
    decreases events.len(),
{
    if events.len() > 0 {
        let prev = events.drop_last();
        lemma_run_invariant(o, prev);
        let (s, acts) = run(o, Stage::Start, prev);
        let e = events.last();
        let (s2, a) = step(o, s, e);
        let acts2 = acts.push(a);
        assert(run(o, Stage::Start, events) == (s2, acts2));
        assert forall|x: Event| seen(prev, x) implies seen(events, x) by {
            let i = choose|i: int| 0 <= i < prev.len() && prev[i] == x;
            assert(events[i] == x);
        }
        assert(seen(events, e)) by {
            assert(events[events.len() - 1] == e);
        }
        assert forall|x: Action| taken(acts2, x) && x != a implies taken(acts, x) by {
            let i = choose|i: int| 0 <= i < acts2.len() && acts2[i] == x;
            assert(i < acts.len());
            assert(acts[i] == x);
        }
        assert(taken(acts2, a)) by {
            assert(acts2[acts.len() as int] == a);
        }
        assert(generated(acts) ==> generated(acts2)) by {
            if generated(acts) {
                let i = choose|i: int| 0 <= i < acts.len() && acts[i] is Generate;
                assert(acts2[i] == acts[i]);
            }
        }
        assert(generated(acts2) ==> generated(acts) || a is Generate) by {
            if generated(acts2) {
                let i = choose|i: int| 0 <= i < acts2.len() && acts2[i] is Generate;
                if i < acts.len() {
                    assert(acts[i] == acts2[i]);
                }
            }
        }
        assert(a is Generate ==> generated(acts2)) by {
            assert(acts2[acts.len() as int] == a);
        }
    }
}

} // verus!
