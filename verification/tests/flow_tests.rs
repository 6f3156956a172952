use gcm::cli::Cli;
use gcm::flow::{next_step, Action, Event, Failure, Stage};

fn cli(commit: bool, all: bool, number: u8) -> Cli {
    Cli { commit, all, number, amend: false, model: None }
}

fn drive(c: &Cli, events: &[Event]) -> (Stage, Vec<Action>) {
    let mut stage = Stage::Start;
    let mut actions = Vec::new();
    for e in events {
        let (s, a) = next_step(c, stage, *e);
        stage = s;
        actions.push(a);
    }
    (stage, actions)
}

#[test]
fn single_message_with_commit() {
    let c = cli(true, true, 1);
    let (stage, actions) = drive(
        &c,
        &[
            Event::Started,
            Event::StagingDone,
            Event::StagedChecked { has_staged: true },
            Event::ChangesCollected { api_key_present: true },
            Event::MessagesGenerated { count: 1 },
            Event::CommitDone,
        ],
    );
    assert_eq!(stage, Stage::Finished);
    assert_eq!(
        actions,
        vec![
            Action::StageAll,
            Action::CheckStaged,
            Action::CollectChanges,
            Action::Generate { suggestions: 1 },
            Action::ShowMessageAndCommit,
            Action::ReportCommitted,
        ]
    );
}

#[test]
fn suggestions_without_staging() {
    let c = cli(true, false, 3);
    let (stage, actions) = drive(
        &c,
        &[
            Event::Started,
            Event::StagedChecked { has_staged: true },
            Event::ChangesCollected { api_key_present: true },
            Event::MessagesGenerated { count: 3 },
        ],
    );
    assert_eq!(stage, Stage::Finished);
    assert_eq!(
        actions,
        vec![
            Action::CheckStaged,
            Action::CollectChanges,
            Action::Generate { suggestions: 3 },
            Action::ShowSuggestions,
        ]
    );
}

#[test]
fn single_message_without_commit() {
    let c = cli(false, false, 1);
    let (_, actions) = drive(
        &c,
        &[
            Event::Started,
            Event::StagedChecked { has_staged: true },
            Event::ChangesCollected { api_key_present: true },
            Event::MessagesGenerated { count: 1 },
        ],
    );
    assert_eq!(actions.last(), Some(&Action::ShowMessage));
}

#[test]
fn nothing_staged_stops() {
    let c = cli(false, false, 1);
    let (stage, actions) = drive(&c, &[Event::Started, Event::StagedChecked { has_staged: false }]);
    assert_eq!(stage, Stage::Finished);
    assert_eq!(actions, vec![Action::CheckStaged, Action::Fail(Failure::NoStagedChanges)]);
}

#[test]
fn missing_key_stops_before_generation() {
    let c = cli(false, false, 1);
    let (stage, actions) = drive(
        &c,
        &[
            Event::Started,
            Event::StagedChecked { has_staged: true },
            Event::ChangesCollected { api_key_present: false },
            Event::MessagesGenerated { count: 1 },
        ],
    );
    assert_eq!(stage, Stage::Finished);
    assert_eq!(actions[2], Action::Fail(Failure::MissingApiKey));
    assert_eq!(actions[3], Action::Ignore);
    assert!(!actions.iter().any(|a| matches!(a, Action::Generate { .. })));
}

#[test]
fn out_of_order_events_are_ignored() {
    let c = cli(true, false, 1);
    assert_eq!(next_step(&c, Stage::Start, Event::CommitDone), (Stage::Start, Action::Ignore));
    assert_eq!(
        next_step(&c, Stage::Finished, Event::Started),
        (Stage::Finished, Action::Ignore)
    );
}
