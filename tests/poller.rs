use gh_ci_watch::fetcher::{FetchError, Pr, Status};
use gh_ci_watch::poller::{collect_snapshots, Command, Poller, PollerAction};

fn pr(number: u64) -> Pr {
    Pr {
        owner: "localstack".to_string(),
        repo: "localstack-ext".to_string(),
        number,
        status: Status::Queued,
        title: format!("PR {number}"),
        description: String::new(),
        num_steps: 0,
        num_complete_steps: 0,
        pr_url: format!("https://github.com/localstack/localstack-ext/pull/{number}"),
        run_url: String::new(),
    }
}

fn tick_targets(poller: &mut Poller) -> Vec<u64> {
    match poller.handle_command(Command::Tick) {
        PollerAction::FetchAll(targets) => targets,
        PollerAction::ScheduleTick => panic!("a tick must fetch"),
    }
}

#[test]
fn changes_schedule_a_tick() {
    let mut poller = Poller::new();
    assert!(matches!(poller.handle_command(Command::AddPr(1)), PollerAction::ScheduleTick));
    assert!(matches!(poller.handle_command(Command::RemovePr(1)), PollerAction::ScheduleTick));
    assert!(matches!(poller.handle_command(Command::ClearPrs), PollerAction::ScheduleTick));
}

#[test]
fn add_then_remove_restores_watch_list() {
    let mut poller = Poller::new();
    poller.handle_command(Command::AddPr(10));
    poller.handle_command(Command::AddPr(20));
    let before = poller.prs().clone();
    poller.handle_command(Command::AddPr(30));
    poller.handle_command(Command::RemovePr(30));
    assert_eq!(poller.prs(), &before);
    assert_eq!(tick_targets(&mut poller), vec![10, 20]);
}

#[test]
fn adding_twice_watches_once() {
    let mut poller = Poller::new();
    poller.handle_command(Command::AddPr(5));
    poller.handle_command(Command::AddPr(6));
    poller.handle_command(Command::AddPr(5));
    assert_eq!(poller.prs(), &vec![5, 6]);
}

#[test]
fn remove_keeps_the_others_in_order() {
    let mut poller = Poller::new();
    for n in [4, 8, 15, 16] {
        poller.handle_command(Command::AddPr(n));
    }
    poller.handle_command(Command::RemovePr(8));
    poller.handle_command(Command::RemovePr(99));
    assert_eq!(poller.prs(), &vec![4, 15, 16]);
}

#[test]
fn clear_then_tick_emits_nothing() {
    let mut poller = Poller::new();
    poller.handle_command(Command::AddPr(1));
    poller.handle_command(Command::AddPr(2));
    poller.handle_command(Command::ClearPrs);
    assert!(poller.prs().is_empty());
    let targets = tick_targets(&mut poller);
    assert!(targets.is_empty());
    let results: Vec<Result<Pr, FetchError>> = targets.iter().map(|n| Ok(pr(*n))).collect();
    assert!(collect_snapshots(results).is_empty());
}

#[test]
fn tick_keeps_watch_list() {
    let mut poller = Poller::new();
    poller.handle_command(Command::AddPr(3));
    assert_eq!(tick_targets(&mut poller), vec![3]);
    assert_eq!(poller.prs(), &vec![3]);
}

#[test]
fn failed_fetch_is_left_out_of_snapshot() {
    let results = vec![Err(FetchError::NoRuns), Ok(pr(2))];
    let snapshots = collect_snapshots(results);
    assert_eq!(snapshots.len(), 1);
    assert_eq!(snapshots[0].number, 2);
    assert_eq!(snapshots[0].title, "PR 2");
    assert_eq!(snapshots[0].status, Status::Queued);
}

#[test]
fn snapshots_keep_result_order() {
    let results = vec![
        Ok(pr(9)),
        Err(FetchError::UnhandledStatus("waiting".to_string())),
        Ok(pr(4)),
        Err(FetchError::TooManySteps),
        Ok(pr(6)),
    ];
    let numbers: Vec<u64> = collect_snapshots(results).iter().map(|p| p.number).collect();
    assert_eq!(numbers, vec![9, 4, 6]);
}
