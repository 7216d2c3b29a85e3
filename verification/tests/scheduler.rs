use windows_toolchain_builder::error::ProgramError;
use windows_toolchain_builder::scheduler::Scheduler;
use windows_toolchain_builder::scheduler::Step;

fn download_failure(package: &str) -> ProgramError {
    ProgramError::DownloadFailure { package: package.to_string(), cause: "reset".to_string() }
}

#[test]
fn window_of_two_is_never_exceeded_by_five_jobs() {
    let mut scheduler = Scheduler::new(5, 2);
    let mut started = Vec::new();
    let mut most = 0;
    loop {
        match scheduler.next() {
            Step::Start(job) => started.push(job),
            Step::Wait => scheduler.complete(Ok(())),
            Step::Done => break,
        }
        assert!(scheduler.active() <= 2);
        most = most.max(scheduler.active());
    }
    assert_eq!(started, vec![0, 1, 2, 3, 4]);
    assert_eq!(most, 2);
    assert_eq!(scheduler.finished(), 5);
    assert_eq!(scheduler.outcome(), Ok(()));
}

#[test]
fn freed_place_goes_to_the_next_job() {
    let mut scheduler = Scheduler::new(3, 2);
    assert_eq!(scheduler.next(), Step::Start(0));
    assert_eq!(scheduler.next(), Step::Start(1));
    assert_eq!(scheduler.next(), Step::Wait);
    assert_eq!(scheduler.next(), Step::Wait);
    scheduler.complete(Ok(()));
    assert_eq!(scheduler.active(), 1);
    assert_eq!(scheduler.next(), Step::Start(2));
    assert_eq!(scheduler.next(), Step::Wait);
    scheduler.complete(Ok(()));
    scheduler.complete(Ok(()));
    assert_eq!(scheduler.next(), Step::Done);
    assert_eq!(scheduler.next(), Step::Done);
    assert_eq!(scheduler.outcome(), Ok(()));
}

#[test]
fn first_failure_is_the_result_and_nothing_is_started_after_it() {
    let mut scheduler = Scheduler::new(5, 2);
    assert_eq!(scheduler.next(), Step::Start(0));
    assert_eq!(scheduler.next(), Step::Start(1));
    scheduler.complete(Err(download_failure("first")));
    assert!(scheduler.has_failed());
    assert_eq!(scheduler.next(), Step::Wait);
    assert_eq!(scheduler.started(), 2);
    scheduler.complete(Err(download_failure("second")));
    assert_eq!(scheduler.next(), Step::Done);
    assert_eq!(scheduler.started(), 2);
    assert_eq!(scheduler.finished(), 2);
    assert_eq!(scheduler.outcome(), Err(download_failure("first")));
}

#[test]
fn failure_after_successes_is_the_result() {
    let mut scheduler = Scheduler::new(3, 1);
    assert_eq!(scheduler.next(), Step::Start(0));
    scheduler.complete(Ok(()));
    assert_eq!(scheduler.next(), Step::Start(1));
    let failure = ProgramError::ExtractionFailure {
        package: "b".to_string(),
        entry: Some("bin/x".to_string()),
        cause: "bad".to_string(),
    };
    scheduler.complete(Err(failure.clone()));
    assert_eq!(scheduler.next(), Step::Done);
    assert_eq!(scheduler.outcome(), Err(failure));
}

#[test]
fn run_without_jobs_is_over_at_once() {
    let mut scheduler = Scheduler::new(0, 4);
    assert_eq!(scheduler.next(), Step::Done);
    assert_eq!(scheduler.active(), 0);
    assert!(!scheduler.has_failed());
    assert_eq!(scheduler.outcome(), Ok(()));
}

#[test]
fn window_wider_than_the_run_starts_everything() {
    let mut scheduler = Scheduler::new(2, 8);
    assert_eq!(scheduler.next(), Step::Start(0));
    assert_eq!(scheduler.next(), Step::Start(1));
    assert_eq!(scheduler.next(), Step::Wait);
    assert_eq!(scheduler.active(), 2);
}
