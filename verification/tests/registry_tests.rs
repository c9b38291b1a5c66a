use redeez::{Error, Job, Queue, Redeez, Stats, StepOutcome};

type Handler = fn(Job) -> Result<(), Error>;

fn accept(_job: Job) -> Result<(), Error> {
    Ok(())
}

fn reject(_job: Job) -> Result<(), Error> {
    Err(Error::Handler)
}

fn stats_of(r: &Redeez<Handler>, name: &str) -> Stats {
    let all = r.stats().unwrap();
    all.into_iter()
        .find(|(n, _)| n == name)
        .map(|(_, s)| s)
        .unwrap()
}

#[test]
fn dispatch_increases_pending_by_one() {
    let mut r: Redeez<Handler> = Redeez::new().queue("q", accept as Handler);
    let before = stats_of(&r, "q");
    assert_eq!(before, Stats { failed: 0, pending: 0, completed: 0, processing: 0 });
    r.dispatch("q", String::from("payload")).unwrap();
    let after = stats_of(&r, "q");
    assert_eq!(after, Stats { failed: 0, pending: 1, completed: 0, processing: 0 });
}

#[test]
fn successful_processing_settles_in_completed() {
    let mut r: Redeez<Handler> = Redeez::new().queue("q", accept as Handler);
    r.dispatch("q", String::from("work")).unwrap();
    let outcome = r.consume_step("q").unwrap();
    assert_eq!(outcome, StepOutcome::Processed(true));
    let s = stats_of(&r, "q");
    assert_eq!(s, Stats { failed: 0, pending: 0, completed: 1, processing: 0 });
}

#[test]
fn failed_processing_settles_in_failed() {
    let mut r: Redeez<Handler> = Redeez::new().queue("q", reject as Handler);
    r.dispatch("q", String::from("work")).unwrap();
    let outcome = r.consume_step("q").unwrap();
    assert_eq!(outcome, StepOutcome::Processed(false));
    let s = stats_of(&r, "q");
    assert_eq!(s, Stats { failed: 1, pending: 0, completed: 0, processing: 0 });
}

#[test]
fn unknown_queue_dispatch_is_a_no_op() {
    let mut r: Redeez<Handler> = Redeez::new().queue("known", accept as Handler);
    let result = r.dispatch("nonexistent", String::from("payload"));
    assert!(result.is_ok());
    let all = r.stats().unwrap();
    assert_eq!(all.len(), 1);
    assert_eq!(all[0].0, String::from("known"));
    assert_eq!(all[0].1, Stats { failed: 0, pending: 0, completed: 0, processing: 0 });
}

#[test]
fn consume_step_is_idle_on_an_empty_queue() {
    let mut r: Redeez<Handler> = Redeez::new().queue("q", accept as Handler);
    assert_eq!(r.consume_step("q").unwrap(), StepOutcome::Idle);
}

#[test]
fn shutdown_stops_every_consumer_step() {
    let mut r: Redeez<Handler> = Redeez::new().queue("a", accept as Handler).queue("b", reject as Handler);
    r.dispatch("a", String::from("left over")).unwrap();
    r.shutdown().unwrap();
    assert_eq!(r.consume_step("a").unwrap(), StepOutcome::Stopped);
    assert_eq!(r.consume_step("b").unwrap(), StepOutcome::Stopped);
    let s = stats_of(&r, "a");
    assert_eq!(s, Stats { failed: 0, pending: 1, completed: 0, processing: 0 });
}

#[test]
fn images_resize_scenario() {
    let mut r: Redeez<Handler> = Redeez::new().queue("images:resize", accept as Handler);
    r.dispatch("images:resize", String::from("[\"image1.jpg\",\"image2.jpg\"]")).unwrap();
    assert_eq!(r.consume_step("images:resize").unwrap(), StepOutcome::Processed(true));
    let s = stats_of(&r, "images:resize");
    assert_eq!(s, Stats { pending: 0, processing: 0, completed: 1, failed: 0 });
}

#[test]
fn jobs_leave_in_arrival_order() {
    let mut r: Redeez<Handler> = Redeez::new().queue("q", accept as Handler);
    r.dispatch("q", String::from("first")).unwrap();
    r.dispatch("q", String::from("second")).unwrap();
    assert_eq!(r.consume_step("q").unwrap(), StepOutcome::Processed(true));
    assert_eq!(r.consume_step("q").unwrap(), StepOutcome::Processed(true));
    assert_eq!(r.consume_step("q").unwrap(), StepOutcome::Idle);
    let s = stats_of(&r, "q");
    assert_eq!(s, Stats { failed: 0, pending: 0, completed: 2, processing: 0 });
}

#[test]
fn re_registering_a_name_replaces_the_handler() {
    let mut r: Redeez<Handler> = Redeez::new().queue("q", accept as Handler).queue("q", reject as Handler);
    let all = r.stats().unwrap();
    assert_eq!(all.len(), 1);
    r.dispatch("q", String::from("work")).unwrap();
    assert_eq!(r.consume_step("q").unwrap(), StepOutcome::Processed(false));
    let s = stats_of(&r, "q");
    assert_eq!(s, Stats { failed: 1, pending: 0, completed: 0, processing: 0 });
}

#[test]
fn consume_step_on_unknown_name_stops() {
    let mut r: Redeez<Handler> = Redeez::new().queue("q", accept as Handler);
    assert_eq!(r.consume_step("other").unwrap(), StepOutcome::Stopped);
}

#[test]
fn malformed_entry_kills_the_loop_and_strands_in_recovery() {
    let mut q: Queue<Handler> = Queue::new("q", accept as Handler);
    q.state.pending.push(String::from("no separator at all"));
    let r = q.consume_step(false);
    assert_eq!(r, Err(Error::Encoding));
    assert_eq!(q.state.pending.len(), 0);
    assert_eq!(q.state.recovery, vec![String::from("no separator at all")]);
    assert_eq!(q.state.completed.len(), 0);
    assert_eq!(q.state.failed.len(), 0);
}

#[test]
fn queue_dispatch_stores_the_encoded_job_at_the_head() {
    let mut q: Queue<Handler> = Queue::new("q", accept as Handler);
    let job = q.dispatch(String::from("data")).unwrap();
    assert_eq!(q.state.pending.len(), 1);
    let stored = &q.state.pending[0];
    assert_eq!(*stored, job.encode());
    let decoded = Job::from_string(stored).unwrap();
    assert_eq!(decoded.payload, String::from("data"));
    assert_eq!(decoded.id, job.id);
}

#[test]
fn queue_stats_reads_all_four_lists() {
    let mut q: Queue<Handler> = Queue::new("q", accept as Handler);
    q.state.pending.push(String::from("a\n1"));
    q.state.pending.push(String::from("b\n2"));
    q.state.recovery.push(String::from("c\n3"));
    q.state.failed.push(String::from("d\n4"));
    let s = q.stats().unwrap();
    assert_eq!(s, Stats { failed: 1, pending: 2, completed: 0, processing: 1 });
}
