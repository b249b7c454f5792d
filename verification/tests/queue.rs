use transcode_watch::filter::TranscodeJob;
use transcode_watch::queue::{Dequeued, JobQueue};

fn job(input: &str) -> TranscodeJob {
    TranscodeJob::new(input.to_string())
}

#[test]
fn new_queue_is_open_and_empty() {
    let mut queue = JobQueue::new();
    assert_eq!(queue.len(), 0);
    assert!(!queue.is_closed());
    assert_eq!(queue.pop(), Dequeued::Empty);
}

#[test]
fn queue_gives_jobs_out_in_the_order_they_came_in() {
    let mut queue = JobQueue::new();
    assert_eq!(queue.push(job("/w/1.mkv")), Ok(()));
    assert_eq!(queue.push(job("/w/2.mkv")), Ok(()));
    assert_eq!(queue.push(job("/w/3.mkv")), Ok(()));
    assert_eq!(queue.len(), 3);
    assert_eq!(queue.pop(), Dequeued::Job(job("/w/1.mkv")));
    assert_eq!(queue.pop(), Dequeued::Job(job("/w/2.mkv")));
    assert_eq!(queue.len(), 1);
    assert_eq!(queue.push(job("/w/4.mkv")), Ok(()));
    assert_eq!(queue.pop(), Dequeued::Job(job("/w/3.mkv")));
    assert_eq!(queue.pop(), Dequeued::Job(job("/w/4.mkv")));
    assert_eq!(queue.pop(), Dequeued::Empty);
}

#[test]
fn queue_keeps_equal_jobs_apart() {
    let mut queue = JobQueue::new();
    assert_eq!(queue.push(job("/w/x.mkv")), Ok(()));
    assert_eq!(queue.push(job("/w/x.mkv")), Ok(()));
    assert_eq!(queue.len(), 2);
    assert_eq!(queue.pop(), Dequeued::Job(job("/w/x.mkv")));
    assert_eq!(queue.pop(), Dequeued::Job(job("/w/x.mkv")));
    assert_eq!(queue.pop(), Dequeued::Empty);
}

#[test]
fn queue_has_no_upper_bound() {
    let mut queue = JobQueue::new();
    for n in 0..10_000 {
        assert_eq!(queue.push(job(&format!("/w/{}.mkv", n))), Ok(()));
    }
    assert_eq!(queue.len(), 10_000);
    for n in 0..10_000 {
        assert_eq!(queue.pop(), Dequeued::Job(job(&format!("/w/{}.mkv", n))));
    }
    assert_eq!(queue.pop(), Dequeued::Empty);
}

#[test]
fn closed_queue_refuses_new_jobs_and_hands_them_back() {
    let mut queue = JobQueue::new();
    assert_eq!(queue.push(job("/w/1.mkv")), Ok(()));
    queue.close();
    assert!(queue.is_closed());
    assert_eq!(queue.push(job("/w/2.mkv")), Err(job("/w/2.mkv")));
    assert_eq!(queue.len(), 1);
}

#[test]
fn closed_queue_still_gives_out_what_it_holds() {
    let mut queue = JobQueue::new();
    assert_eq!(queue.push(job("/w/1.mkv")), Ok(()));
    assert_eq!(queue.push(job("/w/2.mkv")), Ok(()));
    queue.close();
    assert_eq!(queue.pop(), Dequeued::Job(job("/w/1.mkv")));
    assert_eq!(queue.pop(), Dequeued::Job(job("/w/2.mkv")));
    assert_eq!(queue.pop(), Dequeued::Closed);
    assert_eq!(queue.pop(), Dequeued::Closed);
}
