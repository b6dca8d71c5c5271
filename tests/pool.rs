use chat_server::pool::{JobQueue, Message};

#[test]
fn two_workers_run_five_jobs_then_stop() {
    let mut q: JobQueue<usize> = JobQueue::new(2);
    for j in 0..5 {
        q.submit(j);
    }
    q.shutdown();
    assert!(q.closed());
    assert_eq!(q.len(), 7);
    let mut runs = [0usize; 5];
    let mut alive = [true, true];
    let mut w = 0;
    while alive.iter().any(|a| *a) {
        if alive[w] {
            match q.take() {
                Some(Message::NewJob(j)) => runs[j] += 1,
                Some(Message::Terminate) => alive[w] = false,
                None => panic!("queue ran dry before every worker stopped"),
            }
        }
        w = (w + 1) % 2;
    }
    assert_eq!(runs, [1, 1, 1, 1, 1]);
    assert!(q.take().is_none());
}

#[test]
fn jobs_come_out_in_submission_order() {
    let mut q: JobQueue<u32> = JobQueue::new(1);
    q.submit(7);
    q.submit(8);
    assert!(matches!(q.take(), Some(Message::NewJob(7))));
    assert!(matches!(q.take(), Some(Message::NewJob(8))));
    assert!(q.take().is_none());
    q.shutdown();
    assert!(matches!(q.take(), Some(Message::Terminate)));
    assert!(q.take().is_none());
}

#[test]
fn shutdown_sends_one_sentinel_per_worker() {
    let mut q: JobQueue<u32> = JobQueue::new(3);
    assert_eq!(q.workers(), 3);
    assert!(!q.closed());
    q.shutdown();
    assert_eq!(q.len(), 3);
    for _ in 0..3 {
        assert!(matches!(q.take(), Some(Message::Terminate)));
    }
    assert!(q.take().is_none());
}
