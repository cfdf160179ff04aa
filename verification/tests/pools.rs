use webserver::jobs::{Claim, JobQueue};
use webserver::pool::IdleSet;

#[test]
fn new_pool_holds_every_connection_idle() {
    let pool = IdleSet::new(vec![10, 11, 12, 13]);
    assert_eq!(pool.idle_count(), 4);
    assert_eq!(pool.checked_out_count(), 0);
    assert_eq!(pool.construction_size(), 4);
}

#[test]
fn pool_hands_out_the_oldest_idle_connection() {
    let mut pool = IdleSet::new(vec![10, 11, 12]);
    assert_eq!(pool.get_connection(), Some(10));
    assert_eq!(pool.get_connection(), Some(11));
    assert_eq!(pool.release_connection(10), Ok(()));
    assert_eq!(pool.get_connection(), Some(12));
    assert_eq!(pool.get_connection(), Some(10));
    assert_eq!(pool.get_connection(), None);
}

#[test]
fn pool_of_one_blocks_the_second_checkout_until_release() {
    let mut pool = IdleSet::new(vec!["only".to_string()]);
    let first = pool.get_connection();
    assert_eq!(first, Some("only".to_string()));
    assert_eq!(pool.get_connection(), None);
    assert_eq!(pool.get_connection(), None);
    assert_eq!(pool.idle_count(), 0);
    assert_eq!(pool.checked_out_count(), 1);
    assert_eq!(pool.release_connection(first.unwrap()), Ok(()));
    assert_eq!(pool.get_connection(), Some("only".to_string()));
    assert_eq!(pool.get_connection(), None);
}

#[test]
fn pool_counts_add_up_after_any_calls() {
    let size = 5usize;
    let mut pool = IdleSet::new((0..size).collect::<Vec<usize>>());
    let mut held: Vec<usize> = Vec::new();
    let mut seed: u32 = 12345;
    for _ in 0..2000 {
        seed = seed.wrapping_mul(1664525).wrapping_add(1013904223);
        if (seed >> 16) % 2 == 0 {
            match pool.get_connection() {
                Some(c) => {
                    assert!(!held.contains(&c));
                    held.push(c);
                }
                None => assert_eq!(held.len(), size),
            }
        } else if !held.is_empty() {
            let at = (seed >> 8) as usize % held.len();
            let c = held.swap_remove(at);
            assert_eq!(pool.release_connection(c), Ok(()));
        }
        assert_eq!(pool.idle_count() + pool.checked_out_count(), size);
        assert_eq!(pool.construction_size(), size);
        assert_eq!(pool.checked_out_count(), held.len());
    }
}

#[test]
fn pool_takes_back_no_more_than_it_lent() {
    let mut pool = IdleSet::new(vec![1, 2]);
    assert_eq!(pool.release_connection(3), Err(3));
    assert_eq!(pool.idle_count(), 2);
    assert_eq!(pool.checked_out_count(), 0);
    let mut empty: IdleSet<u8> = IdleSet::new(Vec::new());
    assert_eq!(empty.get_connection(), None);
    assert_eq!(empty.release_connection(1), Err(1));
    assert_eq!(empty.construction_size(), 0);
}

#[test]
fn new_queue_is_open_and_empty() {
    let mut queue: JobQueue<u32> = JobQueue::new();
    assert!(queue.is_open());
    assert_eq!(queue.pending_count(), 0);
    assert_eq!(queue.claim(), Claim::Wait);
}

#[test]
fn queue_hands_out_jobs_in_the_order_of_submission() {
    let mut queue: JobQueue<u32> = JobQueue::new();
    for job in [5, 3, 9] {
        assert_eq!(queue.execute(job), Ok(()));
    }
    assert_eq!(queue.pending_count(), 3);
    assert_eq!(queue.claim(), Claim::Job(5));
    assert_eq!(queue.claim(), Claim::Job(3));
    assert_eq!(queue.execute(7), Ok(()));
    assert_eq!(queue.claim(), Claim::Job(9));
    assert_eq!(queue.claim(), Claim::Job(7));
    assert_eq!(queue.claim(), Claim::Wait);
}

#[test]
fn every_job_is_claimed_by_one_worker_only() {
    let workers = 4usize;
    let mut queue: JobQueue<usize> = JobQueue::new();
    for job in 0..10 * workers {
        assert_eq!(queue.execute(job), Ok(()));
    }
    queue.close();
    let mut ran: Vec<Vec<usize>> = vec![Vec::new(); workers];
    let mut ended = vec![false; workers];
    let mut turn = 0usize;
    while ended.iter().any(|e| !e) {
        let worker = turn % workers;
        turn += 1;
        if ended[worker] {
            continue;
        }
        match queue.claim() {
            Claim::Job(job) => ran[worker].push(job),
            Claim::Wait => panic!("a closed queue lets no worker wait"),
            Claim::Exit => ended[worker] = true,
        }
    }
    let mut all: Vec<usize> = ran.iter().flatten().copied().collect();
    assert_eq!(all.len(), 10 * workers);
    all.sort();
    assert_eq!(all, (0..10 * workers).collect::<Vec<usize>>());
    for worker in 0..workers {
        assert_eq!(ran[worker].len(), 10);
    }
}

#[test]
fn closed_queue_still_hands_out_what_waits() {
    let mut queue: JobQueue<&str> = JobQueue::new();
    assert_eq!(queue.execute("a"), Ok(()));
    assert_eq!(queue.execute("b"), Ok(()));
    queue.close();
    assert!(!queue.is_open());
    assert_eq!(queue.pending_count(), 2);
    assert_eq!(queue.claim(), Claim::Job("a"));
    assert_eq!(queue.claim(), Claim::Job("b"));
    assert_eq!(queue.claim(), Claim::Exit);
    assert_eq!(queue.claim(), Claim::Exit);
}

#[test]
fn closed_queue_takes_no_job() {
    let mut queue: JobQueue<u8> = JobQueue::new();
    queue.close();
    assert_eq!(queue.execute(1), Err(1));
    assert_eq!(queue.pending_count(), 0);
    assert_eq!(queue.claim(), Claim::Exit);
}
