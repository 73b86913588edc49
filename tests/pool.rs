use std::collections::HashMap;
use std::sync::atomic::{AtomicU32, Ordering};
use std::sync::{Arc, Mutex};

use worker_pool::{Action, Event, Pool, Take, TaskChannel, WorkerState};

type Job = Box<dyn FnOnce() + Send>;

fn get_users_from_db_1(users: Arc<Mutex<Vec<HashMap<&str, &str>>>>) {
    let mut user = HashMap::<&str, &str>::new();
    user.insert("name", "toto");
    users.lock().unwrap().push(user);
}

fn get_users_from_db_2(users: Arc<Mutex<Vec<HashMap<&str, &str>>>>) {
    let mut user = HashMap::<&str, &str>::new();
    user.insert("name", "titi");
    let mut user_2 = HashMap::<&str, &str>::new();
    user_2.insert("name", "tito");
    users.lock().unwrap().push(user);
    users.lock().unwrap().push(user_2);
}

/// Lets worker `w` claim and run one task; returns whether it ran one.
fn run_one(pool: &mut Pool<Job>, w: usize) -> bool {
    match pool.claim(w) {
        Take::Task(job) => {
            assert_eq!(pool.worker_state(w), WorkerState::Running);
            job();
            pool.finish(w);
            assert_eq!(pool.worker_state(w), WorkerState::Idle);
            true
        }
        Take::Empty => false,
        Take::Closed => false,
    }
}

#[test]
fn it_works() {
    let mut pool: Pool<Job> = Pool::new(5);

    let users = Arc::new(Mutex::new(Vec::<HashMap<&str, &str>>::new()));
    let users_clone_1 = users.clone();
    let users_clone_2 = users.clone();

    let numref = Arc::new(AtomicU32::new(0));
    let ref_clone = numref.clone();
    let incr = move || {
        ref_clone.fetch_add(1, Ordering::SeqCst);
    };

    assert!(pool
        .exec(Box::new(|| {
            println!("Hi after sleep");
        }))
        .is_ok());
    assert!(pool.exec(Box::new(incr.clone())).is_ok());
    assert!(pool
        .exec(Box::new(move || get_users_from_db_1(users_clone_1.clone())))
        .is_ok());
    assert!(pool.exec(Box::new(incr)).is_ok());
    assert!(pool
        .exec(Box::new(move || get_users_from_db_2(users_clone_2.clone())))
        .is_ok());

    for w in 0..5 {
        assert!(run_one(&mut pool, w));
    }

    let res = users.lock().unwrap();
    assert_eq!(res.len(), 3);
    assert_eq!(numref.load(Ordering::SeqCst), 2);
}

#[test]
fn zero_threads_never_runs_and_tears_down() {
    let ran = Arc::new(AtomicU32::new(0));
    let r = ran.clone();
    let mut pool: Pool<Job> = Pool::new(0);
    assert_eq!(pool.num_threads(), 0);
    assert!(pool
        .exec(Box::new(move || {
            r.fetch_add(1, Ordering::SeqCst);
        }))
        .is_ok());
    assert_eq!(pool.pending_len(), 1);
    pool.shutdown();
    assert!(pool.is_drained());
    drop(pool);
    assert_eq!(ran.load(Ordering::SeqCst), 0);
}

#[test]
fn exec_after_shutdown_is_refused() {
    let ran = Arc::new(AtomicU32::new(0));
    let r = ran.clone();
    let mut pool: Pool<Job> = Pool::new(2);
    pool.shutdown();
    assert!(pool.is_shut_down());
    let refused = pool.exec(Box::new(move || {
        r.fetch_add(1, Ordering::SeqCst);
    }));
    assert!(refused.is_err());
    assert_eq!(pool.pending_len(), 0);
    // the refused task is handed back unrun
    if let Err(job) = refused {
        drop(job);
    }
    assert_eq!(ran.load(Ordering::SeqCst), 0);
    assert!(matches!(pool.claim(0), Take::Closed));
    assert_eq!(pool.worker_state(0), WorkerState::Terminated);
}

#[test]
fn tasks_leave_in_submission_order() {
    let mut pool: Pool<u32> = Pool::new(2);
    for t in [10u32, 20, 30, 40] {
        assert_eq!(pool.exec(t), Ok(()));
    }
    let mut seen = Vec::new();
    for w in [0usize, 1, 0, 1] {
        match pool.claim(w) {
            Take::Task(t) => seen.push(t),
            _ => panic!("expected a task"),
        }
        pool.finish(w);
    }
    assert_eq!(seen, vec![10, 20, 30, 40]);
    assert!(matches!(pool.claim(0), Take::Empty));
    assert_eq!(pool.worker_state(0), WorkerState::Idle);
}

#[test]
fn each_task_runs_once() {
    let count = Arc::new(AtomicU32::new(0));
    let mut pool: Pool<Job> = Pool::new(3);
    for _ in 0..7 {
        let c = count.clone();
        assert!(pool
            .exec(Box::new(move || {
                c.fetch_add(1, Ordering::SeqCst);
            }))
            .is_ok());
    }
    let mut w = 0;
    while run_one(&mut pool, w) {
        w = (w + 1) % 3;
    }
    assert_eq!(count.load(Ordering::SeqCst), 7);
    assert_eq!(pool.pending_len(), 0);
}

#[test]
fn shutdown_drains_pending_before_terminating() {
    let mut pool: Pool<u32> = Pool::new(2);
    assert_eq!(pool.exec(1), Ok(()));
    assert_eq!(pool.exec(2), Ok(()));
    pool.shutdown();
    assert!(matches!(pool.claim(0), Take::Task(1)));
    assert!(matches!(pool.claim(1), Take::Task(2)));
    pool.finish(0);
    pool.finish(1);
    assert!(!pool.is_drained());
    assert!(matches!(pool.claim(0), Take::Closed));
    assert!(!pool.is_drained());
    assert!(matches!(pool.claim(1), Take::Closed));
    assert!(pool.is_drained());
    assert_eq!(pool.exec(3), Err(3));
}

#[test]
fn all_workers_run_at_once() {
    let mut pool: Pool<u32> = Pool::new(3);
    for t in 0..4u32 {
        assert_eq!(pool.exec(t), Ok(()));
    }
    for w in 0..3 {
        assert!(matches!(pool.claim(w), Take::Task(t) if t == w as u32));
    }
    for w in 0..3 {
        assert_eq!(pool.worker_state(w), WorkerState::Running);
    }
    assert_eq!(pool.pending_len(), 1);
}

#[test]
fn idle_worker_on_empty_open_pool_blocks() {
    let mut pool: Pool<u32> = Pool::new(1);
    assert!(matches!(pool.claim(0), Take::Empty));
    assert_eq!(pool.worker_state(0), WorkerState::Idle);
    assert!(!pool.is_drained());
}

#[test]
fn channel_basics() {
    let mut ch: TaskChannel<&str> = TaskChannel::new();
    assert!(matches!(ch.take(), Take::Empty));
    assert_eq!(ch.submit("a"), Ok(()));
    assert_eq!(ch.submit("b"), Ok(()));
    assert_eq!(ch.pending_len(), 2);
    ch.close();
    assert!(ch.is_closed());
    assert_eq!(ch.submit("c"), Err("c"));
    assert!(matches!(ch.take(), Take::Task("a")));
    assert!(matches!(ch.take(), Take::Task("b")));
    assert!(matches!(ch.take(), Take::Closed));
    assert_eq!(ch.pending_len(), 0);
}

#[test]
fn worker_transitions() {
    assert_eq!(WorkerState::Idle.step(Event::Claimed), (WorkerState::Running, Action::Run));
    assert_eq!(WorkerState::Idle.step(Event::NothingPending), (WorkerState::Idle, Action::Block));
    assert_eq!(WorkerState::Idle.step(Event::ChannelClosed), (WorkerState::Terminated, Action::Exit));
    assert_eq!(WorkerState::Idle.step(Event::LockFailed), (WorkerState::Terminated, Action::Exit));
    assert_eq!(WorkerState::Running.step(Event::Finished), (WorkerState::Idle, Action::Dequeue));
    assert_eq!(WorkerState::Running.step(Event::Claimed), (WorkerState::Running, Action::Run));
    assert_eq!(WorkerState::Terminated.step(Event::Claimed), (WorkerState::Terminated, Action::Exit));
    assert_eq!(WorkerState::Terminated.step(Event::Finished), (WorkerState::Terminated, Action::Exit));
}
