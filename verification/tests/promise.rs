use smded::promise::Promise;
use std::future::{pending, ready, Pending, Ready};
use std::task::Waker;

fn waker() -> Waker {
    Waker::noop().clone()
}

#[test]
fn new_promise_has_no_work_and_no_result() {
    let mut p: Promise<Ready<u32>> = Promise::new(waker());
    assert!(!p.is_pending());
    assert_eq!(p.response(), None);
    assert_eq!(p.take_response(), None);
}

#[test]
fn finished_work_is_taken_once() {
    let mut p: Promise<Ready<u32>> = Promise::new(waker());
    p.launch(ready(5));
    assert!(p.is_pending());
    assert_eq!(p.response(), Some(&5));
    assert!(!p.is_pending());
    assert_eq!(p.response(), Some(&5));
    assert_eq!(p.take_response(), Some(5));
    assert_eq!(p.take_response(), None);
}

#[test]
fn unfinished_work_stays_pending() {
    let mut p: Promise<Pending<u32>> = Promise::launched(waker(), pending());
    assert!(p.is_pending());
    assert_eq!(p.response(), None);
    assert_eq!(p.take_response(), None);
    assert!(p.is_pending());
}

#[test]
fn a_response_can_be_set_from_outside() {
    let mut p: Promise<Pending<u32>> = Promise::launched(waker(), pending());
    p.set_response(9);
    assert!(p.is_pending());
    assert_eq!(p.take_response(), Some(9));
    assert_eq!(p.take_response(), None);
    assert!(p.is_pending());
}

#[test]
fn a_result_is_held_while_new_work_runs() {
    let mut p: Promise<Ready<u32>> = Promise::launched(waker(), ready(1));
    assert_eq!(p.response(), Some(&1));
    p.launch(ready(2));
    assert!(p.is_pending());
    assert_eq!(p.take_response(), Some(2));
}

#[test]
fn settle_takes_in_what_polling_gave() {
    let mut p: Promise<Pending<u32>> = Promise::launched(waker(), pending());
    p.settle(None);
    assert!(p.is_pending());
    p.settle(Some(4));
    assert!(!p.is_pending());
    assert_eq!(p.take_response(), Some(4));
}
