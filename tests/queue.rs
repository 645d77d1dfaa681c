use crawler::{Request, RequestQueue};

#[test]
fn test_push_pop() {
    let mut queue = RequestQueue::new(2);
    assert_eq!(queue.is_empty(), true);
    queue.push(Request::from_str("http://domain-1.com/a"));
    assert_eq!(queue.is_empty(), false);
    assert_eq!(queue.pop().unwrap().url.as_str(), "http://domain-1.com/a");
    assert_eq!(queue.is_empty(), false);
    queue.decr_pending(&Request::from_str("http://domain-1.com/a"));
    assert_eq!(queue.is_empty(), true);
    assert_eq!(queue.pop(), None);
    assert_eq!(queue.is_empty(), true);
}

#[test]
fn test_domain_limit() {
    let mut queue = RequestQueue::new(2);
    queue.push(Request::from_str("http://domain-1.com/a"));
    queue.push(Request::from_str("http://domain-1.com/b"));
    queue.push(Request::from_str("http://domain-1.com/c"));
    assert_eq!(queue.pop().unwrap().url.as_str(), "http://domain-1.com/a");
    assert_eq!(queue.pop().unwrap().url.as_str(), "http://domain-1.com/b");
    assert_eq!(queue.pop(), None);
    queue.push(Request::from_str("http://domain-2.com/a"));
    assert_eq!(queue.pop().unwrap().url.as_str(), "http://domain-2.com/a");
    assert_eq!(queue.pop(), None);
    queue.decr_pending(&Request::from_str("http://domain-1.com/a"));
    assert_eq!(queue.pop().unwrap().url.as_str(), "http://domain-1.com/c");
    assert_eq!(queue.pop(), None);
}

#[test]
fn test_sampling() {
    let mut queue = RequestQueue::new(3);
    queue.push(Request::from_str("http://domain-1.com/a"));
    queue.push(Request::from_str("http://domain-1.com/b"));
    queue.push(Request::from_str("http://domain-1.com/c"));
    queue.push(Request::from_str("http://domain-2.com/a"));
    queue.push(Request::from_str("http://domain-2.com/b"));
    queue.push(Request::from_str("http://domain-2.com/c"));
    while let Some(request) = queue.pop() {
        println!("{:?}", request);
    }
}

#[test]
fn test_duplicates() {
    let mut queue = RequestQueue::new(3);
    queue.push(Request::from_str("http://domain-1.com/a"));
    queue.push(Request::from_str("http://domain-1.com/a"));
    assert!(queue.pop().is_some());
    assert_eq!(queue.pop(), None);
}

#[test]
fn duplicates_differing_in_fragment_are_dropped() {
    let mut queue = RequestQueue::new(3);
    queue.push(Request::from_str("http://domain-1.com/a#top"));
    queue.push(Request::from_str("http://domain-1.com/a#bottom"));
    assert_eq!(queue.pop().unwrap().url.as_str(), "http://domain-1.com/a#top");
    assert_eq!(queue.pop(), None);
}

#[test]
fn seen_urls_are_not_readmitted_after_completion() {
    let mut queue = RequestQueue::new(1);
    queue.push(Request::from_str("http://domain-1.com/a"));
    let request = queue.pop().unwrap();
    queue.decr_pending(&request);
    assert!(queue.is_empty());
    queue.push(Request::from_str("http://domain-1.com/a"));
    assert!(queue.is_empty());
    assert_eq!(queue.pop(), None);
}

#[test]
fn sampling_takes_hosts_in_order_of_arrival_within_limits() {
    let mut queue = RequestQueue::new(3);
    for url in [
        "http://domain-1.com/a",
        "http://domain-1.com/b",
        "http://domain-1.com/c",
        "http://domain-1.com/d",
        "http://domain-2.com/a",
    ] {
        queue.push(Request::from_str(url));
    }
    let mut popped = Vec::new();
    while let Some(request) = queue.pop() {
        popped.push(request.url.as_str().to_string());
    }
    assert_eq!(
        popped,
        vec![
            "http://domain-1.com/a",
            "http://domain-1.com/b",
            "http://domain-1.com/c",
            "http://domain-2.com/a",
        ]
    );
}

#[test]
fn global_limit_bounds_requests_in_flight() {
    let mut queue = RequestQueue::with_limits(2, 10);
    queue.push(Request::from_str("http://domain-1.com/a"));
    queue.push(Request::from_str("http://domain-2.com/a"));
    queue.push(Request::from_str("http://domain-3.com/a"));
    assert_eq!(queue.pop().unwrap().url.as_str(), "http://domain-1.com/a");
    assert_eq!(queue.pop().unwrap().url.as_str(), "http://domain-2.com/a");
    assert_eq!(queue.pop(), None);
    queue.decr_pending(&Request::from_str("http://domain-2.com/a"));
    assert_eq!(queue.pop().unwrap().url.as_str(), "http://domain-3.com/a");
    assert_eq!(queue.pop(), None);
}

#[test]
fn zero_per_host_limit_admits_nothing() {
    let mut queue = RequestQueue::new(0);
    queue.push(Request::from_str("http://domain-1.com/a"));
    assert_eq!(queue.pop(), None);
    assert!(!queue.is_empty());
}

#[test]
fn emptiness_needs_every_popped_request_completed() {
    let mut queue = RequestQueue::new(2);
    queue.push(Request::from_str("http://domain-1.com/a"));
    queue.push(Request::from_str("http://domain-2.com/a"));
    let first = queue.pop().unwrap();
    let second = queue.pop().unwrap();
    assert_eq!(queue.pop(), None);
    assert!(!queue.is_empty());
    queue.decr_pending(&first);
    assert!(!queue.is_empty());
    queue.decr_pending(&second);
    assert!(queue.is_empty());
}

#[test]
fn empty_queue_pops_nothing() {
    let mut queue = RequestQueue::new(4);
    assert!(queue.is_empty());
    assert_eq!(queue.pop(), None);
    assert!(queue.is_empty());
}

#[test]
fn pending_counts_follow_pop_and_completion() {
    let mut queue = RequestQueue::new(3);
    let a = Request::from_str("http://domain-1.com/a");
    queue.push(Request::from_str("http://domain-1.com/a"));
    queue.push(Request::from_str("http://domain-1.com/b"));
    assert_eq!(queue.pending_for(&a), 0);
    queue.pop();
    queue.pop();
    assert_eq!(queue.pending_for(&a), 2);
    queue.decr_pending(&a);
    assert_eq!(queue.pending_for(&a), 1);
    assert_eq!(queue.pending_for(&Request::from_str("http://domain-2.com/")), 0);
}
