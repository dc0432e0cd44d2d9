use rdma_transport::CompletionReqs;

#[test]
fn completion_tracker_eviction() {
    let mut reqs = CompletionReqs::new(4);
    for i in 1u8..=5 {
        reqs.add_req(&vec![i]);
    }
    assert!(!reqs.is_req_complete(&vec![1]));
    for i in 2u8..=5 {
        assert!(reqs.is_req_complete(&vec![i]));
    }
    assert_eq!(reqs.len(), 4);
    assert!(reqs.is_full());
}

#[test]
fn capacity_one_evicts_on_every_add() {
    let mut reqs = CompletionReqs::new(1);
    reqs.add_req(&b"a".to_vec());
    assert!(reqs.is_req_complete(&b"a".to_vec()));
    reqs.add_req(&b"b".to_vec());
    assert!(!reqs.is_req_complete(&b"a".to_vec()));
    assert!(reqs.is_req_complete(&b"b".to_vec()));
    reqs.add_req(&b"c".to_vec());
    assert!(!reqs.is_req_complete(&b"b".to_vec()));
    assert!(reqs.is_req_complete(&b"c".to_vec()));
    assert_eq!(reqs.len(), 1);
}

#[test]
fn repeated_id_is_kept_once() {
    let mut reqs = CompletionReqs::new(2);
    reqs.add_req(&b"x".to_vec());
    reqs.add_req(&b"x".to_vec());
    assert_eq!(reqs.len(), 1);
    reqs.add_req(&b"y".to_vec());
    reqs.add_req(&b"z".to_vec());
    assert!(!reqs.is_req_complete(&b"x".to_vec()));
    assert!(reqs.is_req_complete(&b"y".to_vec()));
    assert!(reqs.is_req_complete(&b"z".to_vec()));
}

#[test]
fn zero_capacity_keeps_nothing() {
    let mut reqs = CompletionReqs::new(0);
    reqs.add_req(&b"x".to_vec());
    assert_eq!(reqs.len(), 0);
    assert!(!reqs.is_req_complete(&b"x".to_vec()));
    assert!(reqs.is_full());
}

#[test]
fn remove_first_drops_oldest() {
    let mut reqs = CompletionReqs::new(3);
    reqs.remove_first();
    assert_eq!(reqs.len(), 0);
    reqs.add_req(&b"1".to_vec());
    reqs.add_req(&b"2".to_vec());
    assert!(!reqs.is_full());
    reqs.remove_first();
    assert!(!reqs.is_req_complete(&b"1".to_vec()));
    assert!(reqs.is_req_complete(&b"2".to_vec()));
}

#[test]
fn empty_id_is_an_id() {
    let mut reqs = CompletionReqs::new(2);
    assert!(!reqs.is_req_complete(&Vec::new()));
    reqs.add_req(&Vec::new());
    assert!(reqs.is_req_complete(&Vec::new()));
}
