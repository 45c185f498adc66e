use maplibre_native::{RequestIds, RoundRobin};

#[test]
fn sequential_requests_go_round_robin() {
    let mut rr = RoundRobin::new(3);
    let mut ids = RequestIds::new();
    for i in 0..10usize {
        assert_eq!(ids.allocate(), i as u64);
        assert_eq!(rr.select(), i % 3);
    }
    assert_eq!(rr.count(), 3);
}

#[test]
fn single_worker_takes_everything() {
    let mut rr = RoundRobin::new(1);
    for _ in 0..5 {
        assert_eq!(rr.select(), 0);
    }
}

#[test]
fn ids_and_workers_after_many_requests() {
    let mut rr = RoundRobin::new(4);
    let mut ids = RequestIds::new();
    let mut seen = Vec::new();
    for _ in 0..9 {
        seen.push((ids.allocate(), rr.select()));
    }
    assert_eq!(seen[8], (8, 0));
    assert_eq!(seen[5], (5, 1));
}
