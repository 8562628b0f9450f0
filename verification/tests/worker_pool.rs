use sfu_server::worker::{
    listener_port, port_range, EngineInitError, WorkerOwner, WorkerSet, PORT_BASE, PORT_COUNT,
};

fn pool_of(count: usize) -> WorkerOwner {
    WorkerOwner::new(&vec![true; count], "203.0.113.7".to_string()).unwrap()
}

#[test]
fn pool_keeps_started_workers_in_slot_order() {
    let pool = WorkerOwner::new(&vec![true, false, true], "203.0.113.7".to_string()).unwrap();
    assert_eq!(pool.len(), 2);
    assert_eq!(pool.worker_at(0), Some(WorkerSet { slot: 0, port: 31300 }));
    assert_eq!(pool.worker_at(1), Some(WorkerSet { slot: 2, port: 31302 }));
    assert_eq!(pool.worker_at(2), None);
    assert_eq!(pool.announced_address(), "203.0.113.7");
}

#[test]
fn full_pool_uses_every_port_once() {
    let pool = pool_of(PORT_COUNT);
    assert_eq!(pool.len(), 32);
    for index in 0..PORT_COUNT {
        let worker = pool.worker_at(index).unwrap();
        assert_eq!(worker.slot, index);
        assert_eq!(worker.port, 31300 + index as u16);
    }
    assert_eq!(pool.worker_at(31), Some(WorkerSet { slot: 31, port: 31331 }));
}

#[test]
fn no_outcomes_give_an_empty_pool() {
    let pool = WorkerOwner::new(&Vec::new(), "203.0.113.7".to_string()).unwrap();
    assert_eq!(pool.len(), 0);
}

#[test]
fn empty_pool_has_no_worker_to_choose() {
    let pool = WorkerOwner::new(&vec![false, false], "203.0.113.7".to_string()).unwrap();
    assert_eq!(pool.len(), 0);
    assert_eq!(pool.choose_worker(), None);
}

#[test]
fn failed_worker_beyond_the_port_block_is_left_out() {
    let mut started = vec![false; PORT_COUNT + 2];
    started[3] = true;
    let pool = WorkerOwner::new(&started, "203.0.113.7".to_string()).unwrap();
    assert_eq!(pool.len(), 1);
    assert_eq!(pool.worker_at(0), Some(WorkerSet { slot: 3, port: 31303 }));
}

#[test]
fn worker_beyond_the_port_block_is_reported() {
    let mut started = vec![false; PORT_COUNT + 3];
    started[PORT_COUNT + 1] = true;
    started[PORT_COUNT + 2] = true;
    match WorkerOwner::new(&started, "203.0.113.7".to_string()) {
        Err(error) => assert_eq!(error, EngineInitError::PortsExhausted { slot: PORT_COUNT + 1 }),
        Ok(_) => panic!("a pool was built"),
    }
    assert_eq!(PORT_BASE, 31300);
}

#[test]
fn single_worker_is_always_chosen() {
    let pool = WorkerOwner::new(&vec![false, true], "203.0.113.7".to_string()).unwrap();
    for _ in 0..50 {
        assert_eq!(pool.choose_worker(), Some(WorkerSet { slot: 1, port: 31301 }));
    }
}

#[test]
fn chosen_worker_is_in_the_pool() {
    let pool = WorkerOwner::new(&vec![true, false, true, true], "203.0.113.7".to_string()).unwrap();
    for _ in 0..200 {
        let chosen = pool.choose_worker().unwrap();
        assert!(chosen.slot == 0 || chosen.slot == 2 || chosen.slot == 3);
        assert_eq!(chosen.port, 31300 + chosen.slot as u16);
    }
}

#[test]
fn choice_is_spread_over_the_pool() {
    let pool = pool_of(4);
    let mut counts = [0usize; 4];
    for _ in 0..4000 {
        counts[pool.choose_worker().unwrap().slot] += 1;
    }
    for count in counts {
        assert!(count > 700 && count < 1300, "count {count}");
    }
}

#[test]
fn configured_core_count_wins_over_detection() {
    assert_eq!(WorkerOwner::core_count(Some(3), 8), 3);
    assert_eq!(WorkerOwner::core_count(Some(0), 8), 0);
    assert_eq!(WorkerOwner::core_count(None, 8), 8);
}

#[test]
fn media_ports_span_the_block() {
    assert_eq!(port_range(), (31300, 31331));
}

#[test]
fn detected_core_count_is_at_least_one() {
    assert!(WorkerOwner::detect_core_count(None) >= 1);
    assert_eq!(WorkerOwner::detect_core_count(Some(5)), 5);
    assert_eq!(WorkerOwner::detect_core_count(Some(0)), 0);
}

#[test]
fn listener_ports_follow_the_slots() {
    assert_eq!(listener_port(0), Some(31300));
    assert_eq!(listener_port(7), Some(31307));
    assert_eq!(listener_port(31), Some(31331));
    assert_eq!(listener_port(32), None);
    assert_eq!(listener_port(usize::MAX), None);
}
