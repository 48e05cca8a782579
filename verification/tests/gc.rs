use copr_endpoint::gc::{data_min_key, gc_worker, Tick, GC_SAFEPOINT};
use copr_endpoint::response::Error;

#[test]
fn test_gc_worker_defaults() {
    let worker = gc_worker::new();
    assert_eq!(worker.safepoint, 0);
    assert_eq!(worker.refresh_safepoint_tick_interval, 600000);
    assert_eq!(worker.gc_one_region_tick_interval, 1000);
    assert_eq!(GC_SAFEPOINT, "transaction/gc/safepoint");
    assert_eq!(data_min_key(), vec![b'z']);
}

#[test]
fn test_gc_worker_first_timers() {
    let worker = gc_worker::new();
    let (refresh, gc) = worker.run(true);
    let refresh = refresh.unwrap();
    assert!(matches!(refresh.tick, Tick::refresh_safepoint));
    assert_eq!(refresh.delay, 600000);
    let gc = gc.unwrap();
    match gc.tick {
        Tick::gc_one_region { scan_key } => assert_eq!(scan_key, vec![b'z']),
        _ => panic!("expected the tick of a collection"),
    }
    assert_eq!(gc.delay, 1000);
    let (refresh, gc) = worker.run(false);
    assert!(refresh.is_none());
    assert!(gc.is_none());
}

#[test]
fn test_zero_delay_turns_timer_off() {
    let mut worker = gc_worker::new();
    assert!(worker.register_time(true, Tick::refresh_safepoint, 0).is_none());
    assert!(worker.register_time(false, Tick::refresh_safepoint, 5).is_none());
    let timer = worker.register_time(true, Tick::refresh_safepoint, 5).unwrap();
    assert_eq!(timer.delay, 5);
    worker.gc_one_region_tick_interval = 0;
    assert!(worker.register_gc_one_region_tick(true, vec![1]).is_none());
    assert!(worker.register_refresh_safepoint_tick(true).is_some());
}

#[test]
fn test_refresh_safepoint() {
    let mut worker = gc_worker::new();
    let outcome = worker.on_refresh_safepoint_tick(Ok(String::from("400")), true);
    assert!(outcome.result.is_ok());
    assert_eq!(worker.safepoint, 400);
    assert_eq!(outcome.timer.unwrap().delay, 600000);

    // Zero leaves the safe point as it is.
    let outcome = worker.on_refresh_safepoint_tick(Ok(String::from("0")), true);
    assert!(outcome.result.is_ok());
    assert_eq!(worker.safepoint, 400);

    // So does a value that is no number, which is an error; the tick goes on.
    let outcome = worker.on_refresh_safepoint_tick(Ok(String::from("4x")), true);
    match outcome.result {
        Err(Error::Other(msg)) => assert_eq!(msg, "invalid safe point"),
        other => panic!("unexpected {:?}", other),
    }
    assert_eq!(worker.safepoint, 400);
    assert!(outcome.timer.is_some());

    let outcome =
        worker.on_refresh_safepoint_tick(Err(Error::Other(String::from("pd is away"))), false);
    match outcome.result {
        Err(Error::Other(msg)) => assert_eq!(msg, "pd is away"),
        other => panic!("unexpected {:?}", other),
    }
    assert_eq!(worker.safepoint, 400);
    assert!(outcome.timer.is_none());

    let outcome = worker.on_refresh_safepoint_tick(Ok(String::from("18446744073709551615")), true);
    assert!(outcome.result.is_ok());
    assert_eq!(worker.safepoint, u64::MAX);
    let outcome = worker.on_refresh_safepoint_tick(Ok(String::from("399")), true);
    assert!(outcome.result.is_ok());
    assert_eq!(worker.safepoint, 399);
}

#[test]
fn test_gc_one_region() {
    let mut worker = gc_worker::new();
    worker.safepoint = 77;
    let outcome = worker.on_gc_one_region_tick(vec![b'z', 1], Ok(5), false, true);
    assert!(outcome.result.is_ok());
    let plan = outcome.gc.unwrap();
    assert_eq!(plan.snapshot, 5);
    assert_eq!(plan.start_key, vec![b'z', 1]);
    assert_eq!(plan.safe_point, 77);
    let timer = outcome.timer.unwrap();
    assert_eq!(timer.delay, 1000);
    match timer.tick {
        Tick::gc_one_region { scan_key } => assert_eq!(scan_key, vec![b'z', 1]),
        _ => panic!("expected the tick of a collection"),
    }

    // At the start of a range the collection is made only if it is worth it.
    let outcome = worker.on_gc_one_region_tick(vec![], Ok(5), false, true);
    assert!(outcome.result.is_ok());
    assert!(outcome.gc.is_none());
    assert!(outcome.timer.is_some());
    let outcome = worker.on_gc_one_region_tick(vec![], Ok(5), true, true);
    assert!(outcome.gc.is_some());

    let outcome =
        worker.on_gc_one_region_tick(vec![1], Err(Error::Other(String::from("no snapshot"))), true, true);
    assert!(outcome.result.is_err());
    assert!(outcome.gc.is_none());
    assert!(outcome.timer.is_some());
    assert_eq!(worker.safepoint, 77);
}
