use copr_endpoint::keys::KeyRange;
use copr_endpoint::metrics::{BasicLocalMetrics, ErrorCount, ErrorKind, Sample, ScanTag};
use copr_endpoint::response::{
    err_multi_resp, err_resp, Error, LockInfo, RegionError, Response, ServerIsBusy,
};

fn errors_set(resp: &Response) -> usize {
    resp.region_error.is_some() as usize
        + resp.locked.is_some() as usize
        + (!resp.other_error.is_empty()) as usize
}

#[test]
fn test_err_resp_region() {
    let mut metrics = BasicLocalMetrics::new();
    let e = RegionError { message: String::from("not leader"), server_is_busy: None };
    let resp = err_resp(Error::Region(e), &mut metrics);
    let region_error = resp.region_error.as_ref().unwrap();
    assert_eq!(region_error.message, "not leader");
    assert!(!region_error.has_server_is_busy());
    assert_eq!(errors_set(&resp), 1);
    assert!(resp.data.is_empty());
    assert_eq!(metrics.error_cnt, vec![ErrorCount { kind: ErrorKind::Region, count: 1 }]);
    assert_eq!(ErrorKind::Region.as_str(), "region");
}

#[test]
fn test_err_resp_locked() {
    let mut metrics = BasicLocalMetrics::new();
    let info = LockInfo { primary_lock: vec![1], lock_version: 2, key: vec![3], lock_ttl: 4 };
    let resp = err_resp(Error::Locked(info), &mut metrics);
    let locked = resp.locked.as_ref().unwrap();
    assert_eq!(locked.primary_lock, vec![1]);
    assert_eq!(locked.lock_version, 2);
    assert_eq!(locked.key, vec![3]);
    assert_eq!(locked.lock_ttl, 4);
    assert_eq!(errors_set(&resp), 1);
    assert!(resp.data.is_empty());
    assert_eq!(metrics.error_cnt, vec![ErrorCount { kind: ErrorKind::Lock, count: 1 }]);
    assert_eq!(ErrorKind::Lock.as_str(), "lock");
}

#[test]
fn test_err_resp_outdated() {
    let mut metrics = BasicLocalMetrics::new();
    let resp = err_resp(Error::Outdated(2_999_999_999, ScanTag::Index), &mut metrics);
    assert_eq!(resp.other_error, "request outdated.");
    assert_eq!(errors_set(&resp), 1);
    assert!(resp.data.is_empty());
    assert_eq!(metrics.error_cnt, vec![ErrorCount { kind: ErrorKind::Outdated, count: 1 }]);
    assert_eq!(metrics.outdate_time, vec![Sample { tag: ScanTag::Index, value: 2 }]);
    assert_eq!(ErrorKind::Outdated.as_str(), "outdated");
}

#[test]
fn test_err_resp_full() {
    let mut metrics = BasicLocalMetrics::new();
    let resp = err_multi_resp(Error::Full(2000), 17, &mut metrics);
    let region_error = resp.region_error.as_ref().unwrap();
    assert_eq!(region_error.message, "running batches reach limit 2000");
    assert!(region_error.has_server_is_busy());
    assert_eq!(region_error.server_is_busy.as_ref().unwrap().reason, "endpoint is busy");
    assert_eq!(errors_set(&resp), 1);
    assert!(resp.data.is_empty());
    assert_eq!(metrics.error_cnt, vec![ErrorCount { kind: ErrorKind::Full, count: 17 }]);
    assert!(metrics.outdate_time.is_empty());
    assert_eq!(ErrorKind::Full.as_str(), "full");
}

#[test]
fn test_err_resp_other() {
    let mut metrics = BasicLocalMetrics::new();
    let resp = err_resp(Error::Other(String::from("bad expression")), &mut metrics);
    assert_eq!(resp.get_other_error(), "bad expression");
    assert_eq!(errors_set(&resp), 1);
    assert!(resp.data.is_empty());
    assert_eq!(metrics.error_cnt, vec![ErrorCount { kind: ErrorKind::Other, count: 1 }]);
    assert_eq!(ErrorKind::Other.as_str(), "other");
}

#[test]
fn test_success_sets_no_error() {
    let resp = Response::with_data(vec![1, 2, 3]);
    assert_eq!(errors_set(&resp), 0);
    assert_eq!(resp.data, vec![1, 2, 3]);
    assert!(!resp.has_region_error());
    assert!(!resp.has_locked());
    assert!(resp.get_other_error().is_empty());
    assert_eq!(errors_set(&Response::new()), 0);
    let range = KeyRange { start: vec![1], end: vec![2] };
    let resp = Response::with_range(vec![9], Some(range));
    assert_eq!(errors_set(&resp), 0);
    assert_eq!(resp.data, vec![9]);
    assert_eq!(resp.range.unwrap().end, vec![2]);
    assert!(Response::with_range(vec![], None).range.is_none());
}

#[test]
fn test_clones_keep_everything() {
    let busy = ServerIsBusy { reason: String::from("busy") };
    let e = Error::Region(RegionError { message: String::from("m"), server_is_busy: Some(busy) });
    let copy = e.clone();
    match copy {
        Error::Region(err) => {
            assert_eq!(err.message, "m");
            assert_eq!(err.server_is_busy.unwrap().reason, "busy");
        }
        _ => panic!("expected a region error"),
    }
    let mut metrics = BasicLocalMetrics::new();
    let resp = err_resp(e, &mut metrics);
    let copy = resp.clone();
    assert_eq!(copy.region_error.unwrap().message, "m");
    assert_eq!(format!("{:?}", Error::Full(3)), "Full(3)");
}
