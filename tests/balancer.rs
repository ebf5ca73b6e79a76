use loadbalancer::admission::{AdmissionController, DEFAULT_CEILING};
use loadbalancer::dispatch::{dispatch, Reply, NO_HEALTHY_BODY, RATE_LIMITED_BODY};
use loadbalancer::probe::{is_success_status, ProbeOutcome};
use loadbalancer::registry::{Backend, Registry};
use loadbalancer::router::{healthy_indices, select};

const A: &str = "http://127.0.0.1:1717/";
const B: &str = "http://127.0.0.1:1718/";

fn two_backends() -> Registry {
    Registry::new(vec![A.to_string(), B.to_string()])
}

fn flags(r: &Registry) -> Vec<bool> {
    r.snapshot().iter().map(|b| b.healthy).collect()
}

#[test]
fn new_registry_starts_healthy_in_order() {
    let r = two_backends();
    let s = r.snapshot();
    assert_eq!(r.len(), 2);
    assert_eq!(s[0].address, A);
    assert_eq!(s[1].address, B);
    assert!(s[0].healthy && s[1].healthy);
}

#[test]
fn update_health_touches_only_its_backend() {
    let mut r = two_backends();
    assert!(r.update_health(&B.to_string(), false));
    assert_eq!(flags(&r), vec![true, false]);
    assert!(r.update_health(&A.to_string(), false));
    assert_eq!(flags(&r), vec![false, false]);
    assert!(r.update_health(&B.to_string(), true));
    assert_eq!(flags(&r), vec![false, true]);
    let s = r.snapshot();
    assert_eq!(s[0].address, A);
    assert_eq!(s[1].address, B);
}

#[test]
fn update_health_of_unknown_address_changes_nothing() {
    let mut r = two_backends();
    assert!(!r.update_health(&"http://127.0.0.1:9999/".to_string(), false));
    assert_eq!(flags(&r), vec![true, true]);
}

#[test]
fn success_class_is_200_to_299() {
    assert!(!is_success_status(199));
    assert!(is_success_status(200));
    assert!(is_success_status(204));
    assert!(is_success_status(299));
    assert!(!is_success_status(300));
    assert!(!is_success_status(404));
    assert!(!is_success_status(500));
}

#[test]
fn probe_outcome_health() {
    assert!(ProbeOutcome::Responded(200).healthy());
    assert!(!ProbeOutcome::Responded(302).healthy());
    assert!(!ProbeOutcome::Responded(500).healthy());
    assert!(!ProbeOutcome::Unreachable.healthy());
}

#[test]
fn status_500_marks_unhealthy_and_200_restores() {
    let mut r = two_backends();
    r.apply_probe_pass(&vec![ProbeOutcome::Responded(500), ProbeOutcome::Responded(200)]);
    assert_eq!(flags(&r), vec![false, true]);
    r.apply_probe_pass(&vec![ProbeOutcome::Responded(200), ProbeOutcome::Responded(200)]);
    assert_eq!(flags(&r), vec![true, true]);
}

#[test]
fn unreachable_backends_give_no_healthy_reply() {
    let mut r = two_backends();
    r.apply_probe_pass(&vec![ProbeOutcome::Unreachable, ProbeOutcome::Unreachable]);
    let mut adm = AdmissionController::new(DEFAULT_CEILING);
    let reply = dispatch(&mut adm, &r.snapshot());
    assert!(matches!(reply, Reply::NoHealthy));
    assert_eq!(reply.status(), 200);
    assert_eq!(reply.body(), "No healthy servers available");
    assert_eq!(reply.body(), NO_HEALTHY_BODY);
    assert_eq!(reply.location(), None);
    assert_eq!(adm.count(), 1);
}

#[test]
fn healthy_indices_lists_healthy_positions() {
    let snap = vec![
        Backend::new("a".to_string(), false),
        Backend::new("b".to_string(), true),
        Backend::new("c".to_string(), false),
        Backend::new("d".to_string(), true),
    ];
    assert_eq!(healthy_indices(&snap), vec![1, 3]);
    assert_eq!(healthy_indices(&Vec::new()), Vec::<usize>::new());
}

#[test]
fn select_none_iff_all_unhealthy() {
    let none = vec![Backend::new("a".to_string(), false), Backend::new("b".to_string(), false)];
    assert!(select(&none).is_none());
    assert!(select(&Vec::new()).is_none());
    let one = vec![
        Backend::new("a".to_string(), false),
        Backend::new("b".to_string(), false),
        Backend::new("c".to_string(), true),
    ];
    for _ in 0..20 {
        let b = select(&one).unwrap();
        assert_eq!(b.address, "c");
        assert!(b.healthy);
    }
}

#[test]
fn select_reaches_every_healthy_backend() {
    let snap = vec![
        Backend::new("a".to_string(), true),
        Backend::new("b".to_string(), false),
        Backend::new("c".to_string(), true),
        Backend::new("d".to_string(), true),
        Backend::new("e".to_string(), false),
    ];
    let mut hits = [0u32; 5];
    for _ in 0..3000 {
        let b = select(&snap).unwrap();
        let i = snap.iter().position(|s| s.address == b.address).unwrap();
        hits[i] += 1;
    }
    assert_eq!(hits[1], 0);
    assert_eq!(hits[4], 0);
    for i in [0usize, 2, 3] {
        // Each healthy backend is expected 1000 times.
        assert!(hits[i] > 700, "backend {} chosen {} times", i, hits[i]);
    }
}

#[test]
fn admission_admits_until_count_passes_ceiling() {
    let mut adm = AdmissionController::new(3);
    assert_eq!(adm.ceiling(), 3);
    assert!(adm.try_admit());
    assert!(adm.try_admit());
    assert!(adm.try_admit());
    assert_eq!(adm.count(), 3);
    assert!(adm.try_admit());
    assert_eq!(adm.count(), 4);
    for _ in 0..10 {
        assert!(!adm.try_admit());
    }
    assert_eq!(adm.count(), 4);
}

#[test]
fn admission_with_zero_ceiling_admits_one() {
    let mut adm = AdmissionController::new(0);
    assert!(adm.try_admit());
    assert!(!adm.try_admit());
}

#[test]
fn admission_largest_ceiling() {
    let adm = AdmissionController::new(u32::MAX);
    assert_eq!(adm.count(), 0);
    assert_eq!(adm.ceiling(), u32::MAX);
}

#[test]
fn fifty_requests_redirect_to_the_two_backends() {
    let r = two_backends();
    let mut adm = AdmissionController::new(DEFAULT_CEILING);
    for _ in 0..50 {
        let reply = dispatch(&mut adm, &r.snapshot());
        assert_eq!(reply.status(), 302);
        assert_eq!(reply.body(), "");
        let loc = reply.location().unwrap();
        assert!(loc == A || loc == B);
    }
    assert_eq!(adm.count(), 50);
}

#[test]
fn lifetime_ceiling_refuses_from_the_request_after_it_is_passed() {
    let r = two_backends();
    let mut adm = AdmissionController::new(DEFAULT_CEILING);
    // The count is checked before it is raised, so requests 1 to 101 pass.
    for _ in 0..101 {
        assert_eq!(dispatch(&mut adm, &r.snapshot()).status(), 302);
    }
    for _ in 0..50 {
        let reply = dispatch(&mut adm, &r.snapshot());
        assert!(matches!(reply, Reply::RateLimited));
        assert_eq!(reply.status(), 200);
        assert_eq!(reply.body(), "Too many requests, wait a moment");
        assert_eq!(reply.body(), RATE_LIMITED_BODY);
        assert_eq!(reply.location(), None);
    }
    assert_eq!(adm.count(), 101);
}

#[test]
fn rate_limit_comes_before_backend_health() {
    let mut r = two_backends();
    r.apply_probe_pass(&vec![ProbeOutcome::Unreachable, ProbeOutcome::Unreachable]);
    let mut adm = AdmissionController::new(0);
    assert!(matches!(dispatch(&mut adm, &r.snapshot()), Reply::NoHealthy));
    assert!(matches!(dispatch(&mut adm, &r.snapshot()), Reply::RateLimited));
}

#[test]
fn redirect_reply_fields() {
    let reply = Reply::Redirect(A.to_string());
    assert_eq!(reply.status(), 302);
    assert_eq!(reply.body(), "");
    assert_eq!(reply.location(), Some(A.to_string()));
}
