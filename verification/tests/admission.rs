use clovalink::access::{Actor, RoleLabel};
use clovalink::compliance::{ComplianceMode, ComplianceRestrictions};
use clovalink::ops::{self, DownloadParams, DownloadPlan, ScheduledDownload, UploadParams};
use clovalink::sched::{Admission, SizeClass, TransferScheduler};
use clovalink::store::{Store, TenantConfig};

#[test]
fn permits_flow_until_the_class_saturates() {
    let mut s = TransferScheduler::new(1, 1, 1);
    let first = s.acquire_upload_permit(Some(10)).unwrap();
    let permit = match first {
        Admission::Granted(p) => p,
        Admission::Queued(_) => panic!("a free class must grant at once"),
    };
    assert_eq!(permit.size_class, SizeClass::Small);

    // Saturation suspends: the caller is queued, never refused.
    let second = s.acquire_upload_permit(Some(10)).unwrap();
    let ticket = match second {
        Admission::Queued(t) => t,
        Admission::Granted(_) => panic!("a saturated class must queue"),
    };

    // Release hands the slot to the first waiter, first in, first out.
    let woken = s.release(permit);
    assert_eq!(woken, Some(ticket));
}

#[test]
fn waiters_wake_in_arrival_order() {
    let mut s = TransferScheduler::new(1, 1, 1);
    let p = match s.acquire_download_permit(100).unwrap() {
        Admission::Granted(p) => p,
        _ => panic!(),
    };
    let t1 = match s.acquire_download_permit(100).unwrap() {
        Admission::Queued(t) => t,
        _ => panic!(),
    };
    let t2 = match s.acquire_download_permit(100).unwrap() {
        Admission::Queued(t) => t,
        _ => panic!(),
    };
    assert!(t1 < t2);
    assert_eq!(s.release(p), Some(t1));
}

#[test]
fn a_cancelled_waiter_leaves_cleanly() {
    let mut s = TransferScheduler::new(1, 1, 1);
    let p = match s.acquire_download_permit(50).unwrap() {
        Admission::Granted(p) => p,
        _ => panic!(),
    };
    let t1 = match s.acquire_download_permit(50).unwrap() {
        Admission::Queued(t) => t,
        _ => panic!(),
    };
    let t2 = match s.acquire_download_permit(50).unwrap() {
        Admission::Queued(t) => t,
        _ => panic!(),
    };
    assert!(s.cancel(SizeClass::Small, t1));
    assert!(!s.cancel(SizeClass::Small, t1));
    // The later waiter keeps its place and wakes next.
    assert_eq!(s.release(p), Some(t2));
}

#[test]
fn size_classes_split_at_their_ceilings() {
    assert_eq!(SizeClass::of_size(1), SizeClass::Small);
    assert_eq!(SizeClass::of_size(1048576), SizeClass::Small);
    assert_eq!(SizeClass::of_size(1048577), SizeClass::Medium);
    assert_eq!(SizeClass::of_size(67108864), SizeClass::Medium);
    assert_eq!(SizeClass::of_size(67108865), SizeClass::Large);
    assert_eq!(SizeClass::Large.name(), "large");
}

#[test]
fn classes_do_not_starve_each_other() {
    let mut s = TransferScheduler::new(2, 1, 1);
    let _large = match s.acquire_download_permit(u64::MAX).unwrap() {
        Admission::Granted(p) => p,
        _ => panic!(),
    };
    // Bulk traffic saturating the large class leaves small slots open.
    match s.acquire_download_permit(u64::MAX).unwrap() {
        Admission::Queued(_) => {}
        _ => panic!("the large class is saturated"),
    }
    match s.acquire_download_permit(12).unwrap() {
        Admission::Granted(p) => assert_eq!(p.size_class, SizeClass::Small),
        _ => panic!("small transfers must not wait behind bulk ones"),
    }
}

#[test]
fn proxied_downloads_take_permits_and_suspend_under_saturation() {
    let mut store = Store::new();
    let mut sched = TransferScheduler::new(1, 1, 1);
    let cfg = TenantConfig::unrestricted();
    let restrictions = ComplianceRestrictions::for_mode(ComplianceMode::Standard);
    let actor = Actor {
        user_id: 10,
        tenant_id: 1,
        role: RoleLabel::Employee,
        department_id: Some(1),
        allowed_department_ids: Vec::new(),
        can_lock_files: false,
        can_unlock_files: false,
    };
    let out = ops::upload_file(
        &mut store,
        &cfg,
        &actor,
        1,
        UploadParams { parent_path: None, visibility: None },
        "movie.bin".to_string(),
        "application/octet-stream".to_string(),
        &b"tiny".to_vec(),
        1,
    )
    .unwrap();

    // The proxied stream takes a small-class permit.
    let first = ops::download_file_scheduled(
        &store, &mut sched, &actor, 1, out.file_id,
        &DownloadParams { preview: None }, &restrictions, false, false, 1_000_000,
    )
    .unwrap();
    let permit = match first {
        ScheduledDownload::Ready { plan: DownloadPlan::Stream { .. }, permit } => permit.unwrap(),
        _ => panic!("a file download without presigning must stream"),
    };
    assert_eq!(permit.size_class, SizeClass::Small);

    // Saturation suspends the next reader on a queue ticket.
    let second = ops::download_file_scheduled(
        &store, &mut sched, &actor, 1, out.file_id,
        &DownloadParams { preview: None }, &restrictions, false, false, 1_000_000,
    )
    .unwrap();
    let (ticket, class) = match second {
        ScheduledDownload::Suspended { ticket, size_class } => (ticket, size_class),
        _ => panic!("a saturated class must suspend, not refuse"),
    };
    assert_eq!(class, SizeClass::Small);

    // A cancelled waiter leaves no trace; releasing the permit frees the
    // slot for the next caller.
    assert!(sched.cancel(class, ticket));
    assert_eq!(sched.release(permit), None);
    let third = ops::download_file_scheduled(
        &store, &mut sched, &actor, 1, out.file_id,
        &DownloadParams { preview: None }, &restrictions, false, false, 1_000_000,
    )
    .unwrap();
    assert!(matches!(third, ScheduledDownload::Ready { .. }));

    // The redirect path takes no slot at all.
    let redirect = ops::download_file_scheduled(
        &store, &mut sched, &actor, 1, out.file_id,
        &DownloadParams { preview: None }, &restrictions, true, true, 1_000_000,
    )
    .unwrap();
    assert!(matches!(
        redirect,
        ScheduledDownload::Ready { plan: DownloadPlan::Redirect { .. }, permit: None }
    ));
}
