use ytdlp_queue::manager::DownloadManager;

#[test]
fn new_clamps_the_ceiling() {
    assert_eq!(DownloadManager::new(0).max_concurrent(), 1);
    assert_eq!(DownloadManager::new(1).max_concurrent(), 1);
    assert_eq!(DownloadManager::new(3).max_concurrent(), 3);
    assert_eq!(DownloadManager::new(20).max_concurrent(), 20);
    assert_eq!(DownloadManager::new(21).max_concurrent(), 20);
    assert_eq!(DownloadManager::new(u32::MAX).max_concurrent(), 20);
    assert_eq!(DownloadManager::new(5).active_count(), 0);
}

#[test]
fn try_acquire_stops_at_the_ceiling() {
    let mut m = DownloadManager::new(2);
    assert!(m.try_acquire());
    assert!(m.try_acquire());
    assert!(!m.try_acquire());
    assert_eq!(m.active_count(), 2);
    m.release();
    assert_eq!(m.active_count(), 1);
    assert!(m.try_acquire());
    assert!(!m.try_acquire());
}

#[test]
fn release_saturates_at_zero() {
    let mut m = DownloadManager::new(2);
    m.release();
    assert_eq!(m.active_count(), 0);
    assert!(m.try_acquire());
    m.release();
    m.release();
    assert_eq!(m.active_count(), 0);
}

#[test]
fn lowering_the_ceiling_keeps_running_slots() {
    let mut m = DownloadManager::new(3);
    assert!(m.try_acquire());
    assert!(m.try_acquire());
    assert!(m.try_acquire());
    m.set_max_concurrent(1);
    assert_eq!(m.max_concurrent(), 1);
    assert_eq!(m.active_count(), 3);
    assert!(!m.try_acquire());
    m.release();
    m.release();
    assert!(!m.try_acquire());
    m.release();
    assert!(m.try_acquire());
    m.set_max_concurrent(0);
    assert_eq!(m.max_concurrent(), 1);
    m.set_max_concurrent(1000);
    assert_eq!(m.max_concurrent(), 20);
}

#[test]
fn sync_overwrites_the_count() {
    let mut m = DownloadManager::new(2);
    m.sync_active_count(7);
    assert_eq!(m.active_count(), 7);
    assert!(!m.try_acquire());
    m.sync_active_count(0);
    assert!(m.try_acquire());
}

#[test]
fn send_cancel_raises_the_signal_of_that_task_only() {
    let mut m = DownloadManager::new(2);
    let rx1 = m.register_cancel(1);
    let rx2 = m.register_cancel(2);
    assert!(m.is_registered(1));
    assert!(m.is_registered(2));
    assert!(!*rx1.borrow());
    assert!(!rx1.has_changed().unwrap());
    m.send_cancel(1);
    assert!(*rx1.borrow());
    assert!(!*rx2.borrow());
    assert!(!rx2.has_changed().unwrap());
    assert!(!m.is_registered(1));
    assert!(m.is_registered(2));
}

#[test]
fn send_cancel_after_unregister_is_a_noop() {
    let mut m = DownloadManager::new(2);
    let rx = m.register_cancel(9);
    m.unregister_cancel(9);
    assert!(!m.is_registered(9));
    m.send_cancel(9);
    m.send_cancel(10);
    assert!(!*rx.borrow());
    assert_eq!(m.active_count(), 0);
}

#[test]
fn registering_again_replaces_the_signal() {
    let mut m = DownloadManager::new(2);
    let old = m.register_cancel(4);
    let new = m.register_cancel(4);
    m.send_cancel(4);
    assert!(!*old.borrow());
    assert!(*new.borrow());
    assert!(!m.is_registered(4));
}

#[test]
fn cancel_all_raises_every_signal() {
    let mut m = DownloadManager::new(3);
    let a = m.register_cancel(1);
    let b = m.register_cancel(2);
    let c = m.register_cancel(3);
    assert!(m.try_acquire());
    m.cancel_all();
    assert!(*a.borrow());
    assert!(*b.borrow());
    assert!(*c.borrow());
    assert!(!m.is_registered(1));
    assert!(!m.is_registered(2));
    assert!(!m.is_registered(3));
    assert_eq!(m.active_count(), 1);
}
