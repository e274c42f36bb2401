use synth::window::next_size_and_offset;
use synth::window::RepairWindow;
use synth::window::WindowConf;

#[test]
fn new_window_is_the_failing_cycle() {
    let w = RepairWindow::new();
    assert_eq!(w.past_k, 0);
    assert_eq!(w.future_k, 0);
    assert_eq!(w.len(), 0);
    assert_eq!(w.get_step_range(7), (7, 7));
}

#[test]
fn step_range_stops_at_first_cycle() {
    let w = RepairWindow { past_k: 3, future_k: 2 };
    assert_eq!(w.get_step_range(10), (7, 12));
    assert_eq!(w.get_step_range(3), (0, 5));
    assert_eq!(w.len(), 5);
}

#[test]
fn update_without_failures_grows_past() {
    let mut w = RepairWindow::new();
    assert!(w.update(&[], 5, 2, 32));
    assert_eq!(w, RepairWindow { past_k: 2, future_k: 0 });
    assert!(w.update(&[], 5, 2, 32));
    assert_eq!(w, RepairWindow { past_k: 4, future_k: 0 });
    assert!(w.update(&[], 5, 2, 32));
    assert_eq!(w, RepairWindow { past_k: 5, future_k: 0 });
    // the window cannot reach further into the past
    assert!(!w.update(&[], 5, 2, 32));
    assert_eq!(w, RepairWindow { past_k: 5, future_k: 0 });
}

#[test]
fn update_with_later_failure_grows_future() {
    let mut w = RepairWindow { past_k: 1, future_k: 1 };
    // failures at or before the end of the window (cycle 6) do not count
    assert!(w.update(&[6, 9, 7, 3], 5, 2, 32));
    assert_eq!(w, RepairWindow { past_k: 1, future_k: 4 });
}

#[test]
fn update_with_early_failures_only_grows_past() {
    let mut w = RepairWindow { past_k: 1, future_k: 3 };
    assert!(w.update(&[8, 2, 5], 5, 2, 32));
    assert_eq!(w, RepairWindow { past_k: 3, future_k: 3 });
}

#[test]
fn update_with_huge_step_size() {
    let mut w = RepairWindow { past_k: 1, future_k: 0 };
    assert!(w.update(&[], 5, u64::MAX, 32));
    assert_eq!(w, RepairWindow { past_k: 5, future_k: 0 });
}

#[test]
fn update_at_first_cycle_makes_no_progress() {
    let mut w = RepairWindow::new();
    assert!(!w.update(&[], 0, 2, 32));
    assert_eq!(w, RepairWindow::new());
}

#[test]
fn study_windows() {
    // window of 3 cycles, moved 1 towards the future
    assert_eq!(
        WindowConf::fitting(3, 1, 5, 10),
        Some(WindowConf { past_k: 1, future_k: 1, window_size: 3, offset: 1 })
    );
    // a window may start at the first cycle
    assert_eq!(
        WindowConf::fitting(3, 0, 2, 10),
        Some(WindowConf { past_k: 2, future_k: 0, window_size: 3, offset: 0 })
    );
    assert_eq!(
        WindowConf::fitting(1, 0, 0, 10),
        Some(WindowConf { past_k: 0, future_k: 0, window_size: 1, offset: 0 })
    );
    // does not fit on the left
    assert_eq!(WindowConf::fitting(3, 0, 1, 10), None);
    assert_eq!(WindowConf::fitting(2, 0, 0, 10), None);
    assert_eq!(
        WindowConf::fitting(3, 0, 3, 10),
        Some(WindowConf { past_k: 2, future_k: 0, window_size: 3, offset: 0 })
    );
    // does not fit on the right
    assert_eq!(WindowConf::fitting(3, 2, 8, 10), None);
    assert_eq!(WindowConf::fitting(1, 0, 10, 10), None);
    assert_eq!(
        WindowConf::fitting(1, 0, 9, 10),
        Some(WindowConf { past_k: 0, future_k: 0, window_size: 1, offset: 0 })
    );
    assert_eq!(
        WindowConf::fitting(3, 2, 7, 10),
        Some(WindowConf { past_k: 0, future_k: 2, window_size: 3, offset: 2 })
    );
    let w = WindowConf { past_k: 2, future_k: 1, window_size: 4, offset: 1 };
    assert_eq!(w.get_step_range(6), (4, 7));
}

#[test]
fn study_order() {
    assert_eq!(next_size_and_offset(1, 0, 3), Some((2, 0)));
    assert_eq!(next_size_and_offset(2, 0, 3), Some((2, 1)));
    assert_eq!(next_size_and_offset(2, 1, 3), Some((3, 0)));
    assert_eq!(next_size_and_offset(3, 2, 3), None);
    assert_eq!(next_size_and_offset(1, 0, 1), None);
}
