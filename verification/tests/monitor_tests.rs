use rusty_suite::monitor::{ends_grid_row, History, RefreshClock, HISTORY_LENGTH};

#[test]
fn every_sixth_frame_refreshes() {
    let mut c = RefreshClock::new();
    let refreshes: Vec<bool> = (0..12).map(|_| c.tick()).collect();
    assert_eq!(
        refreshes,
        vec![false, false, false, false, false, true, false, false, false, false, false, true]
    );
    assert_eq!(c.frames(), 12);
}

#[test]
fn history_keeps_the_latest_readings() {
    let mut h = History::filled(0u32, 3);
    assert_eq!(h.as_slice(), &[0, 0, 0]);
    h.push(1);
    h.push(2);
    assert_eq!(h.as_slice(), &[0, 1, 2]);
    h.push(3);
    h.push(4);
    assert_eq!(h.as_slice(), &[2, 3, 4]);
}

#[test]
fn full_history_has_fixed_length() {
    let mut h = History::filled(0.0f32, HISTORY_LENGTH);
    for i in 0..250 {
        h.push(i as f32);
    }
    assert_eq!(h.as_slice().len(), HISTORY_LENGTH);
    assert_eq!(h.as_slice()[HISTORY_LENGTH - 1], 249.0);
    assert_eq!(h.as_slice()[0], 150.0);
}

#[test]
fn grid_rows_end_every_fourth_core() {
    let ends: Vec<usize> = (0..10).filter(|&i| ends_grid_row(i)).collect();
    assert_eq!(ends, vec![3, 7]);
}
