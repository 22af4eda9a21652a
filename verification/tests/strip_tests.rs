use matrix_rain::strip::{strip_clean, MatrixStrip, DEFAULT_MAX_LENGTH};

#[test]
fn new_strip_is_empty() {
    let s = MatrixStrip::new();
    assert_eq!(s.num_spawned, 0);
    assert_eq!(s.max_length, DEFAULT_MAX_LENGTH);
    assert_eq!(s.max_length, 40);
    assert_eq!(s.last_spawn, None);
    assert!(!s.stop_spawn());
}

#[test]
fn with_max_length_keeps_the_rest() {
    let mut s = MatrixStrip::new();
    s.spawn(7);
    let s = s.with_max_length(3);
    assert_eq!(s.max_length, 3);
    assert_eq!(s.num_spawned, 1);
    assert_eq!(s.last_spawn, Some(7));
}

#[test]
fn spawn_rows_and_fades() {
    let mut s = MatrixStrip::new();
    let a = s.spawn(100);
    assert_eq!(a.row, 0);
    assert_eq!(a.fade, None);
    let b = s.spawn(101);
    assert_eq!(b.row, 1);
    assert_eq!(b.fade, Some(100));
    let c = s.spawn(102);
    assert_eq!(c.row, 2);
    assert_eq!(c.fade, Some(101));
    assert_eq!(s.num_spawned, 3);
    assert_eq!(s.last_spawn, Some(102));
}

#[test]
fn stops_after_max_length_spawns() {
    let mut s = MatrixStrip::new().with_max_length(4);
    for i in 0..4u64 {
        assert!(!s.stop_spawn());
        s.spawn(i);
    }
    assert!(s.stop_spawn());
    let mut d = MatrixStrip::new();
    for i in 0..40u64 {
        assert!(!d.stop_spawn());
        d.spawn(i);
    }
    assert!(d.stop_spawn());
}

#[test]
fn zero_length_strip_stops_at_once() {
    assert!(MatrixStrip::new().with_max_length(0).stop_spawn());
}

#[test]
fn clean_only_finished_empty_strips() {
    assert!(strip_clean(false, Some(0)));
    assert!(!strip_clean(true, Some(0)));
    assert!(!strip_clean(false, Some(2)));
    assert!(!strip_clean(false, None));
    assert!(!strip_clean(true, None));
}
