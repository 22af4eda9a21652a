use matrix_rain::window::close_on_esc;

#[test]
fn escape_closes_focused_windows() {
    let windows = vec![(1u64, true), (2, false), (3, true)];
    assert_eq!(close_on_esc(&windows, true), vec![1, 3]);
}

#[test]
fn no_escape_closes_nothing() {
    let windows = vec![(1u64, true), (2, false), (3, true)];
    assert_eq!(close_on_esc(&windows, false), Vec::<u64>::new());
}

#[test]
fn unfocused_windows_stay_open() {
    let windows = vec![(4u64, false), (5, false)];
    assert_eq!(close_on_esc(&windows, true), Vec::<u64>::new());
    assert_eq!(close_on_esc(&Vec::new(), true), Vec::<u64>::new());
}
