use rubin_love_tui::layout::{dashboard_layout, Area};

fn area(x: u16, y: u16, width: u16, height: u16) -> Area {
    Area { x, y, width, height }
}

#[test]
fn dashboard_layout_splits_halves_and_columns() {
    let a = dashboard_layout(area(0, 0, 100, 40));
    assert_eq!(a.state, area(0, 0, 25, 20));
    assert_eq!(a.running, area(25, 0, 75, 20));
    assert_eq!(a.available, area(0, 20, 34, 20));
    assert_eq!(a.waiting, area(34, 20, 33, 20));
    assert_eq!(a.done, area(67, 20, 33, 20));
}

#[test]
fn dashboard_layout_keeps_the_offset() {
    let a = dashboard_layout(area(10, 5, 200, 60));
    assert_eq!(a.state, area(10, 5, 50, 30));
    assert_eq!(a.running, area(60, 5, 150, 30));
    assert_eq!(a.available.y, 35);
    assert_eq!(a.available.x, 10);
    assert_eq!(a.done.x + a.done.width, 210);
}

#[test]
fn dashboard_layout_of_an_empty_area() {
    let a = dashboard_layout(area(0, 0, 0, 0));
    assert_eq!(a.state.width, 0);
    assert_eq!(a.done.height, 0);
}
