use fresh_client::{SocketPaths, TermSize};

#[test]
fn term_size_new_keeps_fields() {
    let t = TermSize::new(80, 24);
    assert_eq!(t.columns, 80);
    assert_eq!(t.rows, 24);
}

#[test]
fn window_rect_gives_inclusive_extent() {
    let t = TermSize::from_window_rect(0, 0, 119, 29);
    assert_eq!(t, TermSize::new(120, 30));
    let t = TermSize::from_window_rect(10, 5, 89, 28);
    assert_eq!(t, TermSize::new(80, 24));
}

#[test]
fn window_rect_wraps_like_a_sixteen_bit_count() {
    // the whole i16 range spans 65536 cells, which wraps to zero
    let t = TermSize::from_window_rect(-32768, 0, 32767, 0);
    assert_eq!(t.columns, 0);
    assert_eq!(t.rows, 1);
    // a reversed rectangle wraps below zero
    let t = TermSize::from_window_rect(5, 5, 3, 5);
    assert_eq!(t.columns, 65535);
}

#[test]
fn socket_paths_follow_the_naming_convention() {
    let p = SocketPaths::for_session("/run/user/1000/fresh", "abc");
    assert_eq!(p.data, "/run/user/1000/fresh/abc.data.sock");
    assert_eq!(p.control, "/run/user/1000/fresh/abc.ctrl.sock");
}

#[test]
fn socket_paths_are_deterministic() {
    let a = SocketPaths::for_session("/tmp", "s1");
    let b = SocketPaths::for_session("/tmp", "s1");
    assert_eq!(a.data, b.data);
    assert_eq!(a.control, b.control);
    let c = SocketPaths::for_session("/tmp", "s2");
    assert_ne!(a.data, c.data);
}
