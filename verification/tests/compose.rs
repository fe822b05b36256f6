use declarative::compose::{center_box_slot, paned_slot, update_state, Msg, Slot, State};

#[test]
fn center_box_fills_start_center_end() {
    assert_eq!(center_box_slot(false, false, false), Some(Slot::Start));
    assert_eq!(center_box_slot(true, false, false), Some(Slot::Center));
    assert_eq!(center_box_slot(true, true, false), Some(Slot::End));
    assert_eq!(center_box_slot(true, true, true), None);
    assert_eq!(center_box_slot(false, true, false), Some(Slot::End));
    assert_eq!(center_box_slot(false, true, true), None);
    assert_eq!(center_box_slot(true, false, true), Some(Slot::Center));
}

#[test]
fn center_box_never_replaces() {
    for bits in 0..8u8 {
        let (s, c, e) = (bits & 1 != 0, bits & 2 != 0, bits & 4 != 0);
        match center_box_slot(s, c, e) {
            Some(Slot::Start) => assert!(!s),
            Some(Slot::Center) => assert!(!c),
            Some(Slot::End) => assert!(!e),
            None => assert!(c && e),
        }
    }
}

#[test]
fn paned_fills_start_then_end() {
    assert_eq!(paned_slot(false, false), Some(Slot::Start));
    assert_eq!(paned_slot(false, true), Some(Slot::Start));
    assert_eq!(paned_slot(true, false), Some(Slot::End));
    assert_eq!(paned_slot(true, true), None);
}

#[test]
fn update_counts_and_wraps() {
    let mut s = State { count: 0 };
    update_state(&mut s, Msg::Increase);
    assert_eq!(s.count, 1);
    update_state(&mut s, Msg::Decrease);
    update_state(&mut s, Msg::Decrease);
    assert_eq!(s.count, -1);
    let mut s = State { count: i32::MAX };
    update_state(&mut s, Msg::Increase);
    assert_eq!(s.count, i32::MIN);
    update_state(&mut s, Msg::Decrease);
    assert_eq!(s.count, i32::MAX);
}

#[test]
fn update_undoes() {
    for start in [0, 7, -3, i32::MAX, i32::MIN] {
        let mut s = State { count: start };
        update_state(&mut s, Msg::Increase);
        update_state(&mut s, Msg::Decrease);
        assert_eq!(s.count, start);
        update_state(&mut s, Msg::Decrease);
        update_state(&mut s, Msg::Increase);
        assert_eq!(s.count, start);
    }
}
