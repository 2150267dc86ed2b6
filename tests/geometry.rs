use texture_packer::frame::Frame;
use texture_packer::rect::Rect;

fn frame(trimmed: bool, frame: Rect, source: Rect) -> Frame<&'static str> {
    Frame { key: "k", frame, rotated: false, trimmed, source }
}

#[test]
fn untrimmed_frame_has_no_offset() {
    let f = frame(false, Rect::new(10, 10, 20, 20), Rect::new(5, 4, 40, 30));
    assert_eq!(f.trimmed_center_to_non_trimmed_center_offset(), (0, 0));
}

#[test]
fn trimmed_frame_offset() {
    let f = frame(true, Rect::new(10, 10, 20, 20), Rect::new(5, 4, 40, 30));
    assert_eq!(f.trimmed_center_to_non_trimmed_center_offset(), (5, 1));
}

#[test]
fn trimmed_frame_offset_can_be_negative() {
    let f = frame(true, Rect::new(0, 0, 10, 10), Rect::new(10, 12, 20, 20));
    assert_eq!(f.trimmed_center_to_non_trimmed_center_offset(), (-5, -7));
}

#[test]
fn rect_edges() {
    let r = Rect::new(2, 3, 4, 5);
    assert_eq!(r.left(), 2);
    assert_eq!(r.top(), 3);
    assert_eq!(r.right(), 5);
    assert_eq!(r.bottom(), 7);
}

#[test]
fn rect_containment() {
    let bin = Rect::new(0, 0, 10, 10);
    assert!(bin.contains(&Rect::new(0, 0, 10, 10)));
    assert!(bin.contains(&Rect::new(3, 4, 7, 6)));
    assert!(!bin.contains(&Rect::new(3, 4, 8, 6)));
    assert!(!bin.contains(&Rect::new(0, 5, 1, 6)));
    assert!(!Rect::new(2, 2, 5, 5).contains(&Rect::new(1, 2, 2, 2)));
    assert!(bin.contains(&Rect::new(u32::MAX, 0, 0, 0)) == false);
}
