use texture_packer::config::TexturePackerConfig;
use texture_packer::frame::Frame;
use texture_packer::packer::Packer;
use texture_packer::rect::Rect;
use texture_packer::skyline::Skyline;
use texture_packer::skyline_packer::SkylinePacker;

fn config(w: u32, h: u32, rotation: bool) -> TexturePackerConfig {
    TexturePackerConfig {
        max_width: w,
        max_height: h,
        allow_rotation: rotation,
        texture_padding: 0,
        texture_extrusion: 0,
    }
}

fn untrimmed(frame: Rect, source: Rect) -> Frame<u32> {
    Frame { key: 0, frame, rotated: false, trimmed: false, source }
}

#[test]
fn three_rects_in_square_bin() {
    let mut packer = SkylinePacker::new(config(200, 200, false));
    let a = packer.pack("a", &Rect::new(0, 0, 100, 50)).unwrap();
    assert_eq!(a.frame, Rect::new(0, 0, 100, 50));
    assert_eq!(a.key, "a");
    assert!(!a.rotated);
    assert!(!a.trimmed);
    assert_eq!(a.source, Rect::new(0, 0, 100, 50));
    // the empty right half, at height 0, gives the lower bottom
    let b = packer.pack("b", &Rect::new(0, 0, 100, 150)).unwrap();
    assert_eq!(b.frame, Rect::new(100, 0, 100, 150));
    let c = packer.pack("c", &Rect::new(0, 0, 100, 10)).unwrap();
    assert_eq!(c.frame, Rect::new(0, 50, 100, 10));
    assert!(c.frame.y + c.frame.h <= 200);
}

#[test]
fn frames_stay_inside_bin() {
    let mut packer = SkylinePacker::new(config(64, 64, true));
    let mut placed = 0;
    for i in 0..40u32 {
        let w = 3 + (i * 7) % 13;
        let h = 2 + (i * 5) % 11;
        if let Some(f) = packer.pack(i, &Rect::new(0, 0, w, h)) {
            placed += 1;
            assert!(f.frame.x + f.frame.w <= 64);
            assert!(f.frame.y + f.frame.h <= 64);
        }
    }
    assert!(placed > 0);
}

#[test]
fn packed_frames_do_not_overlap() {
    let mut packer = SkylinePacker::new(config(50, 50, false));
    let mut frames: Vec<Rect> = Vec::new();
    for i in 0..30u32 {
        if let Some(f) = packer.pack(i, &Rect::new(0, 0, 4 + i % 9, 3 + i % 5)) {
            frames.push(f.frame);
        }
    }
    for i in 0..frames.len() {
        for j in (i + 1)..frames.len() {
            let (a, b) = (frames[i], frames[j]);
            let apart = a.x + a.w <= b.x || b.x + b.w <= a.x || a.y + a.h <= b.y || b.y + b.h <= a.y;
            assert!(apart, "{:?} and {:?} overlap", a, b);
        }
    }
}

#[test]
fn tie_on_bottom_goes_to_narrower_run() {
    let mut packer = SkylinePacker::new(config(100, 100, false));
    assert_eq!(packer.pack(1, &Rect::new(0, 0, 30, 10)).unwrap().frame, Rect::new(0, 0, 30, 10));
    assert_eq!(packer.pack(2, &Rect::new(0, 0, 30, 10)).unwrap().frame, Rect::new(30, 0, 30, 10));
    assert_eq!(packer.pack(3, &Rect::new(0, 0, 20, 20)).unwrap().frame, Rect::new(60, 0, 20, 20));
    assert_eq!(packer.pack(4, &Rect::new(0, 0, 20, 10)).unwrap().frame, Rect::new(80, 0, 20, 10));
    // runs at height 10 are [0, 60) and [80, 100): the narrower one wins
    assert_eq!(packer.pack(5, &Rect::new(0, 0, 10, 5)).unwrap().frame, Rect::new(80, 10, 10, 5));
}

#[test]
fn rect_rests_on_highest_run_it_spans() {
    let mut packer = SkylinePacker::new(config(100, 100, false));
    packer.pack(1, &Rect::new(0, 0, 40, 30)).unwrap();
    packer.pack(2, &Rect::new(0, 0, 40, 10)).unwrap();
    // 80 wide: only fits from x = 0, spanning both runs, so it rests at 30
    let f = packer.pack(3, &Rect::new(0, 0, 80, 5)).unwrap();
    assert_eq!(f.frame, Rect::new(0, 30, 80, 5));
}

#[test]
fn no_rotation_never_rotates() {
    let mut packer = SkylinePacker::new(config(100, 100, false));
    for i in 0..10u32 {
        if let Some(f) = packer.pack(i, &Rect::new(0, 0, 10 + i, 30 - i)) {
            assert!(!f.rotated);
            assert_eq!((f.frame.w, f.frame.h), (10 + i, 30 - i));
        }
    }
}

#[test]
fn rect_that_only_fits_turned_is_rotated() {
    let mut packer = SkylinePacker::new(config(100, 50, true));
    let f = packer.pack(7, &Rect::new(0, 0, 40, 80)).unwrap();
    assert!(f.rotated);
    assert_eq!(f.frame, Rect::new(0, 0, 80, 40));
    assert_eq!(f.source, Rect::new(0, 0, 40, 80));
}

#[test]
fn square_rect_is_not_rotated() {
    let mut packer = SkylinePacker::new(config(100, 100, true));
    let f = packer.pack(1, &Rect::new(0, 0, 30, 30)).unwrap();
    assert!(!f.rotated);
}

#[test]
fn same_rect_without_rotation_does_not_fit() {
    let mut packer = SkylinePacker::new(config(100, 50, false));
    assert!(packer.pack(7, &Rect::new(0, 0, 40, 80)).is_none());
}

#[test]
fn oversized_rect_is_refused() {
    let mut packer = SkylinePacker::new(config(200, 200, false));
    assert!(packer.pack(1, &Rect::new(0, 0, 201, 10)).is_none());
    assert!(packer.pack(2, &Rect::new(0, 0, 10, 201)).is_none());
    let mut turning = SkylinePacker::new(config(200, 100, true));
    assert!(turning.pack(3, &Rect::new(0, 0, 250, 50)).is_none());
    assert!(turning.pack(4, &Rect::new(0, 0, 150, 150)).is_none());
    assert!(turning.pack(5, &Rect::new(0, 0, u32::MAX, 1)).is_none());
    // the refusals left the bin empty
    assert_eq!(turning.pack(6, &Rect::new(0, 0, 200, 100)).unwrap().frame, Rect::new(0, 0, 200, 100));
}

#[test]
fn full_bin_refuses_more() {
    let mut packer = SkylinePacker::new(config(10, 10, false));
    assert!(packer.pack(1, &Rect::new(0, 0, 10, 10)).is_some());
    assert!(packer.pack(2, &Rect::new(0, 0, 1, 1)).is_none());
    assert!(!packer.can_pack(&Rect::new(0, 0, 1, 1)));
}

#[test]
fn padding_and_extrusion_grow_the_footprint() {
    let cfg = TexturePackerConfig {
        max_width: 100,
        max_height: 100,
        allow_rotation: false,
        texture_padding: 2,
        texture_extrusion: 1,
    };
    let mut packer = SkylinePacker::new(cfg);
    let a = packer.pack(1, &Rect::new(0, 0, 10, 10)).unwrap();
    assert_eq!(a.frame, Rect::new(0, 0, 10, 10));
    let b = packer.pack(2, &Rect::new(0, 0, 10, 10)).unwrap();
    assert_eq!(b.frame, Rect::new(14, 0, 10, 10));
    // 96 + 4 fills the width exactly; 97 + 4 does not fit
    assert!(packer.pack(3, &Rect::new(0, 0, 97, 1)).is_none());
    assert_eq!(packer.pack(4, &Rect::new(0, 0, 96, 1)).unwrap().frame, Rect::new(0, 14, 96, 1));
}

#[test]
fn can_pack_then_pack_succeeds() {
    let mut packer = SkylinePacker::new(config(100, 100, true));
    packer.pack(1, &Rect::new(0, 0, 60, 40)).unwrap();
    let r = Rect::new(0, 0, 50, 30);
    assert!(packer.can_pack(&r));
    // the dry run changed nothing
    assert!(packer.can_pack(&r));
    let f = packer.pack(2, &r).unwrap();
    assert!(f.frame.y + f.frame.h < 100);
}

#[test]
fn can_pack_wants_room_below_the_new_run() {
    let packer = SkylinePacker::new(config(100, 100, false));
    assert!(packer.can_pack(&Rect::new(0, 0, 100, 99)));
    assert!(!packer.can_pack(&Rect::new(0, 0, 100, 100)));
    assert!(!packer.can_pack(&Rect::new(0, 0, 101, 1)));
    let mut packer = packer;
    assert_eq!(packer.pack(1, &Rect::new(0, 0, 100, 100)).unwrap().frame, Rect::new(0, 0, 100, 100));
}

#[test]
fn center_of_untrimmed_frame() {
    let packer = SkylinePacker::new(config(200, 200, false));
    let f = untrimmed(Rect::new(10, 20, 30, 41), Rect::new(0, 0, 30, 41));
    assert_eq!(packer.frame_center_before_trimming(f), (25, 40));
}

#[test]
fn center_of_trimmed_frame() {
    let packer = SkylinePacker::new(config(200, 200, false));
    let mut f = untrimmed(Rect::new(10, 10, 20, 20), Rect::new(5, 4, 40, 30));
    f.trimmed = true;
    assert_eq!(packer.frame_center_before_trimming(f), (25, 21));
}

#[test]
fn center_of_trimmed_frame_is_clamped() {
    let packer = SkylinePacker::new(config(50, 30, false));
    let mut f = untrimmed(Rect::new(0, 20, 10, 10), Rect::new(30, 0, 20, 40));
    f.trimmed = true;
    assert_eq!(packer.frame_center_before_trimming(f), (0, 30));
    let mut g = untrimmed(Rect::new(45, 0, 4, 4), Rect::new(0, 0, 40, 4));
    g.trimmed = true;
    assert_eq!(packer.frame_center_before_trimming(g), (50, 2));
}

#[test]
fn skyline_edges() {
    let s = Skyline { x: 5, y: 3, w: 10 };
    assert_eq!(s.left(), 5);
    assert_eq!(s.right(), 14);
    let one = Skyline { x: 0, y: 0, w: 1 };
    assert_eq!(one.right(), 0);
}

fn pack_all<P: Packer<usize>>(packer: &mut P, sizes: &[(u32, u32)]) -> Vec<Option<Rect>> {
    let mut out = Vec::new();
    for (i, &(w, h)) in sizes.iter().enumerate() {
        out.push(packer.pack(i, &Rect::new(0, 0, w, h)).map(|f| f.frame));
    }
    out
}

#[test]
fn packs_through_the_packer_interface() {
    let mut packer = SkylinePacker::new(config(200, 200, false));
    let frames = pack_all(&mut packer, &[(100, 50), (100, 150), (100, 10), (300, 1)]);
    assert_eq!(
        frames,
        vec![
            Some(Rect::new(0, 0, 100, 50)),
            Some(Rect::new(100, 0, 100, 150)),
            Some(Rect::new(0, 50, 100, 10)),
            None
        ]
    );
    assert!(Packer::<usize>::can_pack(&packer, &Rect::new(0, 0, 100, 100)));
    let f = untrimmed(Rect::new(0, 0, 10, 10), Rect::new(0, 0, 10, 10));
    assert_eq!(Packer::<u32>::frame_center_before_trimming(&packer, f), (5, 5));
}
