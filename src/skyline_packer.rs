use vstd::prelude::*;
use crate::config::TexturePackerConfig;
use crate::frame::Frame;
use crate::packer::Packer;
use crate::rect::Rect;
use crate::skyline::{
    cut_from, fits_at, lemma_rest_height_nonneg, lemma_runs_within, merged, prefix_wf,
    profile_merged, profile_wf, rest_height, split_spec, Skyline,
};

verus! {

/// Width and height of a `w × h` rectangle, turned by 90 degrees when `rot`.
pub open spec fn oriented(w: int, h: int, rot: bool) -> (int, int) {
    if rot {
        (h, w)
    } else {
        (w, h)
    }
}

/// Laying a `w × h` rectangle from run `i`, turned when `rot`, is allowed and
/// stays inside the bin.
pub open spec fn is_candidate(
    s: Seq<Skyline>,
    cfg: TexturePackerConfig,
    w: int,
    h: int,
    i: int,
    rot: bool,
) -> bool {
    &&& rot ==> cfg.allow_rotation
    &&& fits_at(
        s,
        cfg.max_width as int,
        cfg.max_height as int,
        i,
        oriented(w, h, rot).0,
        oriented(w, h, rot).1,
    )
}

/// One past the bottom row of the rectangle laid from run `i`.
pub open spec fn cand_bottom(s: Seq<Skyline>, w: int, h: int, i: int, rot: bool) -> int {
    rest_height(s, i, oriented(w, h, rot).0) + oriented(w, h, rot).1
}

/// The placement `(i, ri)` is strictly preferred to `(j, rj)`: its bottom is
/// lower, or equally low on a narrower starting run.
pub open spec fn better(
    s: Seq<Skyline>,
    w: int,
    h: int,
    i: int,
    ri: bool,
    j: int,
    rj: bool,
) -> bool {
    ||| cand_bottom(s, w, h, i, ri) < cand_bottom(s, w, h, j, rj)
    ||| (cand_bottom(s, w, h, i, ri) == cand_bottom(s, w, h, j, rj) && s[i].w < s[j].w)
}

/// The search meets `(i, ri)` before `(j, rj)`: runs from left to right, on
/// each run the upright placement first.
pub open spec fn scan_before(i: int, ri: bool, j: int, rj: bool) -> bool {
    i < j || (i == j && !ri && rj)
}

/// `(i, ri)` is the chosen placement: no placement is preferred to it, and it
/// is preferred to every placement the search meets before it.
pub open spec fn is_best(
    s: Seq<Skyline>,
    cfg: TexturePackerConfig,
    w: int,
    h: int,
    i: int,
    ri: bool,
) -> bool {
    &&& is_candidate(s, cfg, w, h, i, ri)
    &&& forall|j: int, rj: bool| #[trigger]
        is_candidate(s, cfg, w, h, j, rj) ==> !better(s, w, h, j, rj, i, ri)
    &&& forall|j: int, rj: bool| #[trigger]
        is_candidate(s, cfg, w, h, j, rj) && scan_before(j, rj, i, ri) ==> better(
            s,
            w,
            h,
            i,
            ri,
            j,
            rj,
        )
}

/// Some run can take a `w × h` rectangle.
pub open spec fn placement_exists(s: Seq<Skyline>, cfg: TexturePackerConfig, w: int, h: int) -> bool {
    exists|i: int, rot: bool| #[trigger] is_candidate(s, cfg, w, h, i, rot)
}

/// The rectangle that the placement `(i, rot)` occupies.
pub open spec fn placed(s: Seq<Skyline>, w: int, h: int, i: int, rot: bool) -> Rect {
    Rect {
        x: s[i].x,
        y: rest_height(s, i, oriented(w, h, rot).0) as u32,
        w: oriented(w, h, rot).0 as u32,
        h: oriented(w, h, rot).1 as u32,
    }
}

/// The chosen placement of a `w × h` rectangle exists and leaves its new run
/// inside the bin, above the bottom row.
pub open spec fn accepts(s: Seq<Skyline>, cfg: TexturePackerConfig, w: int, h: int) -> bool {
    exists|i: int, rot: bool|
        #[trigger] is_best(s, cfg, w, h, i, rot) && cand_bottom(s, w, h, i, rot) < cfg.max_height
}

/// `v` brought into the range `[lo, hi]`.
pub open spec fn clamp(v: int, lo: int, hi: int) -> int {
    if v < lo {
        lo
    } else if v > hi {
        hi
    } else {
        v
    }
}

/// The frame that packing a `tw × th` texture under `key` yields when the
/// padded rectangle takes the placement `(i, rot)`.
pub open spec fn packed_frame<K>(
    s: Seq<Skyline>,
    cfg: TexturePackerConfig,
    key: K,
    tw: int,
    th: int,
    i: int,
    rot: bool,
) -> Frame<K> {
    let pw = tw + cfg.spec_extra();
    let ph = th + cfg.spec_extra();
    let r = placed(s, pw, ph, i, rot);
    Frame {
        key,
        frame: Rect {
            x: r.x,
            y: r.y,
            w: oriented(tw, th, rot).0 as u32,
            h: oriented(tw, th, rot).1 as u32,
        },
        rotated: rot && pw != ph,
        trimmed: false,
        source: Rect { x: 0, y: 0, w: tw as u32, h: th as u32 },
    }
}

/// Packs rectangles one at a time into a fixed bin, keeping the upper boundary
/// of what is packed as a skyline of horizontal runs.
pub struct SkylinePacker {
    config: TexturePackerConfig,
    border: Rect,
    // the skylines are sorted by their `x` position
    skylines: Vec<Skyline>,
}

impl SkylinePacker {
    /// The settings the packer was made with.
    pub closed spec fn config(&self) -> TexturePackerConfig {
        self.config
    }

    /// The current skyline, from left to right.
    pub closed spec fn skylines(&self) -> Seq<Skyline> {
        self.skylines@
    }

    /// The packer's state is consistent: its skyline is well formed and merged
    /// for the bin of its settings.
    pub closed spec fn wf(&self) -> bool {
        &&& self.border == Rect { x: 0, y: 0, w: self.config.max_width, h: self.config.max_height }
        &&& profile_wf(self.skylines@, self.config.max_width as int, self.config.max_height as int)
        &&& profile_merged(self.skylines@)
    }

    /// An empty bin: one run at height 0 across its whole width.
    pub fn new(config: TexturePackerConfig) -> (r: SkylinePacker)
        requires
            config.max_width > 0,
        ensures
            r.wf(),
            r.config() == config,
            profile_wf(r.skylines(), config.max_width as int, config.max_height as int),
            r.skylines() == seq![Skyline { x: 0, y: 0, w: config.max_width }],
    {
        let skylines = vec![Skyline { x: 0, y: 0, w: config.max_width }];
        let r = SkylinePacker {
            config,
            border: Rect::new(0, 0, config.max_width, config.max_height),
            skylines,
        };
        assert(r.skylines@ =~= seq![Skyline { x: 0, y: 0, w: config.max_width }]);
        r
    }

    // return `rect` if rectangle (w, h) can fit the skyline started at `i`
    fn can_put(&self, i: usize, w: u32, h: u32) -> (r: Option<Rect>)
        requires
            self.wf(),
            i < self.skylines@.len(),
            w > 0,
        ensures
            r is Some <==> fits_at(
                self.skylines@,
                self.config.max_width as int,
                self.config.max_height as int,
                i as int,
                w as int,
                h as int,
            ),
            r is Some ==> r->0 == (Rect {
                x: self.skylines@[i as int].x,
                y: rest_height(self.skylines@, i as int, w as int) as u32,
                w,
                h,
            }),
    {
        let ghost s = self.skylines@;
        let mut j: usize = i;
        let mut rect = Rect::new(self.skylines[i].x, 0, w, h);
        let mut width_left: u32 = w;
        let n: usize = self.skylines.len();
        loop
            invariant
                n == s.len(),
                self.wf(),
                s == self.skylines@,
                i <= j < s.len(),
                width_left > 0,
                rect.x == s[i as int].x,
                rect.w == w,
                rect.h == h,
                width_left == s[i as int].x + w - s[j as int].x,
                rest_height(s, i as int, w as int) == if rest_height(s, j as int, width_left as int)
                    < rect.y {
                    rect.y as int
                } else {
                    rest_height(s, j as int, width_left as int)
                },
            decreases s.len() - j,
        {
            if rect.y < self.skylines[j].y {
                rect.y = self.skylines[j].y;
            }
            assert(rest_height(s, j as int, width_left as int) >= s[j as int].y);
            // the source rect is too large
            if !self.border.contains(&rect) {
                return None;
            }
            if self.skylines[j].w >= width_left {
                return Some(rect);
            }
            width_left -= self.skylines[j].w;
            assert(s[j as int].end() < s.last().end());
            assert(j + 1 < s.len());
            assert(s[j + 1].x == s[j as int].end());
            j += 1;
        }
    }

    // best placement of a `w × h` rectangle: lowest bottom, then narrowest run
    fn find_skyline(&self, w: u32, h: u32) -> (r: Option<(usize, Rect)>)
        requires
            self.wf(),
            w > 0,
            h > 0,
        ensures
            r is None <==> !placement_exists(self.skylines@, self.config, w as int, h as int),
            r is Some ==> exists|ro: bool|
                is_best(self.skylines@, self.config, w as int, h as int, (r->0).0 as int, ro)
                    && (r->0).1 == placed(self.skylines@, w as int, h as int, (r->0).0 as int, ro),
    {
        let ghost s = self.skylines@;
        let ghost cfg = self.config;
        let mut best: Option<(usize, Rect)> = None;
        let mut bottom: u64 = 0;
        let mut width: u32 = 0;
        let ghost mut ro: bool = false;
        let n: usize = self.skylines.len();
        let mut k: usize = 0;
        // keep the `bottom` and `width` as small as possible
        while k < n
            invariant
                self.wf(),
                s == self.skylines@,
                cfg == self.config,
                n == s.len(),
                0 <= k <= n,
                w > 0,
                h > 0,
                best is None ==> forall|j: int, rj: bool|
                    0 <= j < k ==> !#[trigger] is_candidate(s, cfg, w as int, h as int, j, rj),
                best is Some ==> {
                    let c = (best->0).0 as int;
                    &&& c < k
                    &&& is_candidate(s, cfg, w as int, h as int, c, ro)
                    &&& (best->0).1 == placed(s, w as int, h as int, c, ro)
                    &&& bottom == cand_bottom(s, w as int, h as int, c, ro)
                    &&& width == s[c].w
                    &&& forall|j: int, rj: bool|
                        0 <= j < k && #[trigger] is_candidate(s, cfg, w as int, h as int, j, rj)
                            ==> !better(s, w as int, h as int, j, rj, c, ro)
                    &&& forall|j: int, rj: bool|
                        0 <= j < k && #[trigger] is_candidate(s, cfg, w as int, h as int, j, rj)
                            && scan_before(j, rj, c, ro) ==> better(
                            s,
                            w as int,
                            h as int,
                            c,
                            ro,
                            j,
                            rj,
                        )
                },
            decreases n - k,
        {
            let seg_w = self.skylines[k].w;
            if let Some(r) = self.can_put(k, w, h) {
                let b = r.y as u64 + r.h as u64;
                if best.is_none() || b < bottom || (b == bottom && seg_w < width) {
                    bottom = b;
                    width = seg_w;
                    best = Some((k, r));
                    proof {
                        ro = false;
                    }
                }
            }
            if self.config.allow_rotation {
                if let Some(r) = self.can_put(k, h, w) {
                    let b = r.y as u64 + r.h as u64;
                    if best.is_none() || b < bottom || (b == bottom && seg_w < width) {
                        bottom = b;
                        width = seg_w;
                        best = Some((k, r));
                        proof {
                            ro = true;
                        }
                    }
                }
            }
            k += 1;
        }
        best
    }

    // lay `rect` on the skyline from run `index` on
    fn split(&mut self, index: usize, rect: &Rect)
        requires
            profile_wf(
                old(self).skylines@,
                old(self).config.max_width as int,
                old(self).config.max_height as int,
            ),
            index < old(self).skylines@.len(),
            rect.x == old(self).skylines@[index as int].x,
            rect.w > 0,
            rect.end_x() <= old(self).config.max_width,
            rect.end_y() <= old(self).config.max_height,
        ensures
            final(self).config == old(self).config,
            final(self).border == old(self).border,
            profile_wf(
                final(self).skylines@,
                old(self).config.max_width as int,
                old(self).config.max_height as int,
            ),
            final(self).skylines@ == split_spec(
                old(self).skylines@,
                index as int,
                rect.x as int,
                rect.y as int,
                rect.w as int,
                rect.h as int,
            ),
    {
        let ghost s = self.skylines@;
        let ghost mw = self.config.max_width as int;
        let ghost mh = self.config.max_height as int;
        let n: usize = self.skylines.len();
        let skyline = Skyline { x: rect.left(), y: rect.y + rect.h, w: rect.w };
        let cut: u32 = rect.x + rect.w;
        let mut out: Vec<Skyline> = Vec::new();
        let mut j: usize = 0;
        while j < index
            invariant
                profile_wf(s, mw, mh),
                n == s.len(),
                index < n,
                s == self.skylines@,
                0 <= j <= index,
                out@ == s.subrange(0, j as int),
                j > 0 ==> prefix_wf(out@, s[j - 1].end(), mh),
            decreases index - j,
        {
            out.push(self.skylines[j]);
            j += 1;
            assert(out@ =~= s.subrange(0, j as int));
        }
        if index > 0 {
            assert(s[index - 1 + 1].x == s[index - 1].end());
        }
        out.push(skyline);
        assert(prefix_wf(out@, cut as int, mh));
        let ghost head = out@;
        assert(head == s.subrange(0, index as int) + seq![skyline]);
        // drop the runs that the new one covers whole
        while j < n && self.skylines[j].x as u64 + self.skylines[j].w as u64 <= cut as u64
            invariant
                profile_wf(s, mw, mh),
                s == self.skylines@,
                n == s.len(),
                index <= j <= n,
                out@ == head,
                cut_from(s, index as int, cut as int) == cut_from(s, j as int, cut as int),
                j < n ==> s[j as int].x <= cut,
                j == n ==> s.last().end() <= cut,
            decreases n - j,
        {
            if j + 1 < n {
                assert(s[j + 1].x == s[j as int].end());
            }
            j += 1;
        }
        let ghost mid = out@;
        if j < n && self.skylines[j].x < cut {
            let old_seg = self.skylines[j];
            out.push(Skyline { x: cut, y: old_seg.y, w: old_seg.w - (cut - old_seg.x) });
            if j + 1 < n {
                assert(s[j + 1].x == s[j as int].end());
            }
            j += 1;
        }
        assert(j < n ==> out@.last().end() == s[j as int].x);
        assert(j == n ==> out@.last().end() == mw);
        assert(prefix_wf(out@, out@.last().end(), mh));
        let ghost j0 = j;
        let ghost head2 = out@;
        assert(head2 + s.subrange(j0 as int, n as int) == split_spec(
            s,
            index as int,
            rect.x as int,
            rect.y as int,
            rect.w as int,
            rect.h as int,
        ));
        while j < n
            invariant
                profile_wf(s, mw, mh),
                s == self.skylines@,
                n == s.len(),
                j0 <= j <= n,
                out@ == head2 + s.subrange(j0 as int, j as int),
                prefix_wf(out@, out@.last().end(), mh),
                j < n ==> out@.last().end() == s[j as int].x,
                j == n ==> out@.last().end() == mw,
            decreases n - j,
        {
            out.push(self.skylines[j]);
            if j + 1 < n {
                assert(s[j + 1].x == s[j as int].end());
            }
            j += 1;
            assert(out@ =~= head2 + s.subrange(j0 as int, j as int));
        }
        assert(s.subrange(j0 as int, n as int) =~= s.subrange(j0 as int, j as int));
        self.skylines = out;
    }

    // fuse neighbouring runs of equal height
    fn merge(&mut self)
        requires
            old(self).border == (Rect {
                x: 0,
                y: 0,
                w: old(self).config.max_width,
                h: old(self).config.max_height,
            }),
            profile_wf(
                old(self).skylines@,
                old(self).config.max_width as int,
                old(self).config.max_height as int,
            ),
        ensures
            final(self).config == old(self).config,
            final(self).wf(),
            final(self).skylines@ == merged(old(self).skylines@),
    {
        let ghost s = self.skylines@;
        let ghost mw = self.config.max_width as int;
        let ghost mh = self.config.max_height as int;
        let n: usize = self.skylines.len();
        proof {
            lemma_runs_within(s, mw, mh);
        }
        let mut out: Vec<Skyline> = Vec::new();
        out.push(self.skylines[0]);
        assert(out@ =~= s.subrange(0, 1));
        let mut k: usize = 1;
        while k < n
            invariant
                profile_wf(s, mw, mh),
                s == self.skylines@,
                n == s.len(),
                1 <= k <= n,
                mw == self.config.max_width,
                out@ == merged(s.subrange(0, k as int)),
                prefix_wf(out@, s[k - 1].end(), mh),
                profile_merged(out@),
                forall|j: int| 0 <= j < s.len() ==> #[trigger] s[j].end() <= mw,
            decreases n - k,
        {
            let seg = self.skylines[k];
            let last_index: usize = out.len() - 1;
            let last = out[last_index];
            assert(s.subrange(0, k + 1).drop_last() =~= s.subrange(0, k as int));
            assert(s[k - 1 + 1].x == s[k - 1].end());
            assert(last == out@.last());
            assert(s[k as int].end() <= mw);
            if last.y == seg.y {
                out.set(last_index, Skyline { x: last.x, y: last.y, w: last.w + seg.w });
            } else {
                out.push(seg);
            }
            k += 1;
            assert(out@ =~= merged(s.subrange(0, k as int)));
        }
        assert(s.subrange(0, n as int) =~= s);
        self.skylines = out;
    }

    /// Places `texture_rect` in the bin, grown by padding and extrusion, at
    /// the lowest spot of the skyline (on the narrowest run among equally low
    /// ones), and returns its frame; `None` when it fits nowhere.
    pub fn pack<K>(&mut self, key: K, texture_rect: &Rect) -> (r: Option<Frame<K>>)
        requires
            old(self).wf(),
            texture_rect.w + old(self).config().spec_extra() > 0,
            texture_rect.h + old(self).config().spec_extra() > 0,
        ensures
            final(self).wf(),
            final(self).config() == old(self).config(),
            profile_wf(
                final(self).skylines(),
                old(self).config().max_width as int,
                old(self).config().max_height as int,
            ),
            profile_merged(final(self).skylines()),
            r is None <==> !placement_exists(
                old(self).skylines(),
                old(self).config(),
                texture_rect.w + old(self).config().spec_extra(),
                texture_rect.h + old(self).config().spec_extra(),
            ),
            r is None ==> final(self).skylines() == old(self).skylines(),
            r is Some ==> exists|i: int, rot: bool|
                {
                    let p = placed(
                        old(self).skylines(),
                        texture_rect.w + old(self).config().spec_extra(),
                        texture_rect.h + old(self).config().spec_extra(),
                        i,
                        rot,
                    );
                    &&& #[trigger] is_best(
                        old(self).skylines(),
                        old(self).config(),
                        texture_rect.w + old(self).config().spec_extra(),
                        texture_rect.h + old(self).config().spec_extra(),
                        i,
                        rot,
                    )
                    &&& r->0 == packed_frame(
                        old(self).skylines(),
                        old(self).config(),
                        key,
                        texture_rect.w as int,
                        texture_rect.h as int,
                        i,
                        rot,
                    )
                    &&& final(self).skylines() == merged(
                        split_spec(
                            old(self).skylines(),
                            i,
                            p.x as int,
                            p.y as int,
                            p.w as int,
                            p.h as int,
                        ),
                    )
                },
            r is Some ==> (r->0).frame.end_x() <= old(self).config().max_width,
            r is Some ==> (r->0).frame.end_y() <= old(self).config().max_height,
            r is Some && !old(self).config().allow_rotation ==> !(r->0).rotated,
            r is Some && texture_rect.w != texture_rect.h && (forall|i: int|
                !#[trigger] fits_at(
                    old(self).skylines(),
                    old(self).config().max_width as int,
                    old(self).config().max_height as int,
                    i,
                    texture_rect.w + old(self).config().spec_extra(),
                    texture_rect.h + old(self).config().spec_extra(),
                )) ==> {
                &&& (r->0).rotated
                &&& (r->0).frame.w == texture_rect.h
                &&& (r->0).frame.h == texture_rect.w
            },
    {
        let ghost s = self.skylines@;
        let ghost cfg = self.config;
        let extra: u64 = self.config.texture_padding as u64 + 2 * (self.config.texture_extrusion
            as u64);
        let width64: u64 = texture_rect.w as u64 + extra;
        let height64: u64 = texture_rect.h as u64 + extra;
        if width64 > u32::MAX as u64 || height64 > u32::MAX as u64 {
            proof {
                lemma_too_large_fits_nowhere(s, cfg, width64 as int, height64 as int);
            }
            return None;
        }
        let width = width64 as u32;
        let height = height64 as u32;
        match self.find_skyline(width, height) {
            None => None,
            Some((i, rect)) => {
                let ghost rot = choose|rot: bool|
                    is_best(s, cfg, width as int, height as int, i as int, rot) && rect == placed(
                        s,
                        width as int,
                        height as int,
                        i as int,
                        rot,
                    );
                proof {
                    lemma_rest_height_nonneg(s, i as int, oriented(width as int, height as int, rot).0);
                }
                self.split(i, &rect);
                self.merge();
                let rotated = width != rect.w;
                let extra32 = extra as u32;
                let frame = Frame {
                    key,
                    frame: Rect { x: rect.x, y: rect.y, w: rect.w - extra32, h: rect.h - extra32 },
                    rotated,
                    trimmed: false,
                    source: Rect { x: 0, y: 0, w: texture_rect.w, h: texture_rect.h },
                };
                assert(frame == packed_frame(
                    s,
                    cfg,
                    key,
                    texture_rect.w as int,
                    texture_rect.h as int,
                    i as int,
                    rot,
                ));
                assert(old(self).skylines() == s);
                assert(old(self).config() == cfg);
                proof {
                    if texture_rect.w != texture_rect.h && (forall|j: int|
                        !#[trigger] fits_at(
                            s,
                            cfg.max_width as int,
                            cfg.max_height as int,
                            j,
                            width as int,
                            height as int,
                        )) {
                        assert(!is_candidate(s, cfg, width as int, height as int, i as int, false));
                    }
                }
                Some(frame)
            },
        }
    }

    /// Whether `texture_rect`, grown by padding and extrusion, has a place in
    /// the bin whose new run stays inside it, below the bottom row. Nothing
    /// changes.
    pub fn can_pack(&self, texture_rect: &Rect) -> (r: bool)
        requires
            self.wf(),
            texture_rect.w + self.config().spec_extra() > 0,
            texture_rect.h + self.config().spec_extra() > 0,
        ensures
            r == accepts(
                self.skylines(),
                self.config(),
                texture_rect.w + self.config().spec_extra(),
                texture_rect.h + self.config().spec_extra(),
            ),
    {
        let ghost s = self.skylines@;
        let ghost cfg = self.config;
        let extra: u64 = self.config.texture_padding as u64 + 2 * (self.config.texture_extrusion
            as u64);
        let width64: u64 = texture_rect.w as u64 + extra;
        let height64: u64 = texture_rect.h as u64 + extra;
        if width64 > u32::MAX as u64 || height64 > u32::MAX as u64 {
            proof {
                lemma_too_large_fits_nowhere(s, cfg, width64 as int, height64 as int);
            }
            return false;
        }
        match self.find_skyline(width64 as u32, height64 as u32) {
            None => false,
            Some((i, rect)) => {
                let ghost rot = choose|rot: bool|
                    is_best(s, cfg, width64 as int, height64 as int, i as int, rot) && rect
                        == placed(s, width64 as int, height64 as int, i as int, rot);
                proof {
                    lemma_rest_height_nonneg(s, i as int, oriented(width64 as int, height64 as int, rot).0);
                    lemma_best_unique(s, cfg, width64 as int, height64 as int, i as int, rot);
                    assert(self.skylines() == s);
                    assert(self.config() == cfg);
                    assert(cand_bottom(s, width64 as int, height64 as int, i as int, rot) == rect.y
                        + rect.h);
                }
                (rect.y as u64 + rect.h as u64) < self.config.max_height as u64
            },
        }
    }

    /// Center of the untrimmed image of `frame` in the bin: the center of the
    /// packed rectangle when the frame is not trimmed; else the center of the
    /// original image, placed so that its trimmed part covers the packed
    /// rectangle, brought into the bin's bounds.
    pub fn frame_center_before_trimming<K>(&self, frame: Frame<K>) -> (r: (u32, u32))
        requires
            !frame.trimmed ==> frame.frame.x + frame.frame.w / 2 <= u32::MAX,
            !frame.trimmed ==> frame.frame.y + frame.frame.h / 2 <= u32::MAX,
        ensures
            !frame.trimmed ==> r == ((frame.frame.x + frame.frame.w / 2) as u32, (frame.frame.y
                + frame.frame.h / 2) as u32),
            frame.trimmed ==> r.0 == clamp(
                frame.frame.x - frame.source.x + frame.source.w / 2,
                0,
                self.config().max_width as int,
            ),
            frame.trimmed ==> r.1 == clamp(
                frame.frame.y - frame.source.y + frame.source.h / 2,
                0,
                self.config().max_height as int,
            ),
    {
        // if not trimmed, just return the frame center
        if !frame.trimmed {
            return (frame.frame.x + frame.frame.w / 2, frame.frame.y + frame.frame.h / 2);
        }
        // move the frame back by the trimmed amount, then to the original center
        let center_x: i64 = frame.frame.x as i64 - frame.source.x as i64 + (frame.source.w / 2) as i64;
        let center_y: i64 = frame.frame.y as i64 - frame.source.y as i64 + (frame.source.h / 2) as i64;
        // if we are outside the packer's dimensions, clamp to its border
        let x = if center_x < 0 {
            0
        } else if center_x > self.config.max_width as i64 {
            self.config.max_width
        } else {
            center_x as u32
        };
        let y = if center_y < 0 {
            0
        } else if center_y > self.config.max_height as i64 {
            self.config.max_height
        } else {
            center_y as u32
        };
        (x, y)
    }
}

/// The chosen placement is the only one: two placements that are both chosen
/// are the same.
pub proof fn lemma_best_unique(
    s: Seq<Skyline>,
    cfg: TexturePackerConfig,
    w: int,
    h: int,
    i: int,
    ri: bool,
)
    requires
        is_best(s, cfg, w, h, i, ri),
    ensures
        forall|j: int, rj: bool| #[trigger] is_best(s, cfg, w, h, j, rj) ==> j == i && rj == ri,
{
    assert forall|j: int, rj: bool| #[trigger] is_best(s, cfg, w, h, j, rj) implies j == i && rj
        == ri by {
        if scan_before(j, rj, i, ri) {
            assert(better(s, w, h, i, ri, j, rj));
        } else if scan_before(i, ri, j, rj) {
            assert(better(s, w, h, j, rj, i, ri));
        }
    }
}

/// What the dry run accepts, packing places: a placement exists, so `pack`
/// succeeds on the same skyline, and the one it takes has the bottom that the
/// dry run checked.
pub proof fn lemma_can_pack_then_pack(s: Seq<Skyline>, cfg: TexturePackerConfig, w: int, h: int)
    requires
        accepts(s, cfg, w, h),
    ensures
        placement_exists(s, cfg, w, h),
        forall|i: int, rot: bool| #[trigger]
            is_best(s, cfg, w, h, i, rot) ==> cand_bottom(s, w, h, i, rot) < cfg.max_height,
{
    let (i, rot) = choose|i: int, rot: bool|
        #[trigger] is_best(s, cfg, w, h, i, rot) && cand_bottom(s, w, h, i, rot) < cfg.max_height;
    lemma_best_unique(s, cfg, w, h, i, rot);
    assert(is_candidate(s, cfg, w, h, i, rot));
}

/// A rectangle wider or taller than the bin, turned or not where turning is
/// allowed, fits nowhere.
pub proof fn lemma_too_large_fits_nowhere(
    s: Seq<Skyline>,
    cfg: TexturePackerConfig,
    w: int,
    h: int,
)
    requires
        w > cfg.max_width || h > cfg.max_height,
        cfg.allow_rotation ==> (h > cfg.max_width || w > cfg.max_height),
    ensures
        !placement_exists(s, cfg, w, h),
{
    assert forall|i: int, rot: bool| !#[trigger] is_candidate(s, cfg, w, h, i, rot) by {
        lemma_rest_height_nonneg(s, i, oriented(w, h, rot).0);
    }
}

impl<K> Packer<K> for SkylinePacker {
    open spec fn ready(&self) -> bool {
        self.wf()
    }

    open spec fn admits(&self, texture_rect: Rect) -> bool {
        &&& texture_rect.w + self.config().spec_extra() > 0
        &&& texture_rect.h + self.config().spec_extra() > 0
    }

    fn pack(&mut self, key: K, texture_rect: &Rect) -> (r: Option<Frame<K>>) {
        SkylinePacker::pack(self, key, texture_rect)
    }

    fn can_pack(&self, texture_rect: &Rect) -> bool {
        SkylinePacker::can_pack(self, texture_rect)
    }

    fn frame_center_before_trimming(&self, frame: Frame<K>) -> (u32, u32) {
        SkylinePacker::frame_center_before_trimming(self, frame)
    }
}

} // verus!
