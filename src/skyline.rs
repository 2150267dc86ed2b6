use vstd::prelude::*;

verus! {

/// A horizontal run of the skyline at height `y`, covering the columns
/// `[x, x + w)`.
#[derive(Clone, Copy, Debug, PartialEq, Eq, Structural)]
pub struct Skyline {
    pub x: u32,
    pub y: u32,
    pub w: u32,
}

impl Skyline {
    /// One past the last column of the run.
    pub open spec fn end(self) -> int {
        self.x + self.w
    }

    pub fn left(&self) -> (r: u32)
        ensures
            r == self.x,
    {
        self.x
    }

    /// Last column of the run.
    pub fn right(&self) -> (r: u32)
        requires
            self.w > 0,
            self.end() <= u32::MAX + 1,
        ensures
            r == self.end() - 1,
    {
        self.x + (self.w - 1)
    }
}

/// The runs tile the columns `[0, max_w)` from left to right, without gap or
/// overlap, and none rises above `max_h`.
pub open spec fn profile_wf(s: Seq<Skyline>, max_w: int, max_h: int) -> bool {
    &&& s.len() >= 1
    &&& s[0].x == 0
    &&& s.last().end() == max_w
    &&& forall|i: int| 0 <= i < s.len() ==> #[trigger] s[i].w > 0 && s[i].y <= max_h
    &&& forall|i: int| 0 <= i < s.len() - 1 ==> #[trigger] s[i + 1].x == s[i].end()
}

/// The runs tile the columns `[0, end)` from left to right, without gap or
/// overlap, and none rises above `max_h`: a skyline under construction.
pub open spec fn prefix_wf(s: Seq<Skyline>, end: int, max_h: int) -> bool {
    &&& s.len() >= 1
    &&& s[0].x == 0
    &&& s.last().end() == end
    &&& forall|i: int| 0 <= i < s.len() ==> #[trigger] s[i].w > 0 && s[i].y <= max_h
    &&& forall|i: int| 0 <= i < s.len() - 1 ==> #[trigger] s[i + 1].x == s[i].end()
}

/// No two neighbouring runs stand at the same height.
pub open spec fn profile_merged(s: Seq<Skyline>) -> bool {
    forall|i: int| 0 <= i < s.len() - 1 ==> #[trigger] s[i + 1].y != s[i].y
}

/// Height at which a rectangle rests when it spans the runs from index `i` on
/// and `width_left` columns of it are still to be covered from `s[i].x`: the
/// highest of the runs it spans.
pub open spec fn rest_height(s: Seq<Skyline>, i: int, width_left: int) -> int
    decreases s.len() - i,
{
    if i < 0 || i >= s.len() {
        0
    } else if width_left <= s[i].w {
        s[i].y as int
    } else {
        let rest = rest_height(s, i + 1, width_left - s[i].w);
        if rest < s[i].y {
            s[i].y as int
        } else {
            rest
        }
    }
}

/// A rectangle never rests below the floor of the bin.
pub proof fn lemma_rest_height_nonneg(s: Seq<Skyline>, i: int, width_left: int)
    ensures
        rest_height(s, i, width_left) >= 0,
{
}

/// A `w × h` rectangle whose left edge sits at the start of run `i`, resting
/// on the skyline, stays inside the `max_w × max_h` bin.
pub open spec fn fits_at(s: Seq<Skyline>, max_w: int, max_h: int, i: int, w: int, h: int) -> bool {
    &&& 0 <= i < s.len()
    &&& s[i].x + w <= max_w
    &&& rest_height(s, i, w) + h <= max_h
}

/// The runs from index `j` on, with the columns before `c` cut away.
pub open spec fn cut_from(s: Seq<Skyline>, j: int, c: int) -> Seq<Skyline>
    decreases s.len() - j,
{
    if j < 0 || j >= s.len() {
        Seq::empty()
    } else if s[j].end() <= c {
        cut_from(s, j + 1, c)
    } else if s[j].x < c {
        seq![Skyline { x: c as u32, y: s[j].y, w: (s[j].end() - c) as u32 }] + s.subrange(
            j + 1,
            s.len() as int,
        )
    } else {
        s.subrange(j, s.len() as int)
    }
}

/// The skyline after the rectangle `(x, y, w, h)` is laid on it from run `i`
/// on: a new run on top of the rectangle, and the runs it covers cut away.
pub open spec fn split_spec(s: Seq<Skyline>, i: int, x: int, y: int, w: int, h: int) -> Seq<
    Skyline,
> {
    s.subrange(0, i) + seq![Skyline { x: x as u32, y: (y + h) as u32, w: w as u32 }] + cut_from(
        s,
        i,
        x + w,
    )
}

/// The skyline with every two neighbouring runs of equal height fused into one,
/// from left to right.
pub open spec fn merged(s: Seq<Skyline>) -> Seq<Skyline>
    decreases s.len(),
{
    if s.len() <= 1 {
        s
    } else {
        let m = merged(s.drop_last());
        if m.len() > 0 && m.last().y == s.last().y {
            m.drop_last().push(
                Skyline { x: m.last().x, y: m.last().y, w: (m.last().w + s.last().w) as u32 },
            )
        } else {
            m.push(s.last())
        }
    }
}

/// Run `i` holds column `c`.
pub open spec fn covers(s: Seq<Skyline>, i: int, c: int) -> bool {
    0 <= i < s.len() && s[i].x <= c < s[i].end()
}

/// Some run holds column `c`.
pub open spec fn column_covered(s: Seq<Skyline>, c: int) -> bool {
    exists|i: int| #[trigger] covers(s, i, c)
}

/// In a well-formed skyline the runs are sorted by `x`, and every column of the
/// bin lies in exactly one run.
pub proof fn lemma_profile_partitions(s: Seq<Skyline>, max_w: int, max_h: int)
    requires
        profile_wf(s, max_w, max_h),
    ensures
        forall|i: int, j: int| 0 <= i < j < s.len() ==> #[trigger] s[i].x < #[trigger] s[j].x,
        forall|c: int| 0 <= c < max_w ==> #[trigger] column_covered(s, c),
        forall|c: int, i: int, j: int|
            #[trigger] covers(s, i, c) && #[trigger] covers(s, j, c) ==> i == j,
{
    lemma_runs_ordered(s, max_w, max_h);
    assert forall|c: int| 0 <= c < max_w implies #[trigger] column_covered(s, c) by {
        lemma_column_covered(s, max_w, max_h, c, s.len() - 1);
    }
}

/// Every run of a well-formed skyline ends within the bin.
pub proof fn lemma_runs_within(s: Seq<Skyline>, max_w: int, max_h: int)
    requires
        profile_wf(s, max_w, max_h),
    ensures
        forall|j: int| 0 <= j < s.len() ==> #[trigger] s[j].end() <= max_w,
{
    lemma_runs_ordered(s, max_w, max_h);
    assert forall|j: int| 0 <= j < s.len() implies #[trigger] s[j].end() <= max_w by {
        if j < s.len() - 1 {
            assert(s[j].end() <= s[s.len() - 1].x);
        }
    }
}

proof fn lemma_runs_ordered(s: Seq<Skyline>, max_w: int, max_h: int)
    requires
        profile_wf(s, max_w, max_h),
    ensures
        forall|i: int, j: int| 0 <= i < j < s.len() ==> s[i].end() <= s[j].x,
        forall|i: int, j: int| 0 <= i < j < s.len() ==> #[trigger] s[i].x < #[trigger] s[j].x,
{
    assert forall|i: int, j: int| 0 <= i < j < s.len() implies s[i].end() <= s[j].x by {
        lemma_runs_ordered_from(s, max_w, max_h, i, j);
    }
    assert forall|i: int, j: int| 0 <= i < j < s.len() implies #[trigger] s[i].x
        < #[trigger] s[j].x by {
        lemma_runs_ordered_from(s, max_w, max_h, i, j);
        assert(s[i].w > 0);
    }
}

proof fn lemma_runs_ordered_from(s: Seq<Skyline>, max_w: int, max_h: int, i: int, j: int)
    requires
        profile_wf(s, max_w, max_h),
        0 <= i < j < s.len(),
    ensures
        s[i].end() <= s[j].x,
    decreases j - i,
{
    assert(s[j - 1 + 1].x == s[j - 1].end());
    if j - 1 > i {
        lemma_runs_ordered_from(s, max_w, max_h, i, j - 1);
        assert(s[j - 1].w > 0);
    }
}

proof fn lemma_column_covered(s: Seq<Skyline>, max_w: int, max_h: int, c: int, k: int)
    requires
        profile_wf(s, max_w, max_h),
        0 <= k < s.len(),
        0 <= c < s[k].end(),
    ensures
        column_covered(s, c),
    decreases k,
{
    if s[k].x <= c {
        assert(covers(s, k, c));
    } else {
        assert(s[k - 1 + 1].x == s[k - 1].end());
        lemma_column_covered(s, max_w, max_h, c, k - 1);
    }
}

} // verus!
