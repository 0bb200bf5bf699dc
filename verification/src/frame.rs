//! Frames: one grey level per pixel of a grid, row by row, and the loops that
//! fill a frame from a scene.
//!
//! Columns run along the x axis of the picture plane and rows along its y
//! axis. How a column and a row become a point of that plane is the probe's
//! business: the rasterizer hands it the pixel and takes back the depth key of
//! the hit, or nothing.

use vstd::prelude::*;
use crate::raster::all_miss;
use crate::raster::closer;
use crate::raster::is_nearest;
use crate::raster::lemma_all_miss_is_background;
use crate::raster::lemma_closer_step;
use crate::raster::lemma_winner_is;
use crate::raster::shade_of;
use crate::raster::Hit;
use crate::raster::BACKGROUND;
use crate::scene::Group;
use crate::scene::Sphere;

verus! {

/// A finished picture: `width * height` grey levels, row after row, each row
/// from its first column to its last.
#[derive(Clone, Debug)]
pub struct Frame {
    pub width: u32,
    pub height: u32,
    pub pixels: Vec<u8>,
}

impl Frame {
    /// The buffer holds exactly one grey level per pixel.
    pub open spec fn wf(&self) -> bool {
        self.pixels@.len() == self.width * self.height
    }

    /// The grey level at column `col` of row `row`.
    pub open spec fn at(&self, col: u32, row: u32) -> u8 {
        cell(self.pixels@, self.width, col, row)
    }

    /// The grey level at column `col` of row `row`.
    pub fn pixel(&self, col: u32, row: u32) -> (grey: u8)
        requires
            self.wf(),
            col < self.width,
            row < self.height,
        ensures
            grey == self.at(col, row),
    {
        proof {
            lemma_cell_in_grid(self.width as int, self.height as int, col as int, row as int);
            assert(row * self.width + col < self.pixels.len());
        }
        let index: usize = row as usize * self.width as usize + col as usize;
        self.pixels[index]
    }
}

/// A cell of a `width` by `height` grid has its place inside the row-major
/// buffer.
proof fn lemma_cell_in_grid(width: int, height: int, col: int, row: int)
    requires
        0 <= col < width,
        0 <= row < height,
    ensures
        0 <= row * width <= row * width + col < (row + 1) * width <= width * height,
        width * height == height * width,
{
    assert(row * width >= 0) by (nonlinear_arith)
        requires
            row >= 0,
            width >= 0,
    ;
    assert((row + 1) * width == row * width + width) by (nonlinear_arith);
    assert((row + 1) * width <= height * width) by (nonlinear_arith)
        requires
            row + 1 <= height,
            width >= 0,
    ;
    assert(height * width == width * height) by (nonlinear_arith);
}

/// `hits` is what `probe` may report for the ray through the pixel at
/// (`col`, `row`): one entry per member of `group`, in order, a miss where the
/// probe reports none, and otherwise the reported depth key with the member's
/// grey level.
pub open spec fn ray_hits<G, P: Fn(&G, u32, u32) -> Option<i64>>(
    group: Seq<Sphere<G>>,
    probe: P,
    col: u32,
    row: u32,
    hits: Seq<Option<Hit>>,
) -> bool {
    &&& hits.len() == group.len()
    &&& forall|i: int|
        0 <= i < group.len() ==> match #[trigger] hits[i] {
            Some(hit) => {
                &&& hit.intensity == group[i].intensity
                &&& call_ensures(probe, (&group[i].shape, col, row), Some(hit.depth))
            },
            None => call_ensures(probe, (&group[i].shape, col, row), None),
        }
}

/// The entry of a row-major buffer for column `col` of row `row`, the rows
/// being `width` long.
pub open spec fn cell(pixels: Seq<u8>, width: u32, col: u32, row: u32) -> u8 {
    pixels[row * width + col]
}

/// The pixel at (`col`, `row`) of a row-major buffer has the shade of its ray.
pub open spec fn cell_shaded<G, P: Fn(&G, u32, u32) -> Option<i64>>(
    pixels: Seq<u8>,
    width: u32,
    group: Seq<Sphere<G>>,
    probe: P,
    col: u32,
    row: u32,
) -> bool {
    exists|hits: Seq<Option<Hit>>| #[trigger]
        ray_hits(group, probe, col, row, hits) && cell(pixels, width, col, row) == shade_of(hits)
}

/// `frame` shows `group` as `probe` sees it: every pixel has the shade of what
/// the probe reports for its ray.
pub open spec fn depicts<G, P: Fn(&G, u32, u32) -> Option<i64>>(
    frame: Frame,
    group: Seq<Sphere<G>>,
    probe: P,
) -> bool {
    &&& frame.wf()
    &&& forall|col: u32, row: u32|
        col < frame.width && row < frame.height ==> #[trigger] cell_shaded(
            frame.pixels@,
            frame.width,
            group,
            probe,
            col,
            row,
        )
}

/// The probe may be asked about every member of `group` at every pixel of a
/// grid of `width` by `height`.
pub open spec fn probe_ready<G, P: Fn(&G, u32, u32) -> Option<i64>>(
    group: Seq<Sphere<G>>,
    probe: P,
    width: u32,
    height: u32,
) -> bool {
    forall|i: int, col: u32, row: u32|
        0 <= i < group.len() && col < width && row < height ==> #[trigger] call_requires(
            probe,
            (&group[i].shape, col, row),
        )
}

/// The grey level of the pixel at (`col`, `row`): the probe is asked about
/// every member of the group in turn, and the nearest hit wins.
pub fn cast_ray<G, P: Fn(&G, u32, u32) -> Option<i64>>(
    group: &Group<G>,
    probe: &P,
    col: u32,
    row: u32,
) -> (grey: u8)
    requires
        forall|i: int|
            0 <= i < group@.len() ==> call_requires(
                *probe,
                (&(#[trigger] group@[i]).shape, col, row),
            ),
    ensures
        exists|hits: Seq<Option<Hit>>| #[trigger]
            ray_hits(group@, *probe, col, row, hits) && grey == shade_of(hits),
{
    let mut best: Option<Hit> = None;
    let ghost mut seen: Seq<Option<Hit>> = Seq::empty();
    let mut i: usize = 0;
    while i < group.spheres.len()
        invariant
            i <= group@.len(),
            seen.len() == i,
            forall|j: int|
                0 <= j < group@.len() ==> call_requires(
                    *probe,
                    (&(#[trigger] group@[j]).shape, col, row),
                ),
            forall|j: int|
                0 <= j < i ==> match #[trigger] seen[j] {
                    Some(hit) => {
                        &&& hit.intensity == group@[j].intensity
                        &&& call_ensures(*probe, (&group@[j].shape, col, row), Some(hit.depth))
                    },
                    None => call_ensures(*probe, (&group@[j].shape, col, row), None),
                },
            best is None <==> all_miss(seen),
            best is Some ==> exists|k: int| is_nearest(seen, k) && seen[k] == best,
        decreases group@.len() - i,
    {
        let member = &group.spheres[i];
        let next = match probe(&member.shape, col, row) {
            Some(depth) => Some(Hit { depth, intensity: member.intensity }),
            None => None,
        };
        proof {
            lemma_closer_step(seen, best, next);
            let ghost longer = seen.push(next);
            assert(forall|j: int| 0 <= j < i ==> longer[j] == seen[j]);
            seen = longer;
        }
        best = closer(best, next);
        i += 1;
    }
    proof {
        assert(ray_hits(group@, *probe, col, row, seen));
        match best {
            Some(hit) => {
                let k = choose|k: int| is_nearest(seen, k) && seen[k] == best;
                lemma_winner_is(seen, k);
            },
            None => {
                lemma_all_miss_is_background(seen);
            },
        }
    }
    match best {
        Some(hit) => hit.intensity,
        None => BACKGROUND,
    }
}

/// Renders `group` onto a grid of `width` by `height` pixels, row by row.
/// Every pixel gets the shade of its own ray; a scene without spheres gives
/// `width * height` bytes of background.
pub fn rasterize<G, P: Fn(&G, u32, u32) -> Option<i64>>(
    group: &Group<G>,
    width: u32,
    height: u32,
    probe: &P,
) -> (frame: Frame)
    requires
        width * height <= usize::MAX,
        probe_ready(group@, *probe, width, height),
    ensures
        frame.width == width,
        frame.height == height,
        frame.pixels@.len() == width * height,
        depicts(frame, group@, *probe),
        group@.len() == 0 ==> forall|index: int|
            0 <= index < frame.pixels@.len() ==> #[trigger] frame.pixels@[index] == BACKGROUND,
{
    let mut pixels: Vec<u8> = Vec::new();
    let mut row: u32 = 0;
    while row < height
        invariant
            row <= height,
            width * height <= usize::MAX,
            probe_ready(group@, *probe, width, height),
            pixels@.len() == row * width,
            forall|c: u32, r: u32|
                c < width && r < row ==> #[trigger] cell_shaded(
                    pixels@,
                    width,
                    group@,
                    *probe,
                    c,
                    r,
                ),
        decreases height - row,
    {
        let mut col: u32 = 0;
        while col < width
            invariant
                row < height,
                col <= width,
                width * height <= usize::MAX,
                probe_ready(group@, *probe, width, height),
                pixels@.len() == row * width + col,
                forall|c: u32, r: u32|
                    c < width && r < row ==> #[trigger] cell_shaded(
                        pixels@,
                        width,
                        group@,
                        *probe,
                        c,
                        r,
                    ),
                forall|c: u32|
                    c < col ==> #[trigger] cell_shaded(pixels@, width, group@, *probe, c, row),
            decreases width - col,
        {
            let grey = cast_ray(group, probe, col, row);
            let ghost before = pixels@;
            proof {
                lemma_cell_in_grid(width as int, height as int, col as int, row as int);
            }
            pixels.push(grey);
            proof {
                assert forall|c: u32, r: u32| c < width && r < row implies #[trigger] cell_shaded(
                    pixels@,
                    width,
                    group@,
                    *probe,
                    c,
                    r,
                ) by {
                    lemma_cell_in_grid(width as int, row as int, c as int, r as int);
                    assert(cell_shaded(before, width, group@, *probe, c, r));
                    assert(cell(pixels@, width, c, r) == cell(before, width, c, r));
                }
                assert forall|c: u32| c < col + 1 implies #[trigger] cell_shaded(
                    pixels@,
                    width,
                    group@,
                    *probe,
                    c,
                    row,
                ) by {
                    if c < col {
                        assert(cell_shaded(before, width, group@, *probe, c, row));
                        assert(cell(pixels@, width, c, row) == cell(before, width, c, row));
                    } else {
                        assert(cell(pixels@, width, c, row) == grey);
                    }
                }
            }
            col += 1;
        }
        proof {
            assert((row + 1) * width == row * width + width) by (nonlinear_arith);
        }
        row += 1;
    }
    proof {
        assert(row * width == width * height) by (nonlinear_arith)
            requires
                row == height,
        ;
    }
    let frame = Frame { width, height, pixels };
    proof {
        if group@.len() == 0 {
            lemma_empty_scene_is_background(frame, group@, *probe);
        }
    }
    frame
}

/// What the ray of one pixel of a picture saw: ray results that the probe may
/// report there and whose shade the pixel has.
pub proof fn lemma_pixel_has_hits<G, P: Fn(&G, u32, u32) -> Option<i64>>(
    frame: Frame,
    group: Seq<Sphere<G>>,
    probe: P,
    col: u32,
    row: u32,
) -> (hits: Seq<Option<Hit>>)
    requires
        depicts(frame, group, probe),
        col < frame.width,
        row < frame.height,
    ensures
        ray_hits(group, probe, col, row, hits),
        frame.at(col, row) == shade_of(hits),
{
    assert(cell_shaded(frame.pixels@, frame.width, group, probe, col, row));
    choose|hits: Seq<Option<Hit>>| #[trigger]
        ray_hits(group, probe, col, row, hits) && cell(frame.pixels@, frame.width, col, row)
            == shade_of(hits)
}

/// Every place of a row-major buffer is the place of one cell of the grid.
proof fn lemma_grid_has_cell(width: int, height: int, index: int) -> (cell: (int, int))
    requires
        0 <= index < width * height,
        0 <= width,
    ensures
        0 <= cell.0 < width,
        0 <= cell.1 < height,
        cell.1 * width + cell.0 == index,
{
    if width == 0 {
        assert(width * height == 0) by (nonlinear_arith)
            requires
                width == 0,
        ;
    }
    let col = index % width;
    let row = index / width;
    vstd::arithmetic::div_mod::lemma_fundamental_div_mod(index, width);
    vstd::arithmetic::div_mod::lemma_mod_pos_bound(index, width);
    vstd::arithmetic::div_mod::lemma_div_pos_is_pos(index, width);
    assert(width * row == row * width) by (nonlinear_arith);
    if row >= height {
        assert(row * width >= height * width) by (nonlinear_arith)
            requires
                row >= height,
                width > 0,
        ;
        assert(height * width == width * height) by (nonlinear_arith);
    }
    (col, row)
}

/// A scene without spheres is all background: every pixel of its picture,
/// and so every byte of the buffer, is 0.
pub proof fn lemma_empty_scene_is_background<G, P: Fn(&G, u32, u32) -> Option<i64>>(
    frame: Frame,
    group: Seq<Sphere<G>>,
    probe: P,
)
    requires
        depicts(frame, group, probe),
        group.len() == 0,
    ensures
        forall|col: u32, row: u32|
            col < frame.width && row < frame.height ==> #[trigger] frame.at(col, row)
                == BACKGROUND,
        frame.pixels@.len() == frame.width * frame.height,
        forall|index: int|
            0 <= index < frame.pixels@.len() ==> #[trigger] frame.pixels@[index] == BACKGROUND,
{
    assert forall|col: u32, row: u32| col < frame.width && row < frame.height implies #[trigger]
        frame.at(col, row) == BACKGROUND by {
        let hits = lemma_pixel_has_hits(frame, group, probe, col, row);
        lemma_all_miss_is_background(hits);
    }
    assert forall|index: int| 0 <= index < frame.pixels@.len() implies #[trigger]
        frame.pixels@[index] == BACKGROUND by {
        let (c, r) = lemma_grid_has_cell(frame.width as int, frame.height as int, index);
        assert(frame.at(c as u32, r as u32) == BACKGROUND);
    }
}

/// A scene of one sphere shows that sphere's grey wherever the probe reports
/// a hit, and background wherever it reports a miss: no pixel has any other
/// grey, none has the sphere's grey unless a hit may be reported there, and
/// none is background unless a miss may be.
pub proof fn lemma_single_sphere<G, P: Fn(&G, u32, u32) -> Option<i64>>(
    frame: Frame,
    group: Seq<Sphere<G>>,
    probe: P,
)
    requires
        depicts(frame, group, probe),
        group.len() == 1,
    ensures
        forall|col: u32, row: u32|
            col < frame.width && row < frame.height ==> {
                ||| {
                    &&& #[trigger] frame.at(col, row) == group[0].intensity
                    &&& exists|depth: i64|
                        call_ensures(probe, (&group[0].shape, col, row), Some(depth))
                }
                ||| {
                    &&& frame.at(col, row) == BACKGROUND
                    &&& call_ensures(probe, (&group[0].shape, col, row), None)
                }
            },
{
    assert forall|col: u32, row: u32| col < frame.width && row < frame.height implies {
        ||| {
            &&& #[trigger] frame.at(col, row) == group[0].intensity
            &&& exists|depth: i64| call_ensures(probe, (&group[0].shape, col, row), Some(depth))
        }
        ||| {
            &&& frame.at(col, row) == BACKGROUND
            &&& call_ensures(probe, (&group[0].shape, col, row), None)
        }
    } by {
        let hits = lemma_pixel_has_hits(frame, group, probe, col, row);
        match hits[0] {
            Some(hit) => {
                assert(is_nearest(hits, 0));
                lemma_winner_is(hits, 0);
                assert(call_ensures(probe, (&group[0].shape, col, row), Some(hit.depth)));
            },
            None => {
                lemma_all_miss_is_background(hits);
            },
        }
    }
}

/// Where the rays of a pixel meet both spheres of a scene of two, the pixel
/// has the grey of the one with the smaller depth key, and that of the first
/// where the keys are equal.
pub proof fn lemma_nearer_of_two_wins<G, P: Fn(&G, u32, u32) -> Option<i64>>(
    frame: Frame,
    group: Seq<Sphere<G>>,
    probe: P,
    col: u32,
    row: u32,
    first: i64,
    second: i64,
)
    requires
        depicts(frame, group, probe),
        group.len() == 2,
        col < frame.width,
        row < frame.height,
        forall|found: Option<i64>|
            call_ensures(probe, (&group[0].shape, col, row), found) ==> found == Some(first),
        forall|found: Option<i64>|
            call_ensures(probe, (&group[1].shape, col, row), found) ==> found == Some(second),
    ensures
        frame.at(col, row) == if second < first {
            group[1].intensity
        } else {
            group[0].intensity
        },
{
    let hits = lemma_pixel_has_hits(frame, group, probe, col, row);
    assert(hits[0] is Some && hits[0].unwrap().depth == first);
    assert(hits[1] is Some && hits[1].unwrap().depth == second);
    if second < first {
        assert(is_nearest(hits, 1));
        lemma_winner_is(hits, 1);
    } else {
        assert(is_nearest(hits, 0));
        lemma_winner_is(hits, 0);
    }
}

/// The probe reports one thing only for each sphere of `group` at each pixel.
pub open spec fn probe_is_single_valued<G, P: Fn(&G, u32, u32) -> Option<i64>>(
    group: Seq<Sphere<G>>,
    probe: P,
) -> bool {
    forall|i: int, col: u32, row: u32, one: Option<i64>, other: Option<i64>|
        0 <= i < group.len() && #[trigger] call_ensures(probe, (&group[i].shape, col, row), one)
            && #[trigger] call_ensures(probe, (&group[i].shape, col, row), other) ==> one
            == other
}

/// The probe reports of every sphere of `group` at the pixel `there` what it
/// reports at the pixel `here`.
pub open spec fn sees_alike<G, P: Fn(&G, u32, u32) -> Option<i64>>(
    group: Seq<Sphere<G>>,
    probe: P,
    here: (u32, u32),
    there: (u32, u32),
) -> bool {
    forall|i: int, found: Option<i64>|
        0 <= i < group.len() && #[trigger] call_ensures(
            probe,
            (&group[i].shape, here.0, here.1),
            found,
        ) ==> call_ensures(probe, (&group[i].shape, there.0, there.1), found)
}

/// Rays that see the same give the same results: what a probe that reports
/// one thing only may report at one pixel is what it may report at another
/// where it sees the scene alike.
pub proof fn lemma_like_rays_hit_alike<G, P: Fn(&G, u32, u32) -> Option<i64>>(
    group: Seq<Sphere<G>>,
    probe: P,
    here: (u32, u32),
    there: (u32, u32),
    seen: Seq<Option<Hit>>,
    again: Seq<Option<Hit>>,
)
    requires
        probe_is_single_valued(group, probe),
        sees_alike(group, probe, here, there),
        ray_hits(group, probe, here.0, here.1, seen),
        ray_hits(group, probe, there.0, there.1, again),
    ensures
        seen == again,
{
    assert forall|i: int| 0 <= i < group.len() implies seen[i] == again[i] by {
        let a: Option<i64> = match seen[i] {
            Some(hit) => Some(hit.depth),
            None => None,
        };
        let b: Option<i64> = match again[i] {
            Some(hit) => Some(hit.depth),
            None => None,
        };
        assert(call_ensures(probe, (&group[i].shape, here.0, here.1), a));
        assert(call_ensures(probe, (&group[i].shape, there.0, there.1), a));
        assert(call_ensures(probe, (&group[i].shape, there.0, there.1), b));
    }
    assert(seen =~= again);
}

/// Pixels whose rays see the same have the same grey: where a probe that
/// reports one thing only reports of every sphere the same at two pixels, the
/// two pixels are shaded alike. A picture is therefore as symmetric as the
/// probe's view of the scene is.
pub proof fn lemma_like_rays_shade_alike<G, P: Fn(&G, u32, u32) -> Option<i64>>(
    frame: Frame,
    group: Seq<Sphere<G>>,
    probe: P,
    here: (u32, u32),
    there: (u32, u32),
)
    requires
        depicts(frame, group, probe),
        probe_is_single_valued(group, probe),
        here.0 < frame.width,
        here.1 < frame.height,
        there.0 < frame.width,
        there.1 < frame.height,
        sees_alike(group, probe, here, there),
    ensures
        frame.at(here.0, here.1) == frame.at(there.0, there.1),
{
    let seen = lemma_pixel_has_hits(frame, group, probe, here.0, here.1);
    let again = lemma_pixel_has_hits(frame, group, probe, there.0, there.1);
    lemma_like_rays_hit_alike(group, probe, here, there, seen, again);
}

/// A scene has one picture: two frames of the same size that show the same
/// scene through a probe that reports one thing only are the same, pixel for
/// pixel.
pub proof fn lemma_depiction_is_unique<G, P: Fn(&G, u32, u32) -> Option<i64>>(
    one: Frame,
    other: Frame,
    group: Seq<Sphere<G>>,
    probe: P,
)
    requires
        depicts(one, group, probe),
        depicts(other, group, probe),
        one.width == other.width,
        one.height == other.height,
        probe_is_single_valued(group, probe),
    ensures
        one.pixels@ == other.pixels@,
{
    assert forall|index: int| 0 <= index < one.pixels@.len() implies one.pixels@[index]
        == other.pixels@[index] by {
        let (c, r) = lemma_grid_has_cell(one.width as int, one.height as int, index);
        let here = (c as u32, r as u32);
        let seen = lemma_pixel_has_hits(one, group, probe, here.0, here.1);
        let again = lemma_pixel_has_hits(other, group, probe, here.0, here.1);
        lemma_like_rays_hit_alike(group, probe, here, here, seen, again);
    }
    assert(one.pixels@ =~= other.pixels@);
}

} // verus!
