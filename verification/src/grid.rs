//! The orchestrator: the cell set, the pan/zoom viewport, the gesture state
//! machine and the memoized background geometry, composed behind one
//! tick/event/render interface.
//!
//! Scaling is carried in milli (1000 is a scale of 1.0) and bounded to
//! `[MIN_SCALING, MAX_SCALING]`. Screen positions and sizes are in screen
//! milli-pixels, grid positions and the pan translation in grid milli-units.
//! Panning is unconstrained apart from a very wide clamp that keeps the
//! arithmetic inside `i64`.

use vstd::prelude::*;
use crate::cell::{Cell, CELL_SIZE, cell_index};
use crate::geometry::{Vector2, Size2, Region, clamp_spec, div_floor_i64};
use crate::interaction::{Button, Event, Intent, Interaction};
use crate::life::{Life, alive_next};
use crate::preset::{Preset, preset_cells};

verus! {

/// Smallest zoom factor, in milli: 0.1.
pub const MIN_SCALING: i64 = 100;

/// Largest zoom factor, in milli: 2.0.
pub const MAX_SCALING: i64 = 2000;

/// The pan translation is clamped to this magnitude (a span of a hundred
/// million cells) so viewport arithmetic stays inside `i64`.
pub const TRANSLATION_LIMIT: i64 = 1_000_000_000_000;

/// Largest supported viewport dimension, in screen milli-pixels.
pub const MAX_VIEW_MILLI: i64 = 2_000_000_000;

/// A wheel amount beyond this magnitude (six hundred lines in one event)
/// already drives any in-range scaling past both bounds, so the computation
/// may cap the amount there without changing the clamped result.
pub const MAX_WHEEL_MILLI: i64 = 600_000;

/// The transform stack a renderer applies to a layer's cell squares:
/// translate to the viewport center, scale by `scaling`, translate by the
/// pan `translation`, scale by `cell_size`.
#[derive(Debug, Clone, Copy, PartialEq, Eq, Structural)]
pub struct Transform {
    /// Half the frame size: the viewport midpoint, in screen milli-pixels.
    pub center: Vector2,
    /// Zoom factor in milli.
    pub scaling: i64,
    /// Pan translation in grid milli-units.
    pub translation: Vector2,
    /// Grid units per cell edge.
    pub cell_size: i64,
}

/// The cached draw layer: a black background rectangle of `size`, then under
/// `transform` one white unit square per live cell, at (column, row).
#[derive(Debug, PartialEq, Eq)]
pub struct BackgroundLayer {
    pub size: Size2,
    pub transform: Transform,
    pub cells: Vec<Cell>,
}

/// The uncached overlay: under the same transform, one translucent unit
/// square on the cell under the cursor, if any.
#[derive(Debug, Clone, Copy, PartialEq, Eq)]
pub struct OverlayLayer {
    pub size: Size2,
    pub transform: Transform,
    pub hovered: Option<Cell>,
}

/// Everything observable about a grid: the live set, the gesture state, the
/// viewport transform and the render cache.
pub struct GridState {
    pub live: Set<Cell>,
    pub interaction: Interaction,
    pub translation: Vector2,
    pub scaling: i64,
    pub cache: Option<BackgroundLayer>,
}

/// Width of the visible grid-space region, in grid milli-units.
pub open spec fn region_extent(scaling: int, len: int) -> int {
    len * 1000 / scaling
}

/// Left edge of the visible grid-space region: the viewport midpoint maps to
/// the negated translation.
pub open spec fn region_low(scaling: int, t: int, len: int) -> int {
    -t - region_extent(scaling, len) / 2
}

/// One axis of the screen-to-grid projection.
pub open spec fn project_axis(scaling: int, t: int, len: int, pos: int) -> int {
    pos * 1000 / scaling + region_low(scaling, t, len)
}

/// The cell under a screen position `p` within a viewport of size `bounds`.
pub open spec fn hovered_cell(scaling: int, t: Vector2, bounds: Size2, p: Vector2) -> Cell {
    Cell {
        i: cell_index(project_axis(scaling, t.y as int, bounds.height as int, p.y as int)) as i64,
        j: cell_index(project_axis(scaling, t.x as int, bounds.width as int, p.x as int)) as i64,
    }
}

/// Does a wheel amount `y` change the zoom at all? Zooming out is possible
/// above the lower bound, zooming in below the upper one.
pub open spec fn zoom_applies(scaling: int, y: int) -> bool {
    (y < 0 && scaling > MIN_SCALING as int) || (y > 0 && scaling < MAX_SCALING as int)
}

/// The zoom factor after a wheel amount `y`: grown by `y / 30` lines'
/// worth and clamped to the scaling bounds.
pub open spec fn zoom_scaling(scaling: int, y: int) -> int {
    clamp_spec(scaling * (30000 + y) / 30000, MIN_SCALING as int, MAX_SCALING as int)
}

/// Capping the wheel amount at [`MAX_WHEEL_MILLI`] before the zoom formula
/// never changes the clamped scaling: beyond the cap the formula is already
/// pinned to a bound.
proof fn lemma_capped_wheel_equals(scaling: int, y: int)
    requires
        MIN_SCALING as int <= scaling <= MAX_SCALING as int,
    ensures
        ({
            let yc = clamp_spec(y, -MAX_WHEEL_MILLI as int, MAX_WHEEL_MILLI as int);
            clamp_spec(scaling * (30000 + yc) / 30000, MIN_SCALING as int, MAX_SCALING as int)
                == zoom_scaling(scaling, y)
        }),
{
    let yc = clamp_spec(y, -MAX_WHEEL_MILLI as int, MAX_WHEEL_MILLI as int);
    if y > MAX_WHEEL_MILLI as int {
        assert(scaling * 630000 == 30000 * (21 * scaling) + 0) by (nonlinear_arith);
        vstd::arithmetic::div_mod::lemma_fundamental_div_mod_converse(
            scaling * 630000, 30000, 21 * scaling, 0);
        assert(scaling * 630000 <= scaling * (30000 + y)) by (nonlinear_arith)
            requires
                100 <= scaling,
                630000 <= 30000 + y,
        ;
        vstd::arithmetic::div_mod::lemma_div_is_ordered(
            scaling * 630000, scaling * (30000 + y), 30000);
        assert(scaling * (30000 + yc) / 30000 == 21 * scaling);
    } else if y < -(MAX_WHEEL_MILLI as int) {
        assert(scaling * (30000 - 600000) == 30000 * (-19 * scaling) + 0) by (nonlinear_arith);
        vstd::arithmetic::div_mod::lemma_fundamental_div_mod_converse(
            scaling * (30000 - 600000), 30000, -19 * scaling, 0);
        assert(scaling * (30000 + y) <= scaling * (30000 - 600000)) by (nonlinear_arith)
            requires
                100 <= scaling,
                30000 + y <= 30000 - 600000,
        ;
        vstd::arithmetic::div_mod::lemma_div_is_ordered(
            scaling * (30000 + y), scaling * (30000 - 600000), 30000);
        assert(scaling * (30000 + yc) / 30000 == -19 * scaling);
    }
}

/// How far the translation moves along one axis so that the grid point under
/// the cursor (at `ctc` from the viewport center) stays fixed on screen.
pub open spec fn zoom_shift(ctc: int, scaling: int, new_scaling: int) -> int {
    ctc * (new_scaling - scaling) * 1000 / (scaling * scaling)
}

/// The pan translation is kept inside `TRANSLATION_LIMIT`.
pub open spec fn clamp_translation(v: int) -> int {
    clamp_spec(v, -TRANSLATION_LIMIT as int, TRANSLATION_LIMIT as int)
}

/// One axis of a pan: the translation at the pan's start, moved by the
/// cursor's travel since then in grid units.
pub open spec fn pan_axis(t0: int, start: int, pos: int, scaling: int) -> int {
    clamp_translation(t0 + (pos - start) * 1000 / scaling)
}

/// Is `l` the correctly drawn background for live set `live` under the given
/// viewport, at frame size `size`?
pub open spec fn layer_matches(
    l: BackgroundLayer,
    live: Set<Cell>,
    translation: Vector2,
    scaling: i64,
    size: Size2,
) -> bool {
    &&& l.size == size
    &&& l.transform.center.x as int == size.width as int / 2
    &&& l.transform.center.y as int == size.height as int / 2
    &&& l.transform.scaling == scaling
    &&& l.transform.translation == translation
    &&& l.transform.cell_size == CELL_SIZE
    &&& l.cells@.to_set() == live
    &&& l.cells@.no_duplicates()
}

/// The cells a preset seeds.
pub open spec fn preset_cell_set(p: Preset) -> Set<Cell> {
    preset_cells(p).map_values(|t: (i64, i64)| Cell { i: t.0, j: t.1 }).to_set()
}

/// Clamp into an inclusive interval.
fn clamp_i64(v: i64, lo: i64, hi: i64) -> (r: i64)
    requires
        lo <= hi,
    ensures
        r == clamp_spec(v as int, lo as int, hi as int),
{
    if v < lo {
        lo
    } else if v > hi {
        hi
    } else {
        v
    }
}

/// An element-wise copy.
fn copy_cells(v: &Vec<Cell>) -> (r: Vec<Cell>)
    ensures
        r@ == v@,
{
    let mut r: Vec<Cell> = Vec::new();
    let mut k: usize = 0;
    while k < v.len()
        invariant
            k <= v@.len(),
            r@ == v@.take(k as int),
        decreases v@.len() - k,
    {
        let c = v[k];
        r.push(c);
        proof {
            assert(r@ =~= v@.take(k as int + 1));
        }
        k = k + 1;
    }
    proof {
        assert(v@.take(v@.len() as int) =~= v@);
    }
    r
}

/// The simulator: cell set, viewport, gesture state and render cache.
pub struct Grid {
    life: Life,
    interaction: Interaction,
    translation: Vector2,
    scaling: i64,
    cache: Option<BackgroundLayer>,
}

impl Grid {
    /// The observable state.
    pub closed spec fn state(&self) -> GridState {
        GridState {
            live: self.life@,
            interaction: self.interaction,
            translation: self.translation,
            scaling: self.scaling,
            cache: self.cache,
        }
    }

    /// The live set.
    pub open spec fn live(&self) -> Set<Cell> {
        self.state().live
    }

    /// A grid is well formed when its cell list is duplicate-free, its
    /// scaling and translation are within bounds (a remembered pan anchor
    /// too), and whatever the cache holds is the correct background for the
    /// current state.
    pub closed spec fn wf(&self) -> bool {
        &&& self.life.well_formed()
        &&& MIN_SCALING <= self.scaling <= MAX_SCALING
        &&& -TRANSLATION_LIMIT <= self.translation.x <= TRANSLATION_LIMIT
        &&& -TRANSLATION_LIMIT <= self.translation.y <= TRANSLATION_LIMIT
        &&& match self.interaction {
            Interaction::Panning { translation, start } => {
                &&& -TRANSLATION_LIMIT <= translation.x <= TRANSLATION_LIMIT
                &&& -TRANSLATION_LIMIT <= translation.y <= TRANSLATION_LIMIT
                &&& 0 <= start.x <= MAX_VIEW_MILLI
                &&& 0 <= start.y <= MAX_VIEW_MILLI
            },
            _ => true,
        }
        &&& match self.cache {
            Some(l) => {
                &&& layer_matches(l, self.life@, self.translation, self.scaling, l.size)
                &&& 0 <= l.size.width <= MAX_VIEW_MILLI
                &&& 0 <= l.size.height <= MAX_VIEW_MILLI
            },
            None => true,
        }
    }

    /// A grid seeded from a preset: the preset's cells are alive, the
    /// viewport is untransformed (scale 1.0, no pan), no gesture is active
    /// and nothing is cached yet.
    pub fn from_preset(preset: Preset) -> (r: Grid)
        ensures
            r.wf(),
            r.state().live == preset_cell_set(preset),
            r.state().interaction == Interaction::Idle,
            r.state().translation == (Vector2 { x: 0, y: 0 }),
            r.state().scaling == 1000,
            r.state().cache is None,
    {
        broadcast use vstd::prelude::Seq::lemma_push_to_set_commute;

        let coords = preset.life();
        let mut life = Life::new();
        let ghost pairs = preset_cells(preset);
        let ghost to_cell = |t: (i64, i64)| Cell { i: t.0, j: t.1 };
        let mut k: usize = 0;
        proof {
            assert(pairs.take(0).map_values(to_cell) =~= Seq::<Cell>::empty());
            assert(Seq::<Cell>::empty().to_set() =~= Set::<Cell>::empty());
        }
        while k < coords.len()
            invariant
                coords@ == pairs,
                life.well_formed(),
                k <= pairs.len(),
                to_cell == (|t: (i64, i64)| Cell { i: t.0, j: t.1 }),
                life@ == pairs.take(k as int).map_values(to_cell).to_set(),
            decreases pairs.len() - k,
        {
            let (i, j) = coords[k];
            life.populate(Cell { i, j });
            proof {
                let m0 = pairs.take(k as int).map_values(to_cell);
                let m1 = pairs.take(k as int + 1).map_values(to_cell);
                assert(m1 =~= m0.push(to_cell(pairs[k as int])));
                m0.lemma_push_to_set_commute(to_cell(pairs[k as int]));
                assert(to_cell(pairs[k as int]) == (Cell { i, j }));
                assert(m1.to_set() =~= m0.to_set().insert(Cell { i, j }));
            }
            k = k + 1;
        }
        proof {
            assert(pairs.take(pairs.len() as int) =~= pairs);
        }
        Grid {
            life,
            interaction: Interaction::Idle,
            translation: Vector2 { x: 0, y: 0 },
            scaling: 1000,
            cache: None,
        }
    }

    /// The currently active gesture.
    pub fn interaction(&self) -> (r: Interaction)
        ensures
            r == self.state().interaction,
    {
        self.interaction
    }

    /// The current zoom factor, in milli.
    pub fn scaling(&self) -> (r: i64)
        ensures
            r == self.state().scaling,
    {
        self.scaling
    }

    /// The current pan translation, in grid milli-units.
    pub fn translation(&self) -> (r: Vector2)
        ensures
            r == self.state().translation,
    {
        self.translation
    }

    /// Is `cell` alive?
    pub fn contains(&self, cell: &Cell) -> (r: bool)
        ensures
            r == self.live().contains(*cell),
    {
        self.life.contains(cell)
    }

    /// Advance the simulation one generation and invalidate the cache.
    pub fn update(&mut self)
        requires
            old(self).wf(),
        ensures
            final(self).wf(),
            forall|c: Cell| final(self).live().contains(c) <==> alive_next(old(self).live(), c),
            final(self).state().interaction == old(self).state().interaction,
            final(self).state().translation == old(self).state().translation,
            final(self).state().scaling == old(self).state().scaling,
            final(self).state().cache is None,
    {
        self.life.tick();
        self.cache = None;
    }

    /// Mark a cell alive and invalidate the cache.
    pub fn populate(&mut self, cell: Cell)
        requires
            old(self).wf(),
        ensures
            final(self).wf(),
            final(self).live() == old(self).live().insert(cell),
            final(self).state().interaction == old(self).state().interaction,
            final(self).state().translation == old(self).state().translation,
            final(self).state().scaling == old(self).state().scaling,
            final(self).state().cache is None,
    {
        self.life.populate(cell);
        self.cache = None;
    }

    /// Mark a cell dead and invalidate the cache.
    pub fn unpopulate(&mut self, cell: &Cell)
        requires
            old(self).wf(),
        ensures
            final(self).wf(),
            final(self).live() == old(self).live().remove(*cell),
            final(self).state().interaction == old(self).state().interaction,
            final(self).state().translation == old(self).state().translation,
            final(self).state().scaling == old(self).state().scaling,
            final(self).state().cache is None,
    {
        self.life.unpopulate(cell);
        self.cache = None;
    }
}

impl Default for Grid {
    /// The default simulator starts from the Gosper glider gun.
    fn default() -> (r: Grid)
        ensures
            r.wf(),
            r.state().live == preset_cell_set(Preset::GliderGun),
            r.state().interaction == Interaction::Idle,
            r.state().translation == (Vector2 { x: 0, y: 0 }),
            r.state().scaling == 1000,
            r.state().cache is None,
    {
        Grid::from_preset(Preset::GliderGun)
    }
}

/// The full behavior of one pointer event: given the state before, the event,
/// the viewport size and the cursor position within it (if any), this relates
/// the state afterwards and the returned (consumed, intent) pair.
pub open spec fn grid_step(
    pre: GridState,
    event: Event,
    bounds: Size2,
    cursor: Option<Vector2>,
    post: GridState,
    r: (bool, Option<Intent>),
) -> bool {
    match cursor {
        None => {
            &&& r == (false, None::<Intent>)
            &&& post == GridState {
                interaction: if event is ButtonReleased {
                    Interaction::Idle
                } else {
                    pre.interaction
                },
                ..pre
            }
        },
        Some(p) => {
            let cell = hovered_cell(pre.scaling as int, pre.translation, bounds, p);
            match event {
                Event::ButtonReleased => {
                    &&& r == (true, None::<Intent>)
                    &&& post == GridState { interaction: Interaction::Idle, ..pre }
                },
                Event::ButtonPressed(Button::Left) => {
                    if pre.live.contains(cell) {
                        &&& r == (true, Some(Intent::Unpopulate(cell)))
                        &&& post == GridState {
                            live: pre.live.remove(cell),
                            interaction: Interaction::Erasing,
                            cache: None,
                            ..pre
                        }
                    } else {
                        &&& r == (true, Some(Intent::Populate(cell)))
                        &&& post == GridState {
                            live: pre.live.insert(cell),
                            interaction: Interaction::Drawing,
                            cache: None,
                            ..pre
                        }
                    }
                },
                Event::ButtonPressed(Button::Right) => {
                    &&& r == (true, None::<Intent>)
                    &&& post == GridState {
                        interaction: Interaction::Panning {
                            translation: pre.translation,
                            start: p,
                        },
                        ..pre
                    }
                },
                Event::ButtonPressed(Button::Other) => {
                    &&& r == (true, None::<Intent>)
                    &&& post == pre
                },
                Event::CursorMoved => match pre.interaction {
                    Interaction::Drawing => {
                        &&& r == (true, Some(Intent::Populate(cell)))
                        &&& post == GridState { live: pre.live.insert(cell), cache: None, ..pre }
                    },
                    Interaction::Erasing => {
                        &&& r == (true, Some(Intent::Unpopulate(cell)))
                        &&& post == GridState { live: pre.live.remove(cell), cache: None, ..pre }
                    },
                    Interaction::Panning { translation: t0, start } => {
                        &&& r == (true, None::<Intent>)
                        &&& post == GridState {
                            translation: Vector2 {
                                x: pan_axis(
                                    t0.x as int,
                                    start.x as int,
                                    p.x as int,
                                    pre.scaling as int,
                                ) as i64,
                                y: pan_axis(
                                    t0.y as int,
                                    start.y as int,
                                    p.y as int,
                                    pre.scaling as int,
                                ) as i64,
                            },
                            cache: None,
                            ..pre
                        }
                    },
                    Interaction::Idle => {
                        &&& r == (false, None::<Intent>)
                        &&& post == pre
                    },
                },
                Event::WheelScrolled { y } => {
                    &&& r == (true, None::<Intent>)
                    &&& if zoom_applies(pre.scaling as int, y as int) {
                        let ns = zoom_scaling(pre.scaling as int, y as int);
                        let ctcx = p.x as int - bounds.width as int / 2;
                        let ctcy = p.y as int - bounds.height as int / 2;
                        post == GridState {
                            scaling: ns as i64,
                            translation: Vector2 {
                                x: clamp_translation(
                                    pre.translation.x - zoom_shift(
                                        ctcx,
                                        pre.scaling as int,
                                        ns,
                                    ),
                                ) as i64,
                                y: clamp_translation(
                                    pre.translation.y - zoom_shift(
                                        ctcy,
                                        pre.scaling as int,
                                        ns,
                                    ),
                                ) as i64,
                            },
                            cache: None,
                            ..pre
                        }
                    } else {
                        post == pre
                    }
                },
            }
        },
    }
}

impl Grid {
    /// The grid-space rectangle currently visible through the viewport.
    pub fn visible_region(&self, size: Size2) -> (r: Region)
        requires
            self.wf(),
            0 <= size.width <= MAX_VIEW_MILLI,
            0 <= size.height <= MAX_VIEW_MILLI,
        ensures
            r.width as int == region_extent(self.state().scaling as int, size.width as int),
            r.height as int == region_extent(self.state().scaling as int, size.height as int),
            r.x as int == region_low(
                self.state().scaling as int,
                self.state().translation.x as int,
                size.width as int,
            ),
            r.y as int == region_low(
                self.state().scaling as int,
                self.state().translation.y as int,
                size.height as int,
            ),
    {
        proof {
            crate::geometry::lemma_div_floor_in_range(
                size.width as int * 1000, self.scaling as int);
            crate::geometry::lemma_div_floor_in_range(
                size.height as int * 1000, self.scaling as int);
        }
        let width = div_floor_i64(size.width * 1000, self.scaling);
        let height = div_floor_i64(size.height * 1000, self.scaling);
        proof {
            crate::geometry::lemma_div_floor_in_range(width as int, 2);
            crate::geometry::lemma_div_floor_in_range(height as int, 2);
        }
        let x = -self.translation.x - div_floor_i64(width, 2);
        let y = -self.translation.y - div_floor_i64(height, 2);
        Region { x, y, width, height }
    }

    /// Project a screen position within the viewport to a grid-space point.
    pub fn project(&self, position: Vector2, size: Size2) -> (r: Vector2)
        requires
            self.wf(),
            0 <= size.width <= MAX_VIEW_MILLI,
            0 <= size.height <= MAX_VIEW_MILLI,
            0 <= position.x <= size.width,
            0 <= position.y <= size.height,
        ensures
            r.x as int == project_axis(
                self.state().scaling as int,
                self.state().translation.x as int,
                size.width as int,
                position.x as int,
            ),
            r.y as int == project_axis(
                self.state().scaling as int,
                self.state().translation.y as int,
                size.height as int,
                position.y as int,
            ),
    {
        let region = self.visible_region(size);
        proof {
            crate::geometry::lemma_div_floor_in_range(
                position.x as int * 1000, self.scaling as int);
            crate::geometry::lemma_div_floor_in_range(
                position.y as int * 1000, self.scaling as int);
        }
        let qx = div_floor_i64(position.x * 1000, self.scaling);
        let qy = div_floor_i64(position.y * 1000, self.scaling);
        Vector2 { x: qx + region.x, y: qy + region.y }
    }

    /// Change the zoom by a wheel amount `y`, anchored at the point
    /// `cursor_to_center` from the viewport midpoint: when the zoom can move
    /// in the wheel's direction, the scaling is rescaled by `1 + y / 30`
    /// lines' worth, clamped to its bounds, and the translation is adjusted
    /// so the grid point under the cursor stays fixed on screen; a wheel at
    /// the boundary changes nothing at all.
    pub fn zoom_at(&mut self, cursor_to_center: Vector2, y: i64)
        requires
            old(self).wf(),
            -MAX_VIEW_MILLI <= cursor_to_center.x <= MAX_VIEW_MILLI,
            -MAX_VIEW_MILLI <= cursor_to_center.y <= MAX_VIEW_MILLI,
        ensures
            final(self).wf(),
            final(self).state().live == old(self).state().live,
            final(self).state().interaction == old(self).state().interaction,
            zoom_applies(old(self).state().scaling as int, y as int) ==> {
                let ns = zoom_scaling(old(self).state().scaling as int, y as int);
                &&& final(self).state().scaling == ns
                &&& final(self).state().translation.x as int == clamp_translation(
                    old(self).state().translation.x - zoom_shift(
                        cursor_to_center.x as int,
                        old(self).state().scaling as int,
                        ns,
                    ),
                )
                &&& final(self).state().translation.y as int == clamp_translation(
                    old(self).state().translation.y - zoom_shift(
                        cursor_to_center.y as int,
                        old(self).state().scaling as int,
                        ns,
                    ),
                )
                &&& final(self).state().cache is None
            },
            !zoom_applies(old(self).state().scaling as int, y as int)
                ==> final(self).state() == old(self).state(),
    {
        if (y < 0 && self.scaling > MIN_SCALING) || (y > 0 && self.scaling < MAX_SCALING) {
            let old_scaling = self.scaling;
            let yc = clamp_i64(y, -MAX_WHEEL_MILLI, MAX_WHEEL_MILLI);
            proof {
                assert(-2000000000 <= old_scaling as int * (30000 + yc as int) <= 2000000000)
                    by (nonlinear_arith)
                    requires
                        100 <= old_scaling as int <= 2000,
                        -570000 <= 30000 + yc as int <= 630000,
                ;
            }
            let ns = clamp_i64(
                div_floor_i64(old_scaling * (30000 + yc), 30000),
                MIN_SCALING,
                MAX_SCALING,
            );
            proof {
                crate::geometry::lemma_div_floor_in_range(
                    old_scaling as int * (30000 + yc as int), 30000);
                lemma_capped_wheel_equals(old_scaling as int, y as int);
            }
            self.scaling = ns;
            let factor = ns - old_scaling;
            proof {
                assert(old_scaling as int * (old_scaling as int)
                    >= 10000 && old_scaling as int * (old_scaling as int) <= 4000000)
                    by (nonlinear_arith)
                    requires
                        100 <= old_scaling as int <= 2000,
                ;
                assert({
                    let prod = cursor_to_center.x as int * (factor as int) * 1000;
                    -4000000000000000 <= prod <= 4000000000000000
                }) by (nonlinear_arith)
                    requires
                        -2000000000 <= cursor_to_center.x as int <= 2000000000,
                        -1900 <= factor as int <= 1900,
                ;
                assert({
                    let prod = cursor_to_center.y as int * (factor as int) * 1000;
                    -4000000000000000 <= prod <= 4000000000000000
                }) by (nonlinear_arith)
                    requires
                        -2000000000 <= cursor_to_center.y as int <= 2000000000,
                        -1900 <= factor as int <= 1900,
                ;
                crate::geometry::lemma_div_floor_in_range(
                    cursor_to_center.x as int * (factor as int) * 1000,
                    old_scaling as int * (old_scaling as int),
                );
                crate::geometry::lemma_div_floor_in_range(
                    cursor_to_center.y as int * (factor as int) * 1000,
                    old_scaling as int * (old_scaling as int),
                );
            }
            let denom = old_scaling * old_scaling;
            let sx = div_floor_i64(cursor_to_center.x * factor * 1000, denom);
            let sy = div_floor_i64(cursor_to_center.y * factor * 1000, denom);
            self.translation = Vector2 {
                x: clamp_i64(self.translation.x - sx, -TRANSLATION_LIMIT, TRANSLATION_LIMIT),
                y: clamp_i64(self.translation.y - sy, -TRANSLATION_LIMIT, TRANSLATION_LIMIT),
            };
            self.cache = None;
        }
    }

    /// Run the gesture state machine for one pointer event: resolve the cell
    /// under the cursor, transition the gesture, apply any populate or
    /// unpopulate intent to the cell set, pan or zoom the viewport, and
    /// report whether the event was consumed along with the intent, exactly
    /// as [`grid_step`] states.
    pub fn handle_event(&mut self, event: Event, bounds: Size2, cursor: Option<Vector2>)
        -> (r: (bool, Option<Intent>))
        requires
            old(self).wf(),
            0 <= bounds.width <= MAX_VIEW_MILLI,
            0 <= bounds.height <= MAX_VIEW_MILLI,
            cursor matches Some(p) ==> 0 <= p.x <= bounds.width && 0 <= p.y <= bounds.height,
        ensures
            final(self).wf(),
            grid_step(old(self).state(), event, bounds, cursor, final(self).state(), r),
    {
        if matches!(event, Event::ButtonReleased) {
            self.interaction = Interaction::Idle;
        }
        let p = match cursor {
            Some(p) => p,
            None => {
                return (false, None);
            },
        };
        let proj = self.project(p, bounds);
        let cell = Cell::at(proj);
        let alive = self.life.contains(&cell);
        proof {
            assert(cell == hovered_cell(
                old(self).state().scaling as int, old(self).state().translation, bounds, p));
        }
        match event {
            Event::ButtonPressed(Button::Left) => {
                if alive {
                    self.interaction = Interaction::Erasing;
                    self.life.unpopulate(&cell);
                    self.cache = None;
                    (true, Some(Intent::Unpopulate(cell)))
                } else {
                    self.interaction = Interaction::Drawing;
                    self.life.populate(cell);
                    self.cache = None;
                    (true, Some(Intent::Populate(cell)))
                }
            },
            Event::ButtonPressed(Button::Right) => {
                self.interaction = Interaction::Panning {
                    translation: self.translation,
                    start: p,
                };
                (true, None)
            },
            Event::ButtonPressed(Button::Other) => (true, None),
            Event::CursorMoved => match self.interaction {
                Interaction::Drawing => {
                    self.life.populate(cell);
                    self.cache = None;
                    (true, Some(Intent::Populate(cell)))
                },
                Interaction::Erasing => {
                    self.life.unpopulate(&cell);
                    self.cache = None;
                    (true, Some(Intent::Unpopulate(cell)))
                },
                Interaction::Panning { translation: t0, start } => {
                    proof {
                        crate::geometry::lemma_div_floor_in_range(
                            (p.x as int - start.x as int) * 1000, self.scaling as int);
                        crate::geometry::lemma_div_floor_in_range(
                            (p.y as int - start.y as int) * 1000, self.scaling as int);
                    }
                    let qx = div_floor_i64((p.x - start.x) * 1000, self.scaling);
                    let qy = div_floor_i64((p.y - start.y) * 1000, self.scaling);
                    self.translation = Vector2 {
                        x: clamp_i64(t0.x + qx, -TRANSLATION_LIMIT, TRANSLATION_LIMIT),
                        y: clamp_i64(t0.y + qy, -TRANSLATION_LIMIT, TRANSLATION_LIMIT),
                    };
                    self.cache = None;
                    (true, None)
                },
                Interaction::Idle => (false, None),
            },
            Event::WheelScrolled { y } => {
                proof {
                    crate::geometry::lemma_div_floor_in_range(bounds.width as int, 2);
                    crate::geometry::lemma_div_floor_in_range(bounds.height as int, 2);
                }
                let cx = p.x - div_floor_i64(bounds.width, 2);
                let cy = p.y - div_floor_i64(bounds.height, 2);
                self.zoom_at(Vector2 { x: cx, y: cy }, y);
                (true, None)
            },
            Event::ButtonReleased => (true, None),
        }
    }
}


/// Do two background layers show the same thing?
pub open spec fn same_layer(a: BackgroundLayer, b: BackgroundLayer) -> bool {
    a.size == b.size && a.transform == b.transform && a.cells@ == b.cells@
}

/// A copy of a background layer, showing the same thing.
fn clone_layer(l: &BackgroundLayer) -> (r: BackgroundLayer)
    ensures
        same_layer(r, *l),
{
    BackgroundLayer { size: l.size, transform: l.transform, cells: copy_cells(&l.cells) }
}

impl Grid {
    /// Draw the background afresh: black backdrop, one white square per live
    /// cell, under the current viewport transform.
    fn compute_background(&self, bounds: Size2) -> (r: BackgroundLayer)
        requires
            self.wf(),
            0 <= bounds.width <= MAX_VIEW_MILLI,
            0 <= bounds.height <= MAX_VIEW_MILLI,
        ensures
            layer_matches(
                r,
                self.live(),
                self.state().translation,
                self.state().scaling,
                bounds,
            ),
            r.size == bounds,
    {
        proof {
            crate::geometry::lemma_div_floor_in_range(bounds.width as int, 2);
            crate::geometry::lemma_div_floor_in_range(bounds.height as int, 2);
        }
        let center = Vector2 {
            x: div_floor_i64(bounds.width, 2),
            y: div_floor_i64(bounds.height, 2),
        };
        BackgroundLayer {
            size: bounds,
            transform: Transform {
                center,
                scaling: self.scaling,
                translation: self.translation,
                cell_size: CELL_SIZE,
            },
            cells: copy_cells(self.life.live_cells()),
        }
    }

    /// Produce the two draw layers. The background is recomputed only when
    /// nothing usable is cached: a cached layer drawn for the same frame size
    /// is returned unchanged, without touching the cell set. The overlay is
    /// rebuilt on every call, since it follows the live cursor.
    pub fn render(&mut self, bounds: Size2, cursor: Option<Vector2>)
        -> (r: (BackgroundLayer, OverlayLayer))
        requires
            old(self).wf(),
            0 <= bounds.width <= MAX_VIEW_MILLI,
            0 <= bounds.height <= MAX_VIEW_MILLI,
            cursor matches Some(p) ==> 0 <= p.x <= bounds.width && 0 <= p.y <= bounds.height,
        ensures
            final(self).wf(),
            final(self).state().live == old(self).state().live,
            final(self).state().interaction == old(self).state().interaction,
            final(self).state().translation == old(self).state().translation,
            final(self).state().scaling == old(self).state().scaling,
            layer_matches(
                r.0,
                old(self).live(),
                old(self).state().translation,
                old(self).state().scaling,
                bounds,
            ),
            old(self).state().cache matches Some(l)
                ==> (l.size == bounds ==> same_layer(r.0, l)),
            final(self).state().cache matches Some(l) && same_layer(l, r.0),
            r.1.size == bounds,
            r.1.transform == r.0.transform,
            r.1.hovered == match cursor {
                Some(p) => Some(hovered_cell(
                    old(self).state().scaling as int,
                    old(self).state().translation,
                    bounds,
                    p,
                )),
                None => None::<Cell>,
            },
    {
        let need_compute: bool = match &self.cache {
            Some(l) => !(l.size.width == bounds.width && l.size.height == bounds.height),
            None => true,
        };
        if need_compute {
            let l = self.compute_background(bounds);
            self.cache = Some(l);
        }
        let bg = match self.cache.as_ref() {
            Some(l) => clone_layer(l),
            None => self.compute_background(bounds),
        };
        let hovered = match cursor {
            Some(p) => Some(Cell::at(self.project(p, bounds))),
            None => None,
        };
        let overlay = OverlayLayer { size: bounds, transform: bg.transform, hovered };
        (bg, overlay)
    }
}

/// Any event that changes what is visible — the cell set, the pan or the
/// zoom — leaves the render cache cleared, so the next render recomputes the
/// background. An event that changes none of them (entering a gesture,
/// a release, an ignored motion) does not disturb the cache.
pub proof fn lemma_visual_change_clears_cache(
    pre: GridState,
    event: Event,
    bounds: Size2,
    cursor: Option<Vector2>,
    post: GridState,
    r: (bool, Option<Intent>),
)
    requires
        grid_step(pre, event, bounds, cursor, post, r),
        post.live != pre.live || post.translation != pre.translation
            || post.scaling != pre.scaling,
    ensures
        post.cache is None,
{
}

/// Releasing a button always returns the gesture to `Idle`, whatever was
/// active, and never touches the cell set, the viewport or the cache. With
/// the cursor inside the viewport it counts as a recognized button action
/// and is consumed; outside, it is ignored (but still idles).
pub proof fn lemma_release_always_idles(
    pre: GridState,
    bounds: Size2,
    cursor: Option<Vector2>,
    post: GridState,
    r: (bool, Option<Intent>),
)
    requires
        grid_step(pre, Event::ButtonReleased, bounds, cursor, post, r),
    ensures
        post.interaction == Interaction::Idle,
        post.live == pre.live,
        post.translation == pre.translation,
        post.scaling == pre.scaling,
        post.cache == pre.cache,
        r.1 is None,
        r.0 == (cursor is Some),
{
}

/// A left press on a dead cell starts drawing: the gesture becomes
/// `Drawing`, the cell is populated, and the intent reported.
pub proof fn lemma_press_on_dead_draws(
    pre: GridState,
    bounds: Size2,
    p: Vector2,
    post: GridState,
    r: (bool, Option<Intent>),
)
    requires
        grid_step(pre, Event::ButtonPressed(Button::Left), bounds, Some(p), post, r),
        !pre.live.contains(hovered_cell(pre.scaling as int, pre.translation, bounds, p)),
    ensures
        post.interaction == Interaction::Drawing,
        post.live == pre.live.insert(hovered_cell(pre.scaling as int, pre.translation, bounds, p)),
        r == (true, Some(Intent::Populate(hovered_cell(
            pre.scaling as int, pre.translation, bounds, p)))),
{
}

/// A left press on a live cell starts erasing, dually.
pub proof fn lemma_press_on_live_erases(
    pre: GridState,
    bounds: Size2,
    p: Vector2,
    post: GridState,
    r: (bool, Option<Intent>),
)
    requires
        grid_step(pre, Event::ButtonPressed(Button::Left), bounds, Some(p), post, r),
        pre.live.contains(hovered_cell(pre.scaling as int, pre.translation, bounds, p)),
    ensures
        post.interaction == Interaction::Erasing,
        post.live == pre.live.remove(hovered_cell(pre.scaling as int, pre.translation, bounds, p)),
        r == (true, Some(Intent::Unpopulate(hovered_cell(
            pre.scaling as int, pre.translation, bounds, p)))),
{
}

/// While drawing, every cursor motion populates the cell now under the
/// cursor and keeps the gesture; a motion while idle is ignored entirely.
pub proof fn lemma_moved_while_drawing_populates(
    pre: GridState,
    bounds: Size2,
    p: Vector2,
    post: GridState,
    r: (bool, Option<Intent>),
)
    requires
        grid_step(pre, Event::CursorMoved, bounds, Some(p), post, r),
    ensures
        pre.interaction == Interaction::Drawing ==> {
            &&& post.interaction == Interaction::Drawing
            &&& post.live == pre.live.insert(hovered_cell(
                pre.scaling as int, pre.translation, bounds, p))
            &&& r == (true, Some(Intent::Populate(hovered_cell(
                pre.scaling as int, pre.translation, bounds, p))))
        },
        pre.interaction == Interaction::Idle ==> post == pre && r == (false, None::<Intent>),
{
}

/// Zooming out at the smallest scaling is a complete no-op: the scaling is
/// left at the bound and the translation does not move either.
pub proof fn lemma_zoom_out_at_min(
    pre: GridState,
    bounds: Size2,
    p: Vector2,
    y: i64,
    post: GridState,
    r: (bool, Option<Intent>),
)
    requires
        grid_step(pre, Event::WheelScrolled { y }, bounds, Some(p), post, r),
        y < 0,
        pre.scaling == MIN_SCALING,
    ensures
        post == pre,
        r == (true, None::<Intent>),
{
}

/// Whatever wheel amount arrives, the scaling never leaves its bounds.
pub proof fn lemma_zoom_scaling_bounded(scaling: int, y: int)
    requires
        MIN_SCALING as int <= scaling <= MAX_SCALING as int,
    ensures
        MIN_SCALING as int <= zoom_scaling(scaling, y) <= MAX_SCALING as int,
{
}

/// The forward transform along one axis: the screen position (in milli-
/// pixels from the viewport's origin) at which a grid point `g` is drawn,
/// the inverse of [`project_axis`] up to rounding.
pub open spec fn screen_axis(scaling: int, t: int, len: int, g: int) -> int {
    (g - region_low(scaling, t, len)) * scaling / 1000
}

/// Round-trip projection: drawing a grid point on the screen and projecting
/// that screen position back recovers the grid point to within a hundredth
/// of a grid unit, whatever the scaling and translation. The two integer
/// divisions each round down, so the recovered point never overshoots.
pub proof fn lemma_projection_round_trip(scaling: int, t: int, len: int, g: int)
    requires
        MIN_SCALING as int <= scaling <= MAX_SCALING as int,
        g >= region_low(scaling, t, len),
    ensures
        g - 10 <= project_axis(scaling, t, len, screen_axis(scaling, t, len, g)) <= g,
{
    let rx = region_low(scaling, t, len);
    let d = g - rx;
    let p = d * scaling / 1000;
    let r1 = (d * scaling) % 1000;
    vstd::arithmetic::div_mod::lemma_fundamental_div_mod(d * scaling, 1000);
    vstd::arithmetic::div_mod::lemma_mod_bound(d * scaling, 1000);
    let q0 = p * 1000 / scaling;
    let r2 = (p * 1000) % scaling;
    vstd::arithmetic::div_mod::lemma_fundamental_div_mod(p * 1000, scaling);
    vstd::arithmetic::div_mod::lemma_mod_bound(p * 1000, scaling);
    assert(scaling * q0 + r2 + r1 == d * scaling);
    assert(scaling * (d - q0) == r1 + r2) by (nonlinear_arith)
        requires
            scaling * q0 + r2 + r1 == d * scaling,
    ;
    assert(0 <= d - q0 <= 10) by (nonlinear_arith)
        requires
            scaling * (d - q0) == r1 + r2,
            0 <= r1 < 1000,
            0 <= r2 < scaling,
            100 <= scaling <= 2000,
    ;
    assert(project_axis(scaling, t, len, screen_axis(scaling, t, len, g)) == q0 + rx);
}

/// Round-trip projection recovers the very cell: for a grid point at least a
/// hundredth of a grid unit above its cell's lower edge, the cell under the
/// recovered point is the cell under the original, for every scaling and
/// translation.
pub proof fn lemma_round_trip_same_cell(scaling: int, t: int, len: int, g: int)
    requires
        MIN_SCALING as int <= scaling <= MAX_SCALING as int,
        g >= region_low(scaling, t, len),
        (g - 1) % (crate::cell::CELL_MILLI as int) >= 10,
    ensures
        cell_index(project_axis(scaling, t, len, screen_axis(scaling, t, len, g)))
            == cell_index(g),
{
    lemma_projection_round_trip(scaling, t, len, g);
    let cm = crate::cell::CELL_MILLI as int;
    let g2 = project_axis(scaling, t, len, screen_axis(scaling, t, len, g));
    let a = g - 1;
    let q = a / cm;
    let r = a % cm;
    vstd::arithmetic::div_mod::lemma_fundamental_div_mod(a, cm);
    vstd::arithmetic::div_mod::lemma_mod_bound(a, cm);
    vstd::arithmetic::div_mod::lemma_fundamental_div_mod_converse(
        g2 - 1, cm, q, r - (g - g2));
}

/// Well-formedness keeps the viewport inside its stated bounds: the zoom
/// factor never leaves `[MIN_SCALING, MAX_SCALING]` (in particular it is
/// never zero) and the pan translation never leaves `TRANSLATION_LIMIT`.
pub proof fn lemma_wf_bounds(g: Grid)
    requires
        g.wf(),
    ensures
        MIN_SCALING <= g.state().scaling <= MAX_SCALING,
        -TRANSLATION_LIMIT <= g.state().translation.x <= TRANSLATION_LIMIT,
        -TRANSLATION_LIMIT <= g.state().translation.y <= TRANSLATION_LIMIT,
{
}

} // verus!