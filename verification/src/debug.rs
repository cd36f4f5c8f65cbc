use vstd::prelude::*;

use crate::input::{Action, Key};
use crate::terrain::chunk_bounds::{position_in_range, spec_parse, BlockPosition, ChunkBounds};

verus! {

/// A change to the renderer that a debug key asks for.
#[derive(Debug, Clone, Copy, PartialEq, Eq, Structural)]
pub enum DebugEffect {
    NoChange,
    /// Draw polygons as wireframes (`true`) or filled (`false`).
    SetWireframe(bool),
    /// Wait for vertical sync between frames (`true`) or not (`false`).
    SetVsync(bool),
}

/// The debug switches toggled by F1 to F4, and the chunk around the camera
/// that the debug overlay outlines.
#[derive(Debug, Clone, Copy)]
pub struct DebugController {
    pub debug_ui: bool,
    pub wireframe: bool,
    pub vsync: bool,
    pub show_rays: bool,
    pub bounds: ChunkBounds,
}

/// Spacing of the outline lines along a chunk's edge.
pub const GRID_SPACING: i32 = 16;

/// The base of the outline line at grid position `(i, j)` of the chunk.
pub open spec fn grid_point(b: ChunkBounds, i: int, j: int) -> (i32, i32, i32) {
    ((b.min.0 + i * 16) as i32, b.min.1, (b.min.2 + j * 16) as i32)
}

/// Grid position `(i, j)` lies on the edge of the 9 by 9 grid.
pub open spec fn on_border(i: int, j: int) -> bool {
    i == 0 || i == 8 || j == 0 || j == 8
}

pub open spec fn is_corner(i: int, j: int) -> bool {
    (i == 0 || i == 8) && (j == 0 || j == 8)
}

/// The outline lines among the first `m` positions of grid row `i`, at
/// corners (`corners`) or along the edges between them.
pub open spec fn grid_row(b: ChunkBounds, i: int, m: int, corners: bool) -> Seq<(i32, i32, i32)>
    decreases m,
{
    if m <= 0 {
        seq![]
    } else {
        let prev = grid_row(b, i, m - 1, corners);
        let j = m - 1;
        if on_border(i, j) && is_corner(i, j) == corners {
            prev.push(grid_point(b, i, j))
        } else {
            prev
        }
    }
}

/// The outline lines of the first `n` grid rows, row after row.
pub open spec fn grid_lines(b: ChunkBounds, n: int, corners: bool) -> Seq<(i32, i32, i32)>
    decreases n,
{
    if n <= 0 {
        seq![]
    } else {
        grid_lines(b, n - 1, corners) + grid_row(b, n - 1, 9, corners)
    }
}

/// The bounds leave room for the outline lines within `i32`.
pub open spec fn grid_fits(b: ChunkBounds) -> bool {
    b.min.0 <= i32::MAX - 128 && b.min.2 <= i32::MAX - 128
}

impl DebugController {
    pub open spec fn wf(self) -> bool {
        grid_fits(self.bounds)
    }

    /// All switches off but vsync, outlining the chunk at the origin.
    pub fn new() -> (controller: DebugController)
        ensures
            controller.wf(),
            !controller.debug_ui && !controller.wireframe && controller.vsync && !controller.show_rays,
            controller.bounds == (ChunkBounds { min: (0, 0, 0), max: (0, 0, 0) }),
    {
        DebugController {
            debug_ui: false,
            wireframe: false,
            vsync: true,
            show_rays: false,
            bounds: ChunkBounds { min: (0, 0, 0), max: (0, 0, 0) },
        }
    }

    /// Handles a key event. A press of F1 toggles wireframe drawing, F2
    /// vsync, F3 the debug overlay and F4 the display of picking rays;
    /// F1 and F2 return the change the renderer has to make.
    pub fn handle_event(&mut self, key: Key, action: Action) -> (effect: DebugEffect)
        ensures
            final(self).bounds == old(self).bounds,
            action != Action::Press ==> *final(self) == *old(self) && effect == DebugEffect::NoChange,
            action == Action::Press ==> match key {
                Key::F1 => *final(self) == DebugController { wireframe: !old(self).wireframe, ..*old(self) }
                    && effect == DebugEffect::SetWireframe(!old(self).wireframe),
                Key::F2 => *final(self) == DebugController { vsync: !old(self).vsync, ..*old(self) }
                    && effect == DebugEffect::SetVsync(!old(self).vsync),
                Key::F3 => *final(self) == DebugController { debug_ui: !old(self).debug_ui, ..*old(self) }
                    && effect == DebugEffect::NoChange,
                Key::F4 => *final(self) == DebugController { show_rays: !old(self).show_rays, ..*old(self) }
                    && effect == DebugEffect::NoChange,
                _ => *final(self) == *old(self) && effect == DebugEffect::NoChange,
            },
    {
        if action != Action::Press {
            return DebugEffect::NoChange;
        }
        match key {
            Key::F1 => {
                self.wireframe = !self.wireframe;
                DebugEffect::SetWireframe(self.wireframe)
            },
            Key::F2 => {
                self.vsync = !self.vsync;
                DebugEffect::SetVsync(self.vsync)
            },
            Key::F3 => {
                self.debug_ui = !self.debug_ui;
                DebugEffect::NoChange
            },
            Key::F4 => {
                self.show_rays = !self.show_rays;
                DebugEffect::NoChange
            },
            _ => DebugEffect::NoChange,
        }
    }

    /// While the overlay is shown, outlines the chunk that holds the
    /// camera, given its position rounded down to whole units.
    pub fn update(&mut self, camera_position: Option<BlockPosition>)
        requires
            old(self).wf(),
            camera_position matches Some(p) ==> position_in_range(p),
        ensures
            final(self).wf(),
            final(self).bounds == (match camera_position {
                Some(p) => if old(self).debug_ui {
                    spec_parse(p)
                } else {
                    old(self).bounds
                },
                None => old(self).bounds,
            }),
            final(self).debug_ui == old(self).debug_ui,
            final(self).wireframe == old(self).wireframe,
            final(self).vsync == old(self).vsync,
            final(self).show_rays == old(self).show_rays,
    {
        if self.debug_ui {
            if let Some(p) = camera_position {
                self.bounds = ChunkBounds::parse(p);
            }
        }
    }

    /// The outline of the chunk in `bounds`: the bases of vertical lines at
    /// every 16 units along the chunk's edges, as `(edges, corners)`.
    pub fn grid_lines(&self) -> (lines: (Vec<(i32, i32, i32)>, Vec<(i32, i32, i32)>))
        requires
            self.wf(),
        ensures
            lines.0@ == grid_lines(self.bounds, 9, false),
            lines.1@ == grid_lines(self.bounds, 9, true),
    {
        chunk_grid_lines(&self.bounds)
    }
}

/// The outline lines of the chunk in `bounds`, as `(edges, corners)`.
pub fn chunk_grid_lines(bounds: &ChunkBounds) -> (lines: (
    Vec<(i32, i32, i32)>,
    Vec<(i32, i32, i32)>,
))
    requires
        grid_fits(*bounds),
    ensures
        lines.0@ == grid_lines(*bounds, 9, false),
        lines.1@ == grid_lines(*bounds, 9, true),
{
    let mut lines: Vec<(i32, i32, i32)> = Vec::new();
    let mut corner_lines: Vec<(i32, i32, i32)> = Vec::new();
    let mut i: i32 = 0;
    while i < 9
        invariant
            0 <= i <= 9,
            grid_fits(*bounds),
            lines@ == grid_lines(*bounds, i as int, false),
            corner_lines@ == grid_lines(*bounds, i as int, true),
        decreases 9 - i,
    {
        let mut j: i32 = 0;
        while j < 9
            invariant
                0 <= i < 9,
                0 <= j <= 9,
                grid_fits(*bounds),
                lines@ == grid_lines(*bounds, i as int, false) + grid_row(*bounds, i as int, j as int, false),
                corner_lines@ == grid_lines(*bounds, i as int, true) + grid_row(*bounds, i as int, j as int, true),
            decreases 9 - j,
        {
            if i != 0 && i != 8 && j != 0 && j != 8 {
                proof {
                    assert(lines@ =~= grid_lines(*bounds, i as int, false) + grid_row(*bounds, i as int, j + 1, false));
                    assert(corner_lines@ =~= grid_lines(*bounds, i as int, true) + grid_row(*bounds, i as int, j + 1, true));
                }
                j = j + 1;
                continue;
            }
            let x = bounds.min.0 + i * GRID_SPACING;
            let z = bounds.min.2 + j * GRID_SPACING;
            let base = (x, bounds.min.1, z);
            if (i == 0 || i == 8) && (j == 0 || j == 8) {
                corner_lines.push(base);
            } else {
                lines.push(base);
            }
            proof {
                assert(lines@ =~= grid_lines(*bounds, i as int, false) + grid_row(*bounds, i as int, j + 1, false));
                assert(corner_lines@ =~= grid_lines(*bounds, i as int, true) + grid_row(*bounds, i as int, j + 1, true));
            }
            j = j + 1;
        }
        proof {
            assert(lines@ =~= grid_lines(*bounds, i + 1, false));
            assert(corner_lines@ =~= grid_lines(*bounds, i + 1, true));
        }
        i = i + 1;
    }
    (lines, corner_lines)
}

/// Law: a chunk outline has 4 corner lines and 28 lines along the edges,
/// all of them on the edge of the chunk's square in the x-z plane.
pub proof fn lemma_grid_counts(b: ChunkBounds)
    ensures
        grid_lines(b, 9, true).len() == 4,
        grid_lines(b, 9, false).len() == 28,
        forall|k: int|
            0 <= k < grid_lines(b, 9, false).len() ==> on_grid_edge(b, #[trigger] grid_lines(b, 9, false)[k]),
        forall|k: int|
            0 <= k < grid_lines(b, 9, true).len() ==> on_grid_edge(b, #[trigger] grid_lines(b, 9, true)[k]),
{
    assert forall|i: int, c: bool| 0 <= i < 9 implies #[trigger] grid_row(b, i, 9, c).len() == row_count(i, c)
        && row_on_edge(b, i, c) by {
        reveal_with_fuel(grid_row, 10);
        assert forall|k: int| 0 <= k < grid_row(b, i, 9, c).len() implies on_grid_edge(b, #[trigger] grid_row(b, i, 9, c)[k]) by {
            lemma_row_entries(b, i, 9, c, k);
        }
    }
    lemma_rows_on_edge(b, 9, true);
    lemma_rows_on_edge(b, 9, false);
    reveal_with_fuel(grid_lines, 10);
}

/// The number of outline lines in grid row `i`.
pub open spec fn row_count(i: int, corners: bool) -> int {
    if i == 0 || i == 8 {
        if corners {
            2
        } else {
            7
        }
    } else {
        if corners {
            0
        } else {
            2
        }
    }
}

/// `p` is the base of a line on the edge of the chunk's square: at a
/// multiple of 16 from the minimum corner, on one of the four sides.
pub open spec fn on_grid_edge(b: ChunkBounds, p: (i32, i32, i32)) -> bool {
    exists|i: int, j: int|
        0 <= i < 9 && 0 <= j < 9 && on_border(i, j) && p == grid_point(b, i, j)
}

/// Every line of grid row `i` is on the edge of the chunk.
pub open spec fn row_on_edge(b: ChunkBounds, i: int, c: bool) -> bool {
    forall|k: int| 0 <= k < grid_row(b, i, 9, c).len() ==> on_grid_edge(b, #[trigger] grid_row(b, i, 9, c)[k])
}

proof fn lemma_row_entries(b: ChunkBounds, i: int, m: int, c: bool, k: int)
    requires
        0 <= i < 9,
        0 <= m <= 9,
        0 <= k < grid_row(b, i, m, c).len(),
    ensures
        on_grid_edge(b, grid_row(b, i, m, c)[k]),
    decreases m,
{
    let prev = grid_row(b, i, m - 1, c);
    if k < prev.len() {
        lemma_row_entries(b, i, m - 1, c, k);
        assert(grid_row(b, i, m, c)[k] == prev[k]);
    } else {
        assert(on_border(i, m - 1) && grid_row(b, i, m, c)[k] == grid_point(b, i, m - 1));
    }
}

proof fn lemma_rows_on_edge(b: ChunkBounds, n: int, c: bool)
    requires
        0 <= n <= 9,
        forall|i: int| 0 <= i < 9 ==> #[trigger] row_on_edge(b, i, c),
    ensures
        forall|k: int| 0 <= k < grid_lines(b, n, c).len() ==> on_grid_edge(b, #[trigger] grid_lines(b, n, c)[k]),
    decreases n,
{
    if n > 0 {
        lemma_rows_on_edge(b, n - 1, c);
        let prev = grid_lines(b, n - 1, c);
        let row = grid_row(b, n - 1, 9, c);
        assert forall|k: int| 0 <= k < grid_lines(b, n, c).len() implies on_grid_edge(b, #[trigger] grid_lines(b, n, c)[k]) by {
            if k < prev.len() {
                assert(grid_lines(b, n, c)[k] == prev[k]);
            } else {
                assert(row_on_edge(b, n - 1, c));
                assert(grid_lines(b, n, c)[k] == row[k - prev.len()]);
                assert(on_grid_edge(b, row[k - prev.len()]));
            }
        }
    }
}

} // verus!
