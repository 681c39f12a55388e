//! The viewer session: the occupancy grid and starfield built once from a
//! loaded world, plus the selection state machine (cursor cell, selection
//! mode, selection geometry) mutated by discrete commands.

use vstd::prelude::*;
use vstd::pervasive::unreached;
use crate::coords::{hex_to_cartesian, spec_cartesian_x, spec_cartesian_y};
use crate::grid::{grid_cells, grid_dims, grid_get, grid_new, grid_set};
use crate::model::{CoreError, Sector, System, World, in_extent};
use crate::starfield::{generate_starfield, star_count, star_points};

verus! {

/// Horizontal half-width of the hexagon outline, in milli-units: the
/// tangent of a sixth of a half-turn, about 0.577.
pub const HEX_SHORT_OFFSET: i32 = 577;

/// Horizontal reach of the hexagon's side vertices, in milli-units: the
/// cosine of a sixth of a half-turn, about 0.866.
pub const HEX_LONG_OFFSET: i32 = 866;

/// Vertical half-height of the hexagon outline, in milli-units.
pub const HEX_VERTICAL_OFFSET: i32 = 400;

/// The selection mode: the grid cursor, the info panel, or the
/// child-object list.
#[derive(Debug, Clone, Copy, PartialEq, Eq, Structural)]
pub enum SelectionMode {
    MAP,
    SYSTEM,
    OBJECTS,
}

/// A directional cursor movement command.
#[derive(Debug, Clone, Copy, PartialEq, Eq, Structural)]
pub enum SelectionChange {
    UP,
    DOWN,
    LEFT,
    RIGHT,
}

/// The requested shape of the selection geometry.
#[derive(Debug, Clone, Copy, PartialEq, Eq, Structural)]
pub enum SelectionCursor {
    BLOCK,
    HEX,
}

/// The single step of the mode cycle.
pub open spec fn next_mode(m: SelectionMode) -> SelectionMode {
    match m {
        SelectionMode::MAP => SelectionMode::SYSTEM,
        SelectionMode::SYSTEM => SelectionMode::OBJECTS,
        SelectionMode::OBJECTS => SelectionMode::MAP,
    }
}

/// One directional step of the cursor, clamped to the 1-based extent:
/// movement past an edge leaves the cursor where it is.
pub open spec fn clamped_move(
    cursor: (u8, u8),
    change: SelectionChange,
    columns: u8,
    rows: u8,
) -> (u8, u8) {
    match change {
        SelectionChange::UP => if cursor.1 > 1 {
            (cursor.0, (cursor.1 - 1) as u8)
        } else {
            cursor
        },
        SelectionChange::DOWN => if cursor.1 < rows {
            (cursor.0, (cursor.1 + 1) as u8)
        } else {
            cursor
        },
        SelectionChange::LEFT => if cursor.0 > 1 {
            ((cursor.0 - 1) as u8, cursor.1)
        } else {
            cursor
        },
        SelectionChange::RIGHT => if cursor.0 < columns {
            ((cursor.0 + 1) as u8, cursor.1)
        } else {
            cursor
        },
    }
}

/// The last item of `items` sitting at hex cell `(x, y)`, if any.
pub open spec fn last_at(items: Seq<System>, x: u8, y: u8) -> Option<System>
    decreases items.len(),
{
    if items.len() == 0 {
        Option::None
    } else if items.last().x == x && items.last().y == y {
        Option::Some(items.last())
    } else {
        last_at(items.drop_last(), x, y)
    }
}

/// The occupant of hex cell `(x, y)` once every system and then every black
/// hole has been written into the grid: a black hole at the cell wins over
/// any system there, and later writes win over earlier ones.
pub open spec fn occupant_model(
    systems: Seq<System>,
    black_holes: Seq<System>,
    x: u8,
    y: u8,
) -> Option<System> {
    match last_at(black_holes, x, y) {
        Option::Some(b) => Option::Some(b),
        Option::None => last_at(systems, x, y),
    }
}

/// The stored values of an identifier-keyed collection, in order.
pub open spec fn values_of<V>(entries: Seq<(String, V)>) -> Seq<V> {
    entries.map_values(|p: (String, V)| p.1)
}

/// The closed 7-point hexagon outline centered on the Cartesian point `c`
/// (milli-units): flat top and bottom, pointed sides, first and last point
/// identical.
pub open spec fn hex_outline(c: (int, int)) -> Seq<(int, int)> {
    seq![
        (c.0 - HEX_SHORT_OFFSET as int, c.1 + HEX_VERTICAL_OFFSET as int),
        (c.0 + HEX_SHORT_OFFSET as int, c.1 + HEX_VERTICAL_OFFSET as int),
        (c.0 + HEX_LONG_OFFSET as int, c.1),
        (c.0 + HEX_SHORT_OFFSET as int, c.1 - HEX_VERTICAL_OFFSET as int),
        (c.0 - HEX_SHORT_OFFSET as int, c.1 - HEX_VERTICAL_OFFSET as int),
        (c.0 - HEX_LONG_OFFSET as int, c.1),
        (c.0 - HEX_SHORT_OFFSET as int, c.1 + HEX_VERTICAL_OFFSET as int),
    ]
}

/// The viewer session.
pub struct App {
    world: World,
    map: array2d::Array2D<Option<System>>,
    starfield: Vec<(i32, i32)>,
    mode: SelectionMode,
    cursor: (u8, u8),
}

impl App {
    pub closed spec fn spec_world(self) -> World {
        self.world
    }

    pub closed spec fn spec_mode(self) -> SelectionMode {
        self.mode
    }

    pub closed spec fn spec_cursor(self) -> (u8, u8) {
        self.cursor
    }

    pub closed spec fn spec_starfield(self) -> Seq<(i32, i32)> {
        self.starfield@
    }

    pub closed spec fn spec_cells(self) -> Map<(int, int), Option<System>> {
        grid_cells(self.map)
    }

    pub closed spec fn spec_dims(self) -> (int, int) {
        grid_dims(self.map)
    }

    pub open spec fn spec_sector(self) -> Sector {
        self.spec_world().spec_sectors()[0].1
    }

    pub open spec fn spec_columns(self) -> u8 {
        self.spec_sector().columns
    }

    pub open spec fn spec_rows(self) -> u8 {
        self.spec_sector().rows
    }

    /// The Cartesian center of the cursor's cell, in milli-units.
    pub open spec fn spec_center(self) -> (int, int) {
        (
            spec_cartesian_x(self.spec_cursor().0 as int),
            spec_cartesian_y(
                self.spec_rows() as int,
                self.spec_cursor().0 as int,
                self.spec_cursor().1 as int,
            ),
        )
    }

    /// The session invariant: the world is structurally valid and has its
    /// sector, the cursor sits within the extent, and the grid holds at
    /// each cell exactly the occupant the write order defines.
    pub open spec fn wf(self) -> bool {
        &&& self.spec_world().wf()
        &&& self.spec_world().spec_sectors().len() > 0
        &&& 1 <= self.spec_cursor().0 <= self.spec_columns()
        &&& 1 <= self.spec_cursor().1 <= self.spec_rows()
        &&& self.spec_dims() == (self.spec_columns() as int, self.spec_rows() as int)
        &&& forall|x: int, y: int|
            1 <= x <= self.spec_columns() && 1 <= y <= self.spec_rows()
                ==> #[trigger] self.spec_cells()[(x - 1, y - 1)] == occupant_model(
                values_of(self.spec_world().spec_systems()),
                values_of(self.spec_world().spec_black_holes()),
                x as u8,
                y as u8,
            )
    }

    /// The starfield is exactly the field the sector's name seeds, with
    /// `ceil(rows * columns * 1.6)` points.
    pub open spec fn starfield_rule(self) -> bool {
        &&& self.spec_starfield() == star_points(
            self.spec_sector().name@,
            star_count(self.spec_rows() as int, self.spec_columns() as int),
            (self.spec_rows() as i32 + 1) * 1000,
            (self.spec_columns() as i32 + 1) * 1000,
        )
        &&& self.spec_starfield().len() == star_count(
            self.spec_rows() as int,
            self.spec_columns() as int,
        )
    }

    /// Builds the session from a loaded world: the occupancy grid is filled
    /// with every system and then every black hole, the starfield is seeded
    /// from the sector's name, and the selection starts at cell `(1, 1)` in
    /// `MAP` mode. Fails with `MissingSector` exactly when the world holds
    /// no sector.
    #[verifier::loop_isolation(false)]
    pub fn new(world: World) -> (r: Result<App, CoreError>)
        requires
            world.wf(),
        ensures
            match r {
                Ok(app) => {
                    &&& world.spec_sectors().len() > 0
                    &&& app.wf()
                    &&& app.starfield_rule()
                    &&& app.spec_world() == world
                    &&& app.spec_mode() == SelectionMode::MAP
                    &&& app.spec_cursor() == (1u8, 1u8)
                },
                Err(e) => world.spec_sectors().len() == 0 && e == CoreError::MissingSector,
            },
    {
        let columns: u8;
        let rows: u8;
        let starfield: Vec<(i32, i32)>;
        match world.sector() {
            Err(e) => {
                return Err(e);
            },
            Ok(sector) => {
                columns = sector.columns;
                rows = sector.rows;
                proof {
                    vstd::arithmetic::mul::lemma_mul_upper_bound(
                        rows as int,
                        255,
                        columns as int,
                        255,
                    );
                }
                let cell_count: u32 = rows as u32 * columns as u32;
                let count: u32 = (8 * cell_count + 4) / 5;
                let x_hi: i32 = (rows as i32 + 1) * 1000;
                let y_hi: i32 = (columns as i32 + 1) * 1000;
                starfield = generate_starfield(sector.name.as_str(), count as usize, x_hi, y_hi);
            },
        }

        let ghost sys_seq = values_of(world.spec_systems());
        let ghost bh_seq = values_of(world.spec_black_holes());

        let mut map = grid_new(columns as usize, rows as usize);
        let systems = world.systems();
        let mut i: usize = 0;
        while i < systems.len()
            invariant
                i <= systems.len(),
                systems@.len() == sys_seq.len(),
                forall|k: int| 0 <= k < sys_seq.len() ==> *(#[trigger] systems@[k]) == sys_seq[k],
                world.wf(),
                world.spec_sectors().len() > 0,
                columns == world.spec_sectors()[0].1.columns,
                rows == world.spec_sectors()[0].1.rows,
                grid_dims(map) == (columns as int, rows as int),
                forall|x: int, y: int|
                    1 <= x <= columns && 1 <= y <= rows ==> #[trigger] grid_cells(map)[
                        (x - 1, y - 1)
                    ] == last_at(sys_seq.take(i as int), x as u8, y as u8),
            decreases systems.len() - i,
        {
            let s = systems[i];
            proof {
                assert(sys_seq[i as int] == world.spec_systems()[i as int].1);
                assert(in_extent(world.spec_systems()[i as int].1, world.spec_sectors()[0].1));
            }
            grid_set(&mut map, (s.x - 1) as usize, (s.y - 1) as usize, Some(s.duplicate()));
            proof {
                assert(sys_seq.take(i as int + 1).drop_last() =~= sys_seq.take(i as int));
                assert(sys_seq.take(i as int + 1).last() == sys_seq[i as int]);
            }
            i = i + 1;
        }
        proof {
            assert(sys_seq.take(sys_seq.len() as int) =~= sys_seq);
        }

        let black_holes = world.black_holes();
        let mut j: usize = 0;
        while j < black_holes.len()
            invariant
                j <= black_holes.len(),
                black_holes@.len() == bh_seq.len(),
                forall|k: int|
                    0 <= k < bh_seq.len() ==> *(#[trigger] black_holes@[k]) == bh_seq[k],
                world.wf(),
                world.spec_sectors().len() > 0,
                columns == world.spec_sectors()[0].1.columns,
                rows == world.spec_sectors()[0].1.rows,
                grid_dims(map) == (columns as int, rows as int),
                forall|x: int, y: int|
                    1 <= x <= columns && 1 <= y <= rows ==> #[trigger] grid_cells(map)[
                        (x - 1, y - 1)
                    ] == occupant_model(sys_seq, bh_seq.take(j as int), x as u8, y as u8),
            decreases black_holes.len() - j,
        {
            let b = black_holes[j];
            proof {
                assert(bh_seq[j as int] == world.spec_black_holes()[j as int].1);
                assert(in_extent(world.spec_black_holes()[j as int].1, world.spec_sectors()[0].1));
            }
            grid_set(&mut map, (b.x - 1) as usize, (b.y - 1) as usize, Some(b.duplicate()));
            proof {
                assert(bh_seq.take(j as int + 1).drop_last() =~= bh_seq.take(j as int));
                assert(bh_seq.take(j as int + 1).last() == bh_seq[j as int]);
            }
            j = j + 1;
        }
        proof {
            assert(bh_seq.take(bh_seq.len() as int) =~= bh_seq);
        }

        Ok(App { world, map, starfield, mode: SelectionMode::MAP, cursor: (1, 1) })
    }

    /// The occupancy grid itself, read-only.
    pub fn map(&self) -> (r: &array2d::Array2D<Option<System>>)
        ensures
            grid_cells(*r) == self.spec_cells(),
            grid_dims(*r) == self.spec_dims(),
    {
        &self.map
    }

    /// The starfield points, in milli-units, in generation order.
    pub fn starfield(&self) -> (r: &Vec<(i32, i32)>)
        ensures
            r@ == self.spec_starfield(),
    {
        &self.starfield
    }

    /// The world the session was built from.
    pub fn world(&self) -> (r: &World)
        ensures
            *r == self.spec_world(),
    {
        &self.world
    }

    /// The sector of the session's world.
    pub fn sector(&self) -> (r: &Sector)
        requires
            self.wf(),
        ensures
            *r == self.spec_sector(),
    {
        match self.world.sector() {
            Ok(s) => s,
            Err(_) => unreached(),
        }
    }

    /// The current cursor cell, 1-based.
    pub fn cursor(&self) -> (r: (u8, u8))
        ensures
            r == self.spec_cursor(),
    {
        self.cursor
    }

    /// The current selection mode.
    pub fn selection_mode(&self) -> (r: SelectionMode)
        ensures
            r == self.spec_mode(),
    {
        self.mode
    }

    /// Advances the selection mode one step along the cycle
    /// `MAP -> SYSTEM -> OBJECTS -> MAP`; nothing else changes.
    pub fn toggle_selection_mode(&mut self)
        ensures
            final(self).spec_mode() == next_mode(old(self).spec_mode()),
            final(self).spec_cursor() == old(self).spec_cursor(),
            final(self).spec_world() == old(self).spec_world(),
            final(self).spec_starfield() == old(self).spec_starfield(),
            final(self).spec_cells() == old(self).spec_cells(),
            final(self).spec_dims() == old(self).spec_dims(),
            old(self).wf() ==> final(self).wf(),
            old(self).starfield_rule() ==> final(self).starfield_rule(),
    {
        match self.mode {
            SelectionMode::MAP => {
                self.mode = SelectionMode::SYSTEM;
            },
            SelectionMode::SYSTEM => {
                self.mode = SelectionMode::OBJECTS;
            },
            SelectionMode::OBJECTS => {
                self.mode = SelectionMode::MAP;
            },
        }
    }

    /// Moves the cursor one cell, clamped to the extent, and only while in
    /// `MAP` mode: in any other mode the command is silently ignored.
    pub fn move_selection(&mut self, change: SelectionChange)
        requires
            old(self).wf(),
        ensures
            final(self).wf(),
            old(self).spec_mode() == SelectionMode::MAP ==> final(self).spec_cursor()
                == clamped_move(
                old(self).spec_cursor(),
                change,
                old(self).spec_columns(),
                old(self).spec_rows(),
            ),
            old(self).spec_mode() != SelectionMode::MAP ==> final(self).spec_cursor() == old(
                self,
            ).spec_cursor(),
            final(self).spec_mode() == old(self).spec_mode(),
            final(self).spec_world() == old(self).spec_world(),
            final(self).spec_starfield() == old(self).spec_starfield(),
            final(self).spec_cells() == old(self).spec_cells(),
            old(self).starfield_rule() ==> final(self).starfield_rule(),
    {
        if self.selection_mode() == SelectionMode::MAP {
            let columns = self.sector().columns;
            let rows = self.sector().rows;
            match change {
                SelectionChange::UP => {
                    if self.cursor.1 > 1 {
                        self.cursor = (self.cursor.0, self.cursor.1 - 1);
                    }
                },
                SelectionChange::DOWN => {
                    if self.cursor.1 < rows {
                        self.cursor = (self.cursor.0, self.cursor.1 + 1);
                    }
                },
                SelectionChange::LEFT => {
                    if self.cursor.0 > 1 {
                        self.cursor = (self.cursor.0 - 1, self.cursor.1);
                    }
                },
                SelectionChange::RIGHT => {
                    if self.cursor.0 < columns {
                        self.cursor = (self.cursor.0 + 1, self.cursor.1);
                    }
                },
            }
        }
    }

    /// The selection geometry at the cursor: a single Cartesian point for
    /// `BLOCK`, or the closed 7-point hexagon outline for `HEX`, in
    /// milli-units.
    pub fn selection(&self, cursor: SelectionCursor) -> (r: Vec<(i32, i32)>)
        requires
            self.wf(),
        ensures
            cursor == SelectionCursor::BLOCK ==> r@.len() == 1 && r@[0].0 == self.spec_center().0
                && r@[0].1 == self.spec_center().1,
            cursor == SelectionCursor::HEX ==> r@.len() == 7 && forall|k: int|
                0 <= k < 7 ==> (#[trigger] r@[k]).0 == hex_outline(self.spec_center())[k].0 && r@[
                    k
                ].1 == hex_outline(self.spec_center())[k].1,
    {
        let rows = self.sector().rows;
        let (x, y) = hex_to_cartesian(rows, self.cursor);
        if cursor == SelectionCursor::HEX {
            let left_x = x - HEX_SHORT_OFFSET;
            let right_x = x + HEX_SHORT_OFFSET;
            let side_right_x = x + HEX_LONG_OFFSET;
            let side_left_x = x - HEX_LONG_OFFSET;
            let top_y = y + HEX_VERTICAL_OFFSET;
            let bottom_y = y - HEX_VERTICAL_OFFSET;
            let points = vec![
                (left_x, top_y),
                (right_x, top_y),
                (side_right_x, y),
                (right_x, bottom_y),
                (left_x, bottom_y),
                (side_left_x, y),
                (left_x, top_y),
            ];
            points
        } else {
            let points = vec![(x, y)];
            points
        }
    }

    /// The occupant at the current cursor cell, if any: a black hole counts
    /// as an occupant here, distinguished by the caller through the world's
    /// collections.
    pub fn selected_system(&self) -> (r: Option<&System>)
        requires
            self.wf(),
        ensures
            r matches Some(s) ==> occupant_model(
                values_of(self.spec_world().spec_systems()),
                values_of(self.spec_world().spec_black_holes()),
                self.spec_cursor().0,
                self.spec_cursor().1,
            ) == Option::Some(*s),
            r is None ==> occupant_model(
                values_of(self.spec_world().spec_systems()),
                values_of(self.spec_world().spec_black_holes()),
                self.spec_cursor().0,
                self.spec_cursor().1,
            ) is None,
    {
        match grid_get(&self.map, (self.cursor.0 - 1) as usize, (self.cursor.1 - 1) as usize) {
            Some(cell) => cell.as_ref(),
            None => unreached(),
        }
    }

    /// The occupant at the 1-based hex cell `(x, y)`, or `OutOfBounds` when
    /// the cell lies outside the sector's extent.
    pub fn occupant_at(&self, x: u8, y: u8) -> (r: Result<Option<&System>, CoreError>)
        requires
            self.wf(),
        ensures
            match r {
                Ok(c) => {
                    &&& 1 <= x <= self.spec_columns() && 1 <= y <= self.spec_rows()
                    &&& match c {
                        Option::Some(s) => occupant_model(
                            values_of(self.spec_world().spec_systems()),
                            values_of(self.spec_world().spec_black_holes()),
                            x,
                            y,
                        ) == Option::Some(*s),
                        Option::None => occupant_model(
                            values_of(self.spec_world().spec_systems()),
                            values_of(self.spec_world().spec_black_holes()),
                            x,
                            y,
                        ) is None,
                    }
                },
                Err(e) => {
                    &&& !(1 <= x <= self.spec_columns() && 1 <= y <= self.spec_rows())
                    &&& e == CoreError::OutOfBounds
                },
            },
    {
        let columns = self.sector().columns;
        let rows = self.sector().rows;
        if 1 <= x && x <= columns && 1 <= y && y <= rows {
            match grid_get(&self.map, (x - 1) as usize, (y - 1) as usize) {
                Some(cell) => Ok(cell.as_ref()),
                None => unreached(),
            }
        } else {
            Err(CoreError::OutOfBounds)
        }
    }

    /// The Cartesian coordinates of every system, in stored order.
    pub fn system_coords(&self) -> (r: Vec<(i32, i32)>)
        requires
            self.wf(),
        ensures
            r@.len() == self.spec_world().spec_systems().len(),
            forall|k: int|
                0 <= k < r@.len() ==> {
                    let s = values_of(self.spec_world().spec_systems())[k];
                    (#[trigger] r@[k]).0 == spec_cartesian_x(s.x as int) && r@[k].1
                        == spec_cartesian_y(self.spec_rows() as int, s.x as int, s.y as int)
                },
    {
        let rows = self.sector().rows;
        let systems = self.world.systems();
        let mut out: Vec<(i32, i32)> = Vec::new();
        let mut i: usize = 0;
        while i < systems.len()
            invariant
                i <= systems.len(),
                rows == self.spec_rows(),
                systems@.len() == self.spec_world().spec_systems().len(),
                forall|k: int|
                    0 <= k < systems@.len() ==> *(#[trigger] systems@[k]) == values_of(
                        self.spec_world().spec_systems(),
                    )[k],
                out@.len() == i,
                forall|k: int|
                    0 <= k < i ==> {
                        let s = values_of(self.spec_world().spec_systems())[k];
                        (#[trigger] out@[k]).0 == spec_cartesian_x(s.x as int) && out@[k].1
                            == spec_cartesian_y(rows as int, s.x as int, s.y as int)
                    },
            decreases systems.len() - i,
        {
            let s = systems[i];
            out.push(hex_to_cartesian(rows, s.hex()));
            i = i + 1;
        }
        out
    }

    /// The Cartesian coordinates of every black hole, in stored order.
    pub fn black_hole_coords(&self) -> (r: Vec<(i32, i32)>)
        requires
            self.wf(),
        ensures
            r@.len() == self.spec_world().spec_black_holes().len(),
            forall|k: int|
                0 <= k < r@.len() ==> {
                    let s = values_of(self.spec_world().spec_black_holes())[k];
                    (#[trigger] r@[k]).0 == spec_cartesian_x(s.x as int) && r@[k].1
                        == spec_cartesian_y(self.spec_rows() as int, s.x as int, s.y as int)
                },
    {
        let rows = self.sector().rows;
        let black_holes = self.world.black_holes();
        let mut out: Vec<(i32, i32)> = Vec::new();
        let mut i: usize = 0;
        while i < black_holes.len()
            invariant
                i <= black_holes.len(),
                rows == self.spec_rows(),
                black_holes@.len() == self.spec_world().spec_black_holes().len(),
                forall|k: int|
                    0 <= k < black_holes@.len() ==> *(#[trigger] black_holes@[k]) == values_of(
                        self.spec_world().spec_black_holes(),
                    )[k],
                out@.len() == i,
                forall|k: int|
                    0 <= k < i ==> {
                        let s = values_of(self.spec_world().spec_black_holes())[k];
                        (#[trigger] out@[k]).0 == spec_cartesian_x(s.x as int) && out@[k].1
                            == spec_cartesian_y(rows as int, s.x as int, s.y as int)
                    },
            decreases black_holes.len() - i,
        {
            let b = black_holes[i];
            out.push(hex_to_cartesian(rows, b.hex()));
            i = i + 1;
        }
        out
    }
}

/// Law: one clamped step never leaves the extent, and at the low edge a
/// `LEFT`/`UP` step is a no-op, as is `RIGHT`/`DOWN` at the high edge.
pub proof fn lemma_cursor_clamped(cursor: (u8, u8), change: SelectionChange, columns: u8, rows: u8)
    requires
        1 <= cursor.0 <= columns,
        1 <= cursor.1 <= rows,
    ensures
        1 <= clamped_move(cursor, change, columns, rows).0 <= columns,
        1 <= clamped_move(cursor, change, columns, rows).1 <= rows,
        cursor == (1u8, 1u8) && (change == SelectionChange::LEFT || change == SelectionChange::UP)
            ==> clamped_move(cursor, change, columns, rows) == cursor,
        cursor == (columns, rows) && (change == SelectionChange::RIGHT || change
            == SelectionChange::DOWN) ==> clamped_move(cursor, change, columns, rows) == cursor,
{
}

/// The cursor after a whole sequence of movement commands, each one clamped
/// to the extent.
pub open spec fn apply_moves(
    cursor: (u8, u8),
    moves: Seq<SelectionChange>,
    columns: u8,
    rows: u8,
) -> (u8, u8)
    decreases moves.len(),
{
    if moves.len() == 0 {
        cursor
    } else {
        apply_moves(clamped_move(cursor, moves[0], columns, rows), moves.drop_first(), columns, rows)
    }
}

/// Law: starting at `(1, 1)`, no sequence of `LEFT` and `UP` commands moves
/// the cursor at all.
pub proof fn lemma_low_corner_absorbs(moves: Seq<SelectionChange>, columns: u8, rows: u8)
    requires
        1 <= columns,
        1 <= rows,
        forall|i: int|
            0 <= i < moves.len() ==> (#[trigger] moves[i]) == SelectionChange::LEFT || moves[i]
                == SelectionChange::UP,
    ensures
        apply_moves((1u8, 1u8), moves, columns, rows) == (1u8, 1u8),
    decreases moves.len(),
{
    if moves.len() > 0 {
        lemma_low_corner_absorbs(moves.drop_first(), columns, rows);
    }
}

/// Law: starting at `(columns, rows)`, no sequence of `RIGHT` and `DOWN`
/// commands moves the cursor at all.
pub proof fn lemma_high_corner_absorbs(moves: Seq<SelectionChange>, columns: u8, rows: u8)
    requires
        1 <= columns,
        1 <= rows,
        forall|i: int|
            0 <= i < moves.len() ==> (#[trigger] moves[i]) == SelectionChange::RIGHT || moves[i]
                == SelectionChange::DOWN,
    ensures
        apply_moves((columns, rows), moves, columns, rows) == (columns, rows),
    decreases moves.len(),
{
    if moves.len() > 0 {
        lemma_high_corner_absorbs(moves.drop_first(), columns, rows);
    }
}

/// Law: the mode cycle is closed with period exactly three: three advances
/// return to the starting mode, and no single advance stays put.
pub proof fn lemma_mode_cycle(m: SelectionMode)
    ensures
        next_mode(next_mode(next_mode(m))) == m,
        next_mode(m) != m,
{
}

/// Law: the starfield is deterministic in the sector's identity: two
/// sessions whose sectors share name and extent carry identical starfields,
/// of exactly `ceil(rows * columns * 1.6)` points each.
pub proof fn lemma_starfield_deterministic(a: App, b: App)
    requires
        a.starfield_rule(),
        b.starfield_rule(),
        a.spec_sector().name@ == b.spec_sector().name@,
        a.spec_rows() == b.spec_rows(),
        a.spec_columns() == b.spec_columns(),
    ensures
        a.spec_starfield() == b.spec_starfield(),
        a.spec_starfield().len() == star_count(a.spec_rows() as int, a.spec_columns() as int),
{
}

proof fn lemma_last_at_hit(items: Seq<System>, x: u8, y: u8)
    requires
        exists|i: int| 0 <= i < items.len() && (#[trigger] items[i]).x == x && items[i].y == y,
    ensures
        last_at(items, x, y) is Some,
        exists|i: int|
            0 <= i < items.len() && last_at(items, x, y) == Option::Some(#[trigger] items[i]),
        last_at(items, x, y).unwrap().x == x,
        last_at(items, x, y).unwrap().y == y,
    decreases items.len(),
{
    if items.last().x == x && items.last().y == y {
        assert(last_at(items, x, y) == Option::Some(items[items.len() - 1]));
    } else {
        let i = choose|i: int|
            0 <= i < items.len() && (#[trigger] items[i]).x == x && items[i].y == y;
        assert(items.drop_last()[i] == items[i]);
        lemma_last_at_hit(items.drop_last(), x, y);
        let j = choose|j: int|
            0 <= j < items.drop_last().len() && last_at(items.drop_last(), x, y) == Option::Some(
                #[trigger] items.drop_last()[j],
            );
        assert(items.drop_last()[j] == items[j]);
    }
}

/// Law: occupancy precedence. If any black hole sits at `(x, y)`, the
/// occupant there is a black hole of the store at that cell, never a
/// system: black holes are written after systems and win the cell.
pub proof fn lemma_black_hole_precedence(
    systems: Seq<System>,
    black_holes: Seq<System>,
    x: u8,
    y: u8,
)
    requires
        exists|i: int|
            0 <= i < black_holes.len() && (#[trigger] black_holes[i]).x == x && black_holes[i].y
                == y,
    ensures
        occupant_model(systems, black_holes, x, y) is Some,
        exists|i: int|
            0 <= i < black_holes.len() && occupant_model(systems, black_holes, x, y)
                == Option::Some(#[trigger] black_holes[i]),
        occupant_model(systems, black_holes, x, y).unwrap().x == x,
        occupant_model(systems, black_holes, x, y).unwrap().y == y,
{
    lemma_last_at_hit(black_holes, x, y);
}

/// Law: hexagon geometry. The outline has exactly 7 points, closes on
/// itself, and every point lies within squared Euclidean distance
/// `866 * 866` (milli-units) of the center.
pub proof fn lemma_hex_outline_geometry(c: (int, int))
    ensures
        hex_outline(c).len() == 7,
        hex_outline(c)[0] == hex_outline(c)[6],
        forall|k: int|
            0 <= k < 7 ==> ((#[trigger] hex_outline(c)[k]).0 - c.0) * (hex_outline(c)[k].0 - c.0)
                + (hex_outline(c)[k].1 - c.1) * (hex_outline(c)[k].1 - c.1) <= 866 * 866,
{
    assert forall|k: int|
        0 <= k < 7 implies ((#[trigger] hex_outline(c)[k]).0 - c.0) * (hex_outline(c)[k].0 - c.0)
        + (hex_outline(c)[k].1 - c.1) * (hex_outline(c)[k].1 - c.1) <= 866 * 866 by {
        let p = hex_outline(c)[k];
        let dx = p.0 - c.0;
        let dy = p.1 - c.1;
        assert(dx * dx + dy * dy <= 866 * 866) by (nonlinear_arith)
            requires
                (dx == 577 || dx == -577 || dx == 866 || dx == -866),
                (dy == 400 || dy == -400 || dy == 0),
                !((dx == 866 || dx == -866) && (dy == 400 || dy == -400)),
        {
        }
    }
}

} // verus!
