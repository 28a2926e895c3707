//! The grid map: a rectangular, immutable array of wall cells.
//!
//! Every lookup is bounds-checked and fails closed: an out-of-range query
//! reports `None`, which callers treat as blocked (for collision) or as no
//! hit (for ray casts).

use vstd::prelude::*;
use vstd::string::StringSliceAdditionalSpecFns;

verus! {

/// Upper bound on each map dimension, so that fixed-point world coordinates
/// stay far away from `i64` overflow.
pub const MAX_DIM: usize = 4096;

/// One cell of the map: walkable floor, or a wall carrying the identifier of
/// the texture it is drawn with.
#[derive(Clone, Copy, PartialEq, Eq, Structural, Debug)]
pub enum Tile {
    Floor,
    Wall(usize),
}

impl Tile {
    /// True on walkable floor.
    pub open spec fn is_floor(self) -> bool {
        self is Floor
    }
}

/// Why a map text failed to load.
#[derive(Clone, Copy, PartialEq, Eq, Structural, Debug)]
pub enum MapError {
    /// The text holds no rows, or rows without cells.
    Empty,
    /// Two rows have different lengths; the map must be rectangular.
    Ragged,
    /// A dimension exceeds [`MAX_DIM`].
    TooLarge,
}

impl MapError {
    /// A human-readable description of the load failure.
    pub fn describe(&self) -> (s: &'static str)
        ensures
            self is Empty ==> s@ == "map file holds no cells"@,
            self is Ragged ==> s@ == "map rows have inconsistent lengths"@,
            self is TooLarge ==> s@ == "map dimensions are too large"@,
    {
        match self {
            MapError::Empty => "map file holds no cells",
            MapError::Ragged => "map rows have inconsistent lengths",
            MapError::TooLarge => "map dimensions are too large",
        }
    }
}

/// A rectangular grid of tiles, indexed as `grid@[row][column]`.
pub struct Grid {
    cells: Vec<Vec<Tile>>,
}

impl View for Grid {
    type V = Seq<Seq<Tile>>;

    closed spec fn view(&self) -> Seq<Seq<Tile>> {
        self.cells@.map_values(|row: Vec<Tile>| row@)
    }
}

impl Grid {
    /// Well-formedness: at least one row and one column, every row as long
    /// as the first, and both dimensions within [`MAX_DIM`].
    pub open spec fn wf(self) -> bool {
        &&& 1 <= self@.len() <= MAX_DIM
        &&& 1 <= self@[0].len() <= MAX_DIM
        &&& forall|r: int|
            0 <= r < self@.len() ==> (#[trigger] self@[r]).len() == self@[0].len()
    }

    /// Number of rows.
    pub open spec fn spec_height(self) -> int {
        self@.len() as int
    }

    /// Number of columns.
    pub open spec fn spec_width(self) -> int {
        self@[0].len() as int
    }

    /// Whether cell coordinates `(cx, cy)` lie inside the map.
    pub open spec fn in_bounds(self, cx: int, cy: int) -> bool {
        0 <= cx < self.spec_width() && 0 <= cy < self.spec_height()
    }

    /// The tile at in-bounds cell coordinates `(cx, cy)`.
    pub open spec fn tile(self, cx: int, cy: int) -> Tile
        recommends
            self.in_bounds(cx, cy),
    {
        self@[cy][cx]
    }

    /// A cell is walkable when it lies inside the map and is floor;
    /// everything outside the map counts as blocked.
    pub open spec fn walkable(self, cx: int, cy: int) -> bool {
        self.in_bounds(cx, cy) && self.tile(cx, cy) is Floor
    }

    /// Builds a grid from rows already known to be rectangular.
    pub fn from_rows(rows: Vec<Vec<Tile>>) -> (g: Grid)
        requires
            1 <= rows@.len() <= MAX_DIM,
            1 <= rows@[0]@.len() <= MAX_DIM,
            forall|r: int|
                0 <= r < rows@.len() ==> (#[trigger] rows@[r])@.len() == rows@[0]@.len(),
        ensures
            g.wf(),
            g@ == rows@.map_values(|row: Vec<Tile>| row@),
    {
        Grid { cells: rows }
    }

    /// Number of rows.
    pub fn height(&self) -> (h: usize)
        ensures
            h == self.spec_height(),
    {
        self.cells.len()
    }

    /// Number of columns.
    pub fn width(&self) -> (w: usize)
        requires
            self.wf(),
        ensures
            w == self.spec_width(),
    {
        self.cells[0].len()
    }

    /// Bounds-checked lookup: the tile at `(cx, cy)`, or `None` when the
    /// coordinates fall outside the map.
    pub fn tile_at(&self, cx: i64, cy: i64) -> (t: Option<Tile>)
        requires
            self.wf(),
        ensures
            t == if self.in_bounds(cx as int, cy as int) {
                Some(self.tile(cx as int, cy as int))
            } else {
                None::<Tile>
            },
    {
        let h = self.cells.len();
        let w = self.cells[0].len();
        if 0 <= cy && cy < h as i64 && 0 <= cx && cx < w as i64 {
            Some(self.cells[cy as usize][cx as usize])
        } else {
            None
        }
    }

    /// Bounds-checked collision query: true only on an in-range floor cell,
    /// so an out-of-range destination blocks movement.
    pub fn is_walkable(&self, cx: i64, cy: i64) -> (b: bool)
        requires
            self.wf(),
        ensures
            b == self.walkable(cx as int, cy as int),
    {
        match self.tile_at(cx, cy) {
            Some(Tile::Floor) => true,
            _ => false,
        }
    }
}

/// Whitespace bytes, as `str::trim` treats ASCII text.
pub open spec fn is_space(b: u8) -> bool {
    b == 32 || b == 9 || b == 10 || b == 11 || b == 12 || b == 13
}

/// The symbol table of the map text: `.` is floor, `S`, `B` and `W` are the
/// stone, brick and wood walls, and any other byte is the fallback wall.
pub open spec fn tile_of(b: u8) -> Tile {
    if b == 46 {
        Tile::Floor
    } else if b == 83 {
        Tile::Wall(0)
    } else if b == 66 {
        Tile::Wall(1)
    } else if b == 87 {
        Tile::Wall(2)
    } else {
        Tile::Wall(usize::MAX)
    }
}

/// Index of the first non-whitespace byte at or after `i`, or `b.len()`.
pub open spec fn trim_start_idx(b: Seq<u8>, i: int) -> int
    decreases b.len() - i,
{
    if i < 0 || i >= b.len() {
        b.len() as int
    } else if is_space(b[i]) {
        trim_start_idx(b, i + 1)
    } else {
        i
    }
}

/// One past the last non-whitespace byte at or before `e - 1`, floored at
/// `lo`.
pub open spec fn trim_end_idx(b: Seq<u8>, lo: int, e: int) -> int
    decreases e - lo,
{
    if e <= lo || e > b.len() || lo < 0 {
        lo
    } else if is_space(b[e - 1]) {
        trim_end_idx(b, lo, e - 1)
    } else {
        e
    }
}

/// Index of the first newline byte in `[i, end)`, or `end` when there is
/// none.
pub open spec fn find_nl(b: Seq<u8>, i: int, end: int) -> int
    decreases end - i,
{
    if !(0 <= i < end && end <= b.len()) {
        end
    } else if b[i] == 10 {
        i
    } else {
        find_nl(b, i + 1, end)
    }
}

/// The tiles of one line `[pos, j)`, with a trailing carriage return
/// stripped as `str::lines` strips it.
pub open spec fn row_of(b: Seq<u8>, pos: int, j: int) -> Seq<Tile> {
    let e = if j > pos && b[j - 1] == 13 {
        j - 1
    } else {
        j
    };
    Seq::new((e - pos) as nat, |k: int| tile_of(b[pos + k]))
}

/// The rows of the text `[pos, end)`, split at newline bytes.
pub open spec fn rows_from(b: Seq<u8>, pos: int, end: int) -> Seq<Seq<Tile>>
    decreases end - pos,
{
    if pos < 0 || pos >= end || end > b.len() {
        Seq::empty()
    } else {
        let j0 = find_nl(b, pos, end);
        let j = if j0 < pos {
            pos
        } else {
            j0
        };
        if j >= end {
            seq![row_of(b, pos, end)]
        } else {
            seq![row_of(b, pos, j)] + rows_from(b, j + 1, end)
        }
    }
}

/// What `parse_map` returns, stated over the bytes of the input text: the
/// text is trimmed, split into lines, and mapped through the symbol table;
/// it is rejected when it holds no cells, when its rows differ in length,
/// or when a dimension exceeds [`MAX_DIM`].
pub open spec fn spec_parse_map(b: Seq<u8>) -> Result<Seq<Seq<Tile>>, MapError> {
    let start = trim_start_idx(b, 0);
    let end = trim_end_idx(b, start, b.len() as int);
    let rows = rows_from(b, start, end);
    if rows.len() == 0 || rows[0].len() == 0 {
        Err(MapError::Empty)
    } else if exists|r: int| 0 <= r < rows.len() && (#[trigger] rows[r]).len() != rows[0].len() {
        Err(MapError::Ragged)
    } else if rows.len() > MAX_DIM || rows[0].len() > MAX_DIM {
        Err(MapError::TooLarge)
    } else {
        Ok(rows)
    }
}

/// Exec counterpart of [`is_space`].
fn is_space_byte(b: u8) -> (r: bool)
    ensures
        r == is_space(b),
{
    b == 32 || b == 9 || b == 10 || b == 11 || b == 12 || b == 13
}

/// Exec counterpart of [`tile_of`].
fn tile_of_byte(b: u8) -> (t: Tile)
    ensures
        t == tile_of(b),
{
    if b == 46 {
        Tile::Floor
    } else if b == 83 {
        Tile::Wall(0)
    } else if b == 66 {
        Tile::Wall(1)
    } else if b == 87 {
        Tile::Wall(2)
    } else {
        Tile::Wall(usize::MAX)
    }
}

/// Converts the ASCII-art map text to a grid of tiles.
///
/// The text is trimmed of surrounding whitespace and split into lines; each
/// remaining byte maps to a tile through the fixed symbol table. Loading
/// fails when the text holds no cells, when the rows have inconsistent
/// lengths, or when a dimension exceeds [`MAX_DIM`].
#[verifier::loop_isolation(false)]
pub fn parse_map(s: &str) -> (r: Result<Grid, MapError>)
    ensures
        (match r {
            Ok(g) => spec_parse_map(s.spec_bytes()) == Ok::<Seq<Seq<Tile>>, MapError>(g@)
                && g.wf(),
            Err(e) => spec_parse_map(s.spec_bytes()) == Err::<Seq<Seq<Tile>>, MapError>(e),
        }),
{
    let bytes = s.as_bytes();
    let n = bytes.len();
    let ghost b = s.spec_bytes();

    let mut start: usize = 0;
    while start < n && is_space_byte(bytes[start])
        invariant
            0 <= start <= n == b.len(),
            bytes@ == b,
            trim_start_idx(b, 0) == trim_start_idx(b, start as int),
        decreases n - start,
    {
        start = start + 1;
    }
    assert(trim_start_idx(b, 0) == start);

    let mut end: usize = n;
    while end > start && is_space_byte(bytes[end - 1])
        invariant
            start <= end <= n == b.len(),
            bytes@ == b,
            trim_end_idx(b, start as int, n as int) == trim_end_idx(b, start as int, end as int),
        decreases end,
    {
        end = end - 1;
    }
    assert(trim_end_idx(b, start as int, n as int) == end);

    let ghost all_rows = rows_from(b, start as int, end as int);
    let mut rows: Vec<Vec<Tile>> = Vec::new();
    let mut pos = start;
    while pos < end
        invariant
            start <= pos <= end,
            end <= n == b.len(),
            bytes@ == b,
            all_rows == rows_from(b, start as int, end as int),
            rows@.map_values(|row: Vec<Tile>| row@) + rows_from(b, pos as int, end as int)
                == all_rows,
        decreases end - pos,
    {
        let mut j = pos;
        while j < end && bytes[j] != 10
            invariant
                pos <= j <= end <= n == b.len(),
                bytes@ == b,
                find_nl(b, pos as int, end as int) == find_nl(b, j as int, end as int),
            decreases end - j,
        {
            j = j + 1;
        }
        assert(find_nl(b, pos as int, end as int) == j);

        let line_end = if j > pos && bytes[j - 1] == 13 {
            j - 1
        } else {
            j
        };
        let mut row: Vec<Tile> = Vec::new();
        let mut k = pos;
        while k < line_end
            invariant
                pos <= k <= line_end <= n == b.len(),
                bytes@ == b,
                row@.len() == k - pos,
                forall|t: int|
                    0 <= t < row@.len() ==> #[trigger] row@[t] == tile_of(b[pos + t]),
            decreases line_end - k,
        {
            row.push(tile_of_byte(bytes[k]));
            k = k + 1;
        }
        assert(row@ =~= row_of(b, pos as int, j as int));

        let ghost prev = rows@.map_values(|r2: Vec<Tile>| r2@);
        rows.push(row);
        proof {
            assert(rows@.map_values(|r2: Vec<Tile>| r2@) =~= prev.push(row@));
            if j < end {
                assert(rows_from(b, pos as int, end as int) == seq![row_of(
                    b,
                    pos as int,
                    j as int,
                )] + rows_from(b, j as int + 1, end as int));
            } else {
                assert(rows_from(b, pos as int, end as int) == seq![row_of(
                    b,
                    pos as int,
                    end as int,
                )]);
                assert(rows_from(b, j as int + 1, end as int) == Seq::<Seq<Tile>>::empty());
            }
            assert(prev.push(row@) + rows_from(b, j as int + 1, end as int) =~= prev
                + rows_from(b, pos as int, end as int));
        }
        pos = if j < end {
            j + 1
        } else {
            end
        };
    }
    assert(rows_from(b, pos as int, end as int) == Seq::<Seq<Tile>>::empty());
    assert(rows@.map_values(|row: Vec<Tile>| row@) =~= all_rows);

    if rows.len() == 0 {
        return Err(MapError::Empty);
    }
    let w0 = rows[0].len();
    proof {
        assert(all_rows[0] == rows@[0]@);
    }
    if w0 == 0 {
        return Err(MapError::Empty);
    }
    let mut r: usize = 1;
    while r < rows.len()
        invariant
            1 <= r <= rows@.len(),
            rows@.map_values(|row: Vec<Tile>| row@) == all_rows,
            w0 == all_rows[0].len(),
            forall|q: int| 0 <= q < r ==> (#[trigger] all_rows[q]).len() == w0,
        decreases rows@.len() - r,
    {
        if rows[r].len() != w0 {
            proof {
                assert(all_rows[r as int] == rows@[r as int]@);
            }
            return Err(MapError::Ragged);
        }
        r = r + 1;
    }
    proof {
        assert forall|q: int| 0 <= q < rows@.len() implies (#[trigger] rows@[q])@.len()
            == rows@[0]@.len() by {
            assert(all_rows[q] == rows@[q]@);
            assert(all_rows[0] == rows@[0]@);
        }
    }
    if rows.len() > MAX_DIM || w0 > MAX_DIM {
        return Err(MapError::TooLarge);
    }
    Ok(Grid::from_rows(rows))
}

} // verus!
