//! The ways in which a texture cannot be made, and the checked table lookup
//! that reports them.

use vstd::prelude::*;

verus! {

/// The tables and grids that the engine reads or writes.
#[derive(Clone, Copy, Debug, PartialEq, Eq, Structural)]
pub enum TableName {
    Disp0,
    StaticLandscapeArray,
    Bigf0,
    Cliff0,
    LandGrid,
    TileGrid,
}

/// A lookup that fell outside its table.
#[derive(Clone, Copy, Debug, PartialEq, Eq, Structural)]
pub struct LookupError {
    pub table: TableName,
    pub index: i64,
}

/// Why no image was produced.
#[derive(Clone, Copy, Debug, PartialEq, Eq, Structural)]
pub enum TextureError {
    /// A computed index lies outside `table`. `x` and `y` are the column and
    /// the row of the grid cell whose texel asked for it; for a texture that
    /// has no grid, of the pixel.
    TableBounds { table: TableName, x: usize, y: usize, index: i64 },
    /// A grid or a table has `actual` entries where `expected` are needed.
    InputShape { table: TableName, expected: usize, actual: usize },
}

/// Entry `index` of `table`, or the lookup that failed.
pub open spec fn spec_lookup<T>(table: Seq<T>, name: TableName, index: int) -> Result<
    T,
    LookupError,
> {
    if 0 <= index < table.len() {
        Ok(table[index])
    } else {
        Err(LookupError { table: name, index: index as i64 })
    }
}

/// Reads entry `index` of `table`, and says which table and which index
/// failed if there is no such entry.
pub fn lookup<T: Copy>(table: &[T], name: TableName, index: i64) -> (r: Result<T, LookupError>)
    ensures
        r == spec_lookup(table@, name, index as int),
{
    if index < 0 {
        return Err(LookupError { table: name, index });
    }
    let at = index as u64;
    if at >= table.len() as u64 {
        return Err(LookupError { table: name, index });
    }
    Ok(table[at as usize])
}

/// The failed lookup, with the place that asked for it.
pub open spec fn spec_located(e: LookupError, x: usize, y: usize) -> TextureError {
    TextureError::TableBounds { table: e.table, x, y, index: e.index }
}

/// Attaches the place to a failed lookup.
pub fn located(e: LookupError, x: usize, y: usize) -> (t: TextureError)
    ensures
        t == spec_located(e, x, y),
{
    TextureError::TableBounds { table: e.table, x, y, index: e.index }
}

} // verus!
