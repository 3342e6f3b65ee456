//! The integer side of the view: pixel coordinates measured from the centre
//! of the image, and which of them fall inside it.  Scaling to and from the
//! complex plane is floating-point work left to the caller.

use vstd::prelude::*;

verus! {

/// Half of `n`, rounded toward zero as integer division does.
pub open spec fn half(n: i32) -> int {
    if n >= 0 {
        n / 2
    } else {
        -((-n) / 2)
    }
}

/// The longer side of an image of `x_size` by `y_size` pixels.
pub fn longer_size(x_size: i32, y_size: i32) -> (r: i32)
    ensures
        r == if x_size < y_size { y_size } else { x_size },
{
    if x_size < y_size { y_size } else { x_size }
}

/// The distance of pixel column (or row) `x` from the middle of a side of
/// `size` pixels.
pub fn offset_from_centre(x: i32, size: i32) -> (r: i32)
    requires
        i32::MIN <= x - half(size) <= i32::MAX,
    ensures
        r == x - half(size),
{
    x - size / 2
}

/// The pixel that lies `column` and `row` pixels from the centre of an image
/// of `x_size` by `y_size` pixels, when it lies in the image.
pub fn view_cell(column: i32, row: i32, x_size: i32, y_size: i32) -> (r: Option<(i32, i32)>)
    requires
        i32::MIN <= column + half(x_size) <= i32::MAX,
        i32::MIN <= row + half(y_size) <= i32::MAX,
    ensures
        ({
            let x = column + half(x_size);
            let y = row + half(y_size);
            r == if 0 <= x < x_size && 0 <= y < y_size {
                Some((x as i32, y as i32))
            } else {
                None::<(i32, i32)>
            }
        }),
{
    let x = column + x_size / 2;
    let y = row + y_size / 2;
    if 0 <= x && x < x_size && 0 <= y && y < y_size {
        Some((x, y))
    } else {
        None
    }
}

} // verus!
