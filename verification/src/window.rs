//! The size and place of the window on a screen.
use vstd::prelude::*;

verus! {

/// A window's place and size, in pixels.
#[derive(Clone, Copy, Debug, PartialEq, Eq, Structural)]
pub struct WindowGeometry {
    pub x: i32,
    pub y: i32,
    pub width: u32,
    pub height: u32,
}

pub open spec fn clamped(value: int, low: int, high: int) -> int {
    if value < low {
        low
    } else if value > high {
        high
    } else {
        value
    }
}

/// The nearest number that is a coordinate.
pub fn clamp_position(value: i64) -> (res: i32)
    ensures
        res == clamped(value as int, i32::MIN as int, i32::MAX as int),
{
    if value < -2147483648 {
        -2147483648
    } else if value > 2147483647 {
        2147483647
    } else {
        value as i32
    }
}

/// The length of a window along an axis: at most that of the work area, which counts as
/// one pixel at least.
pub open spec fn fitted(length: int, area: int) -> int {
    let room = if area < 1 {
        1
    } else {
        area
    };
    if length < room {
        length
    } else {
        room
    }
}

/// Where a window begins along an axis: in the middle of the work area, or as near to
/// where it was as keeps it inside.
pub open spec fn placed(start: int, length: int, area_start: int, area: int, center: bool) -> int {
    let size = fitted(length, area);
    let at = if center {
        area_start + (if area < size {
            0
        } else {
            (area - size) / 2
        })
    } else {
        clamped(start, area_start, area_start + area - size)
    };
    clamped(at, i32::MIN as int, i32::MAX as int)
}

pub open spec fn constrained(geometry: WindowGeometry, area: WindowGeometry, center: bool) -> (
    int,
    int,
    int,
    int,
) {
    (
        placed(geometry.x as int, geometry.width as int, area.x as int, area.width as int, center),
        placed(
            geometry.y as int,
            geometry.height as int,
            area.y as int,
            area.height as int,
            center,
        ),
        fitted(geometry.width as int, area.width as int),
        fitted(geometry.height as int, area.height as int),
    )
}

fn fit_length(length: u32, area: u32) -> (res: u32)
    ensures
        res == fitted(length as int, area as int),
{
    let room: u32 = if area < 1 {
        1
    } else {
        area
    };
    if length < room {
        length
    } else {
        room
    }
}

fn place(start: i32, size: u32, area_start: i32, area: u32, center: bool, Ghost(length): Ghost<
    int,
>) -> (res: i32)
    requires
        size == fitted(length, area as int),
        center || area >= 1 || length <= 0,
    ensures
        res == placed(start as int, length, area_start as int, area as int, center),
{
    let low: i64 = area_start as i64;
    if center {
        let spare: i64 = if area < size {
            0
        } else {
            (area as i64 - size as i64) / 2
        };
        clamp_position(low + spare)
    } else {
        let high: i64 = low + area as i64 - size as i64;
        let at: i64 = start as i64;
        let kept: i64 = if at < low {
            low
        } else if at > high {
            high
        } else {
            at
        };
        clamp_position(kept)
    }
}

/// The window inside the work area. A window that is not centred needs a work area with
/// room in it.
pub fn constrained_window_geometry(
    geometry: WindowGeometry,
    work_area: WindowGeometry,
    center: bool,
) -> (res: WindowGeometry)
    requires
        center || (work_area.width >= 1 || geometry.width == 0) && (work_area.height >= 1
            || geometry.height == 0),
    ensures
        (res.x as int, res.y as int, res.width as int, res.height as int) == constrained(
            geometry,
            work_area,
            center,
        ),
{
    let width = fit_length(geometry.width, work_area.width);
    let height = fit_length(geometry.height, work_area.height);
    let x = place(
        geometry.x,
        width,
        work_area.x,
        work_area.width,
        center,
        Ghost(geometry.width as int),
    );
    let y = place(
        geometry.y,
        height,
        work_area.y,
        work_area.height,
        center,
        Ghost(geometry.height as int),
    );
    WindowGeometry { x, y, width, height }
}

/// A constrained window lies inside a work area that has room and ends before the largest
/// coordinate.
pub proof fn constrained_windows_fit(geometry: WindowGeometry, area: WindowGeometry, center: bool)
    requires
        area.width >= 1,
        area.height >= 1,
        area.x + area.width <= i32::MAX,
        area.y + area.height <= i32::MAX,
    ensures
        ({
            let (x, y, width, height) = constrained(geometry, area, center);
            &&& area.x <= x && x + width <= area.x + area.width
            &&& area.y <= y && y + height <= area.y + area.height
        }),
{
}

/// The size inside the frame of a window whose outer size is to be `outer`: the frame
/// takes what the present outer size has over the present inner one.
pub fn target_inner_size(outer: u32, present_outer: u32, present_inner: u32) -> (res: u32)
    ensures
        res == ({
            let frame = if present_outer > present_inner {
                present_outer - present_inner
            } else {
                0
            };
            if outer - frame < 1 {
                1
            } else {
                outer - frame
            }
        }),
{
    let frame = present_outer.saturating_sub(present_inner);
    let inner = outer.saturating_sub(frame);
    if inner < 1 {
        1
    } else {
        inner
    }
}

/// A window that lies inside the work area stays as it is; one that is to be centred has as
/// much room on the one side as on the other; and no window that fits changes its size.
pub proof fn fitting_windows_are_left_alone(geometry: WindowGeometry, area: WindowGeometry)
    requires
        1 <= geometry.width <= area.width,
        1 <= geometry.height <= area.height,
        area.x + area.width <= i32::MAX,
        area.y + area.height <= i32::MAX,
    ensures
        area.x <= geometry.x && geometry.x + geometry.width <= area.x + area.width && area.y
            <= geometry.y && geometry.y + geometry.height <= area.y + area.height ==> constrained(
            geometry,
            area,
            false,
        ) == (
            geometry.x as int,
            geometry.y as int,
            geometry.width as int,
            geometry.height as int,
        ),
        ({
            let (x, y, width, height) = constrained(geometry, area, true);
            let left = x - area.x;
            let right = area.x + area.width - (x + width);
            let above = y - area.y;
            let below = area.y + area.height - (y + height);
            &&& width == geometry.width && height == geometry.height
            &&& left == right || left + 1 == right
            &&& above == below || above + 1 == below
        }),
{
}

/// A window that is too large is made as large as the work area.
pub proof fn large_windows_fill_the_area(geometry: WindowGeometry, area: WindowGeometry, center: bool)
    requires
        1 <= area.width <= geometry.width,
        1 <= area.height <= geometry.height,
        area.x + area.width <= i32::MAX,
        area.y + area.height <= i32::MAX,
    ensures
        constrained(geometry, area, center) == (
            area.x as int,
            area.y as int,
            area.width as int,
            area.height as int,
        ),
{
}

} // verus!
