//! Color mapping for the topographic height layer

use vstd::prelude::*;

verus! {

/// Lowest block height mapped by the height ramp (Minecraft world bottom)
pub const MIN_HEIGHT: i64 = -64;

/// Highest block height mapped by the height ramp (Minecraft world top)
pub const MAX_HEIGHT: i64 = 320;

/// Number of units that the height ramp is divided into
pub const RAMP_LENGTH: i64 = 100_000;

/// A color stop of the hypsometric tint
#[derive(Clone, Copy)]
struct ColorStop {
    /// Position on the height ramp
    at: i64,
    /// Red, green and blue at the position
    color: [u8; 3],
}

/// The position of a color stop on the height ramp
///
/// The second stop is a hair above 28 % of the ramp, which decides how the color of
/// height 44 is rounded.
pub open spec fn stop_position(i: int) -> int {
    if i == 0 {
        0
    } else if i == 1 {
        28_001
    } else if i == 2 {
        34_000
    } else if i == 3 {
        50_000
    } else if i == 4 {
        68_000
    } else if i == 5 {
        85_000
    } else {
        100_000
    }
}

/// The color of a color stop
pub open spec fn stop_color(i: int) -> [u8; 3] {
    if i == 0 {
        [38u8, 70u8, 160u8]  // deep (dark blue)

    } else if i == 1 {
        [60u8, 130u8, 200u8]  // low water (blue)

    } else if i == 2 {
        [180u8, 200u8, 120u8]  // shoreline (sandy)

    } else if i == 3 {
        [60u8, 150u8, 60u8]  // lowland (green)

    } else if i == 4 {
        [150u8, 130u8, 70u8]  // hills (brown)

    } else if i == 5 {
        [120u8, 90u8, 60u8]  // mountains (dark brown)

    } else {
        [245u8, 245u8, 245u8]  // peaks (snow)

    }
}

/// Returns a color stop
fn color_stop(i: usize) -> (r: ColorStop)
    requires
        i <= 6,
    ensures
        r.at == stop_position(i as int),
        r.color == stop_color(i as int),
{
    if i == 0 {
        ColorStop { at: 0, color: [38, 70, 160] }
    } else if i == 1 {
        ColorStop { at: 28_001, color: [60, 130, 200] }
    } else if i == 2 {
        ColorStop { at: 34_000, color: [180, 200, 120] }
    } else if i == 3 {
        ColorStop { at: 50_000, color: [60, 150, 60] }
    } else if i == 4 {
        ColorStop { at: 68_000, color: [150, 130, 70] }
    } else if i == 5 {
        ColorStop { at: 85_000, color: [120, 90, 60] }
    } else {
        ColorStop { at: 100_000, color: [245, 245, 245] }
    }
}

/// The height above the bottom of the ramp, limited to the ramp
pub open spec fn ramp_height(height: int) -> int {
    if height < MIN_HEIGHT {
        0
    } else if height > MAX_HEIGHT {
        MAX_HEIGHT - MIN_HEIGHT
    } else {
        height - MIN_HEIGHT
    }
}

/// The first color stop from `i` on that is not below the given height above the bottom
pub open spec fn upper_stop(above: int, i: int) -> int
    decreases 6 - i,
{
    if i >= 6 || above * RAMP_LENGTH <= stop_position(i) * (MAX_HEIGHT - MIN_HEIGHT) {
        i
    } else {
        upper_stop(above, i + 1)
    }
}

/// The number nearest to `a + (b - a) * n / d`; halves are rounded up
pub open spec fn interpolated(a: int, b: int, n: int, d: int) -> int {
    (2 * (a * d + (b - a) * n) + d) / (2 * d)
}

/// One of the components of the color of a height
pub open spec fn tint(height: int, component: int) -> int {
    let above = ramp_height(height);
    let i = upper_stop(above, 1);
    interpolated(
        stop_color(i - 1)[component] as int,
        stop_color(i)[component] as int,
        above * RAMP_LENGTH - stop_position(i - 1) * (MAX_HEIGHT - MIN_HEIGHT),
        (stop_position(i) - stop_position(i - 1)) * (MAX_HEIGHT - MIN_HEIGHT),
    )
}

/// An interpolated number lies between the two numbers
proof fn interpolated_between(a: int, b: int, n: int, d: int)
    requires
        0 <= n <= d,
        0 < d,
    ensures
        a <= b ==> a <= interpolated(a, b, n, d) <= b,
        b <= a ==> b <= interpolated(a, b, n, d) <= a,
{
    let x = 2 * (a * d + (b - a) * n) + d;
    if a <= b {
        assert(2 * a * d <= x <= 2 * b * d + d) by (nonlinear_arith)
            requires
                x == 2 * (a * d + (b - a) * n) + d,
                0 <= n <= d,
                0 < d,
                a <= b,
        ;
        assert(a <= x / (2 * d) <= b) by (nonlinear_arith)
            requires
                2 * a * d <= x <= 2 * b * d + d,
                0 < d,
        ;
    }
    if b <= a {
        assert(2 * b * d <= x <= 2 * a * d + d) by (nonlinear_arith)
            requires
                x == 2 * (a * d + (b - a) * n) + d,
                0 <= n <= d,
                0 < d,
                b <= a,
        ;
        assert(b <= x / (2 * d) <= a) by (nonlinear_arith)
            requires
                2 * b * d <= x <= 2 * a * d + d,
                0 < d,
        ;
    }
}

/// Linearly interpolates between two RGB colors
fn lerp(a: [u8; 3], b: [u8; 3], n: i64, d: i64) -> (r: [u8; 3])
    requires
        0 <= n <= d <= 0x1_0000_0000,
        0 < d,
    ensures
        forall|k: int|
            0 <= k < 3 ==> #[trigger] r[k] == interpolated(
                a[k] as int,
                b[k] as int,
                n as int,
                d as int,
            ),
{
    [lerp_component(a[0], b[0], n, d), lerp_component(a[1], b[1], n, d), lerp_component(
        a[2],
        b[2],
        n,
        d,
    )]
}

/// Linearly interpolates between two color components
fn lerp_component(a: u8, b: u8, n: i64, d: i64) -> (r: u8)
    requires
        0 <= n <= d <= 0x1_0000_0000,
        0 < d,
    ensures
        r == interpolated(a as int, b as int, n as int, d as int),
{
    proof {
        interpolated_between(a as int, b as int, n as int, d as int);
    }
    assert(0 <= a * d <= 255 * 0x1_0000_0000 && -255 * 0x1_0000_0000 <= (b - a) * n <= 255
        * 0x1_0000_0000 && 0 <= a * d + (b - a) * n) by (nonlinear_arith)
        requires
            0 <= a <= 255,
            0 <= b <= 255,
            0 <= n <= d <= 0x1_0000_0000,
    ;
    let x: i64 = 2 * (a as i64 * d + (b as i64 - a as i64) * n) + d;
    (x / (2 * d)) as u8
}

/// Maps a block height to a hypsometric tint color
pub fn height_color(height: i32) -> (r: [u8; 3])
    ensures
        forall|k: int| 0 <= k < 3 ==> #[trigger] r[k] == tint(height as int, k),
{
    let span: i64 = MAX_HEIGHT - MIN_HEIGHT;
    let above: i64 = if (height as i64) < MIN_HEIGHT {
        0
    } else if height as i64 > MAX_HEIGHT {
        span
    } else {
        height as i64 - MIN_HEIGHT
    };
    let mut i: usize = 1;
    let mut prev = color_stop(0);
    let mut next = color_stop(1);
    while i < 6 && above * RAMP_LENGTH > next.at * span
        invariant
            1 <= i <= 6,
            span == 384,
            0 <= above <= span,
            prev.at == stop_position(i - 1),
            prev.color == stop_color(i - 1),
            next.at == stop_position(i as int),
            next.color == stop_color(i as int),
            prev.at * span <= above * RAMP_LENGTH,
            upper_stop(above as int, 1) == upper_stop(above as int, i as int),
        decreases 6 - i,
    {
        i = i + 1;
        prev = next;
        next = color_stop(i);
    }
    let n: i64 = above * RAMP_LENGTH - prev.at * span;
    let d: i64 = (next.at - prev.at) * span;
    lerp(prev.color, next.color, n, d)
}

/// Heights outside the ramp have the color of the nearest height on it
pub proof fn tint_clamped(height: int, component: int)
    ensures
        height <= MIN_HEIGHT ==> tint(height, component) == tint(MIN_HEIGHT as int, component),
        height >= MAX_HEIGHT ==> tint(height, component) == tint(MAX_HEIGHT as int, component),
{
}

proof fn upper_stop_found(above: int, i: int)
    requires
        0 <= above <= 384,
        1 <= i <= 6,
        stop_position(i - 1) * 384 <= above * 100_000,
    ensures
        i <= upper_stop(above, i) <= 6,
        stop_position(upper_stop(above, i) - 1) * 384 <= above * 100_000,
        above * 100_000 <= stop_position(upper_stop(above, i)) * 384,
    decreases 6 - i,
{
    if i < 6 && above * 100_000 > stop_position(i) * 384 {
        upper_stop_found(above, i + 1);
    }
}

/// Heights between two color stops have colors between theirs
pub proof fn tint_between_stops(height: int, component: int)
    requires
        0 <= component < 3,
    ensures
        ({
            let i = upper_stop(ramp_height(height), 1);
            let a = stop_color(i - 1)[component];
            let b = stop_color(i)[component];
            &&& 1 <= i <= 6
            &&& a <= b ==> a <= tint(height, component) <= b
            &&& b <= a ==> b <= tint(height, component) <= a
        }),
{
    let above = ramp_height(height);
    upper_stop_found(above, 1);
    let i = upper_stop(above, 1);
    interpolated_between(
        stop_color(i - 1)[component] as int,
        stop_color(i)[component] as int,
        above * RAMP_LENGTH - stop_position(i - 1) * (MAX_HEIGHT - MIN_HEIGHT),
        (stop_position(i) - stop_position(i - 1)) * (MAX_HEIGHT - MIN_HEIGHT),
    );
}

} // verus!
