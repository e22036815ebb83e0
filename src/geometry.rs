//! Integer plane geometry: points, rectangles, squared distances, a Gaussian
//! falloff and turning angles, all exact on whole pixels.

use vstd::prelude::*;

verus! {

/// Fixed-point scale of a unit vector: a unit length is this many units.
pub const UNIT: i32 = 1000;

/// A position on screen, in whole pixels.
#[derive(Clone, Copy, Debug, PartialEq, Eq, Structural)]
pub struct Point {
    pub x: i32,
    pub y: i32,
}

impl Point {
    pub fn new(x: i32, y: i32) -> (r: Point)
        ensures
            r.x == x,
            r.y == y,
    {
        Point { x, y }
    }

    pub fn zero() -> (r: Point)
        ensures
            r.x == 0,
            r.y == 0,
    {
        Point { x: 0, y: 0 }
    }
}

/// An axis-aligned rectangle given by its top-left corner and its size.
#[derive(Clone, Copy, Debug, PartialEq, Eq, Structural)]
pub struct Rect {
    pub x: i32,
    pub y: i32,
    pub width: u32,
    pub height: u32,
}

pub open spec fn sq(v: int) -> int {
    v * v
}

/// The squared Euclidean distance between two points.
pub open spec fn dist2(a: Point, b: Point) -> int {
    sq(a.x - b.x) + sq(a.y - b.y)
}

/// The rectangle holds the point: left and top edges inclusive, right and
/// bottom edges exclusive.
pub open spec fn rect_contains(r: Rect, p: Point) -> bool {
    &&& r.x <= p.x
    &&& p.x < r.x + r.width
    &&& r.y <= p.y
    &&& p.y < r.y + r.height
}

/// The centre of a rectangle, rounded down to whole pixels.
pub open spec fn center_x(r: Rect) -> int {
    r.x + r.width / 2
}

pub open spec fn center_y(r: Rect) -> int {
    r.y + r.height / 2
}

/// The squared distance from a point to the centre of a rectangle.
pub open spec fn center_dist2(r: Rect, p: Point) -> int {
    sq(p.x - center_x(r)) + sq(p.y - center_y(r))
}

proof fn lemma_sq_bound(v: int, m: int)
    requires
        -m <= v <= m,
        0 <= m,
    ensures
        0 <= sq(v) <= m * m,
{
    assert(0 <= v * v <= m * m) by (nonlinear_arith)
        requires
            -m <= v <= m,
            0 <= m,
    ;
}

/// The squared distance between two points.
pub fn distance_squared(a: Point, b: Point) -> (r: i128)
    ensures
        r == dist2(a, b),
        0 <= r <= 0x2_0000_0000_0000_0000,
{
    let dx: i128 = a.x as i128 - b.x as i128;
    let dy: i128 = a.y as i128 - b.y as i128;
    proof {
        lemma_sq_bound(dx as int, 0x1_0000_0000);
        lemma_sq_bound(dy as int, 0x1_0000_0000);
    }
    dx * dx + dy * dy
}

/// Whether the rectangle holds the point.
pub fn contains(r: &Rect, p: Point) -> (b: bool)
    ensures
        b == rect_contains(*r, p),
{
    let px: i64 = p.x as i64;
    let py: i64 = p.y as i64;
    (r.x as i64) <= px && px < r.x as i64 + r.width as i64 && (r.y as i64) <= py && py < r.y as i64
        + r.height as i64
}

/// The squared distance from a point to the centre of a rectangle.
pub fn distance_squared_to_center(r: &Rect, p: Point) -> (d: i128)
    ensures
        d == center_dist2(*r, p),
        0 <= d,
{
    let cx: i128 = r.x as i128 + (r.width / 2) as i128;
    let cy: i128 = r.y as i128 + (r.height / 2) as i128;
    let dx: i128 = p.x as i128 - cx;
    let dy: i128 = p.y as i128 - cy;
    proof {
        lemma_sq_bound(dx as int, 0x2_0000_0000);
        lemma_sq_bound(dy as int, 0x2_0000_0000);
    }
    dx * dx + dy * dy
}

// ---------------------------------------------------------------------------
// Gaussian falloff
// ---------------------------------------------------------------------------
/// For v = 1, 2, ..., 100 the largest squared distance d with
/// 100 * exp(-d / (2 * 15 * 15)) >= v, that is floor(450 * ln(100 / v)).
pub open spec fn falloff_thresholds() -> Seq<u32> {
    seq![
        2072u32, 1760, 1577, 1448, 1348, 1266, 1196, 1136, 1083, 1036, 993, 954, 918, 884, 853,
        824, 797, 771, 747, 724, 702, 681, 661, 642, 623, 606, 589, 572, 557, 541, 527, 512, 498,
        485, 472, 459, 447, 435, 423, 412, 401, 390, 379, 369, 359, 349, 339, 330, 321, 311, 303,
        294, 285, 277, 269, 260, 252, 245, 237, 229, 222, 215, 207, 200, 193, 186, 180, 173, 166,
        160, 154, 147, 141, 135, 129, 123, 117, 111, 106, 100, 94, 89, 83, 78, 73, 67, 62, 57, 52,
        47, 42, 37, 32, 27, 23, 18, 13, 9, 4, 0,
    ]
}

fn falloff_table() -> (t: Vec<u32>)
    ensures
        t@ == falloff_thresholds(),
{
    let t = vec![
        2072u32, 1760, 1577, 1448, 1348, 1266, 1196, 1136, 1083, 1036, 993, 954, 918, 884, 853,
        824, 797, 771, 747, 724, 702, 681, 661, 642, 623, 606, 589, 572, 557, 541, 527, 512, 498,
        485, 472, 459, 447, 435, 423, 412, 401, 390, 379, 369, 359, 349, 339, 330, 321, 311, 303,
        294, 285, 277, 269, 260, 252, 245, 237, 229, 222, 215, 207, 200, 193, 186, 180, 173, 166,
        160, 154, 147, 141, 135, 129, 123, 117, 111, 106, 100, 94, 89, 83, 78, 73, 67, 62, 57, 52,
        47, 42, 37, 32, 27, 23, 18, 13, 9, 4, 0,
    ];
    assert(t@ =~= falloff_thresholds());
    t
}

/// How many thresholds of `t` are at least `d`.
pub open spec fn count_at_least(t: Seq<u32>, d: int) -> nat
    decreases t.len(),
{
    if t.len() == 0 {
        0
    } else {
        count_at_least(t.drop_last(), d) + if d <= t.last() {
            1nat
        } else {
            0nat
        }
    }
}

/// floor(100 * exp(-d2 / (2 * sigma^2))) with sigma = 15 pixels: a normalised
/// Gaussian of the distance whose square is `d2`, scaled to 0..=100.
pub open spec fn gaussian_score(d2: int) -> nat {
    count_at_least(falloff_thresholds(), d2)
}

/// The normalised Gaussian falloff of a squared distance, in 0..=100.
pub fn gaussian_falloff(d2: i128) -> (r: u32)
    ensures
        r == gaussian_score(d2 as int),
        r <= 100,
{
    let t = falloff_table();
    let mut count: u32 = 0;
    let mut i: usize = 0;
    while i < t.len()
        invariant
            t@ == falloff_thresholds(),
            i <= t.len(),
            count == count_at_least(t@.subrange(0, i as int), d2 as int),
            count <= i,
        decreases t.len() - i,
    {
        proof {
            assert(t@.subrange(0, i as int + 1).drop_last() =~= t@.subrange(0, i as int));
        }
        if d2 <= t[i] as i128 {
            count = count + 1;
        }
        i = i + 1;
    }
    proof {
        assert(t@.subrange(0, t@.len() as int) =~= t@);
    }
    count
}

// ---------------------------------------------------------------------------
// Angles
// ---------------------------------------------------------------------------
/// tan(k degrees) for k = 1, ..., 89, in millionths, rounded up.
pub open spec fn tangents() -> Seq<u32> {
    seq![
        17456u32, 34921, 52408, 69927, 87489, 105105, 122785, 140541, 158385, 176327, 194381,
        212557, 230869, 249329, 267950, 286746, 305731, 324920, 344328, 363971, 383865, 404027,
        424475, 445229, 466308, 487733, 509526, 531710, 554310, 577351, 600861, 624870, 649408,
        674509, 700208, 726543, 753555, 781286, 809785, 839100, 869287, 900405, 932516, 965689,
        1000000, 1035531, 1072369, 1110613, 1150369, 1191754, 1234898, 1279942, 1327045, 1376382,
        1428149, 1482561, 1539865, 1600335, 1664280, 1732051, 1804048, 1880727, 1962611, 2050304,
        2144507, 2246037, 2355853, 2475087, 2605090, 2747478, 2904211, 3077684, 3270853, 3487415,
        3732051, 4010781, 4331476, 4704631, 5144555, 5671282, 6313752, 7115370, 8144347, 9514365,
        11430053, 14300667, 19081137, 28636254, 57289962,
    ]
}

fn tangent_table() -> (t: Vec<u32>)
    ensures
        t@ == tangents(),
{
    let t = vec![
        17456u32, 34921, 52408, 69927, 87489, 105105, 122785, 140541, 158385, 176327, 194381,
        212557, 230869, 249329, 267950, 286746, 305731, 324920, 344328, 363971, 383865, 404027,
        424475, 445229, 466308, 487733, 509526, 531710, 554310, 577351, 600861, 624870, 649408,
        674509, 700208, 726543, 753555, 781286, 809785, 839100, 869287, 900405, 932516, 965689,
        1000000, 1035531, 1072369, 1110613, 1150369, 1191754, 1234898, 1279942, 1327045, 1376382,
        1428149, 1482561, 1539865, 1600335, 1664280, 1732051, 1804048, 1880727, 1962611, 2050304,
        2144507, 2246037, 2355853, 2475087, 2605090, 2747478, 2904211, 3077684, 3270853, 3487415,
        3732051, 4010781, 4331476, 4704631, 5144555, 5671282, 6313752, 7115370, 8144347, 9514365,
        11430053, 14300667, 19081137, 28636254, 57289962,
    ];
    assert(t@ =~= tangents());
    t
}

/// How many tangents of `t` the slope y / x reaches (x > 0, y >= 0).
pub open spec fn count_reached(t: Seq<u32>, x: int, y: int) -> nat
    decreases t.len(),
{
    if t.len() == 0 {
        0
    } else {
        count_reached(t.drop_last(), x, y) + if t.last() * x <= y * 1_000_000 {
            1nat
        } else {
            0nat
        }
    }
}

/// Whole degrees of the direction (x, y) inside the first quarter turn.
pub open spec fn quarter_degrees(x: int, y: int) -> nat {
    count_reached(tangents(), x, y)
}

/// Whole degrees, 0..360, of the direction of the vector (x, y), counted from
/// the positive x axis towards the positive y axis; 0 for the zero vector.
pub open spec fn direction_degrees(x: int, y: int) -> nat {
    if x == 0 && y == 0 {
        0
    } else if x > 0 && y >= 0 {
        quarter_degrees(x, y)
    } else if x <= 0 && y > 0 {
        90 + quarter_degrees(y, -x)
    } else if x < 0 && y <= 0 {
        180 + quarter_degrees(-x, -y)
    } else {
        270 + quarter_degrees(-y, x)
    }
}

/// The turning angle at `b` of the path a, b, c: the direction of c - b
/// measured from the direction of a - b, in whole degrees 0..360.
pub open spec fn turn_degrees(a: Point, b: Point, c: Point) -> nat {
    let ux = a.x - b.x;
    let uy = a.y - b.y;
    let vx = c.x - b.x;
    let vy = c.y - b.y;
    direction_degrees(ux * vx + uy * vy, ux * vy - uy * vx)
}

/// Bound on the coordinates that `direction` accepts.
pub const COORD_BOUND: i128 = 0x4_0000_0000_0000_0000;

fn quarter(t: &Vec<u32>, x: i128, y: i128) -> (r: u32)
    requires
        t@ == tangents(),
        0 <= x <= COORD_BOUND,
        0 <= y <= COORD_BOUND,
    ensures
        r == quarter_degrees(x as int, y as int),
        r <= 89,
{
    let mut count: u32 = 0;
    let mut i: usize = 0;
    while i < t.len()
        invariant
            t@ == tangents(),
            0 <= x <= COORD_BOUND,
            0 <= y <= COORD_BOUND,
            i <= t.len(),
            count == count_reached(t@.subrange(0, i as int), x as int, y as int),
            count <= i,
        decreases t.len() - i,
    {
        proof {
            assert(t@.subrange(0, i as int + 1).drop_last() =~= t@.subrange(0, i as int));
            let k = t@[i as int] as int;
            assert(k < 0x1_0000_0000);
            assert(0 <= k * (x as int) <= 0x1_0000_0000 * COORD_BOUND) by (nonlinear_arith)
                requires
                    0 <= k < 0x1_0000_0000,
                    0 <= x <= COORD_BOUND,
            ;
            assert(0 <= (y as int) * 1_000_000 <= COORD_BOUND * 1_000_000) by (nonlinear_arith)
                requires
                    0 <= y <= COORD_BOUND,
            ;
        }
        if (t[i] as i128) * x <= y * 1_000_000 {
            count = count + 1;
        }
        i = i + 1;
    }
    proof {
        assert(t@.subrange(0, t@.len() as int) =~= t@);
    }
    count
}

/// Whole degrees of the direction of (x, y), in 0..360.
pub fn direction(x: i128, y: i128) -> (r: u32)
    requires
        -COORD_BOUND <= x <= COORD_BOUND,
        -COORD_BOUND <= y <= COORD_BOUND,
    ensures
        r == direction_degrees(x as int, y as int),
        r < 360,
{
    let t = tangent_table();
    if x == 0 && y == 0 {
        0
    } else if x > 0 && y >= 0 {
        quarter(&t, x, y)
    } else if x <= 0 && y > 0 {
        90 + quarter(&t, y, -x)
    } else if x < 0 && y <= 0 {
        180 + quarter(&t, -x, -y)
    } else {
        270 + quarter(&t, -y, x)
    }
}

/// The turning angle at `b` of the path a, b, c, in whole degrees 0..360.
pub fn turning_angle(a: Point, b: Point, c: Point) -> (r: u32)
    ensures
        r == turn_degrees(a, b, c),
        r < 360,
{
    let ux: i128 = a.x as i128 - b.x as i128;
    let uy: i128 = a.y as i128 - b.y as i128;
    let vx: i128 = c.x as i128 - b.x as i128;
    let vy: i128 = c.y as i128 - b.y as i128;
    proof {
        let m: int = 0x1_0000_0000;
        assert(-m * m <= (ux as int) * (vx as int) <= m * m) by (nonlinear_arith)
            requires
                -m <= ux <= m,
                -m <= vx <= m,
        ;
        assert(-m * m <= (uy as int) * (vy as int) <= m * m) by (nonlinear_arith)
            requires
                -m <= uy <= m,
                -m <= vy <= m,
        ;
        assert(-m * m <= (ux as int) * (vy as int) <= m * m) by (nonlinear_arith)
            requires
                -m <= ux <= m,
                -m <= vy <= m,
        ;
        assert(-m * m <= (uy as int) * (vx as int) <= m * m) by (nonlinear_arith)
            requires
                -m <= uy <= m,
                -m <= vx <= m,
        ;
    }
    let dot: i128 = ux * vx + uy * vy;
    let cross: i128 = ux * vy - uy * vx;
    direction(dot, cross)
}

// ---------------------------------------------------------------------------
// Unit normals
// ---------------------------------------------------------------------------
/// `r` is the integer square root of `n`.
pub open spec fn is_isqrt(n: int, r: int) -> bool {
    0 <= r && r * r <= n < (r + 1) * (r + 1)
}

/// The integer square root of `n`, by bisection.
pub fn isqrt(n: u128) -> (r: u128)
    ensures
        is_isqrt(n as int, r as int),
        r < 0x1_0000_0000_0000_0000,
{
    let mut lo: u128 = 0;
    let mut hi: u128 = 0x1_0000_0000_0000_0000;
    assert(n < hi * hi) by (nonlinear_arith)
        requires
            n <= u128::MAX,
            hi == 0x1_0000_0000_0000_0000,
    ;
    while hi - lo > 1
        invariant
            lo < hi <= 0x1_0000_0000_0000_0000,
            lo * lo <= n,
            n < hi * hi,
        decreases hi - lo,
    {
        let mid: u128 = lo + (hi - lo) / 2;
        assert(mid * mid < 0x1_0000_0000_0000_0000 * 0x1_0000_0000_0000_0000) by (nonlinear_arith)
            requires
                mid < 0x1_0000_0000_0000_0000,
        ;
        if mid * mid <= n {
            lo = mid;
        } else {
            hi = mid;
        }
    }
    lo
}

/// `q` is `v * UNIT / len` rounded towards zero.
pub open spec fn scaled(v: int, len: int) -> int {
    if v >= 0 {
        (v * UNIT) / len
    } else {
        -((-v * UNIT) / len)
    }
}

/// The normal of the direction (dx, dy), turned a quarter towards +x from
/// +y, scaled to length UNIT; the zero vector for a zero direction.
pub open spec fn unit_normal_of(dx: int, dy: int) -> (int, int) {
    if dx == 0 && dy == 0 {
        (0, 0)
    } else {
        let len = choose|r: int| #[trigger] is_isqrt(sq(dx) + sq(dy), r);
        (scaled(-dy, len), scaled(dx, len))
    }
}

proof fn lemma_isqrt_unique(n: int, r1: int, r2: int)
    requires
        is_isqrt(n, r1),
        is_isqrt(n, r2),
    ensures
        r1 == r2,
{
    if r1 < r2 {
        assert((r1 + 1) * (r1 + 1) <= r2 * r2) by (nonlinear_arith)
            requires
                0 <= r1 < r2,
        ;
    } else if r2 < r1 {
        assert((r2 + 1) * (r2 + 1) <= r1 * r1) by (nonlinear_arith)
            requires
                0 <= r2 < r1,
        ;
    }
}

proof fn lemma_component_le_len(v: int, w: int, len: int)
    requires
        is_isqrt(sq(v) + sq(w), len),
    ensures
        -len <= v <= len,
{
    if v > len {
        assert(sq(v) >= (len + 1) * (len + 1)) by (nonlinear_arith)
            requires
                v > len >= 0,
        ;
        assert(sq(w) >= 0) by (nonlinear_arith);
    } else if v < -len {
        assert(sq(v) >= (len + 1) * (len + 1)) by (nonlinear_arith)
            requires
                v < -len,
                len >= 0,
        ;
        assert(sq(w) >= 0) by (nonlinear_arith);
    }
}

fn scale_component(v: i128, len: u128) -> (q: i32)
    requires
        len >= 1,
        -0x8000_0000_0000_0000 <= v <= 0x8000_0000_0000_0000,
        -(len as int) <= v <= len,
    ensures
        q == scaled(v as int, len as int),
        -UNIT <= q <= UNIT,
{
    let mag: u128 = if v >= 0 {
        v as u128
    } else {
        (-v) as u128
    };
    assert((mag as int) * 1000 / (len as int) <= 1000) by (nonlinear_arith)
        requires
            mag <= len,
            len >= 1,
    ;
    let q: u128 = mag * 1000 / len;
    if v >= 0 {
        q as i32
    } else {
        -(q as i32)
    }
}

/// The normal of (dx, dy) scaled to length UNIT, rounded towards zero.
pub fn unit_normal(dx: i64, dy: i64) -> (r: Point)
    ensures
        (r.x as int, r.y as int) == unit_normal_of(dx as int, dy as int),
        -UNIT <= r.x <= UNIT,
        -UNIT <= r.y <= UNIT,
{
    if dx == 0 && dy == 0 {
        return Point::zero();
    }
    proof {
        lemma_sq_bound(dx as int, 0x8000_0000_0000_0000);
        lemma_sq_bound(dy as int, 0x8000_0000_0000_0000);
    }
    let n: u128 = (dx as i128 * dx as i128) as u128 + (dy as i128 * dy as i128) as u128;
    let len: u128 = isqrt(n);
    proof {
        let l = choose|r: int| #[trigger] is_isqrt(sq(dx as int) + sq(dy as int), r);
        lemma_isqrt_unique(sq(dx as int) + sq(dy as int), l, len as int);
        lemma_component_le_len(dx as int, dy as int, len as int);
        lemma_component_le_len(dy as int, dx as int, len as int);
        if len == 0 {
            assert(sq(dx as int) + sq(dy as int) < 1);
            assert(sq(dx as int) >= 0 && sq(dy as int) >= 0) by (nonlinear_arith);
            assert(sq(dx as int) == 0 ==> dx == 0) by (nonlinear_arith);
            assert(sq(dy as int) == 0 ==> dy == 0) by (nonlinear_arith);
        }
    }
    let x = scale_component(-(dy as i128), len);
    let y = scale_component(dx as i128, len);
    Point { x, y }
}

} // verus!
