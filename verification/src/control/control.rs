//! Turning a click on the streamed video into a click on the game window:
//! the position is scaled from video coordinates to the window's client
//! area and packed into the `lParam` of a mouse-button message.
use vstd::prelude::*;

verus! {

/// A position in the client area of a window.
#[derive(Clone, Copy, Debug, PartialEq, Eq, Structural)]
pub struct Point {
    pub x: i32,
    pub y: i32,
}

/// Integer division rounded toward zero, as `/` computes it on Rust's signed
/// integers.
pub open spec fn trunc_div(a: int, b: int) -> int {
    if a >= 0 {
        if b > 0 { a / b } else { -(a / -b) }
    } else {
        if b > 0 { -((-a) / b) } else { (-a) / (-b) }
    }
}

/// Whether `coord * extent / video_extent` can be computed on `i32` without
/// dividing by zero and without overflow.
pub open spec fn scale_in_range(coord: i32, extent: i32, video_extent: i32) -> bool {
    &&& video_extent != 0
    &&& i32::MIN <= coord * extent <= i32::MAX
    &&& !(coord * extent == i32::MIN && video_extent == -1)
}

/// A coordinate on the video, `coord` of `video_extent`, taken to a client
/// area that is `extent` wide (or high).
pub open spec fn scale(coord: i32, extent: i32, video_extent: i32) -> int {
    trunc_div(coord * extent, video_extent as int)
}

/// The `lParam` of a mouse message at `(x, y)`: the low 16 bits of `y` above
/// the 32 bits of `x`, as an unsigned 32-bit word, taken to `isize`.
pub open spec fn lparam_of(x: i32, y: i32) -> isize {
    (((y as u32) << 16u32) | (x as u32)) as isize
}

/// `a / b` rounded toward zero.
fn quotient(a: i32, b: i32) -> (q: i32)
    requires
        b != 0,
        !(a == i32::MIN && b == -1),
    ensures
        q == trunc_div(a as int, b as int),
{
    if b > 0 {
        a / b
    } else if b == i32::MIN {
        if a == i32::MIN {
            1
        } else {
            assert(vstd::math::abs(a as int) < vstd::math::abs(b as int));
            0
        }
    } else {
        let nb: i32 = -b;
        let q = a / nb;
        assert(a >= 0 ==> q == (a as int) / (nb as int));
        assert(a < 0 ==> q == -((-(a as int)) / (nb as int)));
        assert(-q <= i32::MAX) by {
            if a < 0 {
                assert((-(a as int)) / (nb as int) <= 0x7fff_ffff) by (nonlinear_arith)
                    requires
                        0 <= -(a as int) <= 0x8000_0000,
                        nb >= 1,
                        nb == 1 ==> -(a as int) <= 0x7fff_ffff,
                ;
            } else {
                assert((a as int) / (nb as int) >= 0) by (nonlinear_arith)
                    requires
                        a >= 0,
                        nb >= 1,
                ;
            }
        }
        -q
    }
}

/// Scales the click `v_num` = `[x, y, video width, video height]` on the video
/// to the client area of a window whose client rectangle ends at
/// `client_right` and `client_bottom`.
pub fn to_client_point(v_num: &Vec<i32>, client_right: i32, client_bottom: i32) -> (p: Point)
    requires
        v_num@.len() >= 4,
        scale_in_range(v_num@[0], client_right, v_num@[2]),
        scale_in_range(v_num@[1], client_bottom, v_num@[3]),
    ensures
        p.x == scale(v_num@[0], client_right, v_num@[2]),
        p.y == scale(v_num@[1], client_bottom, v_num@[3]),
{
    let x = quotient(v_num[0] * client_right, v_num[2]);
    let y = quotient(v_num[1] * client_bottom, v_num[3]);
    Point { x, y }
}

/// Whether `coord * extent / video_extent` can be computed on `i32`.
fn scale_fits(coord: i32, extent: i32, video_extent: i32) -> (b: bool)
    ensures
        b == scale_in_range(coord, extent, video_extent),
        b <==> (video_extent != 0 && i32::MIN <= coord * extent <= i32::MAX && !(coord * extent
            == i32::MIN && video_extent == -1)),
{
    match coord.checked_mul(extent) {
        None => false,
        Some(prod) => video_extent != 0 && !(prod == i32::MIN && video_extent == -1),
    }
}

/// Scales the click `v_num` as `to_client_point` does, or returns `None` where
/// that scaling cannot be done: fewer than four numbers, a video extent of
/// zero, or a product or quotient that does not fit in `i32`.
pub fn checked_client_point(v_num: &Vec<i32>, client_right: i32, client_bottom: i32) -> (r: Option<
    Point,
>)
    ensures
        r is Some <==> (v_num@.len() >= 4 && scale_in_range(v_num@[0], client_right, v_num@[2])
            && scale_in_range(v_num@[1], client_bottom, v_num@[3])),
        r is Some <==> {
            &&& v_num@.len() >= 4
            &&& v_num@[2] != 0
            &&& v_num@[3] != 0
            &&& i32::MIN <= v_num@[0] * client_right <= i32::MAX
            &&& i32::MIN <= v_num@[1] * client_bottom <= i32::MAX
            &&& !(v_num@[0] * client_right == i32::MIN && v_num@[2] == -1)
            &&& !(v_num@[1] * client_bottom == i32::MIN && v_num@[3] == -1)
        },
        r is Some ==> r->0.x == scale(v_num@[0], client_right, v_num@[2]) && r->0.y == scale(
            v_num@[1],
            client_bottom,
            v_num@[3],
        ),
{
    if v_num.len() < 4 {
        return None;
    }
    if !scale_fits(v_num[0], client_right, v_num[2]) || !scale_fits(
        v_num[1],
        client_bottom,
        v_num[3],
    ) {
        return None;
    }
    Some(to_client_point(v_num, client_right, client_bottom))
}

/// The `lParam` of a mouse-button message at `p`.
pub fn click_lparam(p: Point) -> (l: isize)
    ensures
        l == lparam_of(p.x, p.y),
{
    let packed: u32 = (p.y as u32) << 16u32 | p.x as u32;
    packed as isize
}

/// A position inside the first 2^15 columns and rows is packed as
/// `y * 65536 + x`: its low word is `x` and its high word is `y`.
pub proof fn lemma_lparam_packs_words(x: i32, y: i32)
    requires
        0 <= x < 0x8000,
        0 <= y < 0x8000,
    ensures
        lparam_of(x, y) == y * 0x10000 + x,
        lparam_of(x, y) % 0x10000 == x,
        lparam_of(x, y) / 0x10000 == y,
{
    let ux = x as u32;
    let uy = y as u32;
    assert(((uy << 16u32) | ux) == uy * 0x10000 + ux) by (bit_vector)
        requires
            ux < 0x8000,
            uy < 0x8000,
    ;
}

/// The scaling keeps the edges: the video's origin lands on the client
/// area's origin, and the video's far edge on the client area's far edge.
pub proof fn lemma_scale_keeps_edges(extent: i32, video_extent: i32)
    requires
        scale_in_range(video_extent, extent, video_extent),
    ensures
        scale(0, extent, video_extent) == 0,
        scale(video_extent, extent, video_extent) == extent,
{
    let w = video_extent as int;
    let e = extent as int;
    assert(0 * e == 0);
    if w > 0 {
        if e >= 0 {
            assert(w * e >= 0 && (w * e) / w == e) by (nonlinear_arith)
                requires
                    w > 0,
                    e >= 0,
            ;
        } else {
            assert(w * e < 0 && (-(w * e)) / w == -e) by (nonlinear_arith)
                requires
                    w > 0,
                    e < 0,
            ;
        }
    } else {
        if e > 0 {
            assert(w * e < 0 && (-(w * e)) / (-w) == e) by (nonlinear_arith)
                requires
                    w < 0,
                    e > 0,
            ;
        } else {
            assert(w * e >= 0 && (w * e) / (-w) == -e) by (nonlinear_arith)
                requires
                    w < 0,
                    e <= 0,
            ;
        }
    }
}

/// Rounding toward zero keeps the order of numerators over a positive
/// divisor.
proof fn lemma_trunc_div_monotonic(a1: int, a2: int, b: int)
    requires
        a1 <= a2,
        b > 0,
    ensures
        trunc_div(a1, b) <= trunc_div(a2, b),
{
    if a1 >= 0 {
        assert(a1 / b <= a2 / b) by (nonlinear_arith)
            requires
                0 <= a1 <= a2,
                b > 0,
        ;
    } else if a2 >= 0 {
        assert(-((-a1) / b) <= 0 && 0 <= a2 / b) by (nonlinear_arith)
            requires
                a1 < 0,
                a2 >= 0,
                b > 0,
        ;
    } else {
        assert((-a2) / b <= (-a1) / b) by (nonlinear_arith)
            requires
                0 < -a2 <= -a1,
                b > 0,
        ;
    }
}

/// Over a video and a client area of positive extent, the scaling keeps the
/// order of positions: a click further right (or down) on the video lands no
/// further left (or up) in the window.
pub proof fn lemma_scale_keeps_order(c1: i32, c2: i32, extent: i32, video_extent: i32)
    requires
        c1 <= c2,
        extent >= 0,
        video_extent > 0,
    ensures
        scale(c1, extent, video_extent) <= scale(c2, extent, video_extent),
{
    assert(c1 * extent <= c2 * extent) by (nonlinear_arith)
        requires
            c1 <= c2,
            extent >= 0,
    ;
    lemma_trunc_div_monotonic(c1 * extent, c2 * extent, video_extent as int);
}

/// The scaling is refused only where the arithmetic cannot be done: whenever
/// the video extent is not zero, `coord * extent` fits in `i32` and the
/// quotient does not overflow, the scaling is in range, whatever the relative
/// sizes of the video and the window.
pub proof fn lemma_scale_in_range_when_arithmetic_safe(coord: i32, extent: i32, video_extent: i32)
    requires
        video_extent != 0,
        i32::MIN <= coord * extent <= i32::MAX,
        !(coord * extent == i32::MIN && video_extent == -1),
    ensures
        scale_in_range(coord, extent, video_extent),
{
}

/// The scaled coordinate is `coord * extent / video_extent` rounded toward
/// zero: the remainder `coord * extent - q * video_extent` has the sign of
/// `coord * extent` (or is zero) and is smaller than `video_extent` in size.
pub proof fn lemma_scale_rounds_toward_zero(coord: i32, extent: i32, video_extent: i32)
    requires
        video_extent != 0,
    ensures
        ({
            let a = coord * extent;
            let b = video_extent as int;
            let q = scale(coord, extent, video_extent);
            let r = a - q * b;
            &&& a >= 0 ==> 0 <= r < vstd::math::abs(b)
            &&& a < 0 ==> -vstd::math::abs(b) < r <= 0
        }),
{
    let a = coord * extent;
    let b = video_extent as int;
    if a >= 0 {
        if b > 0 {
            assert(0 <= a - (a / b) * b < b) by (nonlinear_arith)
                requires
                    a >= 0,
                    b > 0,
            ;
        } else {
            assert(0 <= a - (-(a / -b)) * b < -b) by (nonlinear_arith)
                requires
                    a >= 0,
                    b < 0,
            ;
        }
    } else {
        if b > 0 {
            assert(-b < a - (-((-a) / b)) * b <= 0) by (nonlinear_arith)
                requires
                    a < 0,
                    b > 0,
            ;
        } else {
            assert(b < a - ((-a) / (-b)) * b <= 0) by (nonlinear_arith)
                requires
                    a < 0,
                    b < 0,
            ;
        }
    }
}

/// The low word of a packed `lParam` is the low word of `x`; with `x` in
/// `0..65536`, its low 32 bits are the low word of `y` above `x`.
pub proof fn lemma_lparam_low_words(x: i32, y: i32)
    ensures
        (lparam_of(x, y) as u32) % 0x10000 == (x as u32) % 0x10000,
        0 <= x < 0x10000 ==> (lparam_of(x, y) as u32) == ((y as u32) % 0x10000) * 0x10000 + x,
{
    let ux = x as u32;
    let uy = y as u32;
    let w = (uy << 16u32) | ux;
    assert(w % 0x10000 == ux % 0x10000) by (bit_vector)
        requires
            w == (uy << 16u32) | ux,
    ;
    assert(ux < 0x10000 ==> w == (uy % 0x10000) * 0x10000 + ux) by (bit_vector)
        requires
            w == (uy << 16u32) | ux,
    ;
    assert((w as isize) as u32 == w) by (bit_vector);
}

} // verus!
