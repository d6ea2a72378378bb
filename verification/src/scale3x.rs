//! The scale3x edge-directed upscaler: one source pixel plus its
//! 8-neighborhood become a 3x3 block of output pixels.
//!
//! Pixels are palette indices; only value equality between them matters. A
//! neighbor that falls outside the source grid is absent: every equality test
//! that involves it is false, as if the absent neighbor differed from every
//! pixel. Boundary pixels therefore get strictly fewer edge-preservation
//! opportunities than interior pixels, which is intentional.

use vstd::prelude::*;

verus! {

/// A source pixel `e` with its 8-neighborhood, row-major:
///
/// ```text
/// a b c
/// d e f
/// g h i
/// ```
///
/// The four flags say which sides of the center lie inside the source grid;
/// a neighbor is present only when every side it touches is. The value of an
/// absent neighbor never influences the output.
#[derive(Clone, Copy)]
pub struct Neighborhood {
    pub a: u8,
    pub b: u8,
    pub c: u8,
    pub d: u8,
    pub e: u8,
    pub f: u8,
    pub g: u8,
    pub h: u8,
    pub i: u8,
    /// The row above the center lies inside the grid.
    pub has_top: bool,
    /// The row below the center lies inside the grid.
    pub has_bottom: bool,
    /// The column left of the center lies inside the grid.
    pub has_left: bool,
    /// The column right of the center lies inside the grid.
    pub has_right: bool,
}

impl Neighborhood {
    pub open spec fn a_present(self) -> bool {
        self.has_left && self.has_top
    }

    pub open spec fn b_present(self) -> bool {
        self.has_top
    }

    pub open spec fn c_present(self) -> bool {
        self.has_right && self.has_top
    }

    pub open spec fn d_present(self) -> bool {
        self.has_left
    }

    pub open spec fn f_present(self) -> bool {
        self.has_right
    }

    pub open spec fn g_present(self) -> bool {
        self.has_left && self.has_bottom
    }

    pub open spec fn h_present(self) -> bool {
        self.has_bottom
    }

    pub open spec fn i_present(self) -> bool {
        self.has_right && self.has_bottom
    }

    /// Equality of the four side neighbors under the absent-differs rule.
    pub open spec fn eq_db(self) -> bool {
        self.d_present() && self.b_present() && self.d == self.b
    }

    pub open spec fn eq_bf(self) -> bool {
        self.b_present() && self.f_present() && self.b == self.f
    }

    pub open spec fn eq_fh(self) -> bool {
        self.f_present() && self.h_present() && self.f == self.h
    }

    pub open spec fn eq_hd(self) -> bool {
        self.h_present() && self.d_present() && self.h == self.d
    }

    /// Equality of the always-present center with a corner neighbor.
    pub open spec fn eq_ea(self) -> bool {
        self.a_present() && self.e == self.a
    }

    pub open spec fn eq_ec(self) -> bool {
        self.c_present() && self.e == self.c
    }

    pub open spec fn eq_eg(self) -> bool {
        self.g_present() && self.e == self.g
    }

    pub open spec fn eq_ei(self) -> bool {
        self.i_present() && self.e == self.i
    }

    /// The up-left edge condition: `d == b`, `d != h`, `b != f`.
    pub open spec fn edge_up_left(self) -> bool {
        self.eq_db() && !self.eq_hd() && !self.eq_bf()
    }

    /// The up-right edge condition: `b == f`, `b != d`, `f != h`.
    pub open spec fn edge_up_right(self) -> bool {
        self.eq_bf() && !self.eq_db() && !self.eq_fh()
    }

    /// The down-left edge condition: `h == d`, `h != f`, `d != b`.
    pub open spec fn edge_down_left(self) -> bool {
        self.eq_hd() && !self.eq_fh() && !self.eq_db()
    }

    /// The down-right edge condition: `f == h`, `f != b`, `h != d`.
    pub open spec fn edge_down_right(self) -> bool {
        self.eq_fh() && !self.eq_bf() && !self.eq_hd()
    }
}

/// Top-left output pixel.
pub open spec fn spec_p1(n: Neighborhood) -> u8 {
    if n.edge_up_left() {
        n.d
    } else {
        n.e
    }
}

/// Top-middle output pixel.
pub open spec fn spec_p2(n: Neighborhood) -> u8 {
    if (n.edge_up_left() && !n.eq_ec()) || (n.edge_up_right() && !n.eq_ea()) {
        n.b
    } else {
        n.e
    }
}

/// Top-right output pixel.
pub open spec fn spec_p3(n: Neighborhood) -> u8 {
    if n.edge_up_right() {
        n.f
    } else {
        n.e
    }
}

/// Middle-left output pixel.
pub open spec fn spec_p4(n: Neighborhood) -> u8 {
    if (n.edge_down_left() && !n.eq_ea()) || (n.edge_up_left() && !n.eq_eg()) {
        n.d
    } else {
        n.e
    }
}

/// Center output pixel: always the source center.
pub open spec fn spec_p5(n: Neighborhood) -> u8 {
    n.e
}

/// Middle-right output pixel.
pub open spec fn spec_p6(n: Neighborhood) -> u8 {
    if (n.edge_up_right() && !n.eq_ei()) || (n.edge_down_right() && !n.eq_ec()) {
        n.f
    } else {
        n.e
    }
}

/// Bottom-left output pixel.
pub open spec fn spec_p7(n: Neighborhood) -> u8 {
    if n.edge_down_left() {
        n.d
    } else {
        n.e
    }
}

/// Bottom-middle output pixel.
pub open spec fn spec_p8(n: Neighborhood) -> u8 {
    if (n.edge_down_right() && !n.eq_eg()) || (n.edge_down_left() && !n.eq_ei()) {
        n.h
    } else {
        n.e
    }
}

/// Bottom-right output pixel.
pub open spec fn spec_p9(n: Neighborhood) -> u8 {
    if n.edge_down_right() {
        n.f
    } else {
        n.e
    }
}

/// The output pixel at column `dx`, row `dy` of the 3x3 block,
/// for `0 <= dx < 3` and `0 <= dy < 3`.
pub open spec fn spec_out_px(n: Neighborhood, dx: int, dy: int) -> u8 {
    if dy == 0 {
        if dx == 0 {
            spec_p1(n)
        } else if dx == 1 {
            spec_p2(n)
        } else {
            spec_p3(n)
        }
    } else if dy == 1 {
        if dx == 0 {
            spec_p4(n)
        } else if dx == 1 {
            spec_p5(n)
        } else {
            spec_p6(n)
        }
    } else {
        if dx == 0 {
            spec_p7(n)
        } else if dx == 1 {
            spec_p8(n)
        } else {
            spec_p9(n)
        }
    }
}

/// The 3x3 block of output pixels replacing one source pixel.
#[derive(Clone, Copy)]
pub struct ScaledBlock {
    pub p1: u8,
    pub p2: u8,
    pub p3: u8,
    pub p4: u8,
    pub p5: u8,
    pub p6: u8,
    pub p7: u8,
    pub p8: u8,
    pub p9: u8,
}

impl ScaledBlock {
    /// The block's pixel at column `dx`, row `dy`, for `0 <= dx, dy < 3`.
    pub open spec fn px(self, dx: int, dy: int) -> u8 {
        if dy == 0 {
            if dx == 0 {
                self.p1
            } else if dx == 1 {
                self.p2
            } else {
                self.p3
            }
        } else if dy == 1 {
            if dx == 0 {
                self.p4
            } else if dx == 1 {
                self.p5
            } else {
                self.p6
            }
        } else {
            if dx == 0 {
                self.p7
            } else if dx == 1 {
                self.p8
            } else {
                self.p9
            }
        }
    }
}

/// Computes the scale3x output block for one source pixel and its
/// 8-neighborhood, exactly as the spec-level rules state it.
pub fn scale3x(n: &Neighborhood) -> (r: ScaledBlock)
    ensures
        r.p1 == spec_p1(*n),
        r.p2 == spec_p2(*n),
        r.p3 == spec_p3(*n),
        r.p4 == spec_p4(*n),
        r.p5 == spec_p5(*n),
        r.p6 == spec_p6(*n),
        r.p7 == spec_p7(*n),
        r.p8 == spec_p8(*n),
        r.p9 == spec_p9(*n),
        forall|dx: int, dy: int|
            0 <= dx < 3 && 0 <= dy < 3 ==> r.px(dx, dy) == spec_out_px(*n, dx, dy),
{
    let a_here = n.has_left && n.has_top;
    let b_here = n.has_top;
    let c_here = n.has_right && n.has_top;
    let d_here = n.has_left;
    let f_here = n.has_right;
    let g_here = n.has_left && n.has_bottom;
    let h_here = n.has_bottom;
    let i_here = n.has_right && n.has_bottom;

    let eq_db = d_here && b_here && n.d == n.b;
    let eq_bf = b_here && f_here && n.b == n.f;
    let eq_fh = f_here && h_here && n.f == n.h;
    let eq_hd = h_here && d_here && n.h == n.d;
    let eq_ea = a_here && n.e == n.a;
    let eq_ec = c_here && n.e == n.c;
    let eq_eg = g_here && n.e == n.g;
    let eq_ei = i_here && n.e == n.i;

    let up_left = eq_db && !eq_hd && !eq_bf;
    let up_right = eq_bf && !eq_db && !eq_fh;
    let down_left = eq_hd && !eq_fh && !eq_db;
    let down_right = eq_fh && !eq_bf && !eq_hd;

    ScaledBlock {
        p1: if up_left { n.d } else { n.e },
        p2: if (up_left && !eq_ec) || (up_right && !eq_ea) { n.b } else { n.e },
        p3: if up_right { n.f } else { n.e },
        p4: if (down_left && !eq_ea) || (up_left && !eq_eg) { n.d } else { n.e },
        p5: n.e,
        p6: if (up_right && !eq_ei) || (down_right && !eq_ec) { n.f } else { n.e },
        p7: if down_left { n.d } else { n.e },
        p8: if (down_right && !eq_eg) || (down_left && !eq_ei) { n.h } else { n.e },
        p9: if down_right { n.f } else { n.e },
    }
}

/// Edge preservation: where one of the four diagonal edge conditions holds,
/// the matching corner of the output block takes the neighbor's value, not
/// the center's.
pub proof fn lemma_scale3x_edge_preservation(n: Neighborhood)
    ensures
        n.edge_up_left() ==> spec_p1(n) == n.d,
        n.edge_up_right() ==> spec_p3(n) == n.f,
        n.edge_down_left() ==> spec_p7(n) == n.d,
        n.edge_down_right() ==> spec_p9(n) == n.f,
{
}

/// Every present neighbor carries the center's value.
pub open spec fn flat(n: Neighborhood) -> bool {
    &&& (n.a_present() ==> n.a == n.e)
    &&& (n.b_present() ==> n.b == n.e)
    &&& (n.c_present() ==> n.c == n.e)
    &&& (n.d_present() ==> n.d == n.e)
    &&& (n.f_present() ==> n.f == n.e)
    &&& (n.g_present() ==> n.g == n.e)
    &&& (n.h_present() ==> n.h == n.e)
    &&& (n.i_present() ==> n.i == n.e)
}

/// Scaling a flat-colored neighborhood reproduces the center's color in all
/// nine output pixels; in particular a uniform neighborhood (all nine values
/// equal) scales to a uniform block.
pub proof fn lemma_scale3x_flat(n: Neighborhood)
    requires
        flat(n),
    ensures
        forall|dx: int, dy: int|
            0 <= dx < 3 && 0 <= dy < 3 ==> spec_out_px(n, dx, dy) == n.e,
{
}

} // verus!
