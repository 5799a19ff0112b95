//! The screen area that pop-ups are placed in.

use vstd::prelude::*;

verus! {

/// A rectangle of the screen in physical pixels: left, top, right, bottom.
#[derive(Clone, Copy, Debug)]
pub struct Area {
    pub l: i32,
    pub t: i32,
    pub r: i32,
    pub b: i32,
}

/// The work area from what the system reported: its rectangle when the call
/// succeeded and the rectangle is not empty, else the whole screen.
pub fn choose_work_area(reported: Option<Area>, screen_w: i32, screen_h: i32) -> (a: Area)
    ensures
        match reported {
            Some(r) => if r.r > r.l && r.b > r.t {
                a == r
            } else {
                a.l == 0 && a.t == 0 && a.r == screen_w && a.b == screen_h
            },
            None => a.l == 0 && a.t == 0 && a.r == screen_w && a.b == screen_h,
        },
{
    match reported {
        Some(r) => if r.r > r.l && r.b > r.t {
            r
        } else {
            Area { l: 0, t: 0, r: screen_w, b: screen_h }
        },
        None => Area { l: 0, t: 0, r: screen_w, b: screen_h },
    }
}

/// The work area assumed where the system is not asked for it: a 1920×1080
/// screen less a 40-pixel task bar.
pub fn work_area() -> (a: Area)
    ensures
        a.l == 0 && a.t == 0 && a.r == 1920 && a.b == 1040,
{
    Area { l: 0, t: 0, r: 1920, b: 1040 }
}

} // verus!
