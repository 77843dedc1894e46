//! Parameter payloads of the engine's window commands, composed as the JSON
//! texts that go out in a call, keys in the order a sorted-map serializer
//! emits them.
use vstd::prelude::*;

use crate::text::{dec_rep, dec_rep_int, i32_to_dec, u64_to_dec};

verus! {

/// The payload of a viewport resize.
pub open spec fn resize_params_text(width: u32, height: u32) -> Seq<char> {
    ("{\"height\":")@ + dec_rep(height as nat) + (",\"width\":")@ + dec_rep(width as nat) + ("}")@
}

/// Compose the parameters of a viewport resize.
pub fn resize_params(width: u32, height: u32) -> (r: String)
    ensures
        r@ == resize_params_text(width, height),
{
    let mut s = String::from_str("{\"height\":");
    let h = u64_to_dec(height as u64);
    s.append(h.as_str());
    s.append(",\"width\":");
    let w = u64_to_dec(width as u64);
    s.append(w.as_str());
    s.append("}");
    proof {
        assert(s@ =~= resize_params_text(width, height));
    }
    s
}

/// The payload that places the engine window.
pub open spec fn bounds_params_text(x: i32, y: i32, width: u32, height: u32) -> Seq<char> {
    ("{\"height\":")@ + dec_rep(height as nat) + (",\"width\":")@ + dec_rep(width as nat) + (
    ",\"x\":")@ + dec_rep_int(x as int) + (",\"y\":")@ + dec_rep_int(y as int) + ("}")@
}

/// Compose the parameters that place the engine window.
pub fn bounds_params(x: i32, y: i32, width: u32, height: u32) -> (r: String)
    ensures
        r@ == bounds_params_text(x, y, width, height),
{
    let mut s = String::from_str("{\"height\":");
    let h = u64_to_dec(height as u64);
    s.append(h.as_str());
    s.append(",\"width\":");
    let w = u64_to_dec(width as u64);
    s.append(w.as_str());
    s.append(",\"x\":");
    let xs = i32_to_dec(x);
    s.append(xs.as_str());
    s.append(",\"y\":");
    let ys = i32_to_dec(y);
    s.append(ys.as_str());
    s.append("}");
    proof {
        assert(s@ =~= bounds_params_text(x, y, width, height));
    }
    s
}

/// The payload that hands the engine its owner window.
pub open spec fn owner_params_text(hwnd: u64) -> Seq<char> {
    ("{\"hwnd\":")@ + dec_rep(hwnd as nat) + ("}")@
}

/// Compose the parameters that hand the engine its owner window.
pub fn owner_params(hwnd: u64) -> (r: String)
    ensures
        r@ == owner_params_text(hwnd),
{
    let mut s = String::from_str("{\"hwnd\":");
    let h = u64_to_dec(hwnd);
    s.append(h.as_str());
    s.append("}");
    proof {
        assert(s@ =~= owner_params_text(hwnd));
    }
    s
}

/// The payload of the low-latency follow mode.
pub open spec fn follow_params_text(
    follow: bool,
    offset_x: i32,
    offset_y: i32,
    width: u32,
    height: u32,
) -> Seq<char> {
    ("{\"follow\":")@ + (if follow {
        ("true")@
    } else {
        ("false")@
    }) + (",\"height\":")@ + dec_rep(height as nat) + (",\"offset_x\":")@ + dec_rep_int(
        offset_x as int,
    ) + (",\"offset_y\":")@ + dec_rep_int(offset_y as int) + (",\"width\":")@ + dec_rep(
        width as nat,
    ) + ("}")@
}

/// Compose the parameters of the low-latency follow mode.
pub fn follow_params(follow: bool, offset_x: i32, offset_y: i32, width: u32, height: u32) -> (r:
    String)
    ensures
        r@ == follow_params_text(follow, offset_x, offset_y, width, height),
{
    let mut s = String::from_str("{\"follow\":");
    if follow {
        s.append("true");
    } else {
        s.append("false");
    }
    s.append(",\"height\":");
    let h = u64_to_dec(height as u64);
    s.append(h.as_str());
    s.append(",\"offset_x\":");
    let ox = i32_to_dec(offset_x);
    s.append(ox.as_str());
    s.append(",\"offset_y\":");
    let oy = i32_to_dec(offset_y);
    s.append(oy.as_str());
    s.append(",\"width\":");
    let w = u64_to_dec(width as u64);
    s.append(w.as_str());
    s.append("}");
    proof {
        assert(s@ =~= follow_params_text(follow, offset_x, offset_y, width, height));
    }
    s
}

/// The empty parameter payload of queries that take none.
pub fn empty_params() -> (r: String)
    ensures
        r@ == ("{}")@,
{
    String::from_str("{}")
}

} // verus!
