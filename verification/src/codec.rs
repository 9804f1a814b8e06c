//! Binary encoding and decoding of wire messages.
//!
//! The format is deterministic and self-describing: a variant tag precedes
//! each payload, multi-byte integers are big-endian, and one frame carries
//! exactly one message. Encoding is specified by the `senc_*` spec functions;
//! decoding by the `sdec_*` spec functions, which read at a position and
//! return the value with the position after it. Decoding an encoded message
//! yields the original message (`lemma_codec_round_trip`).

use vstd::prelude::*;
use crate::art::{Animate, Appearance, PlayerAnimationController, Tile};
use crate::controls::{Camera, Heading};
use crate::dead::Dead;
use crate::geom::{Hitbox, Pos};
use crate::item::{
    Deposition, DropRequest, InvModel, Inventory, Item, PickupRequest, SlotIndex,
};
use crate::msg::{
    CompModel, LocalPlayer, MsgModel, NetComponent, NetMessage, SpawnPlayer, UpdatePosition,
    wf_comp, wf_msg, wf_slot_index,
};

verus! {

// ---------------------------------------------------------------------------
// primitives
// ---------------------------------------------------------------------------
pub open spec fn senc_u8(x: u8) -> Seq<u8> {
    seq![x]
}

pub open spec fn sdec_u8(s: Seq<u8>, i: int) -> Option<(u8, int)> {
    if 0 <= i && i + 1 <= s.len() {
        Some((s[i], i + 1))
    } else {
        None
    }
}

pub open spec fn senc_u32(x: u32) -> Seq<u8> {
    seq![
        ((x / 0x1000000) % 0x100) as u8,
        ((x / 0x10000) % 0x100) as u8,
        ((x / 0x100) % 0x100) as u8,
        (x % 0x100) as u8,
    ]
}

pub open spec fn combine_u32(a: u8, b: u8, c: u8, d: u8) -> u32 {
    (a * 0x1000000 + b * 0x10000 + c * 0x100 + d) as u32
}

pub open spec fn sdec_u32(s: Seq<u8>, i: int) -> Option<(u32, int)> {
    if 0 <= i && i + 4 <= s.len() {
        Some((combine_u32(s[i], s[i + 1], s[i + 2], s[i + 3]), i + 4))
    } else {
        None
    }
}

pub open spec fn senc_u64(x: u64) -> Seq<u8> {
    senc_u32((x / 0x100000000) as u32) + senc_u32((x % 0x100000000) as u32)
}

pub open spec fn combine_u64(hi: u32, lo: u32) -> u64 {
    (hi * 0x100000000 + lo) as u64
}

pub open spec fn sdec_u64(s: Seq<u8>, i: int) -> Option<(u64, int)> {
    match sdec_u32(s, i) {
        Some((hi, j)) => match sdec_u32(s, j) {
            Some((lo, k)) => Some((combine_u64(hi, lo), k)),
            None => None,
        },
        None => None,
    }
}

/// The two's-complement image of a signed 32-bit value.
pub open spec fn i32_to_u32(x: i32) -> u32 {
    if x >= 0 {
        x as u32
    } else {
        (x + 0x100000000) as u32
    }
}

pub open spec fn u32_to_i32(v: u32) -> i32 {
    if v < 0x80000000 {
        v as i32
    } else {
        (v - 0x100000000) as i32
    }
}

pub open spec fn senc_i32(x: i32) -> Seq<u8> {
    senc_u32(i32_to_u32(x))
}

pub open spec fn sdec_i32(s: Seq<u8>, i: int) -> Option<(i32, int)> {
    match sdec_u32(s, i) {
        Some((v, j)) => Some((u32_to_i32(v), j)),
        None => None,
    }
}

pub open spec fn senc_opt_u32(o: Option<u32>) -> Seq<u8> {
    match o {
        None => seq![0u8],
        Some(v) => seq![1u8] + senc_u32(v),
    }
}

pub open spec fn sdec_opt_u32(s: Seq<u8>, i: int) -> Option<(Option<u32>, int)> {
    match sdec_u8(s, i) {
        Some((tag, j)) => if tag == 0 {
            Some((None, j))
        } else if tag == 1 {
            match sdec_u32(s, j) {
                Some((v, k)) => Some((Some(v), k)),
                None => None,
            }
        } else {
            None
        },
        None => None,
    }
}

// ---------------------------------------------------------------------------
// primitive round trips
// ---------------------------------------------------------------------------
proof fn lemma_rt_u8(pre: Seq<u8>, x: u8, post: Seq<u8>)
    ensures
        sdec_u8(pre + senc_u8(x) + post, pre.len() as int) == Some((x, pre.len() as int + 1)),
{
    let s = pre + senc_u8(x) + post;
    assert(s[pre.len() as int] == x);
}

proof fn lemma_u32_split_combine(x: u32)
    ensures
        combine_u32(
            ((x / 0x1000000) % 0x100) as u8,
            ((x / 0x10000) % 0x100) as u8,
            ((x / 0x100) % 0x100) as u8,
            (x % 0x100) as u8,
        ) == x,
{
    assert(((x / 0x1000000) % 0x100) * 0x1000000 + ((x / 0x10000) % 0x100) * 0x10000 + ((x
        / 0x100) % 0x100) * 0x100 + (x % 0x100) == x) by (nonlinear_arith)
        requires
            x < 0x100000000,
    ;
}

proof fn lemma_rt_u32(pre: Seq<u8>, x: u32, post: Seq<u8>)
    ensures
        sdec_u32(pre + senc_u32(x) + post, pre.len() as int) == Some((x, pre.len() as int + 4)),
{
    let s = pre + senc_u32(x) + post;
    let n = pre.len() as int;
    assert(s[n] == senc_u32(x)[0] && s[n + 1] == senc_u32(x)[1] && s[n + 2] == senc_u32(x)[2] && s[n
        + 3] == senc_u32(x)[3]);
    lemma_u32_split_combine(x);
}

proof fn lemma_rt_u64(pre: Seq<u8>, x: u64, post: Seq<u8>)
    ensures
        sdec_u64(pre + senc_u64(x) + post, pre.len() as int) == Some((x, pre.len() as int + 8)),
{
    let hi = (x / 0x100000000) as u32;
    let lo = (x % 0x100000000) as u32;
    let s = pre + senc_u64(x) + post;
    assert(s =~= pre + senc_u32(hi) + (senc_u32(lo) + post));
    lemma_rt_u32(pre, hi, senc_u32(lo) + post);
    assert(s =~= (pre + senc_u32(hi)) + senc_u32(lo) + post);
    lemma_rt_u32(pre + senc_u32(hi), lo, post);
    assert(hi * 0x100000000 + lo == x) by (nonlinear_arith)
        requires
            hi == x / 0x100000000,
            lo == x % 0x100000000,
            x < 0x10000000000000000,
    ;
}

proof fn lemma_rt_i32(pre: Seq<u8>, x: i32, post: Seq<u8>)
    ensures
        sdec_i32(pre + senc_i32(x) + post, pre.len() as int) == Some((x, pre.len() as int + 4)),
{
    lemma_rt_u32(pre, i32_to_u32(x), post);
}

proof fn lemma_rt_opt_u32(pre: Seq<u8>, o: Option<u32>, post: Seq<u8>)
    ensures
        sdec_opt_u32(pre + senc_opt_u32(o) + post, pre.len() as int) == Some(
            (o, pre.len() as int + senc_opt_u32(o).len()),
        ),
{
    let s = pre + senc_opt_u32(o) + post;
    match o {
        None => {
            assert(s =~= pre + senc_u8(0u8) + post);
            lemma_rt_u8(pre, 0u8, post);
        },
        Some(v) => {
            assert(s =~= pre + senc_u8(1u8) + (senc_u32(v) + post));
            lemma_rt_u8(pre, 1u8, senc_u32(v) + post);
            assert(s =~= (pre + senc_u8(1u8)) + senc_u32(v) + post);
            lemma_rt_u32(pre + senc_u8(1u8), v, post);
        },
    }
}

// ---------------------------------------------------------------------------
// primitive executable encoders and decoders
// ---------------------------------------------------------------------------
fn enc_u8(out: &mut Vec<u8>, x: u8)
    ensures
        final(out)@ == old(out)@ + senc_u8(x),
{
    out.push(x);
    assert(out@ =~= old(out)@ + senc_u8(x));
}

fn enc_u32(out: &mut Vec<u8>, x: u32)
    ensures
        final(out)@ == old(out)@ + senc_u32(x),
{
    out.push(((x / 0x1000000) % 0x100) as u8);
    out.push(((x / 0x10000) % 0x100) as u8);
    out.push(((x / 0x100) % 0x100) as u8);
    out.push((x % 0x100) as u8);
    assert(out@ =~= old(out)@ + senc_u32(x));
}

fn enc_u64(out: &mut Vec<u8>, x: u64)
    ensures
        final(out)@ == old(out)@ + senc_u64(x),
{
    enc_u32(out, (x / 0x100000000) as u32);
    enc_u32(out, (x % 0x100000000) as u32);
    assert(out@ =~= old(out)@ + senc_u64(x));
}

fn enc_i32(out: &mut Vec<u8>, x: i32)
    ensures
        final(out)@ == old(out)@ + senc_i32(x),
{
    let v: u32 = if x >= 0 {
        x as u32
    } else {
        ((x as i64) + 0x100000000i64) as u32
    };
    enc_u32(out, v);
}

fn enc_opt_u32(out: &mut Vec<u8>, o: &Option<u32>)
    ensures
        final(out)@ == old(out)@ + senc_opt_u32(*o),
{
    match o {
        None => {
            enc_u8(out, 0);
        },
        Some(v) => {
            enc_u8(out, 1);
            enc_u32(out, *v);
            assert(out@ =~= old(out)@ + senc_opt_u32(*o));
        },
    }
}

fn dec_u8(data: &Vec<u8>, pos: usize) -> (r: Option<(u8, usize)>)
    ensures
        match sdec_u8(data@, pos as int) {
            Some((v, j)) => r matches Some(rr) && rr.0 == v && rr.1 == j,
            None => r is None,
        },
{
    if pos < data.len() {
        Some((data[pos], pos + 1))
    } else {
        None
    }
}

fn dec_u32(data: &Vec<u8>, pos: usize) -> (r: Option<(u32, usize)>)
    ensures
        match sdec_u32(data@, pos as int) {
            Some((v, j)) => r matches Some(rr) && rr.0 == v && rr.1 == j,
            None => r is None,
        },
{
    if pos < data.len() && data.len() - pos >= 4 {
        let a = data[pos] as u32;
        let b = data[pos + 1] as u32;
        let c = data[pos + 2] as u32;
        let d = data[pos + 3] as u32;
        Some((a * 0x1000000 + b * 0x10000 + c * 0x100 + d, pos + 4))
    } else {
        None
    }
}

fn dec_u64(data: &Vec<u8>, pos: usize) -> (r: Option<(u64, usize)>)
    ensures
        match sdec_u64(data@, pos as int) {
            Some((v, j)) => r matches Some(rr) && rr.0 == v && rr.1 == j,
            None => r is None,
        },
{
    match dec_u32(data, pos) {
        Some((hi, j)) => match dec_u32(data, j) {
            Some((lo, k)) => Some(((hi as u64) * 0x100000000 + (lo as u64), k)),
            None => None,
        },
        None => None,
    }
}

fn dec_i32(data: &Vec<u8>, pos: usize) -> (r: Option<(i32, usize)>)
    ensures
        match sdec_i32(data@, pos as int) {
            Some((v, j)) => r matches Some(rr) && rr.0 == v && rr.1 == j,
            None => r is None,
        },
{
    match dec_u32(data, pos) {
        Some((v, j)) => {
            let x: i32 = if v < 0x80000000 {
                v as i32
            } else {
                ((v as i64) - 0x100000000i64) as i32
            };
            Some((x, j))
        },
        None => None,
    }
}

fn dec_opt_u32(data: &Vec<u8>, pos: usize) -> (r: Option<(Option<u32>, usize)>)
    ensures
        match sdec_opt_u32(data@, pos as int) {
            Some((v, j)) => r matches Some(rr) && rr.0 == v && rr.1 == j,
            None => r is None,
        },
{
    match dec_u8(data, pos) {
        Some((tag, j)) => {
            if tag == 0 {
                Some((None, j))
            } else if tag == 1 {
                match dec_u32(data, j) {
                    Some((v, k)) => Some((Some(v), k)),
                    None => None,
                }
            } else {
                None
            }
        },
        None => None,
    }
}

// ---------------------------------------------------------------------------
// small payload types
// ---------------------------------------------------------------------------
pub open spec fn item_tag(it: Item) -> u8 {
    match it {
        Item::Weapon => 0u8,
        Item::Misc => 1u8,
    }
}

pub open spec fn senc_item(it: Item) -> Seq<u8> {
    seq![item_tag(it)]
}

pub open spec fn sdec_item(s: Seq<u8>, i: int) -> Option<(Item, int)> {
    match sdec_u8(s, i) {
        Some((tag, j)) => if tag == 0 {
            Some((Item::Weapon, j))
        } else if tag == 1 {
            Some((Item::Misc, j))
        } else {
            None
        },
        None => None,
    }
}

pub open spec fn appearance_tag(a: Appearance) -> u8 {
    match a {
        Appearance::Rock => 0u8,
        Appearance::SpottedRock => 1u8,
        Appearance::RockHole => 2u8,
        Appearance::GleamyStalagmite => 3u8,
        Appearance::Player => 4u8,
    }
}

pub open spec fn senc_appearance(a: Appearance) -> Seq<u8> {
    seq![appearance_tag(a)]
}

pub open spec fn sdec_appearance(s: Seq<u8>, i: int) -> Option<(Appearance, int)> {
    match sdec_u8(s, i) {
        Some((tag, j)) => if tag == 0 {
            Some((Appearance::Rock, j))
        } else if tag == 1 {
            Some((Appearance::SpottedRock, j))
        } else if tag == 2 {
            Some((Appearance::RockHole, j))
        } else if tag == 3 {
            Some((Appearance::GleamyStalagmite, j))
        } else if tag == 4 {
            Some((Appearance::Player, j))
        } else {
            None
        },
        None => None,
    }
}

pub open spec fn senc_slot_index(idx: SlotIndex) -> Seq<u8> {
    match idx {
        SlotIndex::Reserved(it) => seq![0u8] + senc_item(it),
        SlotIndex::Loose(r, c) => seq![1u8] + senc_u32(r as u32) + senc_u32(c as u32),
    }
}

pub open spec fn sdec_slot_index(s: Seq<u8>, i: int) -> Option<(SlotIndex, int)> {
    match sdec_u8(s, i) {
        Some((tag, j)) => if tag == 0 {
            match sdec_item(s, j) {
                Some((it, k)) => Some((SlotIndex::Reserved(it), k)),
                None => None,
            }
        } else if tag == 1 {
            match sdec_u32(s, j) {
                Some((r, k)) => match sdec_u32(s, k) {
                    Some((c, l)) => Some((SlotIndex::Loose(r as usize, c as usize), l)),
                    None => None,
                },
                None => None,
            }
        } else {
            None
        },
        None => None,
    }
}

pub open spec fn senc_pos(p: Pos) -> Seq<u8> {
    senc_i32(p.x) + senc_i32(p.y) + senc_i32(p.rot)
}

pub open spec fn sdec_pos(s: Seq<u8>, i: int) -> Option<(Pos, int)> {
    match sdec_i32(s, i) {
        Some((x, j)) => match sdec_i32(s, j) {
            Some((y, k)) => match sdec_i32(s, k) {
                Some((rot, l)) => Some((Pos { x, y, rot }, l)),
                None => None,
            },
            None => None,
        },
        None => None,
    }
}

pub open spec fn senc_heading(h: Heading) -> Seq<u8> {
    senc_i32(h.dx) + senc_i32(h.dy)
}

pub open spec fn sdec_heading(s: Seq<u8>, i: int) -> Option<(Heading, int)> {
    match sdec_i32(s, i) {
        Some((dx, j)) => match sdec_i32(s, j) {
            Some((dy, k)) => Some((Heading { dx, dy }, k)),
            None => None,
        },
        None => None,
    }
}

pub open spec fn senc_hitbox(h: Hitbox) -> Seq<u8> {
    senc_i32(h.half_w) + senc_i32(h.half_h)
}

pub open spec fn sdec_hitbox(s: Seq<u8>, i: int) -> Option<(Hitbox, int)> {
    match sdec_i32(s, i) {
        Some((w, j)) => match sdec_i32(s, j) {
            Some((h, k)) => Some((Hitbox { half_w: w, half_h: h }, k)),
            None => None,
        },
        None => None,
    }
}

pub open spec fn senc_animate(a: Animate) -> Seq<u8> {
    senc_u32(a.current_frame) + senc_u32(a.row)
}

pub open spec fn sdec_animate(s: Seq<u8>, i: int) -> Option<(Animate, int)> {
    match sdec_u32(s, i) {
        Some((f, j)) => match sdec_u32(s, j) {
            Some((row, k)) => Some((Animate { current_frame: f, row }, k)),
            None => None,
        },
        None => None,
    }
}

pub open spec fn senc_update_position(u: UpdatePosition) -> Seq<u8> {
    senc_pos(u.pos) + senc_u64(u.time_stamp_ms)
}

pub open spec fn sdec_update_position(s: Seq<u8>, i: int) -> Option<(UpdatePosition, int)> {
    match sdec_pos(s, i) {
        Some((p, j)) => match sdec_u64(s, j) {
            Some((t, k)) => Some((UpdatePosition { pos: p, time_stamp_ms: t }, k)),
            None => None,
        },
        None => None,
    }
}

// ---------------------------------------------------------------------------
// small payload round trips
// ---------------------------------------------------------------------------
proof fn lemma_rt_item(pre: Seq<u8>, it: Item, post: Seq<u8>)
    ensures
        sdec_item(pre + senc_item(it) + post, pre.len() as int) == Some((it, pre.len() as int + 1)),
{
    lemma_rt_u8(pre, item_tag(it), post);
}

proof fn lemma_rt_appearance(pre: Seq<u8>, a: Appearance, post: Seq<u8>)
    ensures
        sdec_appearance(pre + senc_appearance(a) + post, pre.len() as int) == Some(
            (a, pre.len() as int + 1),
        ),
{
    lemma_rt_u8(pre, appearance_tag(a), post);
}

proof fn lemma_rt_slot_index(pre: Seq<u8>, idx: SlotIndex, post: Seq<u8>)
    requires
        wf_slot_index(idx),
    ensures
        sdec_slot_index(pre + senc_slot_index(idx) + post, pre.len() as int) == Some(
            (idx, pre.len() as int + senc_slot_index(idx).len()),
        ),
{
    let s = pre + senc_slot_index(idx) + post;
    match idx {
        SlotIndex::Reserved(it) => {
            assert(s =~= pre + senc_u8(0u8) + (senc_item(it) + post));
            lemma_rt_u8(pre, 0u8, senc_item(it) + post);
            assert(s =~= (pre + senc_u8(0u8)) + senc_item(it) + post);
            lemma_rt_item(pre + senc_u8(0u8), it, post);
        },
        SlotIndex::Loose(r, c) => {
            let er = senc_u32(r as u32);
            let ec = senc_u32(c as u32);
            assert(s =~= pre + senc_u8(1u8) + (er + ec + post));
            lemma_rt_u8(pre, 1u8, er + ec + post);
            assert(s =~= (pre + senc_u8(1u8)) + er + (ec + post));
            lemma_rt_u32(pre + senc_u8(1u8), r as u32, ec + post);
            assert(s =~= ((pre + senc_u8(1u8)) + er) + ec + post);
            lemma_rt_u32((pre + senc_u8(1u8)) + er, c as u32, post);
        },
    }
}

proof fn lemma_rt_pos(pre: Seq<u8>, p: Pos, post: Seq<u8>)
    ensures
        sdec_pos(pre + senc_pos(p) + post, pre.len() as int) == Some((p, pre.len() as int + 12)),
{
    let s = pre + senc_pos(p) + post;
    let e1 = senc_i32(p.x);
    let e2 = senc_i32(p.y);
    let e3 = senc_i32(p.rot);
    assert(s =~= pre + e1 + (e2 + e3 + post));
    lemma_rt_i32(pre, p.x, e2 + e3 + post);
    assert(s =~= (pre + e1) + e2 + (e3 + post));
    lemma_rt_i32(pre + e1, p.y, e3 + post);
    assert(s =~= ((pre + e1) + e2) + e3 + post);
    lemma_rt_i32((pre + e1) + e2, p.rot, post);
}

proof fn lemma_rt_heading(pre: Seq<u8>, h: Heading, post: Seq<u8>)
    ensures
        sdec_heading(pre + senc_heading(h) + post, pre.len() as int) == Some(
            (h, pre.len() as int + 8),
        ),
{
    let s = pre + senc_heading(h) + post;
    let e1 = senc_i32(h.dx);
    let e2 = senc_i32(h.dy);
    assert(s =~= pre + e1 + (e2 + post));
    lemma_rt_i32(pre, h.dx, e2 + post);
    assert(s =~= (pre + e1) + e2 + post);
    lemma_rt_i32(pre + e1, h.dy, post);
}

proof fn lemma_rt_hitbox(pre: Seq<u8>, h: Hitbox, post: Seq<u8>)
    ensures
        sdec_hitbox(pre + senc_hitbox(h) + post, pre.len() as int) == Some(
            (h, pre.len() as int + 8),
        ),
{
    let s = pre + senc_hitbox(h) + post;
    let e1 = senc_i32(h.half_w);
    let e2 = senc_i32(h.half_h);
    assert(s =~= pre + e1 + (e2 + post));
    lemma_rt_i32(pre, h.half_w, e2 + post);
    assert(s =~= (pre + e1) + e2 + post);
    lemma_rt_i32(pre + e1, h.half_h, post);
}

proof fn lemma_rt_animate(pre: Seq<u8>, a: Animate, post: Seq<u8>)
    ensures
        sdec_animate(pre + senc_animate(a) + post, pre.len() as int) == Some(
            (a, pre.len() as int + 8),
        ),
{
    let s = pre + senc_animate(a) + post;
    let e1 = senc_u32(a.current_frame);
    let e2 = senc_u32(a.row);
    assert(s =~= pre + e1 + (e2 + post));
    lemma_rt_u32(pre, a.current_frame, e2 + post);
    assert(s =~= (pre + e1) + e2 + post);
    lemma_rt_u32(pre + e1, a.row, post);
}

#[verifier::rlimit(50)]
proof fn lemma_rt_update_position(pre: Seq<u8>, u: UpdatePosition, post: Seq<u8>)
    ensures
        sdec_update_position(pre + senc_update_position(u) + post, pre.len() as int) == Some(
            (u, pre.len() as int + 20),
        ),
{
    let s = pre + senc_update_position(u) + post;
    let e1 = senc_pos(u.pos);
    let e2 = senc_u64(u.time_stamp_ms);
    assert(s =~= pre + e1 + (e2 + post));
    lemma_rt_pos(pre, u.pos, e2 + post);
    assert(s =~= (pre + e1) + e2 + post);
    lemma_rt_u64(pre + e1, u.time_stamp_ms, post);
}

// ---------------------------------------------------------------------------
// the inventory payload: dimensions, reserved pairs, loose occupants
// ---------------------------------------------------------------------------
pub open spec fn senc_pair(p: (Item, Option<u32>)) -> Seq<u8> {
    senc_item(p.0) + senc_opt_u32(p.1)
}

pub open spec fn sdec_pair(s: Seq<u8>, i: int) -> Option<((Item, Option<u32>), int)> {
    match sdec_item(s, i) {
        Some((it, j)) => match sdec_opt_u32(s, j) {
            Some((o, k)) => Some(((it, o), k)),
            None => None,
        },
        None => None,
    }
}

pub open spec fn senc_pairs(entries: Seq<(Item, Option<u32>)>) -> Seq<u8>
    decreases entries.len(),
{
    if entries.len() == 0 {
        Seq::empty()
    } else {
        senc_pair(entries[0]) + senc_pairs(entries.drop_first())
    }
}

pub open spec fn sdec_pairs(s: Seq<u8>, i: int, count: nat) -> Option<
    (Seq<(Item, Option<u32>)>, int),
>
    decreases count,
{
    if count == 0 {
        Some((Seq::empty(), i))
    } else {
        match sdec_pair(s, i) {
            Some((p, j)) => match sdec_pairs(s, j, (count - 1) as nat) {
                Some((ps, k)) => Some((seq![p] + ps, k)),
                None => None,
            },
            None => None,
        }
    }
}

pub open spec fn senc_slots(entries: Seq<Option<u32>>) -> Seq<u8>
    decreases entries.len(),
{
    if entries.len() == 0 {
        Seq::empty()
    } else {
        senc_opt_u32(entries[0]) + senc_slots(entries.drop_first())
    }
}

pub open spec fn sdec_slots(s: Seq<u8>, i: int, count: nat) -> Option<(Seq<Option<u32>>, int)>
    decreases count,
{
    if count == 0 {
        Some((Seq::empty(), i))
    } else {
        match sdec_opt_u32(s, i) {
            Some((o, j)) => match sdec_slots(s, j, (count - 1) as nat) {
                Some((os, k)) => Some((seq![o] + os, k)),
                None => None,
            },
            None => None,
        }
    }
}

/// No two reserved entries share a kind.
pub open spec fn distinct_kinds(entries: Seq<(Item, Option<u32>)>) -> bool {
    forall|i: int, j: int|
        0 <= i < j < entries.len() ==> (#[trigger] entries[i]).0 != (#[trigger] entries[j]).0
}

pub open spec fn senc_inventory(m: InvModel) -> Seq<u8> {
    senc_u32(m.rows as u32) + senc_u32(m.cols as u32) + senc_u32(m.reserved.len() as u32)
        + senc_pairs(m.reserved) + senc_slots(m.loose)
}

pub open spec fn sdec_inventory(s: Seq<u8>, i: int) -> Option<(InvModel, int)> {
    match sdec_u32(s, i) {
        Some((rows, j1)) => if rows >= 0x10000 {
            None
        } else {
            match sdec_u32(s, j1) {
                Some((cols, j2)) => if cols >= 0x10000 {
                    None
                } else {
                    match sdec_u32(s, j2) {
                        Some((rcount, j3)) => if rcount > 0xffff {
                            None
                        } else {
                            match sdec_pairs(s, j3, rcount as nat) {
                                Some((reserved, j4)) => if !distinct_kinds(reserved) {
                                    None
                                } else {
                                    match sdec_slots(s, j4, (rows * cols) as nat) {
                                        Some((loose, j5)) => Some(
                                            (
                                                InvModel {
                                                    reserved,
                                                    rows: rows as nat,
                                                    cols: cols as nat,
                                                    loose,
                                                },
                                                j5,
                                            ),
                                        ),
                                        None => None,
                                    }
                                },
                                None => None,
                            }
                        },
                        None => None,
                    }
                },
                None => None,
            }
        },
        None => None,
    }
}

proof fn lemma_rt_pair(pre: Seq<u8>, p: (Item, Option<u32>), post: Seq<u8>)
    ensures
        sdec_pair(pre + senc_pair(p) + post, pre.len() as int) == Some(
            (p, pre.len() as int + senc_pair(p).len()),
        ),
{
    let s = pre + senc_pair(p) + post;
    assert(s =~= pre + senc_item(p.0) + (senc_opt_u32(p.1) + post));
    lemma_rt_item(pre, p.0, senc_opt_u32(p.1) + post);
    assert(s =~= (pre + senc_item(p.0)) + senc_opt_u32(p.1) + post);
    lemma_rt_opt_u32(pre + senc_item(p.0), p.1, post);
}

proof fn lemma_rt_pairs(pre: Seq<u8>, entries: Seq<(Item, Option<u32>)>, post: Seq<u8>)
    ensures
        sdec_pairs(pre + senc_pairs(entries) + post, pre.len() as int, entries.len()) == Some(
            (entries, pre.len() as int + senc_pairs(entries).len()),
        ),
    decreases entries.len(),
{
    let s = pre + senc_pairs(entries) + post;
    if entries.len() == 0 {
        assert(s =~= pre + post);
        assert(entries =~= Seq::<(Item, Option<u32>)>::empty());
    } else {
        let e0 = senc_pair(entries[0]);
        let rest = senc_pairs(entries.drop_first());
        assert(s =~= pre + e0 + (rest + post));
        lemma_rt_pair(pre, entries[0], rest + post);
        assert(s =~= (pre + e0) + rest + post);
        lemma_rt_pairs(pre + e0, entries.drop_first(), post);
        assert(seq![entries[0]] + entries.drop_first() =~= entries);
    }
}

proof fn lemma_rt_slots(pre: Seq<u8>, entries: Seq<Option<u32>>, post: Seq<u8>)
    ensures
        sdec_slots(pre + senc_slots(entries) + post, pre.len() as int, entries.len()) == Some(
            (entries, pre.len() as int + senc_slots(entries).len()),
        ),
    decreases entries.len(),
{
    let s = pre + senc_slots(entries) + post;
    if entries.len() == 0 {
        assert(s =~= pre + post);
        assert(entries =~= Seq::<Option<u32>>::empty());
    } else {
        let e0 = senc_opt_u32(entries[0]);
        let rest = senc_slots(entries.drop_first());
        assert(s =~= pre + e0 + (rest + post));
        lemma_rt_opt_u32(pre, entries[0], rest + post);
        assert(s =~= (pre + e0) + rest + post);
        lemma_rt_slots(pre + e0, entries.drop_first(), post);
        assert(seq![entries[0]] + entries.drop_first() =~= entries);
    }
}

#[verifier::rlimit(100)]
proof fn lemma_rt_inventory(pre: Seq<u8>, m: InvModel, post: Seq<u8>)
    requires
        m.wf(),
    ensures
        sdec_inventory(pre + senc_inventory(m) + post, pre.len() as int) == Some(
            (m, pre.len() as int + senc_inventory(m).len()),
        ),
{
    let s = pre + senc_inventory(m) + post;
    let e1 = senc_u32(m.rows as u32);
    let e2 = senc_u32(m.cols as u32);
    let e3 = senc_u32(m.reserved.len() as u32);
    let e4 = senc_pairs(m.reserved);
    let e5 = senc_slots(m.loose);
    assert(s =~= pre + e1 + (e2 + e3 + e4 + e5 + post));
    lemma_rt_u32(pre, m.rows as u32, e2 + e3 + e4 + e5 + post);
    assert(s =~= (pre + e1) + e2 + (e3 + e4 + e5 + post));
    lemma_rt_u32(pre + e1, m.cols as u32, e3 + e4 + e5 + post);
    assert(s =~= ((pre + e1) + e2) + e3 + (e4 + e5 + post));
    lemma_rt_u32((pre + e1) + e2, m.reserved.len() as u32, e4 + e5 + post);
    assert(s =~= (((pre + e1) + e2) + e3) + e4 + (e5 + post));
    lemma_rt_pairs((((pre + e1) + e2) + e3), m.reserved, e5 + post);
    assert(s =~= ((((pre + e1) + e2) + e3) + e4) + e5 + post);
    lemma_rt_slots(((((pre + e1) + e2) + e3) + e4), m.loose, post);
    assert(m.loose.len() == (m.rows as u32) * (m.cols as u32)) by (nonlinear_arith)
        requires
            m.rows < 0x10000,
            m.cols < 0x10000,
            m.loose.len() == m.rows * m.cols,
    ;
    assert(sdec_inventory(s, pre.len() as int) matches Some((m2, j)) && m2 =~= m && j == pre.len()
        + senc_inventory(m).len());
}

// ---------------------------------------------------------------------------
// component payloads and the message envelope
// ---------------------------------------------------------------------------
pub open spec fn comp_tag(c: CompModel) -> u8 {
    match c {
        CompModel::Appearance(_) => 0u8,
        CompModel::Tile => 1u8,
        CompModel::Animate(_) => 2u8,
        CompModel::PlayerAnimationController => 3u8,
        CompModel::Pos(_) => 4u8,
        CompModel::Hitbox(_) => 5u8,
        CompModel::Dead => 6u8,
        CompModel::UpdatePosition(_) => 7u8,
        CompModel::SpawnPlayer => 8u8,
        CompModel::LocalPlayer => 9u8,
        CompModel::Heading(_) => 10u8,
        CompModel::Camera => 11u8,
        CompModel::Item(_) => 12u8,
        CompModel::Inventory(_) => 13u8,
        CompModel::Deposition => 14u8,
        CompModel::PickupRequest(_) => 15u8,
        CompModel::DropRequest(_) => 16u8,
    }
}

pub open spec fn senc_comp(c: CompModel) -> Seq<u8> {
    seq![comp_tag(c)] + match c {
        CompModel::Appearance(a) => senc_appearance(a),
        CompModel::Tile => Seq::empty(),
        CompModel::Animate(a) => senc_animate(a),
        CompModel::PlayerAnimationController => Seq::empty(),
        CompModel::Pos(p) => senc_pos(p),
        CompModel::Hitbox(h) => senc_hitbox(h),
        CompModel::Dead => Seq::empty(),
        CompModel::UpdatePosition(u) => senc_update_position(u),
        CompModel::SpawnPlayer => Seq::empty(),
        CompModel::LocalPlayer => Seq::empty(),
        CompModel::Heading(h) => senc_heading(h),
        CompModel::Camera => Seq::empty(),
        CompModel::Item(it) => senc_item(it),
        CompModel::Inventory(m) => senc_inventory(m),
        CompModel::Deposition => Seq::empty(),
        CompModel::PickupRequest(id) => senc_u32(id),
        CompModel::DropRequest(idx) => senc_slot_index(idx),
    }
}

pub open spec fn sdec_comp(s: Seq<u8>, i: int) -> Option<(CompModel, int)> {
    match sdec_u8(s, i) {
        Some((tag, j)) => if tag == 0 {
            match sdec_appearance(s, j) {
                Some((a, k)) => Some((CompModel::Appearance(a), k)),
                None => None,
            }
        } else if tag == 1 {
            Some((CompModel::Tile, j))
        } else if tag == 2 {
            match sdec_animate(s, j) {
                Some((a, k)) => Some((CompModel::Animate(a), k)),
                None => None,
            }
        } else if tag == 3 {
            Some((CompModel::PlayerAnimationController, j))
        } else if tag == 4 {
            match sdec_pos(s, j) {
                Some((p, k)) => Some((CompModel::Pos(p), k)),
                None => None,
            }
        } else if tag == 5 {
            match sdec_hitbox(s, j) {
                Some((h, k)) => Some((CompModel::Hitbox(h), k)),
                None => None,
            }
        } else if tag == 6 {
            Some((CompModel::Dead, j))
        } else if tag == 7 {
            match sdec_update_position(s, j) {
                Some((u, k)) => Some((CompModel::UpdatePosition(u), k)),
                None => None,
            }
        } else if tag == 8 {
            Some((CompModel::SpawnPlayer, j))
        } else if tag == 9 {
            Some((CompModel::LocalPlayer, j))
        } else if tag == 10 {
            match sdec_heading(s, j) {
                Some((h, k)) => Some((CompModel::Heading(h), k)),
                None => None,
            }
        } else if tag == 11 {
            Some((CompModel::Camera, j))
        } else if tag == 12 {
            match sdec_item(s, j) {
                Some((it, k)) => Some((CompModel::Item(it), k)),
                None => None,
            }
        } else if tag == 13 {
            match sdec_inventory(s, j) {
                Some((m, k)) => Some((CompModel::Inventory(m), k)),
                None => None,
            }
        } else if tag == 14 {
            Some((CompModel::Deposition, j))
        } else if tag == 15 {
            match sdec_u32(s, j) {
                Some((id, k)) => Some((CompModel::PickupRequest(id), k)),
                None => None,
            }
        } else if tag == 16 {
            match sdec_slot_index(s, j) {
                Some((idx, k)) => Some((CompModel::DropRequest(idx), k)),
                None => None,
            }
        } else {
            None
        },
        None => None,
    }
}

pub open spec fn senc_msg(m: MsgModel) -> Seq<u8> {
    match m {
        MsgModel::NewEnt(h) => seq![0u8] + senc_u32(h),
        MsgModel::InsertComp(h, c) => seq![1u8] + senc_u32(h) + senc_comp(c),
    }
}

pub open spec fn sdec_msg_at(s: Seq<u8>, i: int) -> Option<(MsgModel, int)> {
    match sdec_u8(s, i) {
        Some((tag, j)) => if tag == 0 {
            match sdec_u32(s, j) {
                Some((h, k)) => Some((MsgModel::NewEnt(h), k)),
                None => None,
            }
        } else if tag == 1 {
            match sdec_u32(s, j) {
                Some((h, k)) => match sdec_comp(s, k) {
                    Some((c, l)) => Some((MsgModel::InsertComp(h, c), l)),
                    None => None,
                },
                None => None,
            }
        } else {
            None
        },
        None => None,
    }
}

/// What a whole frame decodes to: exactly one message, no trailing bytes.
pub open spec fn sdec_message(s: Seq<u8>) -> Option<MsgModel> {
    match sdec_msg_at(s, 0) {
        Some((m, j)) => if j == s.len() {
            Some(m)
        } else {
            None
        },
        None => None,
    }
}

#[verifier::rlimit(100)]
proof fn lemma_rt_comp_g1(pre: Seq<u8>, c: CompModel, post: Seq<u8>)
    requires
        wf_comp(c),
        comp_tag(c) < 6,
    ensures
        sdec_comp(pre + senc_comp(c) + post, pre.len() as int) == Some(
            (c, pre.len() as int + senc_comp(c).len()),
        ),
{
    let s = pre + senc_comp(c) + post;
    let tag = senc_u8(comp_tag(c));
    let pre2 = pre + tag;
    lemma_rt_u8(pre, comp_tag(c), senc_comp(c).drop_first() + post);
    assert(s =~= pre + tag + (senc_comp(c).drop_first() + post));
    match c {
        CompModel::Appearance(a) => {
            assert(s =~= pre2 + senc_appearance(a) + post);
            lemma_rt_appearance(pre2, a, post);
        },
        CompModel::Tile => {},
        CompModel::Animate(a) => {
            assert(s =~= pre2 + senc_animate(a) + post);
            lemma_rt_animate(pre2, a, post);
        },
        CompModel::PlayerAnimationController => {},
        CompModel::Pos(p) => {
            assert(s =~= pre2 + senc_pos(p) + post);
            lemma_rt_pos(pre2, p, post);
        },
        CompModel::Hitbox(h) => {
            assert(s =~= pre2 + senc_hitbox(h) + post);
            lemma_rt_hitbox(pre2, h, post);
        },
        _ => {},
    }
}

#[verifier::rlimit(100)]
proof fn lemma_rt_comp_g2(pre: Seq<u8>, c: CompModel, post: Seq<u8>)
    requires
        wf_comp(c),
        6 <= comp_tag(c) < 12,
    ensures
        sdec_comp(pre + senc_comp(c) + post, pre.len() as int) == Some(
            (c, pre.len() as int + senc_comp(c).len()),
        ),
{
    let s = pre + senc_comp(c) + post;
    let tag = senc_u8(comp_tag(c));
    let pre2 = pre + tag;
    lemma_rt_u8(pre, comp_tag(c), senc_comp(c).drop_first() + post);
    assert(s =~= pre + tag + (senc_comp(c).drop_first() + post));
    match c {
        CompModel::Dead => {},
        CompModel::UpdatePosition(u) => {
            assert(s =~= pre2 + senc_update_position(u) + post);
            lemma_rt_update_position(pre2, u, post);
        },
        CompModel::SpawnPlayer => {},
        CompModel::LocalPlayer => {},
        CompModel::Heading(h) => {
            assert(s =~= pre2 + senc_heading(h) + post);
            lemma_rt_heading(pre2, h, post);
        },
        CompModel::Camera => {},
        _ => {},
    }
}

#[verifier::rlimit(100)]
proof fn lemma_rt_comp_g3(pre: Seq<u8>, c: CompModel, post: Seq<u8>)
    requires
        wf_comp(c),
        12 <= comp_tag(c),
    ensures
        sdec_comp(pre + senc_comp(c) + post, pre.len() as int) == Some(
            (c, pre.len() as int + senc_comp(c).len()),
        ),
{
    let s = pre + senc_comp(c) + post;
    let tag = senc_u8(comp_tag(c));
    let pre2 = pre + tag;
    lemma_rt_u8(pre, comp_tag(c), senc_comp(c).drop_first() + post);
    assert(s =~= pre + tag + (senc_comp(c).drop_first() + post));
    match c {
        CompModel::Item(it) => {
            assert(s =~= pre2 + senc_item(it) + post);
            lemma_rt_item(pre2, it, post);
        },
        CompModel::Inventory(m) => {
            assert(s =~= pre2 + senc_inventory(m) + post);
            lemma_rt_inventory(pre2, m, post);
        },
        CompModel::Deposition => {},
        CompModel::PickupRequest(id) => {
            assert(s =~= pre2 + senc_u32(id) + post);
            lemma_rt_u32(pre2, id, post);
        },
        CompModel::DropRequest(idx) => {
            assert(s =~= pre2 + senc_slot_index(idx) + post);
            lemma_rt_slot_index(pre2, idx, post);
        },
        _ => {},
    }
}

proof fn lemma_rt_comp(pre: Seq<u8>, c: CompModel, post: Seq<u8>)
    requires
        wf_comp(c),
    ensures
        sdec_comp(pre + senc_comp(c) + post, pre.len() as int) == Some(
            (c, pre.len() as int + senc_comp(c).len()),
        ),
{
    if comp_tag(c) < 6 {
        lemma_rt_comp_g1(pre, c, post);
    } else if comp_tag(c) < 12 {
        lemma_rt_comp_g2(pre, c, post);
    } else {
        lemma_rt_comp_g3(pre, c, post);
    }
}

/// Law: round trip. Encoding any well-formed message and decoding the frame
/// yields the original message, for every registered component kind.
pub proof fn lemma_codec_round_trip(m: MsgModel)
    requires
        wf_msg(m),
    ensures
        sdec_message(senc_msg(m)) == Some(m),
{
    let s = senc_msg(m);
    let empty = Seq::<u8>::empty();
    match m {
        MsgModel::NewEnt(h) => {
            assert(s =~= empty + senc_u8(0u8) + (senc_u32(h) + empty));
            lemma_rt_u8(empty, 0u8, senc_u32(h) + empty);
            assert(s =~= (empty + senc_u8(0u8)) + senc_u32(h) + empty);
            lemma_rt_u32(empty + senc_u8(0u8), h, empty);
        },
        MsgModel::InsertComp(h, c) => {
            let e1 = senc_u8(1u8);
            let e2 = senc_u32(h);
            let e3 = senc_comp(c);
            assert(s =~= empty + e1 + (e2 + e3));
            lemma_rt_u8(empty, 1u8, e2 + e3);
            assert(s =~= (empty + e1) + e2 + e3);
            lemma_rt_u32(empty + e1, h, e3);
            assert(s =~= ((empty + e1) + e2) + e3 + empty);
            lemma_rt_comp((empty + e1) + e2, c, empty);
        },
    }
}

// ---------------------------------------------------------------------------
// executable encoders
// ---------------------------------------------------------------------------
fn enc_item(out: &mut Vec<u8>, it: &Item)
    ensures
        final(out)@ == old(out)@ + senc_item(*it),
{
    match it {
        Item::Weapon => enc_u8(out, 0),
        Item::Misc => enc_u8(out, 1),
    }
}

fn enc_appearance(out: &mut Vec<u8>, a: &Appearance)
    ensures
        final(out)@ == old(out)@ + senc_appearance(*a),
{
    match a {
        Appearance::Rock => enc_u8(out, 0),
        Appearance::SpottedRock => enc_u8(out, 1),
        Appearance::RockHole => enc_u8(out, 2),
        Appearance::GleamyStalagmite => enc_u8(out, 3),
        Appearance::Player => enc_u8(out, 4),
    }
}

fn enc_slot_index(out: &mut Vec<u8>, idx: &SlotIndex)
    requires
        wf_slot_index(*idx),
    ensures
        final(out)@ == old(out)@ + senc_slot_index(*idx),
{
    match idx {
        SlotIndex::Reserved(it) => {
            enc_u8(out, 0);
            enc_item(out, it);
        },
        SlotIndex::Loose(r, c) => {
            enc_u8(out, 1);
            enc_u32(out, *r as u32);
            enc_u32(out, *c as u32);
        },
    }
    assert(out@ =~= old(out)@ + senc_slot_index(*idx));
}

fn enc_pos(out: &mut Vec<u8>, p: &Pos)
    ensures
        final(out)@ == old(out)@ + senc_pos(*p),
{
    enc_i32(out, p.x);
    enc_i32(out, p.y);
    enc_i32(out, p.rot);
    assert(out@ =~= old(out)@ + senc_pos(*p));
}

fn enc_heading(out: &mut Vec<u8>, h: &Heading)
    ensures
        final(out)@ == old(out)@ + senc_heading(*h),
{
    enc_i32(out, h.dx);
    enc_i32(out, h.dy);
    assert(out@ =~= old(out)@ + senc_heading(*h));
}

fn enc_hitbox(out: &mut Vec<u8>, h: &Hitbox)
    ensures
        final(out)@ == old(out)@ + senc_hitbox(*h),
{
    enc_i32(out, h.half_w);
    enc_i32(out, h.half_h);
    assert(out@ =~= old(out)@ + senc_hitbox(*h));
}

fn enc_animate(out: &mut Vec<u8>, a: &Animate)
    ensures
        final(out)@ == old(out)@ + senc_animate(*a),
{
    enc_u32(out, a.current_frame);
    enc_u32(out, a.row);
    assert(out@ =~= old(out)@ + senc_animate(*a));
}

fn enc_update_position(out: &mut Vec<u8>, u: &UpdatePosition)
    ensures
        final(out)@ == old(out)@ + senc_update_position(*u),
{
    enc_pos(out, &u.pos);
    enc_u64(out, u.time_stamp_ms);
    assert(out@ =~= old(out)@ + senc_update_position(*u));
}

/// Appending one entry extends the encoding at the back.
proof fn lemma_senc_pairs_snoc(entries: Seq<(Item, Option<u32>)>, p: (Item, Option<u32>))
    ensures
        senc_pairs(entries.push(p)) == senc_pairs(entries) + senc_pair(p),
    decreases entries.len(),
{
    if entries.len() == 0 {
        assert(entries.push(p).drop_first() =~= Seq::<(Item, Option<u32>)>::empty());
        assert(entries.push(p)[0] == p);
        assert(senc_pairs(entries.push(p)) == senc_pair(p) + senc_pairs(
            entries.push(p).drop_first(),
        ));
        assert(senc_pairs(entries.push(p)) =~= senc_pairs(entries) + senc_pair(p));
    } else {
        assert(entries.push(p).drop_first() =~= entries.drop_first().push(p));
        lemma_senc_pairs_snoc(entries.drop_first(), p);
        assert(entries.push(p)[0] == entries[0]);
        assert(senc_pairs(entries.push(p)) == senc_pair(entries[0]) + senc_pairs(
            entries.drop_first().push(p),
        ));
        assert(senc_pairs(entries.push(p)) =~= senc_pairs(entries) + senc_pair(p));
    }
}

proof fn lemma_senc_slots_snoc(entries: Seq<Option<u32>>, o: Option<u32>)
    ensures
        senc_slots(entries.push(o)) == senc_slots(entries) + senc_opt_u32(o),
    decreases entries.len(),
{
    if entries.len() == 0 {
        assert(entries.push(o).drop_first() =~= Seq::<Option<u32>>::empty());
        assert(entries.push(o)[0] == o);
        assert(senc_slots(entries.push(o)) == senc_opt_u32(o) + senc_slots(
            entries.push(o).drop_first(),
        ));
        assert(senc_slots(entries.push(o)) =~= senc_slots(entries) + senc_opt_u32(o));
    } else {
        assert(entries.push(o).drop_first() =~= entries.drop_first().push(o));
        lemma_senc_slots_snoc(entries.drop_first(), o);
        assert(entries.push(o)[0] == entries[0]);
        assert(senc_slots(entries.push(o)) == senc_opt_u32(entries[0]) + senc_slots(
            entries.drop_first().push(o),
        ));
        assert(senc_slots(entries.push(o)) =~= senc_slots(entries) + senc_opt_u32(o));
    }
}

fn enc_pairs(out: &mut Vec<u8>, entries: &Vec<(Item, Option<u32>)>)
    ensures
        final(out)@ == old(out)@ + senc_pairs(entries@),
{
    let mut k: usize = 0;
    while k < entries.len()
        invariant
            k <= entries.len(),
            out@ == old(out)@ + senc_pairs(entries@.take(k as int)),
        decreases entries.len() - k,
    {
        let ghost before = entries@.take(k as int);
        enc_item(out, &entries[k].0);
        enc_opt_u32(out, &entries[k].1);
        proof {
            lemma_senc_pairs_snoc(before, entries@[k as int]);
            assert(before.push(entries@[k as int]) =~= entries@.take(k + 1 as int));
            assert(out@ =~= old(out)@ + senc_pairs(entries@.take(k + 1 as int)));
        }
        k = k + 1;
    }
    proof {
        assert(entries@.take(entries@.len() as int) =~= entries@);
    }
}

fn enc_slots(out: &mut Vec<u8>, entries: &Vec<Option<u32>>)
    ensures
        final(out)@ == old(out)@ + senc_slots(entries@),
{
    let mut k: usize = 0;
    while k < entries.len()
        invariant
            k <= entries.len(),
            out@ == old(out)@ + senc_slots(entries@.take(k as int)),
        decreases entries.len() - k,
    {
        let ghost before = entries@.take(k as int);
        enc_opt_u32(out, &entries[k]);
        proof {
            lemma_senc_slots_snoc(before, entries@[k as int]);
            assert(before.push(entries@[k as int]) =~= entries@.take(k + 1 as int));
            assert(out@ =~= old(out)@ + senc_slots(entries@.take(k + 1 as int)));
        }
        k = k + 1;
    }
    proof {
        assert(entries@.take(entries@.len() as int) =~= entries@);
    }
}

fn enc_inventory(out: &mut Vec<u8>, inv: &Inventory)
    requires
        inv@.wf(),
    ensures
        final(out)@ == old(out)@ + senc_inventory(inv@),
{
    enc_u32(out, inv.rows() as u32);
    enc_u32(out, inv.columns() as u32);
    enc_u32(out, inv.reserved_entries().len() as u32);
    enc_pairs(out, inv.reserved_entries());
    enc_slots(out, inv.loose_entries());
    assert(out@ =~= old(out)@ + senc_inventory(inv@));
}

fn enc_component(out: &mut Vec<u8>, c: &NetComponent)
    requires
        wf_comp(c@),
    ensures
        final(out)@ == old(out)@ + senc_comp(c@),
{
    match c {
        NetComponent::Appearance(a) => {
            enc_u8(out, 0);
            enc_appearance(out, a);
        },
        NetComponent::Tile(_) => enc_u8(out, 1),
        NetComponent::Animate(a) => {
            enc_u8(out, 2);
            enc_animate(out, a);
        },
        NetComponent::PlayerAnimationController(_) => enc_u8(out, 3),
        NetComponent::Pos(p) => {
            enc_u8(out, 4);
            enc_pos(out, p);
        },
        NetComponent::Hitbox(h) => {
            enc_u8(out, 5);
            enc_hitbox(out, h);
        },
        NetComponent::Dead(_) => enc_u8(out, 6),
        NetComponent::UpdatePosition(u) => {
            enc_u8(out, 7);
            enc_update_position(out, u);
        },
        NetComponent::SpawnPlayer(_) => enc_u8(out, 8),
        NetComponent::LocalPlayer(_) => enc_u8(out, 9),
        NetComponent::Heading(h) => {
            enc_u8(out, 10);
            enc_heading(out, h);
        },
        NetComponent::Camera(_) => enc_u8(out, 11),
        NetComponent::Item(it) => {
            enc_u8(out, 12);
            enc_item(out, it);
        },
        NetComponent::Inventory(inv) => {
            enc_u8(out, 13);
            enc_inventory(out, inv);
        },
        NetComponent::Deposition(_) => enc_u8(out, 14),
        NetComponent::PickupRequest(p) => {
            enc_u8(out, 15);
            enc_u32(out, p.id);
        },
        NetComponent::DropRequest(d) => {
            enc_u8(out, 16);
            enc_slot_index(out, &d.item_index);
        },
    }
    assert(out@ =~= old(out)@ + senc_comp(c@));
}

/// Encode one message as one binary frame.
pub fn encode_message(m: &NetMessage) -> (r: Vec<u8>)
    requires
        wf_msg(m@),
    ensures
        r@ == senc_msg(m@),
{
    let mut out: Vec<u8> = Vec::new();
    match m {
        NetMessage::NewEnt(h) => {
            enc_u8(&mut out, 0);
            enc_u32(&mut out, *h);
        },
        NetMessage::InsertComp(h, c) => {
            enc_u8(&mut out, 1);
            enc_u32(&mut out, *h);
            enc_component(&mut out, c);
        },
    }
    assert(out@ =~= senc_msg(m@));
    out
}

// ---------------------------------------------------------------------------
// executable decoders
// ---------------------------------------------------------------------------
fn dec_item(data: &Vec<u8>, pos: usize) -> (r: Option<(Item, usize)>)
    ensures
        match sdec_item(data@, pos as int) {
            Some((v, j)) => r matches Some(rr) && rr.0 == v && rr.1 == j,
            None => r is None,
        },
{
    match dec_u8(data, pos) {
        Some((tag, j)) => {
            if tag == 0 {
                Some((Item::Weapon, j))
            } else if tag == 1 {
                Some((Item::Misc, j))
            } else {
                None
            }
        },
        None => None,
    }
}

fn dec_appearance(data: &Vec<u8>, pos: usize) -> (r: Option<(Appearance, usize)>)
    ensures
        match sdec_appearance(data@, pos as int) {
            Some((v, j)) => r matches Some(rr) && rr.0 == v && rr.1 == j,
            None => r is None,
        },
{
    match dec_u8(data, pos) {
        Some((tag, j)) => {
            if tag == 0 {
                Some((Appearance::Rock, j))
            } else if tag == 1 {
                Some((Appearance::SpottedRock, j))
            } else if tag == 2 {
                Some((Appearance::RockHole, j))
            } else if tag == 3 {
                Some((Appearance::GleamyStalagmite, j))
            } else if tag == 4 {
                Some((Appearance::Player, j))
            } else {
                None
            }
        },
        None => None,
    }
}

fn dec_slot_index(data: &Vec<u8>, pos: usize) -> (r: Option<(SlotIndex, usize)>)
    ensures
        match sdec_slot_index(data@, pos as int) {
            Some((v, j)) => r matches Some(rr) && rr.0 == v && rr.1 == j && wf_slot_index(v),
            None => r is None,
        },
{
    match dec_u8(data, pos) {
        Some((tag, j)) => {
            if tag == 0 {
                match dec_item(data, j) {
                    Some((it, k)) => Some((SlotIndex::Reserved(it), k)),
                    None => None,
                }
            } else if tag == 1 {
                match dec_u32(data, j) {
                    Some((row, k)) => match dec_u32(data, k) {
                        Some((col, l)) => Some((SlotIndex::Loose(row as usize, col as usize), l)),
                        None => None,
                    },
                    None => None,
                }
            } else {
                None
            }
        },
        None => None,
    }
}

fn dec_pos(data: &Vec<u8>, pos: usize) -> (r: Option<(Pos, usize)>)
    ensures
        match sdec_pos(data@, pos as int) {
            Some((v, j)) => r matches Some(rr) && rr.0 == v && rr.1 == j,
            None => r is None,
        },
{
    match dec_i32(data, pos) {
        Some((x, j)) => match dec_i32(data, j) {
            Some((y, k)) => match dec_i32(data, k) {
                Some((rot, l)) => Some((Pos { x, y, rot }, l)),
                None => None,
            },
            None => None,
        },
        None => None,
    }
}

fn dec_heading(data: &Vec<u8>, pos: usize) -> (r: Option<(Heading, usize)>)
    ensures
        match sdec_heading(data@, pos as int) {
            Some((v, j)) => r matches Some(rr) && rr.0 == v && rr.1 == j,
            None => r is None,
        },
{
    match dec_i32(data, pos) {
        Some((dx, j)) => match dec_i32(data, j) {
            Some((dy, k)) => Some((Heading { dx, dy }, k)),
            None => None,
        },
        None => None,
    }
}

fn dec_hitbox(data: &Vec<u8>, pos: usize) -> (r: Option<(Hitbox, usize)>)
    ensures
        match sdec_hitbox(data@, pos as int) {
            Some((v, j)) => r matches Some(rr) && rr.0 == v && rr.1 == j,
            None => r is None,
        },
{
    match dec_i32(data, pos) {
        Some((w, j)) => match dec_i32(data, j) {
            Some((h, k)) => Some((Hitbox { half_w: w, half_h: h }, k)),
            None => None,
        },
        None => None,
    }
}

fn dec_animate(data: &Vec<u8>, pos: usize) -> (r: Option<(Animate, usize)>)
    ensures
        match sdec_animate(data@, pos as int) {
            Some((v, j)) => r matches Some(rr) && rr.0 == v && rr.1 == j,
            None => r is None,
        },
{
    match dec_u32(data, pos) {
        Some((f, j)) => match dec_u32(data, j) {
            Some((row, k)) => Some((Animate { current_frame: f, row }, k)),
            None => None,
        },
        None => None,
    }
}

fn dec_update_position(data: &Vec<u8>, pos: usize) -> (r: Option<(UpdatePosition, usize)>)
    ensures
        match sdec_update_position(data@, pos as int) {
            Some((v, j)) => r matches Some(rr) && rr.0 == v && rr.1 == j,
            None => r is None,
        },
{
    match dec_pos(data, pos) {
        Some((p, j)) => match dec_u64(data, j) {
            Some((t, k)) => Some((UpdatePosition { pos: p, time_stamp_ms: t }, k)),
            None => None,
        },
        None => None,
    }
}

fn dec_pair(data: &Vec<u8>, pos: usize) -> (r: Option<((Item, Option<u32>), usize)>)
    ensures
        match sdec_pair(data@, pos as int) {
            Some((v, j)) => r matches Some(rr) && rr.0 == v && rr.1 == j,
            None => r is None,
        },
{
    match dec_item(data, pos) {
        Some((it, j)) => match dec_opt_u32(data, j) {
            Some((o, k)) => Some(((it, o), k)),
            None => None,
        },
        None => None,
    }
}

fn dec_pairs(data: &Vec<u8>, pos: usize, count: usize) -> (r: Option<
    (Vec<(Item, Option<u32>)>, usize),
>)
    ensures
        match sdec_pairs(data@, pos as int, count as nat) {
            Some((ps, j)) => r matches Some(rr) && rr.0@ == ps && rr.1 == j,
            None => r is None,
        },
{
    let mut out: Vec<(Item, Option<u32>)> = Vec::new();
    let mut cur = pos;
    let mut k: usize = 0;
    while k < count
        invariant
            k <= count,
            match sdec_pairs(data@, cur as int, (count - k) as nat) {
                Some((rest, j)) => sdec_pairs(data@, pos as int, count as nat) == Some(
                    (out@ + rest, j),
                ),
                None => sdec_pairs(data@, pos as int, count as nat) is None,
            },
        decreases count - k,
    {
        match dec_pair(data, cur) {
            Some((p, j)) => {
                proof {
                    let n = (count - k) as nat;
                    match sdec_pairs(data@, j as int, (n - 1) as nat) {
                        Some((rest2, j2)) => {
                            assert(out@ + (seq![p] + rest2) =~= out@.push(p) + rest2);
                        },
                        None => {},
                    }
                }
                out.push(p);
                cur = j;
                k = k + 1;
            },
            None => {
                return None;
            },
        }
    }
    proof {
        assert(out@ + Seq::<(Item, Option<u32>)>::empty() =~= out@);
    }
    Some((out, cur))
}

fn dec_slots(data: &Vec<u8>, pos: usize, count: usize) -> (r: Option<(Vec<Option<u32>>, usize)>)
    ensures
        match sdec_slots(data@, pos as int, count as nat) {
            Some((ps, j)) => r matches Some(rr) && rr.0@ == ps && rr.1 == j,
            None => r is None,
        },
{
    let mut out: Vec<Option<u32>> = Vec::new();
    let mut cur = pos;
    let mut k: usize = 0;
    while k < count
        invariant
            k <= count,
            match sdec_slots(data@, cur as int, (count - k) as nat) {
                Some((rest, j)) => sdec_slots(data@, pos as int, count as nat) == Some(
                    (out@ + rest, j),
                ),
                None => sdec_slots(data@, pos as int, count as nat) is None,
            },
        decreases count - k,
    {
        match dec_opt_u32(data, cur) {
            Some((o, j)) => {
                proof {
                    let n = (count - k) as nat;
                    match sdec_slots(data@, j as int, (n - 1) as nat) {
                        Some((rest2, j2)) => {
                            assert(out@ + (seq![o] + rest2) =~= out@.push(o) + rest2);
                        },
                        None => {},
                    }
                }
                out.push(o);
                cur = j;
                k = k + 1;
            },
            None => {
                return None;
            },
        }
    }
    proof {
        assert(out@ + Seq::<Option<u32>>::empty() =~= out@);
    }
    Some((out, cur))
}

/// Whether the reserved entries' kinds are pairwise distinct.
fn kinds_distinct(v: &Vec<(Item, Option<u32>)>) -> (r: bool)
    ensures
        r == distinct_kinds(v@),
{
    let mut i: usize = 0;
    while i < v.len()
        invariant
            i <= v.len(),
            forall|a: int, b: int|
                0 <= a < b < v@.len() && a < i ==> (#[trigger] v@[a]).0 != (#[trigger] v@[b]).0,
        decreases v.len() - i,
    {
        let mut j: usize = i + 1;
        while j < v.len()
            invariant
                i < j <= v.len(),
                i < v.len(),
                forall|b: int| i < b < j ==> (#[trigger] v@[b]).0 != v@[i as int].0,
            decreases v.len() - j,
        {
            if v[i].0 == v[j].0 {
                return false;
            }
            j = j + 1;
        }
        i = i + 1;
    }
    true
}

/// Decoding a list yields exactly `count` entries.
proof fn lemma_sdec_pairs_len(s: Seq<u8>, i: int, count: nat)
    ensures
        sdec_pairs(s, i, count) matches Some((ps, j)) ==> ps.len() == count,
    decreases count,
{
    if count > 0 {
        match sdec_pair(s, i) {
            Some((p, j)) => {
                lemma_sdec_pairs_len(s, j, (count - 1) as nat);
            },
            None => {},
        }
    }
}

proof fn lemma_sdec_slots_len(s: Seq<u8>, i: int, count: nat)
    ensures
        sdec_slots(s, i, count) matches Some((ps, j)) ==> ps.len() == count,
    decreases count,
{
    if count > 0 {
        match sdec_opt_u32(s, i) {
            Some((p, j)) => {
                lemma_sdec_slots_len(s, j, (count - 1) as nat);
            },
            None => {},
        }
    }
}

fn dec_inventory(data: &Vec<u8>, pos: usize) -> (r: Option<(Inventory, usize)>)
    ensures
        match sdec_inventory(data@, pos as int) {
            Some((m, j)) => r matches Some(rr) && rr.0@ == m && rr.1 == j && m.wf(),
            None => r is None,
        },
{
    let (rows32, j1) = match dec_u32(data, pos) {
        Some(x) => x,
        None => {
            return None;
        },
    };
    if rows32 >= 0x10000 {
        return None;
    }
    let (cols32, j2) = match dec_u32(data, j1) {
        Some(x) => x,
        None => {
            return None;
        },
    };
    if cols32 >= 0x10000 {
        return None;
    }
    let (rcount, j3) = match dec_u32(data, j2) {
        Some(x) => x,
        None => {
            return None;
        },
    };
    if rcount > 0xffff {
        return None;
    }
    let (reserved, j4) = match dec_pairs(data, j3, rcount as usize) {
        Some(x) => x,
        None => {
            return None;
        },
    };
    if !kinds_distinct(&reserved) {
        return None;
    }
    let rows = rows32 as usize;
    let cols = cols32 as usize;
    proof {
        assert(rows * cols < 0x100000000) by (nonlinear_arith)
            requires
                rows < 0x10000,
                cols < 0x10000,
        ;
    }
    let (loose, j5) = match dec_slots(data, j4, rows * cols) {
        Some(x) => x,
        None => {
            return None;
        },
    };
    proof {
        lemma_sdec_pairs_len(data@, j3 as int, rcount as nat);
        lemma_sdec_slots_len(data@, j4 as int, (rows * cols) as nat);
    }
    Some((Inventory::from_parts(reserved, rows, cols, loose), j5))
}

fn dec_component(data: &Vec<u8>, pos: usize) -> (r: Option<(NetComponent, usize)>)
    ensures
        match sdec_comp(data@, pos as int) {
            Some((c, j)) => r matches Some(rr) && rr.0@ == c && rr.1 == j && wf_comp(c),
            None => r is None,
        },
{
    let (tag, j) = match dec_u8(data, pos) {
        Some(x) => x,
        None => {
            return None;
        },
    };
    if tag == 0 {
        match dec_appearance(data, j) {
            Some((a, k)) => Some((NetComponent::Appearance(a), k)),
            None => None,
        }
    } else if tag == 1 {
        Some((NetComponent::Tile(Tile), j))
    } else if tag == 2 {
        match dec_animate(data, j) {
            Some((a, k)) => Some((NetComponent::Animate(a), k)),
            None => None,
        }
    } else if tag == 3 {
        Some((NetComponent::PlayerAnimationController(PlayerAnimationController), j))
    } else if tag == 4 {
        match dec_pos(data, j) {
            Some((p, k)) => Some((NetComponent::Pos(p), k)),
            None => None,
        }
    } else if tag == 5 {
        match dec_hitbox(data, j) {
            Some((h, k)) => Some((NetComponent::Hitbox(h), k)),
            None => None,
        }
    } else if tag == 6 {
        Some((NetComponent::Dead(Dead), j))
    } else if tag == 7 {
        match dec_update_position(data, j) {
            Some((u, k)) => Some((NetComponent::UpdatePosition(u), k)),
            None => None,
        }
    } else if tag == 8 {
        Some((NetComponent::SpawnPlayer(SpawnPlayer), j))
    } else if tag == 9 {
        Some((NetComponent::LocalPlayer(LocalPlayer), j))
    } else if tag == 10 {
        match dec_heading(data, j) {
            Some((h, k)) => Some((NetComponent::Heading(h), k)),
            None => None,
        }
    } else if tag == 11 {
        Some((NetComponent::Camera(Camera), j))
    } else if tag == 12 {
        match dec_item(data, j) {
            Some((it, k)) => Some((NetComponent::Item(it), k)),
            None => None,
        }
    } else if tag == 13 {
        match dec_inventory(data, j) {
            Some((inv, k)) => Some((NetComponent::Inventory(inv), k)),
            None => None,
        }
    } else if tag == 14 {
        Some((NetComponent::Deposition(Deposition), j))
    } else if tag == 15 {
        match dec_u32(data, j) {
            Some((id, k)) => Some((NetComponent::PickupRequest(PickupRequest { id }), k)),
            None => None,
        }
    } else if tag == 16 {
        match dec_slot_index(data, j) {
            Some((idx, k)) => Some((NetComponent::DropRequest(DropRequest { item_index: idx }), k)),
            None => None,
        }
    } else {
        None
    }
}

/// Decode one binary frame into its message; a malformed or trailing-byte
/// frame is rejected (fatal only to this frame, not to the connection).
pub fn decode_message(data: &Vec<u8>) -> (r: Option<NetMessage>)
    ensures
        match sdec_message(data@) {
            Some(mm) => r matches Some(m) && m@ == mm && wf_msg(mm),
            None => r is None,
        },
{
    let (tag, j) = match dec_u8(data, 0) {
        Some(x) => x,
        None => {
            return None;
        },
    };
    let parsed: Option<(NetMessage, usize)> = if tag == 0 {
        match dec_u32(data, j) {
            Some((h, k)) => Some((NetMessage::NewEnt(h), k)),
            None => None,
        }
    } else if tag == 1 {
        match dec_u32(data, j) {
            Some((h, k)) => match dec_component(data, k) {
                Some((c, l)) => Some((NetMessage::InsertComp(h, c), l)),
                None => None,
            },
            None => None,
        }
    } else {
        None
    };
    match parsed {
        Some((m, end)) => {
            if end == data.len() {
                Some(m)
            } else {
                None
            }
        },
        None => None,
    }
}

} // verus!
