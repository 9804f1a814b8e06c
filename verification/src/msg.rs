//! The wire protocol's message types: a closed tagged union of component
//! payloads and the two-message envelope. Every component kind that crosses
//! the wire is registered exactly once as a payload variant; all handles in
//! transit are server handles.

use vstd::prelude::*;
use crate::art::{Animate, Appearance, PlayerAnimationController, Tile};
use crate::controls::{Camera, Heading};
use crate::dead::Dead;
use crate::geom::{Hitbox, Pos};
use crate::item::{Deposition, DropRequest, InvModel, Inventory, Item, PickupRequest, SlotIndex};

verus! {

/// Sent from the server to update a position, stamped with the server's
/// clock (milliseconds since its epoch) so the client can judge staleness.
/// No entity on the server carries one; they are common on the client.
#[derive(Clone, Copy, Debug, PartialEq, Eq, Structural)]
pub struct UpdatePosition {
    pub pos: Pos,
    pub time_stamp_ms: u64,
}

/// Sent in by a player who is ready for their position and appearance
/// components — when they want to enter the game world.
#[derive(Clone, Copy, Debug, PartialEq, Eq, Structural)]
pub struct SpawnPlayer;

/// The server attaches this to an entity on a client to tell that client
/// which entity it controls.
#[derive(Clone, Copy, Debug, PartialEq, Eq, Structural)]
pub struct LocalPlayer;

/// The closed set of component payloads that can cross the wire, one variant
/// per replicable component kind. Adding a kind means adding one variant plus
/// its encoder and decoder arm, never more.
#[derive(Debug, PartialEq, Eq)]
pub enum NetComponent {
    Appearance(Appearance),
    Tile(Tile),
    Animate(Animate),
    PlayerAnimationController(PlayerAnimationController),
    Pos(Pos),
    Hitbox(Hitbox),
    Dead(Dead),
    UpdatePosition(UpdatePosition),
    SpawnPlayer(SpawnPlayer),
    LocalPlayer(LocalPlayer),
    Heading(Heading),
    Camera(Camera),
    Item(Item),
    Inventory(Inventory),
    Deposition(Deposition),
    PickupRequest(PickupRequest),
    DropRequest(DropRequest),
}

/// One message per frame: either a new-entity announcement or a component
/// insertion, both naming the entity by its server handle. Immutable once
/// constructed; transmitted exactly once per logical event.
#[derive(Debug, PartialEq, Eq)]
pub enum NetMessage {
    NewEnt(u32),
    InsertComp(u32, NetComponent),
}

/// The mathematical model of a component payload: as `NetComponent`, with the
/// inventory abstracted to its model.
pub ghost enum CompModel {
    Appearance(Appearance),
    Tile,
    Animate(Animate),
    PlayerAnimationController,
    Pos(Pos),
    Hitbox(Hitbox),
    Dead,
    UpdatePosition(UpdatePosition),
    SpawnPlayer,
    LocalPlayer,
    Heading(Heading),
    Camera,
    Item(Item),
    Inventory(InvModel),
    Deposition,
    PickupRequest(u32),
    DropRequest(SlotIndex),
}

/// The mathematical model of a wire message.
pub ghost enum MsgModel {
    NewEnt(u32),
    InsertComp(u32, CompModel),
}

impl View for NetComponent {
    type V = CompModel;

    open spec fn view(&self) -> CompModel {
        match self {
            NetComponent::Appearance(a) => CompModel::Appearance(*a),
            NetComponent::Tile(_) => CompModel::Tile,
            NetComponent::Animate(a) => CompModel::Animate(*a),
            NetComponent::PlayerAnimationController(_) => CompModel::PlayerAnimationController,
            NetComponent::Pos(p) => CompModel::Pos(*p),
            NetComponent::Hitbox(h) => CompModel::Hitbox(*h),
            NetComponent::Dead(_) => CompModel::Dead,
            NetComponent::UpdatePosition(u) => CompModel::UpdatePosition(*u),
            NetComponent::SpawnPlayer(_) => CompModel::SpawnPlayer,
            NetComponent::LocalPlayer(_) => CompModel::LocalPlayer,
            NetComponent::Heading(h) => CompModel::Heading(*h),
            NetComponent::Camera(_) => CompModel::Camera,
            NetComponent::Item(i) => CompModel::Item(*i),
            NetComponent::Inventory(inv) => CompModel::Inventory(inv@),
            NetComponent::Deposition(_) => CompModel::Deposition,
            NetComponent::PickupRequest(p) => CompModel::PickupRequest(p.id),
            NetComponent::DropRequest(d) => CompModel::DropRequest(d.item_index),
        }
    }
}

impl View for NetMessage {
    type V = MsgModel;

    open spec fn view(&self) -> MsgModel {
        match self {
            NetMessage::NewEnt(h) => MsgModel::NewEnt(*h),
            NetMessage::InsertComp(h, c) => MsgModel::InsertComp(*h, c@),
        }
    }
}

/// A loose slot address small enough for the wire format's 32-bit fields.
pub open spec fn wf_slot_index(idx: SlotIndex) -> bool {
    match idx {
        SlotIndex::Reserved(_) => true,
        SlotIndex::Loose(r, c) => r < 0x100000000 && c < 0x100000000,
    }
}

/// A component payload the wire format can carry exactly.
pub open spec fn wf_comp(c: CompModel) -> bool {
    match c {
        CompModel::Inventory(inv) => inv.wf(),
        CompModel::DropRequest(idx) => wf_slot_index(idx),
        _ => true,
    }
}

/// A message the wire format can carry exactly.
pub open spec fn wf_msg(m: MsgModel) -> bool {
    match m {
        MsgModel::NewEnt(_) => true,
        MsgModel::InsertComp(_, c) => wf_comp(c),
    }
}

/// Whether a message is well formed, at run time. Every message the decoder
/// yields is; a caller that built one by hand can test it here before
/// handing it to the simulation.
pub fn is_wf_message(m: &NetMessage) -> (r: bool)
    ensures
        r == wf_msg(m@),
{
    match m {
        NetMessage::NewEnt(_) => true,
        NetMessage::InsertComp(_, comp) => match comp {
            NetComponent::Inventory(inv) => inv.is_wf(),
            NetComponent::DropRequest(d) => match d.item_index {
                SlotIndex::Reserved(_) => true,
                SlotIndex::Loose(r, c) => (r as u64) < 0x100000000 && (c as u64) < 0x100000000,
            },
            _ => true,
        },
    }
}

} // verus!
