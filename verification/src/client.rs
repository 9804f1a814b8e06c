//! The client's mirror of the world: shadow entities under local handles,
//! identity translation, reconciliation of predicted positions toward the
//! authoritative ones, and the pure decisions behind the input handlers.

use vstd::prelude::*;
use crate::geom::{Pos, spec_dist_sq, MAX_INTERACTION_DISTANCE_SQUARED};
use crate::msg::{NetComponent, NetMessage, SpawnPlayer};
use crate::server::{fresh_rec, spec_apply_component, EntityRec};
use crate::translator::{injective, overwrite_insert, ServerToLocalIds};

verus! {

/// How close (squared, in squared milliunits) a click must land to an item
/// to select it: two world units.
pub const MAX_ITEM_TO_MOUSE_DISTANCE_SQUARED: i128 = 4_000_000;

/// The local entity this client controls, once the server has said so.
pub struct Player(pub Option<u32>);

/// The client's world: shadow entities (the local handle is the index), the
/// server-to-local identity translation, and the controlled entity.
pub struct ClientState {
    pub ents: Vec<EntityRec>,
    pub ids: ServerToLocalIds,
    pub player: Player,
}

impl ClientState {
    /// Internal consistency: the translation is 1:1, every translated local
    /// handle names an entity slot, and every inventory is well formed.
    pub open spec fn wf(self) -> bool {
        &&& self.ents@.len() <= 0xffffffff
        &&& injective(self.ids@)
        &&& forall|s: u32|
            self.ids@.dom().contains(s) ==> (#[trigger] self.ids@[s]) < self.ents@.len()
        &&& forall|i: int|
            0 <= i < self.ents@.len() ==> ((#[trigger] self.ents@[i]).inventory matches Some(inv)
                ==> inv@.wf())
    }

    /// An empty client world.
    pub fn new() -> (r: ClientState)
        ensures
            r.wf(),
            r.ents@.len() == 0,
            r.player.0 is None,
    {
        ClientState { ents: Vec::new(), ids: ServerToLocalIds::new(), player: Player(None) }
    }
}

/// The request a client sends as soon as its connection is established:
/// asking to be put in the game world.
pub open spec fn spawn_request_msg() -> NetMessage {
    NetMessage::InsertComp(0u32, NetComponent::SpawnPlayer(SpawnPlayer))
}

/// What one server message does to the shadow world. A `NewEnt` appends one
/// fresh shadow entity and records the (server, local) translation; an
/// `InsertComp` lands on the translated live entity — the local-player
/// marker instead selects the controlled entity — and an untranslated or
/// retired handle changes nothing.
pub open spec fn client_msg_step(
    ents: Seq<EntityRec>,
    ids: Map<u32, u32>,
    player: Option<u32>,
    msg: NetMessage,
) -> (Seq<EntityRec>, Map<u32, u32>, Option<u32>) {
    match msg {
        NetMessage::NewEnt(server) => {
            if ents.len() < 0xffffffff {
                (ents.push(fresh_rec()), overwrite_insert(ids, server, ents.len() as u32), player)
            } else {
                (ents, ids, player)
            }
        },
        NetMessage::InsertComp(server, comp) => {
            if ids.dom().contains(server) {
                let local = ids[server];
                if local < ents.len() && ents[local as int].alive {
                    match comp {
                        NetComponent::LocalPlayer(_) => (ents, ids, Some(local)),
                        _ => (
                            ents.update(
                                local as int,
                                spec_apply_component(ents[local as int], comp),
                            ),
                            ids,
                            player,
                        ),
                    }
                } else {
                    (ents, ids, player)
                }
            } else {
                (ents, ids, player)
            }
        },
    }
}

/// The shadow world after a batch of server messages, front to back.
pub open spec fn client_msgs_fold(
    ents: Seq<EntityRec>,
    ids: Map<u32, u32>,
    player: Option<u32>,
    msgs: Seq<NetMessage>,
) -> (Seq<EntityRec>, Map<u32, u32>, Option<u32>)
    decreases msgs.len(),
{
    if msgs.len() == 0 {
        (ents, ids, player)
    } else {
        let stepped = client_msg_step(ents, ids, player, msgs[0]);
        client_msgs_fold(stepped.0, stepped.1, stepped.2, msgs.drop_first())
    }
}

/// Applies the server's messages to the shadow world: a `NewEnt` allocates a
/// local shadow entity and records the translation; an `InsertComp` lands on
/// the translated entity — the local-player marker instead records which
/// entity this client controls. A handle with no live translation is dropped
/// silently. The first message received means the connection is
/// established, on which the client immediately requests to enter the world.
pub struct HandleServerPackets {
    pub connection_established: bool,
}

impl HandleServerPackets {
    pub fn run(
        &mut self,
        state: &mut ClientState,
        msgs: Vec<NetMessage>,
        requests: &mut Vec<NetMessage>,
    )
        requires
            old(state).wf(),
            forall|k: int| 0 <= k < msgs@.len() ==> crate::msg::wf_msg((#[trigger] msgs@[k])@),
        ensures
            final(state).wf(),
            // the shadow world is exactly the fold of the per-message step
            // over the batch, in order
            ({
                let f = client_msgs_fold(
                    old(state).ents@,
                    old(state).ids@,
                    old(state).player.0,
                    msgs@,
                );
                final(state).ents@ == f.0 && final(state).ids@ == f.1 && final(state).player.0
                    == f.2
            }),
            // established as soon as anything is heard, and then for good
            final(self).connection_established == (old(self).connection_established || msgs@.len()
                > 0),
            // exactly one spawn request goes out, when the connection first
            // becomes established
            final(requests)@ == old(requests)@ + (if !old(self).connection_established
                && msgs@.len() > 0 {
                seq![spawn_request_msg()]
            } else {
                Seq::<NetMessage>::empty()
            }),
    {
        let mut msgs = msgs;
        let ghost msgs0 = msgs@;
        while msgs.len() > 0
            invariant
                state.wf(),
                msgs@.len() <= msgs0.len(),
                client_msgs_fold(old(state).ents@, old(state).ids@, old(state).player.0, msgs0)
                    == client_msgs_fold(state.ents@, state.ids@, state.player.0, msgs@),
                self.connection_established == (old(self).connection_established || msgs@.len()
                    < msgs0.len()),
                requests@ == old(requests)@ + (if !old(self).connection_established && msgs@.len()
                    < msgs0.len() {
                    seq![spawn_request_msg()]
                } else {
                    Seq::<NetMessage>::empty()
                }),
                forall|k: int| 0 <= k < msgs@.len() ==> crate::msg::wf_msg((#[trigger] msgs@[k])@),
            decreases msgs@.len(),
        {
            let ghost pre_ents = state.ents@;
            let ghost pre_ids = state.ids@;
            let ghost pre_player = state.player.0;
            let ghost pre_msgs = msgs@;
            let msg = msgs.remove(0);
            let ghost step = client_msg_step(pre_ents, pre_ids, pre_player, pre_msgs[0]);
            // the connection is established once the first message arrives:
            // immediately request to be put in the game
            if !self.connection_established {
                requests.push(
                    (NetMessage::InsertComp(0, NetComponent::SpawnPlayer(SpawnPlayer))),
                );
                self.connection_established = true;
                proof {
                    assert(requests@ =~= old(requests)@ + seq![spawn_request_msg()]);
                }
            }
            match msg {
                NetMessage::NewEnt(server) => {
                    if state.ents.len() < 0xffffffff {
                        let local = state.ents.len() as u32;
                        state.ents.push(EntityRec::fresh());
                        state.ids.insert(server, local);
                    }
                },
                NetMessage::InsertComp(server, comp) => {
                    match state.ids.get_by_server(server) {
                        Some(local) => {
                            let li = local as usize;
                            if state.ents[li].alive {
                                match comp {
                                    NetComponent::LocalPlayer(_) => {
                                        state.player = Player(Some(local));
                                    },
                                    other => {
                                        state.ents[li].apply_component(other);
                                    },
                                }
                            }
                        },
                        None => {},
                    }
                },
            }
            proof {
                assert((state.ents@, state.ids@, state.player.0) == step);
                assert(client_msgs_fold(pre_ents, pre_ids, pre_player, pre_msgs)
                    == client_msgs_fold(state.ents@, state.ids@, state.player.0, msgs@));
            }
        }
    }
}

impl ClientState {
    /// Retire every shadow entity marked dead and drop its translation
    /// entry, so a stale server handle can no longer resolve to it.
    pub fn clear_dead(&mut self)
        requires
            old(self).wf(),
        ensures
            final(self).wf(),
            final(self).ents@.len() == old(self).ents@.len(),
            forall|j: int|
                0 <= j < old(self).ents@.len() ==> final(self).ents@[j] == (if (#[trigger] old(
                    self,
                ).ents@[j]).dead {
                    EntityRec { alive: false, ..old(self).ents@[j] }
                } else {
                    old(self).ents@[j]
                }),
            // surviving entries are exactly the old entries whose entity is
            // not dead
            forall|s: u32|
                #[trigger] final(self).ids@.dom().contains(s) ==> old(self).ids@.dom().contains(s)
                    && final(self).ids@[s] == old(self).ids@[s] && !old(self).ents@[old(
                    self,
                ).ids@[s] as int].dead,
            forall|s: u32|
                #[trigger] old(self).ids@.dom().contains(s) && !old(self).ents@[old(
                    self,
                ).ids@[s] as int].dead ==> final(self).ids@.dom().contains(s),
    {
        let n = self.ents.len();
        let mut i: usize = 0;
        while i < n
            invariant
                self.wf(),
                n == self.ents@.len() == old(self).ents@.len(),
                i <= n,
                forall|j: int| i <= j < n ==> self.ents@[j] == old(self).ents@[j],
                forall|j: int|
                    0 <= j < i ==> self.ents@[j] == (if (#[trigger] old(self).ents@[j]).dead {
                        EntityRec { alive: false, ..old(self).ents@[j] }
                    } else {
                        old(self).ents@[j]
                    }),
                forall|s: u32|
                    #[trigger] self.ids@.dom().contains(s) ==> old(self).ids@.dom().contains(s)
                        && self.ids@[s] == old(self).ids@[s],
                forall|s: u32|
                    #[trigger] self.ids@.dom().contains(s) && old(self).ids@[s] < i ==> !old(
                        self,
                    ).ents@[old(self).ids@[s] as int].dead,
                forall|s: u32|
                    #[trigger] old(self).ids@.dom().contains(s) && (old(self).ids@[s] >= i || !old(
                        self,
                    ).ents@[old(self).ids@[s] as int].dead) ==> self.ids@.dom().contains(s),
            decreases n - i,
        {
            if self.ents[i].dead {
                self.ents[i].alive = false;
                let _ = self.ids.remove_by_local(i as u32);
            }
            i = i + 1;
        }
    }
}

/// How far one smoothing step moves a coordinate: a fixed 3% of the distance
/// still to go, rounded toward zero (the reconciliation constant alpha).
pub open spec fn spec_smooth_delta(current: int, target: int) -> int {
    if target >= current {
        ((target - current) * 3) / 100
    } else {
        -(((current - target) * 3) / 100)
    }
}

/// One exponential-smoothing step of a predicted coordinate toward the
/// server-confirmed one. The result never overshoots: it stays between the
/// current and the target value.
pub fn smooth_toward(current: i32, target: i32) -> (r: i32)
    ensures
        r == current + spec_smooth_delta(current as int, target as int),
        current <= target ==> current <= r <= target,
        target <= current ==> target <= r <= current,
{
    let c = current as i64;
    let t = target as i64;
    if t >= c {
        let d = t - c;
        proof {
            assert(0 <= (d * 3) / 100 <= d) by (nonlinear_arith)
                requires
                    d >= 0,
            ;
        }
        (c + (d * 3) / 100) as i32
    } else {
        let d = c - t;
        proof {
            assert(0 <= (d * 3) / 100 <= d) by (nonlinear_arith)
                requires
                    d >= 0,
            ;
        }
        (c - (d * 3) / 100) as i32
    }
}

/// Nudges every locally predicted position toward the last server-confirmed
/// position by exponential smoothing, one step per client tick, so network
/// jitter does not cause visible teleporting; each coordinate and the
/// rotation move 3% of their remaining distance.
pub struct SyncPositions;

impl SyncPositions {
    pub fn run(state: &mut ClientState)
        requires
            old(state).wf(),
        ensures
            final(state).wf(),
            final(state).ents@.len() == old(state).ents@.len(),
            forall|j: int|
                0 <= j < old(state).ents@.len() ==> final(state).ents@[j] == (if (#[trigger] old(state).ents@[j]).alive && old(state).ents@[j].pos is Some && old(state).ents@[j].update_position is Some {
                    EntityRec {
                        pos: Some(
                            Pos {
                                x: (old(state).ents@[j].pos->0.x + spec_smooth_delta(
                                    old(state).ents@[j].pos->0.x as int,
                                    old(state).ents@[j].update_position->0.pos.x as int,
                                )) as i32,
                                y: (old(state).ents@[j].pos->0.y + spec_smooth_delta(
                                    old(state).ents@[j].pos->0.y as int,
                                    old(state).ents@[j].update_position->0.pos.y as int,
                                )) as i32,
                                rot: (old(state).ents@[j].pos->0.rot + spec_smooth_delta(
                                    old(state).ents@[j].pos->0.rot as int,
                                    old(state).ents@[j].update_position->0.pos.rot as int,
                                )) as i32,
                            },
                        ),
                        ..old(state).ents@[j]
                    }
                } else {
                    old(state).ents@[j]
                }),
    {
        let n = state.ents.len();
        let mut i: usize = 0;
        while i < n
            invariant
                state.wf(),
                n == state.ents@.len() == old(state).ents@.len(),
                i <= n,
                forall|j: int| i <= j < n ==> state.ents@[j] == old(state).ents@[j],
                forall|j: int|
                    0 <= j < i ==> state.ents@[j] == (if (#[trigger] old(state).ents@[j]).alive
                        && old(state).ents@[j].pos is Some && old(state).ents@[j].update_position
                        is Some {
                        EntityRec {
                            pos: Some(
                                Pos {
                                    x: (old(state).ents@[j].pos->0.x + spec_smooth_delta(
                                        old(state).ents@[j].pos->0.x as int,
                                        old(state).ents@[j].update_position->0.pos.x as int,
                                    )) as i32,
                                    y: (old(state).ents@[j].pos->0.y + spec_smooth_delta(
                                        old(state).ents@[j].pos->0.y as int,
                                        old(state).ents@[j].update_position->0.pos.y as int,
                                    )) as i32,
                                    rot: (old(state).ents@[j].pos->0.rot + spec_smooth_delta(
                                        old(state).ents@[j].pos->0.rot as int,
                                        old(state).ents@[j].update_position->0.pos.rot as int,
                                    )) as i32,
                                },
                            ),
                            ..old(state).ents@[j]
                        }
                    } else {
                        old(state).ents@[j]
                    }),
            decreases n - i,
        {
            if state.ents[i].alive && state.ents[i].pos.is_some()
                && state.ents[i].update_position.is_some() {
                let at = match state.ents[i].pos {
                    Some(p) => p,
                    None => Pos { x: 0, y: 0, rot: 0 },
                };
                let go = match state.ents[i].update_position {
                    Some(u) => u.pos,
                    None => Pos { x: 0, y: 0, rot: 0 },
                };
                state.ents[i].pos = Some(
                    Pos {
                        x: smooth_toward(at.x, go.x),
                        y: smooth_toward(at.y, go.y),
                        rot: smooth_toward(at.rot, go.rot),
                    },
                );
            }
            i = i + 1;
        }
    }
}

/// Removes the position component from every entity carrying the deposed
/// marker, so it stops existing physically and is rendered as an item.
pub struct DepositionItems;

impl DepositionItems {
    pub fn run(state: &mut ClientState)
        requires
            old(state).wf(),
        ensures
            final(state).wf(),
            final(state).ents@.len() == old(state).ents@.len(),
            forall|j: int|
                0 <= j < old(state).ents@.len() ==> final(state).ents@[j] == (if (#[trigger] old(state).ents@[j]).deposition {
                    EntityRec { deposition: false, pos: None, ..old(state).ents@[j] }
                } else {
                    old(state).ents@[j]
                }),
    {
        let n = state.ents.len();
        let mut i: usize = 0;
        while i < n
            invariant
                state.wf(),
                n == state.ents@.len() == old(state).ents@.len(),
                i <= n,
                forall|j: int| i <= j < n ==> state.ents@[j] == old(state).ents@[j],
                forall|j: int|
                    0 <= j < i ==> state.ents@[j] == (if (#[trigger] old(state).ents@[j]).deposition {
                        EntityRec { deposition: false, pos: None, ..old(state).ents@[j] }
                    } else {
                        old(state).ents@[j]
                    }),
            decreases n - i,
        {
            if state.ents[i].deposition {
                state.ents[i].deposition = false;
                state.ents[i].pos = None;
            }
            i = i + 1;
        }
    }
}

/// A candidate item qualifies for a click: close enough to the click on
/// screen and close enough to the player in the world.
pub open spec fn click_hits(click: Pos, player: Pos, item_pos: Pos) -> bool {
    spec_dist_sq(item_pos, click) < MAX_ITEM_TO_MOUSE_DISTANCE_SQUARED && spec_dist_sq(
        item_pos,
        player,
    ) < MAX_INTERACTION_DISTANCE_SQUARED
}

/// The decision behind a double click: among the given items (local handle
/// and position), the one nearest to the click that is both close enough to
/// the click and within the player's interaction radius, if any qualifies.
pub fn pick_item_target(click: &Pos, player: &Pos, items: &Vec<(u32, Pos)>) -> (r: Option<u32>)
    ensures
        match r {
            Some(id) => exists|k: int|
                0 <= k < items@.len() && (#[trigger] items@[k]).0 == id && click_hits(
                    *click,
                    *player,
                    items@[k].1,
                ) && (forall|k2: int|
                    0 <= k2 < items@.len() && click_hits(*click, *player, (#[trigger] items@[k2]).1)
                        ==> spec_dist_sq(items@[k].1, *click) <= spec_dist_sq(
                        items@[k2].1,
                        *click,
                    )),
            None => forall|k: int|
                0 <= k < items@.len() ==> !click_hits(*click, *player, (#[trigger] items@[k]).1),
        },
{
    let mut best: Option<usize> = None;
    let mut k: usize = 0;
    while k < items.len()
        invariant
            k <= items@.len(),
            match best {
                Some(b) => b < k && click_hits(*click, *player, items@[b as int].1) && (forall|
                    k2: int,
                |
                    0 <= k2 < k && click_hits(*click, *player, (#[trigger] items@[k2]).1)
                        ==> spec_dist_sq(items@[b as int].1, *click) <= spec_dist_sq(
                        items@[k2].1,
                        *click,
                    )),
                None => forall|k2: int|
                    0 <= k2 < k ==> !click_hits(*click, *player, (#[trigger] items@[k2]).1),
            },
        decreases items@.len() - k,
    {
        let ipos = items[k].1;
        let close_to_click = crate::geom::dist_sq(&ipos, click) < MAX_ITEM_TO_MOUSE_DISTANCE_SQUARED;
        let close_to_player = crate::geom::dist_sq(&ipos, player)
            < MAX_INTERACTION_DISTANCE_SQUARED;
        if close_to_click && close_to_player {
            match best {
                Some(b) => {
                    if crate::geom::dist_sq(&ipos, click) < crate::geom::dist_sq(
                        &items[b].1,
                        click,
                    ) {
                        best = Some(k);
                    }
                },
                None => {
                    best = Some(k);
                },
            }
        }
        k = k + 1;
    }
    match best {
        Some(b) => Some(items[b].0),
        None => None,
    }
}

} // verus!
