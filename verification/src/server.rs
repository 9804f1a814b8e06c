//! The server's world model and tick systems.
//!
//! A single simulation thread owns all entity and connection state; the
//! transport workers only exchange `(address, message)` pairs with it. Each
//! system here is one step of the fixed per-tick order: packet ingestion,
//! full snapshots for new players, player spawning, interaction processing,
//! and position broadcast.

use vstd::prelude::*;
use crate::art::{Animate, Appearance};
use crate::controls::Heading;
use crate::geom::{Hitbox, Pos, within_interaction_range};
use crate::item::{Inventory, Item, SlotIndex};
use crate::lifecycle::{ConnState, Connection};
use crate::msg::{CompModel, NetComponent, NetMessage, UpdatePosition};

verus! {

/// The component that ties an entity to the connection controlling it: the
/// connection's transport address, as an opaque identifier.
#[derive(Clone, Copy, Debug, PartialEq, Eq, Structural)]
pub struct Client(pub u64);

/// One entity's replicable components. The entity's handle is its index in
/// the world's entity table; `alive` is false once the slot is retired.
#[derive(Debug, PartialEq, Eq)]
pub struct EntityRec {
    pub alive: bool,
    pub client: Option<Client>,
    pub pos: Option<Pos>,
    pub update_position: Option<UpdatePosition>,
    pub appearance: Option<Appearance>,
    pub tile: bool,
    pub animate: Option<Animate>,
    pub hitbox: Option<Hitbox>,
    pub heading: Option<Heading>,
    pub player_anim: bool,
    pub camera: bool,
    pub local_player: bool,
    pub item: Option<Item>,
    pub inventory: Option<Inventory>,
    pub dead: bool,
    pub spawn_player: bool,
    pub deposition: bool,
    pub pickup_request: Option<u32>,
    pub drop_request: Option<SlotIndex>,
}

/// A live entity with no components, as a specification value.
pub open spec fn fresh_rec() -> EntityRec {
    EntityRec {
        alive: true,
        client: None,
        pos: None,
        update_position: None,
        appearance: None,
        tile: false,
        animate: None,
        hitbox: None,
        heading: None,
        player_anim: false,
        camera: false,
        local_player: false,
        item: None,
        inventory: None,
        dead: false,
        spawn_player: false,
        deposition: false,
        pickup_request: None,
        drop_request: None,
    }
}

/// What attaching one component payload does to an entity's record: the
/// payload replaces any previous value of its kind.
pub open spec fn spec_apply_component(rec: EntityRec, comp: NetComponent) -> EntityRec {
    match comp {
        NetComponent::Appearance(a) => EntityRec { appearance: Some(a), ..rec },
        NetComponent::Tile(_) => EntityRec { tile: true, ..rec },
        NetComponent::Animate(a) => EntityRec { animate: Some(a), ..rec },
        NetComponent::PlayerAnimationController(_) => EntityRec { player_anim: true, ..rec },
        NetComponent::Pos(p) => EntityRec { pos: Some(p), ..rec },
        NetComponent::Hitbox(h) => EntityRec { hitbox: Some(h), ..rec },
        NetComponent::Dead(_) => EntityRec { dead: true, ..rec },
        NetComponent::UpdatePosition(u) => EntityRec { update_position: Some(u), ..rec },
        NetComponent::SpawnPlayer(_) => EntityRec { spawn_player: true, ..rec },
        NetComponent::LocalPlayer(_) => EntityRec { local_player: true, ..rec },
        NetComponent::Heading(h) => EntityRec { heading: Some(h), ..rec },
        NetComponent::Camera(_) => EntityRec { camera: true, ..rec },
        NetComponent::Item(it) => EntityRec { item: Some(it), ..rec },
        NetComponent::Inventory(inv) => EntityRec { inventory: Some(inv), ..rec },
        NetComponent::Deposition(_) => EntityRec { deposition: true, ..rec },
        NetComponent::PickupRequest(p) => EntityRec { pickup_request: Some(p.id), ..rec },
        NetComponent::DropRequest(d) => EntityRec { drop_request: Some(d.item_index), ..rec },
    }
}

impl EntityRec {
    /// A live entity with no components yet.
    pub fn fresh() -> (r: EntityRec)
        ensures
            r == fresh_rec(),
    {
        EntityRec {
            alive: true,
            client: None,
            pos: None,
            update_position: None,
            appearance: None,
            tile: false,
            animate: None,
            hitbox: None,
            heading: None,
            player_anim: false,
            camera: false,
            local_player: false,
            item: None,
            inventory: None,
            dead: false,
            spawn_player: false,
            deposition: false,
            pickup_request: None,
            drop_request: None,
        }
    }

    /// Attach one received component payload to this entity, replacing any
    /// previous value of that kind.
    pub fn apply_component(&mut self, comp: NetComponent)
        ensures
            *final(self) == spec_apply_component(*old(self), comp),
    {
        match comp {
            NetComponent::Appearance(a) => self.appearance = Some(a),
            NetComponent::Tile(_) => self.tile = true,
            NetComponent::Animate(a) => self.animate = Some(a),
            NetComponent::PlayerAnimationController(_) => self.player_anim = true,
            NetComponent::Pos(p) => self.pos = Some(p),
            NetComponent::Hitbox(h) => self.hitbox = Some(h),
            NetComponent::Dead(_) => self.dead = true,
            NetComponent::UpdatePosition(u) => self.update_position = Some(u),
            NetComponent::SpawnPlayer(_) => self.spawn_player = true,
            NetComponent::LocalPlayer(_) => self.local_player = true,
            NetComponent::Heading(h) => self.heading = Some(h),
            NetComponent::Camera(_) => self.camera = true,
            NetComponent::Item(it) => self.item = Some(it),
            NetComponent::Inventory(inv) => self.inventory = Some(inv),
            NetComponent::Deposition(_) => self.deposition = true,
            NetComponent::PickupRequest(p) => self.pickup_request = Some(p.id),
            NetComponent::DropRequest(d) => self.drop_request = Some(d.item_index),
        }
    }
}

/// The authoritative world: the entity table and the connection table, owned
/// by the simulation thread alone.
pub struct ServerState {
    pub ents: Vec<EntityRec>,
    pub conns: Vec<Connection>,
}

impl ServerState {
    /// Internal consistency: entity handles fit in `u32`, connection
    /// addresses are distinct, every logged-in connection has a live entity
    /// slot, and every inventory in the world is well formed.
    pub open spec fn wf(self) -> bool {
        &&& self.ents@.len() <= 0xffffffff
        &&& forall|i: int, j: int|
            0 <= i < j < self.conns@.len() ==> (#[trigger] self.conns@[i]).addr != (
            #[trigger] self.conns@[j]).addr
        &&& forall|i: int|
            0 <= i < self.conns@.len() ==> ((#[trigger] self.conns@[i]).ent matches Some(e) ==> e
                < self.ents@.len())
        &&& forall|i: int|
            0 <= i < self.conns@.len() ==> ((#[trigger] self.conns@[i]).state is LoggingIn
                || self.conns@[i].state is Established ==> self.conns@[i].ent is Some)
        &&& forall|i: int|
            0 <= i < self.ents@.len() ==> ((#[trigger] self.ents@[i]).inventory matches Some(inv)
                ==> inv@.wf())
    }

    /// An empty world.
    pub fn new() -> (r: ServerState)
        ensures
            r.wf(),
            r.ents@.len() == 0,
            r.conns@.len() == 0,
    {
        ServerState { ents: Vec::new(), conns: Vec::new() }
    }

    /// The position of the connection with the given address, if registered.
    pub fn find_conn(&self, addr: u64) -> (r: Option<usize>)
        ensures
            match r {
                Some(i) => i < self.conns@.len() && self.conns@[i as int].addr == addr
                    && lookup_conn(self.conns@, addr) == Some(i as int),
                None => (forall|i: int|
                    0 <= i < self.conns@.len() ==> (#[trigger] self.conns@[i]).addr != addr)
                    && lookup_conn(self.conns@, addr) is None,
            },
    {
        let mut i: usize = 0;
        while i < self.conns.len()
            invariant
                i <= self.conns@.len(),
                forall|j: int| 0 <= j < i ==> (#[trigger] self.conns@[j]).addr != addr,
            decreases self.conns@.len() - i,
        {
            if self.conns[i].addr == addr {
                proof {
                    lemma_lookup_conn_at(self.conns@, addr, i as int);
                }
                return Some(i);
            }
            i = i + 1;
        }
        proof {
            lemma_lookup_conn_none(self.conns@, addr);
        }
        None
    }
}

/// The position of the first connection with the given address, if any.
pub open spec fn lookup_conn(conns: Seq<Connection>, addr: u64) -> Option<int>
    decreases conns.len(),
{
    if conns.len() == 0 {
        None
    } else if conns[0].addr == addr {
        Some(0int)
    } else {
        match lookup_conn(conns.drop_first(), addr) {
            Some(i) => Some(i + 1),
            None => None,
        }
    }
}

/// `lookup_conn` returns the front-most match.
proof fn lemma_lookup_conn_at(conns: Seq<Connection>, addr: u64, i: int)
    requires
        0 <= i < conns.len(),
        conns[i].addr == addr,
        forall|j: int| 0 <= j < i ==> (#[trigger] conns[j]).addr != addr,
    ensures
        lookup_conn(conns, addr) == Some(i),
    decreases i,
{
    if i > 0 {
        lemma_lookup_conn_at(conns.drop_first(), addr, i - 1);
    }
}

/// `lookup_conn` finds nothing when no connection has the address.
proof fn lemma_lookup_conn_none(conns: Seq<Connection>, addr: u64)
    requires
        forall|j: int| 0 <= j < conns.len() ==> (#[trigger] conns[j]).addr != addr,
    ensures
        lookup_conn(conns, addr) is None,
    decreases conns.len(),
{
    if conns.len() > 0 {
        lemma_lookup_conn_none(conns.drop_first(), addr);
    }
}

/// What one inbound (address, message) pair does to the world. A
/// connection-established event from an unregistered address appends one new
/// connection, logging in, bound to one fresh entity; from a registered
/// address it is ignored (a duplicate login). A component insertion lands on
/// the sending connection's live entity, a death event also disconnecting
/// the connection; from an unregistered address, or for a retired entity
/// slot, it changes nothing.
pub open spec fn server_msg_step(
    ents: Seq<EntityRec>,
    conns: Seq<Connection>,
    addr: u64,
    msg: NetMessage,
) -> (Seq<EntityRec>, Seq<Connection>) {
    match msg {
        NetMessage::NewEnt(_) => {
            if lookup_conn(conns, addr) is None && ents.len() < 0xffffffff {
                (
                    ents.push(EntityRec { client: Some(Client(addr)), ..fresh_rec() }),
                    conns.push(
                        Connection {
                            addr,
                            ent: Some(ents.len() as u32),
                            state: ConnState::LoggingIn,
                        },
                    ),
                )
            } else {
                (ents, conns)
            }
        },
        NetMessage::InsertComp(_, comp) => {
            match lookup_conn(conns, addr) {
                Some(ci) => {
                    let conns2 = if comp is Dead {
                        conns.update(
                            ci,
                            Connection {
                                state: crate::lifecycle::spec_step(
                                    conns[ci].state,
                                    crate::lifecycle::ConnEvent::SocketError,
                                ).0,
                                ..conns[ci]
                            },
                        )
                    } else {
                        conns
                    };
                    match conns[ci].ent {
                        Some(e) => {
                            if e < ents.len() && ents[e as int].alive && ents[e as int].client
                                is Some {
                                (
                                    ents.update(
                                        e as int,
                                        spec_apply_component(ents[e as int], comp),
                                    ),
                                    conns2,
                                )
                            } else {
                                (ents, conns2)
                            }
                        },
                        None => (ents, conns2),
                    }
                },
                None => (ents, conns),
            }
        },
    }
}

/// The world after ingesting a batch of inbound messages, front to back.
pub open spec fn server_msgs_fold(
    ents: Seq<EntityRec>,
    conns: Seq<Connection>,
    msgs: Seq<(u64, NetMessage)>,
) -> (Seq<EntityRec>, Seq<Connection>)
    decreases msgs.len(),
{
    if msgs.len() == 0 {
        (ents, conns)
    } else {
        let stepped = server_msg_step(ents, conns, msgs[0].0, msgs[0].1);
        server_msgs_fold(stepped.0, stepped.1, msgs.drop_first())
    }
}

/// New-entity announcement precedes component announcement: in the slice of
/// `s` from `base` on, every component insertion for a handle is preceded by
/// a `NewEnt` for the same handle to the same address.
pub open spec fn announced_before(s: Seq<(u64, NetMessage)>, base: int) -> bool {
    forall|k: int|
        base <= k < s.len() ==> ((#[trigger] s[k]).1 matches NetMessage::InsertComp(h, _)
            ==> exists|k2: int| base <= k2 < k && s[k2] == (s[k].0, NetMessage::NewEnt(h)))
}

/// Appending an announcement block — a `NewEnt` followed only by component
/// insertions for that same entity to that same address — preserves the
/// announce-first ordering.
proof fn lemma_announced_append(
    s1: Seq<(u64, NetMessage)>,
    s2: Seq<(u64, NetMessage)>,
    base: int,
    addr: u64,
    id: u32,
)
    requires
        0 <= base <= s1.len(),
        announced_before(s1, base),
        s2.len() > 0,
        s2[0] == (addr, NetMessage::NewEnt(id)),
        forall|k: int|
            1 <= k < s2.len() ==> (#[trigger] s2[k]).0 == addr && (s2[k].1 matches
                NetMessage::InsertComp(h, _) ==> h == id),
    ensures
        announced_before(s1 + s2, base),
{
    let s = s1 + s2;
    assert forall|k: int|
        base <= k < s.len() implies ((#[trigger] s[k]).1 matches NetMessage::InsertComp(h, _)
        ==> exists|k2: int| base <= k2 < k && s[k2] == (s[k].0, NetMessage::NewEnt(h))) by {
        if k < s1.len() {
            assert(s[k] == s1[k]);
            match s1[k].1 {
                NetMessage::InsertComp(h, _) => {
                    let k2 = choose|k2: int|
                        base <= k2 < k && s1[k2] == (s1[k].0, NetMessage::NewEnt(h));
                    assert(s[k2] == s1[k2]);
                },
                _ => {},
            }
        } else if k > s1.len() {
            assert(s[k] == s2[k - s1.len()]);
            match s[k].1 {
                NetMessage::InsertComp(h, _) => {
                    assert(h == id && s[k].0 == addr);
                    assert(s[s1.len() as int] == s2[0]);
                    assert(base <= s1.len() < k && s[s1.len() as int] == (
                        s[k].0,
                        NetMessage::NewEnt(h),
                    ));
                },
                _ => {},
            }
        } else {
            assert(s[k] == s2[0]);
        }
    }
}

/// Drains the tick's inbound messages into the world: a connection-established
/// event (a degenerate `NewEnt`) registers a new connection — duplicates from
/// an already-registered address are ignored silently — and a component
/// insertion lands on the sending connection's entity. A component insert
/// from an unregistered address, or for a retired entity slot, is an internal
/// inconsistency and is dropped without touching the world.
pub struct HandleClientPackets;

impl HandleClientPackets {
    pub fn run(world: &mut ServerState, inbound: Vec<(u64, NetMessage)>)
        requires
            old(world).wf(),
            forall|k: int|
                0 <= k < inbound@.len() ==> crate::msg::wf_msg((#[trigger] inbound@[k]).1@),
        ensures
            final(world).wf(),
            // the final world is exactly the fold of the per-message step
            // over the batch, in order
            (final(world).ents@, final(world).conns@) == server_msgs_fold(
                old(world).ents@,
                old(world).conns@,
                inbound@,
            ),
            // registered connections keep their address, entity and state
            final(world).conns@.len() >= old(world).conns@.len(),
            forall|i: int|
                0 <= i < old(world).conns@.len() ==> ((#[trigger] final(world).conns@[i]).addr
                    == old(world).conns@[i].addr && final(world).conns@[i].ent == old(world).conns@[i].ent && (final(world).conns@[i].state == old(world).conns@[i].state
                    || final(world).conns@[i].state is Disconnected)),
            // each new connection starts logging in (and may already have
            // disconnected on a death event in the same batch)
            forall|i: int|
                old(world).conns@.len() <= i < final(world).conns@.len() ==> ((#[trigger] final(world).conns@[i]).state is LoggingIn || final(world).conns@[i].state is Disconnected),
            // entity slots are never removed, and entities that belong to no
            // client are untouched
            final(world).ents@.len() >= old(world).ents@.len(),
            forall|i: int|
                0 <= i < old(world).ents@.len() && (#[trigger] old(world).ents@[i]).client is None
                    ==> final(world).ents@[i] == old(world).ents@[i],
    {
        let mut msgs = inbound;
        let ghost msgs0 = msgs@;
        while msgs.len() > 0
            invariant
                world.wf(),
                forall|k: int|
                    0 <= k < msgs@.len() ==> crate::msg::wf_msg((#[trigger] msgs@[k]).1@),
                server_msgs_fold(old(world).ents@, old(world).conns@, msgs0)
                    == server_msgs_fold(world.ents@, world.conns@, msgs@),
                world.conns@.len() >= old(world).conns@.len(),
                forall|i: int|
                    0 <= i < old(world).conns@.len() ==> ((#[trigger] world.conns@[i]).addr == old(world).conns@[i].addr && world.conns@[i].ent == old(world).conns@[i].ent && (
                    world.conns@[i].state == old(world).conns@[i].state || world.conns@[i].state
                        is Disconnected)),
                forall|i: int|
                    old(world).conns@.len() <= i < world.conns@.len() ==> ((
                    #[trigger] world.conns@[i]).state is LoggingIn || world.conns@[i].state
                        is Disconnected),
                world.ents@.len() >= old(world).ents@.len(),
                forall|i: int|
                    0 <= i < old(world).ents@.len() && (#[trigger] old(world).ents@[i]).client
                        is None ==> world.ents@[i] == old(world).ents@[i],
            decreases msgs.len(),
        {
            let ghost pre_ents = world.ents@;
            let ghost pre_conns = world.conns@;
            let ghost pre_msgs = msgs@;
            let (addr, msg) = msgs.remove(0);
            let ghost step = server_msg_step(pre_ents, pre_conns, addr, pre_msgs[0].1);
            match msg {
                NetMessage::NewEnt(_) => {
                    if world.find_conn(addr).is_none() && world.ents.len() < 0xffffffff {
                        let id = world.ents.len() as u32;
                        let mut rec = EntityRec::fresh();
                        rec.client = Some(Client(addr));
                        world.ents.push(rec);
                        world.conns.push(
                            Connection { addr, ent: Some(id), state: ConnState::LoggingIn },
                        );
                        proof {
                            assert(rec == (EntityRec { client: Some(Client(addr)), ..fresh_rec() }));
                        }
                    }
                },
                NetMessage::InsertComp(_, comp) => {
                    match world.find_conn(addr) {
                        Some(ci) => {
                            let is_death = matches!(comp, NetComponent::Dead(_));
                            match world.conns[ci].ent {
                                Some(e) => {
                                    let ei = e as usize;
                                    if world.ents[ei].alive && world.ents[ei].client.is_some() {
                                        world.ents[ei].apply_component(comp);
                                    }
                                },
                                None => {},
                            }
                            if is_death {
                                let ghost before = world.conns@;
                                let _ = world.conns[ci].step(
                                    crate::lifecycle::ConnEvent::SocketError,
                                );
                                proof {
                                    assert(world.conns@ =~= before.update(
                                        ci as int,
                                        Connection {
                                            state: crate::lifecycle::spec_step(
                                                before[ci as int].state,
                                                crate::lifecycle::ConnEvent::SocketError,
                                            ).0,
                                            ..before[ci as int]
                                        },
                                    ));
                                }
                            }
                        },
                        None => {},
                    }
                },
            }
            proof {
                assert((world.ents@, world.conns@) == step);
                assert(server_msgs_fold(pre_ents, pre_conns, pre_msgs) == server_msgs_fold(
                    world.ents@,
                    world.conns@,
                    msgs@,
                ));
            }
        }
    }
}

/// The announcement one connection receives about one spawned player: the
/// new entity followed by its components; the owning connection alone also
/// gets the local-player marker.
pub open spec fn spawn_msgs_for_conn(addr: u64, id: u32, owner: u64) -> Seq<(u64, NetMessage)> {
    seq![
        (addr, NetMessage::NewEnt(id)),
        (
            addr,
            NetMessage::InsertComp(
                id,
                NetComponent::Pos(Pos { x: 1000i32, y: 1000i32, rot: 0i32 }),
            ),
        ),
        (addr, NetMessage::InsertComp(id, NetComponent::Appearance(Appearance::Player))),
        (
            addr,
            NetMessage::InsertComp(
                id,
                NetComponent::Animate(Animate { current_frame: 0u32, row: 0u32 }),
            ),
        ),
        (
            addr,
            NetMessage::InsertComp(
                id,
                NetComponent::Hitbox(Hitbox { half_w: 500i32, half_h: 250i32 }),
            ),
        ),
        (
            addr,
            NetMessage::InsertComp(
                id,
                NetComponent::PlayerAnimationController(crate::art::PlayerAnimationController),
            ),
        ),
    ] + (if addr == owner {
        seq![
            (addr, NetMessage::InsertComp(id, NetComponent::LocalPlayer(crate::msg::LocalPlayer))),
        ]
    } else {
        Seq::empty()
    })
}

/// One spawned player announced to every connection, in connection order.
pub open spec fn spawn_msgs_conns(conns: Seq<Connection>, id: u32, owner: u64) -> Seq<
    (u64, NetMessage),
>
    decreases conns.len(),
{
    if conns.len() == 0 {
        Seq::empty()
    } else {
        spawn_msgs_conns(conns.drop_last(), id, owner) + spawn_msgs_for_conn(
            conns.last().addr,
            id,
            owner,
        )
    }
}

/// The tick's spawn output: every entity with a pending spawn request and a
/// client, in entity order, announced to every connection.
pub open spec fn spawn_msgs(ents: Seq<EntityRec>, conns: Seq<Connection>) -> Seq<
    (u64, NetMessage),
>
    decreases ents.len(),
{
    if ents.len() == 0 {
        Seq::empty()
    } else {
        spawn_msgs(ents.drop_last(), conns) + (if ents.last().spawn_player && ents.last().client
            is Some {
            spawn_msgs_conns(conns, (ents.len() - 1) as u32, (ents.last().client->0).0)
        } else {
            Seq::empty()
        })
    }
}

/// Push one spawned player's announcement block for one connection.
#[verifier::rlimit(100)]
fn push_spawn_for_conn(out: &mut Vec<(u64, NetMessage)>, addr: u64, id: u32, owner: u64)
    ensures
        final(out)@ == old(out)@ + spawn_msgs_for_conn(addr, id, owner),
{
    out.push((addr, NetMessage::NewEnt(id)));
    out.push(
        (
            addr,
            NetMessage::InsertComp(id, NetComponent::Pos(Pos { x: 1000, y: 1000, rot: 0 })),
        ),
    );
    out.push((addr, NetMessage::InsertComp(id, NetComponent::Appearance(Appearance::Player))));
    out.push(
        (
            addr,
            NetMessage::InsertComp(
                id,
                NetComponent::Animate(Animate { current_frame: 0, row: 0 }),
            ),
        ),
    );
    out.push(
        (
            addr,
            NetMessage::InsertComp(id, NetComponent::Hitbox(Hitbox { half_w: 500, half_h: 250 })),
        ),
    );
    out.push(
        (
            addr,
            NetMessage::InsertComp(
                id,
                NetComponent::PlayerAnimationController(crate::art::PlayerAnimationController),
            ),
        ),
    );
    if addr == owner {
        out.push(
            (addr, NetMessage::InsertComp(id, NetComponent::LocalPlayer(crate::msg::LocalPlayer))),
        );
    }
    assert(out@ =~= old(out)@ + spawn_msgs_for_conn(addr, id, owner));
}

/// Creates the player-facing components for every entity whose client asked
/// to enter the game world, and announces the new player to every connection
/// (the announcement `NewEnt` precedes every component for it); the asking
/// connection alone also receives the local-player marker.
pub struct SpawnNewPlayers;

impl SpawnNewPlayers {
    pub fn run(world: &mut ServerState, out: &mut Vec<(u64, NetMessage)>)
        requires
            old(world).wf(),
        ensures
            final(world).wf(),
            final(world).conns@ == old(world).conns@,
            final(world).ents@.len() == old(world).ents@.len(),
            // only entities with a pending spawn request change, and the
            // request is consumed
            forall|i: int|
                0 <= i < old(world).ents@.len() && !((#[trigger] old(world).ents@[i]).spawn_player
                    && old(world).ents@[i].client is Some) ==> final(world).ents@[i] == old(world).ents@[i],
            forall|i: int|
                0 <= i < final(world).ents@.len() ==> !((#[trigger] final(world).ents@[i]).spawn_player && final(world).ents@[i].client is Some),
            // a spawned player has its components attached, its inventory
            // being a fresh character inventory
            forall|i: int|
                0 <= i < old(world).ents@.len() && (#[trigger] old(world).ents@[i]).spawn_player
                    && old(world).ents@[i].client is Some ==> {
                    let e = final(world).ents@[i];
                    e.pos == Some(Pos { x: 1000i32, y: 1000i32, rot: 0i32 }) && e.appearance
                        == Some(Appearance::Player) && e.animate == Some(
                        Animate { current_frame: 0u32, row: 0u32 },
                    ) && e.hitbox == Some(Hitbox { half_w: 500i32, half_h: 250i32 })
                        && e.player_anim && (e.inventory matches Some(inv) && inv@
                        == crate::item::character_model()) && !e.spawn_player && e.alive == old(world).ents@[i].alive && e.client == old(world).ents@[i].client
                },
            // the output is exactly each spawned player announced to every
            // connection, the owner alone also told it is the local player
            old(out)@.len() <= final(out)@.len(),
            final(out)@ == old(out)@ + spawn_msgs(old(world).ents@, old(world).conns@),
            // announcement precedes components
            announced_before(final(out)@, old(out)@.len() as int),
    {
        let ghost ents0 = world.ents@;
        let ghost conns0 = world.conns@;
        let n = world.ents.len();
        let mut i: usize = 0;
        while i < n
            invariant
                world.wf(),
                n == world.ents@.len() == ents0.len(),
                i <= n,
                world.conns@ == conns0,
                forall|j: int|
                    0 <= j < ents0.len() && !((#[trigger] ents0[j]).spawn_player
                        && ents0[j].client is Some) ==> world.ents@[j] == ents0[j],
                forall|j: int|
                    0 <= j < i ==> !((#[trigger] world.ents@[j]).spawn_player
                        && world.ents@[j].client is Some),
                forall|j: int| i <= j < n ==> world.ents@[j] == ents0[j],
                forall|j: int|
                    0 <= j < i && (#[trigger] ents0[j]).spawn_player && ents0[j].client is Some
                        ==> {
                        let e = world.ents@[j];
                        e.pos == Some(Pos { x: 1000i32, y: 1000i32, rot: 0i32 }) && e.appearance
                            == Some(Appearance::Player) && e.animate == Some(
                            Animate { current_frame: 0u32, row: 0u32 },
                        ) && e.hitbox == Some(Hitbox { half_w: 500i32, half_h: 250i32 })
                            && e.player_anim && (e.inventory matches Some(inv) && inv@
                            == crate::item::character_model()) && !e.spawn_player && e.alive
                            == ents0[j].alive && e.client == ents0[j].client
                    },
                old(out)@.len() <= out@.len(),
                out@ == old(out)@ + spawn_msgs(ents0.take(i as int), conns0),
            decreases n - i,
        {
            if world.ents[i].spawn_player && world.ents[i].client.is_some() {
                let new_player_addr = match world.ents[i].client {
                    Some(Client(a)) => a,
                    None => 0,
                };
                world.ents[i].spawn_player = false;
                world.ents[i].pos = Some(Pos { x: 1000, y: 1000, rot: 0 });
                world.ents[i].appearance = Some(Appearance::Player);
                world.ents[i].animate = Some(Animate::new());
                world.ents[i].hitbox = Some(Hitbox { half_w: 500, half_h: 250 });
                world.ents[i].player_anim = true;
                world.ents[i].inventory = Some(Inventory::character());

                // tell everyone about the new kid on the block
                let ghost done = out@;
                let mut c: usize = 0;
                while c < world.conns.len()
                    invariant
                        world.wf(),
                        i < n == world.ents@.len(),
                        world.conns@ == conns0,
                        c <= conns0.len(),
                        old(out)@.len() <= out@.len(),
                        out@ == done + spawn_msgs_conns(
                            conns0.take(c as int),
                            i as u32,
                            new_player_addr,
                        ),
                    decreases conns0.len() - c,
                {
                    let addr = world.conns[c].addr;
                    push_spawn_for_conn(out, addr, i as u32, new_player_addr);
                    proof {
                        let t2 = conns0.take(c + 1 as int);
                        assert(t2.drop_last() =~= conns0.take(c as int));
                        assert(t2.last() == conns0[c as int]);
                        assert(spawn_msgs_conns(t2, i as u32, new_player_addr)
                            == spawn_msgs_conns(conns0.take(c as int), i as u32, new_player_addr)
                            + spawn_msgs_for_conn(addr, i as u32, new_player_addr));
                        assert(out@ =~= done + spawn_msgs_conns(t2, i as u32, new_player_addr));
                    }
                    c = c + 1;
                }
                proof {
                    assert(conns0.take(conns0.len() as int) =~= conns0);
                }
            }
            proof {
                let prefix2 = ents0.take(i + 1 as int);
                assert(prefix2.drop_last() =~= ents0.take(i as int));
                assert(prefix2.last() == ents0[i as int]);
                assert(out@ =~= old(out)@ + spawn_msgs(prefix2, conns0));
            }
            i = i + 1;
        }
        proof {
            assert(ents0.take(ents0.len() as int) =~= ents0);
            assert(announced_before(old(out)@, old(out)@.len() as int));
            lemma_spawn_announced(old(out)@, old(out)@.len() as int, ents0, conns0);
        }
    }
}

/// Appending one spawned player's block for one connection keeps
/// announce-first ordering.
proof fn lemma_spawn_conns_announced(
    s: Seq<(u64, NetMessage)>,
    base: int,
    conns: Seq<Connection>,
    id: u32,
    owner: u64,
)
    requires
        0 <= base <= s.len(),
        announced_before(s, base),
    ensures
        announced_before(s + spawn_msgs_conns(conns, id, owner), base),
    decreases conns.len(),
{
    if conns.len() > 0 {
        lemma_spawn_conns_announced(s, base, conns.drop_last(), id, owner);
        let s1 = s + spawn_msgs_conns(conns.drop_last(), id, owner);
        let addr = conns.last().addr;
        let blk = spawn_msgs_for_conn(addr, id, owner);
        assert(blk[0] == (addr, NetMessage::NewEnt(id)));
        assert(forall|k: int|
            1 <= k < blk.len() ==> (#[trigger] blk[k]).0 == addr && (blk[k].1 matches
                NetMessage::InsertComp(h, _) ==> h == id));
        lemma_announced_append(s1, blk, base, addr, id);
        assert(s + spawn_msgs_conns(conns, id, owner) =~= s1 + blk);
    } else {
        assert(s + spawn_msgs_conns(conns, id, owner) =~= s);
    }
}

/// Appending the whole tick's spawn output keeps announce-first ordering.
proof fn lemma_spawn_announced(
    s: Seq<(u64, NetMessage)>,
    base: int,
    ents: Seq<EntityRec>,
    conns: Seq<Connection>,
)
    requires
        0 <= base <= s.len(),
        announced_before(s, base),
    ensures
        announced_before(s + spawn_msgs(ents, conns), base),
    decreases ents.len(),
{
    if ents.len() > 0 {
        lemma_spawn_announced(s, base, ents.drop_last(), conns);
        let s1 = s + spawn_msgs(ents.drop_last(), conns);
        if ents.last().spawn_player && ents.last().client is Some {
            lemma_spawn_conns_announced(
                s1,
                base,
                conns,
                (ents.len() - 1) as u32,
                (ents.last().client->0).0,
            );
            assert(s + spawn_msgs(ents, conns) =~= s1 + spawn_msgs_conns(
                conns,
                (ents.len() - 1) as u32,
                (ents.last().client->0).0,
            ));
        } else {
            assert(s + spawn_msgs(ents, conns) =~= s1);
        }
    } else {
        assert(s + spawn_msgs(ents, conns) =~= s);
    }
}

/// The snapshot messages for one entity to one connection: the announcement,
/// the position, then each further replicable component iff present.
pub open spec fn snapshot_msgs_for_ent(addr: u64, e: EntityRec, id: u32) -> Seq<
    (u64, NetMessage),
> {
    if e.alive && e.pos is Some {
        seq![
            (addr, NetMessage::NewEnt(id)),
            (addr, NetMessage::InsertComp(id, NetComponent::Pos(e.pos->0))),
        ] + (match e.hitbox {
            Some(h) => seq![(addr, NetMessage::InsertComp(id, NetComponent::Hitbox(h)))],
            None => Seq::empty(),
        }) + (match e.appearance {
            Some(a) => seq![(addr, NetMessage::InsertComp(id, NetComponent::Appearance(a)))],
            None => Seq::empty(),
        }) + (match e.item {
            Some(it) => seq![(addr, NetMessage::InsertComp(id, NetComponent::Item(it)))],
            None => Seq::empty(),
        }) + (match e.animate {
            Some(a) => seq![(addr, NetMessage::InsertComp(id, NetComponent::Animate(a)))],
            None => Seq::empty(),
        }) + (if e.tile {
            seq![(addr, NetMessage::InsertComp(id, NetComponent::Tile(crate::art::Tile)))]
        } else {
            Seq::empty()
        })
    } else {
        Seq::empty()
    }
}

/// One connection's full snapshot: every live physical entity, in entity
/// order, each announced exactly once and then described.
pub open spec fn snapshot_msgs_ents(addr: u64, ents: Seq<EntityRec>) -> Seq<(u64, NetMessage)>
    decreases ents.len(),
{
    if ents.len() == 0 {
        Seq::empty()
    } else {
        snapshot_msgs_ents(addr, ents.drop_last()) + snapshot_msgs_for_ent(
            addr,
            ents.last(),
            (ents.len() - 1) as u32,
        )
    }
}

/// The tick's snapshot output: the full snapshot for each logging-in
/// connection, in connection order, and nothing for any other connection.
pub open spec fn snapshot_msgs(conns: Seq<Connection>, ents: Seq<EntityRec>) -> Seq<
    (u64, NetMessage),
>
    decreases conns.len(),
{
    if conns.len() == 0 {
        Seq::empty()
    } else {
        snapshot_msgs(conns.drop_last(), ents) + (if conns.last().state is LoggingIn {
            snapshot_msgs_ents(conns.last().addr, ents)
        } else {
            Seq::empty()
        })
    }
}

/// Push one entity's snapshot block for one connection: the announcement,
/// the position, then each further component iff present.
#[verifier::rlimit(100)]
fn push_snapshot_for_ent(out: &mut Vec<(u64, NetMessage)>, addr: u64, rec: &EntityRec, id: u32)
    requires
        rec.alive,
        rec.pos is Some,
    ensures
        final(out)@ == old(out)@ + snapshot_msgs_for_ent(addr, *rec, id),
{
    let pos = match rec.pos {
        Some(p) => p,
        None => Pos { x: 0, y: 0, rot: 0 },
    };
    out.push((addr, NetMessage::NewEnt(id)));
    out.push((addr, NetMessage::InsertComp(id, NetComponent::Pos(pos))));
    match rec.hitbox {
        Some(h) => out.push((addr, NetMessage::InsertComp(id, NetComponent::Hitbox(h)))),
        None => {},
    }
    match rec.appearance {
        Some(a) => out.push((addr, NetMessage::InsertComp(id, NetComponent::Appearance(a)))),
        None => {},
    }
    match rec.item {
        Some(it) => out.push((addr, NetMessage::InsertComp(id, NetComponent::Item(it)))),
        None => {},
    }
    match rec.animate {
        Some(a) => out.push((addr, NetMessage::InsertComp(id, NetComponent::Animate(a)))),
        None => {},
    }
    if rec.tile {
        out.push((addr, NetMessage::InsertComp(id, NetComponent::Tile(crate::art::Tile))));
    }
    assert(out@ =~= old(out)@ + snapshot_msgs_for_ent(addr, *rec, id));
}

/// Sends the world to all connections that are logging in: for every
/// physical entity, a `NewEnt` announcement followed by its position and its
/// other replicable components, to that connection alone. The connection
/// then becomes `Established` — the snapshot burst happens exactly once, at
/// that transition (see `crate::lifecycle`).
pub struct SendWorldToNewPlayers;

impl SendWorldToNewPlayers {
    #[verifier::rlimit(100)]
    pub fn run(world: &mut ServerState, out: &mut Vec<(u64, NetMessage)>)
        requires
            old(world).wf(),
        ensures
            final(world).wf(),
            final(world).ents@ == old(world).ents@,
            final(world).conns@.len() == old(world).conns@.len(),
            // each logging-in connection becomes established; no other
            // connection changes
            forall|i: int|
                0 <= i < old(world).conns@.len() ==> final(world).conns@[i] == (Connection {
                    state: crate::lifecycle::spec_step(
                        (#[trigger] old(world).conns@[i]).state,
                        crate::lifecycle::ConnEvent::SnapshotSent,
                    ).0,
                    ..old(world).conns@[i]
                }),
            old(out)@.len() <= final(out)@.len(),
            // the snapshot output is exactly one full snapshot per
            // logging-in connection, nothing to anyone else
            final(out)@ == old(out)@ + snapshot_msgs(old(world).conns@, old(world).ents@),
            // within the snapshot, announcement precedes components
            announced_before(final(out)@, old(out)@.len() as int),
    {
        let ghost conns0 = world.conns@;
        let ghost ents0 = world.ents@;
        let ncon = world.conns.len();
        let mut c: usize = 0;
        while c < ncon
            invariant
                world.wf(),
                world.ents@ == ents0,
                ncon == world.conns@.len() == conns0.len(),
                c <= ncon,
                forall|i: int|
                    c <= i < conns0.len() ==> world.conns@[i] == conns0[i],
                forall|i: int|
                    0 <= i < c ==> world.conns@[i] == (Connection {
                        state: crate::lifecycle::spec_step(
                            (#[trigger] conns0[i]).state,
                            crate::lifecycle::ConnEvent::SnapshotSent,
                        ).0,
                        ..conns0[i]
                    }),
                old(out)@.len() <= out@.len(),
                out@ == old(out)@ + snapshot_msgs(conns0.take(c as int), ents0),
            decreases ncon - c,
        {
            if matches!(world.conns[c].state, ConnState::LoggingIn) {
                let addr = world.conns[c].addr;
                let nents = world.ents.len();
                let ghost done = out@;
                let mut e: usize = 0;
                while e < nents
                    invariant
                        world.wf(),
                        world.ents@ == ents0,
                        world.conns@.len() == conns0.len(),
                        c < conns0.len(),
                        world.conns@[c as int].addr == addr,
                        nents == ents0.len(),
                        e <= nents,
                        old(out)@.len() <= out@.len(),
                        done == old(out)@ + snapshot_msgs(conns0.take(c as int), ents0),
                        out@ == done + snapshot_msgs_ents(addr, ents0.take(e as int)),
                    decreases nents - e,
                {
                    if world.ents[e].alive && world.ents[e].pos.is_some() {
                        push_snapshot_for_ent(out, addr, &world.ents[e], e as u32);
                    }
                    proof {
                        let prefix2 = ents0.take(e + 1 as int);
                        assert(prefix2.drop_last() =~= ents0.take(e as int));
                        assert(prefix2.last() == ents0[e as int]);
                        if !(ents0[e as int].alive && ents0[e as int].pos is Some) {
                            assert(snapshot_msgs_for_ent(addr, ents0[e as int], e as u32)
                                =~= Seq::<(u64, NetMessage)>::empty());
                        }
                        assert(out@ =~= done + snapshot_msgs_ents(addr, prefix2));
                    }
                    e = e + 1;
                }
                proof {
                    assert(ents0.take(ents0.len() as int) =~= ents0);
                }
            }
            let ghost before = world.conns@;
            let _ = world.conns[c].step(crate::lifecycle::ConnEvent::SnapshotSent);
            proof {
                let t2 = conns0.take(c + 1 as int);
                assert(t2.drop_last() =~= conns0.take(c as int));
                assert(t2.last() == conns0[c as int]);
                assert(out@ =~= old(out)@ + snapshot_msgs(t2, ents0));
            }
            c = c + 1;
        }
        proof {
            assert(conns0.take(conns0.len() as int) =~= conns0);
            assert(announced_before(old(out)@, old(out)@.len() as int));
            lemma_snapshot_announced(old(out)@, old(out)@.len() as int, conns0, ents0);
        }
    }
}

/// Appending one connection's full snapshot keeps announce-first ordering.
#[verifier::rlimit(100)]
proof fn lemma_snapshot_ents_announced(
    s: Seq<(u64, NetMessage)>,
    base: int,
    addr: u64,
    ents: Seq<EntityRec>,
)
    requires
        0 <= base <= s.len(),
        announced_before(s, base),
    ensures
        announced_before(s + snapshot_msgs_ents(addr, ents), base),
    decreases ents.len(),
{
    if ents.len() > 0 {
        lemma_snapshot_ents_announced(s, base, addr, ents.drop_last());
        let s1 = s + snapshot_msgs_ents(addr, ents.drop_last());
        let id = (ents.len() - 1) as u32;
        let blk = snapshot_msgs_for_ent(addr, ents.last(), id);
        if blk.len() > 0 {
            assert(blk[0] == (addr, NetMessage::NewEnt(id)));
            assert(forall|k: int|
                1 <= k < blk.len() ==> (#[trigger] blk[k]).0 == addr && (blk[k].1 matches
                    NetMessage::InsertComp(h, _) ==> h == id));
            lemma_announced_append(s1, blk, base, addr, id);
        }
        assert(s + snapshot_msgs_ents(addr, ents) =~= s1 + blk);
    } else {
        assert(s + snapshot_msgs_ents(addr, ents) =~= s);
    }
}

/// Appending the whole tick's snapshot output keeps announce-first ordering.
proof fn lemma_snapshot_announced(
    s: Seq<(u64, NetMessage)>,
    base: int,
    conns: Seq<Connection>,
    ents: Seq<EntityRec>,
)
    requires
        0 <= base <= s.len(),
        announced_before(s, base),
    ensures
        announced_before(s + snapshot_msgs(conns, ents), base),
    decreases conns.len(),
{
    if conns.len() > 0 {
        lemma_snapshot_announced(s, base, conns.drop_last(), ents);
        let s1 = s + snapshot_msgs(conns.drop_last(), ents);
        if conns.last().state is LoggingIn {
            lemma_snapshot_ents_announced(s1, base, conns.last().addr, ents);
            assert(s + snapshot_msgs(conns, ents) =~= s1 + snapshot_msgs_ents(
                conns.last().addr,
                ents,
            ));
        } else {
            assert(s + snapshot_msgs(conns, ents) =~= s1);
        }
    } else {
        assert(s + snapshot_msgs(conns, ents) =~= s);
    }
}

/// One position-update message.
pub open spec fn upd_msg(addr: u64, h: int, p: Pos, now: u64) -> (u64, NetMessage) {
    (
        addr,
        NetMessage::InsertComp(
            h as u32,
            NetComponent::UpdatePosition(UpdatePosition { pos: p, time_stamp_ms: now }),
        ),
    )
}

/// The position updates one connection receives: one message per live
/// physical entity, in entity order.
pub open spec fn pos_msgs_for_addr(addr: u64, ents: Seq<EntityRec>, now: u64) -> Seq<
    (u64, NetMessage),
>
    decreases ents.len(),
{
    if ents.len() == 0 {
        Seq::empty()
    } else {
        pos_msgs_for_addr(addr, ents.drop_last(), now) + (match ents.last().pos {
            Some(p) => if ents.last().alive {
                seq![upd_msg(addr, ents.len() - 1, p, now)]
            } else {
                Seq::empty()
            },
            None => Seq::empty(),
        })
    }
}

/// The position updates of one tick: every established connection hears the
/// authoritative position of every live physical entity.
pub open spec fn pos_msgs(conns: Seq<Connection>, ents: Seq<EntityRec>, now: u64) -> Seq<
    (u64, NetMessage),
>
    decreases conns.len(),
{
    if conns.len() == 0 {
        Seq::empty()
    } else {
        pos_msgs(conns.drop_last(), ents, now) + (if conns.last().state is Established {
            pos_msgs_for_addr(conns.last().addr, ents, now)
        } else {
            Seq::empty()
        })
    }
}

/// Broadcasts the authoritative position of every live physical entity to
/// every established connection, stamped with the server clock `now_ms`.
pub struct SendNewPositions;

impl SendNewPositions {
    pub fn run(world: &ServerState, now_ms: u64, out: &mut Vec<(u64, NetMessage)>)
        ensures
            final(out)@ == old(out)@ + pos_msgs(world.conns@, world.ents@, now_ms),
    {
        let mut c: usize = 0;
        while c < world.conns.len()
            invariant
                c <= world.conns@.len(),
                out@ == old(out)@ + pos_msgs(world.conns@.take(c as int), world.ents@, now_ms),
            decreases world.conns@.len() - c,
        {
            let ghost done = pos_msgs(world.conns@.take(c as int), world.ents@, now_ms);
            if matches!(world.conns[c].state, ConnState::Established) {
                let addr = world.conns[c].addr;
                let mut e: usize = 0;
                while e < world.ents.len()
                    invariant
                        c < world.conns@.len(),
                        e <= world.ents@.len(),
                        world.conns@[c as int].state is Established,
                        world.conns@[c as int].addr == addr,
                        done == pos_msgs(world.conns@.take(c as int), world.ents@, now_ms),
                        out@ == old(out)@ + done + pos_msgs_for_addr(
                            addr,
                            world.ents@.take(e as int),
                            now_ms,
                        ),
                    decreases world.ents@.len() - e,
                {
                    let ghost prefix = world.ents@.take(e as int);
                    if world.ents[e].alive && world.ents[e].pos.is_some() {
                        let p = match world.ents[e].pos {
                            Some(p) => p,
                            None => Pos { x: 0, y: 0, rot: 0 },
                        };
                        out.push(
                            (
                                addr,
                                NetMessage::InsertComp(
                                    e as u32,
                                    NetComponent::UpdatePosition(
                                        UpdatePosition { pos: p, time_stamp_ms: now_ms },
                                    ),
                                ),
                            ),
                        );
                    }
                    proof {
                        let prefix2 = world.ents@.take(e + 1 as int);
                        assert(prefix2.drop_last() =~= prefix);
                        assert(prefix2.last() == world.ents@[e as int]);
                        assert(out@ =~= old(out)@ + done + pos_msgs_for_addr(
                            addr,
                            prefix2,
                            now_ms,
                        ));
                    }
                    e = e + 1;
                }
                proof {
                    assert(world.ents@.take(world.ents@.len() as int) =~= world.ents@);
                }
            }
            proof {
                let t2 = world.conns@.take(c + 1 as int);
                assert(t2.drop_last() =~= world.conns@.take(c as int));
                assert(t2.last() == world.conns@[c as int]);
                assert(out@ =~= old(out)@ + pos_msgs(t2, world.ents@, now_ms));
            }
            c = c + 1;
        }
        proof {
            assert(world.conns@.take(world.conns@.len() as int) =~= world.conns@);
        }
    }
}

/// The same position component broadcast to every connection.
pub open spec fn bcast_pos(conns: Seq<Connection>, h: u32, p: Pos) -> Seq<(u64, NetMessage)>
    decreases conns.len(),
{
    if conns.len() == 0 {
        Seq::empty()
    } else {
        bcast_pos(conns.drop_last(), h, p) + seq![
            (conns.last().addr, NetMessage::InsertComp(h, NetComponent::Pos(p))),
        ]
    }
}

/// The deposed marker for one item broadcast to every connection.
pub open spec fn bcast_depo(conns: Seq<Connection>, h: u32) -> Seq<(u64, NetMessage)>
    decreases conns.len(),
{
    if conns.len() == 0 {
        Seq::empty()
    } else {
        bcast_depo(conns.drop_last(), h) + seq![
            (
                conns.last().addr,
                NetMessage::InsertComp(h, NetComponent::Deposition(crate::item::Deposition)),
            ),
        ]
    }
}

/// The exact effect of one drop request on the entity table and the outbox:
/// either the valid-drop outcome (slot emptied, item physical again at the
/// player's position, position broadcast to every connection, inventory to
/// the owner alone) or the benign rejection (nothing at all).
pub open spec fn drop_effect(
    pre: Seq<EntityRec>,
    post: Seq<EntityRec>,
    conns: Seq<Connection>,
    o_pre: Seq<(u64, NetMessage)>,
    o_post: Seq<(u64, NetMessage)>,
    player: int,
    slot: SlotIndex,
) -> bool {
    &&& post.len() == pre.len()
    &&& {
        let inv0 = pre[player].inventory->0@;
        let occupant = inv0.slot_of(slot);
        if inv0.universe().contains(slot) && occupant is Some && occupant->0 < pre.len()
            && pre[occupant->0 as int].alive {
            let item_id = occupant->0;
            let item = item_id as int;
            let pp = pre[player].pos->0;
            &&& post[item].pos == Some(pp)
            &&& (post[player].inventory matches Some(inv2) && inv2@ == inv0.write_slot(slot, None))
            &&& post[player] == (EntityRec {
                inventory: post[player].inventory,
                pos: post[player].pos,
                ..pre[player]
            })
            &&& (item != player ==> post[item] == (EntityRec { pos: Some(pp), ..pre[item] })
                && post[player].pos == pre[player].pos)
            &&& (forall|j: int|
                0 <= j < pre.len() && j != player && j != item ==> post[j] == pre[j])
            &&& o_post == o_pre + bcast_pos(conns, item_id, pp) + seq![o_post.last()]
            &&& o_post.last().0 == (pre[player].client->0).0
            &&& (o_post.last().1 matches NetMessage::InsertComp(h, NetComponent::Inventory(inv3))
                && h == player && inv3@ == inv0.write_slot(slot, None))
        } else {
            // benign rejection: no broadcast and no state change
            &&& o_post == o_pre
            &&& (post[player].inventory matches Some(inv2) && inv2@ == inv0)
            &&& post[player] == (EntityRec { inventory: post[player].inventory, ..pre[player] })
            &&& (forall|j: int| 0 <= j < pre.len() && j != player ==> post[j] == pre[j])
        }
    }
}

/// The exact effect of one pickup request on the entity table and the
/// outbox: the successful outcome (item into the inventory, inventory to the
/// owner alone, item deposed with the marker broadcast to every connection),
/// the silent full-inventory outcome, or the silent discard of a request
/// that names no live item in reach.
pub open spec fn pickup_effect(
    pre: Seq<EntityRec>,
    post: Seq<EntityRec>,
    conns: Seq<Connection>,
    o_pre: Seq<(u64, NetMessage)>,
    o_post: Seq<(u64, NetMessage)>,
    player: int,
    item_id: u32,
) -> bool {
    &&& post.len() == pre.len()
    &&& {
        let inv0 = pre[player].inventory->0@;
        let item = item_id as int;
        let pp = pre[player].pos->0;
        if item < pre.len() && pre[item].alive && pre[item].pos is Some && pre[item].item is Some
            && crate::geom::spec_dist_sq(pp, pre[item].pos->0)
            < crate::geom::MAX_INTERACTION_DISTANCE_SQUARED {
            let kind = pre[item].item->0;
            if inv0.spec_insert(item_id, kind).1 is Ok {
                &&& (post[player].inventory matches Some(inv2) && inv2@ == inv0.spec_insert(
                    item_id,
                    kind,
                ).0)
                &&& post[item].pos is None
                &&& post[player] == (EntityRec {
                    inventory: post[player].inventory,
                    pos: post[player].pos,
                    ..pre[player]
                })
                &&& (item != player ==> post[item] == (EntityRec { pos: None, ..pre[item] })
                    && post[player].pos == pre[player].pos)
                &&& (forall|j: int|
                    0 <= j < pre.len() && j != player && j != item ==> post[j] == pre[j])
                &&& o_post == o_pre + seq![o_post[o_pre.len() as int]] + bcast_depo(conns, item_id)
                &&& o_post[o_pre.len() as int].0 == (pre[player].client->0).0
                &&& (o_post[o_pre.len() as int].1 matches NetMessage::InsertComp(
                    h,
                    NetComponent::Inventory(inv3),
                ) && h == player && inv3@ == inv0.spec_insert(item_id, kind).0)
            } else {
                // a full inventory is an expected, silent outcome
                &&& o_post == o_pre
                &&& (post[player].inventory matches Some(inv2) && inv2@ == inv0)
                &&& post[player] == (EntityRec { inventory: post[player].inventory, ..pre[player] })
                &&& (forall|j: int| 0 <= j < pre.len() && j != player ==> post[j] == pre[j])
            }
        } else {
            // not a live item in reach: discarded silently, no state change
            &&& o_post == o_pre
            &&& (post[player].inventory matches Some(inv2) && inv2@ == inv0)
            &&& post[player] == (EntityRec { inventory: post[player].inventory, ..pre[player] })
            &&& (forall|j: int| 0 <= j < pre.len() && j != player ==> post[j] == pre[j])
        }
    }
}

/// Processes the tick's pending interaction requests: all drops, then all
/// pickups — a deliberate order, so that dropping and immediately re-picking
/// up in the same tick is avoided rather than racing.
pub struct ItemPickupDrop;

impl ItemPickupDrop {
    /// One drop request: the player asks to throw away the item in the given
    /// slot of its own inventory. A slot outside the inventory's universe, an
    /// empty slot, or an occupant that is not a live entity is a benign
    /// rejection: no broadcast, no state change. Otherwise the slot is
    /// emptied, the item becomes physical again at the player's position,
    /// the new position is broadcast to every connection, and the player's
    /// connection alone receives its updated inventory.
    #[verifier::rlimit(100)]
    pub fn process_drop_request(
        world: &mut ServerState,
        player: usize,
        slot: SlotIndex,
        out: &mut Vec<(u64, NetMessage)>,
    )
        requires
            old(world).wf(),
            player < old(world).ents@.len(),
            old(world).ents@[player as int].alive,
            old(world).ents@[player as int].pos is Some,
            old(world).ents@[player as int].inventory is Some,
            old(world).ents@[player as int].client is Some,
        ensures
            final(world).wf(),
            final(world).conns@ == old(world).conns@,
            final(world).ents@.len() == old(world).ents@.len(),
            drop_effect(
                old(world).ents@,
                final(world).ents@,
                old(world).conns@,
                old(out)@,
                final(out)@,
                player as int,
                slot,
            ),
    {
        let pp = match world.ents[player].pos {
            Some(p) => p,
            None => Pos { x: 0, y: 0, rot: 0 },
        };
        let player_addr = match world.ents[player].client {
            Some(Client(a)) => a,
            None => 0,
        };
        // resolve the slot's occupant without touching anything yet
        let occupant = match &world.ents[player].inventory {
            Some(inv) => inv.slot(&slot),
            None => Err(crate::item::Error::InvalidSlotIndex),
        };
        let item_id = match occupant {
            Ok(Some(id)) => id,
            _ => {
                return ;
            },
        };
        let item = item_id as usize;
        if item >= world.ents.len() || !world.ents[item].alive {
            return ;
        }
        // taking the item out of their inventory
        let _ = match &mut world.ents[player].inventory {
            Some(inv) => inv.clear(&slot),
            None => Err(crate::item::Error::InvalidSlotIndex),
        };
        // re-physicalizing the item
        let mut c: usize = 0;
        let ghost conns0 = world.conns@;
        while c < world.conns.len()
            invariant
                c <= world.conns@.len(),
                world.conns@ == conns0,
                out@ == old(out)@ + bcast_pos(conns0.take(c as int), item_id, pp),
            decreases world.conns@.len() - c,
        {
            let addr = world.conns[c].addr;
            out.push((addr, NetMessage::InsertComp(item_id, NetComponent::Pos(pp))));
            proof {
                let t2 = conns0.take(c + 1 as int);
                assert(t2.drop_last() =~= conns0.take(c as int));
                assert(t2.last() == conns0[c as int]);
                assert(out@ =~= old(out)@ + bcast_pos(t2, item_id, pp));
            }
            c = c + 1;
        }
        proof {
            assert(conns0.take(conns0.len() as int) =~= conns0);
        }
        world.ents[item].pos = Some(pp);
        // updating the client's record of their player's inventory
        let inv_copy = match &world.ents[player].inventory {
            Some(inv) => inv.duplicate(),
            None => Inventory::new_loose(0, 0),
        };
        out.push(
            (
                player_addr,
                NetMessage::InsertComp(player as u32, NetComponent::Inventory(inv_copy)),
            ),
        );
        proof {
            assert(out@ =~= old(out)@ + bcast_pos(old(world).conns@, item_id, pp) + seq![
                out@.last(),
            ]);
        }
    }

    /// One pickup request: the player asks to take a world entity into its
    /// inventory. A handle that is not a live item with a position, or an
    /// item beyond the interaction radius, is a benign rejection with no
    /// state change; a full inventory is an expected, silent outcome (no
    /// broadcast, no error to the client). Otherwise the item enters the
    /// inventory, the player's connection alone receives the updated
    /// inventory, the item loses its position, and the deposed marker is
    /// broadcast to every connection.
    #[verifier::rlimit(100)]
    pub fn process_pickup_request(
        world: &mut ServerState,
        player: usize,
        item_id: u32,
        out: &mut Vec<(u64, NetMessage)>,
    )
        requires
            old(world).wf(),
            player < old(world).ents@.len(),
            old(world).ents@[player as int].alive,
            old(world).ents@[player as int].pos is Some,
            old(world).ents@[player as int].inventory is Some,
            old(world).ents@[player as int].client is Some,
        ensures
            final(world).wf(),
            final(world).conns@ == old(world).conns@,
            final(world).ents@.len() == old(world).ents@.len(),
            pickup_effect(
                old(world).ents@,
                final(world).ents@,
                old(world).conns@,
                old(out)@,
                final(out)@,
                player as int,
                item_id,
            ),
    {
        let pp = match world.ents[player].pos {
            Some(p) => p,
            None => Pos { x: 0, y: 0, rot: 0 },
        };
        let player_addr = match world.ents[player].client {
            Some(Client(a)) => a,
            None => 0,
        };
        let item = item_id as usize;
        if item >= world.ents.len() || !world.ents[item].alive {
            return ;
        }
        let ipos = match world.ents[item].pos {
            Some(p) => p,
            None => {
                return ;
            },
        };
        let kind = match world.ents[item].item {
            Some(k) => k,
            None => {
                return ;
            },
        };
        if !within_interaction_range(&pp, &ipos) {
            return ;
        }
        let res = match &mut world.ents[player].inventory {
            Some(inv) => inv.insert(item_id, &kind),
            None => Err(crate::item::Error::InventoryFull),
        };
        match res {
            Ok(_) => {
                let inv_copy = match &world.ents[player].inventory {
                    Some(inv) => inv.duplicate(),
                    None => Inventory::new_loose(0, 0),
                };
                out.push(
                    (
                        player_addr,
                        NetMessage::InsertComp(player as u32, NetComponent::Inventory(inv_copy)),
                    ),
                );
                world.ents[item].pos = None;
                let mut c: usize = 0;
                let ghost conns0 = world.conns@;
                let ghost mid = out@;
                while c < world.conns.len()
                    invariant
                        c <= world.conns@.len(),
                        world.conns@ == conns0,
                        out@ == mid + bcast_depo(conns0.take(c as int), item_id),
                    decreases world.conns@.len() - c,
                {
                    let addr = world.conns[c].addr;
                    out.push(
                        (
                            addr,
                            NetMessage::InsertComp(
                                item_id,
                                NetComponent::Deposition(crate::item::Deposition),
                            ),
                        ),
                    );
                    proof {
                        let t2 = conns0.take(c + 1 as int);
                        assert(t2.drop_last() =~= conns0.take(c as int));
                        assert(t2.last() == conns0[c as int]);
                        assert(out@ =~= mid + bcast_depo(t2, item_id));
                    }
                    c = c + 1;
                }
                proof {
                    assert(conns0.take(conns0.len() as int) =~= conns0);
                    assert(out@ =~= old(out)@ + seq![out@[old(out)@.len() as int]] + bcast_depo(
                        old(world).conns@,
                        item_id,
                    ));
                }
            },
            Err(_) => {},
        }
    }
}

/// The entity table with entity i's drop request consumed.
pub open spec fn consume_drop(pre: Seq<EntityRec>, i: int) -> Seq<EntityRec> {
    pre.update(i, EntityRec { drop_request: None, ..pre[i] })
}

/// The entity table with entity i's pickup request consumed.
pub open spec fn consume_pickup(pre: Seq<EntityRec>, i: int) -> Seq<EntityRec> {
    pre.update(i, EntityRec { pickup_request: None, ..pre[i] })
}

/// One sweep position of the drop phase: entity i's pending drop request, if
/// any, is consumed; if it came from a live player with a position, an
/// inventory and a client, the drop takes its exact effect, and otherwise
/// (an internal inconsistency) nothing else changes.
pub open spec fn drop_tick_step(
    pre: Seq<EntityRec>,
    post: Seq<EntityRec>,
    conns: Seq<Connection>,
    o_pre: Seq<(u64, NetMessage)>,
    o_post: Seq<(u64, NetMessage)>,
    i: int,
) -> bool {
    match pre[i].drop_request {
        Some(slot) => {
            let mid = consume_drop(pre, i);
            if pre[i].alive && pre[i].pos is Some && pre[i].inventory is Some && pre[i].client
                is Some {
                drop_effect(mid, post, conns, o_pre, o_post, i, slot)
            } else {
                post == mid && o_post == o_pre
            }
        },
        None => post == pre && o_post == o_pre,
    }
}

/// One sweep position of the pickup phase, analogous to the drop phase.
pub open spec fn pickup_tick_step(
    pre: Seq<EntityRec>,
    post: Seq<EntityRec>,
    conns: Seq<Connection>,
    o_pre: Seq<(u64, NetMessage)>,
    o_post: Seq<(u64, NetMessage)>,
    i: int,
) -> bool {
    match pre[i].pickup_request {
        Some(id) => {
            let mid = consume_pickup(pre, i);
            if pre[i].alive && pre[i].pos is Some && pre[i].inventory is Some && pre[i].client
                is Some {
                pickup_effect(mid, post, conns, o_pre, o_post, i, id)
            } else {
                post == mid && o_post == o_pre
            }
        },
        None => post == pre && o_post == o_pre,
    }
}

/// One tick of interaction processing, as the trace of its intermediate
/// states: starting from (ents0, out0), every drop request takes its step in
/// entity order, then every pickup request in entity order — drops strictly
/// before pickups — ending at (ents1, out1).
pub open spec fn interaction_trace(
    tr: Seq<Seq<EntityRec>>,
    tro: Seq<Seq<(u64, NetMessage)>>,
    conns: Seq<Connection>,
    ents0: Seq<EntityRec>,
    ents1: Seq<EntityRec>,
    out0: Seq<(u64, NetMessage)>,
    out1: Seq<(u64, NetMessage)>,
) -> bool {
    let n = ents0.len() as int;
    &&& tr.len() == 2 * n + 1
    &&& tro.len() == 2 * n + 1
    &&& tr[0] == ents0
    &&& tr[2 * n] == ents1
    &&& tro[0] == out0
    &&& tro[2 * n] == out1
    &&& forall|j: int|
        0 <= j < n ==> drop_tick_step(
            #[trigger] tr[j],
            tr[j + 1],
            conns,
            tro[j],
            tro[j + 1],
            j,
        )
    &&& forall|j: int|
        0 <= j < n ==> pickup_tick_step(
            #[trigger] tr[n + j],
            tr[n + j + 1],
            conns,
            tro[n + j],
            tro[n + j + 1],
            j,
        )
}

impl ItemPickupDrop {
    /// Processes and consumes every pending request: first all drop
    /// requests, then all pickup requests, each through its single-request
    /// processor. Requests on entities that lack a position, an inventory or
    /// a client (an internal inconsistency) are discarded without touching
    /// the world. The final world and outbox are exactly the ones reached by
    /// stepping through the requests in that order (`interaction_trace`).
    pub fn run(world: &mut ServerState, out: &mut Vec<(u64, NetMessage)>)
        requires
            old(world).wf(),
        ensures
            final(world).wf(),
            final(world).conns@ == old(world).conns@,
            final(world).ents@.len() == old(world).ents@.len(),
            forall|j: int|
                0 <= j < final(world).ents@.len() ==> (#[trigger] final(world).ents@[j]).drop_request
                    is None && final(world).ents@[j].pickup_request is None,
            // the tick is the trace of its per-request steps: every drop in
            // entity order, then every pickup in entity order
            exists|tr: Seq<Seq<EntityRec>>, tro: Seq<Seq<(u64, NetMessage)>>|
                interaction_trace(
                    tr,
                    tro,
                    old(world).conns@,
                    old(world).ents@,
                    final(world).ents@,
                    old(out)@,
                    final(out)@,
                ),
    {
        let n = world.ents.len();
        let ghost mut tr: Seq<Seq<EntityRec>> = seq![world.ents@];
        let ghost mut tro: Seq<Seq<(u64, NetMessage)>> = seq![out@];
        let mut i: usize = 0;
        while i < n
            invariant
                world.wf(),
                n == world.ents@.len() == old(world).ents@.len(),
                i <= n,
                world.conns@ == old(world).conns@,
                forall|j: int|
                    0 <= j < i ==> (#[trigger] world.ents@[j]).drop_request is None,
                tr.len() == i + 1,
                tro.len() == i + 1,
                tr[0] == old(world).ents@,
                tro[0] == old(out)@,
                tr[i as int] == world.ents@,
                tro[i as int] == out@,
                forall|j: int|
                    0 <= j < i ==> drop_tick_step(
                        #[trigger] tr[j],
                        tr[j + 1],
                        old(world).conns@,
                        tro[j],
                        tro[j + 1],
                        j,
                    ),
            decreases n - i,
        {
            let ghost pre = world.ents@;
            let ghost opre = out@;
            let req = world.ents[i].drop_request;
            world.ents[i].drop_request = None;
            proof {
                assert(world.ents@ =~= consume_drop(pre, i as int));
            }
            match req {
                Some(slot) => {
                    if world.ents[i].alive && world.ents[i].pos.is_some()
                        && world.ents[i].inventory.is_some() && world.ents[i].client.is_some() {
                        Self::process_drop_request(world, i, slot, out);
                    }
                },
                None => {
                    proof {
                        assert(consume_drop(pre, i as int) =~= pre);
                    }
                },
            }
            proof {
                assert(drop_tick_step(pre, world.ents@, old(world).conns@, opre, out@, i as int));
                tr = tr.push(world.ents@);
                tro = tro.push(out@);
            }
            i = i + 1;
        }
        let mut i2: usize = 0;
        while i2 < n
            invariant
                world.wf(),
                n == world.ents@.len() == old(world).ents@.len(),
                i2 <= n,
                world.conns@ == old(world).conns@,
                forall|j: int|
                    0 <= j < n ==> (#[trigger] world.ents@[j]).drop_request is None,
                forall|j: int|
                    0 <= j < i2 ==> (#[trigger] world.ents@[j]).pickup_request is None,
                tr.len() == n + 1 + i2,
                tro.len() == n + 1 + i2,
                tr[0] == old(world).ents@,
                tro[0] == old(out)@,
                tr[n + i2 as int] == world.ents@,
                tro[n + i2 as int] == out@,
                forall|j: int|
                    0 <= j < n ==> drop_tick_step(
                        #[trigger] tr[j],
                        tr[j + 1],
                        old(world).conns@,
                        tro[j],
                        tro[j + 1],
                        j,
                    ),
                forall|j: int|
                    0 <= j < i2 ==> pickup_tick_step(
                        #[trigger] tr[n + j],
                        tr[n + j + 1],
                        old(world).conns@,
                        tro[n + j],
                        tro[n + j + 1],
                        j,
                    ),
            decreases n - i2,
        {
            let ghost pre = world.ents@;
            let ghost opre = out@;
            let req = world.ents[i2].pickup_request;
            world.ents[i2].pickup_request = None;
            proof {
                assert(world.ents@ =~= consume_pickup(pre, i2 as int));
            }
            match req {
                Some(id) => {
                    if world.ents[i2].alive && world.ents[i2].pos.is_some()
                        && world.ents[i2].inventory.is_some() && world.ents[i2].client.is_some() {
                        Self::process_pickup_request(world, i2, id, out);
                    }
                },
                None => {
                    proof {
                        assert(consume_pickup(pre, i2 as int) =~= pre);
                    }
                },
            }
            proof {
                assert(pickup_tick_step(
                    pre,
                    world.ents@,
                    old(world).conns@,
                    opre,
                    out@,
                    i2 as int,
                ));
                tr = tr.push(world.ents@);
                tro = tro.push(out@);
            }
            i2 = i2 + 1;
        }
        proof {
            assert(interaction_trace(
                tr,
                tro,
                old(world).conns@,
                old(world).ents@,
                world.ents@,
                old(out)@,
                out@,
            ));
        }
    }
}

impl ServerState {
    /// Retire every entity marked dead: its slot stays (handles are indices
    /// and are not reused here) but it is no longer alive.
    pub fn clear_dead(&mut self)
        requires
            old(self).wf(),
        ensures
            final(self).wf(),
            final(self).conns@ == old(self).conns@,
            final(self).ents@.len() == old(self).ents@.len(),
            forall|j: int|
                0 <= j < old(self).ents@.len() ==> final(self).ents@[j] == (if (#[trigger] old(self).ents@[j]).dead {
                    EntityRec { alive: false, ..old(self).ents@[j] }
                } else {
                    old(self).ents@[j]
                }),
    {
        let n = self.ents.len();
        let mut i: usize = 0;
        while i < n
            invariant
                self.wf(),
                n == self.ents@.len() == old(self).ents@.len(),
                i <= n,
                self.conns@ == old(self).conns@,
                forall|j: int|
                    0 <= j < i ==> self.ents@[j] == (if (#[trigger] old(self).ents@[j]).dead {
                        EntityRec { alive: false, ..old(self).ents@[j] }
                    } else {
                        old(self).ents@[j]
                    }),
                forall|j: int| i <= j < n ==> self.ents@[j] == old(self).ents@[j],
            decreases n - i,
        {
            if self.ents[i].dead {
                self.ents[i].alive = false;
            }
            i = i + 1;
        }
    }
}

} // verus!
