use replication::geom::Pos;
use replication::item::{Inventory, Item, SlotIndex};
use replication::lifecycle::{ConnState, Connection};
use replication::msg::{NetComponent, NetMessage, SpawnPlayer};
use replication::server::{
    Client, EntityRec, HandleClientPackets, ItemPickupDrop, SendNewPositions,
    SendWorldToNewPlayers, ServerState, SpawnNewPlayers,
};

/// A world with one player (entity 0, connection address 7, at the origin,
/// character inventory), one misc item (entity 1, one world unit east), and
/// a second established observer connection (address 8).
fn pickup_world() -> ServerState {
    let mut world = ServerState::new();
    let mut player = EntityRec::fresh();
    player.client = Some(Client(7));
    player.pos = Some(Pos::vec(0, 0));
    player.inventory = Some(Inventory::character());
    world.ents.push(player);
    let mut item = EntityRec::fresh();
    item.pos = Some(Pos::vec(1000, 0));
    item.item = Some(Item::Misc);
    world.ents.push(item);
    world.conns.push(Connection { addr: 7, ent: Some(0), state: ConnState::Established });
    world.conns.push(Connection { addr: 8, ent: None, state: ConnState::Established });
    world
}

fn is_inventory_msg(m: &(u64, NetMessage)) -> bool {
    matches!(m.1, NetMessage::InsertComp(_, NetComponent::Inventory(_)))
}

#[test]
fn pickup_within_radius_deposes_item() {
    let mut world = pickup_world();
    world.ents[0].pickup_request = Some(1);
    let mut out: Vec<(u64, NetMessage)> = Vec::new();
    ItemPickupDrop::run(&mut world, &mut out);

    // the item's position component is removed
    assert_eq!(world.ents[1].pos, None);
    // the first empty loose slot now holds the item
    let inv = world.ents[0].inventory.as_ref().unwrap();
    assert_eq!(inv.slot(&SlotIndex::Loose(0, 0)), Ok(Some(1)));
    // exactly one inventory broadcast, to the owner's connection alone
    let inv_msgs: Vec<&(u64, NetMessage)> = out.iter().filter(|m| is_inventory_msg(m)).collect();
    assert_eq!(inv_msgs.len(), 1);
    assert_eq!(inv_msgs[0].0, 7);
    // exactly one deposed-marker broadcast per connection
    let depo: Vec<&(u64, NetMessage)> = out
        .iter()
        .filter(|m| matches!(m.1, NetMessage::InsertComp(1, NetComponent::Deposition(_))))
        .collect();
    assert_eq!(depo.len(), 2);
    assert_eq!(depo[0].0, 7);
    assert_eq!(depo[1].0, 8);
    assert_eq!(out.len(), 3);
}

#[test]
fn drop_returns_item_to_player_position() {
    let mut world = pickup_world();
    world.ents[0].pickup_request = Some(1);
    let mut out: Vec<(u64, NetMessage)> = Vec::new();
    ItemPickupDrop::run(&mut world, &mut out);
    out.clear();

    // the same player now drops the item from slot (0, 0)
    world.ents[0].drop_request = Some(SlotIndex::Loose(0, 0));
    ItemPickupDrop::run(&mut world, &mut out);

    // the item regains a position equal to the player's current position
    assert_eq!(world.ents[1].pos, Some(Pos::vec(0, 0)));
    // the slot becomes empty
    let inv = world.ents[0].inventory.as_ref().unwrap();
    assert_eq!(inv.slot(&SlotIndex::Loose(0, 0)), Ok(None));
    // one position broadcast reaches every connection
    let pos_msgs: Vec<&(u64, NetMessage)> = out
        .iter()
        .filter(|m| matches!(m.1, NetMessage::InsertComp(1, NetComponent::Pos(_))))
        .collect();
    assert_eq!(pos_msgs.len(), 2);
    assert_eq!(pos_msgs[0].0, 7);
    assert_eq!(pos_msgs[1].0, 8);
    // one inventory broadcast reaches the player
    let inv_msgs: Vec<&(u64, NetMessage)> = out.iter().filter(|m| is_inventory_msg(m)).collect();
    assert_eq!(inv_msgs.len(), 1);
    assert_eq!(inv_msgs[0].0, 7);
    assert_eq!(out.len(), 3);
}

#[test]
fn drop_on_empty_slot_changes_nothing() {
    let mut world = pickup_world();
    world.ents[0].drop_request = Some(SlotIndex::Loose(2, 1));
    let mut out: Vec<(u64, NetMessage)> = Vec::new();
    ItemPickupDrop::run(&mut world, &mut out);
    assert!(out.is_empty());
    assert_eq!(world.ents[1].pos, Some(Pos::vec(1000, 0)));
    let inv = world.ents[0].inventory.as_ref().unwrap();
    for row in 0..6 {
        for col in 0..2 {
            assert_eq!(inv.slot(&SlotIndex::Loose(row, col)), Ok(None));
        }
    }
}

#[test]
fn drop_on_out_of_range_slot_changes_nothing() {
    let mut world = pickup_world();
    world.ents[0].drop_request = Some(SlotIndex::Loose(99, 99));
    let mut out: Vec<(u64, NetMessage)> = Vec::new();
    ItemPickupDrop::run(&mut world, &mut out);
    assert!(out.is_empty());
    assert_eq!(world.ents[1].pos, Some(Pos::vec(1000, 0)));
}

#[test]
fn pickup_beyond_radius_changes_nothing() {
    let mut world = pickup_world();
    // three world units away: squared distance 9_000_000 >= 4_000_000
    world.ents[1].pos = Some(Pos::vec(3000, 0));
    world.ents[0].pickup_request = Some(1);
    let mut out: Vec<(u64, NetMessage)> = Vec::new();
    ItemPickupDrop::run(&mut world, &mut out);
    assert!(out.is_empty());
    assert_eq!(world.ents[1].pos, Some(Pos::vec(3000, 0)));
    let inv = world.ents[0].inventory.as_ref().unwrap();
    assert_eq!(inv.slot(&SlotIndex::Loose(0, 0)), Ok(None));
}

#[test]
fn pickup_with_full_inventory_is_silent() {
    let mut world = pickup_world();
    let mut full = Inventory::new_loose(1, 1);
    let _ = full.insert_loose(55);
    world.ents[0].inventory = Some(full);
    world.ents[0].pickup_request = Some(1);
    let mut out: Vec<(u64, NetMessage)> = Vec::new();
    ItemPickupDrop::run(&mut world, &mut out);
    // no broadcast, no error to the client, the item stays physical
    assert!(out.is_empty());
    assert_eq!(world.ents[1].pos, Some(Pos::vec(1000, 0)));
}

#[test]
fn duplicate_login_is_ignored() {
    let mut world = ServerState::new();
    HandleClientPackets::run(
        &mut world,
        vec![(7, NetMessage::NewEnt(0)), (7, NetMessage::NewEnt(0))],
    );
    assert_eq!(world.conns.len(), 1);
    assert_eq!(world.ents.len(), 1);
    assert_eq!(world.conns[0].state, ConnState::LoggingIn);
    assert_eq!(world.conns[0].ent, Some(0));
    assert_eq!(world.ents[0].client, Some(Client(7)));
}

#[test]
fn spawn_attaches_player_components_and_announces() {
    let mut world = ServerState::new();
    HandleClientPackets::run(&mut world, vec![(7, NetMessage::NewEnt(0))]);
    HandleClientPackets::run(
        &mut world,
        vec![(7, NetMessage::InsertComp(0, NetComponent::SpawnPlayer(SpawnPlayer)))],
    );
    assert!(world.ents[0].spawn_player);
    let mut out: Vec<(u64, NetMessage)> = Vec::new();
    SpawnNewPlayers::run(&mut world, &mut out);
    assert!(!world.ents[0].spawn_player);
    assert_eq!(world.ents[0].pos, Some(Pos { x: 1000, y: 1000, rot: 0 }));
    assert!(world.ents[0].player_anim);
    assert!(world.ents[0].inventory.is_some());
    // the announcement precedes the components, and the asking client gets
    // the local-player marker
    assert_eq!(out[0], (7, NetMessage::NewEnt(0)));
    assert!(out.iter().any(|m| matches!(
        m,
        (7, NetMessage::InsertComp(0, NetComponent::LocalPlayer(_)))
    )));
}

#[test]
fn two_clients_connect_in_sequence() {
    let mut world = ServerState::new();
    let mut out: Vec<(u64, NetMessage)> = Vec::new();

    // first client connects and spawns
    HandleClientPackets::run(&mut world, vec![(7, NetMessage::NewEnt(0))]);
    SendWorldToNewPlayers::run(&mut world, &mut out);
    assert_eq!(world.conns[0].state, ConnState::Established);
    HandleClientPackets::run(
        &mut world,
        vec![(7, NetMessage::InsertComp(0, NetComponent::SpawnPlayer(SpawnPlayer)))],
    );
    SpawnNewPlayers::run(&mut world, &mut out);

    // second client connects; its full snapshot must include the first
    // client's player entity
    HandleClientPackets::run(&mut world, vec![(9, NetMessage::NewEnt(0))]);
    assert_eq!(world.conns[1].state, ConnState::LoggingIn);
    let mut snapshot: Vec<(u64, NetMessage)> = Vec::new();
    SendWorldToNewPlayers::run(&mut world, &mut snapshot);
    assert_eq!(world.conns[1].state, ConnState::Established);

    let to_second: Vec<&(u64, NetMessage)> =
        snapshot.iter().filter(|m| m.0 == 9).collect();
    assert!(!to_second.is_empty());
    // NewEnt precedes every InsertComp for the first client's entity
    let new_ent_at = to_second
        .iter()
        .position(|m| m.1 == NetMessage::NewEnt(0))
        .expect("snapshot must announce the first client's entity");
    for (k, m) in to_second.iter().enumerate() {
        if let NetMessage::InsertComp(0, _) = m.1 {
            assert!(new_ent_at < k);
        }
    }
    // the snapshot carries the entity's current components
    assert!(to_second.iter().any(|m| matches!(
        m.1,
        NetMessage::InsertComp(0, NetComponent::Pos(_))
    )));
    assert!(to_second.iter().any(|m| matches!(
        m.1,
        NetMessage::InsertComp(0, NetComponent::Appearance(_))
    )));

    // and the snapshot happened once: running the system again sends nothing
    let mut again: Vec<(u64, NetMessage)> = Vec::new();
    SendWorldToNewPlayers::run(&mut world, &mut again);
    assert!(again.is_empty());
}

#[test]
fn positions_go_to_established_connections() {
    let mut world = pickup_world();
    world.conns.push(Connection { addr: 12, ent: None, state: ConnState::LoggingIn });
    let mut out: Vec<(u64, NetMessage)> = Vec::new();
    SendNewPositions::run(&world, 555, &mut out);
    // two established connections, two live positioned entities
    assert_eq!(out.len(), 4);
    for (addr, msg) in &out {
        assert!(*addr == 7 || *addr == 8);
        match msg {
            NetMessage::InsertComp(h, NetComponent::UpdatePosition(u)) => {
                assert!(*h == 0 || *h == 1);
                assert_eq!(u.time_stamp_ms, 555);
            }
            other => panic!("unexpected message: {:?}", other),
        }
    }
}

#[test]
fn clear_dead_retires_marked_entities() {
    let mut world = pickup_world();
    world.ents[1].dead = true;
    world.clear_dead();
    assert!(!world.ents[1].alive);
    assert!(world.ents[0].alive);
    assert_eq!(world.ents.len(), 2);
}

#[test]
fn death_event_disconnects_the_connection() {
    let mut world = ServerState::new();
    HandleClientPackets::run(&mut world, vec![(7, NetMessage::NewEnt(0))]);
    HandleClientPackets::run(
        &mut world,
        vec![(7, NetMessage::InsertComp(0, NetComponent::Dead(replication::dead::Dead)))],
    );
    assert!(world.ents[0].dead);
    assert_eq!(world.conns[0].state, ConnState::Disconnected);
    world.clear_dead();
    assert!(!world.ents[0].alive);
}
