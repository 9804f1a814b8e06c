use replication::art::Animate;
use replication::client::{
    pick_item_target, smooth_toward, ClientState, DepositionItems, HandleServerPackets,
    SyncPositions,
};
use replication::controls::heading_from_keys;
use replication::geom::Pos;
use replication::msg::{NetComponent, NetMessage, SpawnPlayer, UpdatePosition};
use replication::translator::ServerToLocalIds;

#[test]
fn first_message_triggers_spawn_request() {
    let mut state = ClientState::new();
    let mut handler = HandleServerPackets { connection_established: false };
    let mut requests: Vec<NetMessage> = Vec::new();
    handler.run(&mut state, vec![NetMessage::NewEnt(40)], &mut requests);
    assert!(handler.connection_established);
    assert_eq!(requests.len(), 1);
    assert!(matches!(
        requests[0],
        NetMessage::InsertComp(0, NetComponent::SpawnPlayer(SpawnPlayer))
    ));
    // only the first message asks to spawn
    handler.run(&mut state, vec![NetMessage::NewEnt(41)], &mut requests);
    assert_eq!(requests.len(), 1);
}

#[test]
fn server_handles_translate_to_local_entities() {
    let mut state = ClientState::new();
    let mut handler = HandleServerPackets { connection_established: true };
    let mut requests: Vec<NetMessage> = Vec::new();
    handler.run(
        &mut state,
        vec![
            NetMessage::NewEnt(500),
            NetMessage::NewEnt(200),
            NetMessage::InsertComp(200, NetComponent::Pos(Pos::vec(5, 6))),
            NetMessage::InsertComp(500, NetComponent::Animate(Animate::new())),
        ],
        &mut requests,
    );
    assert_eq!(state.ents.len(), 2);
    // server handle 500 became local 0, server handle 200 became local 1
    assert_eq!(state.ids.get_by_server(500), Some(0));
    assert_eq!(state.ids.get_by_server(200), Some(1));
    assert_eq!(state.ids.get_by_local(1), Some(200));
    assert_eq!(state.ents[1].pos, Some(Pos::vec(5, 6)));
    assert_eq!(state.ents[0].animate, Some(Animate::new()));
    // a handle never announced is dropped silently
    handler.run(
        &mut state,
        vec![NetMessage::InsertComp(999, NetComponent::Pos(Pos::vec(1, 1)))],
        &mut requests,
    );
    assert_eq!(state.ents.len(), 2);
}

#[test]
fn local_player_marker_selects_the_player() {
    let mut state = ClientState::new();
    let mut handler = HandleServerPackets { connection_established: true };
    let mut requests: Vec<NetMessage> = Vec::new();
    handler.run(
        &mut state,
        vec![
            NetMessage::NewEnt(3),
            NetMessage::InsertComp(3, NetComponent::LocalPlayer(replication::msg::LocalPlayer)),
        ],
        &mut requests,
    );
    assert_eq!(state.player.0, Some(0));
}

#[test]
fn smoothing_moves_three_percent_toward_target() {
    assert_eq!(smooth_toward(0, 1000), 30);
    assert_eq!(smooth_toward(1000, 0), 970);
    assert_eq!(smooth_toward(0, 0), 0);
    assert_eq!(smooth_toward(-500, 500), -470);
    // small distances round toward no movement, never overshoot
    assert_eq!(smooth_toward(0, 30), 0);
    assert_eq!(smooth_toward(0, 34), 1);
}

#[test]
fn sync_positions_nudges_toward_authoritative() {
    let mut state = ClientState::new();
    let mut handler = HandleServerPackets { connection_established: true };
    let mut requests: Vec<NetMessage> = Vec::new();
    handler.run(
        &mut state,
        vec![
            NetMessage::NewEnt(1),
            NetMessage::InsertComp(1, NetComponent::Pos(Pos::vec(0, 0))),
            NetMessage::InsertComp(
                1,
                NetComponent::UpdatePosition(UpdatePosition {
                    pos: Pos::vec(1000, -1000),
                    time_stamp_ms: 1,
                }),
            ),
        ],
        &mut requests,
    );
    SyncPositions::run(&mut state);
    assert_eq!(state.ents[0].pos, Some(Pos { x: 30, y: -30, rot: 0 }));
    SyncPositions::run(&mut state);
    assert_eq!(state.ents[0].pos, Some(Pos { x: 59, y: -59, rot: 0 }));
}

#[test]
fn deposed_items_lose_their_position() {
    let mut state = ClientState::new();
    let mut handler = HandleServerPackets { connection_established: true };
    let mut requests: Vec<NetMessage> = Vec::new();
    handler.run(
        &mut state,
        vec![
            NetMessage::NewEnt(1),
            NetMessage::InsertComp(1, NetComponent::Pos(Pos::vec(9, 9))),
            NetMessage::InsertComp(1, NetComponent::Deposition(replication::item::Deposition)),
        ],
        &mut requests,
    );
    DepositionItems::run(&mut state);
    assert_eq!(state.ents[0].pos, None);
    assert!(!state.ents[0].deposition);
}

#[test]
fn death_retires_shadow_entity_and_translation() {
    let mut state = ClientState::new();
    let mut handler = HandleServerPackets { connection_established: true };
    let mut requests: Vec<NetMessage> = Vec::new();
    handler.run(
        &mut state,
        vec![
            NetMessage::NewEnt(70),
            NetMessage::NewEnt(71),
            NetMessage::InsertComp(70, NetComponent::Dead(replication::dead::Dead)),
        ],
        &mut requests,
    );
    state.clear_dead();
    assert!(!state.ents[0].alive);
    assert!(state.ents[1].alive);
    // the dead entity's translation entry is gone; the live one stays
    assert_eq!(state.ids.get_by_server(70), None);
    assert_eq!(state.ids.get_by_server(71), Some(1));
    // a late message for the dead server handle is dropped silently
    handler.run(
        &mut state,
        vec![NetMessage::InsertComp(70, NetComponent::Pos(Pos::vec(1, 1)))],
        &mut requests,
    );
    assert_eq!(state.ents[0].pos, None);
}

#[test]
fn click_picks_nearest_qualifying_item() {
    let click = Pos::vec(1100, 0);
    let player = Pos::vec(0, 0);
    let items = vec![
        (10, Pos::vec(1000, 0)), // 100 mu from the click, near the player
        (11, Pos::vec(1200, 0)), // also 100 mu from the click
        (12, Pos::vec(9000, 0)), // far from click and player alike
    ];
    // items 10 and 11 tie for the minimal distance; the earlier one wins
    assert_eq!(pick_item_target(&click, &player, &items), Some(10));
    // an item close to the click but far from the player does not qualify
    let items2 = vec![(20, Pos::vec(9000, 0))];
    let far_click = Pos::vec(9100, 0);
    assert_eq!(pick_item_target(&far_click, &player, &items2), None);
    // no items at all
    assert_eq!(pick_item_target(&click, &player, &Vec::new()), None);
}

#[test]
fn heading_from_held_keys() {
    let h = heading_from_keys(false, false, false, true);
    assert_eq!((h.dx, h.dy), (1000, 0));
    // a diagonal is normalized to the length of a straight step
    let h2 = heading_from_keys(true, false, true, false);
    assert_eq!((h2.dx, h2.dy), (-707, -707));
    let h3 = heading_from_keys(true, true, true, true);
    assert_eq!((h3.dx, h3.dy), (0, 0));
}

#[test]
fn only_heading_changes_are_sent() {
    let current = replication::controls::Heading { dx: 1000, dy: 0 };
    // same keys as the current heading: nothing to send
    assert_eq!(
        replication::controls::heading_update(&current, false, false, false, true),
        None
    );
    // a released key changes the heading: send the new one
    let sent = replication::controls::heading_update(&current, false, false, false, false);
    assert_eq!(sent, Some(replication::controls::Heading { dx: 0, dy: 0 }));
}

#[test]
fn translator_resolves_both_directions() {
    let mut ids = ServerToLocalIds::new();
    ids.insert(1000, 1);
    ids.insert(2000, 2);
    assert_eq!(ids.get_by_server(1000), Some(1));
    assert_eq!(ids.get_by_server(2000), Some(2));
    assert_eq!(ids.get_by_local(2), Some(2000));
    assert_eq!(ids.get_by_server(3000), None);
    assert_eq!(ids.get_by_local(3), None);
}

#[test]
fn translator_insert_overwrites_stale_pairs() {
    let mut ids = ServerToLocalIds::new();
    ids.insert(1000, 1);
    // the same server handle maps to a new local: the old pair goes
    ids.insert(1000, 5);
    assert_eq!(ids.get_by_server(1000), Some(5));
    assert_eq!(ids.get_by_local(1), None);
    // a new server handle takes over a local: the colliding pair goes
    ids.insert(7000, 5);
    assert_eq!(ids.get_by_server(7000), Some(5));
    assert_eq!(ids.get_by_server(1000), None);
}

#[test]
fn translator_removal_on_death() {
    let mut ids = ServerToLocalIds::new();
    ids.insert(1000, 1);
    assert_eq!(ids.remove_by_local(1), Some((1000, 1)));
    assert_eq!(ids.get_by_server(1000), None);
    assert_eq!(ids.remove_by_local(1), None);
}
