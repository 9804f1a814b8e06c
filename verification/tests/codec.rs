use replication::art::{Animate, Appearance, PlayerAnimationController, Tile};
use replication::codec::{decode_message, encode_message};
use replication::controls::{Camera, Heading};
use replication::dead::Dead;
use replication::geom::{Hitbox, Pos};
use replication::item::{Deposition, DropRequest, Inventory, Item, PickupRequest, SlotIndex};
use replication::msg::{LocalPlayer, NetComponent, NetMessage, SpawnPlayer, UpdatePosition};

fn round_trips(msg: NetMessage) {
    let bytes = encode_message(&msg);
    let back = decode_message(&bytes);
    assert_eq!(back, Some(msg));
}

#[test]
fn new_ent_round_trip() {
    round_trips(NetMessage::NewEnt(0));
    round_trips(NetMessage::NewEnt(0xdeadbeef));
    round_trips(NetMessage::NewEnt(u32::MAX));
}

#[test]
fn marker_components_round_trip() {
    round_trips(NetMessage::InsertComp(1, NetComponent::Tile(Tile)));
    round_trips(NetMessage::InsertComp(
        2,
        NetComponent::PlayerAnimationController(PlayerAnimationController),
    ));
    round_trips(NetMessage::InsertComp(3, NetComponent::Dead(Dead)));
    round_trips(NetMessage::InsertComp(4, NetComponent::SpawnPlayer(SpawnPlayer)));
    round_trips(NetMessage::InsertComp(5, NetComponent::LocalPlayer(LocalPlayer)));
    round_trips(NetMessage::InsertComp(6, NetComponent::Camera(Camera)));
    round_trips(NetMessage::InsertComp(7, NetComponent::Deposition(Deposition)));
}

#[test]
fn appearance_round_trip() {
    for a in replication::art::Appearance::all() {
        round_trips(NetMessage::InsertComp(9, NetComponent::Appearance(a)));
    }
}

#[test]
fn payload_components_round_trip() {
    round_trips(NetMessage::InsertComp(
        10,
        NetComponent::Pos(Pos { x: -1500, y: 2750, rot: -90000 }),
    ));
    round_trips(NetMessage::InsertComp(
        11,
        NetComponent::Hitbox(Hitbox { half_w: 800, half_h: 500 }),
    ));
    round_trips(NetMessage::InsertComp(
        12,
        NetComponent::Animate(Animate { current_frame: 17, row: 9 }),
    ));
    round_trips(NetMessage::InsertComp(
        13,
        NetComponent::UpdatePosition(UpdatePosition {
            pos: Pos { x: i32::MIN, y: i32::MAX, rot: 0 },
            time_stamp_ms: u64::MAX,
        }),
    ));
    round_trips(NetMessage::InsertComp(
        14,
        NetComponent::Heading(Heading { dx: -1000, dy: 1000 }),
    ));
    round_trips(NetMessage::InsertComp(15, NetComponent::Item(Item::Weapon)));
    round_trips(NetMessage::InsertComp(16, NetComponent::Item(Item::Misc)));
    round_trips(NetMessage::InsertComp(
        17,
        NetComponent::PickupRequest(PickupRequest { id: 0x01020304 }),
    ));
    round_trips(NetMessage::InsertComp(
        18,
        NetComponent::DropRequest(DropRequest { item_index: SlotIndex::Loose(3, 1) }),
    ));
    round_trips(NetMessage::InsertComp(
        19,
        NetComponent::DropRequest(DropRequest {
            item_index: SlotIndex::Reserved(Item::Weapon),
        }),
    ));
}

#[test]
fn inventory_round_trip() {
    let mut inv = Inventory::character();
    let _ = inv.insert(41, &Item::Weapon);
    let _ = inv.insert(42, &Item::Misc);
    let _ = inv.insert(43, &Item::Misc);
    let _ = inv.clear(&SlotIndex::Loose(0, 0));
    let msg = NetMessage::InsertComp(20, NetComponent::Inventory(inv));
    let bytes = encode_message(&msg);
    match decode_message(&bytes) {
        Some(NetMessage::InsertComp(20, NetComponent::Inventory(back))) => {
            assert_eq!(back.slot(&SlotIndex::Reserved(Item::Weapon)), Ok(Some(41)));
            assert_eq!(back.slot(&SlotIndex::Loose(0, 0)), Ok(None));
            assert_eq!(back.slot(&SlotIndex::Loose(0, 1)), Ok(Some(43)));
            assert_eq!(back.rows(), 6);
            assert_eq!(back.columns(), 2);
        }
        other => panic!("unexpected decode result: {:?}", other),
    }
}

#[test]
fn empty_inventory_round_trip() {
    let inv = Inventory::new_loose(0, 0);
    round_trips(NetMessage::InsertComp(21, NetComponent::Inventory(inv)));
}

#[test]
fn encoding_is_tagged_and_nonempty() {
    // the variant tag precedes the payload; the frame is never the raw value
    let bytes = encode_message(&NetMessage::NewEnt(5));
    assert_eq!(bytes, vec![0, 0, 0, 0, 5]);
    let bytes2 = encode_message(&NetMessage::InsertComp(5, NetComponent::Tile(Tile)));
    assert_eq!(bytes2, vec![1, 0, 0, 0, 5, 1]);
}

#[test]
fn malformed_frames_are_rejected() {
    assert_eq!(decode_message(&vec![]), None);
    // unknown message tag
    assert_eq!(decode_message(&vec![9, 0, 0, 0, 0]), None);
    // truncated handle
    assert_eq!(decode_message(&vec![0, 1, 2]), None);
    // unknown component tag
    assert_eq!(decode_message(&vec![1, 0, 0, 0, 0, 250]), None);
    // trailing bytes after a complete message
    assert_eq!(decode_message(&vec![0, 0, 0, 0, 5, 7]), None);
    // truncated inventory payload
    assert_eq!(decode_message(&vec![1, 0, 0, 0, 0, 13, 0, 0]), None);
}

#[test]
fn appearance_tags_are_distinct() {
    let mut frames = Vec::new();
    for a in Appearance::all() {
        frames.push(encode_message(&NetMessage::InsertComp(0, NetComponent::Appearance(a))));
    }
    for i in 0..frames.len() {
        for j in 0..frames.len() {
            if i != j {
                assert_ne!(frames[i], frames[j]);
            }
        }
    }
}
