use replication::art::{
    spritesheet, Animate, Appearance, Direction, PlayerAnimation, SpritesheetData,
};

use Direction::{Down, Left, Right, Up};
use PlayerAnimation::{Cast, Die, Jab, Shoot, Swing, Walk};

#[test]
fn test_player_anim_indexing() {
    assert_eq!(
        [
            Cast(Up), Cast(Left), Cast(Down), Cast(Right),
            Jab(Up), Jab(Left), Jab(Down), Jab(Right),
            Walk(Up), Walk(Left), Walk(Down), Walk(Right),
            Swing(Up), Swing(Left), Swing(Down), Swing(Right),
            Shoot(Up), Shoot(Left), Shoot(Down), Shoot(Right),
            Die,
        ]
        .iter()
        .map(|anim: &PlayerAnimation| -> usize { (*anim).row_index() })
        .collect::<Vec<usize>>(),
        (0..=20).collect::<Vec<usize>>(),
    )
}

#[test]
fn animate_constructors() {
    assert_eq!(Animate::new(), Animate { current_frame: 0, row: 0 });
    assert_eq!(Animate::row(8), Animate { current_frame: 0, row: 8 });
}

#[test]
fn spritesheet_layout() {
    assert!(spritesheet(&Appearance::Rock).is_none());
    let stag: SpritesheetData = spritesheet(&Appearance::GleamyStalagmite).unwrap();
    assert_eq!(stag.rows.len(), 1);
    assert_eq!(stag.rows[0].total_frames, 4);
    assert_eq!(stag.rows[0].frame_duration, 12);
    let player = spritesheet(&Appearance::Player).unwrap();
    assert_eq!(player.rows.len(), 21);
    // the walking rows play faster than the rest
    for (i, row) in player.rows.iter().enumerate() {
        if (8..12).contains(&i) {
            assert_eq!(row.frame_duration, 6);
        } else {
            assert_eq!(row.frame_duration, 12);
        }
    }
    assert_eq!(player.rows[20].total_frames, 6);
    assert_eq!(player.frame_width, 64);
}

#[test]
fn all_appearances_enumerated() {
    let all = Appearance::all();
    assert_eq!(all.len(), 5);
    assert_eq!(all[0], Appearance::Rock);
    assert_eq!(all[4], Appearance::Player);
}
