//! Appearance and animation components, and the player-animation row table.

use vstd::prelude::*;

verus! {

/// Entities with this component are rendered at a special stage on the
/// client, with their origin at (center, center) rather than (center, bottom).
#[derive(Clone, Copy, Debug, PartialEq, Eq, Structural)]
pub struct Tile;

/// Which sprite an entity is drawn with. Behavior can affect how something is
/// rendered, but the appearance never affects the behavior.
#[derive(Clone, Copy, Debug, PartialEq, Eq, Structural)]
pub enum Appearance {
    Rock,
    SpottedRock,
    RockHole,
    GleamyStalagmite,
    Player,
}

impl Appearance {
    /// Every appearance, in declaration order.
    pub fn all() -> (r: Vec<Appearance>)
        ensures
            r@ == seq![
                Appearance::Rock,
                Appearance::SpottedRock,
                Appearance::RockHole,
                Appearance::GleamyStalagmite,
                Appearance::Player,
            ],
    {
        let mut v: Vec<Appearance> = Vec::new();
        v.push(Appearance::Rock);
        v.push(Appearance::SpottedRock);
        v.push(Appearance::RockHole);
        v.push(Appearance::GleamyStalagmite);
        v.push(Appearance::Player);
        proof {
            assert(v@ =~= seq![
                Appearance::Rock,
                Appearance::SpottedRock,
                Appearance::RockHole,
                Appearance::GleamyStalagmite,
                Appearance::Player,
            ]);
        }
        v
    }
}

/// The animation state of an entity: the current frame counter and the
/// spritesheet row being played.
#[derive(Clone, Copy, Debug, PartialEq, Eq, Structural)]
pub struct Animate {
    pub current_frame: u32,
    pub row: u32,
}

impl Animate {
    /// A fresh animation on row 0.
    pub fn new() -> (r: Self)
        ensures
            r == (Animate { current_frame: 0u32, row: 0u32 }),
    {
        Animate { current_frame: 0, row: 0 }
    }

    /// A fresh animation on the given row.
    pub fn row(row: u32) -> (r: Self)
        ensures
            r == (Animate { current_frame: 0u32, row: row }),
    {
        Animate { current_frame: 0, row }
    }
}

/// Marks an entity whose animation row follows its heading (a player).
#[derive(Clone, Copy, Debug, PartialEq, Eq, Structural)]
pub struct PlayerAnimationController;

/// A facing direction for a player animation.
#[derive(Clone, Copy, Debug, PartialEq, Eq, Structural)]
pub enum Direction {
    Up,
    Left,
    Down,
    Right,
}

impl Direction {
    /// The row offset of this direction within an animation group.
    pub fn offset(self) -> (r: usize)
        ensures
            r == match self {
                Direction::Up => 0int,
                Direction::Left => 1int,
                Direction::Down => 2int,
                Direction::Right => 3int,
            },
    {
        match self {
            Direction::Up => 0,
            Direction::Left => 1,
            Direction::Down => 2,
            Direction::Right => 3,
        }
    }
}

/// One of the player's animations: each group of four directions occupies
/// four consecutive spritesheet rows, and the death animation the last row.
#[derive(Clone, Copy, Debug, PartialEq, Eq, Structural)]
pub enum PlayerAnimation {
    Cast(Direction),
    Jab(Direction),
    Walk(Direction),
    Swing(Direction),
    Shoot(Direction),
    Die,
}

impl PlayerAnimation {
    /// The spritesheet row this animation is stored on.
    pub fn row_index(self) -> (r: usize)
        ensures
            r == match self {
                PlayerAnimation::Cast(d) => d.spec_offset(),
                PlayerAnimation::Jab(d) => 4 + d.spec_offset(),
                PlayerAnimation::Walk(d) => 8 + d.spec_offset(),
                PlayerAnimation::Swing(d) => 12 + d.spec_offset(),
                PlayerAnimation::Shoot(d) => 16 + d.spec_offset(),
                PlayerAnimation::Die => 20int,
            },
            r <= 20,
    {
        match self {
            PlayerAnimation::Cast(d) => d.offset(),
            PlayerAnimation::Jab(d) => 4 + d.offset(),
            PlayerAnimation::Walk(d) => 8 + d.offset(),
            PlayerAnimation::Swing(d) => 12 + d.offset(),
            PlayerAnimation::Shoot(d) => 16 + d.offset(),
            PlayerAnimation::Die => 20,
        }
    }
}

impl Direction {
    /// The row offset of this direction, as a spec value.
    pub open spec fn spec_offset(self) -> int {
        match self {
            Direction::Up => 0,
            Direction::Left => 1,
            Direction::Down => 2,
            Direction::Right => 3,
        }
    }
}

/// An animation stored on one row of a spritesheet.
#[derive(Clone, Copy, Debug, PartialEq, Eq, Structural)]
pub struct AnimationData {
    pub total_frames: usize,
    /// How long to spend on one frame.
    pub frame_duration: usize,
}

/// A spritesheet stores several animations in rows; each column is a new
/// frame. Every frame has the same height and width.
#[derive(Clone, Debug, PartialEq, Eq)]
pub struct SpritesheetData {
    pub rows: Vec<AnimationData>,
    pub frame_width: usize,
    pub frame_height: usize,
}

/// The spritesheet layout of the given appearance, for the appearances that
/// are animated: the stalagmite has one four-frame row; the player has four
/// directional rows for each of its five action groups and one death row.
pub fn spritesheet(appearance: &Appearance) -> (r: Option<SpritesheetData>)
    ensures
        r is Some <==> (*appearance == Appearance::GleamyStalagmite || *appearance
            == Appearance::Player),
        *appearance == Appearance::GleamyStalagmite ==> (r matches Some(s) && s.rows@.len() == 1
            && s.rows@[0] == (AnimationData { total_frames: 4usize, frame_duration: 12usize })
            && s.frame_width == 32 && s.frame_height == 32),
        *appearance == Appearance::Player ==> (r matches Some(s) && s.rows@.len() == 21 && (forall|
            i: int,
        |
            0 <= i < 20 ==> (#[trigger] s.rows@[i]).frame_duration == (if 8 <= i < 12 {
                6int
            } else {
                12int
            })) && s.rows@[20] == (AnimationData { total_frames: 6usize, frame_duration: 12usize })
            && s.frame_width == 64 && s.frame_height == 64),
{
    match appearance {
        Appearance::GleamyStalagmite => {
            let mut rows: Vec<AnimationData> = Vec::new();
            rows.push(AnimationData { total_frames: 4, frame_duration: 12 });
            Some(SpritesheetData { rows, frame_width: 32, frame_height: 32 })
        },
        Appearance::Player => {
            let mut rows: Vec<AnimationData> = Vec::new();
            let mut group: usize = 0;
            while group < 5
                invariant
                    group <= 5,
                    rows@.len() == 4 * group,
                    forall|i: int|
                        0 <= i < rows@.len() ==> (#[trigger] rows@[i]).frame_duration == (if 8 <= i
                            < 12 {
                            6int
                        } else {
                            12int
                        }),
                decreases 5 - group,
            {
                let (total_frames, frame_duration): (usize, usize) = if group == 0 {
                    (7, 12)  // casting
                } else if group == 1 {
                    (8, 12)  // jabbing
                } else if group == 2 {
                    (9, 6)  // walking
                } else if group == 3 {
                    (6, 12)  // swinging
                } else {
                    (13, 12)  // shooting
                };
                let mut d: usize = 0;
                while d < 4
                    invariant
                        d <= 4,
                        group < 5,
                        rows@.len() == 4 * group + d,
                        frame_duration == (if group == 2 {
                            6int
                        } else {
                            12int
                        }),
                        forall|i: int|
                            0 <= i < rows@.len() ==> (#[trigger] rows@[i]).frame_duration == (if 8
                                <= i < 12 {
                                6int
                            } else {
                                12int
                            }),
                    decreases 4 - d,
                {
                    rows.push(AnimationData { total_frames, frame_duration });
                    d = d + 1;
                }
                group = group + 1;
            }
            rows.push(AnimationData { total_frames: 6, frame_duration: 12 });
            Some(SpritesheetData { rows, frame_width: 64, frame_height: 64 })
        },
        _ => None,
    }
}

} // verus!
