//! Player-control components and the key-to-heading decision.

use vstd::prelude::*;

verus! {

/// The server tells a client to put one of these on the entity the client is
/// looking out of at the moment.
#[derive(Clone, Copy, Debug, PartialEq, Eq, Structural)]
pub struct Camera;

/// Where the client would like to go: a direction vector in milliunits.
/// The server is not necessarily going to actually get them there.
#[derive(Clone, Copy, Debug, PartialEq, Eq, Structural)]
pub struct Heading {
    pub dx: i32,
    pub dy: i32,
}

/// The heading that a set of held movement keys (up, down, left, right) asks
/// for: a unit direction in milliunits, opposite keys cancelling and a
/// diagonal normalized to the same length as a straight step.
pub open spec fn spec_heading_from_keys(up: bool, down: bool, left: bool, right: bool) -> Heading {
    let rx: int = (if right {
        1int
    } else {
        0int
    }) - (if left {
        1int
    } else {
        0int
    });
    let ry: int = (if down {
        1int
    } else {
        0int
    }) - (if up {
        1int
    } else {
        0int
    });
    if rx != 0 && ry != 0 {
        Heading { dx: (rx * 707) as i32, dy: (ry * 707) as i32 }
    } else {
        Heading { dx: (rx * 1000) as i32, dy: (ry * 1000) as i32 }
    }
}

/// The normalized heading the held movement keys ask for.
pub fn heading_from_keys(up: bool, down: bool, left: bool, right: bool) -> (r: Heading)
    ensures
        r == spec_heading_from_keys(up, down, left, right),
{
    let mut dx: i32 = 0;
    let mut dy: i32 = 0;
    if right {
        dx = dx + 1;
    }
    if left {
        dx = dx - 1;
    }
    if down {
        dy = dy + 1;
    }
    if up {
        dy = dy - 1;
    }
    let scale: i32 = if dx != 0 && dy != 0 {
        707
    } else {
        1000
    };
    Heading { dx: dx * scale, dy: dy * scale }
}

/// The decision behind the movement controller: the heading to send, if the
/// held keys ask for one different from the current heading — only a change
/// is sent to the server.
pub fn heading_update(current: &Heading, up: bool, down: bool, left: bool, right: bool) -> (r:
    Option<Heading>)
    ensures
        r == (if spec_heading_from_keys(up, down, left, right) != *current {
            Some(spec_heading_from_keys(up, down, left, right))
        } else {
            Option::<Heading>::None
        }),
{
    let wanted = heading_from_keys(up, down, left, right);
    if wanted.dx != current.dx || wanted.dy != current.dy {
        Some(wanted)
    } else {
        None
    }
}

} // verus!
