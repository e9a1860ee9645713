//! Plain value records exchanged between the server and the clients.
use vstd::prelude::*;

verus! {

/// One player's input snapshot: whether the player asks to move up or down.
#[derive(Clone, Copy, Debug, PartialEq, Eq, Structural)]
pub struct InputPacket {
    pub up: bool,
    pub down: bool,
}

/// Position and velocity of the ball, in screen coordinates.
#[derive(Clone, Copy, Debug, PartialEq, Eq, Structural)]
pub struct BallPacket {
    pub x: u16,
    pub y: u16,
    pub x_vel: i16,
    pub y_vel: i16,
}

/// Centre position of one racket, in screen coordinates.
#[derive(Clone, Copy, Debug, PartialEq, Eq, Structural)]
pub struct RacketPacket {
    pub x: u16,
    pub y: u16,
}

/// The authoritative snapshot of a game: both rackets, the ball and the score.
#[derive(Clone, Copy, Debug, Eq)]
pub struct GamestatePacket {
    pub rackets: [RacketPacket; 2],
    pub ball: BallPacket,
    pub score: [u8; 2],
}

impl InputPacket {
    /// An input that asks for no movement.
    pub fn new() -> (r: InputPacket)
        ensures
            r == (InputPacket { up: false, down: false }),
    {
        InputPacket { up: false, down: false }
    }
}

impl BallPacket {
    /// A ball at the origin, at rest.
    pub fn new() -> (r: BallPacket)
        ensures
            r == (BallPacket { x: 0, y: 0, x_vel: 0, y_vel: 0 }),
    {
        BallPacket { x: 0, y: 0, x_vel: 0, y_vel: 0 }
    }
}

impl RacketPacket {
    /// A racket at the origin.
    pub fn new() -> (r: RacketPacket)
        ensures
            r == (RacketPacket { x: 0, y: 0 }),
    {
        RacketPacket { x: 0, y: 0 }
    }
}

impl GamestatePacket {
    /// The zeroed snapshot that clients hold before their first exchange.
    pub fn new() -> (r: GamestatePacket)
        ensures
            r == GamestatePacket::zeroed(),
    {
        GamestatePacket {
            rackets: [RacketPacket::new(), RacketPacket::new()],
            ball: BallPacket::new(),
            score: [0, 0],
        }
    }

    /// The zeroed snapshot.
    pub open spec fn zeroed() -> GamestatePacket {
        GamestatePacket {
            rackets: [RacketPacket { x: 0, y: 0 }, RacketPacket { x: 0, y: 0 }],
            ball: BallPacket { x: 0, y: 0, x_vel: 0, y_vel: 0 },
            score: [0, 0],
        }
    }
}

impl PartialEq for GamestatePacket {
    fn eq(&self, o: &GamestatePacket) -> (r: bool)
        ensures
            r == (*self == *o),
    {
        let same_rackets = self.rackets[0] == o.rackets[0] && self.rackets[1] == o.rackets[1];
        let same_score = self.score[0] == o.score[0] && self.score[1] == o.score[1];
        let r = same_rackets && self.ball == o.ball && same_score;
        proof {
            if r {
                assert(self.rackets =~= o.rackets);
                assert(self.score =~= o.score);
            }
        }
        r
    }
}

impl vstd::std_specs::cmp::PartialEqSpecImpl for GamestatePacket {
    open spec fn obeys_eq_spec() -> bool {
        true
    }

    open spec fn eq_spec(&self, o: &GamestatePacket) -> bool {
        *self == *o
    }
}

} // verus!
