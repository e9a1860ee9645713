//! The ball on screen.
use vstd::prelude::*;
use crate::framebuffer::{Framebuffer, painted, painted_twice, lemma_painted_twice};
use crate::graphics::{draw_circle, in_disc};
use crate::packets::BallPacket;
use crate::racket::{BGCOLOR, clamped};

verus! {

/// Radius of the ball, in pixels.
pub const BALL_RADIUS: u16 = 5;

/// The grey level the ball is drawn in.
pub const BALL_COLOR: u8 = 255;

/// The highest column the ball's centre is drawn at, on a screen of 480 columns.
pub const BALL_X_MAX: u16 = 474;

/// The highest row the ball's centre is drawn at, on a screen of 272 rows.
pub const BALL_Y_MAX: u16 = 266;

/// Column `i`, row `j` lies in the ball centred at `(x, y)`.
pub open spec fn in_ball(x: int, y: int, i: int, j: int) -> bool {
    in_disc(x, y, BALL_RADIUS as int, i, j)
}

/// The ball's centre as drawn on screen.
#[derive(Clone, Copy, Debug)]
pub struct Ball {
    x: u16,
    y: u16,
}

impl Ball {
    /// The column of the centre.
    pub closed spec fn x(self) -> u16 {
        self.x
    }

    /// The row of the centre.
    pub closed spec fn y(self) -> u16 {
        self.y
    }

    /// The ball lies on a 480 by 272 screen.
    pub open spec fn wf(self) -> bool {
        &&& BALL_RADIUS <= self.x() <= BALL_X_MAX
        &&& BALL_RADIUS <= self.y() <= BALL_Y_MAX
    }

    /// The ball in the middle of the screen.
    pub fn new() -> (r: Ball)
        ensures
            r.x() == 240,
            r.y() == 136,
            r.wf(),
    {
        Ball { x: 240, y: 136 }
    }

    /// The column of the centre.
    pub fn get_x(&self) -> (r: u16)
        ensures
            r == self.x(),
    {
        self.x
    }

    /// The row of the centre.
    pub fn get_y(&self) -> (r: u16)
        ensures
            r == self.y(),
    {
        self.y
    }

    /// Draws the ball at its centre.
    pub fn draw_ball<F: Framebuffer>(&self, buffer: &mut F)
        requires
            self.wf(),
        ensures
            painted(
                *old(buffer),
                *final(buffer),
                |i: int, j: int| in_ball(self.x() as int, self.y() as int, i, j),
                BALL_COLOR,
            ),
    {
        draw_circle(buffer, self.x as u32, self.y as u32, BALL_RADIUS as u32, BALL_COLOR);
    }

    /// Moves the ball to the position of `packet`, clamped to the screen: the
    /// ball at its previous position is erased and drawn at the new one.
    pub fn update_ball_pos<F: Framebuffer>(&mut self, buffer: &mut F, packet: BallPacket)
        requires
            old(self).wf(),
        ensures
            final(self).wf(),
            final(self).x() == clamped(packet.x as int, BALL_RADIUS as int, BALL_X_MAX as int),
            final(self).y() == clamped(packet.y as int, BALL_RADIUS as int, BALL_Y_MAX as int),
            painted_twice(
                *old(buffer),
                *final(buffer),
                |i: int, j: int| in_ball(old(self).x() as int, old(self).y() as int, i, j),
                BGCOLOR,
                |i: int, j: int| in_ball(final(self).x() as int, final(self).y() as int, i, j),
                BALL_COLOR,
            ),
    {
        let ghost start = *buffer;
        draw_circle(buffer, self.x as u32, self.y as u32, BALL_RADIUS as u32, BGCOLOR);
        let ghost erased = *buffer;
        self.x = if packet.x < BALL_RADIUS {
            BALL_RADIUS
        } else if packet.x > BALL_X_MAX {
            BALL_X_MAX
        } else {
            packet.x
        };
        self.y = if packet.y < BALL_RADIUS {
            BALL_RADIUS
        } else if packet.y > BALL_Y_MAX {
            BALL_Y_MAX
        } else {
            packet.y
        };
        self.draw_ball(buffer);
        proof {
            lemma_painted_twice(
                start,
                erased,
                *buffer,
                |i: int, j: int| in_ball(old(self).x() as int, old(self).y() as int, i, j),
                BGCOLOR,
                |i: int, j: int| in_ball(self.x() as int, self.y() as int, i, j),
                BALL_COLOR,
            );
        }
    }
}

} // verus!
