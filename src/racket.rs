//! A player's racket on screen.
use vstd::prelude::*;
use crate::framebuffer::{Framebuffer, painted, painted_twice, lemma_painted_twice};
use crate::graphics::{draw_rectangle, in_rect};

verus! {

/// Half the width of a racket, in columns.
pub const RACKET_WIDTH: u16 = 10;

/// Half the height of a racket, in rows.
pub const RACKET_HEIGHT: u16 = 30;

/// The grey level a racket is drawn in.
pub const RACKET_COLOR: u8 = 150;

/// The grey level of the background.
pub const BGCOLOR: u8 = 0;

/// The lowest row a racket's centre is drawn at.
pub const RACKET_Y_MIN: u16 = 30;

/// The highest row a racket's centre is drawn at, on a screen of 272 rows.
pub const RACKET_Y_MAX: u16 = 241;

/// `v` clamped into `lo..=hi`.
pub open spec fn clamped(v: int, lo: int, hi: int) -> int {
    if v < lo {
        lo
    } else if v > hi {
        hi
    } else {
        v
    }
}

/// Column `i`, row `j` lies in a racket centred at `(x, y)`.
pub open spec fn in_racket(x: int, y: int, i: int, j: int) -> bool {
    in_rect(x - RACKET_WIDTH, x + RACKET_WIDTH, y - RACKET_HEIGHT, y + RACKET_HEIGHT, i, j)
}

/// A racket's centre, now and as last drawn before.
#[derive(Clone, Copy, Debug)]
pub struct Racket {
    xpos_centre: u16,
    ypos_centre: u16,
    ypos_centre_old: u16,
}

impl Racket {
    /// The column of the centre.
    pub closed spec fn x(self) -> u16 {
        self.xpos_centre
    }

    /// The row of the centre.
    pub closed spec fn y(self) -> u16 {
        self.ypos_centre
    }

    /// The row of the centre before the last move.
    pub closed spec fn y_old(self) -> u16 {
        self.ypos_centre_old
    }

    /// The racket lies on a 480 by 272 screen and its centre row lies in
    /// `RACKET_Y_MIN..=RACKET_Y_MAX`.
    pub open spec fn wf(self) -> bool {
        &&& RACKET_WIDTH <= self.x() <= 479 - RACKET_WIDTH
        &&& RACKET_Y_MIN <= self.y() <= RACKET_Y_MAX
    }

    /// The racket of player `player_id` at its start position: player 0 at the
    /// left edge, any other player at the right edge, both mid-height.
    pub fn new(player_id: u8) -> (r: Racket)
        ensures
            r.x() == if player_id == 0 {
                RACKET_WIDTH as int
            } else {
                479 - RACKET_WIDTH
            },
            r.y() == 135,
            r.y_old() == 135,
            r.wf(),
    {
        if player_id == 0 {
            Racket { xpos_centre: RACKET_WIDTH, ypos_centre: 135, ypos_centre_old: 135 }
        } else {
            Racket { xpos_centre: 479 - RACKET_WIDTH, ypos_centre: 135, ypos_centre_old: 135 }
        }
    }

    /// Sets the row of the centre.
    pub fn set_ypos_centre(&mut self, ypos_centre_set: u16)
        ensures
            final(self).y() == ypos_centre_set,
            final(self).x() == old(self).x(),
            final(self).y_old() == old(self).y_old(),
    {
        self.ypos_centre = ypos_centre_set;
    }

    /// Sets the row of the centre before the last move.
    pub fn set_ypos_centre_old(&mut self, ypos_centre_set: u16)
        ensures
            final(self).y_old() == ypos_centre_set,
            final(self).x() == old(self).x(),
            final(self).y() == old(self).y(),
    {
        self.ypos_centre_old = ypos_centre_set;
    }

    /// The column of the centre.
    pub fn get_xpos_centre(&self) -> (r: u16)
        ensures
            r == self.x(),
    {
        self.xpos_centre
    }

    /// The row of the centre.
    pub fn get_ypos_centre(&self) -> (r: u16)
        ensures
            r == self.y(),
    {
        self.ypos_centre
    }

    /// The row of the centre before the last move.
    pub fn get_ypos_centre_old(&self) -> (r: u16)
        ensures
            r == self.y_old(),
    {
        self.ypos_centre_old
    }

    /// Draws the racket at its centre.
    pub fn draw_racket<F: Framebuffer>(&self, buffer: &mut F)
        requires
            RACKET_WIDTH <= self.x() <= u16::MAX - RACKET_WIDTH,
            RACKET_HEIGHT <= self.y() <= u16::MAX - RACKET_HEIGHT,
        ensures
            painted(
                *old(buffer),
                *final(buffer),
                |i: int, j: int| in_racket(self.x() as int, self.y() as int, i, j),
                RACKET_COLOR,
            ),
    {
        draw_rectangle(
            buffer,
            self.xpos_centre - RACKET_WIDTH,
            self.xpos_centre + RACKET_WIDTH,
            self.ypos_centre - RACKET_HEIGHT,
            self.ypos_centre + RACKET_HEIGHT,
            RACKET_COLOR,
        );
    }

    /// Erases the rows `y_top_erase..=y_bottom_erase` of a racket in column
    /// `x_pos_centre` with the background, then draws its rows
    /// `y_top_draw..=y_bottom_draw`.
    pub fn draw_moved_racket<F: Framebuffer>(
        &self,
        buffer: &mut F,
        x_pos_centre: u16,
        y_top_erase: u16,
        y_bottom_erase: u16,
        y_top_draw: u16,
        y_bottom_draw: u16,
    )
        requires
            RACKET_WIDTH <= x_pos_centre <= u16::MAX - RACKET_WIDTH,
        ensures
            painted_twice(
                *old(buffer),
                *final(buffer),
                |i: int, j: int|
                    in_rect(
                        x_pos_centre - RACKET_WIDTH,
                        x_pos_centre + RACKET_WIDTH,
                        y_top_erase as int,
                        y_bottom_erase as int,
                        i,
                        j,
                    ),
                BGCOLOR,
                |i: int, j: int|
                    in_rect(
                        x_pos_centre - RACKET_WIDTH,
                        x_pos_centre + RACKET_WIDTH,
                        y_top_draw as int,
                        y_bottom_draw as int,
                        i,
                        j,
                    ),
                RACKET_COLOR,
            ),
    {
        let ghost start = *buffer;
        draw_rectangle(
            buffer,
            x_pos_centre - RACKET_WIDTH,
            x_pos_centre + RACKET_WIDTH,
            y_top_erase,
            y_bottom_erase,
            BGCOLOR,
        );
        let ghost erased = *buffer;
        draw_rectangle(
            buffer,
            x_pos_centre - RACKET_WIDTH,
            x_pos_centre + RACKET_WIDTH,
            y_top_draw,
            y_bottom_draw,
            RACKET_COLOR,
        );
        proof {
            lemma_painted_twice(
                start,
                erased,
                *buffer,
                |i: int, j: int|
                    in_rect(
                        x_pos_centre - RACKET_WIDTH,
                        x_pos_centre + RACKET_WIDTH,
                        y_top_erase as int,
                        y_bottom_erase as int,
                        i,
                        j,
                    ),
                BGCOLOR,
                |i: int, j: int|
                    in_rect(
                        x_pos_centre - RACKET_WIDTH,
                        x_pos_centre + RACKET_WIDTH,
                        y_top_draw as int,
                        y_bottom_draw as int,
                        i,
                        j,
                    ),
                RACKET_COLOR,
            );
        }
    }

    /// Moves the racket to row `y`, clamped to `RACKET_Y_MIN..=RACKET_Y_MAX`:
    /// the racket at its previous row is erased and drawn at the new one.
    pub fn update_racket_pos<F: Framebuffer>(&mut self, buffer: &mut F, y: u16)
        requires
            old(self).wf(),
        ensures
            final(self).wf(),
            final(self).x() == old(self).x(),
            final(self).y() == clamped(y as int, RACKET_Y_MIN as int, RACKET_Y_MAX as int),
            final(self).y_old() == old(self).y(),
            painted_twice(
                *old(buffer),
                *final(buffer),
                |i: int, j: int| in_racket(old(self).x() as int, old(self).y() as int, i, j),
                BGCOLOR,
                |i: int, j: int| in_racket(final(self).x() as int, final(self).y() as int, i, j),
                RACKET_COLOR,
            ),
    {
        let target = if y < RACKET_Y_MIN {
            RACKET_Y_MIN
        } else if y > RACKET_Y_MAX {
            RACKET_Y_MAX
        } else {
            y
        };
        let previous = self.ypos_centre;
        self.ypos_centre_old = previous;
        self.ypos_centre = target;
        self.draw_moved_racket(
            buffer,
            self.xpos_centre,
            previous - RACKET_HEIGHT,
            previous + RACKET_HEIGHT,
            target - RACKET_HEIGHT,
            target + RACKET_HEIGHT,
        );
    }
}

} // verus!
