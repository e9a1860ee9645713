//! One frame of the main loop: the loopback exchange, then composition.
use vstd::prelude::*;
use crate::ball::{Ball, BALL_RADIUS, BALL_X_MAX, BALL_Y_MAX};
use crate::framebuffer::{Framebuffer, on_surface};
use crate::graphics::{
    GraphicsCache, digit_segments, draw_fps, segment_at, segment_color, shown_fps, update_graphics,
};
use crate::network::{Client, LocalClient, LocalServer, Server, handle_local};
use crate::packets::{GamestatePacket, InputPacket};
use crate::racket::{Racket, RACKET_Y_MAX, RACKET_Y_MIN, clamped};

verus! {

/// One frame, run once the synchroniser permits it. The server publishes
/// `server_gamestate`; one loopback exchange delivers it to both clients and
/// hands the clients' pending inputs to the server; each client then records
/// its player's new input from `inputs`; the frame is composed from the
/// snapshot the first client received, and the frame-rate overlay is drawn
/// on top. The result says which scores the caller writes this frame.
pub fn game_loop<F: Framebuffer>(
    framebuffer: &mut F,
    fps: usize,
    rackets: &mut [Racket; 2],
    ball: &mut Ball,
    cache: &mut GraphicsCache,
    client1: &mut LocalClient,
    client2: &mut LocalClient,
    server: &mut LocalServer,
    server_gamestate: &GamestatePacket,
    inputs: [InputPacket; 2],
    total_time: usize,
) -> (r: [bool; 2])
    requires
        old(rackets)[0].wf(),
        old(rackets)[1].wf(),
        old(ball).wf(),
    ensures
        final(server).published() == *server_gamestate,
        final(server).latest_inputs()[0] == old(client1).pending_input(),
        final(server).latest_inputs()[1] == old(client2).pending_input(),
        final(client1).latest_gamestate() == *server_gamestate,
        final(client2).latest_gamestate() == *server_gamestate,
        final(client1).pending_input() == inputs[0],
        final(client2).pending_input() == inputs[1],
        forall|k: int|
            0 <= k < 2 ==> {
                &&& (#[trigger] final(rackets)[k]).wf()
                &&& final(rackets)[k].x() == old(rackets)[k].x()
                &&& final(rackets)[k].y() == clamped(
                    server_gamestate.rackets[k].y as int,
                    RACKET_Y_MIN as int,
                    RACKET_Y_MAX as int,
                )
                &&& final(rackets)[k].y_old() == old(rackets)[k].y()
            },
        final(ball).wf(),
        final(ball).x() == clamped(server_gamestate.ball.x as int, BALL_RADIUS as int, BALL_X_MAX as int),
        final(ball).y() == clamped(server_gamestate.ball.y as int, BALL_RADIUS as int, BALL_Y_MAX as int),
        forall|k: int|
            0 <= k < 2 ==> #[trigger] r[k] == old(cache).redraws(
                server_gamestate.score,
                total_time as int,
                k,
            ),
        *final(cache) == old(cache).after_frame(server_gamestate.score, total_time),
        forall|k: int|
            0 <= k < 2 ==> #[trigger] final(cache).shown_score(k) == if r[k] {
                server_gamestate.score[k]
            } else {
                old(cache).shown_score(k)
            },
        final(cache).last_redraw() == if r[0] || r[1] {
            total_time
        } else {
            old(cache).last_redraw()
        },
        !r[0] && !r[1] ==> *final(cache) == *old(cache),
        final(cache).shown_score(0) == server_gamestate.score[0],
        final(cache).shown_score(1) == server_gamestate.score[1],
        final(framebuffer).width() == old(framebuffer).width(),
        final(framebuffer).height() == old(framebuffer).height(),
        forall|i: int, j: int|
            segment_at(i, j) >= 0 && on_surface(old(framebuffer).width(), old(framebuffer).height(), i, j)
                ==> #[trigger] final(framebuffer).pixel(i, j) == segment_color(
                digit_segments(shown_fps(fps as int) / 10)[segment_at(i, j)],
            ),
        forall|i: int, j: int|
            segment_at(i - 5, j) >= 0 && on_surface(old(framebuffer).width(), old(framebuffer).height(), i, j)
                ==> #[trigger] final(framebuffer).pixel(i, j) == segment_color(
                digit_segments(shown_fps(fps as int) % 10)[segment_at(i - 5, j)],
            ),
{
    server.send_gamestate(server_gamestate);
    handle_local(client1, client2, server);
    client1.send_input(&inputs[0]);
    client2.send_input(&inputs[1]);
    let gamestate = client1.receive_gamestate();
    let r = update_graphics(framebuffer, &gamestate, rackets, ball, cache, total_time);
    let ghost composed = *framebuffer;
    draw_fps(framebuffer, fps);
    proof {
        assert forall|i: int, j: int|
            segment_at(i - 5, j) >= 0 && on_surface(composed.width(), composed.height(), i, j)
                implies #[trigger] framebuffer.pixel(i, j) == segment_color(
                digit_segments(shown_fps(fps as int) % 10)[segment_at(i - 5, j)],
            ) by {
            assert(segment_at(i, j) < 0);
        }
    }
    r
}

} // verus!
