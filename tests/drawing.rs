use pong::ball::{Ball, BALL_COLOR};
use pong::framebuffer::{Framebuffer, PixelBuffer};
use pong::game::game_loop;
use pong::graphics::{
    draw_circle, draw_fps, draw_guidelines, draw_initial, draw_number, draw_partial_circle,
    draw_rectangle, draw_seven_segment, quad, update_graphics, GraphicsCache,
};
use pong::network::{Client, LocalClient, LocalServer, Server};
use pong::packets::{BallPacket, GamestatePacket, InputPacket, RacketPacket};
use pong::racket::{Racket, BGCOLOR, RACKET_COLOR};

fn lit(fb: &PixelBuffer) -> Vec<(usize, usize)> {
    let mut v = Vec::new();
    for y in 0..20 {
        for x in 0..20 {
            if fb.get_pixel(x, y) != 0 {
                v.push((x, y));
            }
        }
    }
    v
}

#[test]
fn set_pixel_ignores_points_off_the_surface() {
    let mut fb = PixelBuffer::new(4, 3);
    fb.set_pixel(3, 2, 9);
    fb.set_pixel(4, 0, 9);
    fb.set_pixel(0, 3, 9);
    assert_eq!(fb.get_pixel(3, 2), 9);
    assert_eq!(fb.get_pixel(4, 0), 0);
    assert_eq!(fb.get_pixel(0, 3), 0);
}

#[test]
fn rectangle_bounds_are_inclusive() {
    let mut fb = PixelBuffer::new(20, 20);
    draw_rectangle(&mut fb, 2, 4, 3, 4, 7);
    assert_eq!(lit(&fb), vec![(2, 3), (3, 3), (4, 3), (2, 4), (3, 4), (4, 4)]);
    assert_eq!(fb.get_pixel(3, 3), 7);
}

#[test]
fn circle_of_radius_two() {
    let mut fb = PixelBuffer::new(20, 20);
    draw_circle(&mut fb, 5, 5, 2, 1);
    assert_eq!(lit(&fb).len(), 13);
    assert_eq!(fb.get_pixel(5, 3), 1);
    assert_eq!(fb.get_pixel(7, 5), 1);
    assert_eq!(fb.get_pixel(6, 6), 1);
    assert_eq!(fb.get_pixel(7, 7), 0);
}

#[test]
fn partial_circle_leaves_out_overlap() {
    let mut fb = PixelBuffer::new(20, 20);
    draw_partial_circle(&mut fb, 5, 5, 7, 5, 2, 1, 1);
    // the full disc has 13 pixels; (7,5) and (6,5) lie in the inner disc
    assert_eq!(fb.get_pixel(7, 5), 0);
    assert_eq!(fb.get_pixel(6, 5), 0);
    assert_eq!(fb.get_pixel(3, 5), 1);
    assert_eq!(fb.get_pixel(5, 3), 1);
    assert_eq!(lit(&fb).len(), 11);
}

#[test]
fn quad_fills_square() {
    let mut fb = PixelBuffer::new(20, 20);
    quad(1, 2, 2, &5, &mut fb);
    assert_eq!(lit(&fb), vec![(1, 2), (2, 2), (1, 3), (2, 3)]);
    let mut empty = PixelBuffer::new(20, 20);
    quad(1, 2, 0, &5, &mut empty);
    assert!(lit(&empty).is_empty());
}

#[test]
fn guidelines_on_full_screen() {
    let mut fb = PixelBuffer::new(480, 272);
    draw_guidelines(&mut fb);
    assert_eq!(fb.get_pixel(120, 0), 64);
    assert_eq!(fb.get_pixel(240, 271), 128);
    assert_eq!(fb.get_pixel(360, 10), 64);
    assert_eq!(fb.get_pixel(0, 136), 128);
    assert_eq!(fb.get_pixel(120, 136), 128);
    assert_eq!(fb.get_pixel(121, 135), 0);
}

#[test]
fn seven_segment_sets_lit_and_dark_cells() {
    let mut fb = PixelBuffer::new(20, 20);
    fb.set_pixel(1, 1, 9);
    draw_seven_segment(&mut fb, 0, 0, true, false, false, false, false, false, false);
    assert_eq!(fb.get_pixel(0, 0), 255);
    assert_eq!(fb.get_pixel(2, 0), 255);
    assert_eq!(fb.get_pixel(0, 1), 0);
    assert_eq!(fb.get_pixel(1, 1), 9);
}

#[test]
fn digit_eight_lights_all_segments() {
    let mut fb = PixelBuffer::new(20, 20);
    draw_number(&mut fb, 2, 1, 8);
    assert_eq!(lit(&fb).len(), 17);
    let mut one = PixelBuffer::new(20, 20);
    draw_number(&mut one, 0, 0, 1);
    assert_eq!(lit(&one), vec![(2, 1), (2, 2), (2, 4), (2, 5)]);
    let mut none = PixelBuffer::new(20, 20);
    draw_number(&mut none, 0, 0, 10);
    assert!(lit(&none).is_empty());
}

#[test]
fn fps_overlay_is_clamped_to_99() {
    let mut fb = PixelBuffer::new(20, 20);
    draw_fps(&mut fb, 150);
    let mut expected = PixelBuffer::new(20, 20);
    draw_number(&mut expected, 0, 0, 9);
    draw_number(&mut expected, 5, 0, 9);
    assert_eq!(lit(&fb), lit(&expected));
    let mut seven = PixelBuffer::new(20, 20);
    draw_fps(&mut seven, 7);
    assert_eq!(seven.get_pixel(1, 3), 0); // tens digit 0: centre dark
    assert_eq!(seven.get_pixel(6, 0), 255); // ones digit 7: top lit
}

#[test]
fn rackets_start_at_screen_edges() {
    let left = Racket::new(0);
    let right = Racket::new(1);
    assert_eq!((left.get_xpos_centre(), left.get_ypos_centre()), (10, 135));
    assert_eq!((right.get_xpos_centre(), right.get_ypos_centre()), (469, 135));
    assert_eq!(right.get_ypos_centre_old(), 135);
}

#[test]
fn racket_setters() {
    let mut r = Racket::new(0);
    r.set_ypos_centre(100);
    r.set_ypos_centre_old(90);
    assert_eq!(r.get_ypos_centre(), 100);
    assert_eq!(r.get_ypos_centre_old(), 90);
    assert_eq!(r.get_xpos_centre(), 10);
}

#[test]
fn racket_draw_and_move() {
    let mut fb = PixelBuffer::new(480, 272);
    let mut r = Racket::new(0);
    r.draw_racket(&mut fb);
    assert_eq!(fb.get_pixel(0, 105), RACKET_COLOR);
    assert_eq!(fb.get_pixel(20, 165), RACKET_COLOR);
    assert_eq!(fb.get_pixel(21, 165), 0);
    r.update_racket_pos(&mut fb, 500);
    assert_eq!(r.get_ypos_centre(), 241);
    assert_eq!(r.get_ypos_centre_old(), 135);
    assert_eq!(fb.get_pixel(10, 105), BGCOLOR);
    assert_eq!(fb.get_pixel(10, 211), RACKET_COLOR);
    assert_eq!(fb.get_pixel(10, 271), RACKET_COLOR);
    r.update_racket_pos(&mut fb, 0);
    assert_eq!(r.get_ypos_centre(), 30);
}

#[test]
fn moved_racket_draws_over_erased_rows() {
    let mut fb = PixelBuffer::new(40, 40);
    let r = Racket::new(0);
    draw_rectangle(&mut fb, 0, 20, 0, 10, 77);
    r.draw_moved_racket(&mut fb, 10, 0, 5, 5, 8);
    assert_eq!(fb.get_pixel(3, 2), BGCOLOR);
    assert_eq!(fb.get_pixel(3, 5), RACKET_COLOR);
    assert_eq!(fb.get_pixel(3, 9), 77);
}

#[test]
fn ball_moves_and_is_clamped() {
    let mut fb = PixelBuffer::new(480, 272);
    let mut ball = Ball::new();
    ball.draw_ball(&mut fb);
    assert_eq!(fb.get_pixel(240, 136), BALL_COLOR);
    ball.update_ball_pos(&mut fb, BallPacket { x: 0, y: 1000, x_vel: 1, y_vel: -1 });
    assert_eq!((ball.get_x(), ball.get_y()), (5, 266));
    assert_eq!(fb.get_pixel(240, 136), BGCOLOR);
    assert_eq!(fb.get_pixel(5, 266), BALL_COLOR);
}

#[test]
fn initial_drawing_shows_rackets_and_ball() {
    let mut fb = PixelBuffer::new(480, 272);
    let rackets = [Racket::new(0), Racket::new(1)];
    let ball = Ball::new();
    draw_initial(&mut fb, &rackets, &ball);
    assert_eq!(fb.get_pixel(10, 135), RACKET_COLOR);
    assert_eq!(fb.get_pixel(469, 135), RACKET_COLOR);
    assert_eq!(fb.get_pixel(240, 136), BALL_COLOR);
    assert_eq!(fb.get_pixel(100, 100), 0);
}

fn state(score: [u8; 2], ball: (u16, u16)) -> GamestatePacket {
    GamestatePacket {
        rackets: [RacketPacket { x: 10, y: 100 }, RacketPacket { x: 469, y: 200 }],
        ball: BallPacket { x: ball.0, y: ball.1, x_vel: 0, y_vel: 0 },
        score,
    }
}

#[test]
fn update_graphics_moves_everything_and_plans_scores() {
    let mut fb = PixelBuffer::new(480, 272);
    let mut rackets = [Racket::new(0), Racket::new(1)];
    let mut ball = Ball::new();
    let mut cache = GraphicsCache::new();
    let r = update_graphics(&mut fb, &state([0, 0], (300, 50)), &mut rackets, &mut ball, &mut cache, 10);
    assert_eq!(r, [true, true]);
    assert_eq!(rackets[0].get_ypos_centre(), 100);
    assert_eq!(rackets[1].get_ypos_centre(), 200);
    assert_eq!((ball.get_x(), ball.get_y()), (300, 50));
    assert_eq!(fb.get_pixel(300, 50), BALL_COLOR);
    assert_eq!(fb.get_pixel(10, 100), RACKET_COLOR);
    let again = update_graphics(&mut fb, &state([0, 0], (300, 50)), &mut rackets, &mut ball, &mut cache, 20);
    assert_eq!(again, [false, false]);
}

#[test]
fn game_loop_exchanges_and_composes() {
    let mut fb = PixelBuffer::new(480, 272);
    let mut rackets = [Racket::new(0), Racket::new(1)];
    let mut ball = Ball::new();
    let mut cache = GraphicsCache::new();
    let mut c1 = LocalClient::new();
    let mut c2 = LocalClient::new();
    let mut server = LocalServer::new();
    c1.send_input(&InputPacket { up: true, down: false });
    let g = state([1, 0], (100, 100));
    let inputs = [InputPacket { up: false, down: true }, InputPacket { up: true, down: true }];
    let r = game_loop(&mut fb, 42, &mut rackets, &mut ball, &mut cache, &mut c1, &mut c2, &mut server, &g, inputs, 30);
    assert_eq!(r, [true, true]);
    assert_eq!(c1.receive_gamestate(), g);
    assert_eq!(c2.receive_gamestate(), g);
    assert_eq!(server.receive_inputs(), [InputPacket { up: true, down: false }, InputPacket::new()]);
    assert_eq!((ball.get_x(), ball.get_y()), (100, 100));
    assert_eq!(cache.score(0), 1);
    // overlay: tens digit 4 has no top segment, ones digit 2 has its bottom left one
    assert_eq!(fb.get_pixel(0, 0), 0);
    assert_eq!(fb.get_pixel(5, 4), 255);
    let r2 = game_loop(&mut fb, 42, &mut rackets, &mut ball, &mut cache, &mut c1, &mut c2, &mut server, &g, inputs, 40);
    assert_eq!(r2, [false, false]);
    assert_eq!(server.receive_inputs(), inputs);
}

#[test]
fn update_graphics_cache_follows_staleness_window() {
    let mut fb = PixelBuffer::new(480, 272);
    let mut rackets = [Racket::new(0), Racket::new(1)];
    let mut ball = Ball::new();
    let mut cache = GraphicsCache::new();
    let g0 = state([0, 0], (240, 136));
    assert_eq!(update_graphics(&mut fb, &g0, &mut rackets, &mut ball, &mut cache, 0), [true, true]);
    assert_eq!(update_graphics(&mut fb, &g0, &mut rackets, &mut ball, &mut cache, 1000), [false, false]);
    assert_eq!((cache.score(0), cache.score(1), cache.last_score_redraw()), (0, 0, 0));
    assert_eq!(update_graphics(&mut fb, &g0, &mut rackets, &mut ball, &mut cache, 1001), [true, true]);
    assert_eq!((cache.score(0), cache.score(1), cache.last_score_redraw()), (0, 0, 1001));
}

#[test]
fn update_graphics_redraws_only_changed_score() {
    let mut fb = PixelBuffer::new(480, 272);
    let mut rackets = [Racket::new(0), Racket::new(1)];
    let mut ball = Ball::new();
    let mut cache = GraphicsCache::new();
    update_graphics(&mut fb, &state([0, 0], (240, 136)), &mut rackets, &mut ball, &mut cache, 100);
    let r = update_graphics(&mut fb, &state([1, 0], (240, 136)), &mut rackets, &mut ball, &mut cache, 116);
    assert_eq!(r, [true, false]);
    assert_eq!((cache.score(0), cache.score(1), cache.last_score_redraw()), (1, 0, 116));
}
