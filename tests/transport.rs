use pong::ball::Ball;
use pong::framebuffer::PixelBuffer;
use pong::game::game_loop;
use pong::graphics::GraphicsCache;
use pong::racket::Racket;
use pong::network::{handle_local, poll_action, reverse_all_but_last, Client, LocalClient, LocalServer, PollAction, PollOutcome, Server};
use pong::packets::{BallPacket, GamestatePacket, InputPacket, RacketPacket};

fn snapshot(score: [u8; 2]) -> GamestatePacket {
    GamestatePacket {
        rackets: [RacketPacket { x: 10, y: 135 }, RacketPacket { x: 469, y: 135 }],
        ball: BallPacket { x: 240, y: 136, x_vel: 0, y_vel: 0 },
        score,
    }
}

#[test]
fn packets_start_zeroed() {
    let g = GamestatePacket::new();
    assert_eq!(g.score, [0, 0]);
    assert_eq!(g.ball, BallPacket { x: 0, y: 0, x_vel: 0, y_vel: 0 });
    assert_eq!(g.rackets, [RacketPacket { x: 0, y: 0 }; 2]);
    assert_eq!(InputPacket::new(), InputPacket { up: false, down: false });
    assert_eq!(RacketPacket::new(), RacketPacket { x: 0, y: 0 });
    assert!(snapshot([1, 0]) != snapshot([0, 0]));
    assert!(snapshot([1, 0]) == snapshot([1, 0]));
}

#[test]
fn client_before_first_exchange_holds_zeroed_snapshot() {
    let c = LocalClient::new();
    assert_eq!(c.receive_gamestate(), GamestatePacket::new());
    let s = LocalServer::new();
    assert_eq!(s.receive_inputs(), [InputPacket::new(), InputPacket::new()]);
}

#[test]
fn exchange_delivers_server_snapshot_after_sends() {
    let mut c1 = LocalClient::new();
    let mut c2 = LocalClient::new();
    let mut s = LocalServer::new();
    c1.send_input(&InputPacket { up: true, down: false });
    c2.send_input(&InputPacket { up: false, down: true });
    c1.send_input(&InputPacket { up: false, down: true });
    let g = snapshot([3, 4]);
    s.send_gamestate(&g);
    handle_local(&mut c1, &mut c2, &mut s);
    assert_eq!(c1.receive_gamestate(), g);
    assert_eq!(c2.receive_gamestate(), g);
}

#[test]
fn second_send_before_exchange_wins() {
    let mut c1 = LocalClient::new();
    let mut c2 = LocalClient::new();
    let mut s = LocalServer::new();
    c1.send_input(&InputPacket { up: true, down: false });
    c1.send_input(&InputPacket { up: false, down: true });
    c2.send_input(&InputPacket { up: true, down: true });
    handle_local(&mut c1, &mut c2, &mut s);
    assert_eq!(
        s.receive_inputs(),
        [InputPacket { up: false, down: true }, InputPacket { up: true, down: true }]
    );
}

#[test]
fn published_snapshot_replaces_previous() {
    let mut s = LocalServer::new();
    s.send_gamestate(&snapshot([1, 1]));
    s.send_gamestate(&snapshot([2, 0]));
    let mut c1 = LocalClient::new();
    let mut c2 = LocalClient::new();
    handle_local(&mut c1, &mut c2, &mut s);
    assert_eq!(c1.receive_gamestate(), snapshot([2, 0]));
}

#[test]
fn scenario_publish_exchange_then_score_change() {
    let mut c1 = LocalClient::new();
    let mut c2 = LocalClient::new();
    let mut s = LocalServer::new();
    let first = snapshot([0, 0]);
    s.send_gamestate(&first);
    handle_local(&mut c1, &mut c2, &mut s);
    assert_eq!(c1.receive_gamestate(), first);
    assert_eq!(c2.receive_gamestate(), first);

    let mut fb = PixelBuffer::new(480, 272);
    let mut rackets = [Racket::new(0), Racket::new(1)];
    let mut ball = Ball::new();
    let mut cache = GraphicsCache::new();
    let none = [InputPacket::new(), InputPacket::new()];
    let shown = game_loop(&mut fb, 0, &mut rackets, &mut ball, &mut cache, &mut c1, &mut c2, &mut s, &first, none, 10);
    assert_eq!(shown, [true, true]);

    let second = snapshot([1, 0]);
    let redrawn = game_loop(&mut fb, 0, &mut rackets, &mut ball, &mut cache, &mut c1, &mut c2, &mut s, &second, none, 26);
    assert_eq!(redrawn, [true, false]);
    assert_eq!(cache.score(0), 1);
    assert_eq!(cache.score(1), 0);
    assert_eq!(c1.receive_gamestate(), second);
    assert_eq!(c2.receive_gamestate(), second);
}

#[test]
fn echo_reverses_all_but_last_byte() {
    let mut data = vec![0x01u8, 0x02, 0x03, 0x04];
    reverse_all_but_last(&mut data);
    assert_eq!(data, vec![0x03, 0x02, 0x01, 0x04]);
}

#[test]
fn echo_edge_lengths() {
    let mut empty: Vec<u8> = Vec::new();
    reverse_all_but_last(&mut empty);
    assert!(empty.is_empty());
    let mut one = vec![7u8];
    reverse_all_but_last(&mut one);
    assert_eq!(one, vec![7]);
    let mut two = vec![7u8, 8];
    reverse_all_but_last(&mut two);
    assert_eq!(two, vec![7, 8]);
    let mut five = vec![1u8, 2, 3, 4, 5];
    reverse_all_but_last(&mut five);
    assert_eq!(five, vec![4, 3, 2, 1, 5]);
}

#[test]
fn poll_reactions() {
    assert_eq!(poll_action(PollOutcome::Exhausted), PollAction::EndCycle);
    assert_eq!(poll_action(PollOutcome::Unrecognized), PollAction::ReportFault);
    assert_eq!(poll_action(PollOutcome::Failed), PollAction::ReportFault);
    assert_eq!(poll_action(PollOutcome::Polled(true)), PollAction::DispatchSockets);
    assert_eq!(poll_action(PollOutcome::Polled(false)), PollAction::EndCycle);
}
