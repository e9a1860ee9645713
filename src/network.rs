//! Client/server state distribution: the two capability traits, the
//! in-memory loopback transport, and the decisions of the polled network
//! transport (its echo diagnostic and its reaction to a poll).
use vstd::prelude::*;
use crate::packets::{GamestatePacket, InputPacket};

verus! {

/// A player's view of the game: it hands in input and reads the latest snapshot.
pub trait Client {
    /// The input recorded for the next exchange.
    spec fn pending_input(&self) -> InputPacket;

    /// The most recently delivered snapshot.
    spec fn latest_gamestate(&self) -> GamestatePacket;

    /// Records local input for the next exchange; the held snapshot stays.
    fn send_input(&mut self, input: &InputPacket)
        ensures
            final(self).pending_input() == *input,
            final(self).latest_gamestate() == old(self).latest_gamestate(),
    ;

    /// The most recently delivered snapshot.
    fn receive_gamestate(&self) -> (r: GamestatePacket)
        ensures
            r == self.latest_gamestate(),
    ;
}

/// The authoritative side: it reads both players' inputs and publishes snapshots.
pub trait Server {
    /// The latest input of each player, in player order.
    spec fn latest_inputs(&self) -> [InputPacket; 2];

    /// The snapshot published last.
    spec fn published(&self) -> GamestatePacket;

    /// The latest input of each of the two players, in player order.
    fn receive_inputs(&self) -> (r: [InputPacket; 2])
        ensures
            r == self.latest_inputs(),
    ;

    /// Publishes a snapshot, replacing the previous one entirely.
    fn send_gamestate(&mut self, gamestate: &GamestatePacket)
        ensures
            final(self).published() == *gamestate,
            final(self).latest_inputs() == old(self).latest_inputs(),
    ;
}

/// A client of the loopback transport.
pub struct LocalClient {
    gamestate: GamestatePacket,
    input: InputPacket,
}

impl LocalClient {
    /// A client that holds the zeroed snapshot and a neutral input.
    pub fn new() -> (r: LocalClient)
        ensures
            r.latest_gamestate() == GamestatePacket::zeroed(),
            r.pending_input() == (InputPacket { up: false, down: false }),
    {
        LocalClient { gamestate: GamestatePacket::new(), input: InputPacket::new() }
    }
}

impl Client for LocalClient {
    closed spec fn pending_input(&self) -> InputPacket {
        self.input
    }

    closed spec fn latest_gamestate(&self) -> GamestatePacket {
        self.gamestate
    }

    fn send_input(&mut self, input: &InputPacket)
        ensures
            *final(self) == after_send(*old(self), *input),
    {
        self.input = *input;
    }

    fn receive_gamestate(&self) -> (r: GamestatePacket) {
        self.gamestate
    }
}

/// The server of the loopback transport.
pub struct LocalServer {
    gamestate: GamestatePacket,
    player_inputs: [InputPacket; 2],
}

impl LocalServer {
    /// A server that holds the zeroed snapshot and two neutral inputs.
    pub fn new() -> (r: LocalServer)
        ensures
            r.published() == GamestatePacket::zeroed(),
            r.latest_inputs()[0] == (InputPacket { up: false, down: false }),
            r.latest_inputs()[1] == (InputPacket { up: false, down: false }),
    {
        LocalServer {
            gamestate: GamestatePacket::new(),
            player_inputs: [InputPacket::new(), InputPacket::new()],
        }
    }
}

impl Server for LocalServer {
    closed spec fn latest_inputs(&self) -> [InputPacket; 2] {
        self.player_inputs
    }

    closed spec fn published(&self) -> GamestatePacket {
        self.gamestate
    }

    fn receive_inputs(&self) -> (r: [InputPacket; 2]) {
        self.player_inputs
    }

    fn send_gamestate(&mut self, gamestate: &GamestatePacket) {
        self.gamestate = *gamestate;
    }
}

/// A loopback client after `inputs` were sent to it one after the other.
pub open spec fn after_sends(c: LocalClient, inputs: Seq<InputPacket>) -> LocalClient
    decreases inputs.len(),
{
    if inputs.len() == 0 {
        c
    } else {
        after_send(after_sends(c, inputs.drop_last()), inputs.last())
    }
}

/// A loopback client after one input was sent to it.
pub closed spec fn after_send(c: LocalClient, input: InputPacket) -> LocalClient {
    LocalClient { input, ..c }
}

/// A loopback client after an exchange with server `s`: it holds the server's snapshot.
pub closed spec fn client_after_exchange(c: LocalClient, s: LocalServer) -> LocalClient {
    LocalClient { gamestate: s.gamestate, ..c }
}

/// The loopback server after an exchange: it holds each client's pending input
/// at that client's index.
pub closed spec fn server_after_exchange(
    c1: LocalClient,
    c2: LocalClient,
    s: LocalServer,
) -> LocalServer {
    LocalServer { player_inputs: [c1.input, c2.input], ..s }
}

/// One loopback exchange: each client's pending input goes to the server's slot
/// at the client's index, and the server's snapshot goes to each client.
pub fn handle_local(client1: &mut LocalClient, client2: &mut LocalClient, server: &mut LocalServer)
    ensures
        *final(client1) == client_after_exchange(*old(client1), *old(server)),
        *final(client2) == client_after_exchange(*old(client2), *old(server)),
        *final(server) == server_after_exchange(*old(client1), *old(client2), *old(server)),
        final(client1).latest_gamestate() == old(server).published(),
        final(client2).latest_gamestate() == old(server).published(),
        final(client1).pending_input() == old(client1).pending_input(),
        final(client2).pending_input() == old(client2).pending_input(),
        final(server).published() == old(server).published(),
        final(server).latest_inputs()[0] == old(client1).pending_input(),
        final(server).latest_inputs()[1] == old(client2).pending_input(),
{
    client1.gamestate = server.gamestate;
    client2.gamestate = server.gamestate;
    server.player_inputs = [client1.input, client2.input];
}

/// Whatever inputs the clients sent before it, one exchange leaves each client
/// holding exactly the snapshot the server had at that moment.
pub proof fn lemma_exchange_delivers_snapshot(
    c1: LocalClient,
    c2: LocalClient,
    s: LocalServer,
    sends1: Seq<InputPacket>,
    sends2: Seq<InputPacket>,
)
    ensures
        client_after_exchange(after_sends(c1, sends1), s).latest_gamestate() == s.published(),
        client_after_exchange(after_sends(c2, sends2), s).latest_gamestate() == s.published(),
{
}

/// Inputs are not queued: of several sends before an exchange, only the last
/// one reaches the server, at the sending client's index.
pub proof fn lemma_last_input_wins(
    c1: LocalClient,
    c2: LocalClient,
    s: LocalServer,
    first: InputPacket,
    second: InputPacket,
)
    ensures
        after_sends(c1, seq![first, second]).pending_input() == second,
        server_after_exchange(after_sends(c1, seq![first, second]), c2, s).latest_inputs()[0]
            == second,
        server_after_exchange(c2, after_sends(c1, seq![first, second]), s).latest_inputs()[1]
            == second,
{
    let two = seq![first, second];
    assert(two.drop_last() =~= seq![first]);
    assert(seq![first].drop_last() =~= Seq::<InputPacket>::empty());
}

/// A datagram as the echo diagnostic sends it back: every byte but the last in
/// reverse order, the last byte in place.
pub open spec fn echoed(data: Seq<u8>) -> Seq<u8> {
    if data.len() == 0 {
        data
    } else {
        Seq::new(
            data.len(),
            |i: int|
                if i == data.len() - 1 {
                    data[i]
                } else {
                    data[data.len() - 2 - i]
                },
        )
    }
}

/// Turns a received datagram into the echo reply, in place: all bytes but the
/// terminal one are reversed.
pub fn reverse_all_but_last(data: &mut Vec<u8>)
    ensures
        final(data)@ == echoed(old(data)@),
{
    let n = data.len();
    if n == 0 {
        return;
    }
    let ghost orig = data@;
    let mut lo: usize = 0;
    let mut hi: usize = n - 1;
    while lo + 1 < hi
        invariant
            data@.len() == n,
            n == orig.len(),
            n >= 1,
            lo + hi == n - 1,
            lo <= hi,
            forall|i: int|
                0 <= i < n ==> #[trigger] data@[i] == if i < lo || (hi <= i && i < n - 1) {
                    orig[n - 2 - i]
                } else {
                    orig[i]
                },
        decreases hi - lo,
    {
        let a = data[lo];
        let b = data[hi - 1];
        data.set(lo, b);
        data.set(hi - 1, a);
        lo = lo + 1;
        hi = hi - 1;
    }
    assert(data@ =~= echoed(orig));
}

/// What one poll of the network interface reported.
#[derive(Clone, Copy, Debug, PartialEq, Eq, Structural)]
pub enum PollOutcome {
    /// No data was available.
    Exhausted,
    /// A frame of a kind the interface does not handle arrived.
    Unrecognized,
    /// Any other transport fault.
    Failed,
    /// The poll went through; the flag says whether some socket changed state.
    Polled(bool),
}

/// What the poll loop does after one poll.
#[derive(Clone, Copy, Debug, PartialEq, Eq, Structural)]
pub enum PollAction {
    /// End this poll cycle normally.
    EndCycle,
    /// Report the fault and go on with the next tick.
    ReportFault,
    /// Hand every socket to its handler.
    DispatchSockets,
}

/// The poll loop's reaction to one poll: no data, or no socket changed, ends
/// the cycle normally; any fault other than no data (an unrecognised frame
/// included) is reported and the loop goes on with the next tick; a changed
/// socket set is dispatched.
pub fn poll_action(outcome: PollOutcome) -> (r: PollAction)
    ensures
        r == (match outcome {
            PollOutcome::Unrecognized | PollOutcome::Failed => PollAction::ReportFault,
            PollOutcome::Polled(true) => PollAction::DispatchSockets,
            _ => PollAction::EndCycle,
        }),
{
    match outcome {
        PollOutcome::Exhausted => PollAction::EndCycle,
        PollOutcome::Unrecognized => PollAction::ReportFault,
        PollOutcome::Failed => PollAction::ReportFault,
        PollOutcome::Polled(changed) => if changed {
            PollAction::DispatchSockets
        } else {
            PollAction::EndCycle
        },
    }
}

} // verus!
