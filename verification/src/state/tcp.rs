//! Connection tracking for TCP: two peers' state machines driven by the
//! packets that are seen going from one to the other.

use crate::endpoint::Direction;
use crate::endpoint::Endpoint;
use crate::event::Packet;
use crate::message::CloseMsg;
use crate::message::PacketMsg;
use crate::tcp_fsm::StateMachine;
use crate::tcp_fsm::TCPInput;
use crate::tcp_fsm::TCPState;
use crate::tcp_fsm::TCP;
use std::collections::HashSet;
use vstd::prelude::*;

verus! {

/// How long a peer waits in `TimeWait` before its timer fires, in seconds.
pub const TIME_WAIT_SECS: u64 = 60;

/// A SYN or a FIN with its sequence number.
#[derive(Debug, Clone, Copy, PartialEq, Eq, Structural)]
pub enum SpecialPacket {
    SYN(u32),
    FIN(u32),
}

/// The SYN or FIN that a packet is; a packet with both counts as a FIN.
pub open spec fn spec_special_packet(packet: Packet) -> Option<SpecialPacket> {
    if packet.is_fin() {
        Some(SpecialPacket::FIN(packet.seq))
    } else if packet.is_syn() {
        Some(SpecialPacket::SYN(packet.seq))
    } else {
        None
    }
}

/// The sequence number that follows `seq`: numbers are counted modulo 2^32,
/// so the number after the largest is zero.
pub open spec fn spec_next_seq(seq: u32) -> u32 {
    ((seq + 1) % 0x1_0000_0000) as u32
}

/// Whether a packet acknowledges the remembered FIN: it carries ACK, and its
/// acknowledgement number is the one that follows the FIN's sequence number.
pub open spec fn acks_fin(special: Option<SpecialPacket>, packet: Packet) -> bool {
    packet.is_ack() && (special matches Some(SpecialPacket::FIN(seq)) && spec_next_seq(seq)
        == packet.ack_seq)
}

/// Whether a packet acknowledges the remembered SYN.
pub open spec fn acks_syn(special: Option<SpecialPacket>, packet: Packet) -> bool {
    packet.is_ack() && (special matches Some(SpecialPacket::SYN(seq)) && spec_next_seq(seq)
        == packet.ack_seq)
}

/// One peer of a connection: its endpoint, its state machine, and the last
/// SYN or FIN that it received and that it sent.
#[derive(Debug, Clone, Copy, PartialEq, Eq, Structural)]
pub struct TcpFsmState {
    pub e: Endpoint,
    pub fsm: StateMachine,
    pub received_special_packet: Option<SpecialPacket>,
    pub sent_special_packet: Option<SpecialPacket>,
}

fn acks(special: Option<SpecialPacket>, packet: &Packet) -> (r: (bool, bool))
    ensures
        r.0 == acks_fin(special, *packet),
        r.1 == acks_syn(special, *packet),
{
    if packet.is_ack() {
        match special {
            Some(SpecialPacket::FIN(seq)) => (seq.wrapping_add(1) == packet.ack_seq, false),
            Some(SpecialPacket::SYN(seq)) => (false, seq.wrapping_add(1) == packet.ack_seq),
            None => (false, false),
        }
    } else {
        (false, false)
    }
}

impl TcpFsmState {
    /// A peer at `e` that has seen nothing yet: listening if the address is
    /// a server's, closed otherwise.
    pub open spec fn spec_new(e: Endpoint, server_ips: Set<u32>) -> TcpFsmState {
        TcpFsmState {
            e,
            fsm: StateMachine {
                state: if server_ips.contains(e.ip) {
                    TCPState::Listen
                } else {
                    TCPState::Closed
                },
            },
            received_special_packet: None,
            sent_special_packet: None,
        }
    }

    pub fn new(e: &Endpoint, server_ips: &HashSet<u32>) -> (s: Self)
        ensures
            s == Self::spec_new(*e, server_ips@),
    {
        let mut fsm = StateMachine::new();
        if e.is_server_side(server_ips) {
            let _ = fsm.consume(&TCPInput::PassiveOpen);
        }
        TcpFsmState { e: *e, fsm, received_special_packet: None, sent_special_packet: None }
    }

    pub open spec fn spec_is_closed(&self) -> bool {
        self.fsm.state == TCPState::Closed
    }

    #[verifier::when_used_as_spec(spec_is_closed)]
    pub fn is_closed(&self) -> (r: bool)
        ensures
            r == self.spec_is_closed(),
    {
        match self.fsm.state() {
            TCPState::Closed => true,
            _ => false,
        }
    }

    /// The inputs that a packet sent by the peer stands for, in the order in
    /// which they are taken: the acknowledgement of the FIN or SYN that the
    /// peer received, the SYN (with or without ACK), the FIN.
    pub open spec fn spec_check_send_input(&self, packet: Packet) -> Seq<TCPInput> {
        (if acks_fin(self.received_special_packet, packet) {
            seq![TCPInput::SendAckForFin]
        } else if acks_syn(self.received_special_packet, packet) {
            seq![TCPInput::SendAckForSyn]
        } else {
            seq![]
        }) + (if packet.is_syn() {
            if packet.is_ack() {
                seq![TCPInput::SendSynAck]
            } else {
                seq![TCPInput::SendSyn]
            }
        } else {
            seq![]
        }) + (if packet.is_fin() {
            seq![TCPInput::SendFin]
        } else {
            seq![]
        })
    }

    /// The inputs that a packet sent to the peer stands for, in the order in
    /// which they are taken: the acknowledgement of the FIN or SYN that the
    /// peer sent (a SYN that acknowledges the peer's SYN is a SYN-ACK), the
    /// FIN, the SYN.
    pub open spec fn spec_check_receive_input(&self, packet: Packet) -> Seq<TCPInput> {
        (if acks_fin(self.sent_special_packet, packet) {
            seq![TCPInput::RecvAckForFin]
        } else if acks_syn(self.sent_special_packet, packet) {
            if packet.is_syn() {
                seq![TCPInput::ReceiveSynAck]
            } else {
                seq![TCPInput::RecvAckForSyn]
            }
        } else {
            seq![]
        }) + (if packet.is_fin() {
            seq![TCPInput::ReceiveFin]
        } else {
            seq![]
        }) + (if packet.is_syn() {
            seq![TCPInput::ReceiveSyn]
        } else {
            seq![]
        })
    }

    pub open spec fn spec_check_input(&self, packet: Packet, direction: Direction) -> Seq<
        TCPInput,
    > {
        match direction {
            Direction::From => self.spec_check_send_input(packet),
            Direction::To => self.spec_check_receive_input(packet),
        }
    }

    pub fn check_input(&self, packet: &Packet, direction: &Direction) -> (inputs: Vec<TCPInput>)
        ensures
            inputs@ == self.spec_check_input(*packet, *direction),
    {
        match direction {
            Direction::From => self.check_send_input(packet),
            Direction::To => self.check_receive_input(packet),
        }
    }

    pub fn check_receive_input(&self, packet: &Packet) -> (inputs: Vec<TCPInput>)
        ensures
            inputs@ == self.spec_check_receive_input(*packet),
    {
        let mut inputs: Vec<TCPInput> = Vec::new();
        let (for_fin, for_syn) = acks(self.sent_special_packet, packet);
        if for_fin {
            inputs.push(TCPInput::RecvAckForFin);
        } else if for_syn {
            if packet.is_syn() {
                inputs.push(TCPInput::ReceiveSynAck);
            } else {
                inputs.push(TCPInput::RecvAckForSyn);
            }
        }
        if packet.is_fin() {
            inputs.push(TCPInput::ReceiveFin);
        }
        if packet.is_syn() {
            inputs.push(TCPInput::ReceiveSyn);
        }
        assert(inputs@ =~= self.spec_check_receive_input(*packet));
        inputs
    }

    pub fn check_send_input(&self, packet: &Packet) -> (inputs: Vec<TCPInput>)
        ensures
            inputs@ == self.spec_check_send_input(*packet),
    {
        let mut inputs: Vec<TCPInput> = Vec::new();
        let (for_fin, for_syn) = acks(self.received_special_packet, packet);
        if for_fin {
            inputs.push(TCPInput::SendAckForFin);
        } else if for_syn {
            inputs.push(TCPInput::SendAckForSyn);
        }
        if packet.is_syn() {
            if packet.is_ack() {
                inputs.push(TCPInput::SendSynAck);
            } else {
                inputs.push(TCPInput::SendSyn);
            }
        }
        if packet.is_fin() {
            inputs.push(TCPInput::SendFin);
        }
        assert(inputs@ =~= self.spec_check_send_input(*packet));
        inputs
    }

    /// The peer after a packet of its connection was observed: its machine
    /// has taken the packet's inputs, those without a transition changing
    /// nothing, and a SYN or FIN is remembered as sent or received.
    pub open spec fn spec_handle_packet_event(&self, msg: PacketMsg) -> TcpFsmState {
        match msg.packet {
            None => *self,
            Some(packet) => {
                let direction = msg.spec_direction(&self.e);
                let state = TCP::spec_run(self.fsm.state, self.spec_check_input(packet, direction));
                let special = spec_special_packet(packet);
                TcpFsmState {
                    e: self.e,
                    fsm: StateMachine { state },
                    received_special_packet: if direction == Direction::To && special is Some {
                        special
                    } else {
                        self.received_special_packet
                    },
                    sent_special_packet: if direction == Direction::From && special is Some {
                        special
                    } else {
                        self.sent_special_packet
                    },
                }
            },
        }
    }

    /// Takes one observed packet, and says whether the peer now waits in
    /// `TimeWait` for its timer.
    pub fn handle_packet_event(&mut self, msg: &PacketMsg) -> (wait: bool)
        ensures
            *final(self) == old(self).spec_handle_packet_event(*msg),
            wait == (msg.packet is Some && final(self).fsm.state == TCPState::TimeWait),
    {
        let packet = match msg.packet {
            Some(p) => p,
            _ => {
                return false;
            },
        };
        let direction = msg.direction(&self.e);
        let inputs = self.check_input(&packet, &direction);
        let mut i: usize = 0;
        while i < inputs.len()
            invariant
                i <= inputs.len(),
                self.e == old(self).e,
                self.received_special_packet == old(self).received_special_packet,
                self.sent_special_packet == old(self).sent_special_packet,
                self.fsm.state == TCP::spec_run(old(self).fsm.state, inputs@.take(i as int)),
            decreases inputs.len() - i,
        {
            let _ = self.fsm.consume(&inputs[i]);
            assert(inputs@.take(i + 1).drop_last() =~= inputs@.take(i as int));
            i = i + 1;
        }
        assert(inputs@.take(i as int) =~= inputs@);

        // remember a SYN or FIN
        let special_packet = if packet.is_fin() {
            Some(SpecialPacket::FIN(packet.seq))
        } else if packet.is_syn() {
            Some(SpecialPacket::SYN(packet.seq))
        } else {
            None
        };
        if let Some(special_packet) = special_packet {
            match direction {
                Direction::From => {
                    self.sent_special_packet = Some(special_packet);
                },
                Direction::To => {
                    self.received_special_packet = Some(special_packet);
                },
            }
        }
        match self.fsm.state() {
            TCPState::TimeWait => true,
            _ => false,
        }
    }

    /// The peer's timer has fired: a peer in `TimeWait` is closed, any other
    /// stays as it is.
    pub fn time_expired(&mut self)
        ensures
            final(self).fsm.state == TCP::spec_step(old(self).fsm.state, TCPInput::TimeExpired),
            final(self).e == old(self).e,
            final(self).received_special_packet == old(self).received_special_packet,
            final(self).sent_special_packet == old(self).sent_special_packet,
    {
        let _ = self.fsm.consume(&TCPInput::TimeExpired);
    }
}

/// Which of the two peers of a connection.
#[derive(Debug, Clone, Copy, PartialEq, Eq, Structural)]
pub enum Peer {
    Client,
    Server,
}

/// What follows from a packet for a connection: the close of the connection
/// if both peers are closed, and the peers whose `TimeWait` timer is to be
/// started.
#[derive(Debug, Clone, Copy)]
pub struct Verdict {
    pub close: Option<CloseMsg>,
    pub client_waits: bool,
    pub server_waits: bool,
}

/// The two peers of a connection. The client is the sender of the first
/// packet seen.
#[derive(Debug, Clone, Copy, PartialEq, Eq, Structural)]
pub struct ConnectionState {
    pub client: TcpFsmState,
    pub server: TcpFsmState,
}

impl ConnectionState {
    /// A connection that has seen nothing yet, `from` being its client and
    /// `to` its server.
    pub open spec fn spec_new(from: Endpoint, to: Endpoint, server_ips: Set<u32>) -> ConnectionState {
        ConnectionState {
            client: TcpFsmState::spec_new(from, server_ips),
            server: TcpFsmState::spec_new(to, server_ips),
        }
    }

    pub fn new(from: &Endpoint, to: &Endpoint, server_ips: &HashSet<u32>) -> (c: Self)
        ensures
            c == Self::spec_new(*from, *to, server_ips@),
    {
        ConnectionState {
            client: TcpFsmState::new(from, server_ips),
            server: TcpFsmState::new(to, server_ips),
        }
    }

    /// The state of a connection whose first packet goes from `conn.from`
    /// to `conn.to`.
    pub fn from_connection(conn: &crate::endpoint::Connection, server_ips: &HashSet<u32>) -> (c:
        Self)
        ensures
            c == Self::spec_new(conn.from, conn.to, server_ips@),
    {
        ConnectionState::new(&conn.from, &conn.to, server_ips)
    }

    pub open spec fn spec_is_closed(&self) -> bool {
        self.client.spec_is_closed() && self.server.spec_is_closed()
    }

    /// The connection after a packet was observed: both peers have taken it.
    pub open spec fn spec_handle_message(&self, msg: PacketMsg) -> ConnectionState {
        ConnectionState {
            client: self.client.spec_handle_packet_event(msg),
            server: self.server.spec_handle_packet_event(msg),
        }
    }

    /// Takes one observed packet. The connection is reported closed, under
    /// the packet's sender and receiver, exactly when both peers are closed
    /// afterwards.
    pub fn handle_message(&mut self, msg: PacketMsg) -> (v: Verdict)
        ensures
            *final(self) == old(self).spec_handle_message(msg),
            v.close is Some <==> final(self).spec_is_closed(),
            v.close matches Some(c) ==> c.from == msg.from && c.to == msg.to,
            v.client_waits == (msg.packet is Some && final(self).client.fsm.state
                == TCPState::TimeWait),
            v.server_waits == (msg.packet is Some && final(self).server.fsm.state
                == TCPState::TimeWait),
    {
        let client_waits = self.client.handle_packet_event(&msg);
        let server_waits = self.server.handle_packet_event(&msg);
        let close = if self.client.is_closed() && self.server.is_closed() {
            Some(CloseMsg::new(msg.from, msg.to))
        } else {
            None
        };
        Verdict { close, client_waits, server_waits }
    }

    /// The `TimeWait` timer of one peer has fired. The connection is reported
    /// closed, under its client and server, exactly when both peers are
    /// closed afterwards.
    pub fn handle_time_expired(&mut self, peer: Peer) -> (close: Option<CloseMsg>)
        ensures
            final(self).client.fsm.state == if peer == Peer::Client {
                TCP::spec_step(old(self).client.fsm.state, TCPInput::TimeExpired)
            } else {
                old(self).client.fsm.state
            },
            final(self).server.fsm.state == if peer == Peer::Server {
                TCP::spec_step(old(self).server.fsm.state, TCPInput::TimeExpired)
            } else {
                old(self).server.fsm.state
            },
            final(self).client.e == old(self).client.e,
            final(self).server.e == old(self).server.e,
            final(self).client.sent_special_packet == old(self).client.sent_special_packet,
            final(self).client.received_special_packet == old(self).client.received_special_packet,
            final(self).server.sent_special_packet == old(self).server.sent_special_packet,
            final(self).server.received_special_packet == old(self).server.received_special_packet,
            close is Some <==> final(self).spec_is_closed(),
            close matches Some(c) ==> c.from == old(self).client.e && c.to == old(self).server.e,
    {
        match peer {
            Peer::Client => self.client.time_expired(),
            Peer::Server => self.server.time_expired(),
        }
        if self.client.is_closed() && self.server.is_closed() {
            Some(CloseMsg::new(self.client.e, self.server.e))
        } else {
            None
        }
    }
}

} // verus!
