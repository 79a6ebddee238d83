//! The messages that pass between the workers of the flow state engine.

use crate::endpoint::Connection;
use crate::endpoint::Direction;
use crate::endpoint::Endpoint;
use crate::endpoint::UConnection;
use crate::event::Event;
use crate::event::Packet;
use crate::notification::Notification;
use vstd::prelude::*;

verus! {

/// What kind of packet a message is about.
#[derive(Debug, Clone, Copy, PartialEq, Eq, Hash, Structural)]
pub enum PacketMsgType {
    TCP(Packet),
    UDP,
}

/// What a message says.
#[derive(Debug, Clone, Copy, PartialEq, Eq, Hash, Structural)]
pub enum MessageType {
    Packet(PacketMsgType),
    Close,
}

/// A notification as a service's worker receives it: who the client and the
/// server of the flow are, and the local endpoints towards each.
#[derive(Debug, Clone, Copy, PartialEq, Eq, Hash, Structural)]
pub struct Message {
    pub client: Endpoint,
    pub server: Endpoint,
    pub local_in: Endpoint,
    pub local_out: Endpoint,
    pub from_client: bool,
    pub msg_type: MessageType,
}

impl Message {
    /// The message that a notification stands for. The notification names
    /// sender and receiver; `from_client` says whether the sender is the
    /// client, and the names are turned round when it is not.
    pub open spec fn spec_from_notification(notification: Notification, from_client: bool) -> Message {
        let msg_type = match notification.event {
            Event::TcpPacket(packet) => MessageType::Packet(PacketMsgType::TCP(packet)),
            Event::UdpPacket => MessageType::Packet(PacketMsgType::UDP),
        };
        if from_client {
            Message {
                client: Endpoint::spec_new(notification.connection.from),
                server: Endpoint::spec_new(notification.connection.to),
                local_in: Endpoint::spec_new(notification.local_in_endpoint),
                local_out: Endpoint::spec_new(notification.lcoal_out_endpoint),
                from_client,
                msg_type,
            }
        } else {
            Message {
                client: Endpoint::spec_new(notification.connection.to),
                server: Endpoint::spec_new(notification.connection.from),
                local_in: Endpoint::spec_new(notification.lcoal_out_endpoint),
                local_out: Endpoint::spec_new(notification.local_in_endpoint),
                from_client,
                msg_type,
            }
        }
    }

    #[verifier::when_used_as_spec(spec_from_notification)]
    pub fn from_notification(notification: Notification, from_client: bool) -> (m: Self)
        ensures
            m == Self::spec_from_notification(notification, from_client),
    {
        let msg_type = match notification.event {
            Event::TcpPacket(packet) => MessageType::Packet(PacketMsgType::TCP(packet)),
            Event::UdpPacket => MessageType::Packet(PacketMsgType::UDP),
        };
        let k_connection = notification.connection;

        if from_client {
            Message {
                client: Endpoint::new(k_connection.from),
                server: Endpoint::new(k_connection.to),
                local_in: Endpoint::new(notification.local_in_endpoint),
                local_out: Endpoint::new(notification.lcoal_out_endpoint),
                from_client,
                msg_type,
            }
        } else {
            Message {
                client: Endpoint::new(k_connection.to),
                server: Endpoint::new(k_connection.from),
                local_in: Endpoint::new(notification.lcoal_out_endpoint),
                local_out: Endpoint::new(notification.local_in_endpoint),
                from_client,
                msg_type,
            }
        }
    }

    /// The keys of the flow's two entries in the Flow Table: from the client
    /// to the virtual service, and from the server to the local endpoint.
    pub open spec fn spec_to_u_connections(&self) -> (UConnection, UConnection) {
        (
            UConnection::spec_new(self.client, self.local_in),
            UConnection::spec_new(self.server, self.local_out),
        )
    }

    #[verifier::when_used_as_spec(spec_to_u_connections)]
    pub fn to_u_connections(&self) -> (r: (UConnection, UConnection))
        ensures
            r == self.spec_to_u_connections(),
    {
        (UConnection::new(self.client, self.local_in), UConnection::new(self.server, self.local_out))
    }

    /// The connection between client and server.
    pub fn connection(&self) -> (c: Connection)
        ensures
            c.from == self.client,
            c.to == self.server,
    {
        Connection { from: self.client, to: self.server }
    }
}

/// The end of a connection, named by its two endpoints.
#[derive(Debug, Clone, Copy)]
pub struct CloseMsg {
    pub from: Endpoint,
    pub to: Endpoint,
}

impl CloseMsg {
    pub fn new(from: Endpoint, to: Endpoint) -> (m: Self)
        ensures
            m.from == from,
            m.to == to,
    {
        CloseMsg { from, to }
    }

    pub fn connection(&self) -> (c: Connection)
        ensures
            c.from == self.from,
            c.to == self.to,
    {
        Connection { from: self.from, to: self.to }
    }
}

/// One observed packet of a connection: who sent it to whom, the local port
/// that the flow leaves from, and the TCP packet if it is one.
#[derive(Debug, Clone, Copy, PartialEq, Eq, Structural)]
pub struct PacketMsg {
    pub from: Endpoint,
    pub to: Endpoint,
    pub local_out_port: u16,
    pub packet: Option<Packet>,
}

impl PacketMsg {
    pub open spec fn spec_direction(&self, e: &Endpoint) -> Direction {
        if *e == self.from {
            Direction::From
        } else {
            Direction::To
        }
    }

    /// Whether the packet leaves the endpoint `e` or reaches it: it leaves
    /// the sender and reaches everyone else.
    #[verifier::when_used_as_spec(spec_direction)]
    pub fn direction(&self, e: &Endpoint) -> (d: Direction)
        ensures
            d == self.spec_direction(e),
    {
        if e.ip == self.from.ip && e.port == self.from.port {
            Direction::From
        } else {
            Direction::To
        }
    }

    pub fn connection(&self) -> (c: Connection)
        ensures
            c.from == self.from,
            c.to == self.to,
    {
        Connection { from: self.from, to: self.to }
    }

    /// The packet message that a message stands for, if it is about a packet.
    pub open spec fn spec_try_from(msg: &Message) -> Result<PacketMsg, ()> {
        match msg.msg_type {
            MessageType::Packet(packet_type) => {
                let packet = match packet_type {
                    PacketMsgType::TCP(p) => Some(p),
                    PacketMsgType::UDP => None,
                };
                if msg.from_client {
                    Ok(
                        PacketMsg {
                            from: msg.client,
                            to: msg.server,
                            local_out_port: msg.local_out.port,
                            packet,
                        },
                    )
                } else {
                    Ok(
                        PacketMsg {
                            from: msg.server,
                            to: msg.client,
                            local_out_port: msg.local_out.port,
                            packet,
                        },
                    )
                }
            },
            MessageType::Close => Err(()),
        }
    }

    #[verifier::when_used_as_spec(spec_try_from)]
    pub fn try_from(msg: &Message) -> (r: Result<Self, ()>)
        ensures
            r == Self::spec_try_from(msg),
    {
        match &msg.msg_type {
            MessageType::Packet(packet_type) => {
                let packet = match packet_type {
                    PacketMsgType::TCP(p) => Some(*p),
                    PacketMsgType::UDP => None,
                };
                let packet_msg = if msg.from_client {
                    PacketMsg {
                        from: msg.client,
                        to: msg.server,
                        local_out_port: msg.local_out.port,
                        packet,
                    }
                } else {
                    PacketMsg {
                        from: msg.server,
                        to: msg.client,
                        local_out_port: msg.local_out.port,
                        packet,
                    }
                };
                Ok(packet_msg)
            },
            _ => {
                return Err(());
            },
        }
    }
}

} // verus!
