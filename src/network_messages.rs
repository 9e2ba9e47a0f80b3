//! Message framing limits, the message identifier, and the table of
//! handlers that incoming messages are dispatched to.
use crate::batcher::var_uint_size;
use crate::le::le_value;
use crate::messages::NetworkMessageTrait;
use crate::reader::{DecodeError, NetworkReader};
use crate::varint::var_uint_len;
use crate::writer::{u16_bytes, NetworkWriter};
use vstd::prelude::*;

verus! {

#[derive(Debug, Clone, Copy, PartialEq, Eq, Structural)]
pub enum TransportChannel {
    Reliable,
    Unreliable,
}

/// The packet size assumed when no transport is active.
pub const DEFAULT_MAX_PACKET_SIZE: usize = 1500;

pub struct NetworkMessages;

/// The room left for a message's content in a packet of `transport_max`
/// bytes: less the identifier and the batch length prefix, and never below zero.
pub open spec fn max_content_size_spec(transport_max: Option<usize>) -> nat {
    match transport_max {
        None => DEFAULT_MAX_PACKET_SIZE as nat,
        Some(t) => if t >= NetworkMessages::ID_SIZE + var_uint_len(t as u64) {
            (t - NetworkMessages::ID_SIZE - var_uint_len(t as u64)) as nat
        } else {
            0
        },
    }
}

impl NetworkMessages {
    /// The size of a message identifier.
    pub const ID_SIZE: usize = 2;

    /// The largest content of one message on `channel`, given the active
    /// transport's packet size for that channel (`None` when no transport is active).
    pub fn max_content_size(channel: TransportChannel, transport_max_packet_size: Option<usize>) -> (r: usize)
        ensures
            r == max_content_size_spec(transport_max_packet_size),
    {
        match transport_max_packet_size {
            None => DEFAULT_MAX_PACKET_SIZE,
            Some(t) => {
                let overhead = var_uint_size(t as u64);
                if t >= Self::ID_SIZE + overhead {
                    t - Self::ID_SIZE - overhead
                } else {
                    0
                }
            },
        }
    }

    /// The largest message, identifier included.
    pub fn max_message_size(channel: TransportChannel, transport_max_packet_size: Option<usize>) -> (r: usize)
        ensures
            r == max_content_size_spec(transport_max_packet_size) + Self::ID_SIZE,
    {
        Self::max_content_size(channel, transport_max_packet_size) + Self::ID_SIZE
    }

    /// Reads a message identifier.
    pub fn unpack_id(reader: &mut NetworkReader) -> (r: Result<u16, DecodeError>)
        requires
            old(reader).wf(),
        ensures
            NetworkReader::fixed_read(old(reader), final(reader), 2, r),
            r matches Ok(v) ==> v as nat == le_value(old(reader).ahead(2)),
    {
        reader.read_ushort()
    }

    /// Writes a message: its identifier, then its fields.
    pub fn pack<T: NetworkMessageTrait>(message: &T, writer: &mut NetworkWriter)
        requires
            message.serializable(),
        ensures
            final(writer)@ == old(writer)@ + u16_bytes(T::id_spec()) + message.body_spec(),
    {
        message.serialize(writer);
    }
}

/// What the server does with a kind of incoming message.
#[derive(Debug, Clone, Copy, PartialEq, Eq, Structural)]
pub enum MessageHandlerKind {
    TimeSnapshot,
    Ready,
    AddPlayer,
    Command,
    EntityState,
    NetworkPing,
    NetworkPong,
}

/// A handler for one message type, and whether the sender must have
/// authenticated first.
#[derive(Debug, Clone, Copy, PartialEq, Eq, Structural)]
pub struct NetworkMessageHandler {
    pub handler: MessageHandlerKind,
    pub require_authentication: bool,
}

impl NetworkMessageHandler {
    pub fn wrap_handler(handler: MessageHandlerKind, require_authentication: bool) -> (r: NetworkMessageHandler)
        ensures
            r.handler == handler,
            r.require_authentication == require_authentication,
    {
        NetworkMessageHandler { handler, require_authentication }
    }
}

/// Why an incoming message is not handled.
#[derive(Debug, Clone, Copy, PartialEq, Eq, Structural)]
pub enum MessageRejection {
    /// No handler for that identifier.
    UnknownMessage,
    /// The handler wants an authenticated sender.
    NotAuthenticated,
}

/// The handler registered last under `id`.
pub open spec fn handler_lookup(handlers: Seq<(u16, NetworkMessageHandler)>, id: u16) -> Option<NetworkMessageHandler>
    decreases handlers.len(),
{
    if handlers.len() == 0 {
        None
    } else if handlers.last().0 == id {
        Some(handlers.last().1)
    } else {
        handler_lookup(handlers.drop_last(), id)
    }
}

/// The handler for a message with identifier `id` from a connection that
/// has (or has not) authenticated.
pub fn handler_for(handlers: &Vec<(u16, NetworkMessageHandler)>, id: u16, authenticated: bool) -> (r: Result<MessageHandlerKind, MessageRejection>)
    ensures
        match handler_lookup(handlers@, id) {
            None => r == Err::<MessageHandlerKind, MessageRejection>(MessageRejection::UnknownMessage),
            Some(h) => if h.require_authentication && !authenticated {
                r == Err::<MessageHandlerKind, MessageRejection>(MessageRejection::NotAuthenticated)
            } else {
                r == Ok::<MessageHandlerKind, MessageRejection>(h.handler)
            },
        },
{
    let mut i: usize = handlers.len();
    assert(handlers@.subrange(0, i as int) =~= handlers@);
    while i > 0
        invariant
            i <= handlers@.len(),
            handler_lookup(handlers@, id) == handler_lookup(handlers@.subrange(0, i as int), id),
        decreases i,
    {
        let e = handlers[i - 1];
        proof {
            assert(handlers@.subrange(0, i as int).drop_last() =~= handlers@.subrange(0, i - 1));
        }
        if e.0 == id {
            if e.1.require_authentication && !authenticated {
                return Err(MessageRejection::NotAuthenticated);
            }
            return Ok(e.1.handler);
        }
        i = i - 1;
    }
    Err(MessageRejection::UnknownMessage)
}

} // verus!
