//! The node engine: the state of one node on the bus and its reaction to
//! received bytes and to frames that are to be transmitted.
//!
//! The engine does no input or output. A tick takes what arrived and returns
//! what is to be sent; the host moves bytes and frames between the engine, the
//! transport and the outbound queue.
use vstd::prelude::*;

use crate::buffer::{vec_as_mut_slice, vec_from_array, vec_truncate, ByteBuf};
use crate::error::{DecodeError, EncodeError, ImcpError, ProtocolError};
use crate::frame::{Address, Frame, FramePayload, FrameType, FrameView, PayloadView};
use crate::parser::{FrameParser, ParserView};
use crate::MAX_PAYLOAD_SIZE;

verus! {

/// The address that a master is born with.
pub const MASTER_ADDRESS: u8 = 0x01;

/// The address of a client that has not been assigned one.
pub const UNASSIGNED_ADDRESS: u8 = 0x00;

/// The first address that a master assigns.
pub const FIRST_CLIENT_ADDRESS: u8 = 0x02;

/// How far a client has come in obtaining an address.
#[derive(Debug, Clone, Copy, PartialEq, Eq, Structural)]
pub enum ClientState {
    NotReady,
    /// The client has asked for an address under this hardware id.
    Joining(u32),
    Ready,
}

/// The bookkeeping of a master: the address that the next joining client gets.
#[derive(Debug, Clone, Copy, PartialEq, Eq, Structural)]
pub struct MasterState {
    pub next_address: u8,
}

/// The role of a node, with the state that belongs to the role.
#[derive(Debug, Clone, Copy, PartialEq, Eq, Structural)]
pub enum NodeType {
    Client(ClientState),
    Master(MasterState),
}

/// The mathematical value of a node, apart from its parser.
pub struct NodeView {
    pub address: u8,
    pub node_type: NodeType,
    /// The last command sent that still awaits its acknowledgement.
    pub pending_frame: Option<FrameView>,
}

/// The mathematical value of a [`Reaction`].
pub struct ReactionView {
    pub frame: Option<FrameView>,
    pub reply: Option<FrameView>,
}

/// What a read tick hands to the host: the received frame, once the engine has
/// reacted to it, and the frame that the engine wants on the outbound queue in
/// response.
#[derive(Debug, Clone, PartialEq, Eq)]
pub struct Reaction {
    pub frame: Option<Frame>,
    pub reply: Option<Frame>,
}

/// The view of an optional frame.
pub open spec fn frame_view(frame: Option<Frame>) -> Option<FrameView> {
    match frame {
        Some(f) => Some(f@),
        None => None,
    }
}

impl View for Reaction {
    type V = ReactionView;

    open spec fn view(&self) -> ReactionView {
        ReactionView { frame: frame_view(self.frame), reply: frame_view(self.reply) }
    }
}

/// Whether a frame with this payload is kept and sent again until it is
/// acknowledged.
pub open spec fn needs_ack(payload: PayloadView) -> bool {
    payload is SetAddress || payload is SetCommand
}

/// The reaction that delivers nothing and sends nothing.
pub open spec fn no_reaction() -> ReactionView {
    ReactionView { frame: None, reply: None }
}

/// The state of a node after `send_join(id)`, and the frame to enqueue: a
/// client starts joining under `id` and asks for an address; a master does
/// nothing.
pub open spec fn join(node: NodeView, id: u32) -> (NodeView, Option<FrameView>) {
    match node.node_type {
        NodeType::Client(_) => (
            NodeView { node_type: NodeType::Client(ClientState::Joining(id)), ..node },
            Some(
                FrameView {
                    to_address: Address::Unicast(UNASSIGNED_ADDRESS),
                    from_address: MASTER_ADDRESS,
                    payload: PayloadView::Join(id),
                },
            ),
        ),
        NodeType::Master(_) => (node, None),
    }
}

/// The reaction of a node to a received frame: the state of the node after
/// it, and what the read tick returns.
pub open spec fn dispatch(node: NodeView, frame: FrameView) -> (
    NodeView,
    Result<ReactionView, ImcpError>,
) {
    if frame.to_address != Address::Broadcast && frame.to_address != Address::Unicast(
        node.address,
    ) {
        (node, Ok(no_reaction()))
    } else {
        match frame.payload {
            PayloadView::Ack(address) => if node.pending_frame is None && address != 0xFF {
                (node, Err(ImcpError::ProtocolError(ProtocolError::UnexpectedAck)))
            } else {
                (
                    NodeView { pending_frame: None, ..node },
                    Ok(ReactionView { frame: Some(frame), reply: None }),
                )
            },
            PayloadView::SetAddress { address, id } => match node.node_type {
                NodeType::Master(_) => (
                    node,
                    Err(
                        ImcpError::ProtocolError(
                            ProtocolError::InvalidFrameType(FrameType::SetAddress),
                        ),
                    ),
                ),
                NodeType::Client(ClientState::Joining(own_id)) => if id == own_id {
                    (
                        NodeView {
                            address,
                            node_type: NodeType::Client(ClientState::Ready),
                            ..node
                        },
                        Ok(ReactionView { frame: Some(frame), reply: None }),
                    )
                } else {
                    (node, Ok(no_reaction()))
                },
                NodeType::Client(ClientState::Ready) => (
                    node,
                    Err(
                        ImcpError::ProtocolError(
                            ProtocolError::InvalidFrameType(FrameType::SetAddress),
                        ),
                    ),
                ),
                NodeType::Client(ClientState::NotReady) => (
                    node,
                    Err(ImcpError::ProtocolError(ProtocolError::NodeNotReady)),
                ),
            },
            PayloadView::Join(id) => match node.node_type {
                NodeType::Master(master) => (
                    NodeView {
                        node_type: NodeType::Master(
                            MasterState {
                                next_address: if master.next_address == 0xFF {
                                    0u8
                                } else {
                                    (master.next_address + 1) as u8
                                },
                            },
                        ),
                        ..node
                    },
                    Ok(
                        ReactionView {
                            frame: Some(frame),
                            reply: Some(
                                FrameView {
                                    to_address: Address::Unicast(UNASSIGNED_ADDRESS),
                                    from_address: MASTER_ADDRESS,
                                    payload: PayloadView::SetAddress {
                                        address: master.next_address,
                                        id,
                                    },
                                },
                            ),
                        },
                    ),
                ),
                NodeType::Client(_) => (
                    node,
                    Err(ImcpError::ProtocolError(ProtocolError::InvalidFrameType(FrameType::Join))),
                ),
            },
            PayloadView::SetCommand(_) => (
                node,
                Ok(
                    ReactionView {
                        frame: Some(frame),
                        reply: Some(
                            FrameView {
                                to_address: Address::Unicast(frame.from_address),
                                from_address: node.address,
                                payload: PayloadView::Ack(frame.to_address.wire_byte()),
                            },
                        ),
                    },
                ),
            ),
            PayloadView::Ping => (
                node,
                Ok(
                    ReactionView {
                        frame: Some(frame),
                        reply: Some(
                            FrameView {
                                to_address: Address::Unicast(frame.from_address),
                                from_address: node.address,
                                payload: PayloadView::Pong,
                            },
                        ),
                    },
                ),
            ),
            PayloadView::Pong => (node, Ok(ReactionView { frame: Some(frame), reply: None })),
            PayloadView::Data(_) => (node, Ok(ReactionView { frame: Some(frame), reply: None })),
        }
    }
}

/// A read tick on mathematical values: the received bytes are appended to the
/// unscanned bytes, if they fit; the parser scans up to the end of the first
/// frame; the node reacts to a frame that decodes.
pub open spec fn read_outcome(
    node: NodeView,
    parser: ParserView,
    rx_capacity: nat,
    frame_capacity: nat,
    new_data: Seq<u8>,
) -> (NodeView, ParserView, Result<ReactionView, ImcpError>) {
    if !parser.fits(new_data, rx_capacity) {
        (node, parser, Err(ImcpError::DecodeError(DecodeError::FrameBufferTooSmall)))
    } else {
        let (scanned, output) = parser.append(new_data).advance(frame_capacity);
        match output {
            None => (node, scanned, Ok(no_reaction())),
            Some(Err(e)) => (node, scanned, Err(ImcpError::DecodeError(e))),
            Some(Ok(frame)) => {
                let (reacted, result) = dispatch(node, frame);
                (reacted, scanned, result)
            },
        }
    }
}

/// A write tick on mathematical values: the frame goes out if its wire image
/// fits the output buffer, and is kept as the pending frame if it is a
/// command that needs an acknowledgement.
pub open spec fn write_outcome(node: NodeView, frame: FrameView) -> (
    NodeView,
    Result<Seq<u8>, EncodeError>,
) {
    if frame.wire().len() > MAX_PAYLOAD_SIZE {
        (NodeView { pending_frame: None, ..node }, Err(EncodeError::BufferTooSmall))
    } else if needs_ack(frame.payload) {
        (NodeView { pending_frame: Some(frame), ..node }, Ok(frame.wire()))
    } else {
        (NodeView { pending_frame: None, ..node }, Ok(frame.wire()))
    }
}

/// One node on the bus: its address and role, the command that awaits an
/// acknowledgement, and the parser of its received bytes.
pub struct Imcp<'rx_buf, 'parser_frame_buffer> {
    address: u8,
    pending_frame: Option<Frame>,
    frame_parser: FrameParser<'rx_buf, 'parser_frame_buffer>,
    node_type: NodeType,
}

impl<'rx_buf, 'parser_frame_buffer> Imcp<'rx_buf, 'parser_frame_buffer> {
    /// The node without its parser.
    pub closed spec fn node(&self) -> NodeView {
        NodeView {
            address: self.address,
            node_type: self.node_type,
            pending_frame: frame_view(self.pending_frame),
        }
    }

    /// The parser of the node.
    pub closed spec fn parser(&self) -> ParserView {
        self.frame_parser@
    }

    /// The size of the parser's receive buffer.
    pub closed spec fn rx_capacity(&self) -> nat {
        self.frame_parser.rx_capacity()
    }

    /// The size of the parser's frame buffer.
    pub closed spec fn frame_capacity(&self) -> nat {
        self.frame_parser.frame_capacity()
    }

    /// A master: address `0x01`, first address to assign `0x02`, nothing
    /// pending, a fresh parser over the two buffers.
    pub fn new_master(
        rx_buffer: &'rx_buf mut [u8],
        parser_frame_buffer: &'parser_frame_buffer mut [u8],
    ) -> (imcp: Self)
        ensures
            imcp.node() == (NodeView {
                address: MASTER_ADDRESS,
                node_type: NodeType::Master(MasterState { next_address: FIRST_CLIENT_ADDRESS }),
                pending_frame: None,
            }),
            imcp.parser() == ParserView::fresh(),
            imcp.rx_capacity() == old(rx_buffer)@.len(),
            imcp.frame_capacity() == old(parser_frame_buffer)@.len(),
    {
        let frame_parser = FrameParser::new(rx_buffer, parser_frame_buffer);
        Self {
            address: MASTER_ADDRESS,
            pending_frame: None,
            frame_parser,
            node_type: NodeType::Master(MasterState { next_address: FIRST_CLIENT_ADDRESS }),
        }
    }

    /// A client: address `0x00`, not ready, nothing pending, a fresh parser
    /// over the two buffers.
    pub fn new_client(
        rx_buffer: &'rx_buf mut [u8],
        parser_frame_buffer: &'parser_frame_buffer mut [u8],
    ) -> (imcp: Self)
        ensures
            imcp.node() == (NodeView {
                address: UNASSIGNED_ADDRESS,
                node_type: NodeType::Client(ClientState::NotReady),
                pending_frame: None,
            }),
            imcp.parser() == ParserView::fresh(),
            imcp.rx_capacity() == old(rx_buffer)@.len(),
            imcp.frame_capacity() == old(parser_frame_buffer)@.len(),
    {
        let frame_parser = FrameParser::new(rx_buffer, parser_frame_buffer);
        Self {
            address: UNASSIGNED_ADDRESS,
            pending_frame: None,
            frame_parser,
            node_type: NodeType::Client(ClientState::NotReady),
        }
    }

    /// A node in the given state, around the given parser.
    pub fn new(
        address: u8,
        pending_frame: Option<Frame>,
        frame_parser: FrameParser<'rx_buf, 'parser_frame_buffer>,
        node_type: NodeType,
    ) -> (imcp: Self)
        ensures
            imcp.node() == (NodeView {
                address,
                node_type,
                pending_frame: frame_view(pending_frame),
            }),
            imcp.parser() == frame_parser@,
            imcp.rx_capacity() == frame_parser.rx_capacity(),
            imcp.frame_capacity() == frame_parser.frame_capacity(),
    {
        Imcp { address, pending_frame, frame_parser, node_type }
    }

    pub fn address(&self) -> (address: u8)
        ensures
            address == self.node().address,
    {
        self.address
    }

    pub fn node_type(&self) -> (node_type: NodeType)
        ensures
            node_type == self.node().node_type,
    {
        self.node_type
    }

    /// Starts joining under the hardware id `id` and returns the Join frame to
    /// put on the outbound queue. Only a client joins: on a master nothing
    /// changes and nothing is returned.
    pub fn send_join(&mut self, id: u32) -> (frame: Option<Frame>)
        ensures
            (final(self).node(), frame_view(frame)) == join(old(self).node(), id),
            final(self).parser() == old(self).parser(),
            final(self).rx_capacity() == old(self).rx_capacity(),
            final(self).frame_capacity() == old(self).frame_capacity(),
    {
        match self.node_type {
            NodeType::Client(_) => {
                self.node_type = NodeType::Client(ClientState::Joining(id));
                Some(
                    Frame::new(
                        Address::Unicast(UNASSIGNED_ADDRESS),
                        MASTER_ADDRESS,
                        FramePayload::Join(id),
                    ),
                )
            },
            NodeType::Master(_) => None,
        }
    }

    /// Takes the pending frame out of the node, if there is one. The host
    /// calls this at the start of a write: a pending frame is sent again
    /// before anything new is taken from the outbound queue.
    pub fn take_pending(&mut self) -> (frame: Option<Frame>)
        ensures
            frame_view(frame) == old(self).node().pending_frame,
            final(self).node() == (NodeView { pending_frame: None, ..old(self).node() }),
            final(self).parser() == old(self).parser(),
            final(self).rx_capacity() == old(self).rx_capacity(),
            final(self).frame_capacity() == old(self).frame_capacity(),
    {
        self.pending_frame.take()
    }

    /// Produces the wire bytes of `next_frame`, the frame that is to go out
    /// now: the one that [`take_pending`](Self::take_pending) returned, or the
    /// next one from the outbound queue. A frame that needs an acknowledgement
    /// becomes the pending frame. A frame whose wire image is longer than
    /// [`MAX_PAYLOAD_SIZE`] is dropped with an error.
    pub fn write_tick(&mut self, next_frame: Frame) -> (r: Result<ByteBuf, EncodeError>)
        ensures
            final(self).node() == write_outcome(old(self).node(), next_frame@).0,
            match r {
                Ok(bytes) => write_outcome(old(self).node(), next_frame@).1 == Ok::<
                    Seq<u8>,
                    EncodeError,
                >(bytes@),
                Err(e) => write_outcome(old(self).node(), next_frame@).1 == Err::<Seq<u8>, EncodeError>(e),
            },
            final(self).parser() == old(self).parser(),
            final(self).rx_capacity() == old(self).rx_capacity(),
            final(self).frame_capacity() == old(self).frame_capacity(),
    {
        self.pending_frame = None;
        let mut buf: ByteBuf = vec_from_array([0u8; MAX_PAYLOAD_SIZE]);
        let size: usize = match next_frame.encode(vec_as_mut_slice(&mut buf)) {
            Ok(size) => size,
            Err(e) => {
                return Err(e);
            },
        };
        match next_frame.payload() {
            FramePayload::SetAddress { .. } => {
                self.pending_frame = Some(next_frame);
            },
            FramePayload::SetCommand(_) => {
                self.pending_frame = Some(next_frame);
            },
            _ => {},
        }
        vec_truncate(&mut buf, size);
        Ok(buf)
    }

    /// Feeds `new_data` to the parser and reacts to at most one completed
    /// frame. A frame for another node is ignored. The reply, if any, is for
    /// the host to put on the outbound queue.
    pub fn read_tick(&mut self, new_data: &[u8]) -> (r: Result<Reaction, ImcpError>)
        ensures
            final(self).rx_capacity() == old(self).rx_capacity(),
            final(self).frame_capacity() == old(self).frame_capacity(),
            ({
                let (node, parser, result) = read_outcome(
                    old(self).node(),
                    old(self).parser(),
                    old(self).rx_capacity(),
                    old(self).frame_capacity(),
                    new_data@,
                );
                &&& final(self).node() == node
                &&& final(self).parser() == parser
                &&& match r {
                    Ok(reaction) => result == Ok::<ReactionView, ImcpError>(reaction@),
                    Err(e) => result == Err::<ReactionView, ImcpError>(e),
                }
            }),
    {
        match self.frame_parser.write_data(new_data) {
            Ok(_) => {},
            Err(e) => {
                return Err(ImcpError::DecodeError(e));
            },
        }
        let frame = match self.frame_parser.next_frame() {
            Some(Ok(f)) => f,
            Some(Err(e)) => {
                return Err(ImcpError::DecodeError(e));
            },
            None => {
                return Ok(Reaction { frame: None, reply: None });
            },
        };
        match frame.to_address() {
            Address::Unicast(a) => {
                if a != self.address {
                    return Ok(Reaction { frame: None, reply: None });
                }
            },
            Address::Broadcast => {},
        }
        let reply: Option<Frame> = match frame.payload() {
            FramePayload::Ack(data) => {
                if self.pending_frame.is_none() && *data != 0xFF {
                    return Err(ImcpError::ProtocolError(ProtocolError::UnexpectedAck));
                }
                self.pending_frame = None;
                None
            },
            FramePayload::SetAddress { address, id } => {
                match self.node_type {
                    NodeType::Master(_) => {
                        return Err(
                            ImcpError::ProtocolError(
                                ProtocolError::InvalidFrameType(FrameType::SetAddress),
                            ),
                        );
                    },
                    NodeType::Client(ClientState::Joining(own_id)) => {
                        if *id != own_id {
                            return Ok(Reaction { frame: None, reply: None });
                        }
                        self.address = *address;
                        self.node_type = NodeType::Client(ClientState::Ready);
                        None
                    },
                    NodeType::Client(ClientState::Ready) => {
                        return Err(
                            ImcpError::ProtocolError(
                                ProtocolError::InvalidFrameType(FrameType::SetAddress),
                            ),
                        );
                    },
                    NodeType::Client(ClientState::NotReady) => {
                        return Err(ImcpError::ProtocolError(ProtocolError::NodeNotReady));
                    },
                }
            },
            FramePayload::Join(id) => {
                match self.node_type {
                    NodeType::Master(state) => {
                        let reply = Frame::new(
                            Address::Unicast(UNASSIGNED_ADDRESS),
                            MASTER_ADDRESS,
                            FramePayload::SetAddress { address: state.next_address, id: *id },
                        );
                        self.node_type = NodeType::Master(
                            MasterState { next_address: state.next_address.wrapping_add(1) },
                        );
                        Some(reply)
                    },
                    NodeType::Client(_) => {
                        return Err(
                            ImcpError::ProtocolError(
                                ProtocolError::InvalidFrameType(FrameType::Join),
                            ),
                        );
                    },
                }
            },
            FramePayload::SetCommand(_) => Some(
                Frame::new(
                    Address::Unicast(frame.from_address()),
                    self.address,
                    FramePayload::Ack(frame.to_address().as_byte()),
                ),
            ),
            FramePayload::Ping => Some(
                Frame::new(
                    Address::Unicast(frame.from_address()),
                    self.address,
                    FramePayload::Pong,
                ),
            ),
            _ => None,
        };
        Ok(Reaction { frame: Some(frame), reply })
    }
}

} // verus!
