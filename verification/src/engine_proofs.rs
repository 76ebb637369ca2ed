//! What holds of the node engine over any run of ticks: frames for other
//! nodes are ignored, and the pending frame, if there is one, is a command
//! that awaits its acknowledgement.
use vstd::prelude::*;

use crate::engine::{
    dispatch, join, needs_ack, no_reaction, read_outcome, write_outcome, NodeView, ReactionView,
};
use crate::error::{DecodeError, ImcpError};
use crate::frame::{Address, FrameView};
use crate::parser::ParserView;

verus! {

/// Addressing filter: a node ignores every unicast frame that is addressed
/// to another node. Its state stays as it is, no frame is delivered and
/// nothing is sent.
pub proof fn lemma_foreign_unicast_ignored(node: NodeView, frame: FrameView, to: u8)
    requires
        frame.to_address == Address::Unicast(to),
        to != node.address,
    ensures
        dispatch(node, frame) == (node, Ok::<ReactionView, ImcpError>(no_reaction())),
{
}

/// The same for a whole read tick: when the frame that the parser completes
/// is a unicast frame for another node, the tick changes the parser only.
pub proof fn lemma_read_ignores_foreign_unicast(
    node: NodeView,
    parser: ParserView,
    rx_capacity: nat,
    frame_capacity: nat,
    new_data: Seq<u8>,
    frame: FrameView,
    to: u8,
)
    requires
        parser.fits(new_data, rx_capacity),
        parser.append(new_data).advance(frame_capacity).1 == Some(
            Ok::<FrameView, DecodeError>(frame),
        ),
        frame.to_address == Address::Unicast(to),
        to != node.address,
    ensures
        read_outcome(node, parser, rx_capacity, frame_capacity, new_data).0 == node,
        read_outcome(node, parser, rx_capacity, frame_capacity, new_data).2 == Ok::<
            ReactionView,
            ImcpError,
        >(no_reaction()),
{
    lemma_foreign_unicast_ignored(node, frame, to);
}

/// Whether the pending slot of a node is empty or holds a command that needs
/// an acknowledgement. The slot holds at most one frame by construction.
pub open spec fn pending_is_command(node: NodeView) -> bool {
    node.pending_frame matches Some(frame) ==> needs_ack(frame.payload)
}

/// A read tick keeps the pending slot in order: it leaves the slot alone or
/// empties it.
pub proof fn lemma_read_keeps_pending(
    node: NodeView,
    parser: ParserView,
    rx_capacity: nat,
    frame_capacity: nat,
    new_data: Seq<u8>,
)
    ensures
        ({
            let after = read_outcome(node, parser, rx_capacity, frame_capacity, new_data).0;
            after.pending_frame == node.pending_frame || after.pending_frame is None
        }),
        pending_is_command(node) ==> pending_is_command(
            read_outcome(node, parser, rx_capacity, frame_capacity, new_data).0,
        ),
{
}

/// After a write tick the pending slot is in order, whatever went out.
pub proof fn lemma_write_sets_pending(node: NodeView, frame: FrameView)
    ensures
        pending_is_command(write_outcome(node, frame).0),
{
}

/// Joining leaves the pending slot alone.
pub proof fn lemma_join_keeps_pending(node: NodeView, id: u32)
    ensures
        join(node, id).0.pending_frame == node.pending_frame,
{
}

/// One call on a node, as the host makes it.
pub enum Tick {
    /// `read_tick` with the received bytes.
    Read(Seq<u8>),
    /// A write: `take_pending`, then `write_tick` with the pending frame, or
    /// with the given frame from the outbound queue when nothing was pending.
    Write(FrameView),
    /// `send_join` with the hardware id.
    Join(u32),
}

/// The frame that a write sends: the pending frame before a queued one.
pub open spec fn outgoing(node: NodeView, queued: FrameView) -> FrameView {
    match node.pending_frame {
        Some(pending) => pending,
        None => queued,
    }
}

/// The node and its parser after a run of ticks.
pub open spec fn run(
    node: NodeView,
    parser: ParserView,
    rx_capacity: nat,
    frame_capacity: nat,
    ticks: Seq<Tick>,
) -> (NodeView, ParserView)
    decreases ticks.len(),
{
    if ticks.len() == 0 {
        (node, parser)
    } else {
        let (before, scanned) = run(node, parser, rx_capacity, frame_capacity, ticks.drop_last());
        match ticks.last() {
            Tick::Read(new_data) => {
                let (after, rest, _) = read_outcome(before, scanned, rx_capacity, frame_capacity, new_data);
                (after, rest)
            },
            Tick::Write(queued) => (write_outcome(before, outgoing(before, queued)).0, scanned),
            Tick::Join(id) => (join(before, id).0, scanned),
        }
    }
}

/// At most one pending: after any run of ticks on a node whose pending slot
/// is in order, as it is in a new master and a new client, the slot is empty
/// or holds one command that needs an acknowledgement.
pub proof fn lemma_pending_is_command(
    node: NodeView,
    parser: ParserView,
    rx_capacity: nat,
    frame_capacity: nat,
    ticks: Seq<Tick>,
)
    requires
        pending_is_command(node),
    ensures
        pending_is_command(run(node, parser, rx_capacity, frame_capacity, ticks).0),
    decreases ticks.len(),
{
    if ticks.len() > 0 {
        lemma_pending_is_command(node, parser, rx_capacity, frame_capacity, ticks.drop_last());
        let (before, scanned) = run(node, parser, rx_capacity, frame_capacity, ticks.drop_last());
        match ticks.last() {
            Tick::Read(new_data) => {
                lemma_read_keeps_pending(before, scanned, rx_capacity, frame_capacity, new_data);
            },
            Tick::Write(queued) => {
                lemma_write_sets_pending(before, outgoing(before, queued));
            },
            Tick::Join(id) => {
                lemma_join_keeps_pending(before, id);
            },
        }
    }
}

} // verus!
