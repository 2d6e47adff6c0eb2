//! The synchronization protocol between adjacent stages of the creation
//! pipeline.  Each link between two stages carries a small, closed set of
//! messages in one direction and moves through a fixed sequence of states;
//! this module decides every transition and every interpretation of a
//! received value.  Moving bytes through the underlying channels is the
//! driver's job; end-of-stream on a read is decided here to be a protocol
//! failure, never a silent success.

use vstd::prelude::*;

verus! {

/// Messages from the intermediate stage up to the main (launcher) stage.
#[derive(Clone, Copy, Debug, PartialEq, Eq, Structural)]
pub enum IntermediateToMain {
    /// The intermediate stage asks the launcher to write the identity
    /// mappings of a freshly created user namespace.
    IdentifierMappingRequest,
    /// The intermediate stage reports readiness, carrying the init
    /// process's id as observed outside the pid namespace.
    IntermediateReady(i32),
}

/// Messages from the main (launcher) stage down to the intermediate stage.
#[derive(Clone, Copy, Debug, PartialEq, Eq, Structural)]
pub enum MainToIntermediate {
    /// The identity mappings have been written; the intermediate stage may
    /// continue.
    MappingAck,
}

/// Messages from the init stage up to the intermediate stage.
#[derive(Clone, Copy, Debug, PartialEq, Eq, Structural)]
pub enum InitToIntermediate {
    /// The init stage has completed its setup obligations.
    InitReady,
}

/// A failure of the stage-synchronization protocol.
#[derive(Clone, Copy, Debug, PartialEq, Eq, Structural)]
pub enum ChannelError {
    /// A read ended in end-of-stream where a message was owed: the peer
    /// exited before completing its protocol obligation.
    PeerClosed,
    /// A link was driven through a transition its state does not allow.
    Protocol,
}

/// The lifecycle of one link, in the order its states are reached: both
/// ends live after creation; the non-owning end closed right after the
/// process split; the expected message received; the link closed.
#[derive(Clone, Copy, Debug, PartialEq, Eq, Structural)]
pub enum LinkState {
    Open,
    HalfClosed,
    Consumed,
    Closed,
}

/// What happens to a link.
#[derive(Clone, Copy, Debug, PartialEq, Eq, Structural)]
pub enum LinkEvent {
    /// The end not owned on this side of the split is closed.
    UnusedEndClosed,
    /// The expected message arrived.
    MessageReceived,
    /// A read returned end-of-stream instead of a message.
    EndOfStream,
    /// The owned end is closed after use.
    LocalClose,
}

/// The next state of a link, if the event is allowed in the current state.
pub open spec fn link_step_spec(s: LinkState, e: LinkEvent) -> Result<LinkState, ChannelError> {
    match (s, e) {
        (LinkState::Open, LinkEvent::UnusedEndClosed) => Ok(LinkState::HalfClosed),
        (LinkState::HalfClosed, LinkEvent::MessageReceived) => Ok(LinkState::Consumed),
        (LinkState::HalfClosed, LinkEvent::EndOfStream) => Err(ChannelError::PeerClosed),
        (LinkState::Consumed, LinkEvent::LocalClose) => Ok(LinkState::Closed),
        _ => Err(ChannelError::Protocol),
    }
}

/// Drives one link one step: only the transitions of the lifecycle are
/// allowed, and end-of-stream in place of the expected message is the
/// peer-exit failure.
pub fn link_step(s: LinkState, e: LinkEvent) -> (r: Result<LinkState, ChannelError>)
    ensures
        r == link_step_spec(s, e),
{
    match (s, e) {
        (LinkState::Open, LinkEvent::UnusedEndClosed) => Ok(LinkState::HalfClosed),
        (LinkState::HalfClosed, LinkEvent::MessageReceived) => Ok(LinkState::Consumed),
        (LinkState::HalfClosed, LinkEvent::EndOfStream) => Err(ChannelError::PeerClosed),
        (LinkState::Consumed, LinkEvent::LocalClose) => Ok(LinkState::Closed),
        _ => Err(ChannelError::Protocol),
    }
}

/// A closed link can never be driven again: every event from `Closed`
/// fails.
pub proof fn lemma_closed_is_final(e: LinkEvent)
    ensures
        link_step_spec(LinkState::Closed, e) is Err,
{
}

/// The lifecycle is one-directional: no event leads from a later state
/// back to `Open`.
pub proof fn lemma_no_reopen(s: LinkState, e: LinkEvent)
    ensures
        link_step_spec(s, e) matches Ok(next) ==> next != LinkState::Open,
{
}

/// The two sides of the process split that creates the init stage.
#[derive(Clone, Copy, Debug, PartialEq, Eq, Structural)]
pub enum ForkBranch {
    /// The intermediate process, which keeps waiting.
    Parent,
    /// The new process, which runs the init stage.
    Child,
}

/// The endpoints of the init-to-intermediate link.
#[derive(Clone, Copy, Debug, PartialEq, Eq, Structural)]
pub enum InitLinkEndpoint {
    /// The sending end, owned by the init stage.
    Sender,
    /// The receiving end, owned by the intermediate stage.
    Receiver,
}

/// Which endpoint of the init link each side must close immediately after
/// the split, before anything else on that side runs: each side keeps only
/// the end it owns — the parent its receiver, the child its sender — so
/// that end-of-stream on the link reliably means the peer exited.  In
/// particular the child closes the receiving end before it starts the init
/// stage.
pub fn unused_init_endpoint(branch: ForkBranch) -> (e: InitLinkEndpoint)
    ensures
        branch == ForkBranch::Parent ==> e == InitLinkEndpoint::Sender,
        branch == ForkBranch::Child ==> e == InitLinkEndpoint::Receiver,
{
    match branch {
        ForkBranch::Parent => InitLinkEndpoint::Sender,
        ForkBranch::Child => InitLinkEndpoint::Receiver,
    }
}

/// What a read on the launcher-to-intermediate link means while the
/// mapping acknowledgment is owed: the acknowledgment lets the stage
/// continue, end-of-stream is the peer-exit failure.
pub fn interpret_mapping_ack(received: Option<MainToIntermediate>) -> (r: Result<
    (),
    ChannelError,
>)
    ensures
        r is Ok <==> received == Some(MainToIntermediate::MappingAck),
        r is Err ==> r == Err::<(), ChannelError>(ChannelError::PeerClosed),
{
    match received {
        Some(m) => {
            proof {
                assert(received == Some(m));
            }
            match m {
                MainToIntermediate::MappingAck => Ok(()),
            }
        },
        None => Err(ChannelError::PeerClosed),
    }
}

/// What a read on the init-to-intermediate link means while the readiness
/// signal is owed: the readiness message lets the stage continue,
/// end-of-stream is the peer-exit failure.
pub fn interpret_init_ready(received: Option<InitToIntermediate>) -> (r: Result<(), ChannelError>)
    ensures
        r is Ok <==> received == Some(InitToIntermediate::InitReady),
        r is Err ==> r == Err::<(), ChannelError>(ChannelError::PeerClosed),
{
    match received {
        Some(m) => {
            proof {
                assert(received == Some(m));
            }
            match m {
                InitToIntermediate::InitReady => Ok(()),
            }
        },
        None => Err(ChannelError::PeerClosed),
    }
}

} // verus!
