use vstd::prelude::*;

verus! {

/// The nine TCP connection states.  Exactly one is active per socket; it is
/// the discriminator for which transitions are legal.
#[derive(Clone, Copy, PartialEq, Eq, Structural, Debug)]
pub enum TcpStatus {
    Listen,
    SynSent,
    SynRcvd,
    Established,
    FinWait1,
    FinWait2,
    TimeWait,
    CloseWait,
    LastAck,
}

/// The inputs the status machine reacts to: the recognised flag combinations
/// of an inbound segment, a close request from the local application, and
/// the end of the TimeWait linger period.
#[derive(Clone, Copy, PartialEq, Eq, Structural, Debug)]
pub enum TcpEvent {
    SynReceived,
    SynAckReceived,
    AckReceived,
    FinReceived,
    LocalClose,
    LingerElapsed,
}

/// What a legal transition asks its caller to do besides changing state.
#[derive(Clone, Copy, PartialEq, Eq, Structural, Debug)]
pub enum SideEffect {
    SendSynAck,
    SendAck,
    SendFin,
    EnqueueToListener,
    Quiet,
}

/// The outcome of feeding one event to the status machine: move to a new
/// state with a side effect, destroy the socket, or discard the event as a
/// protocol error with no state change.
#[derive(Clone, Copy, PartialEq, Eq, Structural, Debug)]
pub enum Transition {
    Step(TcpStatus, SideEffect),
    Destroy,
    Discard,
}

/// The transition table of the connection lifecycle.  Every pair of state
/// and event not listed here is a protocol error: the segment is dropped and
/// the state does not change.
pub open spec fn spec_transition(s: TcpStatus, e: TcpEvent) -> Transition {
    match (s, e) {
        (TcpStatus::Listen, TcpEvent::SynReceived) => Transition::Step(
            TcpStatus::SynRcvd,
            SideEffect::SendSynAck,
        ),
        (TcpStatus::SynSent, TcpEvent::SynAckReceived) => Transition::Step(
            TcpStatus::Established,
            SideEffect::SendAck,
        ),
        (TcpStatus::SynRcvd, TcpEvent::AckReceived) => Transition::Step(
            TcpStatus::Established,
            SideEffect::EnqueueToListener,
        ),
        (TcpStatus::Established, TcpEvent::FinReceived) => Transition::Step(
            TcpStatus::CloseWait,
            SideEffect::SendAck,
        ),
        (TcpStatus::Established, TcpEvent::LocalClose) => Transition::Step(
            TcpStatus::FinWait1,
            SideEffect::SendFin,
        ),
        (TcpStatus::FinWait1, TcpEvent::AckReceived) => Transition::Step(
            TcpStatus::FinWait2,
            SideEffect::Quiet,
        ),
        (TcpStatus::FinWait1, TcpEvent::FinReceived) => Transition::Step(
            TcpStatus::TimeWait,
            SideEffect::SendAck,
        ),
        (TcpStatus::FinWait2, TcpEvent::FinReceived) => Transition::Step(
            TcpStatus::TimeWait,
            SideEffect::SendAck,
        ),
        (TcpStatus::CloseWait, TcpEvent::LocalClose) => Transition::Step(
            TcpStatus::LastAck,
            SideEffect::SendFin,
        ),
        (TcpStatus::LastAck, TcpEvent::AckReceived) => Transition::Destroy,
        (TcpStatus::TimeWait, TcpEvent::LingerElapsed) => Transition::Destroy,
        _ => Transition::Discard,
    }
}

/// Runs the status machine for one event.
pub fn transition(s: TcpStatus, e: TcpEvent) -> (t: Transition)
    ensures
        t == spec_transition(s, e),
{
    match (s, e) {
        (TcpStatus::Listen, TcpEvent::SynReceived) => Transition::Step(
            TcpStatus::SynRcvd,
            SideEffect::SendSynAck,
        ),
        (TcpStatus::SynSent, TcpEvent::SynAckReceived) => Transition::Step(
            TcpStatus::Established,
            SideEffect::SendAck,
        ),
        (TcpStatus::SynRcvd, TcpEvent::AckReceived) => Transition::Step(
            TcpStatus::Established,
            SideEffect::EnqueueToListener,
        ),
        (TcpStatus::Established, TcpEvent::FinReceived) => Transition::Step(
            TcpStatus::CloseWait,
            SideEffect::SendAck,
        ),
        (TcpStatus::Established, TcpEvent::LocalClose) => Transition::Step(
            TcpStatus::FinWait1,
            SideEffect::SendFin,
        ),
        (TcpStatus::FinWait1, TcpEvent::AckReceived) => Transition::Step(
            TcpStatus::FinWait2,
            SideEffect::Quiet,
        ),
        (TcpStatus::FinWait1, TcpEvent::FinReceived) => Transition::Step(
            TcpStatus::TimeWait,
            SideEffect::SendAck,
        ),
        (TcpStatus::FinWait2, TcpEvent::FinReceived) => Transition::Step(
            TcpStatus::TimeWait,
            SideEffect::SendAck,
        ),
        (TcpStatus::CloseWait, TcpEvent::LocalClose) => Transition::Step(
            TcpStatus::LastAck,
            SideEffect::SendFin,
        ),
        (TcpStatus::LastAck, TcpEvent::AckReceived) => Transition::Destroy,
        (TcpStatus::TimeWait, TcpEvent::LingerElapsed) => Transition::Destroy,
        _ => Transition::Discard,
    }
}

/// An orderly shutdown runs the table and only the table: from Established,
/// a local close moves to FinWait1 and sends FIN; the peer's ACK moves to
/// FinWait2; the peer's FIN moves to TimeWait and sends ACK; once the linger
/// period elapses the socket is destroyed.
pub proof fn lemma_close_path()
    ensures
        spec_transition(TcpStatus::Established, TcpEvent::LocalClose) == Transition::Step(
            TcpStatus::FinWait1,
            SideEffect::SendFin,
        ),
        spec_transition(TcpStatus::FinWait1, TcpEvent::AckReceived) == Transition::Step(
            TcpStatus::FinWait2,
            SideEffect::Quiet,
        ),
        spec_transition(TcpStatus::FinWait2, TcpEvent::FinReceived) == Transition::Step(
            TcpStatus::TimeWait,
            SideEffect::SendAck,
        ),
        spec_transition(TcpStatus::TimeWait, TcpEvent::LingerElapsed) == Transition::Destroy,
{
}

/// The machine is closed over the table: any state change or destruction
/// comes from one of the eleven listed rows; everything else is discarded
/// with no state change.
pub proof fn lemma_table_closed(s: TcpStatus, e: TcpEvent)
    ensures
        spec_transition(s, e) != Transition::Discard ==> {
            ||| (s == TcpStatus::Listen && e == TcpEvent::SynReceived)
            ||| (s == TcpStatus::SynSent && e == TcpEvent::SynAckReceived)
            ||| (s == TcpStatus::SynRcvd && e == TcpEvent::AckReceived)
            ||| (s == TcpStatus::Established && e == TcpEvent::FinReceived)
            ||| (s == TcpStatus::Established && e == TcpEvent::LocalClose)
            ||| (s == TcpStatus::FinWait1 && e == TcpEvent::AckReceived)
            ||| (s == TcpStatus::FinWait1 && e == TcpEvent::FinReceived)
            ||| (s == TcpStatus::FinWait2 && e == TcpEvent::FinReceived)
            ||| (s == TcpStatus::CloseWait && e == TcpEvent::LocalClose)
            ||| (s == TcpStatus::LastAck && e == TcpEvent::AckReceived)
            ||| (s == TcpStatus::TimeWait && e == TcpEvent::LingerElapsed)
        },
{
}

/// The display name of a status, in the usual upper-case form.
pub open spec fn spec_status_text(s: TcpStatus) -> Seq<char> {
    match s {
        TcpStatus::Listen => "LISTEN"@,
        TcpStatus::SynSent => "SYNSENT"@,
        TcpStatus::SynRcvd => "SYNRCVD"@,
        TcpStatus::Established => "ESTABLISHED"@,
        TcpStatus::FinWait1 => "FINWAIT1"@,
        TcpStatus::FinWait2 => "FINWAIT2"@,
        TcpStatus::TimeWait => "TIMEWAIT"@,
        TcpStatus::CloseWait => "CLOSEWAIT"@,
        TcpStatus::LastAck => "LASTACK"@,
    }
}

impl TcpStatus {
    /// Renders the status for diagnostics.
    pub fn text(&self) -> (r: &'static str)
        ensures
            r@ == spec_status_text(*self),
    {
        match self {
            TcpStatus::Listen => "LISTEN",
            TcpStatus::SynSent => "SYNSENT",
            TcpStatus::SynRcvd => "SYNRCVD",
            TcpStatus::Established => "ESTABLISHED",
            TcpStatus::FinWait1 => "FINWAIT1",
            TcpStatus::FinWait2 => "FINWAIT2",
            TcpStatus::TimeWait => "TIMEWAIT",
            TcpStatus::CloseWait => "CLOSEWAIT",
            TcpStatus::LastAck => "LASTACK",
        }
    }
}

} // verus!
