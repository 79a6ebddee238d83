//! The state machine of one TCP peer, driven by what is observed of the
//! connection rather than by a socket.

use vstd::prelude::*;

verus! {

/// The states of a peer.
#[derive(Debug, Clone, Copy, PartialEq, Eq, PartialOrd, Ord, Structural)]
pub enum TCPState {
    Closed,
    Listen,
    ListenReceiveSyn,
    SynSent,
    SynSentReceiveSyn,
    ReceiveSynAckReceiveSynAck,
    SynReceived,
    Established,
    CloseWait,
    LastAck,
    FinWait1,
    FinWait1ReceiveFin,
    FinWait2,
    FinWait2ReceiveFin,
    Closing,
    TimeWait,
}

/// What can happen to a peer.
#[derive(Debug, Clone, Copy, PartialEq, Eq, PartialOrd, Ord, Structural)]
pub enum TCPInput {
    PassiveOpen,
    SendSyn,
    ReceiveSyn,
    SendSynAck,
    ReceiveSynAck,
    SendAckForSyn,
    RecvAckForSyn,
    SendFin,
    ReceiveFin,
    SendAckForFin,
    RecvAckForFin,
    TimeExpired,
}

/// An input that the state has no transition for.
#[derive(Debug, Clone, Copy, PartialEq, Eq, Structural)]
pub struct TransitionImpossibleError;

/// The transition table.
pub struct TCP;

impl TCP {
    /// The state that `input` leads to from `state`, if it leads anywhere.
    pub open spec fn spec_transition(state: TCPState, input: TCPInput) -> Option<TCPState> {
        match (state, input) {
            (TCPState::Closed, TCPInput::PassiveOpen) => Some(TCPState::Listen),
            (TCPState::Closed, TCPInput::SendSyn) => Some(TCPState::SynSent),
            (TCPState::Listen, TCPInput::ReceiveSyn) => Some(TCPState::ListenReceiveSyn),
            (TCPState::ListenReceiveSyn, TCPInput::SendSynAck) => Some(TCPState::SynReceived),
            (TCPState::SynSent, TCPInput::ReceiveSyn) => Some(TCPState::SynSentReceiveSyn),
            (TCPState::SynSent, TCPInput::ReceiveSynAck) => Some(
                TCPState::ReceiveSynAckReceiveSynAck,
            ),
            (TCPState::SynSentReceiveSyn, TCPInput::SendAckForSyn) => Some(TCPState::SynReceived),
            (TCPState::ReceiveSynAckReceiveSynAck, TCPInput::SendAckForSyn) => Some(
                TCPState::Established,
            ),
            (TCPState::SynReceived, TCPInput::RecvAckForSyn) => Some(TCPState::Established),
            (TCPState::Established, TCPInput::SendFin) => Some(TCPState::FinWait1),
            (TCPState::Established, TCPInput::ReceiveFin) => Some(TCPState::CloseWait),
            (TCPState::CloseWait, TCPInput::SendFin) => Some(TCPState::LastAck),
            (TCPState::LastAck, TCPInput::RecvAckForFin) => Some(TCPState::Closed),
            (TCPState::FinWait1, TCPInput::RecvAckForFin) => Some(TCPState::FinWait2),
            (TCPState::FinWait1, TCPInput::ReceiveFin) => Some(TCPState::FinWait1ReceiveFin),
            (TCPState::FinWait1ReceiveFin, TCPInput::SendAckForFin) => Some(TCPState::Closing),
            (TCPState::FinWait2, TCPInput::ReceiveFin) => Some(TCPState::FinWait2ReceiveFin),
            (TCPState::FinWait2ReceiveFin, TCPInput::SendAckForFin) => Some(TCPState::TimeWait),
            (TCPState::Closing, TCPInput::RecvAckForFin) => Some(TCPState::TimeWait),
            (TCPState::TimeWait, TCPInput::TimeExpired) => Some(TCPState::Closed),
            _ => None,
        }
    }

    #[verifier::when_used_as_spec(spec_transition)]
    pub fn transition(state: TCPState, input: TCPInput) -> (next: Option<TCPState>)
        ensures
            next == Self::spec_transition(state, input),
    {
        match (state, input) {
            (TCPState::Closed, TCPInput::PassiveOpen) => Some(TCPState::Listen),
            (TCPState::Closed, TCPInput::SendSyn) => Some(TCPState::SynSent),
            (TCPState::Listen, TCPInput::ReceiveSyn) => Some(TCPState::ListenReceiveSyn),
            (TCPState::ListenReceiveSyn, TCPInput::SendSynAck) => Some(TCPState::SynReceived),
            (TCPState::SynSent, TCPInput::ReceiveSyn) => Some(TCPState::SynSentReceiveSyn),
            (TCPState::SynSent, TCPInput::ReceiveSynAck) => Some(
                TCPState::ReceiveSynAckReceiveSynAck,
            ),
            (TCPState::SynSentReceiveSyn, TCPInput::SendAckForSyn) => Some(TCPState::SynReceived),
            (TCPState::ReceiveSynAckReceiveSynAck, TCPInput::SendAckForSyn) => Some(
                TCPState::Established,
            ),
            (TCPState::SynReceived, TCPInput::RecvAckForSyn) => Some(TCPState::Established),
            (TCPState::Established, TCPInput::SendFin) => Some(TCPState::FinWait1),
            (TCPState::Established, TCPInput::ReceiveFin) => Some(TCPState::CloseWait),
            (TCPState::CloseWait, TCPInput::SendFin) => Some(TCPState::LastAck),
            (TCPState::LastAck, TCPInput::RecvAckForFin) => Some(TCPState::Closed),
            (TCPState::FinWait1, TCPInput::RecvAckForFin) => Some(TCPState::FinWait2),
            (TCPState::FinWait1, TCPInput::ReceiveFin) => Some(TCPState::FinWait1ReceiveFin),
            (TCPState::FinWait1ReceiveFin, TCPInput::SendAckForFin) => Some(TCPState::Closing),
            (TCPState::FinWait2, TCPInput::ReceiveFin) => Some(TCPState::FinWait2ReceiveFin),
            (TCPState::FinWait2ReceiveFin, TCPInput::SendAckForFin) => Some(TCPState::TimeWait),
            (TCPState::Closing, TCPInput::RecvAckForFin) => Some(TCPState::TimeWait),
            (TCPState::TimeWait, TCPInput::TimeExpired) => Some(TCPState::Closed),
            _ => None,
        }
    }

    /// The state after `input`: the one it leads to, or the same where it
    /// leads nowhere.
    pub open spec fn spec_step(state: TCPState, input: TCPInput) -> TCPState {
        match Self::spec_transition(state, input) {
            Some(next) => next,
            None => state,
        }
    }

    /// The state after a sequence of inputs, taken in order.
    pub open spec fn spec_run(state: TCPState, inputs: Seq<TCPInput>) -> TCPState
        decreases inputs.len(),
    {
        if inputs.len() == 0 {
            state
        } else {
            Self::spec_step(Self::spec_run(state, inputs.drop_last()), inputs.last())
        }
    }

    /// A timer that fires on a peer that is not waiting changes nothing; in
    /// particular one that fires on a closed peer.
    pub proof fn lemma_time_expired(state: TCPState)
        ensures
            state != TCPState::TimeWait ==> Self::spec_step(state, TCPInput::TimeExpired) == state,
            Self::spec_step(TCPState::TimeWait, TCPInput::TimeExpired) == TCPState::Closed,
    {
    }

    /// The only way into `Closed` is from `LastAck` by the acknowledgement of
    /// the FIN, or from `TimeWait` by the timer.
    pub proof fn lemma_closing(state: TCPState, input: TCPInput)
        ensures
            Self::spec_transition(state, input) == Some(TCPState::Closed) <==> (state
                == TCPState::LastAck && input == TCPInput::RecvAckForFin) || (state
                == TCPState::TimeWait && input == TCPInput::TimeExpired),
    {
    }
}

/// A peer's state machine.
#[derive(Debug, Clone, Copy, PartialEq, Eq, Structural)]
pub struct StateMachine {
    pub state: TCPState,
}

impl StateMachine {
    /// A machine in the initial state, `Closed`.
    pub fn new() -> (m: Self)
        ensures
            m.state == TCPState::Closed,
    {
        StateMachine { state: TCPState::Closed }
    }

    pub fn state(&self) -> (s: TCPState)
        ensures
            s == self.state,
    {
        self.state
    }

    /// Takes one input: moves to the state it leads to, or stays and reports
    /// that the input leads nowhere.
    pub fn consume(&mut self, input: &TCPInput) -> (r: Result<(), TransitionImpossibleError>)
        ensures
            final(self).state == TCP::spec_step(old(self).state, *input),
            r is Ok <==> TCP::spec_transition(old(self).state, *input) is Some,
    {
        match TCP::transition(self.state, *input) {
            Some(next) => {
                self.state = next;
                Ok(())
            },
            None => Err(TransitionImpossibleError),
        }
    }
}

} // verus!
