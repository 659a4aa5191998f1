use vstd::prelude::*;
use crate::bus::Received;
use crate::event::ProgressEvent;

verus! {

/// What happened on a subscriber's connection.
pub enum RelayInput {
    /// The peer closed the connection, its stream ended, or reading failed.
    PeerGone,
    /// The peer sent a message of any other kind.
    PeerMessage,
    /// What a receive from the bus gave.
    Received(Received),
    /// An event could not be encoded for the peer.
    EncodeFailed,
    /// An encoded event was sent (`true`) or sending failed (`false`).
    Sent(bool),
}

/// What the connection does next.
pub enum RelayAction {
    /// Encode this event and send it to the peer.
    Forward(ProgressEvent),
    /// Nothing is pending: wait for the peer or for a new event.
    Wait,
    /// Receive again.
    Continue,
    /// End the session.
    Close,
}

/// Decides a subscriber connection's next move. The session ends when the
/// peer goes or a send fails; inbound messages are ignored; every received
/// event is forwarded as it is; an overrun is a gap to step over, and an
/// event that cannot be encoded is skipped.
pub fn relay_step(input: RelayInput) -> (r: RelayAction)
    ensures
        input is PeerGone ==> r is Close,
        input is PeerMessage ==> r is Continue,
        input is Received && input->Received_0 is Event ==> r is Forward && r->Forward_0@
            == input->Received_0->Event_0@,
        input is Received && input->Received_0 is Lagged ==> r is Continue,
        input is Received && input->Received_0 is Empty ==> r is Wait,
        input is EncodeFailed ==> r is Continue,
        input is Sent ==> (r is Close) == !input->Sent_0,
        input is Sent && input->Sent_0 ==> r is Continue,
{
    match input {
        RelayInput::PeerGone => RelayAction::Close,
        RelayInput::PeerMessage => RelayAction::Continue,
        RelayInput::Received(Received::Event(e)) => RelayAction::Forward(e),
        RelayInput::Received(Received::Lagged(_)) => RelayAction::Continue,
        RelayInput::Received(Received::Empty) => RelayAction::Wait,
        RelayInput::EncodeFailed => RelayAction::Continue,
        RelayInput::Sent(ok) => if ok {
            RelayAction::Continue
        } else {
            RelayAction::Close
        },
    }
}

} // verus!
