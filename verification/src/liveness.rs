//! What holds of a session and the clock: silence ends it, and its end is
//! reported once.

use crate::chatserver::{DisconnectView, RequestView};
use crate::chatsession::{
    ClientPacketView, EffectView, FrameView, IncomingView, Session, ping_text, CLIENT_TIMEOUT,
};
use vstd::prelude::*;

verus! {

/// The probe as the client sees it.
pub open spec fn ping() -> EffectView {
    EffectView::Send(FrameView::Packet(ClientPacketView::Heartbeat(ping_text())))
}

/// A probe that finds the client silent for longer than `CLIENT_TIMEOUT`
/// ends the session, and the end of a session is reported to the registry
/// as one full disconnect, however often the host reports it.
pub proof fn lemma_silence_ends_the_session(s: Session, now: u64)
    requires
        !s.closed,
        now - s.last_heartbeat > CLIENT_TIMEOUT,
    ensures
        s.heartbeat_effects(now) == seq![ping(), EffectView::Stop],
        s.stop_effects() == seq![
            EffectView::Forward(
                RequestView::Disconnect(DisconnectView { id: s.id, full_disconnect: true }),
            ),
        ],
        s.after_stop().stop_effects() == Seq::<EffectView>::empty(),
        s.after_stop().after_stop() == s.after_stop(),
{
}

/// Any text frame is a sign of life: no probe within `CLIENT_TIMEOUT` of
/// it ends the session.
pub proof fn lemma_text_frame_is_a_sign_of_life(
    s: Session,
    decoded: Option<ClientPacketView>,
    then: u64,
    now: u64,
)
    requires
        now - then <= CLIENT_TIMEOUT,
    ensures
        s.after_frame(IncomingView::Text(decoded), then).last_heartbeat == then,
        s.after_frame(IncomingView::Text(decoded), then).heartbeat_effects(now) == seq![ping()],
{
}

} // verus!
