//! The session driver's routing of one inbound frame: heartbeat frames
//! are acknowledged, the namespace join starts the initialization
//! sequence, application events go to the trigger engine, and everything
//! else is ignored.
use vstd::prelude::*;
use crate::engine::{TriggerEngine, cmds_view, spec_on_output};
use crate::frames::{FrameKind, spec_frame_kind, classify_frame};
use crate::json::{event_name, output_data, parse_event, ParsedEvent};
use crate::outcome::{SessionOutcome, CloseReason};
use crate::select::sub_vec;
use crate::text::{contains_seq, contains_sub, str_to_chars};

verus! {

/// The fixed pause between the stop and start events of initialization.
pub const SETTLE_DELAY_MS: u64 = 1500;

/// What the caller must do with one inbound frame.
pub enum FrameAction {
    /// Reply with the heartbeat ack and reset the heartbeat clock.
    Pong,
    /// Namespace joined: send the stop event, wait the settle delay,
    /// send the start event, and mark the activity and retry clocks.
    Initialize,
    /// Send these commands in order; then, if an outcome is set, the
    /// session ends with it.
    Engine(Vec<Vec<char>>, Option<SessionOutcome>),
    /// Nothing to do.
    Ignore,
}

/// Routes one inbound frame. The boolean reports whether the frame
/// counts as application activity: an event frame whose raw text
/// mentions the output event.
pub fn handle_frame(engine: &mut TriggerEngine, text: &[char]) -> (r: (FrameAction, bool))
    requires
        old(engine).wf(),
    ensures
        final(engine).wf(),
        final(engine).mode == old(engine).mode,
        final(engine).target_server == old(engine).target_server,
        final(engine).access_code == old(engine).access_code,
        r.1 == (spec_frame_kind(text@) == FrameKind::Event && contains_seq(text@, "output"@)),
        spec_frame_kind(text@) == FrameKind::Ping ==> r.0 is Pong && final(engine).st()
            == old(engine).st(),
        spec_frame_kind(text@) == FrameKind::NamespaceJoin ==> r.0 is Initialize
            && final(engine).st() == old(engine).st(),
        spec_frame_kind(text@) == FrameKind::Other ==> r.0 is Ignore && final(engine).st()
            == old(engine).st(),
        spec_frame_kind(text@) == FrameKind::Event ==> ({
            let payload = text@.skip(2);
            let nm = event_name(payload);
            let od = output_data(payload);
            if nm == Some("output"@) && od is Some {
                r.0 matches FrameAction::Engine(c, oc) && ({
                    let s = spec_on_output(
                        old(engine).st(),
                        old(engine).mode,
                        old(engine).target_view(),
                        old(engine).access_code@,
                        od->Some_0,
                    );
                    final(engine).st() == s.0.st && cmds_view(c) == s.0.cmds && oc == s.1
                })
            } else if nm == Some("idle_timeout"@) {
                r.0 matches FrameAction::Engine(c, oc) && cmds_view(c) == Seq::<Seq<char>>::empty()
                    && oc == Some(SessionOutcome::ServerClosed(CloseReason::IdleTimeout))
                    && final(engine).st() == old(engine).st()
            } else if nm == Some("disconnect"@) {
                r.0 matches FrameAction::Engine(c, oc) && cmds_view(c) == Seq::<Seq<char>>::empty()
                    && oc == Some(SessionOutcome::ServerClosed(CloseReason::Disconnect))
                    && final(engine).st() == old(engine).st()
            } else {
                r.0 is Ignore && final(engine).st() == old(engine).st()
            }
        }),
{
    let kind = classify_frame(text);
    match kind {
        FrameKind::Ping => (FrameAction::Pong, false),
        FrameKind::NamespaceJoin => (FrameAction::Initialize, false),
        FrameKind::Other => (FrameAction::Ignore, false),
        FrameKind::Event => {
            let out_word = str_to_chars("output");
            proof {
                reveal_strlit("output");
                assert("output"@.len() == 6 && "idle_timeout"@.len() == 12 && "disconnect"@.len()
                    == 10 && "activity_ping"@.len() == 13 && "user_count_update"@.len() == 17) by {
                    reveal_strlit("output");
                    reveal_strlit("idle_timeout");
                    reveal_strlit("disconnect");
                    reveal_strlit("activity_ping");
                    reveal_strlit("user_count_update");
                }
            }
            let marks = contains_sub(text, out_word.as_slice());
            let payload = sub_vec(text, 2, text.len());
            proof {
                assert(payload@ =~= text@.skip(2));
            }
            match parse_event(payload.as_slice()) {
                ParsedEvent::Output(d) => {
                    let (cmds, oc) = engine.on_output(d.as_slice());
                    (FrameAction::Engine(cmds, oc), marks)
                },
                ParsedEvent::IdleTimeout => {
                    let empty: Vec<Vec<char>> = Vec::new();
                    proof {
                        assert(cmds_view(empty) =~= Seq::<Seq<char>>::empty());
                    }
                    (
                        FrameAction::Engine(
                            empty,
                            Some(SessionOutcome::ServerClosed(CloseReason::IdleTimeout)),
                        ),
                        marks,
                    )
                },
                ParsedEvent::Disconnect => {
                    let empty: Vec<Vec<char>> = Vec::new();
                    proof {
                        assert(cmds_view(empty) =~= Seq::<Seq<char>>::empty());
                    }
                    (
                        FrameAction::Engine(
                            empty,
                            Some(SessionOutcome::ServerClosed(CloseReason::Disconnect)),
                        ),
                        marks,
                    )
                },
                ParsedEvent::ActivityPing => (FrameAction::Ignore, marks),
                ParsedEvent::UserCountUpdate => (FrameAction::Ignore, marks),
                ParsedEvent::Other => (FrameAction::Ignore, marks),
            }
        },
    }
}

} // verus!
