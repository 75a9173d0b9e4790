//! What the bridge decides between its connection, the actions it passes
//! on, and the streams.

use crate::config::Config;
use crate::delay::{MAX_ENTRIES, MAX_PERIOD};
use crate::handler::{
    configured, configured_period, routed, Flush, Handled, HandlerView, StreamHandler,
};
use crate::stream::{emits, fed_one, Buffer, Payload, Stream, StreamView};
use std::task::Context;
use vstd::prelude::*;

verus! {

/// The seconds an application has to answer an action.
pub const ACTION_TIMEOUT: u64 = 10;

/// The name of the stream on which applications answer actions.
pub open spec fn action_status() -> Seq<char> {
    "action_status"@
}

/// What the bridge holds.
pub ghost struct BridgeView {
    /// The action that waits for its answer.
    pub current_action: Option<Seq<char>>,
    /// The stream of the answers that the bridge gives itself.
    pub action_status: StreamView<Payload>,
    pub handler: HandlerView,
}

/// What became of a point that the connection brought.
#[derive(Debug)]
pub enum Collected {
    /// The point answers an action that has timed out already: dropped.
    Late,
    /// The point went to the streams.
    Handled(Handled),
}

/// The state of the bridge between a connection and the streams.
pub struct Bridge {
    current_action: Option<String>,
    action_status: Stream<Payload>,
    stream_handler: StreamHandler,
}

/// The view of a name that may be absent.
pub open spec fn name_of(action: Option<String>) -> Option<Seq<char>> {
    match action {
        Some(id) => Some(id@),
        None => None,
    }
}

impl View for Bridge {
    type V = BridgeView;

    closed spec fn view(&self) -> BridgeView {
        BridgeView {
            current_action: name_of(self.current_action),
            action_status: self.action_status@,
            handler: self.stream_handler@,
        }
    }
}

impl Bridge {
    /// The streams are well formed.
    pub closed spec fn wf(&self) -> bool {
        self.stream_handler.wf() && self.action_status.wf()
    }

    /// A bridge with the streams of `config`, with `action_status` for its
    /// own answers, and no action waiting.
    pub fn new(config: &Config, action_status: Stream<Payload>) -> (bridge: Bridge)
        requires
            config.streams@.len() < MAX_ENTRIES,
            configured_period(config.flush_period) <= MAX_PERIOD,
            action_status.wf(),
        ensures
            bridge.wf(),
            bridge@.current_action is None,
            bridge@.action_status == action_status@,
            bridge@.handler == (HandlerView {
                project_id: config.project_id@,
                device_id: config.device_id@,
                period: configured_period(config.flush_period) as u64,
                streams: configured(config.streams@),
                timers: crate::delay::no_deadlines(),
            }),
    {
        Bridge { current_action: None, action_status, stream_handler: StreamHandler::new(config) }
    }

    /// Takes in a point that the connection brought. An answer to an action
    /// ends the wait for it; an answer that no action waits for is dropped.
    /// Every other point goes to the streams.
    pub fn collect(&mut self, data: Payload) -> (collected: Collected)
        requires
            old(self).wf(),
        ensures
            final(self).wf(),
            match collected {
                Collected::Late => {
                    &&& data.stream@ == action_status()
                    &&& old(self)@.current_action is None
                    &&& final(self)@ == old(self)@
                },
                Collected::Handled(handled) => {
                    &&& data.stream@ == action_status() ==> old(self)@.current_action is Some
                        && final(self)@.current_action is None
                    &&& data.stream@ != action_status() ==> final(self)@.current_action == old(
                        self,
                    )@.current_action
                    &&& final(self)@.action_status == old(self)@.action_status
                    &&& routed(old(self)@.handler, data, final(self)@.handler, handled)
                },
            },
    {
        let answers = String::from_str("action_status");
        if data.stream == answers {
            if self.current_action.is_none() {
                return Collected::Late;
            }
            self.current_action = None;
        }
        Collected::Handled(self.stream_handler.handle_data(data))
    }

    /// Takes in an answer that the bridge gives in an application's place.
    /// It goes to the bridge's own stream of answers, whether or not an
    /// action waits; a batch that the answer fills is to be sent.
    pub fn respond(&mut self, response: Payload) -> (flushed: Option<Buffer<Payload>>)
        requires
            old(self).wf(),
        ensures
            final(self).wf(),
            final(self)@ == (BridgeView {
                action_status: StreamView {
                    held: fed_one(
                        old(self)@.action_status.capacity(),
                        old(self)@.action_status.held,
                        response,
                    ).1,
                    ..old(self)@.action_status
                },
                ..old(self)@
            }),
            match flushed {
                Some(batch) => emits(
                    old(self)@.action_status,
                    batch,
                    old(self)@.action_status.held.push(response),
                ),
                None => fed_one(
                    old(self)@.action_status.capacity(),
                    old(self)@.action_status.held,
                    response,
                ).0 is None,
            },
    {
        self.action_status.fill(response)
    }

    /// Notes that the action `action_id` was passed on and waits for its
    /// answer.
    pub fn begin(&mut self, action_id: String)
        ensures
            final(self).wf() == old(self).wf(),
            final(self)@ == (BridgeView { current_action: Some(action_id@), ..old(self)@ }),
    {
        self.current_action = Some(action_id);
    }

    /// Whether an action waits for its answer.
    pub fn waiting(&self) -> (waiting: bool)
        ensures
            waiting == self@.current_action is Some,
    {
        self.current_action.is_some()
    }

    /// Ends the wait for an answer: the action that has waited in vain, if
    /// one has.
    pub fn timeout(&mut self) -> (action_id: Option<String>)
        ensures
            final(self).wf() == old(self).wf(),
            name_of(action_id) == old(self)@.current_action,
            final(self)@ == (BridgeView { current_action: None, ..old(self)@ }),
    {
        let mut waited: Option<String> = None;
        std::mem::swap(&mut self.current_action, &mut waited);
        waited
    }

    /// Looks for a stream whose flush period has passed, and flushes it.
    pub fn next(&mut self, cx: &mut Context<'_>) -> (flush: Flush)
        requires
            old(self).wf(),
        ensures
            final(self).wf(),
            final(self)@.current_action == old(self)@.current_action,
            final(self)@.action_status == old(self)@.action_status,
            crate::handler::flushed(old(self)@.handler, final(self)@.handler, flush),
    {
        self.stream_handler.next(cx)
    }

    /// Whether no stream waits to be flushed.
    pub fn is_empty(&self) -> (empty: bool)
        requires
            self.wf(),
        ensures
            empty == self@.handler.timers.dom().is_empty(),
    {
        self.stream_handler.is_empty()
    }
}

} // verus!
