use vstd::prelude::*;
use crate::UiError;

verus! {

/// One raw thing the operator's input can yield: a whole buffered line
/// (newline included, as the line read delivers it), or a single key
/// pressed in raw mode.
#[derive(Debug, PartialEq, Eq)]
pub enum RawEvent {
    Line(String),
    Key(char),
}

/// The model of a raw input event.
pub enum EventModel {
    Line(Seq<char>),
    Key(char),
}

impl View for RawEvent {
    type V = EventModel;

    open spec fn view(&self) -> EventModel {
        match self {
            RawEvent::Line(s) => EventModel::Line(s@),
            RawEvent::Key(c) => EventModel::Key(*c),
        }
    }
}

pub open spec fn event_views(v: Seq<RawEvent>) -> Seq<EventModel> {
    v.map_values(|e: RawEvent| e@)
}

/// The blocking input source as this layer sees it: the finite queue of
/// events still pending, oldest first. A prompt consumes events from the
/// front; asking for a kind of event the front does not hold — or asking
/// when nothing is pending — is the one input failure.
pub struct InputSource {
    events: Vec<RawEvent>,
}

impl View for InputSource {
    type V = Seq<EventModel>;

    closed spec fn view(&self) -> Seq<EventModel> {
        event_views(self.events@)
    }
}

impl InputSource {
    /// A source that will yield exactly these events, in order.
    pub fn feed(events: Vec<RawEvent>) -> (s: InputSource)
        ensures
            s@ == event_views(events@),
    {
        InputSource { events }
    }

    /// Read one full line: succeeds exactly when the pending event is a
    /// line, which it consumes and returns verbatim.
    pub fn read_line(&mut self) -> (r: Result<String, UiError>)
        ensures
            old(self)@.len() > 0 && old(self)@[0] is Line ==> r is Ok && r->Ok_0@ == old(
                self,
            )@[0]->Line_0 && final(self)@ == old(self)@.drop_first(),
            !(old(self)@.len() > 0 && old(self)@[0] is Line) ==> r is Err && final(self)@ == old(
                self,
            )@,
    {
        if self.events.len() == 0 {
            return Err(UiError::Io);
        }
        let head_is_line = match &self.events[0] {
            RawEvent::Line(_) => true,
            RawEvent::Key(_) => false,
        };
        if !head_is_line {
            return Err(UiError::Io);
        }
        let e = self.events.remove(0);
        match e {
            RawEvent::Line(s) => {
                proof {
                    assert(final(self)@ =~= old(self)@.drop_first());
                }
                Ok(s)
            },
            RawEvent::Key(_) => {
                proof {
                    assert(false);
                }
                Err(UiError::Io)
            },
        }
    }

    /// Read one raw key event: succeeds exactly when the pending event is a
    /// key, which it consumes and returns.
    pub fn read_key(&mut self) -> (r: Result<char, UiError>)
        ensures
            old(self)@.len() > 0 && old(self)@[0] is Key ==> r is Ok && r->Ok_0 == old(
                self,
            )@[0]->Key_0 && final(self)@ == old(self)@.drop_first(),
            !(old(self)@.len() > 0 && old(self)@[0] is Key) ==> r is Err && final(self)@ == old(
                self,
            )@,
    {
        if self.events.len() == 0 {
            return Err(UiError::Io);
        }
        let head_is_key = match &self.events[0] {
            RawEvent::Line(_) => false,
            RawEvent::Key(_) => true,
        };
        if !head_is_key {
            return Err(UiError::Io);
        }
        let e = self.events.remove(0);
        match e {
            RawEvent::Key(c) => {
                proof {
                    assert(final(self)@ =~= old(self)@.drop_first());
                }
                Ok(c)
            },
            RawEvent::Line(_) => {
                proof {
                    assert(false);
                }
                Err(UiError::Io)
            },
        }
    }
}

} // verus!
