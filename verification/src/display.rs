//! What the display loop shows: the messages received so far and the query.
//!
//! Drawing and polling the hand-off queue are the loop's own work. Each tick it
//! draws [`Display::items`] and [`Display::query`], polls the queue once
//! without waiting, and hands what it got to [`Display::on_poll`].

use crate::text::same_text;
use vstd::prelude::*;
use vstd::string::*;

verus! {

/// The text of the end-of-stream frame, as the relay sends it.
pub open spec fn end_of_stream() -> Seq<char> {
    "[\"EOSE\",\"gnostr-query\"]"@
}

/// The line shown in place of an end-of-stream frame.
pub open spec fn placeholder() -> Seq<char> {
    "TODO: handle EOSE"@
}

/// The line shown for `frame`: the frame itself, or the placeholder where the
/// frame is the end-of-stream marker.
pub open spec fn shown(frame: Seq<char>) -> Seq<char> {
    if frame == end_of_stream() {
        placeholder()
    } else {
        frame
    }
}

/// Whether `frame` is the end-of-stream marker. The frame is compared as raw
/// text; it is not parsed.
pub fn is_end_of_stream(frame: &str) -> (marker: bool)
    ensures
        marker == (frame@ == end_of_stream()),
{
    same_text(frame, "[\"EOSE\",\"gnostr-query\"]")
}

/// The line to show for `frame`.
pub fn display_line(frame: &str) -> (line: String)
    ensures
        line@ == shown(frame@),
{
    if is_end_of_stream(frame) {
        String::from_str("TODO: handle EOSE")
    } else {
        String::from_str(frame)
    }
}

/// The state of the display: every message received, the one selected, and
/// the text of the outgoing request.
pub struct Display {
    messages: Vec<String>,
    selected: Option<usize>,
    query: String,
}

impl Display {
    /// The messages received so far, oldest first.
    pub closed spec fn messages(&self) -> Seq<Seq<char>> {
        self.messages@.map_values(|m: String| m@)
    }

    /// The index of the selected message, if one is selected.
    pub closed spec fn selection(&self) -> Option<int> {
        match self.selected {
            Some(i) => Some(i as int),
            None => None,
        }
    }

    /// The text of the outgoing request.
    pub closed spec fn request(&self) -> Seq<char> {
        self.query@
    }

    /// Whether the selection is in order: nothing is selected while there is
    /// no message, and the newest message is selected once there is one.
    pub closed spec fn well_formed(&self) -> bool {
        if self.messages.len() == 0 {
            self.selected is None
        } else {
            self.selected == Some((self.messages.len() - 1) as usize)
        }
    }

    /// A display with no message yet.
    pub fn new(query: String) -> (display: Display)
        ensures
            display.well_formed(),
            display.messages() == Seq::<Seq<char>>::empty(),
            display.selection() is None,
            display.request() == query@,
    {
        let display = Display { messages: Vec::new(), selected: None, query };
        assert(display.messages() =~= Seq::<Seq<char>>::empty());
        display
    }

    /// Takes the result of one poll of the hand-off queue.
    ///
    /// A frame is appended and becomes the selected message. Without a frame
    /// nothing changes.
    pub fn on_poll(&mut self, polled: Option<String>)
        requires
            old(self).well_formed(),
        ensures
            final(self).well_formed(),
            final(self).request() == old(self).request(),
            polled matches Some(frame) ==> final(self).messages() == old(self).messages().push(
                frame@,
            ),
            polled is Some ==> final(self).selection() == Some(old(self).messages().len() as int),
            polled is None ==> final(self).messages() == old(self).messages(),
            polled is None ==> final(self).selection() == old(self).selection(),
    {
        match polled {
            Some(frame) => {
                self.messages.push(frame);
                self.selected = Some(self.messages.len() - 1);
                assert(self.messages() =~= old(self).messages().push(frame@));
            },
            None => {},
        }
    }

    /// The lines of the message list, oldest first: each message as
    /// [`shown`].
    pub fn items(&self) -> (lines: Vec<String>)
        ensures
            lines@.map_values(|l: String| l@) == self.messages().map_values(
                |m: Seq<char>| shown(m),
            ),
    {
        let mut lines: Vec<String> = Vec::new();
        let mut i: usize = 0;
        while i < self.messages.len()
            invariant
                i <= self.messages.len(),
                lines.len() == i,
                forall|j: int| 0 <= j < i ==> (#[trigger] lines[j])@ == shown(self.messages[j]@),
            decreases self.messages.len() - i,
        {
            lines.push(display_line(self.messages[i].as_str()));
            i = i + 1;
        }
        assert(lines@.map_values(|l: String| l@) =~= self.messages().map_values(
            |m: Seq<char>| shown(m),
        ));
        lines
    }

    /// The index of the selected message.
    pub fn selected(&self) -> (index: Option<usize>)
        ensures
            self.selection() == match index {
                Some(i) => Some(i as int),
                None => None,
            },
    {
        self.selected
    }

    /// The number of messages received so far.
    pub fn len(&self) -> (count: usize)
        ensures
            count == self.messages().len(),
    {
        self.messages.len()
    }

    /// The text of the outgoing request.
    pub fn query(&self) -> (text: &str)
        ensures
            text@ == self.request(),
    {
        self.query.as_str()
    }
}

} // verus!
