//! Splits JSON text at the colons that stand outside quotes, for display.
//!
//! Of the text before each such colon only the quote marks and the backslashes
//! inside quotes are kept; they form a key segment, which a colon segment
//! follows. What is kept after the last colon forms a closing plain segment.

use vstd::prelude::*;
use vstd::std_specs::iter::IteratorSpec;
use vstd::string::*;

verus! {

broadcast use vstd::string::group_string_axioms;

/// How a segment is drawn.
#[derive(Debug, Clone, Copy, PartialEq, Eq, Structural)]
pub enum Tone {
    /// Highlighted, as the text before a colon.
    Key,
    /// Without highlight.
    Plain,
}

/// A run of text with its tone.
#[derive(Debug)]
pub struct Segment {
    pub text: String,
    pub tone: Tone,
}

impl View for Segment {
    type V = (Seq<char>, Tone);

    open spec fn view(&self) -> (Seq<char>, Tone) {
        (self.text@, self.tone)
    }
}

/// The segments held by a sequence of [`Segment`]s.
pub open spec fn segment_views(segments: Seq<Segment>) -> Seq<(Seq<char>, Tone)> {
    segments.map_values(|s: Segment| s@)
}

/// Where a scan stands after some characters.
pub struct Scan {
    /// The segments closed so far.
    pub segments: Seq<(Seq<char>, Tone)>,
    /// What is kept of the text since the last colon.
    pub current: Seq<char>,
    /// Whether the scan is inside quotes.
    pub in_quotes: bool,
    /// Whether the last character was a backslash inside quotes.
    pub escape_next: bool,
}

/// The scan before any character.
pub open spec fn scan_start() -> Scan {
    Scan { segments: Seq::empty(), current: Seq::empty(), in_quotes: false, escape_next: false }
}

/// The scan after one more character.
///
/// A colon outside quotes closes the current text as a key segment and adds
/// the colon segment. A quote mark that no backslash precedes opens or closes
/// quotes and is kept. A backslash inside quotes is kept and marks the next
/// character as escaped. Any other character is dropped and ends an escape.
pub open spec fn scan_char(st: Scan, c: char) -> Scan {
    if c == ':' && !st.in_quotes {
        Scan {
            segments: st.segments.push((st.current, Tone::Key)).push((": "@, Tone::Plain)),
            current: Seq::empty(),
            ..st
        }
    } else if c == '"' && !st.escape_next {
        Scan { current: st.current.push('"'), in_quotes: !st.in_quotes, ..st }
    } else if c == '\\' && st.in_quotes {
        Scan { current: st.current.push('\\'), escape_next: true, ..st }
    } else {
        Scan { escape_next: false, ..st }
    }
}

/// The scan after all of `s`.
pub open spec fn scan(s: Seq<char>) -> Scan
    decreases s.len(),
{
    if s.len() == 0 {
        scan_start()
    } else {
        scan_char(scan(s.drop_last()), s.last())
    }
}

/// The segments of `s`: those that the scan closed, and what it still holds,
/// if anything, as a plain segment.
pub open spec fn segments_of(s: Seq<char>) -> Seq<(Seq<char>, Tone)> {
    let st = scan(s);
    if st.current.len() > 0 {
        st.segments.push((st.current, Tone::Plain))
    } else {
        st.segments
    }
}

/// Splits `json` into segments for display.
pub fn json_colon_split(json: &str) -> (segments: Vec<Segment>)
    ensures
        segment_views(segments@) == segments_of(json@),
{
    let n = json.unicode_len();
    let mut segments: Vec<Segment> = Vec::new();
    let mut current = String::new();
    let mut kept: usize = 0;
    let mut in_quotes = false;
    let mut escape_next = false;
    let mut it = json.chars();
    let ghost mut pos: int = 0;
    proof {
        reveal_strlit("\"");
        reveal_strlit("\\");
        assert(segment_views(segments@) =~= scan_start().segments);
        assert(json@.take(0) =~= Seq::<char>::empty());
    }
    loop
        invariant_except_break
            it.remaining() == json@.skip(pos),
        invariant
            n == json@.len(),
            0 <= pos <= n,
            kept == current@.len(),
            kept <= pos,
            "\""@ == seq!['"'],
            "\\"@ == seq!['\\'],
            scan(json@.take(pos)) == (Scan {
                segments: segment_views(segments@),
                current: current@,
                in_quotes,
                escape_next,
            }),
        ensures
            pos == n,
        decreases n - pos,
    {
        match it.next() {
            None => {
                break ;
            },
            Some(c) => {
                proof {
                    assert(json@.skip(pos).drop_first() =~= json@.skip(pos + 1));
                    assert(json@.take(pos + 1).drop_last() =~= json@.take(pos));
                    assert(json@.take(pos + 1).last() == c);
                }
                let ghost before = segment_views(segments@);
                if c == ':' && !in_quotes {
                    segments.push(Segment { text: current, tone: Tone::Key });
                    segments.push(Segment { text: String::from_str(": "), tone: Tone::Plain });
                    current = String::new();
                    kept = 0;
                    assert(segment_views(segments@) =~= before.push(
                        (scan(json@.take(pos)).current, Tone::Key),
                    ).push((": "@, Tone::Plain)));
                } else if c == '"' && !escape_next {
                    in_quotes = !in_quotes;
                    current.append("\"");
                    kept = kept + 1;
                    assert(current@ =~= scan(json@.take(pos)).current.push('"'));
                } else if c == '\\' && in_quotes {
                    escape_next = true;
                    current.append("\\");
                    kept = kept + 1;
                    assert(current@ =~= scan(json@.take(pos)).current.push('\\'));
                } else {
                    escape_next = false;
                }
                proof {
                    pos = pos + 1;
                }
            },
        }
    }
    assert(json@.take(pos) =~= json@);
    if kept > 0 {
        let ghost before = segment_views(segments@);
        segments.push(Segment { text: current, tone: Tone::Plain });
        assert(segment_views(segments@) =~= before.push((scan(json@).current, Tone::Plain)));
    }
    segments
}

/// Whether `t` holds quote marks and backslashes only.
pub open spec fn only_marks(t: Seq<char>) -> bool {
    forall|i: int| 0 <= i < t.len() ==> #[trigger] t[i] == '"' || t[i] == '\\'
}

/// What the scan keeps holds quote marks and backslashes only: a segment has
/// no white space at either end.
pub proof fn lemma_kept_characters(s: Seq<char>)
    ensures
        only_marks(scan(s).current),
        forall|i: int|
            0 <= i < scan(s).segments.len() ==> (#[trigger] scan(s).segments[i]).1 == Tone::Plain
                || only_marks(scan(s).segments[i].0),
    decreases s.len(),
{
    if s.len() > 0 {
        lemma_kept_characters(s.drop_last());
        let before = scan(s.drop_last());
        let after = scan(s);
        assert forall|i: int| 0 <= i < after.segments.len() implies (#[trigger] after.segments[i]).1
            == Tone::Plain || only_marks(after.segments[i].0) by {
            if i < before.segments.len() {
                assert(after.segments[i] == before.segments[i]);
            }
        }
    }
}

} // verus!
