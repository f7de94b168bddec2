//! Server-sent events, framed.
//!
//! Transport only: lines in, events out. What the data *means* is the
//! provider's business and is decoded a layer up, in
//! [`openai`](super::openai). Keeping the split lets the framer be strict
//! about the spec and the decoder be forgiving about vendors.

use crate::text;
use vstd::prelude::*;
use vstd::string::StringExecFns;

verus! {

/// One dispatched event. The chat wire format uses only the `data` field, so
/// only `data` is kept — `event`, `id`, and `retry` are read and dropped
/// rather than modelled, which is the whole of what this client needs.
#[derive(Clone, Debug, Eq, PartialEq)]
pub struct Event {
    pub data: String,
}

/// Frames a stream into events, following the spec's dispatch rules:
/// `field: value` lines accumulate, a blank line dispatches what has
/// accumulated, `:`-leading lines are comments, and a field this client does
/// not care about is skipped rather than fatal — which is what keeps a
/// provider's next addition from becoming a breaking change.
#[derive(Debug)]
pub struct Events {
    data: Option<String>,
}

/// The line without the line endings it ends with.
pub open spec fn bare(line: Seq<char>) -> Seq<char>
    decreases line.len(),
{
    if line.len() > 0 && (line.last() == '\n' || line.last() == '\r') {
        bare(line.drop_last())
    } else {
        line
    }
}

/// The field a line names and its value: exactly one optional space after
/// the colon belongs to the framing, not the value.
pub open spec fn field(line: Seq<char>) -> (Seq<char>, Seq<char>) {
    match text::cut(line, ':') {
        Some((name, value)) => (name, text::without_first(value, ' ')),
        None => (line, Seq::empty()),
    }
}

/// What has accumulated after a line, and the event it dispatches.
pub open spec fn framed_line(data: Option<Seq<char>>, line: Seq<char>) -> (
    Option<Seq<char>>,
    Option<Seq<char>>,
) {
    let line = bare(line);
    if line.len() == 0 {
        (None, data)
    } else if line[0] == ':' {
        (data, None)
    } else {
        let (name, value) = field(line);
        if name == "data"@ {
            match data {
                Some(accumulated) => (Some(accumulated + "\n"@ + value), None),
                None => (Some(value), None),
            }
        } else {
            (data, None)
        }
    }
}

/// The lines of a stream, each with the newline that ends it.
pub open spec fn raw_lines(stream: Seq<char>) -> Seq<Seq<char>>
    decreases stream.len(),
{
    let at = text::first_of(stream, '\n') as int;
    if stream.len() == 0 {
        Seq::empty()
    } else if 0 <= at < stream.len() {
        seq![stream.take(at + 1)] + raw_lines(stream.skip(at + 1))
    } else {
        seq![stream]
    }
}

/// What has accumulated after a row of lines, and the events they
/// dispatch. What is left at the end of a stream is discarded: a truncated
/// event is not an event.
pub open spec fn framed_lines(lines: Seq<Seq<char>>) -> (Option<Seq<char>>, Seq<Seq<char>>)
    decreases lines.len(),
{
    if lines.len() == 0 {
        (None, Seq::empty())
    } else {
        let (before, events) = framed_lines(lines.drop_last());
        let (after, dispatched) = framed_line(before, lines.last());
        match dispatched {
            Some(data) => (after, events.push(data)),
            None => (after, events),
        }
    }
}

/// The data of the events of a stream.
pub open spec fn framed(stream: Seq<char>) -> Seq<Seq<char>> {
    framed_lines(raw_lines(stream)).1
}

/// The data of a row of events.
pub open spec fn data_of(events: Seq<Event>) -> Seq<Seq<char>> {
    events.map_values(|event: Event| event.data@)
}

fn trimmed(line: &str) -> (r: String)
    ensures
        r@ == bare(line@),
{
    let chars: Vec<char> = text::chars_of(line);
    let mut end: usize = chars.len();
    proof {
        assert(chars@.take(end as int) =~= line@);
    }
    while end > 0 && (chars[end - 1] == '\n' || chars[end - 1] == '\r')
        invariant
            end <= chars@.len(),
            chars@ == line@,
            bare(line@) == bare(chars@.take(end as int)),
        decreases end,
    {
        proof {
            assert(chars@.take(end as int).drop_last() =~= chars@.take(end - 1));
        }
        end = end - 1;
    }
    let r = text::string_of(&chars, 0, end);
    proof {
        assert(r@ =~= chars@.take(end as int));
    }
    r
}

impl Default for Events {
    /// Nothing has accumulated.
    fn default() -> (r: Self)
        ensures
            r.pending() is None,
    {
        Events { data: None }
    }
}

impl Events {
    /// What has accumulated.
    pub closed spec fn pending(&self) -> Option<Seq<char>> {
        text::optional(self.data)
    }

    /// One line of the stream, as it was read; the event it dispatches, if
    /// any.
    pub fn line(&mut self, line: &str) -> (r: Option<Event>)
        ensures
            (
                final(self).pending(),
                match r {
                    Some(event) => Some(event.data@),
                    None => None,
                },
            ) == framed_line(old(self).pending(), line@),
    {
        let line = trimmed(line);
        let chars: Vec<char> = text::chars_of(line.as_str());
        if chars.len() == 0 {
            let taken = match &self.data {
                Some(data) => Some(Event { data: data.clone() }),
                None => None,
            };
            self.data = None;
            return taken;
        }
        if chars[0] == ':' {
            return None;
        }
        let (name, value) = match text::split_once(line.as_str(), ':') {
            Some((name, value)) => (name, text::strip_first(value.as_str(), ' ')),
            None => {
                let none = String::new();
                proof {
                    assert(none@ =~= Seq::empty());
                }
                (line, none)
            },
        };
        if text::same(name.as_str(), "data") {
            let data = match &self.data {
                Some(accumulated) => text::cat3(accumulated.as_str(), "\n", value.as_str()),
                None => value,
            };
            self.data = Some(data);
        }
        None
    }
}

/// The events of a whole stream.
pub fn events(stream: &str) -> (r: Vec<Event>)
    ensures
        data_of(r@) == framed(stream@),
{
    let lines = split(stream);
    let ghost view = raw_lines(stream@);
    let mut framer = Events::default();
    let mut dispatched: Vec<Event> = Vec::new();
    let mut i: usize = 0;
    proof {
        assert(data_of(dispatched@) =~= Seq::empty());
        assert(view.take(0) =~= Seq::empty());
    }
    while i < lines.len()
        invariant
            i <= lines@.len(),
            text::views(lines@) == view,
            (framer.pending(), data_of(dispatched@)) == framed_lines(view.take(i as int)),
        decreases lines@.len() - i,
    {
        proof {
            assert(view[i as int] == lines@[i as int]@);
            assert(view.take(i + 1).drop_last() =~= view.take(i as int));
            assert(view.take(i + 1).last() == view[i as int]);
        }
        let ghost before = data_of(dispatched@);
        match framer.line(lines[i].as_str()) {
            Some(event) => {
                let ghost shown = event.data@;
                dispatched.push(event);
                proof {
                    assert(data_of(dispatched@) =~= before.push(shown));
                }
            },
            None => {},
        }
        i = i + 1;
    }
    proof {
        assert(view.take(i as int) =~= view);
    }
    dispatched
}

/// The lines of a stream, each with the newline that ends it.
fn split(stream: &str) -> (r: Vec<String>)
    ensures
        text::views(r@) == raw_lines(stream@),
{
    let chars: Vec<char> = text::chars_of(stream);
    let n: usize = chars.len();
    let mut found: Vec<String> = Vec::new();
    let mut from: usize = 0;
    proof {
        assert(chars@.skip(0) =~= stream@);
        assert(text::views(found@) + raw_lines(stream@) =~= raw_lines(stream@));
    }
    while from < n
        invariant
            from <= n == chars@.len(),
            chars@ == stream@,
            raw_lines(stream@) == text::views(found@) + raw_lines(chars@.skip(from as int)),
        decreases n - from,
    {
        let ghost rest = chars@.skip(from as int);
        let ghost before = text::views(found@);
        let at: usize = text::index_of(&chars, from, '\n');
        let end: usize = if at < n {
            at + 1
        } else {
            n
        };
        let line = text::string_of(&chars, from, end);
        let ghost shown = line@;
        found.push(line);
        proof {
            assert(shown =~= rest.take(end - from));
            assert(rest.skip(end - from) =~= chars@.skip(end as int));
            if at >= n {
                assert(shown =~= rest);
                assert(chars@.skip(n as int) =~= Seq::empty());
                assert(raw_lines(rest) =~= seq![rest] + raw_lines(chars@.skip(n as int)));
            }
            assert(text::views(found@) =~= before.push(shown));
            assert(before + (seq![shown] + raw_lines(chars@.skip(end as int))) =~= text::views(
                found@,
            ) + raw_lines(chars@.skip(end as int)));
        }
        from = end;
    }
    proof {
        assert(chars@.skip(from as int) =~= Seq::empty());
        assert(text::views(found@) + raw_lines(chars@.skip(from as int)) =~= text::views(found@));
    }
    found
}

} // verus!
