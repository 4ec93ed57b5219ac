//! Turning the lines of one frame into an update, and cutting a stream of
//! lines into frames.
use vstd::prelude::*;
use vstd::string::*;

use crate::event::{
    BroadcastEvent, ChatEvent, EmailEvent, Event, EventModel, MonitorUpdate, NameRequestEvent,
    PlayerEvent, models,
};
use crate::parse::{broadcast_line, chat_line, email_header, name_request_line, player_line};
use crate::text::{chars_of, equals_lit, first_from, has_at, lemma_first_from, lit_at, text_of};

verus! {

/// Characters with the Unicode `White_Space` property.
pub open spec fn is_white(c: char) -> bool {
    ('\t' <= c && c <= '\r') || c == ' ' || c == '\u{85}' || c == '\u{a0}' || c == '\u{1680}' || (
    '\u{2000}' <= c && c <= '\u{200a}') || c == '\u{2028}' || c == '\u{2029}' || c == '\u{202f}'
        || c == '\u{205f}' || c == '\u{3000}'
}

pub fn is_white_char(c: char) -> (r: bool)
    ensures
        r == is_white(c),
{
    ('\t' <= c && c <= '\r') || c == ' ' || c == '\u{85}' || c == '\u{a0}' || c == '\u{1680}' || (
    '\u{2000}' <= c && c <= '\u{200a}') || c == '\u{2028}' || c == '\u{2029}' || c == '\u{202f}'
        || c == '\u{205f}' || c == '\u{3000}'
}

pub open spec fn white_pred(s: Seq<char>) -> spec_fn(int) -> bool {
    |k: int| 0 <= k < s.len() && is_white(s[k])
}

pub open spec fn dark_pred(s: Seq<char>) -> spec_fn(int) -> bool {
    |k: int| 0 <= k < s.len() && !is_white(s[k])
}

/// The first maximal run of non-whitespace characters of `s`, if any.
pub open spec fn first_token(s: Seq<char>) -> Option<Seq<char>> {
    let a = first_from(s.len() as int, 0, dark_pred(s));
    let b = first_from(s.len() as int, a, white_pred(s));
    if a < s.len() {
        Some(s.subrange(a, b))
    } else {
        None
    }
}

/// The first whitespace-delimited word of `line`.
pub fn get_first_token(line: &str) -> (r: Option<&str>)
    ensures
        match r {
            Some(t) => first_token(line@) == Some(t@),
            None => first_token(line@) is None,
        },
{
    let cs = chars_of(line);
    let n = cs.len();
    let ghost s = cs@;
    let mut a: usize = 0;
    while a < n && is_white_char(cs[a])
        invariant
            a <= n == s.len(),
            s == cs@,
            first_from(n as int, 0, dark_pred(s)) == first_from(n as int, a as int, dark_pred(s)),
        decreases n - a,
    {
        a = a + 1;
    }
    if a == n {
        return None;
    }
    let mut b: usize = a;
    while b < n && !is_white_char(cs[b])
        invariant
            a <= b <= n == s.len(),
            s == cs@,
            first_from(n as int, a as int, white_pred(s)) == first_from(n as int, b as int, white_pred(s)),
        decreases n - b,
    {
        b = b + 1;
    }
    Some(line.substring_char(a, b))
}

/// Whether the first word of `line` is `word`.
fn first_token_is(line: &str, word: &str) -> (r: bool)
    ensures
        r == (first_token(line@) == Some(word@)),
{
    match get_first_token(line) {
        Some(t) => {
            let cs = chars_of(t);
            equals_lit(&cs, word)
        },
        None => false,
    }
}

/// The event that a line of one of the single-line kinds stands for.
pub open spec fn line_event(s: Seq<char>) -> Option<EventModel> {
    let t = first_token(s);
    if t == Some("player"@) {
        player_line(s)
    } else if t == Some("chat"@) {
        chat_line(s)
    } else if t == Some("bcast"@) {
        broadcast_line(s)
    } else if t == Some("namereq"@) {
        name_request_line(s)
    } else {
        None
    }
}

pub open spec fn is_email_start(s: Seq<char>) -> bool {
    first_token(s) == Some("email"@)
}

pub open spec fn tabbed(s: Seq<char>) -> bool {
    s.len() > 0 && s[0] == '\t'
}

pub open spec fn untabbed_pred(lines: Seq<Seq<char>>) -> spec_fn(int) -> bool {
    |k: int| 0 <= k < lines.len() && !tabbed(lines[k])
}

/// Number of leading lines that start with a tab.
pub open spec fn body_len(lines: Seq<Seq<char>>) -> int {
    first_from(lines.len() as int, 0, untabbed_pred(lines))
}

/// The first `n` lines, each without its leading tab.
pub open spec fn body_text(lines: Seq<Seq<char>>, n: int) -> Seq<Seq<char>> {
    lines.take(n).map_values(|l: Seq<char>| l.drop_first())
}

/// The events of a frame's lines, in order. An `email` line takes the
/// tab-led lines after it as its body and needs an `endemail` line next;
/// without one, the header and the body yield nothing and the following line
/// is read afresh. Any line that no grammar accepts yields nothing.
pub open spec fn frame_events(lines: Seq<Seq<char>>) -> Seq<EventModel>
    decreases lines.len(),
    via frame_events_decreases
{
    if lines.len() == 0 {
        Seq::empty()
    } else {
        let s = lines[0];
        let rest = lines.drop_first();
        if is_email_start(s) {
            let n = body_len(rest);
            if n < rest.len() && lit_at(rest[n], 0, "endemail"@) {
                match email_header(s, body_text(rest, n)) {
                    Some(e) => seq![e] + frame_events(rest.skip(n + 1)),
                    None => frame_events(rest.skip(n + 1)),
                }
            } else {
                frame_events(rest.skip(n))
            }
        } else {
            match line_event(s) {
                Some(e) => seq![e] + frame_events(rest),
                None => frame_events(rest),
            }
        }
    }
}

#[via_fn]
proof fn frame_events_decreases(lines: Seq<Seq<char>>) {
    if lines.len() > 0 {
        let rest = lines.drop_first();
        lemma_first_from(rest.len() as int, 0, untabbed_pred(rest));
    }
}

fn starts_with_tab(line: &str) -> (r: bool)
    ensures
        r == tabbed(line@),
{
    line.unicode_len() > 0 && line.get_char(0) == '\t'
}

/// The event of a line of one of the single-line kinds.
fn event_of_line(line: &str) -> (r: Option<Event>)
    ensures
        match r {
            Some(e) => line_event(line@) == Some(e@),
            None => line_event(line@) is None,
        },
{
    if first_token_is(line, "player") {
        match PlayerEvent::parse(line) {
            Some(e) => Some(Event::Player(e)),
            None => None,
        }
    } else if first_token_is(line, "chat") {
        match ChatEvent::parse(line) {
            Some(e) => Some(Event::Chat(e)),
            None => None,
        }
    } else if first_token_is(line, "bcast") {
        match BroadcastEvent::parse(line) {
            Some(e) => Some(Event::Broadcast(e)),
            None => None,
        }
    } else if first_token_is(line, "namereq") {
        match NameRequestEvent::parse(line) {
            Some(e) => Some(Event::NameRequest(e)),
            None => None,
        }
    } else {
        None
    }
}

/// The update that the lines of one frame carry.
pub fn parse_frame(lines: &Vec<String>) -> (r: MonitorUpdate)
    ensures
        models(r@) == frame_events(lines.deep_view()),
{
    let ghost all = lines.deep_view();
    let mut events: Vec<Event> = Vec::new();
    let mut i: usize = 0;
    assert(all.skip(0) =~= all);
    assert(models(events@) =~= Seq::<EventModel>::empty());
    assert(Seq::<EventModel>::empty() + frame_events(all) =~= frame_events(all));
    while i < lines.len()
        invariant
            i <= lines@.len(),
            all == lines.deep_view(),
            models(events@) + frame_events(all.skip(i as int)) == frame_events(all),
        decreases lines@.len() - i,
    {
        let ghost cur = all.skip(i as int);
        let ghost rest = all.skip(i + 1);
        let ghost before = events@;
        assert(cur[0] == lines@[i as int]@);
        assert(cur.drop_first() =~= rest);
        let line = lines[i].as_str();
        if first_token_is(line, "email") {
            let mut k: usize = i + 1;
            let mut body: Vec<String> = Vec::new();
            proof {
                assert(body.deep_view() =~= body_text(rest, 0));
            }
            while k < lines.len() && starts_with_tab(lines[k].as_str())
                invariant
                    i + 1 <= k <= lines@.len(),
                    all == lines.deep_view(),
                    rest == all.skip(i + 1),
                    body.deep_view() == body_text(rest, k - (i + 1)),
                    body_len(rest) == first_from(rest.len() as int, k - (i + 1), untabbed_pred(rest)),
                decreases lines@.len() - k,
            {
                let t = lines[k].as_str();
                let stripped = text_of(t, 1, t.unicode_len());
                let ghost prior = body.deep_view();
                body.push(stripped);
                proof {
                    assert(rest[k - (i + 1)] == lines@[k as int]@);
                    assert(stripped@ =~= lines@[k as int]@.drop_first());
                    assert(body.deep_view() =~= prior.push(stripped@));
                    assert(body.deep_view() =~= body_text(rest, k + 1 - (i + 1)));
                }
                k = k + 1;
            }
            let n = k - (i + 1);
            proof {
                if k < lines@.len() {
                    assert(rest[n as int] == lines@[k as int]@);
                }
            }
            if k < lines.len() && has_at(&chars_of(lines[k].as_str()), 0, "endemail") {
                assert(rest.skip(n + 1) =~= all.skip(k + 1));
                match EmailEvent::parse(line, body) {
                    Some(e) => {
                        events.push(Event::Email(e));
                        assert(models(events@) =~= models(before) + seq![e@]);
                    },
                    None => {},
                }
                i = k + 1;
            } else {
                assert(rest.skip(n as int) =~= all.skip(k as int));
                i = k;
            }
        } else {
            match event_of_line(line) {
                Some(e) => {
                    events.push(e);
                    assert(models(events@) =~= models(before) + seq![e@]);
                },
                None => {},
            }
            i = i + 1;
        }
    }
    assert(all.skip(i as int) =~= Seq::<Seq<char>>::empty());
    assert(models(events@) + Seq::<EventModel>::empty() =~= models(events@));
    MonitorUpdate::from_events(events)
}

/// A raw line as read, without its terminating line feed if it has one.
pub fn strip_newline(raw: &str) -> (r: String)
    ensures
        r@ == if raw@.len() > 0 && raw@.last() == '\n' {
            raw@.drop_last()
        } else {
            raw@
        },
{
    let n = raw.unicode_len();
    if n > 0 && raw.get_char(n - 1) == '\n' {
        let r = text_of(raw, 0, n - 1);
        assert(r@ =~= raw@.drop_last());
        r
    } else {
        let r = text_of(raw, 0, n);
        assert(r@ =~= raw@);
        r
    }
}

/// Collects the lines of the frame in progress: `begin` starts a frame
/// afresh, `end` closes it.
pub struct LineFramer {
    lines: Vec<String>,
}

impl View for LineFramer {
    type V = Seq<Seq<char>>;

    closed spec fn view(&self) -> Seq<Seq<char>> {
        self.lines.deep_view()
    }
}

impl LineFramer {
    pub fn new() -> (r: LineFramer)
        ensures
            r@ == Seq::<Seq<char>>::empty(),
    {
        let r = LineFramer { lines: Vec::new() };
        assert(r@ =~= Seq::<Seq<char>>::empty());
        r
    }

    /// Takes the next line of the stream; hands back the update of the
    /// frame that it closes, if it is `end`.
    pub fn push_line(&mut self, line: String) -> (r: Option<MonitorUpdate>)
        ensures
            line@ == "begin"@ ==> final(self)@ == Seq::<Seq<char>>::empty() && r is None,
            line@ == "end"@ ==> final(self)@ == Seq::<Seq<char>>::empty() && r is Some && models(
                (r->0)@,
            ) == frame_events(old(self)@),
            line@ != "begin"@ && line@ != "end"@ ==> final(self)@ == old(self)@.push(line@)
                && r is None,
    {
        let cs = chars_of(line.as_str());
        proof {
            reveal_strlit("begin");
            reveal_strlit("end");
        }
        if equals_lit(&cs, "begin") {
            self.lines = Vec::new();
            assert(self@ =~= Seq::<Seq<char>>::empty());
            assert(cs@ == "begin"@);
            assert("begin"@.len() == 5);
            assert("end"@.len() == 3);
            assert(line@ != "end"@);
            None
        } else if equals_lit(&cs, "end") {
            let ghost before = self@;
            let update = parse_frame(&self.lines);
            assert(models(update@) == frame_events(before));
            self.lines = Vec::new();
            assert(self@ =~= Seq::<Seq<char>>::empty());
            Some(update)
        } else {
            let ghost before = self@;
            self.lines.push(line);
            assert(self@ =~= before.push(line@));
            None
        }
    }
}

} // verus!
