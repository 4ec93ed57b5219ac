//! Properties of the frame parser that relate several lines or calls.
use vstd::prelude::*;

use crate::event::EventModel;
use crate::frame::{
    body_len, dark_pred, first_token, frame_events, is_email_start, line_event, tabbed,
    untabbed_pred, white_pred,
};
use crate::parse::{broadcast_line, chat_line, kind_close, kind_model, lower_of, sender_end};
use crate::text::{
    digits_value, first_from, last_below, last_lit, lemma_last_below, lit_at, lit_pred, next_char,
    single_line,
};

verus! {

/// `first_from` is `m` when nothing before `m` satisfies the predicate and
/// `m` does (or is the end).
pub proof fn lemma_first_from_is(len: int, i: int, p: spec_fn(int) -> bool, m: int)
    requires
        i <= m <= len,
        forall|k: int| i <= k < m ==> !#[trigger] p(k),
        m < len ==> p(m),
    ensures
        first_from(len, i, p) == m,
    decreases m - i,
{
    if i < m {
        lemma_first_from_is(len, i + 1, p, m);
    }
}

pub open spec fn opt_seq(o: Option<EventModel>) -> Seq<EventModel> {
    match o {
        Some(e) => seq![e],
        None => Seq::empty(),
    }
}

pub open spec fn no_email_start(lines: Seq<Seq<char>>) -> bool {
    forall|i: int| 0 <= i < lines.len() ==> !is_email_start(#[trigger] lines[i])
}

/// Lines that start no e-mail can be read apart from what follows them.
pub proof fn lemma_frame_events_concat(a: Seq<Seq<char>>, b: Seq<Seq<char>>)
    requires
        no_email_start(a),
    ensures
        frame_events(a + b) == frame_events(a) + frame_events(b),
    decreases a.len(),
{
    if a.len() == 0 {
        assert(a + b =~= b);
        assert(frame_events(a) + frame_events(b) =~= frame_events(b));
    } else {
        let rest = a.drop_first();
        assert((a + b).drop_first() =~= rest + b);
        assert((a + b)[0] == a[0]);
        assert(!is_email_start(a[0]));
        assert forall|i: int| 0 <= i < rest.len() implies !is_email_start(#[trigger] rest[i]) by {
            assert(rest[i] == a[i + 1]);
        }
        lemma_frame_events_concat(rest, b);
        assert(frame_events(a + b) == opt_seq(line_event(a[0])) + frame_events(rest + b));
        assert(frame_events(a) == opt_seq(line_event(a[0])) + frame_events(rest));
        assert(opt_seq(line_event(a[0])) + (frame_events(rest) + frame_events(b)) =~= (opt_seq(
            line_event(a[0]),
        ) + frame_events(rest)) + frame_events(b));
    }
}

/// In a frame without e-mail, the update holds exactly the events of the
/// lines that their grammar accepts, in the order of the lines; every
/// other line, unknown, empty or malformed, is left out and harms no other.
pub proof fn law_frame_keeps_accepted_lines(lines: Seq<Seq<char>>)
    requires
        no_email_start(lines),
    ensures
        frame_events(lines) == lines.filter_map(|l: Seq<char>| line_event(l)),
    decreases lines.len(),
{
    if lines.len() > 0 {
        let init = lines.drop_last();
        let x = lines.last();
        assert(init + seq![x] =~= lines);
        assert forall|i: int| 0 <= i < init.len() implies !is_email_start(#[trigger] init[i]) by {
            assert(init[i] == lines[i]);
        }
        law_frame_keeps_accepted_lines(init);
        lemma_frame_events_concat(init, seq![x]);
        assert(!is_email_start(lines[lines.len() - 1]));
        assert(seq![x].drop_first() =~= Seq::<Seq<char>>::empty());
        assert(seq![x][0] == x);
        assert(frame_events(Seq::<Seq<char>>::empty()) =~= Seq::<EventModel>::empty());
        assert(frame_events(seq![x]) =~= opt_seq(line_event(x)));
    } else {
        assert(lines.filter_map(|l: Seq<char>| line_event(l)) =~= Seq::<EventModel>::empty());
    }
}

/// An e-mail whose body is not followed by `endemail` (the frame ends, or
/// another line comes) yields no event, and the lines before and after it
/// are read as if it were not there.
pub proof fn law_unterminated_email_dropped(
    before: Seq<Seq<char>>,
    header: Seq<char>,
    body: Seq<Seq<char>>,
    after: Seq<Seq<char>>,
)
    requires
        no_email_start(before),
        is_email_start(header),
        forall|i: int| 0 <= i < body.len() ==> tabbed(#[trigger] body[i]),
        after.len() > 0 ==> !tabbed(after[0]) && !lit_at(after[0], 0, "endemail"@),
    ensures
        frame_events(before + seq![header] + body + after) == frame_events(before) + frame_events(
            after,
        ),
{
    let tail = seq![header] + body + after;
    assert(before + seq![header] + body + after =~= before + tail);
    lemma_frame_events_concat(before, tail);
    let rest = tail.drop_first();
    assert(rest =~= body + after);
    assert(tail[0] == header);
    assert forall|k: int| 0 <= k < body.len() implies !#[trigger] untabbed_pred(rest)(k) by {
        assert(rest[k] == body[k]);
    }
    if after.len() > 0 {
        assert(rest[body.len() as int] == after[0]);
    }
    lemma_first_from_is(rest.len() as int, 0, untabbed_pred(rest), body.len() as int);
    assert(body_len(rest) == body.len());
    assert(rest.skip(body.len() as int) =~= after);
}

/// A broadcast line whose scope code is none of the four known codes
/// yields no event.
pub proof fn law_unknown_scope_rejected(s: Seq<char>)
    requires
        lit_at(s, 0, "bcast "@),
        digits_value(s.subrange(6, next_char(s, 6, ' '))) > 3,
    ensures
        broadcast_line(s) is None,
        line_event(s) is None,
{
    reveal_strlit("bcast ");
    reveal_strlit("bcast");
    assert(s.subrange(0, 6) == "bcast "@);
    assert forall|k: int| 0 <= k < 5 implies !#[trigger] white_pred(s)(k) by {
        assert(s.subrange(0, 6)[k] == s[k]);
    }
    assert(s[5] == ' ') by {
        assert(s.subrange(0, 6)[5] == s[5]);
    }
    assert(dark_pred(s)(0)) by {
        assert(s.subrange(0, 6)[0] == s[0]);
    }
    lemma_first_from_is(s.len() as int, 0, dark_pred(s), 0);
    lemma_first_from_is(s.len() as int, 0, white_pred(s), 5);
    assert(s.subrange(0, 5) =~= "bcast"@);
    assert(first_token(s) == Some("bcast"@));
    assert("bcast"@ != "player"@ && "bcast"@ != "chat"@) by {
        reveal_strlit("player");
        reveal_strlit("chat");
        assert("bcast"@[0] != "player"@[0]);
        assert("bcast"@.len() != "chat"@.len());
    }
}

/// `last_below` is `m` when `m` satisfies the predicate (or is `-1`) and
/// nothing after it below `i` does.
pub proof fn lemma_last_below_is(i: int, p: spec_fn(int) -> bool, m: int)
    requires
        -1 <= m < i,
        m >= 0 ==> p(m),
        forall|k: int| m < k < i ==> !#[trigger] p(k),
    ensures
        last_below(i, p) == m,
    decreases i,
{
    if i - 1 > m {
        lemma_last_below_is(i - 1, p, m);
    }
}

/// No element of `s` is `c`.
pub open spec fn lacks(s: Seq<char>, c: char) -> bool {
    forall|k: int| 0 <= k < s.len() ==> s[k] != c
}

/// A chat line with no `(to ...)` clause reads with no recipient, and with
/// its kind, sender and message as written, when the kind holds no `]` and
/// the sender no `:` or `(`.
pub proof fn law_chat_without_recipient(kind: Seq<char>, from: Seq<char>, message: Seq<char>)
    requires
        kind.len() > 0,
        from.len() > 0,
        lacks(kind, ']'),
        lacks(from, ':'),
        lacks(from, '('),
        single_line(kind),
        single_line(from),
        single_line(message),
    ensures
        chat_line("chat ["@ + kind + "] "@ + from + ": "@ + message) == Some(
            EventModel::Chat { kind: kind_model(lower_of(kind), kind), from, to: None, message },
        ),
{
    reveal_strlit("chat [");
    reveal_strlit("] ");
    reveal_strlit(": ");
    reveal_strlit(" (to ");
    let s = "chat ["@ + kind + "] "@ + from + ": "@ + message;
    let i: int = 6 + kind.len() as int;
    let f: int = i + 2;
    let j: int = f + from.len() as int;
    let m: int = j + 2;
    assert(s.subrange(0, 6) =~= "chat ["@);
    assert(s.subrange(6, i) =~= kind);
    assert(s.subrange(i, f) =~= "] "@);
    assert(s.subrange(f, j) =~= from);
    assert(s.subrange(j, m) =~= ": "@);
    assert(s.skip(m) =~= message);
    assert forall|k: int| 0 <= k < s.len() implies s[k] != '\n' by {
        if k < 6 {
            assert(s[k] == s.subrange(0, 6)[k]);
        } else if k < i {
            assert(s[k] == s.subrange(6, i)[k - 6]);
        } else if k < f {
            assert(s[k] == s.subrange(i, f)[k - i]);
        } else if k < j {
            assert(s[k] == s.subrange(f, j)[k - f]);
        } else if k < m {
            assert(s[k] == s.subrange(j, m)[k - j]);
        } else {
            assert(s[k] == s.skip(m)[k - m]);
        }
    }
    assert(lit_pred(s, ": "@)(j));
    lemma_last_below(s.len() as int, lit_pred(s, ": "@));
    assert(last_lit(s, ": "@) >= j);
    assert forall|k: int| 7 <= k < i implies !#[trigger] kind_close(s)(k) by {
        assert(s[k] == s.subrange(6, i)[k - 6]);
        if lit_at(s, k, "] "@) {
            assert(s.subrange(k, k + 2)[0] == s[k]);
        }
    }
    lemma_first_from_is(s.len() as int, 7, kind_close(s), i);
    assert forall|k: int| i + 3 <= k < j implies !#[trigger] sender_end(s)(k) by {
        assert(s[k] == s.subrange(f, j)[k - f]);
        if k + 1 < j {
            assert(s[k + 1] == s.subrange(f, j)[k + 1 - f]);
        } else {
            assert(s[k + 1] == s.subrange(j, m)[0]);
        }
        if lit_at(s, k, ": "@) {
            assert(s.subrange(k, k + 2)[0] == s[k]);
        }
        if lit_at(s, k, " (to "@) {
            assert(s.subrange(k, k + 5)[1] == s[k + 1]);
        }
    }
    lemma_first_from_is(s.len() as int, i + 3, sender_end(s), j);
    assert(!lit_at(s, j, " (to "@)) by {
        assert(s[j] == s.subrange(j, m)[0]);
        if lit_at(s, j, " (to "@) {
            assert(s.subrange(j, j + 5)[0] == s[j]);
        }
    }
}

/// A chat line with a `(to <to>)` clause reads with `to` as its recipient,
/// and with its kind, sender and message as written, when the kind holds
/// no `]`, the sender no `:` or `(`, and the recipient and message no `)`.
pub proof fn law_chat_with_recipient(
    kind: Seq<char>,
    from: Seq<char>,
    to: Seq<char>,
    message: Seq<char>,
)
    requires
        kind.len() > 0,
        from.len() > 0,
        to.len() > 0,
        lacks(kind, ']'),
        lacks(from, ':'),
        lacks(from, '('),
        lacks(to, ')'),
        lacks(message, ')'),
        single_line(kind),
        single_line(from),
        single_line(to),
        single_line(message),
    ensures
        chat_line("chat ["@ + kind + "] "@ + from + " (to "@ + to + "): "@ + message) == Some(
            EventModel::Chat {
                kind: kind_model(lower_of(kind), kind),
                from,
                to: Some(to),
                message,
            },
        ),
{
    reveal_strlit("chat [");
    reveal_strlit("] ");
    reveal_strlit(": ");
    reveal_strlit(" (to ");
    reveal_strlit("): ");
    let s = "chat ["@ + kind + "] "@ + from + " (to "@ + to + "): "@ + message;
    let i: int = 6 + kind.len() as int;
    let f: int = i + 2;
    let j: int = f + from.len() as int;
    let t: int = j + 5;
    let p: int = t + to.len() as int;
    let m: int = p + 3;
    assert(s.subrange(0, 6) =~= "chat ["@);
    assert(s.subrange(6, i) =~= kind);
    assert(s.subrange(i, f) =~= "] "@);
    assert(s.subrange(f, j) =~= from);
    assert(s.subrange(j, t) =~= " (to "@);
    assert(s.subrange(t, p) =~= to);
    assert(s.subrange(p, m) =~= "): "@);
    assert(s.skip(m) =~= message);
    assert forall|k: int| 0 <= k < s.len() implies s[k] != '\n' by {
        if k < 6 {
            assert(s[k] == s.subrange(0, 6)[k]);
        } else if k < i {
            assert(s[k] == s.subrange(6, i)[k - 6]);
        } else if k < f {
            assert(s[k] == s.subrange(i, f)[k - i]);
        } else if k < j {
            assert(s[k] == s.subrange(f, j)[k - f]);
        } else if k < t {
            assert(s[k] == s.subrange(j, t)[k - j]);
        } else if k < p {
            assert(s[k] == s.subrange(t, p)[k - t]);
        } else if k < m {
            assert(s[k] == s.subrange(p, m)[k - p]);
        } else {
            assert(s[k] == s.skip(m)[k - m]);
        }
    }
    assert(lit_pred(s, "): "@)(p));
    assert forall|k: int| p < k < s.len() implies !#[trigger] lit_pred(s, "): "@)(k) by {
        if k < m {
            assert(s[k] == s.subrange(p, m)[k - p]);
        } else {
            assert(s[k] == s.skip(m)[k - m]);
        }
        if lit_at(s, k, "): "@) {
            assert(s.subrange(k, k + 3)[0] == s[k]);
        }
    }
    lemma_last_below_is(s.len() as int, lit_pred(s, "): "@), p);
    assert(last_lit(s, "): "@) == p);
    assert(lit_pred(s, ": "@)(p + 1)) by {
        assert(s.subrange(p + 1, p + 3) =~= s.subrange(p, m).subrange(1, 3));
        assert("): "@.subrange(1, 3) =~= ": "@);
    }
    lemma_last_below(s.len() as int, lit_pred(s, ": "@));
    assert forall|k: int| 7 <= k < i implies !#[trigger] kind_close(s)(k) by {
        assert(s[k] == s.subrange(6, i)[k - 6]);
        if lit_at(s, k, "] "@) {
            assert(s.subrange(k, k + 2)[0] == s[k]);
        }
    }
    lemma_first_from_is(s.len() as int, 7, kind_close(s), i);
    assert forall|k: int| i + 3 <= k < j implies !#[trigger] sender_end(s)(k) by {
        assert(s[k] == s.subrange(f, j)[k - f]);
        if k + 1 < j {
            assert(s[k + 1] == s.subrange(f, j)[k + 1 - f]);
        } else {
            assert(s[k + 1] == s.subrange(j, t)[0]);
        }
        if lit_at(s, k, ": "@) {
            assert(s.subrange(k, k + 2)[0] == s[k]);
        }
        if lit_at(s, k, " (to "@) {
            assert(s.subrange(k, k + 5)[1] == s[k + 1]);
        }
    }
    assert(sender_end(s)(j));
    lemma_first_from_is(s.len() as int, i + 3, sender_end(s), j);
}

} // verus!
