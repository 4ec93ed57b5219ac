//! Grammars of the single event lines and the parsers that follow them.
//!
//! Every grammar reads a whole line; a line holding a line feed never
//! matches. Where a field may itself contain its closing delimiter, the
//! grammar says which occurrence ends it (the first or the last one).
use vstd::prelude::*;
use vstd::string::*;

use crate::event::{
    BroadcastEvent, BroadcastScope, ChatEvent, ChatKind, EmailEvent, EventModel, KindModel,
    NameRequestEvent, PlayerEvent,
};
use crate::text::{
    all_digits, chars_of, digits_value, equals_lit, find_char, find_lit, first_from, has_at,
    is_single_line, last_lit, lemma_first_from, lemma_last_below, lit_at, lit_pred, next_char, next_lit, parse_digits,
    rfind_lit, signed_digits, signed_value, single_line, text_of,
};

verus! {

/// What `str::to_lowercase` makes of a string.
pub uninterp spec fn lower_of(s: Seq<char>) -> Seq<char>;

/// Relies on `str::to_lowercase`: its result is a function of the characters alone.
#[verifier::external_body]
fn lowercase(s: &str) -> (r: String)
    ensures
        r@ == lower_of(s@),
{
    s.to_lowercase()
}

pub open spec fn in_i32(v: int) -> bool {
    i32::MIN <= v <= i32::MAX
}

/// The value of the characters `from..to` of `cs` read as an `i32` in
/// decimal with an optional minus sign.
pub fn parse_i32(cs: &Vec<char>, from: usize, to: usize) -> (r: Option<i32>)
    requires
        from <= to <= cs@.len(),
    ensures
        ({
            let d = cs@.subrange(from as int, to as int);
            match r {
                Some(v) => signed_digits(d) && in_i32(signed_value(d)) && v == signed_value(d),
                None => !(signed_digits(d) && in_i32(signed_value(d))),
            }
        }),
{
    let ghost d = cs@.subrange(from as int, to as int);
    if from < to && cs[from] == '-' {
        assert(cs@.subrange(from + 1, to as int) =~= d.drop_first());
        match parse_digits(cs, from + 1, to, 2147483648) {
            Some(v) => Some((0 - v as i64) as i32),
            None => None,
        }
    } else {
        match parse_digits(cs, from, to, 2147483647) {
            Some(v) => Some(v as i32),
            None => None,
        }
    }
}

/// `player <x> <y> <name>`: the coordinates are decimal `i32`s, each ended
/// by the first space after it; the name is the non-empty rest.
pub open spec fn player_line(s: Seq<char>) -> Option<EventModel> {
    let p = next_char(s, 7, ' ');
    let q = next_char(s, p + 1, ' ');
    let a = s.subrange(7, p);
    let b = s.subrange(p + 1, q);
    let name = s.skip(q + 1);
    if lit_at(s, 0, "player "@) && single_line(s) && q < s.len() && name.len() > 0
        && signed_digits(a) && signed_digits(b) && in_i32(signed_value(a)) && in_i32(
        signed_value(b),
    ) {
        Some(EventModel::Player { x: signed_value(a), y: signed_value(b), name })
    } else {
        None
    }
}

impl PlayerEvent {
    /// Reads a `player` line.
    pub fn parse(line: &str) -> (r: Option<PlayerEvent>)
        ensures
            match r {
                Some(e) => player_line(line@) == Some(e@),
                None => player_line(line@) is None,
            },
    {
        let cs = chars_of(line);
        if !has_at(&cs, 0, "player ") || !is_single_line(&cs) {
            return None;
        }
        proof {
            reveal_strlit("player ");
        }
        let n = cs.len();
        let p = find_char(&cs, 7, ' ');
        if p == n {
            return None;
        }
        let q = find_char(&cs, p + 1, ' ');
        if q == n || q + 1 == n {
            return None;
        }
        let x = parse_i32(&cs, 7, p);
        let y = parse_i32(&cs, p + 1, q);
        match (x, y) {
            (Some(x_coord), Some(y_coord)) => {
                let name = text_of(line, q + 1, n);
                assert(name@ =~= line@.skip(q + 1));
                Some(PlayerEvent { x_coord, y_coord, name })
            },
            _ => None,
        }
    }
}

/// The kind that a chat line names, from its lowercased and its raw text.
pub open spec fn kind_model(lowered: Seq<char>, raw: Seq<char>) -> KindModel {
    if lowered == "freechat"@ {
        KindModel::FreeChat
    } else if lowered == "menuchat"@ {
        KindModel::MenuChat
    } else if lowered == "buddychat"@ {
        KindModel::BuddyChat
    } else if lowered == "buddymenuchat"@ {
        KindModel::BuddyMenuChat
    } else if lowered == "groupchat"@ {
        KindModel::GroupChat
    } else if lowered == "groupmenuchat"@ {
        KindModel::GroupMenuChat
    } else if lowered == "tradechat"@ {
        KindModel::TradeChat
    } else {
        KindModel::Unknown(raw)
    }
}

/// The text that names a chat kind: the variant's name, or the raw text
/// followed by `*` for an unknown kind.
pub open spec fn kind_text(k: KindModel) -> Seq<char> {
    match k {
        KindModel::FreeChat => "FreeChat"@,
        KindModel::MenuChat => "MenuChat"@,
        KindModel::BuddyChat => "BuddyChat"@,
        KindModel::BuddyMenuChat => "BuddyMenuChat"@,
        KindModel::GroupChat => "GroupChat"@,
        KindModel::GroupMenuChat => "GroupMenuChat"@,
        KindModel::TradeChat => "TradeChat"@,
        KindModel::Unknown(raw) => raw + "*"@,
    }
}

impl ChatKind {
    /// The kind named by `raw`, given `lowered`, its lowercase form; the
    /// names are matched without regard to case.
    pub fn from_lowered(lowered: &str, raw: &str) -> (r: ChatKind)
        ensures
            r@ == kind_model(lowered@, raw@),
    {
        let cs = chars_of(lowered);
        if equals_lit(&cs, "freechat") {
            ChatKind::FreeChat
        } else if equals_lit(&cs, "menuchat") {
            ChatKind::MenuChat
        } else if equals_lit(&cs, "buddychat") {
            ChatKind::BuddyChat
        } else if equals_lit(&cs, "buddymenuchat") {
            ChatKind::BuddyMenuChat
        } else if equals_lit(&cs, "groupchat") {
            ChatKind::GroupChat
        } else if equals_lit(&cs, "groupmenuchat") {
            ChatKind::GroupMenuChat
        } else if equals_lit(&cs, "tradechat") {
            ChatKind::TradeChat
        } else {
            ChatKind::Unknown(String::from_str(raw))
        }
    }

    /// The kind named by `raw`; an unrecognised name is kept as `Unknown`.
    pub fn from_name(raw: &str) -> (r: ChatKind)
        ensures
            r@ == kind_model(lower_of(raw@), raw@),
    {
        let lowered = lowercase(raw);
        ChatKind::from_lowered(lowered.as_str(), raw)
    }

    /// The kind as display text.
    pub fn display_text(&self) -> (r: String)
        ensures
            r@ == kind_text(self@),
    {
        match self {
            ChatKind::FreeChat => String::from_str("FreeChat"),
            ChatKind::MenuChat => String::from_str("MenuChat"),
            ChatKind::BuddyChat => String::from_str("BuddyChat"),
            ChatKind::BuddyMenuChat => String::from_str("BuddyMenuChat"),
            ChatKind::GroupChat => String::from_str("GroupChat"),
            ChatKind::GroupMenuChat => String::from_str("GroupMenuChat"),
            ChatKind::TradeChat => String::from_str("TradeChat"),
            ChatKind::Unknown(raw) => String::from_str(raw.as_str()).concat("*"),
        }
    }
}

/// A `]` followed by a space at `i` closes the kind of a chat line when a
/// `: ` follows later with at least one character between.
pub open spec fn kind_close(s: Seq<char>) -> spec_fn(int) -> bool {
    |i: int| lit_at(s, i, "] "@) && last_lit(s, ": "@) >= i + 3
}

/// The sender of a chat line ends at `j` when a non-empty ` (to <to>)`
/// clause followed by `: ` starts there, or else a `: `.
pub open spec fn sender_end(s: Seq<char>) -> spec_fn(int) -> bool {
    |j: int| (lit_at(s, j, " (to "@) && last_lit(s, "): "@) >= j + 6) || lit_at(s, j, ": "@)
}

/// `chat [<kind>] <from>[ (to <to>)]: <message>`: the kind is non-empty and
/// ends at the first `] ` that a `: ` follows; the sender is non-empty and
/// ends at the first place where a `(to ...)` clause or a `: ` starts; the
/// recipient runs to the last `): ` of the line; the message is the rest.
pub open spec fn chat_line(s: Seq<char>) -> Option<EventModel> {
    let i = first_from(s.len() as int, 7, kind_close(s));
    let j = first_from(s.len() as int, i + 3, sender_end(s));
    let l = last_lit(s, "): "@);
    let raw = s.subrange(6, i);
    let kind = kind_model(lower_of(raw), raw);
    let from = s.subrange(i + 2, j);
    if !(lit_at(s, 0, "chat ["@) && single_line(s) && i < s.len() && j < s.len()) {
        None
    } else if lit_at(s, j, " (to "@) && l >= j + 6 {
        Some(
            EventModel::Chat {
                kind,
                from,
                to: Some(s.subrange(j + 5, l)),
                message: s.skip(l + 3),
            },
        )
    } else {
        Some(EventModel::Chat { kind, from, to: None, message: s.skip(j + 2) })
    }
}

impl ChatEvent {
    /// Reads a `chat` line.
    pub fn parse(line: &str) -> (r: Option<ChatEvent>)
        ensures
            match r {
                Some(e) => chat_line(line@) == Some(e@),
                None => chat_line(line@) is None,
            },
    {
        let cs = chars_of(line);
        if !has_at(&cs, 0, "chat [") || !is_single_line(&cs) {
            return None;
        }
        proof {
            reveal_strlit("chat [");
            reveal_strlit("] ");
            reveal_strlit(": ");
            reveal_strlit(" (to ");
            reveal_strlit("): ");
        }
        let n = cs.len();
        if n <= 7 {
            return None;
        }
        let ghost s = cs@;
        let colon = rfind_lit(&cs, ": ");
        let directed_end = rfind_lit(&cs, "): ");
        let mut i: usize = 7;
        while i < n
            invariant
                7 <= i <= n,
                n == s.len(),
                s == cs@,
                s == line@,
                first_from(n as int, 7, kind_close(s)) == first_from(n as int, i as int, kind_close(s)),
                match colon {
                    Some(v) => v == last_lit(s, ": "@),
                    None => last_lit(s, ": "@) == -1,
                },
            ensures
                i < n ==> kind_close(s)(i as int),
            decreases n - i,
        {
            let closes = has_at(&cs, i, "] ") && match colon {
                Some(v) => v >= 3 && i <= v - 3,
                None => false,
            };
            if closes {
                break;
            }
            i = i + 1;
        }
        if i == n {
            return None;
        }
        let v = match colon {
            Some(v) => v,
            None => {
                return None;
            },
        };
        if v < 3 || i > v - 3 {
            return None;
        }
        proof {
            lemma_last_below(n as int, lit_pred(s, ": "@));
            lemma_last_below(n as int, lit_pred(s, "): "@));
        }
        let mut j: usize = i + 3;
        while j < n
            invariant
                i + 3 <= j <= n,
                n == s.len(),
                s == cs@,
                first_from(n as int, i + 3, sender_end(s)) == first_from(n as int, j as int, sender_end(s)),
                match directed_end {
                    Some(v) => v == last_lit(s, "): "@),
                    None => last_lit(s, "): "@) == -1,
                },
            ensures
                j < n ==> sender_end(s)(j as int),
            decreases n - j,
        {
            let directed = has_at(&cs, j, " (to ") && match directed_end {
                Some(v) => v >= 6 && j <= v - 6,
                None => false,
            };
            if directed || has_at(&cs, j, ": ") {
                break;
            }
            j = j + 1;
        }
        if j == n {
            return None;
        }
        let raw = text_of(line, 6, i);
        let kind = ChatKind::from_name(raw.as_str());
        let from = text_of(line, i + 2, j);
        let directed = has_at(&cs, j, " (to ") && match directed_end {
            Some(v) => v >= 6 && j <= v - 6,
            None => false,
        };
        if directed {
            let l = match directed_end {
                Some(v) => v,
                None => j,
            };
            let to = text_of(line, j + 5, l);
            let message = text_of(line, l + 3, n);
            assert(message@ =~= s.skip(l + 3));
            Some(ChatEvent { kind, from, to: Some(to), message })
        } else {
            assert(lit_at(s, j as int, ": "@));
            let message = text_of(line, j + 2, n);
            assert(message@ =~= s.skip(j + 2));
            Some(ChatEvent { kind, from, to: None, message })
        }
    }
}

/// The scope that a broadcast code names: `0` to `3`, from the narrowest reach.
pub open spec fn scope_of(code: nat) -> Option<BroadcastScope> {
    if code == 0 {
        Some(BroadcastScope::Local)
    } else if code == 1 {
        Some(BroadcastScope::Channel)
    } else if code == 2 {
        Some(BroadcastScope::Shard)
    } else if code == 3 {
        Some(BroadcastScope::Global)
    } else {
        None
    }
}

impl BroadcastScope {
    /// The scope with wire code `code`, if there is one.
    pub fn from_code(code: u64) -> (r: Option<BroadcastScope>)
        ensures
            r == scope_of(code as nat),
    {
        if code == 0 {
            Some(BroadcastScope::Local)
        } else if code == 1 {
            Some(BroadcastScope::Channel)
        } else if code == 2 {
            Some(BroadcastScope::Shard)
        } else if code == 3 {
            Some(BroadcastScope::Global)
        } else {
            None
        }
    }
}

/// `bcast <scope> <announcement_type> <duration_secs> <from>: <message>`:
/// three decimal fields, each ended by the first space after it, the first
/// a scope code and the others `usize`s; the sender is non-empty and ends at
/// the first `: ` after it; the message is the rest.
pub open spec fn broadcast_line(s: Seq<char>) -> Option<EventModel> {
    let p1 = next_char(s, 6, ' ');
    let p2 = next_char(s, p1 + 1, ' ');
    let p3 = next_char(s, p2 + 1, ' ');
    let j = next_lit(s, p3 + 2, ": "@);
    let a = s.subrange(6, p1);
    let b = s.subrange(p1 + 1, p2);
    let c = s.subrange(p2 + 1, p3);
    if lit_at(s, 0, "bcast "@) && single_line(s) && p3 < s.len() && j < s.len() && all_digits(a)
        && all_digits(b) && all_digits(c) && scope_of(digits_value(a)) is Some && digits_value(b)
        <= usize::MAX && digits_value(c) <= usize::MAX {
        Some(
            EventModel::Broadcast {
                scope: scope_of(digits_value(a))->0,
                announcement_type: digits_value(b),
                duration_secs: digits_value(c),
                from: s.subrange(p3 + 1, j),
                message: s.skip(j + 2),
            },
        )
    } else {
        None
    }
}

impl BroadcastEvent {
    /// Reads a `bcast` line.
    pub fn parse(line: &str) -> (r: Option<BroadcastEvent>)
        ensures
            match r {
                Some(e) => broadcast_line(line@) == Some(e@),
                None => broadcast_line(line@) is None,
            },
    {
        let cs = chars_of(line);
        if !has_at(&cs, 0, "bcast ") || !is_single_line(&cs) {
            return None;
        }
        proof {
            reveal_strlit("bcast ");
            reveal_strlit(": ");
        }
        let n = cs.len();
        let p1 = find_char(&cs, 6, ' ');
        if p1 == n {
            return None;
        }
        let p2 = find_char(&cs, p1 + 1, ' ');
        if p2 == n {
            return None;
        }
        let p3 = find_char(&cs, p2 + 1, ' ');
        if p3 == n || p3 + 1 == n {
            return None;
        }
        let j = find_lit(&cs, p3 + 2, ": ");
        if j == n {
            return None;
        }
        proof {
            lemma_first_from(n as int, p3 + 2, lit_pred(cs@, ": "@));
        }
        let code = parse_digits(&cs, 6, p1, 3);
        let announcement = parse_digits(&cs, p1 + 1, p2, usize::MAX as u64);
        let duration = parse_digits(&cs, p2 + 1, p3, usize::MAX as u64);
        match (code, announcement, duration) {
            (Some(code), Some(announcement), Some(duration)) => {
                let scope = match BroadcastScope::from_code(code) {
                    Some(scope) => scope,
                    None => {
                        return None;
                    },
                };
                let from = text_of(line, p3 + 1, j);
                let message = text_of(line, j + 2, n);
                assert(message@ =~= line@.skip(j + 2));
                Some(
                    BroadcastEvent {
                        scope,
                        announcement_type: announcement as usize,
                        duration_secs: duration as usize,
                        from,
                        message,
                    },
                )
            },
            _ => None,
        }
    }
}

/// `namereq <player_uid> <requested_name>`: a decimal `u64` ended by the
/// first space after it, then the non-empty rest.
pub open spec fn name_request_line(s: Seq<char>) -> Option<EventModel> {
    let p = next_char(s, 8, ' ');
    let a = s.subrange(8, p);
    let name = s.skip(p + 1);
    if lit_at(s, 0, "namereq "@) && single_line(s) && p < s.len() && name.len() > 0 && all_digits(
        a,
    ) && digits_value(a) <= u64::MAX {
        Some(EventModel::NameRequest { player_uid: digits_value(a), requested_name: name })
    } else {
        None
    }
}

impl NameRequestEvent {
    /// Reads a `namereq` line.
    pub fn parse(line: &str) -> (r: Option<NameRequestEvent>)
        ensures
            match r {
                Some(e) => name_request_line(line@) == Some(e@),
                None => name_request_line(line@) is None,
            },
    {
        let cs = chars_of(line);
        if !has_at(&cs, 0, "namereq ") || !is_single_line(&cs) {
            return None;
        }
        proof {
            reveal_strlit("namereq ");
        }
        let n = cs.len();
        let p = find_char(&cs, 8, ' ');
        if p == n || p + 1 == n {
            return None;
        }
        match parse_digits(&cs, 8, p, u64::MAX) {
            Some(player_uid) => {
                let requested_name = text_of(line, p + 1, n);
                assert(requested_name@ =~= line@.skip(p + 1));
                Some(NameRequestEvent { player_uid, requested_name })
            },
            None => None,
        }
    }
}

/// The sender of an e-mail header ends at `j` when a ` (to ` starts there
/// and a `): <` follows the non-empty recipient with room for a non-empty
/// subject and the closing `>`.
pub open spec fn mail_sender_end(s: Seq<char>) -> spec_fn(int) -> bool {
    |j: int| lit_at(s, j, " (to "@) && next_lit(s, j + 6, "): <"@) + 6 <= s.len()
}

/// `email [Email] <from> (to <to>): <<subject>>`, with `body` as the
/// message lines: the sender ends at the first place where a complete
/// recipient clause starts, the recipient at the first `): <` after it; the
/// subject is what lies between that and the final `>`, absent when it
/// reads `No subject.`.
pub open spec fn email_header(s: Seq<char>, body: Seq<Seq<char>>) -> Option<EventModel> {
    let j = first_from(s.len() as int, 15, mail_sender_end(s));
    let k = next_lit(s, j + 6, "): <"@);
    let subject = s.subrange(k + 4, s.len() - 1);
    if lit_at(s, 0, "email [Email] "@) && single_line(s) && j < s.len() && s.last() == '>' {
        Some(
            EventModel::Email {
                from: s.subrange(14, j),
                to: s.subrange(j + 5, k),
                subject: if subject == "No subject."@ {
                    None
                } else {
                    Some(subject)
                },
                body,
            },
        )
    } else {
        None
    }
}

impl EmailEvent {
    /// Reads the header line of an e-mail whose body lines are `body`.
    pub fn parse(header: &str, body: Vec<String>) -> (r: Option<EmailEvent>)
        ensures
            match r {
                Some(e) => email_header(header@, body.deep_view()) == Some(e@),
                None => email_header(header@, body.deep_view()) is None,
            },
    {
        let cs = chars_of(header);
        if !has_at(&cs, 0, "email [Email] ") || !is_single_line(&cs) {
            return None;
        }
        proof {
            reveal_strlit("email [Email] ");
            reveal_strlit(" (to ");
            reveal_strlit("): <");
        }
        let n = cs.len();
        if cs[n - 1] != '>' {
            return None;
        }
        let ghost s = cs@;
        let mut j: usize = 15;
        let mut k: usize = n;
        while j < n
            invariant
                15 <= j,
                n == s.len(),
                s == cs@,
                s == header@,
                first_from(n as int, 15, mail_sender_end(s)) == first_from(n as int, j as int, mail_sender_end(s)),
            ensures
                j < n ==> mail_sender_end(s)(j as int) && k == next_lit(s, j + 6, "): <"@) && j + 6
                    <= k,
            decreases n - j,
        {
            if has_at(&cs, j, " (to ") && n >= 6 && j <= n - 6 {
                k = find_lit(&cs, j + 6, "): <");
                if k <= n - 6 {
                    break;
                }
            }
            j = j + 1;
        }
        if j >= n {
            return None;
        }
        let subject_text = text_of(header, k + 4, n - 1);
        let subject_chars = chars_of(subject_text.as_str());
        let subject = if equals_lit(&subject_chars, "No subject.") {
            None
        } else {
            Some(subject_text)
        };
        let from = text_of(header, 14, j);
        let to = text_of(header, j + 5, k);
        Some(EmailEvent { from, to, subject, body })
    }
}

} // verus!
