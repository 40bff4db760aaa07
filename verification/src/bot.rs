//! What the assistant does with the traffic of a chat server: which lines
//! it answers, how it reads the commands of its administrators, how it puts
//! the pieces of a long line together, and how it sends a long answer.

use vstd::prelude::*;
use crate::bluenoise::{decide, BlueNoiseInterjecter};
use crate::text::{
    contains, contains_text, count_fitting, find_char, find_word, first_word, fitting_prefix,
    index_of, is_whitespace,
    lemma_index_of, lowercase, occurs_at, same, skip_whitespace, starts_with, to_chars,
    to_lowercase, to_string_range, trimmed_start,
};

verus! {

/// Largest number of bytes of one line of an answer.
pub const RESPONSE_LINE_LIMIT: usize = 430;

/// Milliseconds to wait between two lines of an answer.
pub const RESPONSE_LINE_PAUSE_MS: u64 = 600;

/// Position of the last `c` in `s`, or the length of `s` if there is none.
pub open spec fn last_index_of(s: Seq<char>, c: char) -> int
    decreases s.len(),
{
    if s.len() == 0 {
        0
    } else if s.last() == c {
        s.len() - 1
    } else {
        let inner = last_index_of(s.drop_last(), c);
        if inner < s.len() - 1 {
            inner
        } else {
            s.len() as int
        }
    }
}

/// A position that holds `c` with none behind it, or the end with none at
/// all, is `last_index_of`.
pub proof fn lemma_last_index_of(s: Seq<char>, c: char, i: int)
    requires
        0 <= i <= s.len(),
        i < s.len() ==> s[i] == c,
        forall|j: int| i < j < s.len() ==> s[j] != c,
        i == s.len() ==> forall|j: int| 0 <= j < s.len() ==> s[j] != c,
    ensures
        last_index_of(s, c) == i,
    decreases s.len(),
{
    if s.len() > 0 && s.last() != c {
        let front = s.drop_last();
        if i < s.len() {
            assert(i < s.len() - 1);
            assert(front[i] == s[i]);
            assert forall|j: int| i < j < front.len() implies front[j] != c by {
                assert(front[j] == s[j]);
            }
            lemma_last_index_of(front, c, i);
        } else {
            assert forall|j: int| 0 <= j < front.len() implies front[j] != c by {
                assert(front[j] == s[j]);
            }
            lemma_last_index_of(front, c, front.len() as int);
        }
    }
}

/// `last_index_of` is a position that holds `c`, or the end.
pub proof fn lemma_last_index_of_holds(s: Seq<char>, c: char)
    ensures
        0 <= last_index_of(s, c) <= s.len(),
        last_index_of(s, c) < s.len() ==> s[last_index_of(s, c)] == c,
    decreases s.len(),
{
    if s.len() > 0 && s.last() != c {
        lemma_last_index_of_holds(s.drop_last(), c);
        let inner = last_index_of(s.drop_last(), c);
        if inner < s.len() - 1 {
            assert(s.drop_last()[inner] == s[inner]);
        }
    }
}

/// Finds the last `c` in `v[from..to]`; the result is relative to `from`
/// and is `to - from` if there is none.
pub fn find_last_char(v: &Vec<char>, from: usize, to: usize, c: char) -> (r: usize)
    requires
        from <= to <= v.len(),
    ensures
        r == last_index_of(v@.subrange(from as int, to as int), c),
        r <= to - from,
{
    let mut i: usize = to;
    while i > from && v[i - 1] != c
        invariant
            from <= i <= to <= v.len(),
            forall|j: int| i <= j < to ==> v@[j] != c,
        decreases i - from,
    {
        i -= 1;
    }
    if i > from {
        proof {
            lemma_last_index_of(v@.subrange(from as int, to as int), c, i - 1 - from);
        }
        i - 1 - from
    } else {
        proof {
            lemma_last_index_of(v@.subrange(from as int, to as int), c, to - from);
        }
        to - from
    }
}

/// Number of characters among which a line that does not fit is cut: as
/// many as fit into `limit` bytes, and one at least.
pub open spec fn head_length(line: Seq<char>, limit: nat) -> int {
    if fitting_prefix(line, limit) <= 0 {
        1
    } else {
        fitting_prefix(line, limit)
    }
}

/// Where a line that does not fit is cut: at the last space among the
/// characters that fit, and behind these where none of them is a space.
pub open spec fn cut_position(line: Seq<char>, limit: nat) -> int {
    let head = line.subrange(0, head_length(line, limit));
    if last_index_of(head, ' ') < head.len() {
        last_index_of(head, ' ')
    } else {
        head.len() as int
    }
}

/// The pieces of one line, for a limit in bytes of UTF-8. A line that fits
/// is one piece, an empty line none. A longer line is cut, and what is left
/// of it goes on without the white space at its start.
pub open spec fn split_line(line: Seq<char>, limit: nat) -> Seq<Seq<char>>
    decreases line.len(),
{
    if line.len() == 0 {
        Seq::empty()
    } else if fitting_prefix(line, limit) >= line.len() {
        seq![line]
    } else {
        let cut = cut_position(line, limit);
        let rest = trimmed_start(line.skip(cut));
        if rest.len() < line.len() {
            seq![line.subrange(0, cut)] + split_line(rest, limit)
        } else {
            seq![line.subrange(0, cut)]
        }
    }
}

/// A line without the carriage return at its end.
pub open spec fn without_carriage_return(line: Seq<char>) -> Seq<char> {
    if line.len() > 0 && line.last() == '\r' {
        line.drop_last()
    } else {
        line
    }
}

/// The pieces in which an answer is sent: each of its lines on its own, a
/// line that is longer than the limit in several pieces. Lines end at a
/// line feed, with or without a carriage return before it.
pub open spec fn split_text(text: Seq<char>, limit: nat) -> Seq<Seq<char>>
    decreases text.len(),
{
    if text.len() == 0 {
        Seq::empty()
    } else {
        let end = index_of(text, '\n');
        if end < 0 || end >= text.len() {
            split_line(text, limit)
        } else {
            split_line(without_carriage_return(text.subrange(0, end)), limit) + split_text(
                text.subrange(end + 1, text.len() as int),
                limit,
            )
        }
    }
}

/// The strings of a vector, each by its characters.
pub open spec fn strings_view(pieces: Seq<String>) -> Seq<Seq<char>> {
    pieces.map_values(|s: String| s@)
}

/// Appends the pieces of the line `v[from..to]` to `out`.
fn push_line_pieces(out: &mut Vec<String>, v: &Vec<char>, from: usize, to: usize, limit: usize)
    requires
        from <= to <= v.len(),
    ensures
        strings_view(final(out)@) == strings_view(old(out)@) + split_line(
            v@.subrange(from as int, to as int),
            limit as nat,
        ),
{
    let mut start: usize = from;
    let ghost line = v@.subrange(from as int, to as int);
    assert(strings_view(out@) + Seq::<Seq<char>>::empty() =~= strings_view(out@));
    loop
        invariant
            from <= start <= to <= v.len(),
            line == v@.subrange(from as int, to as int),
            strings_view(old(out)@) + split_line(line, limit as nat) == strings_view(out@)
                + split_line(v@.subrange(start as int, to as int), limit as nat),
        decreases to - start,
    {
        let ghost here = v@.subrange(start as int, to as int);
        let ghost before = strings_view(out@);
        if start == to {
            assert(here.len() == 0);
            assert(split_line(here, limit as nat) =~= Seq::<Seq<char>>::empty());
            assert(before + Seq::<Seq<char>>::empty() =~= before);
            return ;
        }
        assert(here.len() == to - start);
        let fit: usize = count_fitting(v, start, to, limit);
        if fit >= to - start {
            let piece = to_string_range(v, start, to);
            proof {
                assert(split_line(here, limit as nat) =~= seq![here]);
                crate::transcript::lemma_map_push(out@, piece, |s: String| s@);
                assert(before + seq![here] =~= before.push(here));
            }
            out.push(piece);
            return ;
        }
        let head: usize = if fit == 0 {
            1
        } else {
            fit
        };
        let space: usize = find_last_char(v, start, start + head, ' ');
        let cut: usize = if space < head {
            space
        } else {
            head
        };
        proof {
            assert(head == head_length(here, limit as nat));
            assert(here.subrange(0, head as int) =~= v@.subrange(start as int, start + head));
            assert(cut == cut_position(here, limit as nat));
            assert(here.skip(cut as int) =~= v@.subrange(start + cut, to as int));
            assert(here.subrange(0, cut as int) =~= v@.subrange(start as int, start + cut));
        }
        let blank: usize = skip_whitespace(v, start + cut, to);
        let piece = to_string_range(v, start, start + cut);
        proof {
            let rest = trimmed_start(here.skip(cut as int));
            assert(rest =~= v@.subrange(start + cut + blank, to as int));
            if cut == 0 {
                // The cut stands on a space, which is skipped.
                lemma_last_index_of_holds(here.subrange(0, head as int), ' ');
                assert(here.subrange(0, head as int)[0] == ' ');
                let tail = v@.subrange(start + cut, to as int);
                assert(tail[0] == ' ');
                assert(is_whitespace(' '));
                crate::text::lemma_leading_whitespace_bounds(tail.drop_first());
                assert(blank > 0);
            }
            assert(rest.len() < here.len());
            crate::transcript::lemma_map_push(out@, piece, |s: String| s@);
            assert(before + (seq![here.subrange(0, cut as int)] + split_line(rest, limit as nat))
                =~= before.push(here.subrange(0, cut as int)) + split_line(rest, limit as nat));
        }
        out.push(piece);
        start = start + cut + blank;
    }
}

/// Splits an answer into the pieces in which it is sent: one for each line,
/// several for a line that takes more bytes than the limit.
pub fn split_response(limit: usize, response: &str) -> (parts: Vec<String>)
    ensures
        strings_view(parts@) == split_text(response@, limit as nat),
{
    let v = to_chars(response);
    let mut parts: Vec<String> = Vec::new();
    let mut start: usize = 0;
    let len: usize = v.len();
    assert(strings_view(parts@) =~= Seq::<Seq<char>>::empty());
    assert(v@.subrange(0, len as int) =~= v@);
    assert(Seq::<Seq<char>>::empty() + split_text(v@, limit as nat) =~= split_text(
        v@,
        limit as nat,
    ));
    loop
        invariant
            start <= len == v.len(),
            v@ == response@,
            split_text(response@, limit as nat) == strings_view(parts@) + split_text(
                v@.subrange(start as int, len as int),
                limit as nat,
            ),
        decreases len - start,
    {
        let ghost rest = v@.subrange(start as int, len as int);
        let ghost before = strings_view(parts@);
        if start == len {
            assert(before + Seq::<Seq<char>>::empty() =~= before);
            return parts;
        }
        let end: usize = find_char(&v, start, len, '\n');
        if end >= len - start {
            push_line_pieces(&mut parts, &v, start, len, limit);
            return parts;
        }
        proof {
            lemma_index_of(rest, '\n');
            assert(rest[end as int] == '\n');
            assert(rest.subrange(0, end as int) =~= v@.subrange(start as int, start + end));
            assert(rest.subrange(end + 1, rest.len() as int) =~= v@.subrange(
                start + end + 1,
                len as int,
            ));
        }
        let line_end: usize = if end > 0 && v[start + end - 1] == '\r' {
            start + end - 1
        } else {
            start + end
        };
        proof {
            let line = rest.subrange(0, end as int);
            if end > 0 {
                assert(line.last() == v@[start + end - 1]);
            }
            assert(without_carriage_return(line) =~= v@.subrange(start as int, line_end as int));
        }
        push_line_pieces(&mut parts, &v, start, line_end, limit);
        proof {
            let pieces = split_line(
                without_carriage_return(rest.subrange(0, end as int)),
                limit as nat,
            );
            let tail = split_text(rest.subrange(end + 1, rest.len() as int), limit as nat);
            assert(before + (pieces + tail) =~= (before + pieces) + tail);
        }
        start = start + end + 1;
    }
}

/// Seconds to wait before the first new connection.
pub const INITIAL_RECONNECT_DELAY_SECS: u64 = 5;

/// Most seconds to wait before a new connection.
pub const MAX_RECONNECT_DELAY_SECS: u64 = 300;

/// The wait before the connection after the next: twice the last wait, and
/// the longest wait at most.
pub open spec fn next_delay(current: nat) -> nat {
    if 2 * current < MAX_RECONNECT_DELAY_SECS {
        2 * current
    } else {
        MAX_RECONNECT_DELAY_SECS as nat
    }
}

/// Doubles the wait before a new connection, up to the longest wait.
pub fn next_reconnect_delay(current_secs: u64) -> (r: u64)
    ensures
        r == next_delay(current_secs as nat),
        r <= MAX_RECONNECT_DELAY_SECS,
{
    if current_secs < MAX_RECONNECT_DELAY_SECS / 2 {
        current_secs * 2
    } else {
        MAX_RECONNECT_DELAY_SECS
    }
}

/// What the sender of a line is told where the conversation failed.
pub open spec fn failure_text(nick: Seq<char>) -> Seq<char> {
    nick + ": Eeep! I had trouble thinking about that..."@
}

/// Writes what the sender of a line is told where the conversation failed.
pub fn failure_notice(triggering_nick: &str) -> (r: String)
    ensures
        r@ == failure_text(triggering_nick@),
{
    let mut r = triggering_nick.to_owned();
    r.push_str(": Eeep! I had trouble thinking about that...");
    r
}

/// How a line of a channel stands to the assistant.
#[derive(Clone, Copy, Debug, PartialEq, Eq, Structural)]
pub enum Addressing {
    /// The line is addressed to the assistant.
    Direct,
    /// The line names the assistant somewhere.
    Mentioned,
    /// The line does not name the assistant.
    Unaddressed,
}

/// How a line stands to the assistant, both the line and the assistant's
/// name being in lower case. A line is addressed to the assistant where it
/// begins with the name and a colon or a comma, or where its first word is
/// the name. It mentions the assistant where the name stands behind a space.
pub open spec fn addressing(nick: Seq<char>, line: Seq<char>) -> Addressing {
    if occurs_at(line, nick + seq![':'], 0) || occurs_at(line, nick + seq![','], 0) || (first_word(
        line,
    ).len() > 0 && first_word(line) == nick) {
        Addressing::Direct
    } else if contains(line, seq![' '] + nick) {
        Addressing::Mentioned
    } else {
        Addressing::Unaddressed
    }
}

/// Says how a line stands to the assistant, both texts being in lower
/// case.
pub fn classify_addressing(nick_lower: &str, line_lower: &str) -> (r: Addressing)
    ensures
        r == addressing(nick_lower@, line_lower@),
{
    let nick = to_chars(nick_lower);
    let line = to_chars(line_lower);
    let mut with_colon = to_chars(nick_lower);
    with_colon.push(':');
    let mut with_comma = to_chars(nick_lower);
    with_comma.push(',');
    let mut behind_space: Vec<char> = Vec::new();
    behind_space.push(' ');
    let mut i: usize = 0;
    while i < nick.len()
        invariant
            i <= nick.len(),
            behind_space@ == seq![' '] + nick@.take(i as int),
        decreases nick.len() - i,
    {
        behind_space.push(nick[i]);
        assert(behind_space@ =~= seq![' '] + nick@.take(i + 1));
        i += 1;
    }
    proof {
        assert(nick@.take(i as int) =~= nick@);
        assert(with_colon@ =~= nick@ + seq![':']);
        assert(with_comma@ =~= nick@ + seq![',']);
        assert(line@.subrange(0, line.len() as int) =~= line@);
    }
    let (start, end) = find_word(&line, 0, line.len());
    let first_is_nick: bool = start < end && end - start == nick.len() && crate::text::matches_at(
        &line,
        start,
        &nick,
    );
    proof {
        let word = first_word(line@);
        assert(word == line@.subrange(start as int, end as int));
        if start < end && end - start == nick.len() {
            assert(occurs_at(line@, nick@, start as int) == (word == nick@));
        }
    }
    if starts_with(&line, &with_colon) || starts_with(&line, &with_comma) || first_is_nick {
        Addressing::Direct
    } else if contains_text(&line, &behind_space) {
        Addressing::Mentioned
    } else {
        Addressing::Unaddressed
    }
}

/// Says how a line of a channel stands to the assistant, whatever the case
/// of their letters.
pub fn addressing_of(nickname: &str, line: &str) -> (r: Addressing)
    ensures
        r == addressing(lowercase(nickname@), lowercase(line@)),
{
    let nick_lower = to_lowercase(nickname);
    let line_lower = to_lowercase(line);
    classify_addressing(nick_lower.as_str(), line_lower.as_str())
}

/// What follows for a line of a channel.
#[derive(Clone, Copy, Debug, PartialEq, Eq, Structural)]
pub enum TriggerStep {
    /// The assistant answers; whether the line was addressed to it.
    Respond { addressed: bool },
    /// The model is asked whether the line is addressed to the assistant.
    AskClassifier,
    /// The assistant stays silent.
    Ignore,
}

/// What follows for a line that mentions the assistant, given whether the
/// scheduler for mentions acts.
pub open spec fn step_for_mention(acts: bool) -> TriggerStep {
    if acts {
        TriggerStep::Respond { addressed: true }
    } else {
        TriggerStep::AskClassifier
    }
}

/// What follows for a line that is not addressed to the assistant, given
/// whether the general scheduler acts.
pub open spec fn step_for_chance(acts: bool) -> TriggerStep {
    if acts {
        TriggerStep::Respond { addressed: false }
    } else {
        TriggerStep::Ignore
    }
}

/// Decides what follows for a line of a channel. A line that is addressed
/// to the assistant is answered, and no scheduler sees it. A line that
/// mentions the assistant is one event for the scheduler for mentions: if
/// it acts, the line counts as addressed; if not, the model is asked. Any
/// other line is one event for the general scheduler.
pub fn begin_trigger(
    addressing: Addressing,
    mention: &mut BlueNoiseInterjecter,
    general: &mut BlueNoiseInterjecter,
) -> (r: TriggerStep)
    requires
        old(mention).wf(),
        old(general).wf(),
        old(mention)@.count < u64::MAX,
        old(general)@.count < u64::MAX,
    ensures
        final(mention).wf(),
        final(general).wf(),
        match addressing {
            Addressing::Direct => r == (TriggerStep::Respond { addressed: true })
                && final(mention)@ == old(mention)@ && final(general)@ == old(general)@,
            Addressing::Mentioned => final(general)@ == old(general)@ && exists|draw: nat|
                draw < old(mention)@.den && (#[trigger] decide(old(mention)@, draw)).0 == final(mention)@ && r == step_for_mention(decide(old(mention)@, draw).1),
            Addressing::Unaddressed => final(mention)@ == old(mention)@ && exists|draw: nat|
                draw < old(general)@.den && (#[trigger] decide(old(general)@, draw)).0 == final(general)@ && r == step_for_chance(decide(old(general)@, draw).1),
        },
{
    match addressing {
        Addressing::Direct => TriggerStep::Respond { addressed: true },
        Addressing::Mentioned => {
            let acts = mention.should_interject();
            if acts {
                TriggerStep::Respond { addressed: true }
            } else {
                TriggerStep::AskClassifier
            }
        },
        Addressing::Unaddressed => {
            let acts = general.should_interject();
            if acts {
                TriggerStep::Respond { addressed: false }
            } else {
                TriggerStep::Ignore
            }
        },
    }
}

/// Decides what follows after the model was asked. A line that it takes as
/// addressed to the assistant is answered; any other is one event for the
/// general scheduler.
pub fn finish_trigger(asks_for_answer: bool, general: &mut BlueNoiseInterjecter) -> (r:
    TriggerStep)
    requires
        old(general).wf(),
        old(general)@.count < u64::MAX,
    ensures
        final(general).wf(),
        asks_for_answer ==> r == (TriggerStep::Respond { addressed: true }) && final(general)@
            == old(general)@,
        !asks_for_answer ==> exists|draw: nat|
            draw < old(general)@.den && (#[trigger] decide(old(general)@, draw)).0 == final(general)@ && r == step_for_chance(decide(old(general)@, draw).1),
{
    if asks_for_answer {
        TriggerStep::Respond { addressed: true }
    } else {
        let acts = general.should_interject();
        if acts {
            TriggerStep::Respond { addressed: false }
        } else {
            TriggerStep::Ignore
        }
    }
}

/// What came from the chat server, as far as the assistant looks at it.
/// The sender is the nickname of the line's source, if it has one.
#[derive(Debug, PartialEq, Eq)]
pub enum IrcEvent {
    Notice { sender: Option<String>, text: String },
    Join { sender: Option<String>, channel: String },
    Part { sender: Option<String>, channel: String },
    Kick { sender: Option<String>, channel: String },
    Privmsg { sender: Option<String>, target: String, text: String },
    Other,
}

/// Mathematical value of an `IrcEvent`.
pub enum IrcEventView {
    Notice { sender: Option<Seq<char>>, text: Seq<char> },
    Join { sender: Option<Seq<char>>, channel: Seq<char> },
    Part { sender: Option<Seq<char>>, channel: Seq<char> },
    Kick { sender: Option<Seq<char>>, channel: Seq<char> },
    Privmsg { sender: Option<Seq<char>>, target: Seq<char>, text: Seq<char> },
    Other,
}

/// The characters of a string that may be absent.
pub open spec fn optional_view(s: Option<String>) -> Option<Seq<char>> {
    match s {
        Some(t) => Some(t@),
        None => None,
    }
}

impl View for IrcEvent {
    type V = IrcEventView;

    open spec fn view(&self) -> IrcEventView {
        match self {
            IrcEvent::Notice { sender, text } => IrcEventView::Notice {
                sender: optional_view(*sender),
                text: text@,
            },
            IrcEvent::Join { sender, channel } => IrcEventView::Join {
                sender: optional_view(*sender),
                channel: channel@,
            },
            IrcEvent::Part { sender, channel } => IrcEventView::Part {
                sender: optional_view(*sender),
                channel: channel@,
            },
            IrcEvent::Kick { sender, channel } => IrcEventView::Kick {
                sender: optional_view(*sender),
                channel: channel@,
            },
            IrcEvent::Privmsg { sender, target, text } => IrcEventView::Privmsg {
                sender: optional_view(*sender),
                target: target@,
                text: text@,
            },
            IrcEvent::Other => IrcEventView::Other,
        }
    }
}

/// What the assistant does with something that came from the server.
#[derive(Debug, PartialEq, Eq)]
pub enum MessageAction {
    /// Join the stored channels: the nickname service has answered.
    JoinStoredChannels,
    /// Note that the assistant is in a channel.
    NoteJoined(String),
    /// Note that the assistant is in a channel no more.
    NoteLeft(String),
    /// Read a private line as a command.
    AdminCommand { nick: String, text: String },
    /// Put a line of a channel into the buffer.
    Buffer { channel: String, nick: String, text: String },
    /// Nothing.
    Nothing,
}

/// Mathematical value of a `MessageAction`.
pub enum MessageActionView {
    JoinStoredChannels,
    NoteJoined(Seq<char>),
    NoteLeft(Seq<char>),
    AdminCommand { nick: Seq<char>, text: Seq<char> },
    Buffer { channel: Seq<char>, nick: Seq<char>, text: Seq<char> },
    Nothing,
}

impl View for MessageAction {
    type V = MessageActionView;

    open spec fn view(&self) -> MessageActionView {
        match self {
            MessageAction::JoinStoredChannels => MessageActionView::JoinStoredChannels,
            MessageAction::NoteJoined(c) => MessageActionView::NoteJoined(c@),
            MessageAction::NoteLeft(c) => MessageActionView::NoteLeft(c@),
            MessageAction::AdminCommand { nick, text } => MessageActionView::AdminCommand {
                nick: nick@,
                text: text@,
            },
            MessageAction::Buffer { channel, nick, text } => MessageActionView::Buffer {
                channel: channel@,
                nick: nick@,
                text: text@,
            },
            MessageAction::Nothing => MessageActionView::Nothing,
        }
    }
}

/// The name under which a sender without nickname goes.
pub open spec fn name_or_unknown(sender: Option<Seq<char>>) -> Seq<char> {
    match sender {
        Some(n) => n,
        None => "unknown"@,
    }
}

/// The name of a sender, empty where it has none.
pub open spec fn name_or_empty(sender: Option<Seq<char>>) -> Seq<char> {
    match sender {
        Some(n) => n,
        None => Seq::empty(),
    }
}

/// Whether a notice is the word of the nickname service that the
/// assistant's name is settled, one way or the other.
pub open spec fn is_nickserv_go_ahead(sender: Option<Seq<char>>, text: Seq<char>) -> bool {
    &&& name_or_unknown(sender) == "NickServ"@
    &&& contains(text, "you are now recognized"@) || contains(
        text,
        "is not a registered nickname"@,
    )
}

/// What the assistant does with something that came from the server, for
/// the nickname that it has at the time. The word of the nickname service
/// lets it join its channels. Its own joining and leaving is noted. A line
/// to itself is a command; a line to a channel goes into the buffer.
pub open spec fn routed(own_nick: Seq<char>, event: IrcEventView) -> MessageActionView {
    match event {
        IrcEventView::Notice { sender, text } => if is_nickserv_go_ahead(sender, text) {
            MessageActionView::JoinStoredChannels
        } else {
            MessageActionView::Nothing
        },
        IrcEventView::Join { sender, channel } => if name_or_empty(sender) == own_nick {
            MessageActionView::NoteJoined(channel)
        } else {
            MessageActionView::Nothing
        },
        IrcEventView::Part { sender, channel } => if name_or_empty(sender) == own_nick {
            MessageActionView::NoteLeft(channel)
        } else {
            MessageActionView::Nothing
        },
        IrcEventView::Kick { sender, channel } => if name_or_empty(sender) == own_nick {
            MessageActionView::NoteLeft(channel)
        } else {
            MessageActionView::Nothing
        },
        IrcEventView::Privmsg { sender, target, text } => if target == own_nick {
            MessageActionView::AdminCommand { nick: name_or_unknown(sender), text }
        } else if target.len() > 0 && target[0] == '#' {
            MessageActionView::Buffer { channel: target, nick: name_or_unknown(sender), text }
        } else {
            MessageActionView::Nothing
        },
        IrcEventView::Other => MessageActionView::Nothing,
    }
}

/// The name of a sender, or a given name where it has none.
fn name_or(sender: Option<String>, fallback: &str) -> (r: String)
    ensures
        r@ == (match sender {
            Some(n) => n@,
            None => fallback@,
        }),
{
    match sender {
        Some(n) => n,
        None => fallback.to_owned(),
    }
}

/// Says what the assistant does with something that came from the server.
pub fn route_message(own_nick: &str, event: IrcEvent) -> (r: MessageAction)
    ensures
        r@ == routed(own_nick@, event@),
{
    match event {
        IrcEvent::Notice { sender, text } => {
            let name = name_or(sender, "unknown");
            let chars = to_chars(text.as_str());
            let recognized = to_chars("you are now recognized");
            let unregistered = to_chars("is not a registered nickname");
            if same(name.as_str(), "NickServ") && (contains_text(&chars, &recognized)
                || contains_text(&chars, &unregistered)) {
                MessageAction::JoinStoredChannels
            } else {
                MessageAction::Nothing
            }
        },
        IrcEvent::Join { sender, channel } => {
            let name = name_or(sender, "");
            proof {
                reveal_strlit("");
                assert(""@ =~= Seq::<char>::empty());
            }
            if same(name.as_str(), own_nick) {
                MessageAction::NoteJoined(channel)
            } else {
                MessageAction::Nothing
            }
        },
        IrcEvent::Part { sender, channel } => {
            let name = name_or(sender, "");
            proof {
                reveal_strlit("");
                assert(""@ =~= Seq::<char>::empty());
            }
            if same(name.as_str(), own_nick) {
                MessageAction::NoteLeft(channel)
            } else {
                MessageAction::Nothing
            }
        },
        IrcEvent::Kick { sender, channel } => {
            let name = name_or(sender, "");
            proof {
                reveal_strlit("");
                assert(""@ =~= Seq::<char>::empty());
            }
            if same(name.as_str(), own_nick) {
                MessageAction::NoteLeft(channel)
            } else {
                MessageAction::Nothing
            }
        },
        IrcEvent::Privmsg { sender, target, text } => {
            let name = name_or(sender, "unknown");
            let chars = to_chars(target.as_str());
            if same(target.as_str(), own_nick) {
                MessageAction::AdminCommand { nick: name, text }
            } else if chars.len() > 0 && chars[0] == '#' {
                MessageAction::Buffer { channel: target, nick: name, text }
            } else {
                MessageAction::Nothing
            }
        },
        IrcEvent::Other => MessageAction::Nothing,
    }
}

} // verus!
