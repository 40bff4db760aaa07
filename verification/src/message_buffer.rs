//! The buffer in which the pieces of a line are put together: a chat server
//! cuts long lines, so what one person writes to one channel within a short
//! time counts as one line.

use vstd::prelude::*;
use crate::transcript::lemma_map_push;

verus! {

/// Milliseconds without a new piece after which a line is complete.
pub const MESSAGE_BUFFER_TIMEOUT_MS: u64 = 1500;

/// Milliseconds between two sweeps of the buffer.
pub const MESSAGE_SWEEPER_INTERVAL_MS: u64 = 500;

/// A line in the making.
#[derive(Debug, PartialEq, Eq)]
pub struct BufferedMessage {
    pub channel: String,
    pub nick: String,
    pub message: String,
    /// When the last piece came, in milliseconds of a clock that does not
    /// go back.
    pub last_arrival_ms: u64,
}

/// Mathematical value of a `BufferedMessage`.
pub struct BufferedMessageView {
    pub channel: Seq<char>,
    pub nick: Seq<char>,
    pub message: Seq<char>,
    pub last_arrival_ms: nat,
}

impl View for BufferedMessage {
    type V = BufferedMessageView;

    open spec fn view(&self) -> BufferedMessageView {
        BufferedMessageView {
            channel: self.channel@,
            nick: self.nick@,
            message: self.message@,
            last_arrival_ms: self.last_arrival_ms as nat,
        }
    }
}

impl Clone for BufferedMessage {
    fn clone(&self) -> (r: Self)
        ensures
            r@ == self@,
    {
        BufferedMessage {
            channel: self.channel.clone(),
            nick: self.nick.clone(),
            message: self.message.clone(),
            last_arrival_ms: self.last_arrival_ms,
        }
    }
}

/// The lines of a vector, each by its mathematical value.
pub open spec fn messages_view(entries: Seq<BufferedMessage>) -> Seq<BufferedMessageView> {
    entries.map_values(|e: BufferedMessage| e@)
}

/// Position of the line of a person in a channel, or the number of lines
/// if there is none.
pub open spec fn slot(entries: Seq<BufferedMessageView>, channel: Seq<char>, nick: Seq<char>) -> int
    decreases entries.len(),
{
    if entries.len() == 0 {
        0
    } else if entries[0].channel == channel && entries[0].nick == nick {
        0
    } else {
        1 + slot(entries.drop_first(), channel, nick)
    }
}

/// `slot` is the least position whose line is of the person and channel.
pub proof fn lemma_slot(entries: Seq<BufferedMessageView>, channel: Seq<char>, nick: Seq<char>)
    ensures
        0 <= slot(entries, channel, nick) <= entries.len(),
        slot(entries, channel, nick) < entries.len() ==> entries[slot(
            entries,
            channel,
            nick,
        )].channel == channel && entries[slot(entries, channel, nick)].nick == nick,
        forall|j: int|
            0 <= j < slot(entries, channel, nick) ==> !((#[trigger] entries[j]).channel == channel
                && entries[j].nick == nick),
    decreases entries.len(),
{
    if entries.len() > 0 && !(entries[0].channel == channel && entries[0].nick == nick) {
        let rest = entries.drop_first();
        lemma_slot(rest, channel, nick);
        assert forall|j: int| 0 <= j < slot(entries, channel, nick) implies !((
        #[trigger] entries[j]).channel == channel && entries[j].nick == nick) by {
            if j > 0 {
                assert(entries[j] == rest[j - 1]);
            }
        }
    }
}

/// The lines after a piece came. It is put behind the line that its sender
/// has in the making for the channel, after a space; without such a line it
/// begins one. Either way the line counts as touched now.
pub open spec fn appended(
    entries: Seq<BufferedMessageView>,
    channel: Seq<char>,
    nick: Seq<char>,
    text: Seq<char>,
    now_ms: nat,
) -> Seq<BufferedMessageView> {
    let i = slot(entries, channel, nick);
    if 0 <= i < entries.len() {
        entries.update(
            i,
            BufferedMessageView {
                message: entries[i].message + seq![' '] + text,
                last_arrival_ms: now_ms,
                ..entries[i]
            },
        )
    } else {
        entries.push(BufferedMessageView { channel, nick, message: text, last_arrival_ms: now_ms })
    }
}

/// Whether a line is complete: more than the timeout has passed since its
/// last piece came.
pub open spec fn is_complete(entry: BufferedMessageView, now_ms: nat) -> bool {
    now_ms - entry.last_arrival_ms > MESSAGE_BUFFER_TIMEOUT_MS
}

/// The lines that are complete, in their order.
pub open spec fn complete(entries: Seq<BufferedMessageView>, now_ms: nat) -> Seq<
    BufferedMessageView,
>
    decreases entries.len(),
{
    if entries.len() == 0 {
        Seq::empty()
    } else if is_complete(entries.last(), now_ms) {
        complete(entries.drop_last(), now_ms).push(entries.last())
    } else {
        complete(entries.drop_last(), now_ms)
    }
}

/// The lines that are still in the making, in their order.
pub open spec fn pending(entries: Seq<BufferedMessageView>, now_ms: nat) -> Seq<
    BufferedMessageView,
>
    decreases entries.len(),
{
    if entries.len() == 0 {
        Seq::empty()
    } else if is_complete(entries.last(), now_ms) {
        pending(entries.drop_last(), now_ms)
    } else {
        pending(entries.drop_last(), now_ms).push(entries.last())
    }
}

/// Whether no two lines are of the same person in the same channel.
pub open spec fn distinct_senders(entries: Seq<BufferedMessageView>) -> bool {
    forall|i: int, j: int|
        0 <= i < j < entries.len() ==> !((#[trigger] entries[i]).channel == (
        #[trigger] entries[j]).channel && entries[i].nick == entries[j].nick)
}

/// Every line that is still in the making was in the buffer before, and
/// the lines keep their order.
pub proof fn lemma_pending_is_part(entries: Seq<BufferedMessageView>, now_ms: nat)
    ensures
        pending(entries, now_ms).len() <= entries.len(),
        forall|k: int|
            0 <= k < pending(entries, now_ms).len() ==> exists|j: int|
                k <= j < entries.len() && entries[j] == #[trigger] pending(entries, now_ms)[k],
        distinct_senders(entries) ==> distinct_senders(pending(entries, now_ms)),
    decreases entries.len(),
{
    if entries.len() > 0 {
        let front = entries.drop_last();
        lemma_pending_is_part(front, now_ms);
        let kept = pending(entries, now_ms);
        let before = pending(front, now_ms);
        assert forall|k: int| 0 <= k < kept.len() implies exists|j: int|
            k <= j < entries.len() && entries[j] == #[trigger] kept[k] by {
            if k < before.len() {
                let j = choose|j: int| k <= j < front.len() && front[j] == before[k];
                assert(entries[j] == kept[k]);
            } else {
                assert(entries[entries.len() - 1] == kept[k]);
            }
        }
        if distinct_senders(entries) {
            assert(distinct_senders(front)) by {
                assert forall|i: int, j: int| 0 <= i < j < front.len() implies !((
                #[trigger] front[i]).channel == (#[trigger] front[j]).channel && front[i].nick
                    == front[j].nick) by {
                    assert(front[i] == entries[i] && front[j] == entries[j]);
                }
            }
            assert forall|a: int, b: int| 0 <= a < b < kept.len() implies !((
            #[trigger] kept[a]).channel == (#[trigger] kept[b]).channel && kept[a].nick
                == kept[b].nick) by {
                if b < before.len() {
                    assert(kept[a] == before[a] && kept[b] == before[b]);
                } else {
                    let j = choose|j: int| a <= j < front.len() && front[j] == before[a];
                    assert(kept[a] == entries[j]);
                    assert(kept[b] == entries[entries.len() - 1]);
                }
            }
        }
    }
}

/// A piece that came leaves no two lines of the same person in the same
/// channel.
pub proof fn lemma_appended_distinct(
    entries: Seq<BufferedMessageView>,
    channel: Seq<char>,
    nick: Seq<char>,
    text: Seq<char>,
    now_ms: nat,
)
    requires
        distinct_senders(entries),
    ensures
        distinct_senders(appended(entries, channel, nick, text, now_ms)),
{
    lemma_slot(entries, channel, nick);
    let after = appended(entries, channel, nick, text, now_ms);
    let i = slot(entries, channel, nick);
    assert forall|a: int, b: int| 0 <= a < b < after.len() implies !((
    #[trigger] after[a]).channel == (#[trigger] after[b]).channel && after[a].nick
        == after[b].nick) by {
        if i < entries.len() {
            assert(after[a].channel == entries[a].channel && after[a].nick == entries[a].nick);
            assert(after[b].channel == entries[b].channel && after[b].nick == entries[b].nick);
        } else if b < entries.len() {
            assert(after[a] == entries[a] && after[b] == entries[b]);
        } else {
            assert(after[a] == entries[a]);
        }
    }
}

/// The buffer of lines in the making.
pub struct MessageBuffer {
    entries: Vec<BufferedMessage>,
}

impl View for MessageBuffer {
    type V = Seq<BufferedMessageView>;

    closed spec fn view(&self) -> Seq<BufferedMessageView> {
        messages_view(self.entries@)
    }
}

impl MessageBuffer {
    /// Whether the buffer is well formed: it holds one line at most for
    /// each person and channel.
    pub open spec fn wf(&self) -> bool {
        distinct_senders(self@)
    }

    /// An empty buffer.
    pub fn new() -> (r: Self)
        ensures
            r@ == Seq::<BufferedMessageView>::empty(),
            r.wf(),
    {
        let r = MessageBuffer { entries: Vec::new() };
        assert(r@ =~= Seq::<BufferedMessageView>::empty());
        r
    }

    /// Number of lines in the making.
    pub fn len(&self) -> (r: usize)
        ensures
            r == self@.len(),
    {
        self.entries.len()
    }

    /// Takes in a piece of a line that a person wrote to a channel.
    pub fn append(&mut self, channel: &str, nick: &str, text: &str, now_ms: u64)
        requires
            old(self).wf(),
        ensures
            final(self)@ == appended(old(self)@, channel@, nick@, text@, now_ms as nat),
            final(self).wf(),
    {
        proof {
            lemma_appended_distinct(self@, channel@, nick@, text@, now_ms as nat);
        }
        let ghost all = self@;
        let mut i: usize = 0;
        assert(all.skip(0) =~= all);
        while i < self.entries.len()
            invariant
                i <= self.entries.len(),
                self@ == all,
                self@ == old(self)@,
                distinct_senders(appended(all, channel@, nick@, text@, now_ms as nat)),
                slot(all, channel@, nick@) == i + slot(all.skip(i as int), channel@, nick@),
            decreases self.entries.len() - i,
        {
            let ghost rest = all.skip(i as int);
            assert(rest[0] == self.entries@[i as int]@);
            assert(rest.drop_first() =~= all.skip(i + 1));
            if crate::text::same(self.entries[i].channel.as_str(), channel) && crate::text::same(
                self.entries[i].nick.as_str(),
                nick,
            ) {
                let mut message = self.entries[i].message.clone();
                message.push(' ');
                message.push_str(text);
                let updated = BufferedMessage {
                    channel: self.entries[i].channel.clone(),
                    nick: self.entries[i].nick.clone(),
                    message,
                    last_arrival_ms: now_ms,
                };
                self.entries.set(i, updated);
                proof {
                    assert(updated@.message =~= all[i as int].message + seq![' '] + text@);
                    assert(self@ =~= appended(all, channel@, nick@, text@, now_ms as nat));
                }
                return ;
            }
            i += 1;
        }
        let entry = BufferedMessage {
            channel: channel.to_owned(),
            nick: nick.to_owned(),
            message: text.to_owned(),
            last_arrival_ms: now_ms,
        };
        proof {
            lemma_map_push(self.entries@, entry, |e: BufferedMessage| e@);
        }
        self.entries.push(entry);
    }

    /// Takes the complete lines out of the buffer, in the order in which
    /// they were begun.
    pub fn sweep(&mut self, now_ms: u64) -> (r: Vec<BufferedMessage>)
        requires
            old(self).wf(),
        ensures
            messages_view(r@) == complete(old(self)@, now_ms as nat),
            final(self)@ == pending(old(self)@, now_ms as nat),
            final(self).wf(),
    {
        proof {
            lemma_pending_is_part(self@, now_ms as nat);
        }
        let ghost all = self@;
        let mut due: Vec<BufferedMessage> = Vec::new();
        let mut kept: Vec<BufferedMessage> = Vec::new();
        let mut i: usize = 0;
        assert(all.take(0) =~= Seq::<BufferedMessageView>::empty());
        assert(messages_view(due@) =~= Seq::<BufferedMessageView>::empty());
        assert(messages_view(kept@) =~= Seq::<BufferedMessageView>::empty());
        while i < self.entries.len()
            invariant
                i <= self.entries.len(),
                self@ == all,
                messages_view(due@) == complete(all.take(i as int), now_ms as nat),
                messages_view(kept@) == pending(all.take(i as int), now_ms as nat),
            decreases self.entries.len() - i,
        {
            let entry = self.entries[i].clone();
            proof {
                let next = all.take(i + 1);
                assert(next.drop_last() =~= all.take(i as int));
                assert(next.last() == entry@);
                lemma_map_push(due@, entry, |e: BufferedMessage| e@);
                lemma_map_push(kept@, entry, |e: BufferedMessage| e@);
            }
            if now_ms > entry.last_arrival_ms && now_ms - entry.last_arrival_ms
                > MESSAGE_BUFFER_TIMEOUT_MS {
                due.push(entry);
            } else {
                kept.push(entry);
            }
            i += 1;
        }
        assert(all.take(i as int) =~= all);
        self.entries = kept;
        due
    }
}

} // verus!
