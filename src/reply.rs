//! Reply delivery: which transport operation a reply uses, and the edit tracker that lets a
//! prefix command edit its earlier response instead of sending a new one.

use vstd::prelude::*;
use crate::builder::{AllowedMentions, FrameworkOptions};
use crate::command::Command;

verus! {

/// A message the bot sent, as the tracker remembers it.
#[derive(Clone, Debug)]
pub struct ResponseMessage {
    pub id: u64,
    pub channel_id: u64,
    pub content: String,
    /// Serialized embeds.
    pub embeds: Vec<String>,
    /// Serialized interactive components.
    pub components: Vec<String>,
}

/// The reply a command wants to send.
#[derive(Clone, Debug)]
pub struct CreateReply {
    pub content: Option<String>,
    pub embeds: Vec<String>,
    pub components: Vec<String>,
    /// Only the caller sees it (interactions only).
    pub ephemeral: bool,
    /// Which mentions in it notify.
    pub allowed_mentions: Option<AllowedMentions>,
}

impl CreateReply {
    /// An empty reply with the given visibility and mentions policy.
    pub fn new(ephemeral: bool, allowed_mentions: Option<AllowedMentions>) -> (r: CreateReply)
        ensures
            r.content is None,
            r.embeds@.len() == 0,
            r.components@.len() == 0,
            r.ephemeral == ephemeral,
            r.allowed_mentions == allowed_mentions,
    {
        CreateReply { content: None, embeds: Vec::new(), components: Vec::new(), ephemeral, allowed_mentions }
    }

    /// The empty reply of an invocation of `command`: ephemeral as the command says, with the
    /// framework's default mentions policy.
    pub fn for_invocation<T>(command: &Command<T>, options: &FrameworkOptions<T>) -> (r: CreateReply)
        ensures
            r.content is None,
            r.embeds@.len() == 0,
            r.components@.len() == 0,
            r.ephemeral == command.ephemeral,
            r.allowed_mentions == options.allowed_mentions,
    {
        CreateReply::new(command.ephemeral, options.allowed_mentions)
    }
}

/// An edit that sets every part of a message: what it does not give is cleared.
#[derive(Clone, Debug)]
pub struct MessageEdit {
    pub content: String,
    pub embeds: Vec<String>,
    pub components: Vec<String>,
}

/// The visible parts of a message.
pub struct SurfaceView {
    pub content: Seq<char>,
    pub embeds: Seq<String>,
    pub components: Seq<String>,
}

/// What a reply shows.
pub open spec fn reply_surface(r: CreateReply) -> SurfaceView {
    SurfaceView {
        content: match r.content {
            Some(c) => c@,
            None => Seq::empty(),
        },
        embeds: r.embeds@,
        components: r.components@,
    }
}

/// What a message shows after `e` is applied to it: `e` alone decides.
pub open spec fn after_edit(m: ResponseMessage, e: MessageEdit) -> (u64, SurfaceView) {
    (m.id, SurfaceView { content: e.content@, embeds: e.embeds@, components: e.components@ })
}

/// The edit that turns an earlier response into `reply`, leaving nothing of what it showed.
pub fn prefix_edit(reply: CreateReply) -> (r: MessageEdit)
    ensures
        r.content@ == reply_surface(reply).content,
        r.embeds@ == reply.embeds@,
        r.components@ == reply.components@,
{
    let content = match reply.content {
        Some(c) => c,
        None => String::new(),
    };
    MessageEdit { content, embeds: reply.embeds, components: reply.components }
}

/// An edited response shows exactly the new reply, whatever it showed before, and keeps its
/// identity.
pub proof fn lemma_edit_replaces_everything(m: ResponseMessage, reply: CreateReply, e: MessageEdit)
    requires
        e.content@ == reply_surface(reply).content,
        e.embeds@ == reply.embeds@,
        e.components@ == reply.components@,
    ensures
        after_edit(m, e) == (m.id, reply_surface(reply)),
{
}

/// A remembered response, keyed by the message that triggered it.
#[derive(Clone, Debug)]
pub struct TrackedResponse {
    pub trigger_id: u64,
    /// When the trigger was sent, in milliseconds.
    pub trigger_timestamp: u64,
    pub response: ResponseMessage,
}

/// The bot's responses to recent trigger messages.
pub struct EditTracker {
    max_duration: u64,
    entries: Vec<TrackedResponse>,
}

/// No two entries share a trigger.
pub open spec fn unique_triggers(s: Seq<TrackedResponse>) -> bool {
    forall|i: int, j: int|
        0 <= i < j < s.len() ==> #[trigger] s[i].trigger_id != #[trigger] s[j].trigger_id
}

/// Index of the entry for `id`, or `s.len()`.
pub open spec fn entry_index(s: Seq<TrackedResponse>, id: u64, start: int) -> int
    decreases s.len() - start,
{
    if start < 0 || start >= s.len() {
        s.len() as int
    } else if s[start].trigger_id == id {
        start
    } else {
        entry_index(s, id, start + 1)
    }
}

/// The response remembered for trigger `id`.
pub open spec fn response_for(s: Seq<TrackedResponse>, id: u64) -> Option<ResponseMessage> {
    let k = entry_index(s, id, 0);
    if 0 <= k < s.len() {
        Some(s[k].response)
    } else {
        None
    }
}

/// An entry is kept while its trigger is at most `max` old.
pub open spec fn fresh(e: TrackedResponse, now: u64, max: u64) -> bool {
    now <= e.trigger_timestamp || now - e.trigger_timestamp <= max
}

/// The fresh entries among the first `n`, in order.
pub open spec fn fresh_prefix(s: Seq<TrackedResponse>, now: u64, max: u64, n: int) -> Seq<TrackedResponse>
    decreases n,
{
    if n <= 0 {
        Seq::empty()
    } else if fresh(s[n - 1], now, max) {
        fresh_prefix(s, now, max, n - 1).push(s[n - 1])
    } else {
        fresh_prefix(s, now, max, n - 1)
    }
}

pub open spec fn purged(s: Seq<TrackedResponse>, now: u64, max: u64) -> Seq<TrackedResponse> {
    fresh_prefix(s, now, max, s.len() as int)
}

/// Entries after `response` is recorded for trigger `id`: the entry is replaced in place, or
/// appended if there is none.
pub open spec fn recorded(s: Seq<TrackedResponse>, id: u64, ts: u64, response: ResponseMessage) -> Seq<TrackedResponse> {
    let k = entry_index(s, id, 0);
    let e = TrackedResponse { trigger_id: id, trigger_timestamp: ts, response };
    if 0 <= k < s.len() {
        s.update(k, e)
    } else {
        s.push(e)
    }
}

proof fn lemma_entry_index_bounds(s: Seq<TrackedResponse>, id: u64, start: int)
    requires
        0 <= start <= s.len(),
    ensures
        start <= entry_index(s, id, start) <= s.len(),
        entry_index(s, id, start) < s.len() ==> s[entry_index(s, id, start)].trigger_id == id,
        forall|j: int| start <= j < entry_index(s, id, start) ==> s[j].trigger_id != id,
    decreases s.len() - start,
{
    if start < s.len() && s[start].trigger_id != id {
        lemma_entry_index_bounds(s, id, start + 1);
    }
}

/// With unique triggers, the entry for `id` is the one at any index that holds `id`.
proof fn lemma_entry_index_unique(s: Seq<TrackedResponse>, id: u64, k: int)
    requires
        unique_triggers(s),
        0 <= k < s.len(),
        s[k].trigger_id == id,
    ensures
        entry_index(s, id, 0) == k,
{
    lemma_entry_index_bounds(s, id, 0);
    let f = entry_index(s, id, 0);
    if f < k {
        assert(s[f].trigger_id != s[k].trigger_id);
    }
}

proof fn lemma_fresh_prefix_sub(s: Seq<TrackedResponse>, now: u64, max: u64, n: int)
    requires
        0 <= n <= s.len(),
        unique_triggers(s),
    ensures
        unique_triggers(fresh_prefix(s, now, max, n)),
        forall|i: int|
            0 <= i < fresh_prefix(s, now, max, n).len() ==> exists|k: int|
                0 <= k < n && s[k] == #[trigger] fresh_prefix(s, now, max, n)[i],
    decreases n,
{
    if n > 0 {
        lemma_fresh_prefix_sub(s, now, max, n - 1);
        let p = fresh_prefix(s, now, max, n - 1);
        if fresh(s[n - 1], now, max) {
            let q = p.push(s[n - 1]);
            assert forall|i: int, j: int| 0 <= i < j < q.len() implies #[trigger] q[i].trigger_id
                != #[trigger] q[j].trigger_id by {
                if j == q.len() - 1 {
                    let k = choose|k: int| 0 <= k < n - 1 && s[k] == #[trigger] p[i];
                    assert(s[k].trigger_id != s[n - 1].trigger_id);
                } else {
                    assert(q[i] == p[i] && q[j] == p[j]);
                }
            }
            assert forall|i: int| 0 <= i < q.len() implies exists|k: int|
                0 <= k < n && s[k] == #[trigger] q[i] by {
                if i == q.len() - 1 {
                    assert(s[n - 1] == q[i]);
                } else {
                    assert(q[i] == p[i]);
                    let k = choose|k: int| 0 <= k < n - 1 && s[k] == #[trigger] p[i];
                    assert(s[k] == q[i]);
                }
            }
        }
    }
}

impl EditTracker {
    #[verifier::type_invariant]
    spec fn inv(&self) -> bool {
        unique_triggers(self.entries@)
    }

    pub closed spec fn max_duration(&self) -> u64 {
        self.max_duration
    }

    /// The entries, oldest first.
    pub closed spec fn entries(&self) -> Seq<TrackedResponse> {
        self.entries@
    }

    /// At most one remembered response per trigger message.
    pub open spec fn wf(&self) -> bool {
        unique_triggers(self.entries())
    }

    /// An empty tracker that keeps responses to triggers at most `duration` milliseconds old.
    pub fn for_timespan(duration: u64) -> (r: EditTracker)
        ensures
            r.wf(),
            r.max_duration() == duration,
            r.entries().len() == 0,
    {
        EditTracker { max_duration: duration, entries: Vec::new() }
    }

    /// Drops the entries whose trigger is older than the retention span at `now`.
    pub fn purge(&mut self, now: u64)
        ensures
            final(self).wf(),
            final(self).max_duration() == old(self).max_duration(),
            final(self).entries() == purged(old(self).entries(), now, old(self).max_duration()),
    {
        proof {
            use_type_invariant(&*self);
        }
        let ghost s = self.entries@;
        let max = self.max_duration;
        let mut kept: Vec<TrackedResponse> = Vec::new();
        let mut rest: Vec<TrackedResponse> = Vec::new();
        std::mem::swap(&mut rest, &mut self.entries);
        proof {
            lemma_fresh_prefix_sub(s, now, max, s.len() as int);
        }
        for e in it: rest
            invariant
                it.seq() == s,
                kept@ == fresh_prefix(s, now, max, it.index() as int),
        {
            if now <= e.trigger_timestamp || now - e.trigger_timestamp <= max {
                kept.push(e);
            }
        }
        self.entries = kept;
        proof {
            use_type_invariant(&*self);
        }
    }
}

proof fn lemma_fresh_prefix_keeps(s: Seq<TrackedResponse>, now: u64, max: u64, n: int, k: int)
    requires
        0 <= k < n <= s.len(),
        fresh(s[k], now, max),
    ensures
        exists|i: int|
            0 <= i < fresh_prefix(s, now, max, n).len() && #[trigger] fresh_prefix(s, now, max, n)[i]
                == s[k],
    decreases n,
{
    let p = fresh_prefix(s, now, max, n - 1);
    if k == n - 1 {
        assert(fresh_prefix(s, now, max, n) == p.push(s[n - 1]));
        assert(fresh_prefix(s, now, max, n)[p.len() as int] == s[k]);
    } else {
        lemma_fresh_prefix_keeps(s, now, max, n - 1, k);
        let i = choose|i: int| 0 <= i < p.len() && #[trigger] p[i] == s[k];
        if fresh(s[n - 1], now, max) {
            assert(fresh_prefix(s, now, max, n) == p.push(s[n - 1]));
            assert(fresh_prefix(s, now, max, n)[i] == p[i]);
        } else {
            assert(fresh_prefix(s, now, max, n) == p);
        }
        assert(fresh_prefix(s, now, max, n)[i] == s[k]);
    }
}

/// Purging keeps the response to a trigger that is still within the retention span.
pub proof fn lemma_purge_keeps_fresh(s: Seq<TrackedResponse>, now: u64, max: u64, id: u64)
    requires
        unique_triggers(s),
        entry_index(s, id, 0) < s.len(),
        fresh(s[entry_index(s, id, 0)], now, max),
    ensures
        response_for(purged(s, now, max), id) == response_for(s, id),
        unique_triggers(purged(s, now, max)),
{
    lemma_entry_index_bounds(s, id, 0);
    let k = entry_index(s, id, 0);
    lemma_fresh_prefix_sub(s, now, max, s.len() as int);
    lemma_fresh_prefix_keeps(s, now, max, s.len() as int, k);
    let q = purged(s, now, max);
    let i = choose|i: int| 0 <= i < q.len() && #[trigger] q[i] == s[k];
    lemma_entry_index_unique(q, id, i);
}

/// After `recorded`, the entry for `id` holds `response` and triggers stay unique.
pub proof fn lemma_recorded(s: Seq<TrackedResponse>, id: u64, ts: u64, response: ResponseMessage)
    requires
        unique_triggers(s),
    ensures
        unique_triggers(recorded(s, id, ts, response)),
        entry_index(recorded(s, id, ts, response), id, 0) < recorded(s, id, ts, response).len(),
        recorded(s, id, ts, response)[entry_index(recorded(s, id, ts, response), id, 0)].trigger_timestamp == ts,
        response_for(recorded(s, id, ts, response), id) == Some(response),
{
    lemma_entry_index_bounds(s, id, 0);
    let k = entry_index(s, id, 0);
    let t = recorded(s, id, ts, response);
    if k < s.len() {
        assert forall|i: int, j: int| 0 <= i < j < t.len() implies #[trigger] t[i].trigger_id
            != #[trigger] t[j].trigger_id by {
            if i != k && j != k {
                assert(t[i] == s[i] && t[j] == s[j]);
            } else if i == k {
                assert(s[j].trigger_id != s[k].trigger_id);
            } else {
                assert(s[i].trigger_id != s[k].trigger_id);
            }
        }
        lemma_entry_index_unique(t, id, k);
    } else {
        assert forall|i: int, j: int| 0 <= i < j < t.len() implies #[trigger] t[i].trigger_id
            != #[trigger] t[j].trigger_id by {
            if j == s.len() {
                assert(s[i].trigger_id != id);
            } else {
                assert(t[i] == s[i] && t[j] == s[j]);
            }
        }
        lemma_entry_index_unique(t, id, s.len() as int);
    }
}

/// How a prefix reply is delivered.
#[derive(Debug)]
pub enum PrefixReplyAction {
    /// Edit the earlier response in place; `edit` sets every part of it.
    Edit { message_id: u64, channel_id: u64, edit: MessageEdit },
    /// Send a new message in the trigger's channel.
    Send { channel_id: u64, reply: CreateReply },
}

/// The response (message id and channel) a reply to trigger `id` edits, if any: only with
/// `reuse_response`, and only a response still within the retention span at `now`.
pub open spec fn planned_edit(t: EditTracker, reuse_response: bool, id: u64, now: u64) -> Option<(u64, u64)> {
    if !reuse_response {
        None
    } else {
        match response_for(purged(t.entries(), now, t.max_duration()), id) {
            Some(m) => Some((m.id, m.channel_id)),
            None => None,
        }
    }
}

/// The tracker after planning: purged when it was consulted.
pub open spec fn after_plan(t: Seq<TrackedResponse>, max: u64, reuse_response: bool, now: u64) -> Seq<TrackedResponse> {
    if reuse_response {
        purged(t, now, max)
    } else {
        t
    }
}

/// The entries after a reply to trigger `id` was delivered as `response`: an edit refreshes
/// the entry if it is still there, a new message gets an entry.
pub open spec fn after_record(
    s: Seq<TrackedResponse>,
    reuse_response: bool,
    id: u64,
    ts: u64,
    edited: bool,
    response: ResponseMessage,
) -> Seq<TrackedResponse> {
    if !reuse_response {
        s
    } else if edited && entry_index(s, id, 0) >= s.len() {
        s
    } else {
        recorded(s, id, ts, response)
    }
}

impl EditTracker {
    /// The response remembered for trigger `trigger_id`.
    pub fn find_bot_response(&self, trigger_id: u64) -> (r: Option<&ResponseMessage>)
        ensures
            match r {
                Some(m) => response_for(self.entries(), trigger_id) == Some(*m),
                None => response_for(self.entries(), trigger_id) is None,
            },
    {
        let mut k: usize = 0;
        while k < self.entries.len()
            invariant
                0 <= k <= self.entries@.len(),
                entry_index(self.entries@, trigger_id, 0) == entry_index(self.entries@, trigger_id, k as int),
            decreases self.entries@.len() - k,
        {
            if self.entries[k].trigger_id == trigger_id {
                return Some(&self.entries[k].response);
            }
            k = k + 1;
        }
        None
    }

    fn position(&self, trigger_id: u64) -> (r: Option<usize>)
        ensures
            match r {
                Some(k) => k == entry_index(self.entries(), trigger_id, 0) && k < self.entries().len(),
                None => entry_index(self.entries(), trigger_id, 0) == self.entries().len(),
            },
    {
        let mut k: usize = 0;
        while k < self.entries.len()
            invariant
                0 <= k <= self.entries@.len(),
                entry_index(self.entries@, trigger_id, 0) == entry_index(self.entries@, trigger_id, k as int),
            decreases self.entries@.len() - k,
        {
            if self.entries[k].trigger_id == trigger_id {
                return Some(k);
            }
            k = k + 1;
        }
        None
    }

    /// Remembers `response` as the response to trigger `trigger_id`, replacing an earlier one.
    pub fn set_bot_response(&mut self, trigger_id: u64, trigger_timestamp: u64, response: ResponseMessage)
        ensures
            final(self).wf(),
            final(self).max_duration() == old(self).max_duration(),
            final(self).entries() == recorded(old(self).entries(), trigger_id, trigger_timestamp, response),
    {
        proof {
            use_type_invariant(&*self);
            lemma_recorded(self.entries@, trigger_id, trigger_timestamp, response);
        }
        let e = TrackedResponse { trigger_id, trigger_timestamp, response };
        let pos = self.position(trigger_id);
        let mut entries: Vec<TrackedResponse> = Vec::new();
        std::mem::swap(&mut entries, &mut self.entries);
        match pos {
            Some(k) => {
                entries.set(k, e);
            },
            None => {
                entries.push(e);
            },
        }
        self.entries = entries;
        proof {
            use_type_invariant(&*self);
        }
    }

    /// Decides how a reply to the trigger message `trigger_id` in `channel_id` is delivered at
    /// `now`, dropping stale entries when the tracker is consulted.
    pub fn plan_prefix_reply(
        &mut self,
        reuse_response: bool,
        trigger_id: u64,
        channel_id: u64,
        now: u64,
        reply: CreateReply,
    ) -> (r: PrefixReplyAction)
        ensures
            final(self).wf(),
            final(self).max_duration() == old(self).max_duration(),
            final(self).entries() == after_plan(old(self).entries(), old(self).max_duration(), reuse_response, now),
            match planned_edit(*old(self), reuse_response, trigger_id, now) {
                Some((mid, ch)) => match r {
                    PrefixReplyAction::Edit { message_id, channel_id: edit_channel, edit } => message_id == mid
                        && edit_channel == ch
                        && edit.content@ == reply_surface(reply).content
                        && edit.embeds@ == reply.embeds@
                        && edit.components@ == reply.components@,
                    _ => false,
                },
                None => r == (PrefixReplyAction::Send { channel_id, reply }),
            },
    {
        proof {
            use_type_invariant(&*self);
        }
        if !reuse_response {
            return PrefixReplyAction::Send { channel_id, reply };
        }
        self.purge(now);
        let found = match self.find_bot_response(trigger_id) {
            Some(m) => Some((m.id, m.channel_id)),
            None => None,
        };
        match found {
            Some((message_id, ch)) => PrefixReplyAction::Edit {
                message_id,
                channel_id: ch,
                edit: prefix_edit(reply),
            },
            None => PrefixReplyAction::Send { channel_id, reply },
        }
    }

    /// Records how a reply to trigger `trigger_id` was delivered: after an edit the entry is
    /// refreshed if it still exists; a new message gets an entry.
    pub fn record_prefix_reply(
        &mut self,
        reuse_response: bool,
        trigger_id: u64,
        trigger_timestamp: u64,
        edited: bool,
        response: ResponseMessage,
    )
        ensures
            final(self).wf(),
            final(self).max_duration() == old(self).max_duration(),
            final(self).entries() == after_record(
                old(self).entries(),
                reuse_response,
                trigger_id,
                trigger_timestamp,
                edited,
                response,
            ),
    {
        proof {
            use_type_invariant(&*self);
        }
        if !reuse_response {
            return;
        }
        if edited && self.position(trigger_id).is_none() {
            return;
        }
        self.set_bot_response(trigger_id, trigger_timestamp, response);
    }
}

/// A reply to a trigger creates one response; a second reply to the same trigger, within the
/// retention span, edits that same response, and afterwards the trigger still has exactly one
/// entry, holding the edited response.
pub proof fn lemma_second_reply_edits_first(
    t: EditTracker,
    id: u64,
    ts: u64,
    now1: u64,
    first: ResponseMessage,
    now2: u64,
    second: ResponseMessage,
)
    requires
        t.wf(),
        planned_edit(t, true, id, now1) is None,
        now2 <= ts || now2 - ts <= t.max_duration(),
    ensures
        ({
            let s1 = after_record(after_plan(t.entries(), t.max_duration(), true, now1), true, id, ts, false, first);
            let s2 = purged(s1, now2, t.max_duration());
            &&& response_for(s2, id) == Some(first)
            &&& unique_triggers(after_record(s2, true, id, ts, true, second))
            &&& response_for(after_record(s2, true, id, ts, true, second), id) == Some(second)
        }),
{
    let max = t.max_duration();
    let s0 = purged(t.entries(), now1, max);
    lemma_fresh_prefix_sub(t.entries(), now1, max, t.entries().len() as int);
    let s1 = recorded(s0, id, ts, first);
    lemma_recorded(s0, id, ts, first);
    lemma_entry_index_bounds(s1, id, 0);
    lemma_purge_keeps_fresh(s1, now2, max, id);
    let s2 = purged(s1, now2, max);
    lemma_entry_index_bounds(s2, id, 0);
    lemma_recorded(s2, id, ts, second);
}

/// Which interaction operation a reply uses.
#[derive(Clone, Copy, Debug, PartialEq, Eq, Structural)]
pub enum ReplyRoute {
    /// The one initial response of the interaction.
    InitialResponse,
    /// A follow-up message.
    FollowUp,
    /// No transport call: an autocomplete request takes no reply.
    Skip,
}

/// Reply state of one interaction invocation.
#[derive(Clone, Copy, Debug, PartialEq, Eq, Structural)]
pub struct InteractionReplyState {
    pub autocomplete: bool,
    pub has_sent_initial_response: bool,
}

pub open spec fn route_of(s: InteractionReplyState) -> ReplyRoute {
    if s.autocomplete {
        ReplyRoute::Skip
    } else if s.has_sent_initial_response {
        ReplyRoute::FollowUp
    } else {
        ReplyRoute::InitialResponse
    }
}

/// The state after a reply along `route` was attempted; only a successful initial response
/// changes it.
pub open spec fn after_reply(s: InteractionReplyState, route: ReplyRoute, ok: bool) -> InteractionReplyState {
    if route == ReplyRoute::InitialResponse && ok {
        InteractionReplyState { has_sent_initial_response: true, ..s }
    } else {
        s
    }
}

/// The state after a reply claimed its route: claiming the initial response marks it sent at
/// once, so that no other reply can claim it too.
pub open spec fn after_claim(s: InteractionReplyState) -> InteractionReplyState {
    if route_of(s) == ReplyRoute::InitialResponse {
        InteractionReplyState { has_sent_initial_response: true, ..s }
    } else {
        s
    }
}

/// The state after a reply sent along its claimed `route` finished: a failed initial response
/// gives the claim back.
pub open spec fn after_release(s: InteractionReplyState, route: ReplyRoute, ok: bool) -> InteractionReplyState {
    if route == ReplyRoute::InitialResponse && !ok {
        InteractionReplyState { has_sent_initial_response: false, ..s }
    } else {
        s
    }
}

/// Of two replies that claim their routes one after the other, at most the first gets the
/// initial response; a failed initial response lets the next reply claim it again.
pub proof fn lemma_claims_exclusive(s: InteractionReplyState)
    ensures
        route_of(after_claim(s)) != ReplyRoute::InitialResponse,
        route_of(s) == ReplyRoute::InitialResponse ==> route_of(
            after_release(after_claim(s), ReplyRoute::InitialResponse, false),
        ) == ReplyRoute::InitialResponse,
{
}

/// Routes of `n` successive successful replies from state `s`.
pub open spec fn routes(s: InteractionReplyState, n: nat) -> Seq<ReplyRoute>
    decreases n,
{
    if n == 0 {
        Seq::empty()
    } else {
        seq![route_of(s)] + routes(after_reply(s, route_of(s), true), (n - 1) as nat)
    }
}

impl InteractionReplyState {
    /// State of an invocation that has not replied yet.
    pub fn new(autocomplete: bool) -> (r: InteractionReplyState)
        ensures
            r == (InteractionReplyState { autocomplete, has_sent_initial_response: false }),
    {
        InteractionReplyState { autocomplete, has_sent_initial_response: false }
    }

    /// The operation the next reply uses.
    pub fn route(&self) -> (r: ReplyRoute)
        ensures
            r == route_of(*self),
    {
        if self.autocomplete {
            ReplyRoute::Skip
        } else if self.has_sent_initial_response {
            ReplyRoute::FollowUp
        } else {
            ReplyRoute::InitialResponse
        }
    }

    /// Claims the route of the next reply; the initial response is marked sent at once.
    pub fn claim(&mut self) -> (r: ReplyRoute)
        ensures
            r == route_of(*old(self)),
            *final(self) == after_claim(*old(self)),
    {
        let r = self.route();
        if r == ReplyRoute::InitialResponse {
            self.has_sent_initial_response = true;
        }
        r
    }

    /// Ends a reply that claimed `route`; a failed initial response gives the claim back.
    pub fn release(&mut self, route: ReplyRoute, ok: bool)
        ensures
            *final(self) == after_release(*old(self), route, ok),
    {
        if route == ReplyRoute::InitialResponse && !ok {
            self.has_sent_initial_response = false;
        }
    }

    /// Records the outcome of a reply sent along `route`.
    pub fn record(&mut self, route: ReplyRoute, ok: bool)
        ensures
            *final(self) == after_reply(*old(self), route, ok),
    {
        if route == ReplyRoute::InitialResponse && ok {
            self.has_sent_initial_response = true;
        }
    }
}

/// In an invocation that has not replied yet, the first reply is the initial response and
/// every later one a follow-up; in an autocomplete invocation no reply reaches the transport.
pub proof fn lemma_reply_routes(autocomplete: bool, n: nat)
    ensures
        forall|i: int|
            0 <= i < n ==> #[trigger] routes(
                InteractionReplyState { autocomplete, has_sent_initial_response: false },
                n,
            )[i] == if autocomplete {
                ReplyRoute::Skip
            } else if i == 0 {
                ReplyRoute::InitialResponse
            } else {
                ReplyRoute::FollowUp
            },
{
    let s0 = InteractionReplyState { autocomplete, has_sent_initial_response: false };
    if n > 0 {
        lemma_constant_routes(after_reply(s0, route_of(s0), true), (n - 1) as nat);
        let rest = routes(after_reply(s0, route_of(s0), true), (n - 1) as nat);
        lemma_routes_len(after_reply(s0, route_of(s0), true), (n - 1) as nat);
        assert(routes(s0, n) == seq![route_of(s0)] + rest);
        assert forall|i: int| 0 <= i < n implies #[trigger] routes(s0, n)[i] == if autocomplete {
            ReplyRoute::Skip
        } else if i == 0 {
            ReplyRoute::InitialResponse
        } else {
            ReplyRoute::FollowUp
        } by {
            if i > 0 {
                assert(routes(s0, n)[i] == rest[i - 1]);
            }
        }
    }
}

proof fn lemma_routes_len(s: InteractionReplyState, n: nat)
    ensures
        routes(s, n).len() == n,
    decreases n,
{
    if n > 0 {
        lemma_routes_len(after_reply(s, route_of(s), true), (n - 1) as nat);
    }
}

/// Once the initial response went out, or in an autocomplete invocation, every reply takes
/// the same route.
proof fn lemma_constant_routes(s: InteractionReplyState, n: nat)
    requires
        s.autocomplete || s.has_sent_initial_response,
    ensures
        forall|i: int| 0 <= i < n ==> #[trigger] routes(s, n)[i] == route_of(s),
    decreases n,
{
    if n > 0 {
        assert(after_reply(s, route_of(s), true) == s);
        lemma_constant_routes(s, (n - 1) as nat);
        lemma_routes_len(s, (n - 1) as nat);
        let rest = routes(s, (n - 1) as nat);
        assert forall|i: int| 0 <= i < n implies #[trigger] routes(s, n)[i] == route_of(s) by {
            if i > 0 {
                assert(routes(s, n)[i] == rest[i - 1]);
            }
        }
    }
}

} // verus!
