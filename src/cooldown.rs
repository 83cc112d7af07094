//! Per-command rate limiting over five independent scopes.

use vstd::prelude::*;
use std::collections::HashMap;
use std::hash::Hash;
use vstd::std_specs::hash::obeys_key_model;

verus! {

broadcast use vstd::std_specs::hash::group_hash_axioms;

/// Cooldown durations of one command, in milliseconds; 0 leaves a scope unset.
#[derive(Clone, Copy, Debug, PartialEq, Eq, Structural)]
pub struct CooldownConfig {
    pub global: u64,
    pub user: u64,
    pub guild: u64,
    pub channel: u64,
    pub member: u64,
}

impl CooldownConfig {
    /// A configuration with every scope unset.
    pub fn none() -> (r: CooldownConfig)
        ensures
            r.global == 0 && r.user == 0 && r.guild == 0 && r.channel == 0 && r.member == 0,
    {
        CooldownConfig { global: 0, user: 0, guild: 0, channel: 0, member: 0 }
    }
}

/// Who invokes, and where: the keys of the scopes.
#[derive(Clone, Copy, Debug, PartialEq, Eq, Structural)]
pub struct CooldownContext {
    pub user_id: u64,
    /// `None` outside guilds; the guild and member scopes then do not apply.
    pub guild_id: Option<u64>,
    pub channel_id: u64,
}

/// Last accepted invocation time (milliseconds) for each scope key.
pub struct CooldownsView {
    pub global: Option<u64>,
    pub user: Map<u64, u64>,
    pub guild: Map<u64, u64>,
    pub channel: Map<u64, u64>,
    pub member: Map<u128, u64>,
}

/// Timestamps of the accepted invocations of one command, per scope key.
pub struct Cooldowns {
    global_invocation: Option<u64>,
    user_invocations: HashMap<u64, u64>,
    guild_invocations: HashMap<u64, u64>,
    channel_invocations: HashMap<u64, u64>,
    member_invocations: HashMap<u128, u64>,
}

/// Key of the member scope: guild and user, packed without collision.
pub open spec fn member_key(guild: u64, user: u64) -> u128 {
    (guild as int * 0x1_0000_0000_0000_0000 + user as int) as u128
}

pub open spec fn entry<K>(m: Map<K, u64>, k: K) -> Option<u64> {
    if m.contains_key(k) {
        Some(m[k])
    } else {
        None
    }
}

/// Time since `last`; a clock that went backwards counts as no time.
pub open spec fn elapsed(now: u64, last: u64) -> int {
    if now >= last {
        now - last
    } else {
        0
    }
}

/// Wait left on one scope of duration `d` last used at `last`; 0 if it does not block.
pub open spec fn scope_wait(d: u64, last: Option<u64>, now: u64) -> int {
    match last {
        Some(t) => if d > 0 && elapsed(now, t) < d {
            d - elapsed(now, t)
        } else {
            0
        },
        None => 0,
    }
}

pub open spec fn max_int(a: int, b: int) -> int {
    if a >= b {
        a
    } else {
        b
    }
}

/// The longest wait over the scopes that apply to `ctx`; 0 when the invocation may run.
pub open spec fn remaining_wait(v: CooldownsView, cfg: CooldownConfig, ctx: CooldownContext, now: u64) -> int {
    let g = scope_wait(cfg.global, v.global, now);
    let u = scope_wait(cfg.user, entry(v.user, ctx.user_id), now);
    let c = scope_wait(cfg.channel, entry(v.channel, ctx.channel_id), now);
    let base = max_int(max_int(g, u), c);
    match ctx.guild_id {
        Some(gid) => max_int(
            base,
            max_int(
                scope_wait(cfg.guild, entry(v.guild, gid), now),
                scope_wait(cfg.member, entry(v.member, member_key(gid, ctx.user_id)), now),
            ),
        ),
        None => base,
    }
}

pub open spec fn stamp<K>(m: Map<K, u64>, d: u64, k: K, now: u64) -> Map<K, u64> {
    if d > 0 {
        m.insert(k, now)
    } else {
        m
    }
}

/// State after an accepted invocation: each configured scope that applies is stamped `now`.
pub open spec fn started(v: CooldownsView, cfg: CooldownConfig, ctx: CooldownContext, now: u64) -> CooldownsView {
    CooldownsView {
        global: if cfg.global > 0 {
            Some(now)
        } else {
            v.global
        },
        user: stamp(v.user, cfg.user, ctx.user_id, now),
        channel: stamp(v.channel, cfg.channel, ctx.channel_id, now),
        guild: match ctx.guild_id {
            Some(gid) => stamp(v.guild, cfg.guild, gid, now),
            None => v.guild,
        },
        member: match ctx.guild_id {
            Some(gid) => stamp(v.member, cfg.member, member_key(gid, ctx.user_id), now),
            None => v.member,
        },
    }
}

/// What one attempt leaves behind: stamped if admitted, untouched if rejected.
pub open spec fn after_attempt(v: CooldownsView, cfg: CooldownConfig, ctx: CooldownContext, now: u64) -> CooldownsView {
    if remaining_wait(v, cfg, ctx, now) == 0 {
        started(v, cfg, ctx, now)
    } else {
        v
    }
}

/// State after attempts at each time of `times`, in order.
pub open spec fn after_attempts(
    v: CooldownsView,
    cfg: CooldownConfig,
    ctx: CooldownContext,
    times: Seq<u64>,
) -> CooldownsView
    decreases times.len(),
{
    if times.len() == 0 {
        v
    } else {
        after_attempt(after_attempts(v, cfg, ctx, times.drop_last()), cfg, ctx, times.last())
    }
}

/// The longest configured duration among the scopes that apply to `ctx`.
pub open spec fn longest_duration(cfg: CooldownConfig, ctx: CooldownContext) -> int {
    let base = max_int(max_int(cfg.global as int, cfg.user as int), cfg.channel as int);
    match ctx.guild_id {
        Some(_) => max_int(base, max_int(cfg.guild as int, cfg.member as int)),
        None => base,
    }
}

/// Right after an invocation is admitted at `t0`, the wait reported to a repeat from the same
/// keys is the longest applicable duration minus the time since `t0`, and never less than 0.
pub proof fn lemma_wait_after_start(
    v: CooldownsView,
    cfg: CooldownConfig,
    ctx: CooldownContext,
    t0: u64,
    now: u64,
)
    requires
        t0 <= now,
    ensures
        remaining_wait(started(v, cfg, ctx, t0), cfg, ctx, now) == max_int(
            longest_duration(cfg, ctx) - (now - t0),
            0,
        ),
{
    let w = started(v, cfg, ctx, t0);
    let e = now - t0;
    assert(scope_wait(cfg.global, w.global, now) == max_int(cfg.global - e, 0));
    assert(scope_wait(cfg.user, entry(w.user, ctx.user_id), now) == max_int(cfg.user - e, 0));
    assert(scope_wait(cfg.channel, entry(w.channel, ctx.channel_id), now) == max_int(
        cfg.channel - e,
        0,
    ));
    match ctx.guild_id {
        Some(gid) => {
            assert(scope_wait(cfg.guild, entry(w.guild, gid), now) == max_int(cfg.guild - e, 0));
            assert(scope_wait(cfg.member, entry(w.member, member_key(gid, ctx.user_id)), now)
                == max_int(cfg.member - e, 0));
        },
        None => {},
    }
}

/// A repeat from the same keys sooner than a configured duration after an admitted
/// invocation is rejected with a positive wait; one after the longest applicable duration is
/// admitted.
pub proof fn lemma_cooldown_window(
    v: CooldownsView,
    cfg: CooldownConfig,
    ctx: CooldownContext,
    t0: u64,
    now: u64,
)
    requires
        t0 <= now,
    ensures
        now - t0 < longest_duration(cfg, ctx) ==> remaining_wait(started(v, cfg, ctx, t0), cfg, ctx, now) > 0,
        now - t0 >= longest_duration(cfg, ctx) ==> after_attempt(started(v, cfg, ctx, t0), cfg, ctx, now)
            == started(started(v, cfg, ctx, t0), cfg, ctx, now),
{
    lemma_wait_after_start(v, cfg, ctx, t0, now);
}

/// Rejected attempts do not move the window: after an invocation admitted at `t0`, attempts
/// at times inside the window leave the state as `t0` left it, and each is told the wait that
/// counts down from `t0`.
pub proof fn lemma_rejections_keep_origin(
    v: CooldownsView,
    cfg: CooldownConfig,
    ctx: CooldownContext,
    t0: u64,
    times: Seq<u64>,
)
    requires
        forall|i: int| 0 <= i < times.len() ==> t0 <= #[trigger] times[i] && times[i] - t0 < longest_duration(cfg, ctx),
    ensures
        after_attempts(started(v, cfg, ctx, t0), cfg, ctx, times) == started(v, cfg, ctx, t0),
        forall|i: int|
            0 <= i < times.len() ==> remaining_wait(
                after_attempts(started(v, cfg, ctx, t0), cfg, ctx, times.take(i)),
                cfg,
                ctx,
                #[trigger] times[i],
            ) == t0 + longest_duration(cfg, ctx) - times[i],
    decreases times.len(),
{
    let s0 = started(v, cfg, ctx, t0);
    if times.len() > 0 {
        let rest = times.drop_last();
        lemma_rejections_keep_origin(v, cfg, ctx, t0, rest);
        lemma_wait_after_start(v, cfg, ctx, t0, times.last());
        assert forall|i: int| 0 <= i < times.len() implies remaining_wait(
            after_attempts(s0, cfg, ctx, times.take(i)),
            cfg,
            ctx,
            #[trigger] times[i],
        ) == t0 + longest_duration(cfg, ctx) - times[i] by {
            if i < rest.len() {
                assert(times.take(i) =~= rest.take(i));
                assert(rest[i] == times[i]);
            } else {
                assert(times.take(i) =~= rest);
            }
            lemma_wait_after_start(v, cfg, ctx, t0, times[i]);
        }
    }
}

fn lookup<K: Hash + Eq>(m: &HashMap<K, u64>, k: &K) -> (r: Option<u64>)
    requires
        obeys_key_model::<K>(),
    ensures
        r == entry(m@, *k),
{
    match m.get(k) {
        Some(t) => Some(*t),
        None => None,
    }
}

fn stamp_exec<K: Hash + Eq>(m: &mut HashMap<K, u64>, d: u64, k: K, now: u64)
    requires
        obeys_key_model::<K>(),
    ensures
        final(m)@ == stamp(old(m)@, d, k, now),
{
    if d > 0 {
        m.insert(k, now);
    }
}

fn scope_wait_exec(d: u64, last: Option<u64>, now: u64) -> (r: u64)
    ensures
        r == scope_wait(d, last, now),
{
    match last {
        Some(t) => {
            let e: u64 = if now >= t {
                now - t
            } else {
                0
            };
            if d > 0 && e < d {
                d - e
            } else {
                0
            }
        },
        None => 0,
    }
}

fn max_u64(a: u64, b: u64) -> (r: u64)
    ensures
        r == max_int(a as int, b as int),
{
    if a >= b {
        a
    } else {
        b
    }
}

fn member_key_exec(guild: u64, user: u64) -> (r: u128)
    ensures
        r == member_key(guild, user),
{
    (guild as u128) * 0x1_0000_0000_0000_0000u128 + (user as u128)
}

impl Cooldowns {
    pub closed spec fn view(&self) -> CooldownsView {
        CooldownsView {
            global: self.global_invocation,
            user: self.user_invocations@,
            guild: self.guild_invocations@,
            channel: self.channel_invocations@,
            member: self.member_invocations@,
        }
    }

    /// A tracker in which no scope has been used.
    pub fn new() -> (r: Cooldowns)
        ensures
            r.view().global is None,
            r.view().user == Map::<u64, u64>::empty(),
            r.view().guild == Map::<u64, u64>::empty(),
            r.view().channel == Map::<u64, u64>::empty(),
            r.view().member == Map::<u128, u64>::empty(),
    {
        Cooldowns {
            global_invocation: None,
            user_invocations: HashMap::new(),
            guild_invocations: HashMap::new(),
            channel_invocations: HashMap::new(),
            member_invocations: HashMap::new(),
        }
    }

    /// The longest wait, in milliseconds, before an invocation in `ctx` may run; 0 if it may
    /// run now.
    pub fn remaining_cooldown(&self, cfg: &CooldownConfig, ctx: &CooldownContext, now: u64) -> (r: u64)
        ensures
            r == remaining_wait(self.view(), *cfg, *ctx, now),
    {
        let g = scope_wait_exec(cfg.global, self.global_invocation, now);
        let u = scope_wait_exec(cfg.user, lookup(&self.user_invocations, &ctx.user_id), now);
        let c = scope_wait_exec(cfg.channel, lookup(&self.channel_invocations, &ctx.channel_id), now);
        let base = max_u64(max_u64(g, u), c);
        match ctx.guild_id {
            Some(gid) => {
                let gw = scope_wait_exec(cfg.guild, lookup(&self.guild_invocations, &gid), now);
                let key = member_key_exec(gid, ctx.user_id);
                let mw = scope_wait_exec(cfg.member, lookup(&self.member_invocations, &key), now);
                max_u64(base, max_u64(gw, mw))
            },
            None => base,
        }
    }

    /// Records an accepted invocation at `now` on every configured scope that applies.
    pub fn start_cooldown(&mut self, cfg: &CooldownConfig, ctx: &CooldownContext, now: u64)
        ensures
            final(self).view() == started(old(self).view(), *cfg, *ctx, now),
    {
        if cfg.global > 0 {
            self.global_invocation = Some(now);
        }
        stamp_exec(&mut self.user_invocations, cfg.user, ctx.user_id, now);
        stamp_exec(&mut self.channel_invocations, cfg.channel, ctx.channel_id, now);
        match ctx.guild_id {
            Some(gid) => {
                stamp_exec(&mut self.guild_invocations, cfg.guild, gid, now);
                let key = member_key_exec(gid, ctx.user_id);
                stamp_exec(&mut self.member_invocations, cfg.member, key, now);
            },
            None => {},
        }
    }

    /// Admits an invocation and stamps its scopes in one step, or rejects it with the longest
    /// remaining wait and leaves every timestamp as it was.
    pub fn check_and_update(&mut self, cfg: &CooldownConfig, ctx: &CooldownContext, now: u64) -> (r: Result<(), u64>)
        ensures
            final(self).view() == after_attempt(old(self).view(), *cfg, *ctx, now),
            remaining_wait(old(self).view(), *cfg, *ctx, now) == 0 ==> r is Ok && final(self).view()
                == started(old(self).view(), *cfg, *ctx, now),
            remaining_wait(old(self).view(), *cfg, *ctx, now) > 0 ==> r == Err::<(), u64>(
                remaining_wait(old(self).view(), *cfg, *ctx, now) as u64,
            ) && final(self).view() == old(self).view(),
    {
        let wait = self.remaining_cooldown(cfg, ctx, now);
        if wait > 0 {
            return Err(wait);
        }
        self.start_cooldown(cfg, ctx, now);
        Ok(())
    }
}

} // verus!
