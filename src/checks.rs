//! The admission checks run before an invocation, in a fixed order, stopping at the first
//! failure.
//!
//! The predicates are the integrator's code and may suspend, so the chain is a sequence of
//! steps: each function below decides the next step from what the previous one returned.

use vstd::prelude::*;
use crate::command::Command;
use crate::permissions::{bits_superset, Permissions};

verus! {

/// Why a check rejected an invocation.
#[derive(Clone, Copy, Debug, PartialEq, Eq, Structural)]
pub enum CheckFailure {
    /// The command is for owners only and the caller is not one.
    Ownership,
    /// The caller lacks the permissions in `missing`.
    Permissions { missing: Permissions },
    /// The bot lacks the permissions in `missing`.
    BotPermissions { missing: Permissions },
    GuildOnly,
    DmOnly,
    NsfwOnly,
    /// A predicate returned "not allowed".
    CustomPredicate,
}

/// What is known about an invocation when the checks start.
#[derive(Clone, Copy, Debug, PartialEq, Eq, Structural)]
pub struct InvocationFacts {
    pub author_id: u64,
    pub author_permissions: Permissions,
    pub bot_permissions: Permissions,
    /// `None` in direct messages.
    pub guild_id: Option<u64>,
    pub channel_nsfw: bool,
}

/// What a predicate returned.
#[derive(Clone, Copy, Debug, PartialEq, Eq, Structural)]
pub enum PredicateOutcome<E> {
    Allowed,
    Denied,
    /// The predicate itself failed.
    Failed(E),
}

/// The next thing to do for an invocation under check.
#[derive(Clone, Copy, Debug, PartialEq, Eq, Structural)]
pub enum CheckStep<E> {
    /// Stop: the invocation is rejected for this reason.
    Reject(CheckFailure),
    /// Stop: a predicate failed with this error.
    PredicateError(E),
    /// Run the framework-wide predicate and report with `after_global_check`.
    RunGlobalCheck,
    /// Run the command's predicate and report with `after_command_check`.
    RunCommandCheck,
    /// Every check passed; the cooldown decides last.
    CheckCooldown,
}

/// The checks that need no predicate, in order: ownership, caller permissions, bot
/// permissions, then guild-only, DM-only and NSFW-only.
pub open spec fn static_verdict<T>(cmd: Command<T>, owners: Seq<u64>, f: InvocationFacts) -> Result<
    (),
    CheckFailure,
> {
    if cmd.owners_only && !owners.contains(f.author_id) {
        Err(CheckFailure::Ownership)
    } else if !bits_superset(f.author_permissions.bits, cmd.required_permissions.bits) {
        Err(
            CheckFailure::Permissions {
                missing: Permissions {
                    bits: cmd.required_permissions.bits & !f.author_permissions.bits,
                },
            },
        )
    } else if !bits_superset(f.bot_permissions.bits, cmd.required_bot_permissions.bits) {
        Err(
            CheckFailure::BotPermissions {
                missing: Permissions {
                    bits: cmd.required_bot_permissions.bits & !f.bot_permissions.bits,
                },
            },
        )
    } else if cmd.guild_only && f.guild_id is None {
        Err(CheckFailure::GuildOnly)
    } else if cmd.dm_only && f.guild_id is Some {
        Err(CheckFailure::DmOnly)
    } else if cmd.nsfw_only && !f.channel_nsfw {
        Err(CheckFailure::NsfwOnly)
    } else {
        Ok(())
    }
}

/// The step after the framework-wide predicate passed (or there is none).
pub open spec fn step_after_global<T, E>(cmd: Command<T>) -> CheckStep<E> {
    if cmd.check is Some {
        CheckStep::RunCommandCheck
    } else {
        CheckStep::CheckCooldown
    }
}

/// First step of the chain.
pub open spec fn first_step<T, E>(
    cmd: Command<T>,
    has_global_check: bool,
    owners: Seq<u64>,
    f: InvocationFacts,
) -> CheckStep<E> {
    match static_verdict(cmd, owners, f) {
        Err(why) => CheckStep::Reject(why),
        Ok(()) => if has_global_check {
            CheckStep::RunGlobalCheck
        } else {
            step_after_global(cmd)
        },
    }
}

/// The step after a predicate returned `outcome`, where `then` is the step owed on success.
pub open spec fn step_after_predicate<E>(outcome: PredicateOutcome<E>, then: CheckStep<E>) -> CheckStep<E> {
    match outcome {
        PredicateOutcome::Allowed => then,
        PredicateOutcome::Denied => CheckStep::Reject(CheckFailure::CustomPredicate),
        PredicateOutcome::Failed(e) => CheckStep::PredicateError(e),
    }
}

/// Whether `owners` holds `id`.
pub fn is_owner(owners: &Vec<u64>, id: u64) -> (r: bool)
    ensures
        r == owners@.contains(id),
{
    let mut i: usize = 0;
    while i < owners.len()
        invariant
            0 <= i <= owners@.len(),
            forall|j: int| 0 <= j < i ==> owners@[j] != id,
        decreases owners@.len() - i,
    {
        if owners[i] == id {
            assert(owners@[i as int] == id);
            return true;
        }
        i = i + 1;
    }
    false
}

/// Runs the checks that need no predicate.
pub fn check_static<T>(cmd: &Command<T>, owners: &Vec<u64>, f: &InvocationFacts) -> (r: Result<
    (),
    CheckFailure,
>)
    ensures
        r == static_verdict(*cmd, owners@, *f),
{
    if cmd.owners_only && !is_owner(owners, f.author_id) {
        return Err(CheckFailure::Ownership);
    }
    if !f.author_permissions.contains(cmd.required_permissions) {
        return Err(
            CheckFailure::Permissions { missing: f.author_permissions.missing(cmd.required_permissions) },
        );
    }
    if !f.bot_permissions.contains(cmd.required_bot_permissions) {
        return Err(
            CheckFailure::BotPermissions {
                missing: f.bot_permissions.missing(cmd.required_bot_permissions),
            },
        );
    }
    if cmd.guild_only && f.guild_id.is_none() {
        return Err(CheckFailure::GuildOnly);
    }
    if cmd.dm_only && f.guild_id.is_some() {
        return Err(CheckFailure::DmOnly);
    }
    if cmd.nsfw_only && !f.channel_nsfw {
        return Err(CheckFailure::NsfwOnly);
    }
    Ok(())
}

/// Starts the chain for an invocation of `cmd`.
pub fn begin_checks<T, E>(
    cmd: &Command<T>,
    has_global_check: bool,
    owners: &Vec<u64>,
    f: &InvocationFacts,
) -> (r: CheckStep<E>)
    ensures
        r == first_step::<T, E>(*cmd, has_global_check, owners@, *f),
{
    match check_static(cmd, owners, f) {
        Err(why) => CheckStep::Reject(why),
        Ok(()) => {
            if has_global_check {
                CheckStep::RunGlobalCheck
            } else if cmd.check.is_some() {
                CheckStep::RunCommandCheck
            } else {
                CheckStep::CheckCooldown
            }
        },
    }
}

/// Continues the chain once the framework-wide predicate returned `outcome`.
pub fn after_global_check<T, E>(cmd: &Command<T>, outcome: PredicateOutcome<E>) -> (r: CheckStep<E>)
    ensures
        r == step_after_predicate(outcome, step_after_global::<T, E>(*cmd)),
{
    match outcome {
        PredicateOutcome::Allowed => {
            if cmd.check.is_some() {
                CheckStep::RunCommandCheck
            } else {
                CheckStep::CheckCooldown
            }
        },
        PredicateOutcome::Denied => CheckStep::Reject(CheckFailure::CustomPredicate),
        PredicateOutcome::Failed(e) => CheckStep::PredicateError(e),
    }
}

/// Continues the chain once the command's predicate returned `outcome`.
pub fn after_command_check<E>(outcome: PredicateOutcome<E>) -> (r: CheckStep<E>)
    ensures
        r == step_after_predicate(outcome, CheckStep::CheckCooldown),
{
    match outcome {
        PredicateOutcome::Allowed => CheckStep::CheckCooldown,
        PredicateOutcome::Denied => CheckStep::Reject(CheckFailure::CustomPredicate),
        PredicateOutcome::Failed(e) => CheckStep::PredicateError(e),
    }
}

/// A caller whose permissions are a strict subset of the command's requirement is rejected
/// for permissions at the first step, before any predicate runs, so the action never runs;
/// only the ownership check, which comes first, can reject such a caller for another reason.
pub proof fn lemma_insufficient_permissions_rejected<T, E>(
    cmd: Command<T>,
    has_global_check: bool,
    owners: Seq<u64>,
    f: InvocationFacts,
)
    requires
        crate::permissions::bits_strict_subset(
            f.author_permissions.bits,
            cmd.required_permissions.bits,
        ),
        !cmd.owners_only || owners.contains(f.author_id),
    ensures
        first_step::<T, E>(cmd, has_global_check, owners, f) == CheckStep::<E>::Reject(
            CheckFailure::Permissions {
                missing: Permissions {
                    bits: cmd.required_permissions.bits & !f.author_permissions.bits,
                },
            },
        ),
{
    crate::permissions::lemma_strict_subset_not_superset(
        f.author_permissions.bits,
        cmd.required_permissions.bits,
    );
}

} // verus!
