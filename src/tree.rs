//! Resolution of a name path to a registered command.

use vstd::prelude::*;
use crate::command::Command;
use crate::text::{prefix_tokens, split_tokens, views_of};

verus! {

/// The surface a trigger arrived on.
#[derive(Clone, Copy, Debug, PartialEq, Eq, Structural)]
pub enum TriggerKind {
    /// Free-text message: names and aliases match.
    Prefix,
    /// Structured interaction: exact names only.
    Interaction,
}

/// `c` answers to `token` on a trigger of kind `kind`.
pub open spec fn answers_to<T>(c: Command<T>, token: Seq<char>, kind: TriggerKind) -> bool {
    ||| c.name@ == token
    ||| (kind == TriggerKind::Prefix && exists|i: int|
        0 <= i < c.aliases@.len() && (#[trigger] c.aliases@[i])@ == token)
}

/// Index of the first command of `cs` at or after `start` that answers to `token`, or
/// `cs.len()` if there is none.
pub open spec fn first_answer_from<T>(
    cs: Seq<Command<T>>,
    token: Seq<char>,
    kind: TriggerKind,
    start: int,
) -> int
    decreases cs.len() - start,
{
    if start >= cs.len() || start < 0 {
        cs.len() as int
    } else if answers_to(cs[start], token, kind) {
        start
    } else {
        first_answer_from(cs, token, kind, start + 1)
    }
}

/// Walks down from `c`, which consumed the first `k` tokens of `path`, while the next token
/// names a subcommand; yields the command reached and the number of tokens consumed.
pub open spec fn descend<T>(c: Command<T>, path: Seq<Seq<char>>, k: int, kind: TriggerKind) -> (
    Command<T>,
    int,
)
    decreases c,
{
    if 0 <= k < path.len() {
        let j = first_answer_from(c.subcommands@, path[k], kind, 0);
        if j < c.subcommands@.len() {
            if decreases_to!(c => c.subcommands@[j]) {
                descend(c.subcommands@[j], path, k + 1, kind)
            } else {
                (c, k)
            }
        } else {
            (c, k)
        }
    } else {
        (c, k)
    }
}

/// The command that `path` names among `roots`, with the number of tokens that named it; the
/// tokens after those are argument text.
pub open spec fn resolution<T>(roots: Seq<Command<T>>, path: Seq<Seq<char>>, kind: TriggerKind) -> Option<
    (Command<T>, int),
> {
    if path.len() == 0 {
        None
    } else {
        let i = first_answer_from(roots, path[0], kind, 0);
        if i < roots.len() {
            Some(descend(roots[i], path, 1, kind))
        } else {
            None
        }
    }
}

proof fn lemma_subcommand_decreases<T>(c: Command<T>, j: int)
    requires
        0 <= j < c.subcommands@.len(),
    ensures
        decreases_to!(c => c.subcommands@[j]),
{
    assert(decreases_to!(c => c.subcommands));
    assert(decreases_to!(c.subcommands => c.subcommands@));
    assert(decreases_to!(c.subcommands@ => c.subcommands@[j]));
}

/// Whether `c` answers to `token` on a trigger of kind `kind`.
pub fn answers_to_exec<T>(c: &Command<T>, token: &String, kind: TriggerKind) -> (r: bool)
    ensures
        r == answers_to(*c, token@, kind),
{
    if c.name == *token {
        return true;
    }
    if kind == TriggerKind::Interaction {
        return false;
    }
    assert(kind == TriggerKind::Prefix);
    let mut i: usize = 0;
    while i < c.aliases.len()
        invariant
            kind == TriggerKind::Prefix,
            0 <= i <= c.aliases@.len(),
            forall|j: int| 0 <= j < i ==> (#[trigger] c.aliases@[j])@ != token@,
        decreases c.aliases@.len() - i,
    {
        if c.aliases[i] == *token {
            assert(c.aliases@[i as int]@ == token@);
            return true;
        }
        i = i + 1;
    }
    false
}

/// Index of the first command of `cs` that answers to `token`.
pub fn find_answer<T>(cs: &Vec<Command<T>>, token: &String, kind: TriggerKind) -> (r: Option<usize>)
    ensures
        match r {
            Some(i) => i == first_answer_from(cs@, token@, kind, 0) && i < cs@.len(),
            None => first_answer_from(cs@, token@, kind, 0) == cs@.len(),
        },
{
    let mut i: usize = 0;
    while i < cs.len()
        invariant
            0 <= i <= cs@.len(),
            first_answer_from(cs@, token@, kind, 0) == first_answer_from(cs@, token@, kind, i as int),
        decreases cs@.len() - i,
    {
        if answers_to_exec(&cs[i], token, kind) {
            return Some(i);
        }
        i = i + 1;
    }
    None
}

/// Resolves `path` to a command of `roots` or one of its subcommands.
///
/// Returns the command and the number of leading tokens that named it; `None` when the first
/// token names no root command.
pub fn resolve<'a, T>(roots: &'a Vec<Command<T>>, path: &Vec<String>, kind: TriggerKind) -> (r: Option<
    (&'a Command<T>, usize),
>)
    ensures
        match resolution(roots@, path@.map_values(|s: String| s@), kind) {
            None => r is None,
            Some((c, k)) => r is Some && *(r->0).0 == c && (r->0).1 == k,
        },
        r is Some ==> 1 <= (r->0).1 <= path@.len(),
{
    let ghost p = path@.map_values(|s: String| s@);
    if path.len() == 0 {
        return None;
    }
    assert(p[0] == path@[0]@);
    let i = match find_answer(roots, &path[0], kind) {
        None => {
            return None;
        },
        Some(i) => i,
    };
    let mut cur: &'a Command<T> = &roots[i];
    let mut k: usize = 1;
    while k < path.len()
        invariant
            p == path@.map_values(|s: String| s@),
            1 <= k <= path@.len(),
            i < roots@.len(),
            i == first_answer_from(roots@, p[0], kind, 0),
            descend(roots@[i as int], p, 1, kind) == descend(*cur, p, k as int, kind),
        decreases path@.len() - k,
    {
        assert(p[k as int] == path@[k as int]@);
        match find_answer(&cur.subcommands, &path[k], kind) {
            None => {
                return Some((cur, k));
            },
            Some(j) => {
                proof {
                    lemma_subcommand_decreases(*cur, j as int);
                }
                cur = &cur.subcommands[j];
                k = k + 1;
            },
        }
    }
    Some((cur, k))
}

/// `content` starts with `prefix`.
pub open spec fn has_prefix(content: Seq<char>, prefix: Seq<char>) -> bool {
    content.len() >= prefix.len() && content.take(prefix.len() as int) == prefix
}

/// What a prefix message invokes: the command its first tokens name, and the tokens left as
/// argument text; `None` if the message lacks the prefix or names no command.
pub fn prefix_invocation<'a, T>(roots: &'a Vec<Command<T>>, prefix: &str, content: &str) -> (r: Option<
    (&'a Command<T>, Vec<String>),
>)
    ensures
        ({
            let toks = split_tokens(content@.skip(prefix@.len() as int));
            match r {
                None => !has_prefix(content@, prefix@) || resolution(roots@, toks, TriggerKind::Prefix) is None,
                Some((c, args)) => has_prefix(content@, prefix@) && match resolution(
                    roots@,
                    toks,
                    TriggerKind::Prefix,
                ) {
                    Some((rc, k)) => *c == rc && views_of(args@) == toks.skip(k),
                    None => false,
                },
            }
        }),
{
    let tokens = match prefix_tokens(prefix, content) {
        None => {
            return None;
        },
        Some(t) => t,
    };
    assert(views_of(tokens@) =~= tokens@.map_values(|s: String| s@));
    let (c, k) = match resolve(roots, &tokens, TriggerKind::Prefix) {
        None => {
            return None;
        },
        Some(found) => found,
    };
    let mut args: Vec<String> = Vec::new();
    let mut i: usize = k;
    while i < tokens.len()
        invariant
            k <= i <= tokens@.len(),
            views_of(args@) == views_of(tokens@).subrange(k as int, i as int),
        decreases tokens@.len() - i,
    {
        let ghost before = views_of(args@);
        args.push(tokens[i].clone());
        assert(views_of(args@) =~= before.push(tokens@[i as int]@));
        assert(views_of(tokens@).subrange(k as int, i + 1) =~= views_of(tokens@).subrange(k as int, i as int).push(tokens@[i as int]@));
        i = i + 1;
    }
    assert(views_of(tokens@).subrange(k as int, tokens@.len() as int) =~= views_of(tokens@).skip(k as int));
    Some((c, args))
}

} // verus!
