//! The invocation context: which trigger, who sent it, where, and for which command.

use vstd::prelude::*;
use crate::args::OptionValue;
use crate::builder::Framework;
use crate::command::Command;

verus! {

/// Milliseconds from the Unix epoch to the platform's epoch, the origin of id timestamps.
pub const PLATFORM_EPOCH: i64 = 1420070400000;

/// A platform user.
#[derive(Clone, Debug)]
pub struct User {
    pub id: u64,
    pub name: String,
}

/// A text message that may trigger a prefix command.
#[derive(Clone, Debug)]
pub struct Message {
    pub id: u64,
    pub channel_id: u64,
    /// `None` in direct messages.
    pub guild_id: Option<u64>,
    pub author: User,
    pub content: String,
    /// When it was sent, in milliseconds since the Unix epoch.
    pub timestamp: i64,
    /// When it was last edited, if ever.
    pub edited_timestamp: Option<i64>,
}

/// What an interaction asks for.
#[derive(Clone, Copy, Debug, PartialEq, Eq, Structural)]
pub enum InteractionKind {
    ApplicationCommand,
    Autocomplete,
}

/// A structured invocation.
#[derive(Clone, Debug)]
pub struct Interaction {
    pub id: u64,
    pub channel_id: u64,
    pub guild_id: Option<u64>,
    pub user: User,
    pub kind: InteractionKind,
    pub options: Vec<OptionValue>,
}

/// The application command an interaction invokes.
pub enum ApplicationCommand<'a, T> {
    Slash(&'a Command<T>),
    ContextMenu(&'a Command<T>),
}

/// Context of a prefix invocation. `D` is the platform client, `U` the integrator's data.
pub struct PrefixContext<'a, D, U, T> {
    pub discord: &'a D,
    pub msg: &'a Message,
    pub framework: &'a Framework<T>,
    pub data: &'a U,
    /// `None` while no command has been resolved.
    pub command: Option<&'a Command<T>>,
}

/// Context of an interaction invocation.
pub struct ApplicationContext<'a, D, U, T> {
    pub discord: &'a D,
    pub interaction: &'a Interaction,
    pub framework: &'a Framework<T>,
    pub data: &'a U,
    pub command: ApplicationCommand<'a, T>,
}

/// Either kind of invocation context.
pub enum Context<'a, D, U, T> {
    Application(ApplicationContext<'a, D, U, T>),
    Prefix(PrefixContext<'a, D, U, T>),
}

fn copy_command<'a, T>(c: &ApplicationCommand<'a, T>) -> (r: ApplicationCommand<'a, T>)
    ensures
        r == *c,
{
    match c {
        ApplicationCommand::Slash(x) => ApplicationCommand::Slash(x),
        ApplicationCommand::ContextMenu(x) => ApplicationCommand::ContextMenu(x),
    }
}

impl<'a, D, U, T> PrefixContext<'a, D, U, T> {
    /// Another handle on the same context.
    pub fn copy(&self) -> (r: Self)
        ensures
            r == *self,
    {
        PrefixContext {
            discord: self.discord,
            msg: self.msg,
            framework: self.framework,
            data: self.data,
            command: self.command,
        }
    }
}

impl<'a, D, U, T> ApplicationContext<'a, D, U, T> {
    /// Another handle on the same context.
    pub fn copy(&self) -> (r: Self)
        ensures
            r == *self,
    {
        ApplicationContext {
            discord: self.discord,
            interaction: self.interaction,
            framework: self.framework,
            data: self.data,
            command: copy_command(&self.command),
        }
    }
}

/// The id of an invocation: an interaction's own id; a message's id, with the time of its last
/// edit in place of its creation time, so that each edit gets an id of its own.
pub open spec fn invocation_id(msg_id: u64, edited: Option<i64>) -> int {
    match edited {
        None => msg_id as int,
        Some(t) => msg_id as int % 0x40_0000 + ((t - PLATFORM_EPOCH) % 0x400_0000_0000) * 0x40_0000,
    }
}

impl<'a, D, U, T> Context<'a, D, U, T> {
    /// Another handle on the same context.
    pub fn copy(&self) -> (r: Self)
        ensures
            r == *self,
    {
        match self {
            Context::Application(c) => Context::Application(c.copy()),
            Context::Prefix(c) => Context::Prefix(c.copy()),
        }
    }

    /// The platform client.
    pub fn discord(&self) -> (r: &'a D)
        ensures
            r == match *self {
                Context::Application(c) => c.discord,
                Context::Prefix(c) => c.discord,
            },
    {
        match self {
            Context::Application(c) => c.discord,
            Context::Prefix(c) => c.discord,
        }
    }

    /// The framework.
    pub fn framework(&self) -> (r: &'a Framework<T>)
        ensures
            r == match *self {
                Context::Application(c) => c.framework,
                Context::Prefix(c) => c.framework,
            },
    {
        match self {
            Context::Application(c) => c.framework,
            Context::Prefix(c) => c.framework,
        }
    }

    /// The integrator's data.
    pub fn data(&self) -> (r: &'a U)
        ensures
            r == match *self {
                Context::Application(c) => c.data,
                Context::Prefix(c) => c.data,
            },
    {
        match self {
            Context::Application(c) => c.data,
            Context::Prefix(c) => c.data,
        }
    }

    /// The channel of the invocation.
    pub fn channel_id(&self) -> (r: u64)
        ensures
            r == match *self {
                Context::Application(c) => c.interaction.channel_id,
                Context::Prefix(c) => c.msg.channel_id,
            },
    {
        match self {
            Context::Application(c) => c.interaction.channel_id,
            Context::Prefix(c) => c.msg.channel_id,
        }
    }

    /// The guild of the invocation; `None` in direct messages.
    pub fn guild_id(&self) -> (r: Option<u64>)
        ensures
            r == match *self {
                Context::Application(c) => c.interaction.guild_id,
                Context::Prefix(c) => c.msg.guild_id,
            },
    {
        match self {
            Context::Application(c) => c.interaction.guild_id,
            Context::Prefix(c) => c.msg.guild_id,
        }
    }

    /// When the invocation was made, in milliseconds since the Unix epoch: the triggering
    /// message's time, or the time an interaction's id encodes.
    pub fn created_at(&self) -> (r: i64)
        ensures
            r == match *self {
                Context::Application(c) => c.interaction.id as int / 0x40_0000 + PLATFORM_EPOCH,
                Context::Prefix(c) => c.msg.timestamp as int,
            },
    {
        match self {
            Context::Application(c) => (c.interaction.id / 0x40_0000) as i64 + PLATFORM_EPOCH,
            Context::Prefix(c) => c.msg.timestamp,
        }
    }

    /// Who invoked.
    pub fn author(&self) -> (r: &'a User)
        ensures
            r == match *self {
                Context::Application(c) => &c.interaction.user,
                Context::Prefix(c) => &c.msg.author,
            },
    {
        match self {
            Context::Application(c) => &c.interaction.user,
            Context::Prefix(c) => &c.msg.author,
        }
    }

    /// An id that identifies this invocation; a re-run after a message edit gets a new one.
    pub fn id(&self) -> (r: u64)
        ensures
            r as int == match *self {
                Context::Application(c) => c.interaction.id as int,
                Context::Prefix(c) => invocation_id(c.msg.id, c.msg.edited_timestamp),
            },
    {
        match self {
            Context::Application(c) => c.interaction.id,
            Context::Prefix(c) => {
                let id = c.msg.id;
                match c.msg.edited_timestamp {
                    None => id,
                    Some(t) => edited_invocation_id(id, t),
                }
            },
        }
    }

    /// The command being invoked; `None` for a prefix context before resolution.
    pub fn command(&self) -> (r: Option<CommandRef<'a, T>>)
        ensures
            r == match *self {
                Context::Application(c) => Some(CommandRef::Application(c.command)),
                Context::Prefix(c) => match c.command {
                    Some(x) => Some(CommandRef::Prefix(x)),
                    None => None,
                },
            },
    {
        match self {
            Context::Application(c) => Some(CommandRef::Application(copy_command(&c.command))),
            Context::Prefix(c) => match c.command {
                Some(x) => Some(CommandRef::Prefix(x)),
                None => None,
            },
        }
    }
}

fn edited_invocation_id(id: u64, edited: i64) -> (r: u64)
    ensures
        r as int == invocation_id(id, Some(edited)),
{
    let x: i128 = edited as i128 - PLATFORM_EPOCH as i128;
    let y: u128 = (x + 0x400_0000_0000_0000_0000_0000_0000i128) as u128;
    let m: u128 = y % 0x400_0000_0000;
    proof {
        vstd::arithmetic::div_mod::lemma_mod_multiples_vanish(
            0x1_0000_0000_0000_0000int,
            x as int,
            0x400_0000_0000int,
        );
        assert(0x400_0000_0000int * 0x1_0000_0000_0000_0000int == 0x400_0000_0000_0000_0000_0000_0000int);
    }
    let low: u64 = id % 0x40_0000;
    assert(m * 0x40_0000 < 0x1_0000_0000_0000_0000) by (nonlinear_arith)
        requires
            m < 0x400_0000_0000,
    ;
    low + (m as u64) * 0x40_0000
}

/// A reference to the command of an invocation.
pub enum CommandRef<'a, T> {
    Prefix(&'a Command<T>),
    Application(ApplicationCommand<'a, T>),
}

/// The name a command shows: a context-menu command's label if it has one, else its name.
pub open spec fn shown_name<'a, T>(c: CommandRef<'a, T>) -> Seq<char> {
    match c {
        CommandRef::Prefix(x) => x.name@,
        CommandRef::Application(ApplicationCommand::Slash(x)) => x.name@,
        CommandRef::Application(ApplicationCommand::ContextMenu(x)) => match x.context_menu_name {
            Some(n) => n@,
            None => x.name@,
        },
    }
}

impl<'a, T> CommandRef<'a, T> {
    /// Another reference to the same command.
    pub fn copy(&self) -> (r: Self)
        ensures
            r == *self,
    {
        match self {
            CommandRef::Prefix(x) => CommandRef::Prefix(x),
            CommandRef::Application(x) => CommandRef::Application(copy_command(x)),
        }
    }

    /// The command's name or, for a context-menu command, its menu label.
    pub fn name(self) -> (r: &'a String)
        ensures
            r@ == shown_name(self),
    {
        match self {
            CommandRef::Prefix(x) => &x.name,
            CommandRef::Application(ApplicationCommand::Slash(x)) => &x.name,
            CommandRef::Application(ApplicationCommand::ContextMenu(x)) => match &x.context_menu_name {
                Some(n) => n,
                None => &x.name,
            },
        }
    }
}

/// Where in a prefix invocation an error arose.
pub struct PrefixCommandErrorContext<'a, D, U, T> {
    pub ctx: PrefixContext<'a, D, U, T>,
    pub command: &'a Command<T>,
    /// During a check rather than the action.
    pub while_checking: bool,
}

/// Where in an interaction invocation an error arose.
pub struct ApplicationCommandErrorContext<'a, D, U, T> {
    pub ctx: ApplicationContext<'a, D, U, T>,
    pub while_checking: bool,
}

/// Context of an error in a command, by surface.
pub enum CommandErrorContext<'a, D, U, T> {
    Prefix(PrefixCommandErrorContext<'a, D, U, T>),
    Application(ApplicationCommandErrorContext<'a, D, U, T>),
}

impl<'a, D, U, T> PrefixCommandErrorContext<'a, D, U, T> {
    /// Another handle on the same error context.
    pub fn copy(&self) -> (r: Self)
        ensures
            r == *self,
    {
        PrefixCommandErrorContext { ctx: self.ctx.copy(), command: self.command, while_checking: self.while_checking }
    }
}

impl<'a, D, U, T> ApplicationCommandErrorContext<'a, D, U, T> {
    /// Another handle on the same error context.
    pub fn copy(&self) -> (r: Self)
        ensures
            r == *self,
    {
        ApplicationCommandErrorContext { ctx: self.ctx.copy(), while_checking: self.while_checking }
    }
}

impl<'a, D, U, T> CommandErrorContext<'a, D, U, T> {
    /// Another handle on the same error context.
    pub fn copy(&self) -> (r: Self)
        ensures
            r == *self,
    {
        match self {
            CommandErrorContext::Prefix(x) => CommandErrorContext::Prefix(x.copy()),
            CommandErrorContext::Application(x) => CommandErrorContext::Application(x.copy()),
        }
    }

    /// The command whose run raised the error.
    pub fn command(&self) -> (r: CommandRef<'a, T>)
        ensures
            r == match *self {
                CommandErrorContext::Prefix(x) => CommandRef::Prefix(x.command),
                CommandErrorContext::Application(x) => CommandRef::Application(x.ctx.command),
            },
    {
        match self {
            CommandErrorContext::Prefix(x) => CommandRef::Prefix(x.command),
            CommandErrorContext::Application(x) => CommandRef::Application(copy_command(&x.ctx.command)),
        }
    }

    /// Whether the error arose in a check rather than in the action.
    pub fn while_checking(&self) -> (r: bool)
        ensures
            r == match *self {
                CommandErrorContext::Prefix(x) => x.while_checking,
                CommandErrorContext::Application(x) => x.while_checking,
            },
    {
        match self {
            CommandErrorContext::Prefix(x) => x.while_checking,
            CommandErrorContext::Application(x) => x.while_checking,
        }
    }

    /// The invocation context.
    pub fn ctx(&self) -> (r: Context<'a, D, U, T>)
        ensures
            r == match *self {
                CommandErrorContext::Prefix(x) => Context::Prefix(x.ctx),
                CommandErrorContext::Application(x) => Context::Application(x.ctx),
            },
    {
        match self {
            CommandErrorContext::Prefix(x) => Context::Prefix(x.ctx.copy()),
            CommandErrorContext::Application(x) => Context::Application(x.ctx.copy()),
        }
    }
}

/// Where an error arose.
pub enum ErrorContext<'a, D, U, T> {
    /// While setting up the integrator's data, before any invocation.
    Setup,
    /// In the event listener, on the named event.
    Listener(&'a String),
    /// In a command.
    Command(CommandErrorContext<'a, D, U, T>),
    /// In an autocomplete callback.
    Autocomplete(ApplicationCommandErrorContext<'a, D, U, T>),
}

impl<'a, D, U, T> ErrorContext<'a, D, U, T> {
    /// Another handle on the same error location.
    pub fn copy(&self) -> (r: Self)
        ensures
            r == *self,
    {
        match self {
            ErrorContext::Setup => ErrorContext::Setup,
            ErrorContext::Listener(x) => ErrorContext::Listener(x),
            ErrorContext::Command(x) => ErrorContext::Command(x.copy()),
            ErrorContext::Autocomplete(x) => ErrorContext::Autocomplete(x.copy()),
        }
    }
}

} // verus!
