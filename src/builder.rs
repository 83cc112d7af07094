//! Framework configuration and the builder that registers command definitions.

use vstd::prelude::*;
use crate::command::Command;

verus! {

/// The prefix, slash and context-menu forms of one command, each optional.
pub struct CommandDefinition<T> {
    pub prefix: Option<Command<T>>,
    pub slash: Option<Command<T>>,
    pub context_menu: Option<Command<T>>,
}

/// Adds meta information (category, subcommands) to a command definition being registered.
pub struct CommandBuilder<T> {
    pub prefix_command: Option<Command<T>>,
    pub slash_command: Option<Command<T>>,
    pub context_menu_command: Option<Command<T>>,
}

/// The builder that starts from `d`.
pub open spec fn builder_of<T>(d: CommandDefinition<T>) -> CommandBuilder<T> {
    CommandBuilder { prefix_command: d.prefix, slash_command: d.slash, context_menu_command: d.context_menu }
}

/// `s` with the value of `o` appended, if there is one.
pub open spec fn push_some<A>(s: Seq<A>, o: Option<A>) -> Seq<A> {
    match o {
        Some(x) => s.push(x),
        None => s,
    }
}

fn push_subcommand<T>(parent: &mut Option<Command<T>>, sub: Option<Command<T>>)
    ensures
        match (*old(parent), sub) {
            (Some(p), Some(s)) => match *final(parent) {
                Some(q) => q == (Command { subcommands: q.subcommands, ..p }) && q.subcommands@ == p.subcommands@.push(s),
                None => false,
            },
            _ => *final(parent) == *old(parent),
        },
{
    if let Some(p) = parent {
        if let Some(s) = sub {
            p.subcommands.push(s);
        }
    }
}

impl<T> CommandBuilder<T> {
    /// Assigns the help category of the prefix form.
    pub fn category(&mut self, category: String) -> (r: &mut Self)
        ensures
            r.slash_command == old(self).slash_command,
            r.context_menu_command == old(self).context_menu_command,
            r.prefix_command == match old(self).prefix_command {
                Some(c) => Some(Command { category: Some(category), ..c }),
                None => None,
            },
            *final(self) == *final(r),
    {
        if let Some(c) = &mut self.prefix_command {
            c.category = Some(category);
        }
        self
    }

    /// Adds `definition`, after passing it through `meta_builder`, as a subcommand: its prefix
    /// form under this prefix form and its slash form under this slash form. A command with
    /// subcommands registers as a subcommand group.
    pub fn subcommand(
        &mut self,
        definition: CommandDefinition<T>,
        meta_builder: impl FnOnce(CommandBuilder<T>) -> CommandBuilder<T>,
    ) -> (r: &mut Self)
        requires
            meta_builder.requires((builder_of(definition),)),
        ensures
            exists|built: CommandBuilder<T>|
                {
                    &&& meta_builder.ensures((builder_of(definition),), built)
                    &&& r.context_menu_command == old(self).context_menu_command
                    &&& match (old(self).prefix_command, built.prefix_command) {
                        (Some(p), Some(s)) => match r.prefix_command {
                            Some(q) => q == (Command { subcommands: q.subcommands, ..p })
                                && q.subcommands@ == p.subcommands@.push(s),
                            None => false,
                        },
                        _ => r.prefix_command == old(self).prefix_command,
                    }
                    &&& match (old(self).slash_command, built.slash_command) {
                        (Some(p), Some(s)) => match r.slash_command {
                            Some(q) => q == (Command { subcommands: q.subcommands, ..p })
                                && q.subcommands@ == p.subcommands@.push(s),
                            None => false,
                        },
                        _ => r.slash_command == old(self).slash_command,
                    }
                },
            *final(self) == *final(r),
    {
        let builder = CommandBuilder {
            prefix_command: definition.prefix,
            slash_command: definition.slash,
            context_menu_command: definition.context_menu,
        };
        let built = meta_builder(builder);
        push_subcommand(&mut self.prefix_command, built.prefix_command);
        push_subcommand(&mut self.slash_command, built.slash_command);
        self
    }
}

/// A registered application command.
pub enum ApplicationCommandTree<T> {
    Slash(Command<T>),
    ContextMenu(Command<T>),
}

/// Which mentions in a reply notify.
#[derive(Clone, Copy, Debug, PartialEq, Eq, Structural)]
pub struct AllowedMentions {
    pub everyone: bool,
    pub users: bool,
    pub roles: bool,
}

/// Options of the prefix surface.
pub struct PrefixFrameworkOptions<T> {
    pub commands: Vec<Command<T>>,
    /// How long responses stay editable, in milliseconds; `None` turns edit tracking off.
    pub edit_tracker_retention: Option<u64>,
}

/// Options of the interaction surface.
pub struct ApplicationFrameworkOptions<T> {
    pub commands: Vec<ApplicationCommandTree<T>>,
}

/// Framework configuration. `T` is the integrator's callback type.
pub struct FrameworkOptions<T> {
    /// Reports errors; `None` prints them.
    pub on_error: Option<T>,
    /// Runs before every command.
    pub pre_command: Option<T>,
    /// Runs after every command.
    pub post_command: Option<T>,
    /// Framework-wide admission predicate, run before a command's own.
    pub command_check: Option<T>,
    /// Default mentions policy of every reply.
    pub allowed_mentions: Option<AllowedMentions>,
    /// Runs on every platform event.
    pub listener: Option<T>,
    pub application_options: ApplicationFrameworkOptions<T>,
    pub prefix_options: PrefixFrameworkOptions<T>,
    /// Users allowed to run owners-only commands.
    pub owners: Vec<u64>,
}

impl<T> Default for FrameworkOptions<T> {
    /// No callbacks, no commands, no owners, no edit tracking, and replies that notify only
    /// the users they mention.
    fn default() -> (r: Self)
        ensures
            r.on_error is None && r.pre_command is None && r.post_command is None,
            r.command_check is None && r.listener is None,
            r.allowed_mentions == Some(AllowedMentions { everyone: false, users: true, roles: false }),
            r.application_options.commands@.len() == 0,
            r.prefix_options.commands@.len() == 0,
            r.prefix_options.edit_tracker_retention is None,
            r.owners@.len() == 0,
    {
        FrameworkOptions {
            on_error: None,
            pre_command: None,
            post_command: None,
            command_check: None,
            allowed_mentions: Some(AllowedMentions { everyone: false, users: true, roles: false }),
            listener: None,
            application_options: ApplicationFrameworkOptions { commands: Vec::new() },
            prefix_options: PrefixFrameworkOptions { commands: Vec::new(), edit_tracker_retention: None },
            owners: Vec::new(),
        }
    }
}

pub open spec fn slash_tree<T>(c: Option<Command<T>>) -> Option<ApplicationCommandTree<T>> {
    match c {
        Some(x) => Some(ApplicationCommandTree::Slash(x)),
        None => None,
    }
}

pub open spec fn context_menu_tree<T>(c: Option<Command<T>>) -> Option<ApplicationCommandTree<T>> {
    match c {
        Some(x) => Some(ApplicationCommandTree::ContextMenu(x)),
        None => None,
    }
}

impl<T> FrameworkOptions<T> {
    /// Registers `definition`, after passing it through `meta_builder`: the prefix form joins
    /// the prefix commands, the slash and context-menu forms join the application commands.
    pub fn command(
        &mut self,
        definition: CommandDefinition<T>,
        meta_builder: impl FnOnce(CommandBuilder<T>) -> CommandBuilder<T>,
    )
        requires
            meta_builder.requires((builder_of(definition),)),
        ensures
            exists|built: CommandBuilder<T>|
                {
                    &&& meta_builder.ensures((builder_of(definition),), built)
                    &&& final(self).prefix_options.commands@ == push_some(
                        old(self).prefix_options.commands@,
                        built.prefix_command,
                    )
                    &&& final(self).application_options.commands@ == push_some(
                        push_some(
                            old(self).application_options.commands@,
                            slash_tree(built.slash_command),
                        ),
                        context_menu_tree(built.context_menu_command),
                    )
                },
            final(self).on_error == old(self).on_error,
            final(self).pre_command == old(self).pre_command,
            final(self).post_command == old(self).post_command,
            final(self).command_check == old(self).command_check,
            final(self).allowed_mentions == old(self).allowed_mentions,
            final(self).listener == old(self).listener,
            final(self).owners == old(self).owners,
            final(self).prefix_options.edit_tracker_retention == old(self).prefix_options.edit_tracker_retention,
    {
        let builder = CommandBuilder {
            prefix_command: definition.prefix,
            slash_command: definition.slash,
            context_menu_command: definition.context_menu,
        };
        assert(builder == builder_of(definition));
        let built = meta_builder(builder);
        let ghost g = built;
        let ghost p0 = self.prefix_options.commands@;
        let ghost a0 = self.application_options.commands@;
        if let Some(c) = built.prefix_command {
            self.prefix_options.commands.push(c);
        }
        if let Some(c) = built.slash_command {
            self.application_options.commands.push(ApplicationCommandTree::Slash(c));
        }
        if let Some(c) = built.context_menu_command {
            self.application_options.commands.push(ApplicationCommandTree::ContextMenu(c));
        }
        assert(self.prefix_options.commands@ == push_some(p0, g.prefix_command));
        assert(self.application_options.commands@ == push_some(
            push_some(a0, slash_tree(g.slash_command)),
            context_menu_tree(g.context_menu_command),
        ));
        assert(meta_builder.ensures((builder_of(definition),), g));
    }
}

/// The framework: its prefix and its configuration.
pub struct Framework<T> {
    pub prefix: String,
    pub options: FrameworkOptions<T>,
}

impl<T> Framework<T> {
    /// The configuration.
    pub fn options(&self) -> (r: &FrameworkOptions<T>)
        ensures
            *r == self.options,
    {
        &self.options
    }
}

} // verus!
