//! The command descriptor, its parameters, and the registration schema derived from them.

use vstd::prelude::*;
use crate::cooldown::CooldownConfig;
use crate::permissions::Permissions;

verus! {

/// Width and signedness of an integer parameter.
#[derive(Clone, Copy, Debug, PartialEq, Eq, Structural)]
pub enum IntKind {
    I8,
    I16,
    I32,
    I64,
    U8,
    U16,
    U32,
    U64,
}

/// Precision of a floating-point parameter.
#[derive(Clone, Copy, Debug, PartialEq, Eq, Structural)]
pub enum FloatKind {
    F32,
    F64,
}

/// Semantic type of a command parameter.
#[derive(Clone, Copy, Debug, PartialEq, Eq, Structural)]
pub enum ParameterType {
    Text,
    Boolean,
    Integer(IntKind),
    Float(FloatKind),
    User,
    Channel,
    Role,
}

/// Describes one parameter of a command.
#[derive(Clone, Debug)]
pub struct CommandParameter {
    pub name: String,
    pub description: String,
    pub kind: ParameterType,
    /// May be absent.
    pub optional: bool,
    /// Repeatable; consumes the rest of the input.
    pub variadic: bool,
    /// Boolean set by the presence of a literal token.
    pub flag: bool,
    /// Has an autocomplete callback.
    pub autocomplete: bool,
}

impl CommandParameter {
    pub open spec fn spec_is_required(&self) -> bool {
        !self.optional && !self.variadic && !self.flag
    }

    /// Whether a value must be supplied for this parameter.
    #[verifier::when_used_as_spec(spec_is_required)]
    pub fn is_required(&self) -> (r: bool)
        ensures
            r == self.spec_is_required(),
    {
        !self.optional && !self.variadic && !self.flag
    }

    /// The interaction option that registers this parameter. A variadic parameter registers
    /// as an optional option of its element kind.
    pub fn create_as_slash_command_option(&self) -> (r: CommandOptionSchema)
        ensures
            describes_parameter(r, *self),
    {
        CommandOptionSchema {
            name: self.name.clone(),
            description: self.description.clone(),
            kind: option_type_of_exec(self.kind),
            required: self.is_required(),
            autocomplete: self.autocomplete,
            options: Vec::new(),
        }
    }
}

/// Which item a context-menu command acts on, with its action.
#[derive(Clone, Copy, Debug, PartialEq, Eq, Structural)]
pub enum ContextMenuCommandAction<T> {
    User(T),
    Message(T),
}

/// The unit of registration.
///
/// `T` is the integrator's type-erased callback; the framework only decides which one runs.
#[derive(Debug)]
pub struct Command<T> {
    /// Runs when the command is invoked by a prefix message.
    pub prefix_action: Option<T>,
    /// Runs when the command is invoked as a slash command.
    pub slash_action: Option<T>,
    /// Runs when the command is invoked from a context menu.
    pub context_menu_action: Option<ContextMenuCommandAction<T>>,
    /// Subcommands, in dispatch order.
    pub subcommands: Vec<Command<T>>,
    pub name: String,
    /// Full name including parent command names.
    pub qualified_name: String,
    /// Identifies the command within a list of commands.
    pub identifying_name: String,
    pub category: Option<String>,
    pub hide_in_help: bool,
    pub inline_help: Option<String>,
    pub cooldowns: CooldownConfig,
    /// Edit the previous response instead of sending a new one.
    pub reuse_response: bool,
    pub required_permissions: Permissions,
    pub required_bot_permissions: Permissions,
    pub owners_only: bool,
    pub guild_only: bool,
    pub dm_only: bool,
    pub nsfw_only: bool,
    /// Command-specific admission predicate.
    pub check: Option<T>,
    pub parameters: Vec<CommandParameter>,
    /// Alternative names (prefix only).
    pub aliases: Vec<String>,
    pub invoke_on_edit: bool,
    pub broadcast_typing: bool,
    pub context_menu_name: Option<String>,
    pub ephemeral: bool,
}

/// Kind of a registered interaction option.
#[derive(Clone, Copy, Debug, PartialEq, Eq, Structural)]
pub enum OptionType {
    SubCommand,
    SubCommandGroup,
    String,
    Integer,
    Boolean,
    User,
    Channel,
    Role,
    Number,
}

/// One option of a registration schema: a parameter, a subcommand or a group.
#[derive(Debug)]
pub struct CommandOptionSchema {
    pub name: String,
    pub description: String,
    pub kind: OptionType,
    pub required: bool,
    pub autocomplete: bool,
    pub options: Vec<CommandOptionSchema>,
}

/// Registration schema of a slash command.
#[derive(Debug)]
pub struct SlashCommandSchema {
    pub name: String,
    pub description: String,
    pub options: Vec<CommandOptionSchema>,
}

/// Item kind that a context-menu entry is shown on.
#[derive(Clone, Copy, Debug, PartialEq, Eq, Structural)]
pub enum ContextMenuTarget {
    User,
    Message,
}

/// Registration schema of a context-menu command.
#[derive(Clone, Debug)]
pub struct ContextMenuSchema {
    pub name: String,
    pub target: ContextMenuTarget,
}

pub open spec fn option_type_of(k: ParameterType) -> OptionType {
    match k {
        ParameterType::Text => OptionType::String,
        ParameterType::Boolean => OptionType::Boolean,
        ParameterType::Integer(_) => OptionType::Integer,
        ParameterType::Float(_) => OptionType::Number,
        ParameterType::User => OptionType::User,
        ParameterType::Channel => OptionType::Channel,
        ParameterType::Role => OptionType::Role,
    }
}

fn option_type_of_exec(k: ParameterType) -> (r: OptionType)
    ensures
        r == option_type_of(k),
{
    match k {
        ParameterType::Text => OptionType::String,
        ParameterType::Boolean => OptionType::Boolean,
        ParameterType::Integer(_) => OptionType::Integer,
        ParameterType::Float(_) => OptionType::Number,
        ParameterType::User => OptionType::User,
        ParameterType::Channel => OptionType::Channel,
        ParameterType::Role => OptionType::Role,
    }
}

/// `o` is the option that registers parameter `p`.
pub open spec fn describes_parameter(o: CommandOptionSchema, p: CommandParameter) -> bool {
    &&& o.name@ == p.name@
    &&& o.description@ == p.description@
    &&& o.kind == option_type_of(p.kind)
    &&& o.required == p.spec_is_required()
    &&& o.autocomplete == p.autocomplete
    &&& o.options@.len() == 0
}

/// The required parameters among the first `n`, in declaration order.
pub open spec fn required_prefix(ps: Seq<CommandParameter>, n: int) -> Seq<CommandParameter>
    decreases n,
{
    if n <= 0 {
        Seq::empty()
    } else if ps[n - 1].spec_is_required() {
        required_prefix(ps, n - 1).push(ps[n - 1])
    } else {
        required_prefix(ps, n - 1)
    }
}

/// The parameters that are not required among the first `n`, in declaration order.
pub open spec fn optional_prefix(ps: Seq<CommandParameter>, n: int) -> Seq<CommandParameter>
    decreases n,
{
    if n <= 0 {
        Seq::empty()
    } else if !ps[n - 1].spec_is_required() {
        optional_prefix(ps, n - 1).push(ps[n - 1])
    } else {
        optional_prefix(ps, n - 1)
    }
}

/// Parameters in registration order: required ones first, each group in declaration order.
pub open spec fn slash_parameter_order(ps: Seq<CommandParameter>) -> Seq<CommandParameter> {
    required_prefix(ps, ps.len() as int) + optional_prefix(ps, ps.len() as int)
}

proof fn lemma_prefix_groups(ps: Seq<CommandParameter>, n: int)
    requires
        0 <= n <= ps.len(),
    ensures
        required_prefix(ps, n).len() + optional_prefix(ps, n).len() == n,
        forall|i: int|
            0 <= i < required_prefix(ps, n).len() ==> (#[trigger] required_prefix(ps, n)[i]).spec_is_required(),
        forall|i: int|
            0 <= i < optional_prefix(ps, n).len() ==> !(#[trigger] optional_prefix(ps, n)[i]).spec_is_required(),
    decreases n,
{
    if n > 0 {
        lemma_prefix_groups(ps, n - 1);
        let r = required_prefix(ps, n - 1);
        let o = optional_prefix(ps, n - 1);
        assert forall|i: int| 0 <= i < required_prefix(ps, n).len() implies (#[trigger] required_prefix(
            ps,
            n,
        )[i]).spec_is_required() by {
            if i < r.len() {
                assert(required_prefix(ps, n)[i] == r[i]);
            }
        }
        assert forall|i: int| 0 <= i < optional_prefix(ps, n).len() implies !(#[trigger] optional_prefix(
            ps,
            n,
        )[i]).spec_is_required() by {
            if i < o.len() {
                assert(optional_prefix(ps, n)[i] == o[i]);
            }
        }
    }
}

/// Registration order keeps every parameter and puts every required parameter before every
/// optional one; within each group the declaration order stays.
pub proof fn lemma_slash_order_required_first(ps: Seq<CommandParameter>)
    ensures
        slash_parameter_order(ps).len() == ps.len(),
        forall|i: int, j: int|
            0 <= i < j < ps.len() && !(#[trigger] slash_parameter_order(ps)[i]).spec_is_required()
                ==> !(#[trigger] slash_parameter_order(ps)[j]).spec_is_required(),
{
    let n = ps.len() as int;
    lemma_prefix_groups(ps, n);
    let r = required_prefix(ps, n);
    let o = optional_prefix(ps, n);
    let all = slash_parameter_order(ps);
    assert forall|i: int, j: int|
        0 <= i < j < ps.len() && !(#[trigger] all[i]).spec_is_required() implies !(#[trigger] all[j]).spec_is_required() by {
        if i < r.len() {
            assert(all[i] == r[i]);
        }
        assert(j >= r.len());
        assert(all[j] == o[j - r.len()]);
    }
}

/// `os` registers the parameters `ps`, in registration order.
pub open spec fn describes_parameters(os: Seq<CommandOptionSchema>, ps: Seq<CommandParameter>) -> bool {
    let ordered = slash_parameter_order(ps);
    &&& os.len() == ordered.len()
    &&& forall|i: int| 0 <= i < os.len() ==> describes_parameter(#[trigger] os[i], ordered[i])
}

/// The description used in the schema.
pub open spec fn help_text<T>(c: Command<T>) -> Seq<char> {
    match c.inline_help {
        Some(h) => h@,
        None => "A slash command"@,
    }
}

/// The command can be registered as a slash command (or subcommand): it has a slash action.
pub open spec fn slash_capable<T>(c: Command<T>) -> bool {
    c.slash_action is Some
}

/// `o` is the option that registers `c` as a subcommand or subcommand group.
pub open spec fn describes_subcommand<T>(o: CommandOptionSchema, c: Command<T>) -> bool
    decreases c,
{
    &&& o.name@ == c.name@
    &&& o.description@ == help_text(c)
    &&& !o.required
    &&& !o.autocomplete
    &&& if c.subcommands@.len() == 0 {
        o.kind == OptionType::SubCommand && describes_parameters(o.options@, c.parameters@)
    } else {
        o.kind == OptionType::SubCommandGroup && describes_subcommands(
            o.options@,
            c.subcommands@,
            c.subcommands@.len() as int,
        )
    }
}

/// `os` registers, in order, those of the first `n` commands of `cs` that are slash capable.
pub open spec fn describes_subcommands<T>(
    os: Seq<CommandOptionSchema>,
    cs: Seq<Command<T>>,
    n: int,
) -> bool
    decreases cs, n,
{
    if n <= 0 || n > cs.len() {
        os.len() == 0
    } else if slash_capable(cs[n - 1]) {
        &&& os.len() > 0
        &&& describes_subcommand(os.last(), cs[n - 1])
        &&& describes_subcommands(os.drop_last(), cs, n - 1)
    } else {
        describes_subcommands(os, cs, n - 1)
    }
}

/// Options for `params`, required first.
fn parameter_options(params: &Vec<CommandParameter>) -> (r: Vec<CommandOptionSchema>)
    ensures
        describes_parameters(r@, params@),
{
    let ghost ps = params@;
    let mut opts: Vec<CommandOptionSchema> = Vec::new();
    let mut i: usize = 0;
    while i < params.len()
        invariant
            ps == params@,
            0 <= i <= ps.len(),
            opts@.len() == required_prefix(ps, i as int).len(),
            forall|j: int|
                0 <= j < opts@.len() ==> describes_parameter(
                    #[trigger] opts@[j],
                    required_prefix(ps, i as int)[j],
                ),
        decreases ps.len() - i,
    {
        let param = &params[i];
        if param.is_required() {
            opts.push(param.create_as_slash_command_option());
        }
        i = i + 1;
    }
    let ghost req = required_prefix(ps, ps.len() as int);
    i = 0;
    while i < params.len()
        invariant
            ps == params@,
            req == required_prefix(ps, ps.len() as int),
            0 <= i <= ps.len(),
            opts@.len() == req.len() + optional_prefix(ps, i as int).len(),
            forall|j: int|
                0 <= j < opts@.len() ==> describes_parameter(
                    #[trigger] opts@[j],
                    (req + optional_prefix(ps, i as int))[j],
                ),
        decreases ps.len() - i,
    {
        let param = &params[i];
        if !param.is_required() {
            let ghost before = req + optional_prefix(ps, i as int);
            assert(req + optional_prefix(ps, i as int + 1) =~= before.push(ps[i as int]));
            opts.push(param.create_as_slash_command_option());
        }
        i = i + 1;
    }
    opts
}

/// Options for those of `subs` that can be registered, in order.
fn subcommand_options<T>(subs: &Vec<Command<T>>) -> (r: Vec<CommandOptionSchema>)
    ensures
        describes_subcommands(r@, subs@, subs@.len() as int),
    decreases subs@, 1nat,
{
    let mut opts: Vec<CommandOptionSchema> = Vec::new();
    let mut i: usize = 0;
    while i < subs.len()
        invariant
            0 <= i <= subs@.len(),
            describes_subcommands(opts@, subs@, i as int),
        decreases subs@.len() - i,
    {
        assert(decreases_to!(subs@ => subs@[i as int]));
        match subs[i].create_as_subcommand() {
            Some(o) => {
                let ghost before = opts@;
                opts.push(o);
                assert(opts@.drop_last() =~= before);
            },
            None => {},
        }
        i = i + 1;
    }
    opts
}

impl<T> Command<T> {
    /// Registers this command as a subcommand or subcommand group of another command.
    fn create_as_subcommand(&self) -> (r: Option<CommandOptionSchema>)
        ensures
            r is Some <==> slash_capable(*self),
            r is Some ==> describes_subcommand(r->0, *self),
        decreases *self, 0nat,
    {
        if self.slash_action.is_none() {
            return None;
        }
        let description = match &self.inline_help {
            Some(h) => h.clone(),
            None => "A slash command".to_owned(),
        };
        if self.subcommands.len() == 0 {
            Some(
                CommandOptionSchema {
                    name: self.name.clone(),
                    description,
                    kind: OptionType::SubCommand,
                    required: false,
                    autocomplete: false,
                    options: parameter_options(&self.parameters),
                },
            )
        } else {
            let options = subcommand_options(&self.subcommands);
            Some(
                CommandOptionSchema {
                    name: self.name.clone(),
                    description,
                    kind: OptionType::SubCommandGroup,
                    required: false,
                    autocomplete: false,
                    options,
                },
            )
        }
    }

    /// The slash-command registration schema of this command, or `None` if it has no slash
    /// action.
    pub fn create_as_slash_command(&self) -> (r: Option<SlashCommandSchema>)
        ensures
            r is Some <==> slash_capable(*self),
            r is Some ==> {
                let s = r->0;
                &&& s.name@ == self.name@
                &&& s.description@ == help_text(*self)
                &&& if self.subcommands@.len() == 0 {
                    describes_parameters(s.options@, self.parameters@)
                } else {
                    describes_subcommands(
                        s.options@,
                        self.subcommands@,
                        self.subcommands@.len() as int,
                    )
                }
            },
    {
        if self.slash_action.is_none() {
            return None;
        }
        let description = match &self.inline_help {
            Some(h) => h.clone(),
            None => "A slash command".to_owned(),
        };
        let options = if self.subcommands.len() == 0 {
            parameter_options(&self.parameters)
        } else {
            subcommand_options(&self.subcommands)
        };
        Some(SlashCommandSchema { name: self.name.clone(), description, options })
    }

    /// The context-menu registration schema of this command, or `None` if it has no
    /// context-menu action.
    pub fn create_as_context_menu_command(&self) -> (r: Option<ContextMenuSchema>)
        ensures
            r is Some <==> self.context_menu_action is Some,
            r is Some ==> r->0.name@ == match self.context_menu_name {
                Some(n) => n@,
                None => self.name@,
            },
            r is Some ==> r->0.target == match self.context_menu_action->0 {
                ContextMenuCommandAction::User(_) => ContextMenuTarget::User,
                ContextMenuCommandAction::Message(_) => ContextMenuTarget::Message,
            },
    {
        let target = match &self.context_menu_action {
            None => {
                return None;
            },
            Some(ContextMenuCommandAction::User(_)) => ContextMenuTarget::User,
            Some(ContextMenuCommandAction::Message(_)) => ContextMenuTarget::Message,
        };
        let name = match &self.context_menu_name {
            Some(n) => n.clone(),
            None => self.name.clone(),
        };
        Some(ContextMenuSchema { name, target })
    }

    /// The parameter a context-menu command receives its target through; `None` unless it has
    /// exactly one parameter, which is a setup error.
    pub fn context_menu_parameter(&self) -> (r: Option<&CommandParameter>)
        ensures
            r is Some <==> self.parameters@.len() == 1,
            r is Some ==> *r->0 == self.parameters@[0],
    {
        if self.parameters.len() == 1 {
            Some(&self.parameters[0])
        } else {
            None
        }
    }

    /// Sets the help category.
    pub fn category(&mut self, category: String) -> (r: &mut Self)
        ensures
            *r == (Command { category: Some(category), ..*old(self) }),
            *final(self) == *final(r),
    {
        self.category = Some(category);
        self
    }

    /// Appends `subcommand`, after passing it through `meta_builder`.
    pub fn subcommand(
        &mut self,
        subcommand: Command<T>,
        meta_builder: impl FnOnce(Command<T>) -> Command<T>,
    ) -> (r: &mut Self)
        requires
            meta_builder.requires((subcommand,)),
        ensures
            exists|built: Command<T>|
                {
                    &&& meta_builder.ensures((subcommand,), built)
                    &&& *r == (Command {
                        subcommands: r.subcommands,
                        ..*old(self)
                    })
                    &&& r.subcommands@ == old(self).subcommands@.push(built)
                },
            *final(self) == *final(r),
    {
        let built = meta_builder(subcommand);
        self.subcommands.push(built);
        self
    }
}

} // verus!
