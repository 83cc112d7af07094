use command_framework::builder::{ApplicationCommandTree, CommandBuilder, CommandDefinition, FrameworkOptions};
use command_framework::command::{
    Command, CommandParameter, ContextMenuCommandAction, ContextMenuTarget, FloatKind, IntKind,
    OptionType, ParameterType,
};
use command_framework::cooldown::CooldownConfig;
use command_framework::permissions::Permissions;
use command_framework::tree::{prefix_invocation, resolve, TriggerKind};

fn cmd(name: &str) -> Command<u32> {
    Command {
        prefix_action: Some(1),
        slash_action: Some(2),
        context_menu_action: None,
        subcommands: Vec::new(),
        name: name.to_string(),
        qualified_name: name.to_string(),
        identifying_name: name.to_string(),
        category: None,
        hide_in_help: false,
        inline_help: None,
        cooldowns: CooldownConfig::none(),
        reuse_response: false,
        required_permissions: Permissions::empty(),
        required_bot_permissions: Permissions::empty(),
        owners_only: false,
        guild_only: false,
        dm_only: false,
        nsfw_only: false,
        check: None,
        parameters: Vec::new(),
        aliases: Vec::new(),
        invoke_on_edit: false,
        broadcast_typing: false,
        context_menu_name: None,
        ephemeral: false,
    }
}

fn param(name: &str, kind: ParameterType, optional: bool) -> CommandParameter {
    CommandParameter {
        name: name.to_string(),
        description: format!("the {}", name),
        kind,
        optional,
        variadic: false,
        flag: false,
        autocomplete: false,
    }
}

fn path(tokens: &[&str]) -> Vec<String> {
    tokens.iter().map(|t| t.to_string()).collect()
}

fn role_tree() -> Vec<Command<u32>> {
    let mut role = cmd("role");
    role.subcommands.push(cmd("add"));
    role.subcommands.push(cmd("remove"));
    let mut ping = cmd("ping");
    ping.aliases.push("p".to_string());
    vec![ping, role]
}

#[test]
fn resolve_descends_into_subcommand() {
    let roots = role_tree();
    let (c, consumed) = resolve(&roots, &path(&["role", "add"]), TriggerKind::Prefix).unwrap();
    assert_eq!(c.name, "add");
    assert_eq!(consumed, 2);
}

#[test]
fn resolve_keeps_unknown_token_as_argument() {
    let roots = role_tree();
    let tokens = path(&["role", "bogus"]);
    let (c, consumed) = resolve(&roots, &tokens, TriggerKind::Prefix).unwrap();
    assert_eq!(c.name, "role");
    assert_eq!(consumed, 1);
    assert_eq!(tokens[consumed..].to_vec(), vec!["bogus".to_string()]);
}

#[test]
fn resolve_unknown_root_is_none() {
    let roots = role_tree();
    assert!(resolve(&roots, &path(&["nothing"]), TriggerKind::Prefix).is_none());
    assert!(resolve(&roots, &Vec::new(), TriggerKind::Prefix).is_none());
}

#[test]
fn resolve_aliases_only_for_prefix() {
    let roots = role_tree();
    let (c, consumed) = resolve(&roots, &path(&["p", "x"]), TriggerKind::Prefix).unwrap();
    assert_eq!(c.name, "ping");
    assert_eq!(consumed, 1);
    assert!(resolve(&roots, &path(&["p"]), TriggerKind::Interaction).is_none());
}

#[test]
fn slash_schema_puts_optional_last() {
    let mut c = cmd("sum");
    c.parameters.push(param("a", ParameterType::Integer(IntKind::I64), false));
    c.parameters.push(param("b", ParameterType::Integer(IntKind::I64), true));
    c.parameters.push(param("c", ParameterType::Integer(IntKind::I64), false));
    let schema = c.create_as_slash_command().unwrap();
    let names: Vec<&str> = schema.options.iter().map(|o| o.name.as_str()).collect();
    assert_eq!(names, vec!["a", "c", "b"]);
    let required: Vec<bool> = schema.options.iter().map(|o| o.required).collect();
    assert_eq!(required, vec![true, true, false]);
    assert_eq!(schema.description, "A slash command");
    assert_eq!(schema.options[0].kind, OptionType::Integer);
}

#[test]
fn slash_schema_flag_is_not_required() {
    let mut c = cmd("register");
    let mut global = param("global", ParameterType::Boolean, false);
    global.flag = true;
    c.parameters.push(global);
    c.parameters.push(param("x", ParameterType::Float(FloatKind::F64), false));
    c.inline_help = Some("Registers".to_string());
    let schema = c.create_as_slash_command().unwrap();
    assert_eq!(schema.options[0].name, "x");
    assert_eq!(schema.options[1].name, "global");
    assert!(!schema.options[1].required);
    assert_eq!(schema.options[0].kind, OptionType::Number);
    assert_eq!(schema.description, "Registers");
}

#[test]
fn slash_schema_needs_slash_action() {
    let mut c = cmd("prefixonly");
    c.slash_action = None;
    assert!(c.create_as_slash_command().is_none());
}

#[test]
fn slash_schema_registers_variadic_as_optional() {
    let mut v = cmd("many");
    let mut rest = param("rest", ParameterType::Integer(IntKind::I32), false);
    rest.variadic = true;
    v.parameters.push(rest);
    v.parameters.push(param("first", ParameterType::Text, false));
    let schema = v.create_as_slash_command().unwrap();
    assert_eq!(schema.options.len(), 2);
    assert_eq!(schema.options[0].name, "first");
    assert!(schema.options[0].required);
    assert_eq!(schema.options[1].name, "rest");
    assert!(!schema.options[1].required);
    assert_eq!(schema.options[1].kind, OptionType::Integer);
}

#[test]
fn slash_schema_groups_subcommands() {
    let mut role = cmd("role");
    let mut add = cmd("add");
    add.parameters.push(param("who", ParameterType::User, false));
    let mut hidden = cmd("hidden");
    hidden.slash_action = None;
    role.subcommands.push(add);
    role.subcommands.push(hidden);
    let schema = role.create_as_slash_command().unwrap();
    assert_eq!(schema.options.len(), 1);
    assert_eq!(schema.options[0].name, "add");
    assert_eq!(schema.options[0].kind, OptionType::SubCommand);
    assert_eq!(schema.options[0].options[0].name, "who");
    assert_eq!(schema.options[0].options[0].kind, OptionType::User);

    let mut top = cmd("admin");
    top.subcommands.push(role);
    let schema = top.create_as_slash_command().unwrap();
    assert_eq!(schema.options[0].kind, OptionType::SubCommandGroup);
    assert_eq!(schema.options[0].options[0].name, "add");
}

#[test]
fn context_menu_schema() {
    let mut c = cmd("inspect");
    assert!(c.create_as_context_menu_command().is_none());
    c.context_menu_action = Some(ContextMenuCommandAction::Message(3));
    let s = c.create_as_context_menu_command().unwrap();
    assert_eq!(s.name, "inspect");
    assert_eq!(s.target, ContextMenuTarget::Message);
    c.context_menu_name = Some("Inspect message".to_string());
    c.context_menu_action = Some(ContextMenuCommandAction::User(3));
    let s = c.create_as_context_menu_command().unwrap();
    assert_eq!(s.name, "Inspect message");
    assert_eq!(s.target, ContextMenuTarget::User);
}

#[test]
fn command_category_and_subcommand() {
    let mut c = cmd("role");
    c.category("Moderation".to_string());
    assert_eq!(c.category, Some("Moderation".to_string()));
    c.subcommand(cmd("add"), |mut s| {
        s.hide_in_help = true;
        s
    });
    assert_eq!(c.subcommands.len(), 1);
    assert!(c.subcommands[0].hide_in_help);
}

fn definition(name: &str) -> CommandDefinition<u32> {
    CommandDefinition { prefix: Some(cmd(name)), slash: Some(cmd(name)), context_menu: None }
}

#[test]
fn framework_options_register_commands() {
    let mut options: FrameworkOptions<u32> = FrameworkOptions::default();
    options.on_error = Some(11);
    options.owners.push(5);
    assert!(options.allowed_mentions.unwrap().users);
    assert!(!options.allowed_mentions.unwrap().everyone);
    options.command(definition("vote"), |mut b: CommandBuilder<u32>| {
        b.category("Fun".to_string());
        b
    });
    let mut menu = cmd("inspect");
    menu.context_menu_action = Some(ContextMenuCommandAction::User(4));
    options.command(
        CommandDefinition { prefix: None, slash: None, context_menu: Some(menu) },
        |b| b,
    );
    assert_eq!(options.on_error, Some(11));
    assert_eq!(options.owners, vec![5]);
    assert!(options.allowed_mentions.unwrap().users);
    assert_eq!(options.prefix_options.commands.len(), 1);
    assert_eq!(options.prefix_options.commands[0].category, Some("Fun".to_string()));
    assert_eq!(options.application_options.commands.len(), 2);
    assert!(matches!(options.application_options.commands[0], ApplicationCommandTree::Slash(_)));
    assert!(matches!(options.application_options.commands[1], ApplicationCommandTree::ContextMenu(_)));
}

#[test]
fn builder_subcommand_nests_both_forms() {
    let mut options: FrameworkOptions<u32> = FrameworkOptions::default();
    options.command(definition("role"), |mut b| {
        b.subcommand(definition("add"), |s| s);
        b
    });
    let prefix = &options.prefix_options.commands[0];
    assert_eq!(prefix.subcommands.len(), 1);
    assert_eq!(prefix.subcommands[0].name, "add");
    match &options.application_options.commands[0] {
        ApplicationCommandTree::Slash(c) => {
            assert_eq!(c.subcommands[0].name, "add");
            let schema = c.create_as_slash_command().unwrap();
            assert_eq!(schema.options[0].kind, OptionType::SubCommand);
        }
        _ => panic!("expected a slash command"),
    }
}

#[test]
fn prefix_message_names_command_and_arguments() {
    let roots = role_tree();
    let (c, args) = prefix_invocation(&roots, "~", "~role add  @ferris now").unwrap();
    assert_eq!(c.name, "add");
    assert_eq!(args, vec!["@ferris".to_string(), "now".to_string()]);
    let (c, args) = prefix_invocation(&roots, "~", "~role bogus").unwrap();
    assert_eq!(c.name, "role");
    assert_eq!(args, vec!["bogus".to_string()]);
    assert!(prefix_invocation(&roots, "~", "role add").is_none());
    assert!(prefix_invocation(&roots, "~", "~unknown").is_none());
    assert!(prefix_invocation(&roots, "~", "~").is_none());
}

#[test]
fn context_menu_needs_one_parameter() {
    let mut c = cmd("inspect");
    assert!(c.context_menu_parameter().is_none());
    c.parameters.push(param("msg", ParameterType::Text, false));
    assert_eq!(c.context_menu_parameter().unwrap().name, "msg");
    c.parameters.push(param("extra", ParameterType::Text, false));
    assert!(c.context_menu_parameter().is_none());
}
