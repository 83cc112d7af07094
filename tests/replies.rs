use command_framework::builder::{AllowedMentions, Framework, FrameworkOptions};
use command_framework::command::{Command, ContextMenuCommandAction};
use command_framework::context::{
    ApplicationCommand, ApplicationCommandErrorContext, ApplicationContext, CommandErrorContext,
    CommandRef, Context, ErrorContext, Interaction, InteractionKind, Message, PrefixCommandErrorContext,
    PrefixContext, User, PLATFORM_EPOCH,
};
use command_framework::cooldown::CooldownConfig;
use command_framework::permissions::Permissions;
use command_framework::reply::{
    prefix_edit, CreateReply, EditTracker, InteractionReplyState, PrefixReplyAction, ReplyRoute,
    ResponseMessage,
};

fn response(id: u64, content: &str) -> ResponseMessage {
    ResponseMessage {
        id,
        channel_id: 55,
        content: content.to_string(),
        embeds: vec!["embed".to_string()],
        components: vec!["button".to_string()],
    }
}

fn text_reply(content: &str) -> CreateReply {
    let mut r = CreateReply::new(false, None);
    r.content = Some(content.to_string());
    r
}

#[test]
fn second_reply_edits_first_response() {
    let mut tracker = EditTracker::for_timespan(3_600_000);
    let trigger = 900u64;
    match tracker.plan_prefix_reply(true, trigger, 55, 1_000, text_reply("first")) {
        PrefixReplyAction::Send { channel_id, reply } => {
            assert_eq!(channel_id, 55);
            assert_eq!(reply.content, Some("first".to_string()));
        }
        _ => panic!("first reply must send"),
    }
    tracker.record_prefix_reply(true, trigger, 1_000, false, response(77, "first"));
    assert_eq!(tracker.find_bot_response(trigger).unwrap().id, 77);

    match tracker.plan_prefix_reply(true, trigger, 55, 2_000, text_reply("second")) {
        PrefixReplyAction::Edit { message_id, channel_id, edit } => {
            assert_eq!(message_id, 77);
            assert_eq!(channel_id, 55);
            assert_eq!(edit.content, "second");
            assert!(edit.embeds.is_empty());
            assert!(edit.components.is_empty());
        }
        _ => panic!("second reply must edit"),
    }
    let mut edited = response(77, "second");
    edited.embeds.clear();
    edited.components.clear();
    tracker.record_prefix_reply(true, trigger, 1_000, true, edited);
    let kept = tracker.find_bot_response(trigger).unwrap();
    assert_eq!(kept.id, 77);
    assert_eq!(kept.content, "second");
    assert!(kept.embeds.is_empty());
}

#[test]
fn stale_or_untracked_replies_send_new_messages() {
    let mut tracker = EditTracker::for_timespan(1_000);
    tracker.set_bot_response(1, 0, response(10, "old"));
    match tracker.plan_prefix_reply(false, 1, 55, 10, text_reply("x")) {
        PrefixReplyAction::Send { .. } => {}
        _ => panic!("without reuse a reply is new"),
    }
    assert!(tracker.find_bot_response(1).is_some());
    match tracker.plan_prefix_reply(true, 1, 55, 5_000, text_reply("x")) {
        PrefixReplyAction::Send { .. } => {}
        _ => panic!("an expired entry is not edited"),
    }
    assert!(tracker.find_bot_response(1).is_none());
    tracker.record_prefix_reply(true, 1, 5_000, true, response(11, "gone"));
    assert!(tracker.find_bot_response(1).is_none());
}

#[test]
fn purge_keeps_recent_entries() {
    let mut tracker = EditTracker::for_timespan(100);
    tracker.set_bot_response(1, 0, response(10, "a"));
    tracker.set_bot_response(2, 150, response(20, "b"));
    tracker.set_bot_response(2, 150, response(21, "c"));
    tracker.purge(200);
    assert!(tracker.find_bot_response(1).is_none());
    assert_eq!(tracker.find_bot_response(2).unwrap().id, 21);
}

#[test]
fn edit_clears_what_the_reply_lacks() {
    let edit = prefix_edit(CreateReply::new(true, None));
    assert_eq!(edit.content, "");
    assert!(edit.embeds.is_empty() && edit.components.is_empty());
}

#[test]
fn interaction_replies_initial_then_follow_up() {
    let mut state = InteractionReplyState::new(false);
    let first = state.route();
    assert_eq!(first, ReplyRoute::InitialResponse);
    state.record(first, true);
    for _ in 0..3 {
        let r = state.route();
        assert_eq!(r, ReplyRoute::FollowUp);
        state.record(r, true);
    }
}

#[test]
fn failed_initial_response_is_retried_as_initial() {
    let mut state = InteractionReplyState::new(false);
    state.record(ReplyRoute::InitialResponse, false);
    assert_eq!(state.route(), ReplyRoute::InitialResponse);
}

#[test]
fn autocomplete_takes_no_reply() {
    let mut state = InteractionReplyState::new(true);
    for _ in 0..2 {
        let r = state.route();
        assert_eq!(r, ReplyRoute::Skip);
        state.record(r, true);
    }
}

fn cmd(name: &str) -> Command<u32> {
    Command {
        prefix_action: Some(1),
        slash_action: Some(2),
        context_menu_action: None,
        subcommands: Vec::new(),
        name: name.to_string(),
        qualified_name: name.to_string(),
        identifying_name: name.to_string(),
        category: None,
        hide_in_help: false,
        inline_help: None,
        cooldowns: CooldownConfig::none(),
        reuse_response: false,
        required_permissions: Permissions::empty(),
        required_bot_permissions: Permissions::empty(),
        owners_only: false,
        guild_only: false,
        dm_only: false,
        nsfw_only: false,
        check: None,
        parameters: Vec::new(),
        aliases: Vec::new(),
        invoke_on_edit: false,
        broadcast_typing: false,
        context_menu_name: None,
        ephemeral: false,
    }
}

fn message(edited: Option<i64>) -> Message {
    Message {
        id: (5_000u64 << 22) | 0x2A,
        channel_id: 55,
        guild_id: Some(100),
        author: User { id: 7, name: "ferris".to_string() },
        content: "~ping".to_string(),
        timestamp: PLATFORM_EPOCH + 5_000,
        edited_timestamp: edited,
    }
}

fn framework() -> Framework<u32> {
    Framework { prefix: "~".to_string(), options: FrameworkOptions::default() }
}

#[test]
fn prefix_context_accessors() {
    let fw = framework();
    let msg = message(None);
    let ping = cmd("ping");
    let ctx: Context<'_, (), u8, u32> = Context::Prefix(PrefixContext {
        discord: &(),
        msg: &msg,
        framework: &fw,
        data: &3u8,
        command: Some(&ping),
    });
    assert_eq!(ctx.channel_id(), 55);
    assert_eq!(ctx.guild_id(), Some(100));
    assert_eq!(ctx.author().name, "ferris");
    assert_eq!(*ctx.data(), 3);
    assert_eq!(ctx.framework().prefix, "~");
    assert_eq!(ctx.created_at(), PLATFORM_EPOCH + 5_000);
    assert_eq!(ctx.id(), msg.id);
    assert_eq!(ctx.command().unwrap().name(), "ping");
}

#[test]
fn edited_message_gets_new_invocation_id() {
    let fw = framework();
    let msg = message(Some(PLATFORM_EPOCH + 9_000));
    let ctx: Context<'_, (), u8, u32> = Context::Prefix(PrefixContext {
        discord: &(),
        msg: &msg,
        framework: &fw,
        data: &3u8,
        command: None,
    });
    assert_eq!(ctx.id(), (9_000u64 << 22) | 0x2A);
    assert!(ctx.command().is_none());
}

#[test]
fn application_context_accessors() {
    let fw = framework();
    let mut menu = cmd("inspect");
    menu.context_menu_name = Some("Inspect".to_string());
    menu.context_menu_action = Some(ContextMenuCommandAction::User(3));
    let interaction = Interaction {
        id: 1_000u64 << 22,
        channel_id: 9,
        guild_id: None,
        user: User { id: 8, name: "crab".to_string() },
        kind: InteractionKind::ApplicationCommand,
        options: Vec::new(),
    };
    let app = ApplicationContext {
        discord: &(),
        interaction: &interaction,
        framework: &fw,
        data: &0u8,
        command: ApplicationCommand::ContextMenu(&menu),
    };
    let ctx: Context<'_, (), u8, u32> = Context::Application(app.copy());
    assert_eq!(ctx.id(), 1_000u64 << 22);
    assert_eq!(ctx.created_at(), PLATFORM_EPOCH + 1_000);
    assert_eq!(ctx.guild_id(), None);
    assert_eq!(ctx.author().id, 8);
    assert_eq!(ctx.command().unwrap().name(), "Inspect");

    let err = CommandErrorContext::Application(ApplicationCommandErrorContext { ctx: app, while_checking: true });
    assert!(err.while_checking());
    assert_eq!(err.command().name(), "Inspect");
    assert_eq!(err.ctx().channel_id(), 9);
}

#[test]
fn prefix_error_context() {
    let fw = framework();
    let msg = message(None);
    let ping = cmd("ping");
    let pctx: PrefixContext<'_, (), u8, u32> = PrefixContext {
        discord: &(),
        msg: &msg,
        framework: &fw,
        data: &3u8,
        command: Some(&ping),
    };
    let err = CommandErrorContext::Prefix(PrefixCommandErrorContext { ctx: pctx, command: &ping, while_checking: false });
    assert!(!err.while_checking());
    assert!(matches!(err.command(), CommandRef::Prefix(c) if c.name == "ping"));
    assert_eq!(err.ctx().author().id, 7);
}

#[test]
fn copies_keep_the_same_context() {
    let fw = framework();
    let msg = message(None);
    let ping = cmd("ping");
    let pctx: PrefixContext<'_, (), u8, u32> = PrefixContext {
        discord: &(),
        msg: &msg,
        framework: &fw,
        data: &3u8,
        command: Some(&ping),
    };
    let ctx = Context::Prefix(pctx.copy());
    let again = ctx.copy();
    assert_eq!(again.channel_id(), 55);
    let err = ErrorContext::Command(CommandErrorContext::Prefix(PrefixCommandErrorContext {
        ctx: pctx,
        command: &ping,
        while_checking: true,
    }));
    match err.copy() {
        ErrorContext::Command(c) => {
            assert!(c.while_checking());
            assert_eq!(c.command().copy().name(), "ping");
        }
        _ => panic!("expected a command error"),
    }
    let event = "message".to_string();
    assert!(matches!(ErrorContext::<(), u8, u32>::Listener(&event).copy(), ErrorContext::Listener(e) if e == "message"));
    assert!(matches!(ErrorContext::<(), u8, u32>::Setup.copy(), ErrorContext::Setup));
}

#[test]
fn claimed_initial_response_is_exclusive() {
    let mut state = InteractionReplyState::new(false);
    let first = state.claim();
    assert_eq!(first, ReplyRoute::InitialResponse);
    let second = state.claim();
    assert_eq!(second, ReplyRoute::FollowUp);
    state.release(second, true);
    state.release(first, true);
    assert_eq!(state.route(), ReplyRoute::FollowUp);
}

#[test]
fn failed_initial_claim_is_given_back() {
    let mut state = InteractionReplyState::new(false);
    let first = state.claim();
    state.release(first, false);
    assert_eq!(state.claim(), ReplyRoute::InitialResponse);
    let mut auto = InteractionReplyState::new(true);
    assert_eq!(auto.claim(), ReplyRoute::Skip);
}

#[test]
fn replies_carry_mentions_policy() {
    let mut options: FrameworkOptions<u32> = FrameworkOptions::default();
    let mut c = cmd("say");
    c.ephemeral = true;
    let r = CreateReply::for_invocation(&c, &options);
    assert!(r.ephemeral);
    assert_eq!(r.allowed_mentions, Some(AllowedMentions { everyone: false, users: true, roles: false }));
    assert!(r.content.is_none());
    options.allowed_mentions = None;
    assert_eq!(CreateReply::for_invocation(&c, &options).allowed_mentions, None);
}
