use command_framework::args::{
    autocomplete_target, extract_slash_args, integer_json, limit_choices, parse_prefix_args,
    parse_text_value, ArgValue, ArgumentError, Autocompletable, DecodeError, JsonValue,
    OptionValue, ParsedArg, ValueError, ValueShape, MAX_AUTOCOMPLETE_CHOICES,
};
use command_framework::checks::{
    after_command_check, after_global_check, begin_checks, check_static, is_owner, CheckFailure,
    CheckStep, InvocationFacts, PredicateOutcome,
};
use command_framework::command::{Command, CommandParameter, FloatKind, IntKind, ParameterType};
use command_framework::cooldown::{CooldownConfig, CooldownContext, Cooldowns};
use command_framework::error::{cooldown_error, ErrorStage, FrameworkError};
use command_framework::permissions::Permissions;
use command_framework::text::{prefix_tokens, split_arguments};

fn cmd(name: &str) -> Command<u32> {
    Command {
        prefix_action: Some(1),
        slash_action: Some(2),
        context_menu_action: None,
        subcommands: Vec::new(),
        name: name.to_string(),
        qualified_name: name.to_string(),
        identifying_name: name.to_string(),
        category: None,
        hide_in_help: false,
        inline_help: None,
        cooldowns: CooldownConfig::none(),
        reuse_response: false,
        required_permissions: Permissions::empty(),
        required_bot_permissions: Permissions::empty(),
        owners_only: false,
        guild_only: false,
        dm_only: false,
        nsfw_only: false,
        check: None,
        parameters: Vec::new(),
        aliases: Vec::new(),
        invoke_on_edit: false,
        broadcast_typing: false,
        context_menu_name: None,
        ephemeral: false,
    }
}

fn param(name: &str, kind: ParameterType, optional: bool) -> CommandParameter {
    CommandParameter {
        name: name.to_string(),
        description: name.to_string(),
        kind,
        optional,
        variadic: false,
        flag: false,
        autocomplete: false,
    }
}

fn facts(perms: u64) -> InvocationFacts {
    InvocationFacts {
        author_id: 7,
        author_permissions: Permissions { bits: perms },
        bot_permissions: Permissions { bits: u64::MAX },
        guild_id: Some(100),
        channel_nsfw: false,
    }
}

const MANAGE_MESSAGES: u64 = 1 << 13;
const MANAGE_THREADS: u64 = 1 << 34;

#[test]
fn strict_subset_of_permissions_is_rejected() {
    let mut c = cmd("modonly");
    c.required_permissions = Permissions { bits: MANAGE_MESSAGES | MANAGE_THREADS };
    c.check = Some(9);
    let owners = vec![1u64];
    let verdict = check_static(&c, &owners, &facts(MANAGE_MESSAGES));
    assert_eq!(verdict, Err(CheckFailure::Permissions { missing: Permissions { bits: MANAGE_THREADS } }));
    let step: CheckStep<String> = begin_checks(&c, true, &owners, &facts(MANAGE_MESSAGES));
    assert_eq!(step, CheckStep::Reject(CheckFailure::Permissions { missing: Permissions { bits: MANAGE_THREADS } }));
    let ok: CheckStep<String> = begin_checks(&c, true, &owners, &facts(MANAGE_MESSAGES | MANAGE_THREADS | 1));
    assert_eq!(ok, CheckStep::RunGlobalCheck);
}

#[test]
fn checks_run_in_order() {
    let owners = vec![1u64];
    let mut c = cmd("shutdown");
    c.owners_only = true;
    c.required_permissions = Permissions { bits: MANAGE_MESSAGES };
    assert_eq!(check_static(&c, &owners, &facts(0)), Err(CheckFailure::Ownership));
    assert!(is_owner(&owners, 1));
    assert!(!is_owner(&owners, 7));

    let mut b = cmd("delete");
    b.required_bot_permissions = Permissions { bits: MANAGE_MESSAGES };
    let mut f = facts(0);
    f.bot_permissions = Permissions { bits: 0 };
    assert_eq!(
        check_static(&b, &owners, &f),
        Err(CheckFailure::BotPermissions { missing: Permissions { bits: MANAGE_MESSAGES } })
    );

    let mut g = cmd("guildname");
    g.guild_only = true;
    let mut dm = facts(0);
    dm.guild_id = None;
    assert_eq!(check_static(&g, &owners, &dm), Err(CheckFailure::GuildOnly));
    let mut d = cmd("dms");
    d.dm_only = true;
    assert_eq!(check_static(&d, &owners, &facts(0)), Err(CheckFailure::DmOnly));
    assert_eq!(check_static(&d, &owners, &dm), Ok(()));
    let mut n = cmd("lenny");
    n.nsfw_only = true;
    assert_eq!(check_static(&n, &owners, &facts(0)), Err(CheckFailure::NsfwOnly));
}

#[test]
fn predicates_decide_in_turn() {
    let mut c = cmd("ferrisparty");
    c.check = Some(5);
    let owners: Vec<u64> = Vec::new();
    assert_eq!(begin_checks::<u32, String>(&c, false, &owners, &facts(0)), CheckStep::RunCommandCheck);
    assert_eq!(after_global_check::<u32, String>(&c, PredicateOutcome::Allowed), CheckStep::RunCommandCheck);
    assert_eq!(
        after_global_check::<u32, String>(&c, PredicateOutcome::Denied),
        CheckStep::Reject(CheckFailure::CustomPredicate)
    );
    assert_eq!(
        after_command_check(PredicateOutcome::Failed("boom".to_string())),
        CheckStep::PredicateError("boom".to_string())
    );
    assert_eq!(after_command_check::<String>(PredicateOutcome::Allowed), CheckStep::CheckCooldown);
    c.check = None;
    assert_eq!(begin_checks::<u32, String>(&c, false, &owners, &facts(0)), CheckStep::CheckCooldown);
}

fn ctx() -> CooldownContext {
    CooldownContext { user_id: 7, guild_id: Some(100), channel_id: 55 }
}

#[test]
fn cooldown_rejects_within_window_and_admits_after() {
    let cfg = CooldownConfig { global: 0, user: 5000, guild: 0, channel: 0, member: 0 };
    let mut cd = Cooldowns::new();
    assert_eq!(cd.check_and_update(&cfg, &ctx(), 10_000), Ok(()));
    assert_eq!(cd.check_and_update(&cfg, &ctx(), 12_000), Err(3000));
    assert_eq!(cd.check_and_update(&cfg, &ctx(), 15_000), Ok(()));
    let other = CooldownContext { user_id: 8, guild_id: Some(100), channel_id: 55 };
    assert_eq!(cd.check_and_update(&cfg, &other, 15_001), Ok(()));
}

#[test]
fn cooldown_rejections_count_down_from_origin() {
    let cfg = CooldownConfig { global: 1000, user: 5000, guild: 2000, channel: 2000, member: 3000 };
    let mut cd = Cooldowns::new();
    assert_eq!(cd.check_and_update(&cfg, &ctx(), 1_000), Ok(()));
    assert_eq!(cd.check_and_update(&cfg, &ctx(), 2_000), Err(4000));
    assert_eq!(cd.check_and_update(&cfg, &ctx(), 3_000), Err(3000));
    assert_eq!(cd.check_and_update(&cfg, &ctx(), 5_999), Err(1));
    assert_eq!(cd.remaining_cooldown(&cfg, &ctx(), 6_000), 0);
    assert_eq!(cd.check_and_update(&cfg, &ctx(), 6_000), Ok(()));
}

#[test]
fn cooldown_scopes_outside_guilds() {
    let cfg = CooldownConfig { global: 0, user: 0, guild: 9000, channel: 0, member: 9000 };
    let dm = CooldownContext { user_id: 7, guild_id: None, channel_id: 1 };
    let mut cd = Cooldowns::new();
    assert_eq!(cd.check_and_update(&cfg, &dm, 0), Ok(()));
    assert_eq!(cd.check_and_update(&cfg, &dm, 1), Ok(()));
    assert_eq!(cd.check_and_update(&cfg, &ctx(), 2), Ok(()));
    let same_guild = CooldownContext { user_id: 9, guild_id: Some(100), channel_id: 2 };
    assert_eq!(cd.check_and_update(&cfg, &same_guild, 3), Err(8999));
}

#[test]
fn cooldown_error_maps_rejection() {
    assert!(cooldown_error::<String>(Ok(())).is_none());
    let e = cooldown_error::<String>(Err(250)).unwrap();
    assert!(matches!(e, FrameworkError::CooldownActive { remaining_ms: 250 }));
    assert_eq!(e.stage(), ErrorStage::Check);
    assert!(!e.is_fatal());
    assert!(FrameworkError::Setup("no token".to_string()).is_fatal());
}

fn toks(s: &str) -> Vec<String> {
    split_arguments(s)
}

#[test]
fn split_arguments_on_spaces() {
    assert_eq!(toks("  add 5\t3.2 \n"), vec!["add".to_string(), "5".to_string(), "3.2".to_string()]);
    assert!(toks("").is_empty());
    assert!(toks("   ").is_empty());
}

#[test]
fn prefix_tokens_after_prefix() {
    assert_eq!(prefix_tokens("~", "~role add x"), Some(vec!["role".to_string(), "add".to_string(), "x".to_string()]));
    assert_eq!(prefix_tokens("~", "role add"), None);
    assert_eq!(prefix_tokens("!!", "!"), None);
}

fn float_of(a: &ParsedArg) -> f64 {
    match a {
        ParsedArg::Value(ArgValue::Float(t)) => t.parse::<f64>().unwrap(),
        _ => panic!("not a float"),
    }
}

#[test]
fn prefix_floats() {
    let params = vec![
        param("a", ParameterType::Float(FloatKind::F64), false),
        param("b", ParameterType::Float(FloatKind::F32), false),
    ];
    let args = parse_prefix_args(&params, &toks("5 3.2")).unwrap();
    assert_eq!(float_of(&args[0]), 5.0);
    assert_eq!(float_of(&args[1]) as f32, 3.2f32);
    match &args[1] {
        ParsedArg::Value(ArgValue::Float(t)) => assert_eq!(t.parse::<f32>().unwrap(), 3.2f32),
        _ => panic!("not a float"),
    }
}

#[test]
fn prefix_empty_input_for_required_parameter() {
    let params = vec![param("a", ParameterType::Float(FloatKind::F64), false)];
    match parse_prefix_args(&params, &toks("")) {
        Err(ArgumentError::Parse { parameter, input }) => {
            assert_eq!(parameter, "a");
            assert_eq!(input, "");
        }
        _ => panic!("expected a parse failure"),
    }
}

#[test]
fn prefix_optional_flag_and_variadic() {
    let mut flag = param("global", ParameterType::Boolean, false);
    flag.flag = true;
    let mut rest = param("words", ParameterType::Text, false);
    rest.variadic = true;
    let params = vec![
        param("n", ParameterType::Integer(IntKind::U8), true),
        flag,
        rest,
    ];
    let args = parse_prefix_args(&params, &toks("global hello world")).unwrap();
    assert!(matches!(args[0], ParsedArg::Absent));
    assert!(matches!(args[1], ParsedArg::Value(ArgValue::Boolean(true))));
    match &args[2] {
        ParsedArg::List(v) => {
            assert_eq!(v.len(), 2);
            assert!(matches!(&v[0], ArgValue::Text(t) if t == "hello"));
        }
        _ => panic!("expected a list"),
    }
    let args = parse_prefix_args(&params, &toks("12")).unwrap();
    assert!(matches!(args[0], ParsedArg::Value(ArgValue::Integer(12))));
    assert!(matches!(args[1], ParsedArg::Value(ArgValue::Boolean(false))));
    assert!(matches!(&args[2], ParsedArg::List(v) if v.is_empty()));
}

#[test]
fn prefix_errors() {
    let params = vec![param("n", ParameterType::Integer(IntKind::I8), false)];
    assert!(matches!(
        parse_prefix_args(&params, &toks("300")),
        Err(ArgumentError::IntegerOutOfBounds { .. })
    ));
    assert!(matches!(
        parse_prefix_args(&params, &toks("abc")),
        Err(ArgumentError::Parse { .. })
    ));
    match parse_prefix_args(&params, &toks("-128 extra")) {
        Err(ArgumentError::TooManyArguments { input }) => assert_eq!(input, "extra"),
        _ => panic!("expected too many arguments"),
    }
    assert!(matches!(
        parse_prefix_args(&params, &toks("-128")).unwrap()[0],
        ParsedArg::Value(ArgValue::Integer(-128))
    ));
}

#[test]
fn text_values_by_kind() {
    let t = |s: &str| s.to_string();
    assert!(matches!(parse_text_value(ParameterType::Boolean, &t("true")), Ok(ArgValue::Boolean(true))));
    assert!(matches!(parse_text_value(ParameterType::Boolean, &t("yes")), Err(ValueError::Invalid)));
    assert!(matches!(parse_text_value(ParameterType::User, &t("<@!42>")), Ok(ArgValue::User(42))));
    assert!(matches!(parse_text_value(ParameterType::User, &t("<@42>")), Ok(ArgValue::User(42))));
    assert!(matches!(parse_text_value(ParameterType::User, &t("42")), Ok(ArgValue::User(42))));
    assert!(matches!(parse_text_value(ParameterType::Channel, &t("<#9>")), Ok(ArgValue::Channel(9))));
    assert!(matches!(parse_text_value(ParameterType::Role, &t("<@&8>")), Ok(ArgValue::Role(8))));
    assert!(matches!(parse_text_value(ParameterType::Role, &t("<@8>")), Err(ValueError::Invalid)));
    assert!(matches!(
        parse_text_value(ParameterType::Integer(IntKind::U64), &t("18446744073709551615")),
        Ok(ArgValue::Integer(18446744073709551615))
    ));
    assert!(matches!(
        parse_text_value(ParameterType::Integer(IntKind::U64), &t("18446744073709551616")),
        Err(ValueError::OutOfBounds)
    ));
    assert!(matches!(
        parse_text_value(ParameterType::Integer(IntKind::U32), &t("-1")),
        Err(ValueError::OutOfBounds)
    ));
    assert!(matches!(parse_text_value(ParameterType::Float(FloatKind::F64), &t("-1.5e3")), Ok(ArgValue::Float(_))));
    assert!(matches!(parse_text_value(ParameterType::Float(FloatKind::F64), &t("1.2.3")), Err(ValueError::Invalid)));
    assert!(matches!(parse_text_value(ParameterType::Float(FloatKind::F64), &t(".")), Err(ValueError::Invalid)));
    for good in ["5", "+5.", ".5", "3.2", "-1e5", "2.5E-3", "7e+2"] {
        assert!(matches!(parse_text_value(ParameterType::Float(FloatKind::F32), &t(good)), Ok(ArgValue::Float(_))), "{}", good);
    }
    for bad in ["", "-", "e5", "1e", "1e+", "1.5e3x", "--1", "1..2", "+.e1"] {
        assert!(matches!(parse_text_value(ParameterType::Float(FloatKind::F32), &t(bad)), Err(ValueError::Invalid)), "{}", bad);
    }
}

fn opt(name: &str, value: JsonValue) -> OptionValue {
    OptionValue { name: name.to_string(), value: Some(value), focused: false }
}

#[test]
fn interaction_integer_out_of_bounds() {
    let params = vec![param("n", ParameterType::Integer(IntKind::I64), false)];
    let opts = vec![opt("n", JsonValue::Number("99999999999999999999".to_string()))];
    match extract_slash_args(&params, &opts) {
        Err(ArgumentError::IntegerOutOfBounds { parameter }) => assert_eq!(parameter, "n"),
        _ => panic!("expected an out-of-bounds error"),
    }
}

#[test]
fn interaction_values_by_name() {
    let params = vec![
        param("a", ParameterType::Float(FloatKind::F64), false),
        param("who", ParameterType::User, false),
        param("note", ParameterType::Text, true),
    ];
    let opts = vec![
        opt("who", JsonValue::String("123".to_string())),
        opt("a", JsonValue::Number("2.5".to_string())),
    ];
    let args = extract_slash_args(&params, &opts).unwrap();
    assert_eq!(float_of(&args[0]), 2.5);
    assert!(matches!(args[1], ParsedArg::Value(ArgValue::User(123))));
    assert!(matches!(args[2], ParsedArg::Absent));
}

#[test]
fn interaction_structure_mismatch() {
    let params = vec![param("n", ParameterType::Integer(IntKind::I64), false)];
    let wrong = vec![opt("n", JsonValue::String("5".to_string()))];
    assert!(matches!(
        extract_slash_args(&params, &wrong),
        Err(ArgumentError::StructureMismatch { expected: ValueShape::Integer, .. })
    ));
    let missing: Vec<OptionValue> = Vec::new();
    assert!(matches!(
        extract_slash_args(&params, &missing),
        Err(ArgumentError::StructureMismatch { expected: ValueShape::Present, .. })
    ));
}

#[test]
fn autocomplete_reads_focused_partial() {
    let mut choice = param("choice", ParameterType::Text, false);
    choice.autocomplete = true;
    let mut count = param("count", ParameterType::Integer(IntKind::U8), false);
    count.autocomplete = true;
    let params = vec![choice, count];
    let mut typing = opt("count", JsonValue::String("4".to_string()));
    typing.focused = true;
    let opts = vec![opt("choice", JsonValue::String("pum".to_string())), typing];
    let (i, v) = autocomplete_target(&params, &opts).unwrap();
    assert_eq!(i, 1);
    assert!(matches!(v, ArgValue::Integer(4)));

    let mut bad = opt("count", JsonValue::String("4x".to_string()));
    bad.focused = true;
    assert!(autocomplete_target(&params, &vec![bad]).is_none());
}

#[test]
fn autocomplete_choices_are_capped() {
    let many: Vec<u32> = (0..40).collect();
    assert_eq!(limit_choices(many).len(), MAX_AUTOCOMPLETE_CHOICES);
    assert_eq!(limit_choices(vec![1, 2, 3]), vec![1, 2, 3]);
}

#[test]
fn autocompletable_round_trip() {
    match integer_json(-1234) {
        JsonValue::Number(t) => assert_eq!(t, "-1234"),
        _ => panic!("expected a number"),
    }
    match integer_json(i64::MIN) {
        JsonValue::Number(t) => assert_eq!(t, i64::MIN.to_string()),
        _ => panic!("expected a number"),
    }
    let j = 907i64.into_json();
    assert!(matches!(i64::extract_partial(&j), Ok(907)));
    assert!(matches!(i64::extract_partial(&JsonValue::Bool(true)), Err(DecodeError::Mismatch(ValueShape::Integer))));
    let s = "abc".to_string().into_json();
    assert!(matches!(String::extract_partial(&s), Ok(ref t) if t == "abc"));
    assert!(matches!(String::extract_partial(&JsonValue::Number("1".to_string())), Err(DecodeError::Mismatch(ValueShape::String))));
    assert!(matches!(
        i64::extract_partial(&JsonValue::Number("99999999999999999999".to_string())),
        Err(DecodeError::OutOfBounds)
    ));
    assert!(matches!(i64::extract_partial(&JsonValue::Number("1.5".to_string())), Err(DecodeError::Mismatch(ValueShape::Integer))));
}
