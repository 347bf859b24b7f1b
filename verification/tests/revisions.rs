use glimbot::conf_command::{display_setting, validate_setting};
use glimbot::config::{read_uint, validate_command_prefix};
use glimbot::command::CommanderError;
use glimbot::dice::{die, parse_roll, roll_command, RollComponent, RollFailure};
use glimbot::cache::{Cache, NullEvictionStrategy};
use glimbot::glim::{message_route, MessageRoute};
use glimbot::dictionary::wiktionary_url;
use glimbot::glim_modules::{bag_module, command_hooks, incrementer_module, next_hook_step, ArgType, ConfigGen, HandlerKind, HookStep};
use glimbot::legacy_args::{parse_config_args, parse_define_args, parse_me_args, parse_roles_args, split_on_commas, ConfigArgs, MeArgs, RolesArgs};
use glimbot::legacy_roles::{no_such_user, roles_args_readable, roles_reply, Roles, RolesAction, RolesStep};
use glimbot::info::Me;
use glimbot::moderation::{ActionKind, ModAction};
use glimbot::roles::{user_lookup, user_text_readable, JoinableRoles, UserLookup, MAX_JOINABLE_ROLES};
use glimbot::settings::SettingKind;
use glimbot::status::{status_fields, CacheStats};

#[test]
fn subtraction_groups_to_the_left() {
    let r = parse_roll("10 - 2 - 3").unwrap();
    assert_eq!(r.eval().sum(), 5);
    let r = parse_roll("(10 - 2) - 3").unwrap();
    assert_eq!(r.eval().sum(), 5);
    let r = parse_roll("10 - (2 - 3)").unwrap();
    assert_eq!(r.eval().sum(), 11);
    let r = parse_roll("1 + 2 - 3 + 4").unwrap();
    assert_eq!(r.eval().sum(), 4);
}

#[test]
fn roll_command_outcomes() {
    let r = roll_command("3 + 4").unwrap().unwrap();
    assert_eq!(r.sum(), 7);
    let r = roll_command("2d1").unwrap().unwrap();
    assert_eq!(r.sum(), 2);
    assert!(matches!(roll_command("1001d6"), Some(Err(RollFailure::Invalid(_)))));
    assert!(matches!(roll_command("5 +"), Some(Err(RollFailure::Parse(_)))));
    assert!(roll_command("1d0").is_none());
    assert!(parse_roll("1d0").unwrap().valid().is_ok());
    assert!(!parse_roll("1d0").unwrap().well_formed());
    assert!(parse_roll("2d6 + 1").unwrap().well_formed());
}

#[test]
fn command_prefix_is_one_symbol() {
    assert!(validate_command_prefix("?"));
    assert!(!validate_command_prefix("??"));
    assert!(!validate_command_prefix("x"));
}

#[test]
fn unsigned_integers_read() {
    assert_eq!(read_uint("+42", u64::MAX).unwrap(), 42);
    assert_eq!(read_uint("007", u64::MAX).unwrap(), 7);
    assert_eq!(read_uint("", u64::MAX).unwrap_err(), "cannot parse integer from empty string");
    assert_eq!(read_uint("4a", u64::MAX).unwrap_err(), "invalid digit found in string");
    assert_eq!(read_uint("300", 255).unwrap_err(), "number too large to fit in target type");
}

#[test]
fn settings_are_validated_by_kind() {
    let roles = vec![(10u64, "muted".to_string()), (11u64, "mods".to_string())];
    let channels = vec![(20u64, "log".to_string())];
    assert_eq!(validate_setting(SettingKind::Char, "!", None, None).unwrap(), "!");
    let e = validate_setting(SettingKind::Char, "abc", None, None).unwrap_err();
    assert_eq!(e.message(), "too many characters in string");
    assert!(e.is_user_error());
    assert_eq!(validate_setting(SettingKind::Char, "", None, None).unwrap_err().message(), "cannot parse char from empty string");
    assert_eq!(validate_setting(SettingKind::Bool, "true", None, None).unwrap(), "true");
    assert!(validate_setting(SettingKind::Bool, "yes", None, None).is_err());
    assert_eq!(validate_setting(SettingKind::U64, "+0012", None, None).unwrap(), "12");
    assert_eq!(validate_setting(SettingKind::Role, "muted", Some(&roles), None).unwrap(), "10");
    assert_eq!(validate_setting(SettingKind::Role, "<@&11>", Some(&roles), None).unwrap(), "11");
    assert_eq!(validate_setting(SettingKind::Role, "garbage", Some(&roles), None).unwrap_err().message(), "There is no such role in this guild.");
    let e = validate_setting(SettingKind::Role, "muted", None, None).unwrap_err();
    assert_eq!(e.message(), "Couldn't find guild in cache.");
    assert!(e.is_user_error());
    assert_eq!(validate_setting(SettingKind::Channel, "log", None, Some(&channels)).unwrap(), "20");
    assert_eq!(validate_setting(SettingKind::Channel, "<#20>", None, Some(&channels)).unwrap(), "20");
    assert_eq!(validate_setting(SettingKind::Channel, "<#21>", None, Some(&channels)).unwrap_err().message(), "No such channel in this guild.");
}

#[test]
fn define_arguments() {
    let a = parse_define_args("cat").unwrap();
    assert_eq!(a.word, "cat");
    assert!(a.pos.is_empty());
    assert_eq!(a.skip, 0);
    let a = parse_define_args("-p noun,verb -s 2 'ice cream'").unwrap();
    assert_eq!(a.word, "ice cream");
    assert_eq!(a.pos, vec!["noun".to_string(), "verb".to_string()]);
    assert_eq!(a.skip, 2);
    let a = parse_define_args("dog -pnoun --skip=3").unwrap();
    assert_eq!(a.pos, vec!["noun".to_string()]);
    assert_eq!(a.skip, 3);
    assert_eq!(parse_define_args("").unwrap_err().message(), "The following required argument was not provided: WORD");
    assert_eq!(parse_define_args("a b").unwrap_err().message(), "Found argument 'b' which wasn't expected");
    assert_eq!(parse_define_args("a -x").unwrap_err().message(), "Found argument '-x' which wasn't expected");
    assert_eq!(parse_define_args("a -s").unwrap_err().message(), "The argument '-s' requires a value but none was supplied");
    assert_eq!(parse_define_args("a -s 1 -s 2").unwrap_err().message(), "The argument '-s' was provided more than once");
    assert_eq!(parse_define_args("a -s x").unwrap_err().message(), "Invalid value for '-s': invalid digit found in string");
    assert!(parse_define_args("'a").unwrap_err().is_user_error());
    assert_eq!(split_on_commas("a,,b"), vec!["a".to_string(), "".to_string(), "b".to_string()]);
}

#[test]
fn config_arguments() {
    assert_eq!(parse_config_args("set prefix !").unwrap(), ConfigArgs::SetValue { key: "prefix".to_string(), value: "!".to_string() });
    assert_eq!(parse_config_args("get prefix").unwrap(), ConfigArgs::Get { key: "prefix".to_string() });
    assert_eq!(parse_config_args("help prefix").unwrap(), ConfigArgs::Help { key: "prefix".to_string() });
    assert_eq!(parse_config_args("").unwrap_err().message(), "A subcommand is required: set, get or help");
    assert_eq!(parse_config_args("set prefix").unwrap_err().message(), "The subcommand 'set' is missing required arguments");
    assert_eq!(parse_config_args("get a b").unwrap_err().message(), "Found argument 'b' which wasn't expected");
    assert_eq!(parse_config_args("drop a").unwrap_err().message(), "Found argument 'drop' which wasn't expected");
}

#[test]
fn hook_chain_steps() {
    let hooks = vec![HandlerKind::Command, HandlerKind::Message, HandlerKind::Command, HandlerKind::Message];
    assert_eq!(next_hook_step(&hooks, None), HookStep::RunMessageHook(1));
    assert_eq!(next_hook_step(&hooks, Some((1, false))), HookStep::RunMessageHook(3));
    assert_eq!(next_hook_step(&hooks, Some((1, true))), HookStep::Stop);
    assert_eq!(next_hook_step(&hooks, Some((3, false))), HookStep::RunCommandHooks);
    assert_eq!(command_hooks(&hooks), vec![0, 2]);
}

#[test]
fn module_declarations() {
    let m = incrementer_module();
    assert_eq!(m.default_config(), ConfigGen::Empty);
    assert_eq!(m.commands()[1].name, "inc");
    assert_eq!(m.commands()[1].required, vec![ArgType::Str]);
    assert_eq!(m.commands()[0].optional, vec![ArgType::Int]);
    let b = bag_module();
    assert_eq!(b.default_config(), ConfigGen::Bag);
    assert_eq!(b.commands()[0].required, vec![ArgType::Str]);
}

#[test]
fn user_mentions_that_cannot_be_sliced() {
    assert!(!user_text_readable("<@é"));
    assert!(!user_text_readable("<@!12é"));
    assert!(user_text_readable("<@123>"));
    assert!(user_text_readable("é"));
    assert_eq!(user_lookup("<@123>"), UserLookup::ById(123));
    assert_eq!(user_lookup("<@!123>"), UserLookup::ById(123));
    assert_eq!(user_lookup("bob"), UserLookup::ByName);
}

#[test]
fn joinable_roles_stay_sorted_and_bounded() {
    let mut j = JoinableRoles::new();
    j.add(30).unwrap();
    j.add(10).unwrap();
    j.add(20).unwrap();
    assert_eq!(j.roles(), &vec![10, 20, 30]);
    assert_eq!(j.add(20).unwrap_err().message(), "This role is already joinable.");
    j.remove(20);
    assert_eq!(j.roles(), &vec![10, 30]);
    assert!(j.contains(30) && !j.contains(20));
    let mut full = JoinableRoles::new();
    for r in 0..MAX_JOINABLE_ROLES as u64 {
        full.add(r).unwrap();
    }
    assert_eq!(full.add(1000).unwrap_err().message(), "Can't add more roles to joinable; you have too many!");
}

#[test]
fn bans_delete_at_most_a_week() {
    let a = ModAction::new(1, "u".to_string(), 2, 3, 4, ActionKind::Ban);
    let a = a.with_deletion_days(Some(3)).unwrap();
    assert_eq!(a.deletion_days, Some(3));
    let b = ModAction::new(1, "u".to_string(), 2, 3, 4, ActionKind::Ban);
    assert_eq!(b.with_deletion_days(Some(8)).unwrap_err().message(), "Messages can be deleted for at most 7 days.");
}

#[test]
fn status_report_fields() {
    let f = status_fields("0.50".to_string(), 4 * 1024 * 1024, 1024 * 1024, CacheStats { accesses: 9, misses: 2 }, 61, 3600, 0, 1, 5);
    let names: Vec<&str> = f.iter().map(|(n, _)| n.as_str()).collect();
    assert_eq!(names, vec!["CPU Load", "Memory Usage", "Cache Statistics (misses/accesses)", "Uptime", "Sys Uptime", "Shard Id", "Shard Count", "Commands Seen"]);
    assert_eq!(f[1].1, "    3 /     4 MiB");
    assert_eq!(f[2].1, "2 / 9");
    assert_eq!(f[3].1, "1m 1s");
    assert_eq!(f[4].1, "1h");
    assert_eq!(f[6].1, "1");
}

#[test]
fn stored_settings_are_shown() {
    assert_eq!(display_setting(SettingKind::Role, "10"), "<@&10>");
    assert_eq!(display_setting(SettingKind::Channel, "20"), "<#20>");
    assert_eq!(display_setting(SettingKind::Char, "!"), "!");
}

#[test]
fn ids_read_from_mentions_and_numbers() {
    let roles = vec![(5u64, "five".to_string())];
    assert_eq!(validate_setting(SettingKind::Role, "+5", Some(&roles), None).unwrap(), "5");
    assert_eq!(validate_setting(SettingKind::Role, "<@&5>", Some(&roles), None).unwrap(), "5");
    assert_eq!(validate_setting(SettingKind::Role, "<@&5", Some(&roles), None).unwrap_err().message(), "There is no such role in this guild.");
    assert_eq!(user_lookup("<@5x"), UserLookup::ById(5));
    assert_eq!(user_lookup("<@x"), UserLookup::ByName);
    assert_eq!(user_lookup("<@55"), UserLookup::ById(5));
}

#[test]
fn dice_read_by_pattern() {
    assert_eq!(die("3d6").unwrap(), RollComponent::Dice { num_dice: 3, die_type: 6 });
    assert_eq!(die("roll 2d20 now").unwrap(), RollComponent::Dice { num_dice: 2, die_type: 20 });
    assert_eq!(die("x").unwrap_err(), CommanderError::RuntimeError("x is not a valid die".to_string()));
    assert_eq!(die("99999999999d6").unwrap_err(), CommanderError::OtherError("number too large to fit in target type".to_string()));
}

#[test]
fn cache_updates_apply_the_function() {
    let mut c: Cache<u32, NullEvictionStrategy> = Cache::null();
    assert!(c.update_and_fetch(1, 0, |v: Option<&u32>| Some(v.map_or(1, |x| x + 1))).map(|e| *e.value()) == Some(1));
    assert!(c.update_and_fetch(1, 0, |v: Option<&u32>| Some(v.map_or(1, |x| x + 1))).map(|e| *e.value()) == Some(2));
    assert!(c.fetch_and_update(1, 0, |v: Option<&u32>| Some(v.map_or(1, |x| x * 10))).map(|e| *e.value()) == Some(2));
    assert_eq!(*c.get(1, 0).unwrap().value(), 20);
    assert!(c.fetch_and_update(1, 0, |_: Option<&u32>| None).map(|e| *e.value()) == Some(20));
    assert!(c.get(1, 0).is_none());
    let d = c.get_or_insert_default(5, 0);
    assert_eq!(*d.value(), 0);
    c.insert(6, 9, 0);
    c.reset(6, 0);
    assert_eq!(*c.get(6, 0).unwrap().value(), 0);
}

#[test]
fn older_dispatcher_routes_messages() {
    assert_eq!(message_route(7, 7, true, &vec![true]), MessageRoute::OwnMessage);
    assert_eq!(message_route(1, 7, false, &vec![]), MessageRoute::NoGuild);
    assert_eq!(message_route(1, 7, true, &vec![false, true, true]), MessageRoute::StoppedAt(1));
    assert_eq!(message_route(1, 7, true, &vec![false, false]), MessageRoute::Commands);
}

#[test]
fn wiktionary_links_are_percent_encoded() {
    assert_eq!(wiktionary_url("ice cream"), "https://en.wiktionary.org/wiki/ice%20cream");
    assert_eq!(wiktionary_url("café"), "https://en.wiktionary.org/wiki/caf%C3%A9");
}

#[test]
fn roles_arguments() {
    assert_eq!(parse_roles_args("mods add-user bob").unwrap(), RolesArgs::AddUser { role: "mods".to_string(), user: "bob".to_string() });
    assert_eq!(parse_roles_args("mods rem-user '<@5>'").unwrap(), RolesArgs::RemoveUser { role: "mods".to_string(), user: "<@5>".to_string() });
    assert_eq!(parse_roles_args("mods set-joinable").unwrap(), RolesArgs::SetJoinable { role: "mods".to_string(), joinable: true });
    assert_eq!(parse_roles_args("mods set-joinable false").unwrap(), RolesArgs::SetJoinable { role: "mods".to_string(), joinable: false });
    assert_eq!(parse_roles_args("mods set-joinable maybe").unwrap_err().message(), "Invalid value for '<JOINABLE>': provided string was not `true` or `false`");
    assert_eq!(parse_roles_args("mods").unwrap_err().message(), "A role and a subcommand are required: add-user, rem-user or set-joinable");
    assert_eq!(parse_roles_args("mods add-user").unwrap_err().message(), "The subcommand 'add-user' is missing required arguments");
    assert_eq!(parse_roles_args("mods kick bob").unwrap_err().message(), "Found argument 'kick' which wasn't expected");
    assert_eq!(parse_roles_args("\"mods").unwrap_err().message(), "An error occurred while parsing the arguments string: missing closing quote");
}

#[test]
fn me_arguments() {
    assert_eq!(parse_me_args("join-role red").unwrap(), MeArgs::JoinRole { role: "red".to_string() });
    assert_eq!(parse_me_args("leave-role 'dark red'").unwrap(), MeArgs::LeaveRole { role: "dark red".to_string() });
    assert_eq!(parse_me_args("").unwrap_err().message(), "A subcommand is required: join-role or leave-role");
    assert_eq!(parse_me_args("join-role").unwrap_err().message(), "The subcommand 'join-role' is missing required arguments");
    assert_eq!(parse_me_args("join-role a b").unwrap_err().message(), "Found argument 'b' which wasn't expected");
}

#[test]
fn roles_command_decisions() {
    let roles = vec![(10u64, "red".to_string()), (11u64, "mods".to_string())];
    let a = Roles::action(&RolesArgs::SetJoinable { role: "red".to_string(), joinable: true }, &roles).unwrap();
    assert_eq!(a, RolesAction::SetJoinable { role: 10, joinable: true });
    assert_eq!(roles_reply(a.step()), "Role updated.");
    let args = RolesArgs::AddUser { role: "<@&11>".to_string(), user: "<@42>".to_string() };
    assert!(roles_args_readable(&args));
    let a = Roles::action(&args, &roles).unwrap();
    assert_eq!(a, RolesAction::AddRole { role: 11, user: UserLookup::ById(42) });
    assert_eq!(roles_reply(a.step()), "Added role to user.");
    let a = Roles::action(&RolesArgs::RemoveUser { role: "11".to_string(), user: "bob".to_string() }, &roles).unwrap();
    assert_eq!(a, RolesAction::RemoveRole { role: 11, user: UserLookup::ByName });
    assert_eq!(roles_reply(RolesStep::RemovedRole), "Removed role from user.");
    let e = Roles::action(&RolesArgs::SetJoinable { role: "blue".to_string(), joinable: true }, &roles).unwrap_err();
    assert_eq!(e.message(), "The action is forbidden: No such role.");
    assert!(e.is_user_error());
    assert_eq!(no_such_user().message(), "The action is forbidden: No such user.");
    assert!(!roles_args_readable(&RolesArgs::AddUser { role: "red".to_string(), user: "<@é".to_string() }));
}

#[test]
fn me_command_decisions() {
    let roles = vec![(10u64, "red".to_string()), (11u64, "mods".to_string())];
    assert_eq!(Me::role("red", &roles).unwrap(), (10, "red".to_string()));
    assert_eq!(Me::role("<@&11>", &roles).unwrap(), (11, "mods".to_string()));
    assert_eq!(Me::role("blue", &roles).unwrap_err().message(), "No such role could be identified in this guild: blue");
    assert_eq!(Me::reply(true, true, "red").unwrap(), "Joined role red");
    assert!(Me::reply(false, true, "red").is_err());
}
