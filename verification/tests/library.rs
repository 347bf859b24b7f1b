use glimbot::bag::{add_reply, check_item, show_reply, yeet_reply, BagError};
use glimbot::cache::{TimedCache, TimedEvictionStrategy};
use glimbot::command::CommanderError;
use glimbot::conf_command::{info_reply as conf_info_reply, list_reply, set_reply};
use glimbot::config::validate_command_prefix;
use glimbot::dice::RollComponent;
use glimbot::dictionary::{effective_limit, footer, select_definitions, wiktionary_url};
use glimbot::dispatch::{command_text, error_reply, message_guild, Dispatch, NoSuchCommand};
use glimbot::error::{Error, Failure};
use glimbot::filters::{base_filter, ensure_authorized_for_role, needs_privilege, owner_filter};
use glimbot::glim::{bot_admin_permission_hook, file_is_guild, AdminState, CommandMap, GuildContext, Route};
use glimbot::hooks::{base_hooks, length_hook, HookError};
use glimbot::incrementer::{create_reply, delete_reply, incremented_reply, list_reply as inc_list_reply, next_count, value_reply};
use glimbot::info::{info_reply, CommandStats, GuildStats, Help, InfoOpt, Me, Ping};
use glimbot::kv::{integer_key_from_bytes, CacheKey, IntegerKey};
use glimbot::moderation::{ActionKind, ModAction, TimeSpan};
use glimbot::module_info::{BaseFilter, ConfigModule, ModInfo, OwnerFilter, Shutdown, StatusModule};
use glimbot::reply::codeblock_replies;
use glimbot::roles::{add_joinable_outcome, find_role, joinable_list_message, resolve_role, user_lookup, UserLookup};
use glimbot::sensitivity::Sensitivity;
use glimbot::status::{cache_usage, count_command, memory_usage, uptime_text, CacheStats};
use glimbot::timed::{delay_nanos, order_batch, Action, ActionFailure, ActionKind as TimedKind, FailureKind, ONE_HUNDREDISH_YEARS_NANOS, ONE_MINUTE_NANOS};
use glimbot::error::SqlError;

fn bot() -> Dispatch {
    let mut d = Dispatch::new(7);
    d.add_module(BaseFilter::info());
    d.add_module(OwnerFilter::info());
    d.add_module(ConfigModule::info());
    d.add_module(Shutdown::info());
    d.add_module(StatusModule::info());
    d
}

#[test]
fn registry_finds_added_modules() {
    let d = bot();
    assert_eq!(d.module("config").unwrap().name, "config");
    assert!(d.module("nothing").is_none());
    assert_eq!(d.filters(), &vec!["base-filter", "owner-check", "bot-status"]);
    assert_eq!(d.commands(), vec!["config", "shutdown", "bot-status"]);
}

#[test]
fn readding_a_module_moves_it_last() {
    let mut d = bot();
    d.add_module(ConfigModule::info());
    assert_eq!(d.commands(), vec!["shutdown", "bot-status", "config"]);
}

#[test]
fn unknown_command_is_reported() {
    let d = bot();
    let e = d.command_module("nope").unwrap_err();
    assert_eq!(e.message(), "No such command: nope");
    let e = d.command_module("base-filter").unwrap_err();
    assert_eq!(e.into_error().message(), "No such command: base-filter");
    assert_eq!(NoSuchCommand::new("x").message(), "No such command: x");
}

#[test]
fn settings_are_found_by_name() {
    let d = bot();
    assert_eq!(d.config_value("command_prefix").unwrap().name, "command_prefix");
    let e = d.config_value("missing").unwrap_err();
    assert!(e.is_user_error());
    assert_eq!(e.message(), "No such config value: missing");
    assert_eq!(list_reply(&d), "command_prefix");
    assert_eq!(conf_info_reply(&d, "command_prefix").unwrap(), "command_prefix: A single character which will precede commands.");
    assert_eq!(set_reply("a"), "Set a to specified value.");
}

#[test]
fn messages_are_triaged() {
    let e = message_guild(None, 1, 2).unwrap_err();
    assert_eq!(e.message(), "Glimbot is not designed to respond to DMs.");
    assert_eq!(message_guild(Some(5), 2, 2).unwrap(), None);
    assert_eq!(message_guild(Some(5), 1, 2).unwrap(), Some(5));
    assert!(command_text("hello", '!').unwrap().is_none());
    assert!(command_text("", '!').unwrap().is_none());
    let e = command_text("!   ", '!').unwrap_err();
    assert_eq!(e.message(), "Expected at least once string to appear in the command.");
    let t = command_text("!config  set x", '!').unwrap().unwrap();
    assert_eq!(t.raw, "config  set x");
    assert_eq!(t.name, "config");
}

#[test]
fn commands_are_split_and_routed() {
    let d = bot();
    let words = d.prepare_command("!config set \"a b\"", "config set \"a b\"", "config", "config".to_string()).unwrap().unwrap();
    assert_eq!(words, vec!["config", "set", "a b"]);
    let e = d.prepare_command("!config \"a", "config \"a", "config", "config".to_string()).unwrap().unwrap_err();
    assert_eq!(e.message(), "Invalid command string: !config \"a");
    let e = d.prepare_command("!nope", "nope", "nope", "nope".to_string()).unwrap().unwrap_err();
    assert_eq!(e.message(), "No such command: nope");
}

#[test]
fn error_replies_hide_internal_errors() {
    let user = Error::from_err("bad input".to_string(), true);
    assert_eq!(error_reply(&user), "```\nbad input\n```");
    let internal = Error::from_err("db down".to_string(), false);
    assert_eq!(error_reply(&internal), "```\nAn internal error occurred. If this continues, please contact the bot owner.\n```");
}

#[test]
fn base_filter_refuses_long_and_bot_messages() {
    let long = "a".repeat(1501);
    assert_eq!(base_filter(&long, false, "x".to_string()).unwrap_err().message(), "Command too long: must be no longer than 1500 UTF-8 code points");
    let exact = "é".repeat(750);
    assert_eq!(base_filter(&exact, false, "x".to_string()).unwrap(), "x");
    let over = "é".repeat(751);
    assert!(base_filter(&over, false, "x".to_string()).is_err());
    assert_eq!(base_filter("!x", true, "x".to_string()).unwrap_err().message(), "Glimbot does not accept command strings from bots.");
}

#[test]
fn owner_commands_need_the_owner() {
    let d = bot();
    assert_eq!(owner_filter(&d, 7, "shutdown".to_string()).unwrap(), "shutdown");
    assert_eq!(owner_filter(&d, 8, "shutdown".to_string()).unwrap_err().message(), "You must be the bot owner to do the specified command.");
    assert!(needs_privilege(&d, "config").unwrap());
    assert!(needs_privilege(&d, "shutdown").unwrap());
}

#[test]
fn deputies_cannot_grant_higher_roles() {
    assert!(ensure_authorized_for_role(Some(1), 1, None, 10).is_ok());
    assert_eq!(ensure_authorized_for_role(Some(1), 2, Some(3), 10).unwrap_err().message(), "Performing that action would confuse the deputy. See https://en.wikipedia.org/wiki/Confused_deputy_problem for an explanation.");
    assert!(ensure_authorized_for_role(Some(1), 2, Some(10), 10).is_ok());
    assert_eq!(ensure_authorized_for_role(None, 2, Some(10), 10).unwrap_err().message(), "Couldn't find guild in cache.");
}

#[test]
fn long_replies_are_split() {
    assert_eq!(codeblock_replies("hi"), vec!["```\nhi\n```".to_string()]);
    let line = "x".repeat(1000);
    let text = format!("{}\n{}\n{}", line, line, line);
    let msgs = codeblock_replies(&text);
    assert_eq!(msgs.len(), 2);
    assert_eq!(msgs[0], format!("```\n{}\n\n```", line));
    assert_eq!(msgs[1], format!("```\n{}\n\n```", line));
}

#[test]
fn incrementer_replies() {
    assert_eq!(create_reply("c", -3, true), "Created new incrementer c with count -3");
    assert_eq!(create_reply("c", 0, false), "An incrementer already exists with that name.");
    assert_eq!(next_count(Some(4), "c").unwrap(), 5);
    assert_eq!(next_count(None, "c").unwrap_err(), CommanderError::RuntimeError("No incrementer called c".to_string()));
    assert_eq!(incremented_reply("c", 5), "c is now 5");
    assert_eq!(value_reply("c", 5), "c incremented 5 time(s)");
    assert_eq!(inc_list_reply(&vec!["a".to_string(), "b".to_string()]), "Incrementers:\n    a\n    b");
    assert_eq!(inc_list_reply(&vec![]), "There are no incrementers.");
    assert_eq!(delete_reply("c", 1), "Deleted c");
    assert_eq!(delete_reply("c", 0), "No incrementer called c");
}

#[test]
fn bag_replies() {
    assert_eq!(BagError::BagFull(10).message(), "The bag is full. It can only hold 10 items.");
    assert_eq!(BagError::BagEmpty.message(), "The bag is empty.");
    assert!(check_item(&"a".repeat(50)).is_ok());
    assert_eq!(check_item(&"a".repeat(51)).unwrap_err(), CommanderError::RuntimeError("Item is too big!".to_string()));
    assert_eq!(add_reply(Ok(())), "Added item to bag.");
    assert_eq!(add_reply(Err("full".to_string())), "full");
    assert_eq!(show_reply(&vec!["hat".to_string(), "cat".to_string()]), "Bag contains:\n    hat\n    cat");
    assert_eq!(show_reply(&vec![]), "The bag is empty.");
    assert_eq!(yeet_reply(Ok("hat".to_string())), "Yeeted a(n) hat");
}

#[test]
fn moderation_reports() {
    let a = ModAction::new(5, "bob".to_string(), 1, 2, 3, ActionKind::Ban)
        .with_reason("spam".to_string())
        .with_duration(Some(TimeSpan { secs: 3661, nanos: 0 }))
        .with_original_message(9);
    let e = a.create_embed();
    assert_eq!(e.color, 0xB8D113);
    assert_eq!(e.title, "Ban");
    let fields: Vec<(&str, &str)> = e.fields.iter().map(|(k, v)| (k.as_str(), v.as_str())).collect();
    assert_eq!(fields, vec![
        ("User", "bob (5)"),
        ("Reason", "spam"),
        ("Moderator", "<@3>"),
        ("Channel", "<#2>"),
        ("Duration", "1h 1m 1s"),
        ("In response to", "https://discord.com/channels/1/2/9"),
    ]);
    let w = ModAction::new(5, "bob".to_string(), 1, 2, 3, ActionKind::Warn);
    assert_eq!(w.reason(), "No reason specified.");
    assert!(w.follow_up(0).is_none());
    let f = a.follow_up(1_000).unwrap();
    assert_eq!(f.kind, TimedKind::Ban);
    assert_eq!(f.expiry, 1_000 + 3_661_000_000_000);
}

#[test]
fn timed_delays_are_clamped() {
    assert_eq!(delay_nanos(30, 0), ONE_MINUTE_NANOS);
    assert_eq!(delay_nanos(120, 5), 120_000_000_005);
    assert_eq!(delay_nanos(u64::MAX, 0), ONE_HUNDREDISH_YEARS_NANOS);
    let a = Action::unmute(4, 5, 0, 60, 0);
    let f = ActionFailure::new(a, FailureKind::UserNotInGuild);
    assert_eq!(f.describe(), "could not unmute: user 4 is not a member of this guild");
    let g = ActionFailure::from_err(a, Error::from_err("secret".to_string(), false));
    assert_eq!(g.failure_info(), "backend failure");
    let h = ActionFailure::from_err(a, Failure::NoMuteRoleSet.into_error());
    assert_eq!(h.failure_info(), "No mute role has been set for this guild (mute_role).");
    let batch = vec![Action::debug(0, 60, 0), a, Action::unban(1, 2, 0, 60, 0)];
    let mut shuffled = order_batch(batch.clone());
    assert_eq!(shuffled.len(), 3);
    for x in &batch {
        let pos = shuffled.iter().position(|y| y == x).unwrap();
        shuffled.remove(pos);
    }
}

#[test]
fn integer_keys_round_trip() {
    let k = IntegerKey::new(0x0102030405060708);
    let bytes = k.to_cache_key();
    assert_eq!(bytes, vec![1, 2, 3, 4, 5, 6, 7, 8]);
    assert_eq!(integer_key_from_bytes(&bytes).unwrap(), k);
    assert_eq!(integer_key_from_bytes(&[1, 2]).unwrap_err().message(), "Improper layout seen for type.");
    assert_eq!(<IntegerKey as CacheKey>::from_bytes(&bytes).unwrap(), k);
    assert!(<IntegerKey as CacheKey>::from_bytes(&[0u8; 9]).is_err());
}

#[test]
fn status_figures() {
    let d = bot();
    let mut counter = u64::MAX;
    assert_eq!(count_command(&d, &mut counter, "config".to_string()).unwrap(), "config");
    assert_eq!(counter, 0);
    assert!(count_command(&d, &mut counter, "nope".to_string()).is_err());
    assert_eq!(counter, 0);
    assert_eq!(memory_usage(3 * 1024 * 1024, 1024 * 1024), "    2 /     3 MiB");
    assert_eq!(cache_usage(CacheStats { accesses: 10, misses: 3 }), "3 / 10");
    assert_eq!(uptime_text(90, 5), "1m 30s");
}

#[test]
fn definitions_are_selected() {
    let rows = vec![
        ("noun".to_string(), "a".to_string()),
        ("verb".to_string(), "b".to_string()),
        ("noun".to_string(), "c".to_string()),
        ("noun".to_string(), "d".to_string()),
    ];
    let pos = vec!["noun".to_string()];
    let shown = select_definitions(&rows, &pos, 1, 5);
    assert_eq!(shown, vec![("2: noun".to_string(), "c".to_string()), ("3: noun".to_string(), "d".to_string())]);
    let all = select_definitions(&rows, &vec![], 0, 2);
    assert_eq!(all, vec![("1: noun".to_string(), "a".to_string()), ("2: verb".to_string(), "b".to_string())]);
    assert_eq!(effective_limit(100), 25);
    assert_eq!(effective_limit(3), 3);
    assert_eq!(footer(10, 0), "Displaying up to 10 definitions. Copyright Wiktionary");
    assert_eq!(footer(10, 2), "Displaying up to 10 definitions. Skipped 2. Copyright Wiktionary");
    assert_eq!(wiktionary_url("ice cream"), "https://en.wiktionary.org/wiki/ice%20cream");
}

#[test]
fn info_and_small_commands() {
    let d = bot();
    assert_eq!(info_reply(&d, &InfoOpt { command: None }).unwrap(), "```Available commands: config, shutdown, bot-status```");
    assert_eq!(info_reply(&d, &InfoOpt { command: Some("config".to_string()) }).unwrap(), "```config: ```");
    let pages = Help::paginate(&(0..30).collect::<Vec<u32>>());
    assert_eq!(pages.len(), 2);
    assert_eq!(pages[0].len(), 25);
    assert_eq!(pages[1], vec![25, 26, 27, 28, 29]);
    assert_eq!(Ping::reply(""), "Pong!");
    assert_eq!(Ping::reply("hey"), "```\nhey\n```");
    assert_eq!(Me::reply(true, true, "red").unwrap(), "Joined role red");
    assert_eq!(Me::reply(true, false, "red").unwrap(), "Left role red");
    assert!(Me::reply(false, true, "red").is_err());
}

#[test]
fn usage_statistics() {
    let mut c = CommandStats::new();
    assert_eq!(c.incr(), 0);
    assert_eq!(c.incr(), 1);
    let mut g = GuildStats::new();
    assert_eq!(g.add_usage("roll"), 1);
    assert_eq!(g.add_usage("roll"), 2);
    assert_eq!(g.add_usage("ping"), 1);
    let mut s = AdminState::new();
    assert_eq!(s.record_usage(1, "roll"), 1);
    assert_eq!(s.record_usage(2, "roll"), 2);
}

#[test]
fn hooks_refuse_with_reasons() {
    let long = "a".repeat(1501);
    match length_hook(&long, "x".to_string()) {
        Err(HookError::DeniedWithReason(m)) => assert_eq!(m, "Argument string was too long (1501 bytes). Must be less than 1500 bytes (not characters)."),
        _ => panic!("expected a refusal"),
    }
    assert_eq!(HookError::NeedRole(vec!["admin".to_string()]).message(), "You need one of these roles to perform that action: [\"admin\"]");
    assert_eq!(HookError::Denied.message(), "The action is forbidden.");
    assert!(base_hooks().dependencies().is_empty());
}

#[test]
fn older_dispatcher_routes_commands() {
    assert!(file_is_guild(Some("1234_conf.yaml")));
    assert!(!file_is_guild(Some("x_conf.yaml")));
    assert!(!file_is_guild(None));
    let mut m = CommandMap::new();
    m.add_module("incrementer", &vec!["inc".to_string(), "inc_get".to_string()]);
    let parsed = glimbot::command::parse_command("!inc a").unwrap();
    match m.route(Ok(parsed)) {
        Route::Invoke { module, command, args } => {
            assert_eq!(module, "incrementer");
            assert_eq!(command, "inc");
            assert_eq!(args, vec!["a".to_string()]);
        }
        _ => panic!("expected a route"),
    }
    let parsed = glimbot::command::parse_command("!nope").unwrap();
    assert!(matches!(m.route(Ok(parsed)), Route::NoSuchCommand));
    let cmd = glimbot::command::parse_command("!shutdown").unwrap();
    assert_eq!(bot_admin_permission_hook(cmd.clone(), 3, &vec![1]).unwrap_err(), CommanderError::InsufficientUserPerms(3));
    assert!(bot_admin_permission_hook(cmd, 1, &vec![1]).is_ok());
    assert_eq!(GuildContext::new(42).file_name(), "42_conf.yaml");
}

#[test]
fn roles_and_joinable_lists() {
    let roles = vec![(10u64, "red".to_string()), (11u64, "blue".to_string())];
    assert_eq!(resolve_role(Some(&roles), Some(11), "<@&11>").unwrap(), 11);
    assert_eq!(resolve_role(Some(&roles), None, "red").unwrap(), 10);
    assert_eq!(resolve_role(Some(&roles), None, "green").unwrap_err().message(), "There is no such role in this guild.");
    assert_eq!(resolve_role(Some(&roles), Some(12), "12").unwrap_err().message(), "There is no such role in this guild.");
    assert_eq!(joinable_list_message(&vec![]), "No joinable roles.");
    assert_eq!(joinable_list_message(&vec!["a".to_string(), "b".to_string()]), "a, b");
    let check = SqlError { code: Some("23514".to_string()), constraint: None, message: "x".to_string() };
    assert_eq!(add_joinable_outcome(Err(check)).unwrap_err().message(), "Can't add more roles to joinable; you have too many!");
    let unique = SqlError { code: Some("23505".to_string()), constraint: None, message: "x".to_string() };
    assert_eq!(add_joinable_outcome(Err(unique)).unwrap_err().message(), "This role is already joinable.");
    let other = SqlError { code: Some("42000".to_string()), constraint: None, message: "boom".to_string() };
    let e = add_joinable_outcome(Err(other)).unwrap_err();
    assert_eq!(e.message(), "boom");
    assert!(!e.is_user_error());
}

#[test]
fn command_prefix_validation() {
    assert!(validate_command_prefix("!"));
    assert!(validate_command_prefix("+"));
    assert!(!validate_command_prefix("a"));
    assert!(!validate_command_prefix("!!"));
    assert!(!validate_command_prefix("a!"));
    assert!(!validate_command_prefix(""));
}

#[test]
fn dice_report_head() {
    let r = RollComponent::constant(4).eval();
    let (head, avg) = r.summary_head();
    assert_eq!(head, "Total: 4");
    assert!(!avg);
    let r = RollComponent::die(3, 1).eval();
    let (head, avg) = r.summary_head();
    assert_eq!(head, "Total: 3\nRolls: [1, 1, 1]");
    assert!(avg);
}

#[test]
fn timed_cache_expires_entries() {
    let mut c: TimedCache<u32> = TimedCache::new(100);
    c.as_cache_mut().insert(1, 5, 1000);
    assert_eq!(*c.as_cache_mut().get(1, 1050).unwrap().value(), 5);
    assert!(c.as_cache_mut().get(1, 1200).is_none());
    let _ = TimedEvictionStrategy::new(5);
}

#[test]
fn expired_entry_is_replaced() {
    let mut c: TimedCache<u32> = TimedCache::new(100);
    c.as_cache_mut().insert(1, 5, 1000);
    let kept = c.as_cache_mut().get_or_insert_with(1, 1050, || Ok(9)).unwrap();
    assert_eq!(*kept.value(), 5);
    let fresh = c.as_cache_mut().get_or_insert_with(1, 1200, || Ok(9)).unwrap();
    assert_eq!(*fresh.value(), 9);
    assert_eq!(*c.as_cache_mut().get(1, 1250).unwrap().value(), 9);
}

#[test]
fn module_information() {
    let m: ModInfo = BaseFilter::info();
    assert_eq!(m.sensitivity, Sensitivity::Low);
    assert_eq!(Sensitivity::High.name(), "high");
}

#[test]
fn dice_are_thrown_at_random_within_their_faces() {
    let r = RollComponent::die(100, 1000).eval();
    assert_eq!(r.rolls().len(), 100);
    assert!(r.rolls().iter().all(|x| (1..=1000).contains(x)));
    assert!(r.rolls().iter().any(|x| *x != 1));
}

#[test]
fn pages_hold_every_entry_once() {
    let entries: Vec<u32> = (0..51).collect();
    let pages = Help::paginate(&entries);
    assert_eq!(pages.iter().map(|p| p.len()).collect::<Vec<_>>(), vec![25, 25, 1]);
    let flat: Vec<u32> = pages.into_iter().flatten().collect();
    assert_eq!(flat, entries);
}

#[test]
fn ids_are_read_from_mentions() {
    let roles = vec![(10u64, "red".to_string()), (11u64, "blue".to_string())];
    assert_eq!(find_role(Some(&roles), "<@&11>").unwrap(), 11);
    assert_eq!(find_role(Some(&roles), "10").unwrap(), 10);
    assert_eq!(find_role(Some(&roles), "blue").unwrap(), 11);
    assert!(find_role(None, "blue").is_err());
    assert_eq!(user_lookup("<@5>"), UserLookup::ById(5));
    assert_eq!(user_lookup("<@!6>"), UserLookup::ById(6));
    assert_eq!(user_lookup("bob"), UserLookup::ByName);
}

#[test]
fn older_modules_declare_their_commands() {
    use_glim_modules();
}

fn use_glim_modules() {
    let m = glimbot::glim_modules::incrementer_module();
    let names: Vec<&str> = m.commands().iter().map(|c| c.name).collect();
    assert_eq!(names, vec!["inc_new", "inc", "inc_get", "inc_list", "inc_del"]);
    assert_eq!(m.required_perms(), glimbot::glim_modules::SEND_MESSAGES);
    let b = glimbot::glim_modules::bag_module();
    assert_eq!(b.commands().len(), 3);
    assert_eq!(b.default_config(), glimbot::glim_modules::ConfigGen::Bag);
    let a = glimbot::glim_modules::bot_admin_module();
    assert_eq!(a.hook(glimbot::glim_modules::EventKind::MessageCreate), Some(glimbot::glim_modules::HandlerKind::Command));
    assert_eq!(a.hook(glimbot::glim_modules::EventKind::Other), None);
}

#[test]
fn names_fall_back_to_ids() {
    use_names();
}

fn use_names() {
    let roles = vec![(10u64, "red".to_string())];
    assert_eq!(glimbot::roles::role_name_or_id(Some(&roles), 10), "red");
    assert_eq!(glimbot::roles::role_name_or_id(Some(&roles), 11), "11");
    assert_eq!(glimbot::roles::role_name(None, 11).unwrap_err().message(), "Couldn't find guild in cache.");
    assert_eq!(glimbot::roles::channel_name_or_id(None, 5), "<#5>");
    let members = vec![
        glimbot::roles::MemberName { id: 1, nick: Some("Bo".to_string()), name: "bob".to_string() },
        glimbot::roles::MemberName { id: 2, nick: None, name: "al".to_string() },
    ];
    assert_eq!(glimbot::roles::user_name_or_id(Some(&members), 1), "Bo");
    assert_eq!(glimbot::roles::user_name_or_id(Some(&members), 2), "al");
    assert_eq!(glimbot::roles::user_name_or_id(Some(&members), 3), "<@3>");
    assert_eq!(glimbot::roles::user_name(Some(&members), 3).unwrap_err().message(), "No such user in guild, or two members have the same nickname.");
}

#[test]
fn discord_failures_are_classified() {
    use_discord();
}

fn use_discord() {
    use_failure(glimbot::error::DiscordFailure::MessageTooLong("Message too large.".to_string()), false);
    use_failure(glimbot::error::DiscordFailure::Model("Invalid permissions".to_string()), true);
    use_failure(glimbot::error::DiscordFailure::Other("http".to_string()), false);
}

fn use_failure(f: glimbot::error::DiscordFailure, user: bool) {
    let e = f.into_error();
    assert_eq!(e.is_user_error(), user);
}
