use imi::{
    age_at, ago, base36, command_key, decimal, escape_toon, extract_output_mode, format_age, gen_id, id_from,
    instructions_copilot, instructions_cursor, instructions_windsurf, is_blank, now_ts, paint, priority_icon,
    starts_with, status_icon, text_eq, CommandKind, OutputCtx, OutputMode, ToonBuilder,
};

fn plain() -> OutputCtx {
    OutputCtx { mode: OutputMode::Human, color: false }
}

fn colored() -> OutputCtx {
    OutputCtx { mode: OutputMode::Human, color: true }
}

#[test]
fn numbers_in_bases() {
    assert_eq!(base36(0), "0");
    assert_eq!(base36(35), "z");
    assert_eq!(base36(36), "10");
    assert_eq!(base36(1_700_000_000_000), "loyw3v28");
    assert_eq!(decimal(0), "0");
    assert_eq!(decimal(1234567890), "1234567890");
    assert_eq!(decimal(u64::MAX), "18446744073709551615");
}

#[test]
fn ages_use_the_largest_unit() {
    assert_eq!(format_age(0), "0s");
    assert_eq!(format_age(59), "59s");
    assert_eq!(format_age(60), "1m");
    assert_eq!(format_age(3599), "59m");
    assert_eq!(format_age(3600), "1h");
    assert_eq!(format_age(86399), "23h");
    assert_eq!(format_age(86400), "1d");
    assert_eq!(format_age(864000), "10d");
    assert_eq!(age_at(100, 50), "0s");
    assert_eq!(age_at(0, 7200), "2h");
    assert_eq!(age_at(i64::MIN, i64::MAX), "213503982334601d");
}

#[test]
fn clock_reads_now() {
    let now = now_ts();
    assert!(now > 1_600_000_000);
    assert_eq!(ago(now_ts() - 120), "2m");
}

#[test]
fn ids_are_time_then_noise() {
    let noise: Vec<u8> = vec![0, 1, 35, 36, 71, 255, 10, 11];
    assert_eq!(id_from(36, &noise), "1001z0z3ab");
    let id = gen_id(&noise);
    assert!(id.ends_with("01z0z3ab"));
    assert!(id.len() > 8);
    assert_ne!(&id[..id.len() - 8], "0");
}

#[test]
fn paint_wraps_only_with_color() {
    assert_eq!(paint(plain(), "32", "ok"), "ok");
    assert_eq!(paint(colored(), "32", "ok"), "\x1b[32mok\x1b[0m");
}

#[test]
fn icons_for_statuses_and_priorities() {
    assert_eq!(status_icon(plain(), "done"), "✅");
    assert_eq!(status_icon(plain(), "in_progress"), "🔄");
    assert_eq!(status_icon(plain(), "ongoing"), "🔄");
    assert_eq!(status_icon(plain(), "review"), "🔎");
    assert_eq!(status_icon(plain(), "failed"), "🚫");
    assert_eq!(status_icon(plain(), "todo"), "📋");
    assert_eq!(status_icon(colored(), "done"), "\x1b[32m✅\x1b[0m");
    assert_eq!(priority_icon(plain(), "critical"), "▲");
    assert_eq!(priority_icon(plain(), "high"), "▲");
    assert_eq!(priority_icon(plain(), "low"), "▽");
    assert_eq!(priority_icon(colored(), "medium"), "\x1b[37m■\x1b[0m");
}

#[test]
fn output_modes() {
    let t = OutputCtx::new(OutputMode::Toon, true, "xterm");
    assert!(t.is_toon() && !t.is_json() && !t.color);
    let h = OutputCtx::new(OutputMode::Human, true, "xterm");
    assert!(h.color);
    assert!(!OutputCtx::new(OutputMode::Human, true, "dumb").color);
    assert!(!OutputCtx::new(OutputMode::Human, false, "xterm").color);
    assert!(OutputCtx::new(OutputMode::Json, false, "").is_json());
}

#[test]
fn output_flags_are_taken_out() {
    let args: Vec<String> = ["imi", "--json", "tasks", "--toon", "x"].iter().map(|s| s.to_string()).collect();
    let (mode, rest) = extract_output_mode(args);
    assert_eq!(mode, OutputMode::Toon);
    assert_eq!(rest, vec!["imi", "tasks", "x"]);
    let (mode, rest) = extract_output_mode(vec!["--json".to_string()]);
    assert_eq!(mode, OutputMode::Human);
    assert_eq!(rest, vec!["--json"]);
    let (mode, rest) = extract_output_mode(vec![]);
    assert_eq!(mode, OutputMode::Human);
    assert!(rest.is_empty());
}

#[test]
fn toon_escaping() {
    assert_eq!(escape_toon("a,b\\c\nd"), "a\\,b\\\\c\\nd");
    assert_eq!(escape_toon("plain"), "plain");
    assert_eq!(escape_toon(""), "");
}

#[test]
fn toon_sections() {
    let mut t = ToonBuilder::new();
    t.section("empty", &["a"], vec![]);
    t.section("task", &["id", "title"], vec![vec!["t1".to_string(), "fix, now".to_string()], vec!["t2".to_string(), "x".to_string()]]);
    t.section("orchestrate", &["workers"], vec![vec!["2".to_string()]]);
    assert_eq!(t.finish(), "task[2]{id,title}:\n  t1,fix\\, now\n  t2,x\n\norchestrate[1]{workers}:\n  2\n");
}

#[test]
fn command_keys() {
    assert_eq!(command_key(&CommandKind::Init), "init");
    assert_eq!(command_key(&CommandKind::Orchestrate), "orchestrate");
    assert_eq!(command_key(&CommandKind::Ops), "ops");
}

#[test]
fn instruction_texts() {
    assert!(instructions_cursor().starts_with("# IMI Ops\n"));
    assert!(instructions_copilot().contains("what you learned"));
    assert!(instructions_windsurf().contains("imi next"));
}

#[test]
fn text_helpers() {
    assert!(is_blank(""));
    assert!(is_blank(" \t\n\u{3000}"));
    assert!(!is_blank(" x "));
    assert!(text_eq("abc", "abc"));
    assert!(!text_eq("abc", "abd"));
    assert!(starts_with("abcdef", "abc"));
    assert!(!starts_with("ab", "abc"));
}

#[test]
fn version_comparison() {
    assert!(imi::is_newer("1.2.4", "1.2.3"));
    assert!(!imi::is_newer("1.2.3", "1.2.3"));
    assert!(!imi::is_newer("1.2.3", "1.10.0"));
    assert!(imi::is_newer("2.0", "1.9.9"));
    assert!(imi::is_newer("v1.2.3", "1.0.0"));
    assert!(imi::is_newer("1.x.2", "1.1.0"));
    assert!(imi::is_newer("+1.0.0", "0.9"));
    assert!(!imi::is_newer("4294967296.0", "1"));
    assert!(imi::is_newer("4294967295", "1"));
    assert!(!imi::is_newer("", "0.0.0"));
}
