use status_core_agent::json::{JsonNumber, JsonValue};
use status_core_agent::pm2::{
    choose_pm2_config, json_array_start, jlist_payload, nvm_versions_dir_path,
    process_from_entry, processes_from_jlist, processes_from_output, termux_pm2_bin_path,
    termux_pm2_home_path, JlistError, JlistOutcome, Pm2Source,
};

fn text(s: &str) -> JsonValue {
    JsonValue::Str(s.to_string())
}

fn object(members: Vec<(&str, JsonValue)>) -> JsonValue {
    JsonValue::Object(members.into_iter().map(|(k, v)| (k.to_string(), v)).collect())
}

fn entry(name: &str, status: &str, cpu: JsonNumber, memory: u64, restarts: u64) -> JsonValue {
    object(vec![
        ("pid", JsonValue::Number(JsonNumber::PosInt(4242))),
        ("name", text(name)),
        (
            "pm2_env",
            object(vec![
                ("status", text(status)),
                ("restart_time", JsonValue::Number(JsonNumber::PosInt(restarts))),
            ]),
        ),
        (
            "monit",
            object(vec![
                ("memory", JsonValue::Number(JsonNumber::PosInt(memory))),
                ("cpu", JsonValue::Number(cpu)),
            ]),
        ),
    ])
}

#[test]
fn processes_are_read_in_order() {
    let doc = JsonValue::Array(vec![
        entry("api", "online", JsonNumber::PosInt(3), 52428800, 3),
        entry("worker", "stopped", JsonNumber::Float(12.5f64.to_bits()), 1024, 0),
    ]);
    let ps = processes_from_jlist(&doc).unwrap();
    assert_eq!(ps.len(), 2);
    assert_eq!(ps[0].name, "api");
    assert_eq!(ps[0].status, "online");
    assert_eq!(ps[0].cpu_percent, Some(JsonNumber::PosInt(3)));
    assert_eq!(ps[0].memory_bytes, 52428800);
    assert_eq!(ps[0].restarts, 3);
    assert_eq!(ps[1].name, "worker");
    assert_eq!(ps[1].status, "stopped");
    assert_eq!(ps[1].cpu_percent, Some(JsonNumber::Float(12.5f64.to_bits())));
    assert_eq!(ps[1].memory_bytes, 1024);
    assert_eq!(ps[1].restarts, 0);
}

#[test]
fn empty_process_list() {
    let ps = processes_from_jlist(&JsonValue::Array(vec![])).unwrap();
    assert!(ps.is_empty());
}

#[test]
fn a_document_that_is_not_an_array_is_refused() {
    assert_eq!(processes_from_jlist(&object(vec![])).err(), Some(JlistError::NotArray));
    assert_eq!(processes_from_jlist(&JsonValue::Null).err(), Some(JlistError::NotArray));
    assert_eq!(processes_from_jlist(&text("[]")).err(), Some(JlistError::NotArray));
}

#[test]
fn missing_fields_read_as_defaults() {
    let p = process_from_entry(&object(vec![]));
    assert_eq!(p.name, "unknown");
    assert_eq!(p.status, "unknown");
    assert_eq!(p.cpu_percent, None);
    assert_eq!(p.memory_bytes, 0);
    assert_eq!(p.restarts, 0);
    let p = process_from_entry(&JsonValue::Bool(true));
    assert_eq!(p.name, "unknown");
    assert_eq!(p.restarts, 0);
}

#[test]
fn fields_of_the_wrong_kind_read_as_defaults() {
    let e = object(vec![
        ("name", JsonValue::Number(JsonNumber::PosInt(7))),
        ("pm2_env", text("online")),
        (
            "monit",
            object(vec![
                ("memory", JsonValue::Number(JsonNumber::NegInt(-5))),
                ("cpu", text("12")),
            ]),
        ),
    ]);
    let p = process_from_entry(&e);
    assert_eq!(p.name, "unknown");
    assert_eq!(p.status, "unknown");
    assert_eq!(p.cpu_percent, None);
    assert_eq!(p.memory_bytes, 0);
    assert_eq!(p.restarts, 0);
}

#[test]
fn a_float_memory_reads_as_zero() {
    let e = object(vec![(
        "monit",
        object(vec![("memory", JsonValue::Number(JsonNumber::Float(1024.0f64.to_bits())))]),
    )]);
    assert_eq!(process_from_entry(&e).memory_bytes, 0);
}

#[test]
fn restart_count_keeps_its_low_32_bits() {
    let p = process_from_entry(&entry("a", "online", JsonNumber::PosInt(0), 0, (1u64 << 32) + 5));
    assert_eq!(p.restarts, 5);
    let p = process_from_entry(&entry("a", "online", JsonNumber::PosInt(0), 0, u64::MAX));
    assert_eq!(p.restarts, u32::MAX);
}

#[test]
fn failed_command_gives_no_json() {
    assert_eq!(jlist_payload(false, b"[{\"name\":\"a\"}]"), None);
}

#[test]
fn text_before_the_array_is_skipped() {
    let out = b"\x1b[33mwarn\x1b[0m: something\n[{\"name\":\"a\"}]\n";
    assert_eq!(jlist_payload(true, out), Some("[{\"name\":\"a\"}]\n".to_string()));
    let out = b"PM2 warning\n[{\"name\":\"a\"}]";
    assert_eq!(jlist_payload(true, out), Some("[{\"name\":\"a\"}]".to_string()));
}

#[test]
fn output_without_a_bracket_is_kept_whole() {
    assert_eq!(jlist_payload(true, b"{}"), Some("{}".to_string()));
    assert_eq!(json_array_start("no array here"), "no array here");
    assert_eq!(json_array_start(""), "");
}

#[test]
fn invalid_utf8_is_replaced() {
    let out: &[u8] = &[0xff, b'[', b'1', b']'];
    assert_eq!(jlist_payload(true, out), Some("[1]".to_string()));
    let out: &[u8] = &[b'[', 0xff, b']'];
    assert_eq!(jlist_payload(true, out), Some("[\u{fffd}]".to_string()));
}

#[test]
fn array_start_agrees_with_find() {
    for s in ["abc[1]", "[]", "x", "é[ü]", "a]b[c", "[[["] {
        let expected = s.find('[').map(|i| &s[i..]).unwrap_or(s);
        assert_eq!(json_array_start(s), expected);
    }
}

#[test]
fn termux_paths() {
    assert_eq!(termux_pm2_bin_path(), "/data/data/com.termux/files/usr/bin/pm2");
    assert_eq!(termux_pm2_home_path(), "/data/data/com.termux/files/home/.pm2");
    assert_eq!(nvm_versions_dir_path(), "/data/data/com.termux/files/home/.nvm/versions/node");
}

#[test]
fn termux_pm2_is_preferred() {
    let c = choose_pm2_config(true, &[("/nvm/v20/bin/pm2".to_string(), true)]);
    assert_eq!(c.bin, "/data/data/com.termux/files/usr/bin/pm2");
    assert_eq!(c.home.as_deref(), Some("/data/data/com.termux/files/home/.pm2"));
    assert_eq!(c.source, Pm2Source::Termux);
}

#[test]
fn first_existing_nvm_pm2_is_used() {
    let c = choose_pm2_config(
        false,
        &[
            ("/nvm/v18/bin/pm2".to_string(), false),
            ("/nvm/v20/bin/pm2".to_string(), true),
            ("/nvm/v22/bin/pm2".to_string(), true),
        ],
    );
    assert_eq!(c.bin, "/nvm/v20/bin/pm2");
    assert_eq!(c.home.as_deref(), Some("/data/data/com.termux/files/home/.pm2"));
    assert_eq!(c.source, Pm2Source::TermuxNvm);
}

#[test]
fn system_pm2_is_the_fallback() {
    let c = choose_pm2_config(false, &[("/nvm/v18/bin/pm2".to_string(), false)]);
    assert_eq!(c.bin, "pm2");
    assert_eq!(c.home, None);
    assert_eq!(c.source, Pm2Source::SystemPath);
    let c = choose_pm2_config(false, &[]);
    assert_eq!(c.bin, "pm2");
    assert_eq!(c.source, Pm2Source::SystemPath);
}

const JLIST: &str = "\u{1b}[31m\u{1b}[1mPM2\u{1b}[0m Spawning PM2 daemon\n";

const JLIST_ARRAY: &str = r#"[{"pid":1,"name":"api","pm2_env":{"status":"online","restart_time":3},"monit":{"memory":52428800,"cpu":12.5}},{"name":"job","pm2_env":{"status":"stopped","restart_time":-1},"monit":{"memory":0,"cpu":0}}]
"#;

#[test]
fn jlist_output_is_parsed_into_processes() {
    let out = b"[{\"name\":\"api\",\"pm2_env\":{\"status\":\"online\",\"restart_time\":3},\"monit\":{\"memory\":52428800,\"cpu\":12.5}},{\"name\":\"job\",\"pm2_env\":{\"status\":\"stopped\",\"restart_time\":-1},\"monit\":{\"memory\":0,\"cpu\":7}}]";
    let ps = match processes_from_output(true, out) {
        JlistOutcome::Processes(ps) => ps,
        _ => panic!("expected a process list"),
    };
    assert_eq!(ps.len(), 2);
    assert_eq!(ps[0].name, "api");
    assert_eq!(ps[0].status, "online");
    assert_eq!(ps[0].cpu_percent, Some(JsonNumber::Float(12.5f64.to_bits())));
    assert_eq!(ps[0].memory_bytes, 52428800);
    assert_eq!(ps[0].restarts, 3);
    assert_eq!(ps[1].name, "job");
    assert_eq!(ps[1].status, "stopped");
    assert_eq!(ps[1].cpu_percent, Some(JsonNumber::PosInt(7)));
    assert_eq!(ps[1].restarts, 0);
}

#[test]
fn a_coloured_warning_before_the_array_is_skipped() {
    let out = format!("{}{}", JLIST, JLIST_ARRAY);
    match processes_from_output(true, out.as_bytes()) {
        JlistOutcome::Processes(ps) => {
            assert_eq!(ps.len(), 2);
            assert_eq!(ps[0].name, "api");
            assert_eq!(ps[0].cpu_percent, Some(JsonNumber::Float(12.5f64.to_bits())));
            assert_eq!(ps[1].name, "job");
        }
        _ => panic!("expected a process list"),
    }
}

#[test]
fn a_coloured_warning_before_an_empty_array() {
    let out = b"\x1b[33mWARN\x1b[0m\n[]";
    match processes_from_output(true, out) {
        JlistOutcome::Processes(ps) => assert!(ps.is_empty()),
        _ => panic!("expected an empty process list"),
    }
}

#[test]
fn an_unfinished_control_sequence_is_passed_over() {
    assert_eq!(json_array_start("\u{1b}[12"), "\u{1b}[12");
    assert_eq!(json_array_start("\u{1b}[1;2[3]"), "\u{1b}[1;2[3]");
    assert_eq!(json_array_start("\u{1b}x[1]"), "[1]");
    assert_eq!(json_array_start("\u{1b}"), "\u{1b}");
}

#[test]
fn a_bracket_in_the_text_of_a_warning_starts_the_json() {
    let out = format!("[PM2] Spawning PM2 daemon\n{}", JLIST_ARRAY);
    assert!(matches!(processes_from_output(true, out.as_bytes()), JlistOutcome::InvalidJson));
}

#[test]
fn a_warning_without_a_bracket_is_skipped() {
    let out = b"PM2 warning: upgrade\n[{\"name\":\"a\",\"monit\":{\"cpu\":-2}}]\n";
    match processes_from_output(true, out) {
        JlistOutcome::Processes(ps) => {
            assert_eq!(ps.len(), 1);
            assert_eq!(ps[0].name, "a");
            assert_eq!(ps[0].cpu_percent, Some(JsonNumber::NegInt(-2)));
        }
        _ => panic!("expected a process list"),
    }
}

#[test]
fn jlist_outcomes_without_a_list() {
    assert!(matches!(processes_from_output(false, b"[]"), JlistOutcome::CommandFailed));
    assert!(matches!(processes_from_output(true, b"not json"), JlistOutcome::InvalidJson));
    assert!(matches!(processes_from_output(true, b"[1,"), JlistOutcome::InvalidJson));
    assert!(matches!(processes_from_output(true, b"{\"a\":1}"), JlistOutcome::NotArray));
    assert!(processes_from_output(false, b"[]").into_processes().is_empty());
    assert!(processes_from_output(true, b"{}").into_processes().is_empty());
}

#[test]
fn a_repeated_key_reads_its_last_value() {
    let out = b"[{\"name\":\"first\",\"name\":\"last\"}]";
    let ps = processes_from_output(true, out).into_processes();
    assert_eq!(ps.len(), 1);
    assert_eq!(ps[0].name, "last");
}

#[test]
fn an_empty_list_is_a_list() {
    match processes_from_output(true, b"[]") {
        JlistOutcome::Processes(ps) => assert!(ps.is_empty()),
        _ => panic!("expected an empty process list"),
    }
}
