use dmux::canonical::{canonical_unsigned_request, write_canonical_json};
use dmux::descriptor::{
    path_to_descriptor_string, validate_ready_descriptor, PublishRequest, PublishTable,
    ServiceDescriptor,
};
use dmux::digest::{constant_time_equal, hex_lower, hmac_sha256};
use dmux::failure::{OsErrorKind, OsFailure};
use dmux::identifier::{
    bounded_text, is_lower_hex, request_uid_from_name, safe_component, validate_component,
    validate_instance, validate_uid, validate_uuid,
};
use dmux::json::{contains_json_null, parse_document, Json};
use dmux::launcher::{
    admit_origin, capture_launcher_witness_from_process, captured_launcher_witness,
    consume_launcher_witness, launcher_witness_from_table, CapturedLauncherWitness, EnvValue,
    LauncherEnvironment, OriginRequest,
};
use dmux::mux_model::TerminalSize;
use dmux::order::text_less;
use dmux::output::{
    end_of_output, terminal_size_to_pty_size, ActionKind, Coalescer, EndAction, ExitBehavior,
    ReadStep,
};
use dmux::path_text::{path_components, same_absolute_path};
use dmux::presentation::{
    alert_cancels, bounded_scale, dock_offers_new_window, opens_file, plan_open_untitled,
    plan_termination, TerminationPlan, WindowCloseConfirmation,
};
use dmux::private_dir::BasePath;
use dmux::process_identity::{
    configuration_step, configured_runtime_base, current_process_start_token, parse_boot_id,
    parse_start_token, platform_data_base, ConfigurationStep, Platform, ProcessListing,
};
use dmux::recovery_files::{can_be_cut, recovery_manifest_names, RecoverySpoolKind};
use dmux::rename_cli::{
    current_workspace, report_outcome, RenameStart, RenameWorkspace, RenameWorkspaceCasOutcome,
};
use dmux::script_api::service_location;
use dmux::service::Service;
use dmux::table_schema::TableKey;
use dmux::text::{
    decimal_text, join_text, nth_word, parse_u64, rsplit_close, signed_decimal_text, split_once,
    strip_prefix, strip_suffix, trim,
};
use dmux::text_set::TextSet;

#[test]
fn numbers_are_written_and_read() {
    assert_eq!(decimal_text(0), "0");
    assert_eq!(decimal_text(u64::MAX), "18446744073709551615");
    assert_eq!(signed_decimal_text(i64::MIN), "-9223372036854775808");
    assert_eq!(parse_u64("18446744073709551615"), Some(u64::MAX));
    assert_eq!(parse_u64("18446744073709551616"), None);
    assert_eq!(parse_u64("+7"), Some(7));
    assert_eq!(parse_u64("-7"), None);
    assert_eq!(parse_u64(""), None);
}

#[test]
fn texts_are_taken_apart() {
    assert_eq!(strip_prefix("req-a", "req-"), Some("a"));
    assert_eq!(strip_suffix("a.json", ".json"), Some("a"));
    assert_eq!(split_once("a=b=c", '='), Some(("a", "b=c")));
    assert_eq!(split_once("abc", '='), None);
    assert_eq!(trim("\u{2003} x y\n"), "x y");
    assert_eq!(nth_word(" a  b c ", 1), Some("b"));
    assert_eq!(nth_word(" a  b c ", 3), None);
    assert_eq!(rsplit_close("1 (a) b) S 2"), Some(("1 (a) b", "S 2")));
    assert_eq!(join_text("/a", "b"), "/a/b");
    assert!(text_less("a", "b") && !text_less("b", "a") && !text_less("a", "a"));
    assert!(text_less("Z", "a") && text_less("a", "é"));
}

#[test]
fn a_set_of_texts_keeps_each_once() {
    let mut set = TextSet::new();
    assert!(set.insert("a".to_string()));
    assert!(!set.insert("a".to_string()));
    assert!(set.contains("a"));
    assert!(set.remove("a"));
    assert!(!set.remove("a"));
}

#[test]
fn paths_are_compared_by_their_components() {
    assert!(same_absolute_path(b"/a/b", b"//a/./b/"));
    assert!(!same_absolute_path(b"/a/b", b"/a/../a/b"));
    assert!(!same_absolute_path(b"a/b", b"a/b"));
    assert_eq!(path_components(b"/a//b/"), vec![b"a".to_vec(), b"b".to_vec()]);
}

#[test]
fn identifiers_are_canonical() {
    let uid = "01234567-89ab-4def-8123-456789abcdef";
    assert!(validate_uid(uid).is_ok());
    assert!(validate_uid("01234567-89AB-4def-8123-456789abcdef").is_err());
    assert!(validate_uid("0123456789ab4def8123456789abcdef").is_err());
    assert!(validate_uid("not-a-uuid").is_err());
    assert!(validate_uuid("epoch", uid).is_ok());
    assert_eq!(validate_uuid("epoch", "{01234567}").unwrap_err().code(), "invalid_descriptor");
    assert_eq!(
        request_uid_from_name("req-01234567-89ab-4def-8123-456789abcdef.json"),
        Some(uid.to_string())
    );
    assert_eq!(request_uid_from_name("req-x.json"), None);
    assert!(is_lower_hex("0af"));
    assert!(!is_lower_hex("0AF"));
    assert!(safe_component("a.json"));
    assert!(!safe_component("a/b") && !safe_component("..") && !safe_component(""));
    assert!(validate_component("a/b").is_err());
    assert!(validate_instance("gui-ok").is_ok());
    assert_eq!(validate_instance("../escape").unwrap_err().code, "invalid_instance");
    assert!(bounded_text("a", 1) && !bounded_text("", 1) && !bounded_text("ab", 1));
}

#[test]
fn documents_are_read_strictly() {
    assert!(parse_document(b"{").is_err());
    let value = parse_document(br#"{"b":[1,null],"a":"x"}"#).unwrap();
    assert!(contains_json_null(&value));
    assert!(!contains_json_null(&parse_document(b"[1,2]").unwrap()));
}

#[test]
fn canonical_json_sorts_and_quotes() {
    let value = parse_document("{\"b\":[1,true],\"a\":\"\\u00e9\\n\",\"c\":-5}".as_bytes()).unwrap();
    assert_eq!(
        write_canonical_json(&value).unwrap(),
        "{\"a\":\"é\\n\",\"b\":[1,true],\"c\":-5}"
    );
    assert!(write_canonical_json(&parse_document(b"1.5").unwrap()).is_err());
    match parse_document(br#"{"z":1,"hmac_sha256":"q","a":2}"#).unwrap() {
        Json::Object(entries) => {
            assert_eq!(canonical_unsigned_request(&entries).unwrap(), "{\"a\":2,\"z\":1}")
        }
        _ => panic!("not an object"),
    }
}

#[test]
fn strings_are_escaped_as_little_as_json_allows() {
    let mut text = String::new();
    for code in 0u32..0x80 {
        text.push(char::from_u32(code).unwrap());
    }
    text.push_str("/é\u{2028}😀");
    let mut expected = String::from("\"");
    for c in text.chars() {
        match c {
            '"' => expected.push_str("\\\""),
            '\\' => expected.push_str("\\\\"),
            '\u{8}' => expected.push_str("\\b"),
            '\t' => expected.push_str("\\t"),
            '\n' => expected.push_str("\\n"),
            '\u{c}' => expected.push_str("\\f"),
            '\r' => expected.push_str("\\r"),
            c if (c as u32) < 0x20 => expected.push_str(&format!("\\u{:04x}", c as u32)),
            c => expected.push(c),
        }
    }
    expected.push('"');
    assert_eq!(write_canonical_json(&Json::Text(text)).unwrap(), expected);
}

#[test]
fn message_codes_match_the_published_vectors() {
    assert_eq!(
        hex_lower(&hmac_sha256(&[0x0b; 20], b"Hi There")),
        "b0344c61d8db38535ca8afceaf0bf12b881dc200c9833da726e9376c2e32cff7"
    );
    assert_eq!(
        hex_lower(&hmac_sha256(b"Jefe", b"what do ya want for nothing?")),
        "5bdcc146bf60754e6a042426089575c75a003f089d2739839dec58b964ec3843"
    );
    assert_eq!(
        hex_lower(&hmac_sha256(
            &[0xaa; 131],
            b"Test Using Larger Than Block-Size Key - Hash Key First"
        )),
        "60e431591ee0b67f0d8a26aacbf5b77f8e0bc6213728c5140546040f0ee37f54"
    );
    assert!(constant_time_equal(b"abc", b"abc"));
    assert!(!constant_time_equal(b"abc", b"abd") && !constant_time_equal(b"ab", b"abc"));
}

#[test]
fn process_files_are_parsed() {
    assert_eq!(
        parse_start_token(b"7 (a) b) S 1 2 3 4 5 6 7 8 9 10 11 12 13 14 15 16 17 18 4711 x", 7)
            .unwrap(),
        "linux:4711"
    );
    assert!(parse_start_token(b"8 (a) S 1", 7).is_err());
    assert!(parse_start_token(b"\xff", 7).is_err());
    assert_eq!(
        parse_boot_id(b"99999999-aaaa-4bbb-8ccc-dddddddddddd\n").unwrap(),
        "linux:99999999-aaaa-4bbb-8ccc-dddddddddddd"
    );
    assert_eq!(parse_boot_id(b"nonsense").unwrap_err().code(), "invalid_descriptor");
    let listing = |success: bool, out: &[u8]| {
        Ok(ProcessListing {
            success,
            stdout: out.to_vec(),
        })
    };
    assert_eq!(
        current_process_start_token(7, listing(true, b"  Mon Jan 1 \n")).unwrap(),
        "Mon Jan 1"
    );
    assert!(current_process_start_token(7, listing(false, b"x")).is_err());
    assert!(current_process_start_token(7, listing(true, b" ")).is_err());
    assert!(current_process_start_token(7, listing(true, b"\xff\xfe")).is_err());
    assert!(current_process_start_token(
        7,
        Err(OsFailure {
            kind: OsErrorKind::NotFound,
            errno: Some(2),
            text: "missing".to_string()
        })
    )
    .is_err());
}

#[test]
fn base_directories_are_absolute() {
    assert_eq!(
        platform_data_base(Some(b"/data".to_vec()), None).unwrap(),
        b"/data".to_vec()
    );
    assert_eq!(
        platform_data_base(None, Some(b"/home/u".to_vec())).unwrap(),
        b"/home/u/.local/share".to_vec()
    );
    assert!(platform_data_base(None, None).is_err());
    assert_eq!(configured_runtime_base(b"/x".to_vec()).unwrap(), b"/x".to_vec());
    assert_eq!(configuration_step(0, 1024), ConfigurationStep::Unavailable);
    assert_eq!(configuration_step(2000, 1024), ConfigurationStep::Enlarge(2000));
}

#[test]
fn manifest_names_are_fixed() {
    let candidate = ".capture-11111111-1111-4111-8111-111111111111-1700000000-1";
    assert!(can_be_cut(candidate));
    let names = recovery_manifest_names(candidate).unwrap();
    assert_eq!(names.candidate, candidate);
    assert_ne!(names.plan, names.published);
    assert!(recovery_manifest_names(".capture-1").is_err());
    assert_eq!(RecoverySpoolKind::parse("command").unwrap().file_name(), "command.json");
    assert_eq!(
        RecoverySpoolKind::parse("initial_snapshot").unwrap().file_name(),
        "initial-snapshot.json"
    );
    assert!(RecoverySpoolKind::parse("other").is_err());
}

fn table(state: &str) -> PublishTable {
    PublishTable {
        keys: vec![
            TableKey::Text("state".to_string()),
            TableKey::Text("epoch".to_string()),
            TableKey::Text("boot_nonce".to_string()),
        ],
        state: Ok(state.to_string()),
        epoch: Ok("11111111-1111-4111-8111-111111111111".to_string()),
        backend_instance_uid: Ok(None),
        boot_nonce: Ok("33333333-3333-4333-8333-333333333333".to_string()),
        sentinel_window_id: Ok(None),
        sentinel_tab_id: Ok(None),
        sentinel_pane_id: Ok(None),
        sentinel_fallback: Ok(None),
        recovery_generation: Ok(None),
        recovery_manifest_id: Ok(None),
        error: Ok(None),
    }
}

#[test]
fn publish_requests_have_a_closed_schema() {
    let request = PublishRequest::from_table(table("starting")).unwrap();
    assert!(request.validate().is_ok());
    let mut extra = table("starting");
    extra.keys.push(TableKey::Text("pid".to_string()));
    assert!(PublishRequest::from_table(extra).unwrap_err().contains("unknown publisher field \"pid\""));
    let mut number = table("starting");
    number.keys.push(TableKey::OtherType("integer".to_string()));
    assert!(PublishRequest::from_table(number).is_err());
    let mut wrong = table("starting");
    wrong.epoch = Err("not a string".to_string());
    assert!(PublishRequest::from_table(wrong).is_err());

    let validate = |change: &dyn Fn(&mut PublishRequest)| {
        let mut request = PublishRequest::from_table(table("starting")).unwrap();
        change(&mut request);
        request.validate()
    };
    assert!(validate(&|_| {}).is_ok());
    assert!(validate(&|r| r.state = "other".to_string()).is_err());
    assert!(validate(&|r| r.epoch = "x".to_string()).is_err());
    assert!(validate(&|r| r.boot_nonce = "x".to_string()).is_err());
    assert!(validate(&|r| r.state = "ready".to_string()).is_err());
    assert!(validate(&|r| r.state = "failed".to_string()).is_err());
}

fn ready() -> ServiceDescriptor {
    ServiceDescriptor {
        descriptor_version: 1,
        state: "ready".to_string(),
        epoch: "11111111-1111-4111-8111-111111111111".to_string(),
        pid: 7,
        socket: "/base/dmux/wez-dmux.sock".to_string(),
        socket_dev: Some(1),
        socket_ino: Some(2),
        start_token: "linux:1".to_string(),
        backend_instance_uid: Some("22222222-2222-4222-8222-222222222222".to_string()),
        boot_nonce: "33333333-3333-4333-8333-333333333333".to_string(),
        boot_id: "linux:44444444-4444-4444-8444-444444444444".to_string(),
        written_by: "mux-startup".to_string(),
        written_at: "2023-11-14T22:13:20Z".to_string(),
        sentinel_window_id: Some(0),
        sentinel_tab_id: Some(0),
        sentinel_pane_id: Some(0),
        sentinel_fallback: Some(false),
        recovery_generation: None,
        recovery_manifest_id: None,
        error: None,
    }
}

#[test]
fn a_ready_descriptor_is_complete() {
    let socket = b"/base/dmux/wez-dmux.sock";
    let check = |change: &dyn Fn(&mut ServiceDescriptor)| {
        let mut descriptor = ready();
        change(&mut descriptor);
        validate_ready_descriptor(&descriptor, socket)
    };
    assert!(check(&|_| {}).is_ok(), "{:?}", check(&|_| {}));
    assert!(check(&|d| d.descriptor_version = 2).is_err());
    assert!(check(&|d| d.state = "starting".to_string()).is_err());
    assert!(check(&|d| d.socket = "/elsewhere".to_string()).is_err());
    assert!(check(&|d| d.epoch = "x".to_string()).is_err());
    assert!(check(&|d| d.backend_instance_uid = None).is_err());
    assert!(check(&|d| d.sentinel_pane_id = None).is_err());
    assert_eq!(path_to_descriptor_string(socket).unwrap(), "/base/dmux/wez-dmux.sock");
    assert!(path_to_descriptor_string(b"/\xff").is_err());
}

#[test]
fn the_service_location_is_below_the_base() {
    let service = Service::new(
        BasePath {
            bytes: b"/base".to_vec(),
            display: "/base".to_string(),
        },
        Platform::Linux,
        1000,
        7,
    );
    let location = service_location(&service).unwrap();
    assert_eq!(location.runtime_dir, "/base/dmux");
    assert_eq!(location.socket_path, "/base/dmux/wez-dmux.sock");
    assert_eq!(location.api_version, 1);
}

fn some(text: &str) -> Option<EnvValue> {
    Some(EnvValue::Text(text.to_string()))
}

fn environment() -> LauncherEnvironment {
    LauncherEnvironment {
        gui_instance: some("gui-88888888888848888888888888888888"),
        launcher_request_uid: some("88888888-8888-4888-8888-888888888888"),
        launcher_pid: some("42"),
        launcher_start_token: some("linux:5"),
        backend_instance: some("cccccccc-cccc-4ccc-8ccc-cccccccccccc"),
        target_domain: some("ssh:remote"),
        target_backend_instance: some("99999999-9999-4999-8999-999999999999"),
        target_server_epoch: some("aaaaaaaa-aaaa-4aaa-8aaa-aaaaaaaaaaaa"),
        target_host_uid: some("dddddddd-dddd-4ddd-8ddd-dddddddddddd"),
        target_space_uid: None,
    }
}

fn capture(environment: LauncherEnvironment, parent: i32, live: &str, backend: &str) -> CapturedLauncherWitness {
    capture_launcher_witness_from_process(
        environment,
        parent,
        Ok(live.to_string()),
        Ok(backend.to_string()),
        1000,
    )
}

const BACKEND: &str = "cccccccc-cccc-4ccc-8ccc-cccccccccccc";

#[test]
fn a_launcher_is_captured_only_when_everything_agrees() {
    let captured = capture(environment(), 42, "linux:5", BACKEND);
    let witness = captured_launcher_witness(&captured).unwrap().unwrap();
    assert_eq!(witness.origin.pid, 42);
    assert_eq!(witness.origin.uid, 1000);
    assert_eq!(witness.transport_backend_instance_uid, BACKEND);

    assert!(matches!(
        capture(environment(), 43, "linux:5", BACKEND),
        CapturedLauncherWitness::Invalid(_)
    ));
    assert!(matches!(
        capture(environment(), 42, "linux:6", BACKEND),
        CapturedLauncherWitness::Invalid(_)
    ));
    assert!(matches!(
        capture(environment(), 42, "linux:5", "eeeeeeee-eeee-4eee-8eee-eeeeeeeeeeee"),
        CapturedLauncherWitness::Invalid(_)
    ));
    let mut binary = environment();
    binary.target_domain = Some(EnvValue::NotUtf8);
    assert!(matches!(
        capture(binary, 42, "linux:5", BACKEND),
        CapturedLauncherWitness::Invalid(_)
    ));
    let mut partial = environment();
    partial.launcher_pid = None;
    assert!(matches!(
        capture(partial, 42, "linux:5", BACKEND),
        CapturedLauncherWitness::Invalid(_)
    ));
    let none = LauncherEnvironment {
        gui_instance: None,
        launcher_request_uid: None,
        launcher_pid: None,
        launcher_start_token: None,
        backend_instance: None,
        target_domain: None,
        target_backend_instance: None,
        target_server_epoch: None,
        target_host_uid: None,
        target_space_uid: None,
    };
    let absent = capture(none, 42, "linux:5", BACKEND);
    assert!(captured_launcher_witness(&absent).unwrap().is_none());
}

fn origin_request() -> OriginRequest {
    let names = [
        "gui_instance", "uid", "pid", "start_token", "launcher_request_uid", "domain",
        "backend_instance_uid", "server_epoch", "host_uid",
    ];
    OriginRequest {
        keys: names.iter().map(|name| TableKey::Text(name.to_string())).collect(),
        gui_instance: Ok("gui-88888888888848888888888888888888".to_string()),
        uid: Ok(1000),
        pid: Ok(42),
        start_token: Ok("linux:5".to_string()),
        launcher_request_uid: Ok("88888888-8888-4888-8888-888888888888".to_string()),
        domain: Ok("ssh:remote".to_string()),
        backend_instance_uid: Ok("99999999-9999-4999-8999-999999999999".to_string()),
        server_epoch: Ok("aaaaaaaa-aaaa-4aaa-8aaa-aaaaaaaaaaaa".to_string()),
        host_uid: Ok("dddddddd-dddd-4ddd-8ddd-dddddddddddd".to_string()),
        space_uid: Ok(None),
    }
}

#[test]
fn an_admitted_launcher_is_used_once() {
    let captured = capture(environment(), 42, "linux:5", BACKEND);
    let origin = launcher_witness_from_table(origin_request()).unwrap();
    let witness =
        admit_origin(&captured, &origin, "gui-88888888888848888888888888888888", 1000).unwrap();
    let mut used = false;
    let live = || Ok("linux:5".to_string());
    let backend = || Ok(BACKEND.to_string());
    assert!(consume_launcher_witness(witness, Ok("linux:6".to_string()), backend(), &mut used).is_err());
    assert!(!used);
    consume_launcher_witness(witness, live(), backend(), &mut used).unwrap();
    assert!(used);
    assert!(consume_launcher_witness(witness, live(), backend(), &mut used).is_err());
    assert!(admit_origin(
        &CapturedLauncherWitness::Absent,
        &origin,
        "gui-88888888888848888888888888888888",
        1000
    )
    .is_err());
    let mut extra = origin_request();
    extra.keys.push(TableKey::Text("command".to_string()));
    assert!(launcher_witness_from_table(extra).is_err());
}

#[test]
fn output_is_gathered_and_flushed() {
    let mut gathered: Coalescer<u32> = Coalescer::new();
    assert!(gathered.accept(ActionKind::Other, 1).is_none());
    assert!(matches!(gathered.end_of_read(10, 100, 3, 1000), ReadStep::Poll(3)));
    assert!(gathered.accept(ActionKind::Other, 2).is_none());
    assert!(matches!(gathered.end_of_read(10, 100, 3, 1002), ReadStep::Poll(1)));
    assert_eq!(gathered.after_poll(false), Some(vec![1, 2]));
    assert_eq!(gathered.accept(ActionKind::BeginSynchronized, 3), Some(vec![3]));
    assert!(gathered.accept(ActionKind::Other, 4).is_none());
    assert!(matches!(gathered.end_of_read(500, 100, 3, 1003), ReadStep::KeepReading));
    assert_eq!(gathered.accept(ActionKind::EndSynchronized, 5), Some(vec![4, 5]));
    assert!(gathered.accept(ActionKind::Other, 6).is_none());
    match gathered.end_of_read(100, 100, 3, 1004) {
        ReadStep::Send(actions) => assert_eq!(actions, vec![6]),
        _ => panic!("a full buffer is sent"),
    }
    assert!(gathered.accept(ActionKind::Other, 7).is_none());
    assert_eq!(gathered.finish(), Some(vec![7]));
    assert_eq!(gathered.finish(), None);
}

#[test]
fn the_end_of_output_follows_the_rule_of_the_pane() {
    assert_eq!(
        end_of_output(3, None, ExitBehavior::Close),
        EndAction::RemovePane(3)
    );
    assert_eq!(
        end_of_output(3, Some(ExitBehavior::Hold), ExitBehavior::Close),
        EndAction::PruneDeadWindows
    );
    let size = TerminalSize {
        rows: 65535,
        cols: 80,
        pixel_width: 0,
        pixel_height: 0,
        dpi: 96,
    };
    assert_eq!(terminal_size_to_pty_size(size).unwrap().rows, 65535);
    assert!(terminal_size_to_pty_size(TerminalSize { rows: 65536, ..size }).is_err());
}

#[test]
fn rename_commands_start_with_the_right_request() {
    let options = |window_id: Option<usize>, if_workspace: Option<&str>| RenameWorkspace {
        workspace: None,
        pane_id: None,
        window_id,
        if_workspace: if_workspace.map(String::from),
        if_sole_window: false,
        new_workspace: "new".to_string(),
    };
    assert!(options(Some(1), Some("old")).consistent());
    assert!(!options(Some(1), None).consistent());
    assert!(!options(None, Some("old")).consistent());
    assert!(matches!(
        options(Some(1), Some("old")).start(),
        RenameStart::RenameIf { window_id: 1, .. }
    ));
    assert!(matches!(options(None, None).start(), RenameStart::ListPanes { .. }));
    assert!(report_outcome(7, &RenameWorkspaceCasOutcome::Renamed).is_ok());
    assert_eq!(
        report_outcome(
            7,
            &RenameWorkspaceCasOutcome::WorkspaceMismatch {
                actual: "a\tb".to_string()
            }
        )
        .unwrap_err(),
        "rename-workspace-if failed: workspace_mismatch window_id=7 actual=\"a\\tb\""
    );
    assert_eq!(
        report_outcome(
            7,
            &RenameWorkspaceCasOutcome::NotSoleWindow {
                other_window_ids: vec![1, 2]
            }
        )
        .unwrap_err(),
        "rename-workspace-if failed: not_sole_window window_id=7 other_window_ids=[1, 2]"
    );
    let panes = vec![(1, "a".to_string()), (2, "b".to_string())];
    assert_eq!(current_workspace(&panes, 2).unwrap(), "b");
    assert!(current_workspace(&panes, 3).is_err());
}

#[test]
fn the_managed_application_hands_quitting_to_the_broker() {
    let ask = WindowCloseConfirmation::AlwaysPrompt;
    let never = WindowCloseConfirmation::NeverPrompt;
    assert_eq!(plan_termination(true, never), TerminationPlan::CancelAndAskBroker);
    assert_eq!(plan_termination(false, ask), TerminationPlan::AskUser);
    assert_eq!(plan_termination(false, never), TerminationPlan::TerminateNow);
    assert!(alert_cancels(1000));
    assert!(!alert_cancels(1001));
    assert!(!plan_open_untitled(true, true, true).spawn_window);
    assert!(plan_open_untitled(false, true, true).spawn_window);
    assert!(!opens_file(true, true, true) && opens_file(false, true, true));
    assert!(dock_offers_new_window(false) && !dock_offers_new_window(true));
}

#[test]
fn scales_stay_within_bounds() {
    assert_eq!(bounded_scale(0), 12);
    assert_eq!(bounded_scale(180), 180);
    assert_eq!(bounded_scale(u32::MAX), 1920);
}
