//! The editor shell's small decision rules: the assistant CLI, the engine
//! supervisor gate, floating panel windows, and the file watcher's events.
use editor_core::assistant::{
    assistant_failure_message, assistant_outcome, ensure_cmd_extension, first_located_path,
    is_npm_cmd_path, AssistantOutcome,
};
use editor_core::engine::{engine_args, listing_shows_pid, EngineGate};
use editor_core::watch::FileChangeEvent;
use editor_core::windows::{
    floating_window_url, redock_payload, url_encode, window_label_for, FloatingWindowsState,
};

#[test]
fn npm_batch_paths_are_recognized() {
    assert!(is_npm_cmd_path("C:\\Users\\me\\AppData\\Roaming\\npm\\helper.cmd"));
    assert!(is_npm_cmd_path("helper.CMD"));
    assert!(is_npm_cmd_path("C:\\tools\\npm\\bin\\helper"));
    assert!(is_npm_cmd_path("/usr/lib/npm/helper"));
    assert!(!is_npm_cmd_path("/usr/local/bin/helper"));
}

#[test]
fn npm_paths_get_their_extension_back() {
    assert_eq!(
        ensure_cmd_extension("C:\\x\\npm\\helper"),
        "C:\\x\\npm\\helper.cmd"
    );
    assert_eq!(
        ensure_cmd_extension("C:\\x\\npm\\helper.cmd"),
        "C:\\x\\npm\\helper.cmd"
    );
    assert_eq!(ensure_cmd_extension("/usr/bin/helper"), "/usr/bin/helper");
}

#[test]
fn lookup_output_yields_its_first_trimmed_line() {
    assert_eq!(
        first_located_path("C:\\a\\helper.cmd\r\nC:\\b\\helper\r\n").as_deref(),
        Some("C:\\a\\helper.cmd")
    );
    assert_eq!(
        first_located_path("  /usr/bin/helper  \nmore").as_deref(),
        Some("/usr/bin/helper")
    );
    assert_eq!(first_located_path(""), None);
    assert_eq!(first_located_path("   \r\n/late/line"), None);
}

#[test]
fn failure_messages_follow_the_reporting_rules() {
    assert_eq!(
        assistant_failure_message("1", "you are out of credits", "x"),
        "API credits exhausted. Add credits or sign in with a subscription."
    );
    assert_eq!(
        assistant_failure_message("1", "Login required", ""),
        "Authentication issue: Login required"
    );
    assert_eq!(assistant_failure_message("1", "weird", ""), "Error: weird");
    assert_eq!(
        assistant_failure_message("exit status: 1", "", ""),
        "Assistant CLI exited with status exit status: 1 but produced no output. Stderr was empty. This may indicate an authentication issue."
    );
    let long = "y".repeat(600);
    let msg = assistant_failure_message("exit status: 1", "", &long);
    assert_eq!(
        msg,
        format!("Assistant CLI exited with status: exit status: 1 - Output: {}", "y".repeat(500))
    );
}

#[test]
fn outcomes_need_success_and_output() {
    match assistant_outcome(true, "exit status: 0", "", "answer") {
        AssistantOutcome::Done(d) => assert_eq!(d, "answer"),
        AssistantOutcome::Failed(_) => panic!("a successful run with output is done"),
    }
    match assistant_outcome(true, "exit status: 0", "", "") {
        AssistantOutcome::Failed(_) => {},
        AssistantOutcome::Done(_) => panic!("no output means failure"),
    }
    match assistant_outcome(false, "exit status: 1", "oops", "answer") {
        AssistantOutcome::Failed(f) => assert_eq!(f, "Error: oops"),
        AssistantOutcome::Done(_) => panic!("a failed exit is reported"),
    }
}

#[test]
fn engine_arguments_carry_port_and_embedding() {
    let args = engine_args(9999, None);
    assert_eq!(args, vec!["--ipc-port", "9999", "--editor-mode", "--no-vulkan"]);
    let args = engine_args(9999, Some(12345));
    assert_eq!(
        args,
        vec!["--ipc-port", "9999", "--editor-mode", "--no-vulkan", "--parent-hwnd", "12345"]
    );
}

#[test]
fn the_gate_admits_one_start_at_a_time() {
    let mut g = EngineGate::new();
    assert!(g.begin_start());
    assert!(!g.begin_start()); // already starting
    g.spawned();
    assert!(g.is_running());
    assert!(!g.begin_stop(false)); // plain stop deferred during startup
    assert!(g.is_running());
    g.finish_starting();
    assert!(!g.begin_start()); // already running
    assert!(g.begin_stop(false));
    assert!(!g.is_running());
}

#[test]
fn a_forced_stop_always_proceeds() {
    let mut g = EngineGate::new();
    assert!(g.begin_start());
    g.spawned();
    assert!(g.begin_stop(true));
    assert!(!g.is_running());
    assert!(!g.is_starting());
}

#[test]
fn a_failed_spawn_clears_the_gate() {
    let mut g = EngineGate::new();
    assert!(g.begin_start());
    g.spawn_failed();
    assert!(!g.is_starting());
    assert!(g.begin_start());
}

#[test]
fn process_listings_are_searched_for_the_pid() {
    assert!(listing_shows_pid("engine.exe    4242 Console", 4242));
    assert!(!listing_shows_pid("INFO: no tasks found", 4242));
}

#[test]
fn window_labels_and_urls() {
    assert_eq!(window_label_for("scene-1"), "float_scene-1");
    assert_eq!(
        floating_window_url("scene-1", None, None),
        "index.html?floating_panel=scene-1"
    );
    let graph = String::from("C:\\my graphs\\a.json");
    let root = String::from("/home/me/project");
    assert_eq!(
        floating_window_url("node-editor", Some(&graph), Some(&root)),
        "index.html?floating_panel=node-editor&graph_path=C%3A%5Cmy%20graphs%5Ca.json&project_root=%2Fhome%2Fme%2Fproject"
    );
}

#[test]
fn percent_encoding_matches_the_crate_it_relies_on() {
    for s in ["plain", "with space", "päth/ünïcode", "~-._", "100%"] {
        assert_eq!(url_encode(s), urlencoding::encode(s).into_owned());
    }
}

#[test]
fn redock_payloads_are_exact() {
    assert_eq!(
        redock_payload("scene-1", -3, 42),
        "{\"tab_id\":\"scene-1\",\"x\":-3,\"y\":42}"
    );
    let v: serde_json::Value = serde_json::from_str(&redock_payload("a\"b", 0, 0)).unwrap();
    assert_eq!(v["tab_id"], "a\"b");
    assert_eq!(v["x"], 0);
}

#[test]
fn the_registry_tracks_each_tab_once() {
    let mut st = FloatingWindowsState::default();
    assert!(st.list().is_empty());
    st.track(String::from("a"), String::from("float_a"));
    st.track(String::from("b"), String::from("float_b"));
    assert_eq!(st.list(), vec!["a", "b"]);
    st.track(String::from("a"), String::from("float_a2"));
    assert_eq!(st.list(), vec!["b", "a"]); // replaced, not duplicated
    st.untrack("b");
    assert_eq!(st.list(), vec!["a"]);
    st.untrack("missing");
    assert_eq!(st.list(), vec!["a"]);
}

#[test]
fn every_watcher_event_is_a_modification() {
    let ev = FileChangeEvent::modification(String::from("/p/x.prefab.json"));
    assert_eq!(ev.event_type, "modify");
    assert_eq!(ev.path, "/p/x.prefab.json");
}
