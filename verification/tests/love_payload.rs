use rubin_love_tui::queue_data::love_payload::{
    AvailableScripts, LoveData, LoveDataType, LovePayload, LoveTracing, Script, ScriptInfo,
    ScriptStream, StateStream,
};

fn script(kind: &str, path: &str) -> Script {
    Script { script_type: kind.to_string(), path: path.to_string(), config_schema: String::new() }
}

fn info(index: u32, path: &str) -> ScriptInfo {
    ScriptInfo {
        remote: Some("remote".to_string()),
        setup: true,
        index,
        path: path.to_string(),
        script_type: "standard".to_string(),
        process_state: "RUNNING".to_string(),
        script_state: "DONE".to_string(),
        timestamp_configure_end_bits: 1.5f64.to_bits(),
        timestamp_configure_start_bits: 1.0f64.to_bits(),
        timestamp_process_end_bits: 0.0f64.to_bits(),
        timestamp_process_start_bits: 2.0f64.to_bits(),
        timestamp_run_start_bits: 3.0f64.to_bits(),
        expected_duration_bits: 10.0f64.to_bits(),
        last_checkpoint: String::new(),
        description: "d".to_string(),
        classname: "c".to_string(),
        remotes: String::new(),
        last_heartbeat_timestamp_bits: 4.0f64.to_bits(),
        lost_heartbeats: 2,
        pause_checkpoints: String::new(),
        stop_checkpoints: String::new(),
        log_level: 20,
    }
}

fn tracing() -> LoveTracing {
    LoveTracing {
        producer_snd_bits: 0,
        manager_rcv_from_producer_bits: 0,
        manager_snd_to_group_bits: 0,
        manager_rcv_from_group_bits: 0,
        manager_snd_to_client_bits: 0,
    }
}

fn payload(data: Vec<LoveDataType>) -> LovePayload {
    LovePayload {
        category: "event".to_string(),
        data: data
            .into_iter()
            .map(|d| LoveData { csc: "ScriptQueueState".to_string(), salindex: 3, data: d })
            .collect(),
        subscription: "event-ScriptQueueState-3".to_string(),
        tracing: tracing(),
    }
}

fn empty_data() -> LoveDataType {
    LoveDataType { script_stream: None, state_stream: None, available_scripts_stream: None }
}

fn paths(v: &[Script]) -> Vec<String> {
    v.iter().map(|s| s.path.clone()).collect()
}

#[test]
fn standard_and_external_scripts_keep_their_order() {
    let a = AvailableScripts {
        available_scripts: vec![
            script("standard", "auxtel/a.py"),
            script("external", "x/b.py"),
            script("standard", "maintel/c.py"),
            script("other", "d.py"),
            script("external", "y.py"),
        ],
    };
    assert_eq!(paths(&a.get_standard_scripts()), vec!["auxtel/a.py", "maintel/c.py"]);
    assert_eq!(paths(&a.get_external_scripts()), vec!["x/b.py", "y.py"]);
    assert_eq!(a.number_of_scripts(), 5);
}

#[test]
fn script_type_must_match_exactly() {
    let a = AvailableScripts {
        available_scripts: vec![script("Standard", "a"), script("standard ", "b"), script("standard", "c")],
    };
    assert_eq!(paths(&a.get_standard_scripts()), vec!["c"]);
    assert!(a.get_external_scripts().is_empty());
}

#[test]
fn number_of_scripts_truncates_to_sixteen_bits() {
    let a = AvailableScripts { available_scripts: (0..65537).map(|_| script("standard", "s")).collect() };
    assert_eq!(a.number_of_scripts(), 1);
    let empty = AvailableScripts { available_scripts: vec![] };
    assert_eq!(empty.number_of_scripts(), 0);
}

#[test]
fn payload_without_data_has_no_streams() {
    let p = payload(vec![]);
    assert!(p.get_script_stream().is_none());
    assert!(p.get_state_stream().is_none());
    assert!(p.get_available_scripts().is_none());
}

#[test]
fn payload_streams_come_from_the_first_entry_only() {
    let first = LoveDataType {
        state_stream: Some(StateStream { enabled: true, running: false }),
        ..empty_data()
    };
    let second = LoveDataType {
        available_scripts_stream: Some(AvailableScripts { available_scripts: vec![script("standard", "a")] }),
        ..empty_data()
    };
    let p = payload(vec![first, second]);
    assert_eq!(p.get_state_stream(), Some(StateStream { enabled: true, running: false }));
    assert!(p.get_available_scripts().is_none());
    assert!(p.get_script_stream().is_none());
}

#[test]
fn payload_script_stream_is_copied_whole() {
    let stream = ScriptStream {
        current_scripts: vec![info(7, "a.py")],
        waiting_scripts: vec![info(8, "b.py"), info(9, "c.py")],
        finished_scripts: vec![],
    };
    let p = payload(vec![LoveDataType { script_stream: Some(stream), ..empty_data() }]);
    let s = p.get_script_stream().unwrap();
    assert_eq!(s.current_scripts.len(), 1);
    assert_eq!(s.current_scripts[0].index, 7);
    assert_eq!(s.current_scripts[0].remote.as_deref(), Some("remote"));
    assert_eq!(s.current_scripts[0].log_level, 20);
    assert_eq!(f64::from_bits(s.current_scripts[0].expected_duration_bits), 10.0);
    assert_eq!(s.waiting_scripts.iter().map(|i| i.index).collect::<Vec<_>>(), vec![8, 9]);
    assert!(s.finished_scripts.is_empty());
}

#[test]
fn payload_available_scripts_are_copied() {
    let a = AvailableScripts { available_scripts: vec![script("standard", "a"), script("external", "b")] };
    let p = payload(vec![LoveDataType { available_scripts_stream: Some(a), ..empty_data() }]);
    let got = p.get_available_scripts().unwrap();
    assert_eq!(paths(&got.available_scripts), vec!["a", "b"]);
    assert_eq!(got.available_scripts[1].script_type, "external");
}

#[test]
fn standard_and_external_parts_cover_the_list_only_without_other_types() {
    let both = AvailableScripts { available_scripts: vec![script("standard", "a"), script("external", "b")] };
    assert_eq!(both.get_standard_scripts().len() + both.get_external_scripts().len(), 2);
    let other = AvailableScripts {
        available_scripts: vec![script("standard", "a"), script("external", "b"), script("other", "c")],
    };
    assert_eq!(other.get_standard_scripts().len() + other.get_external_scripts().len(), 2);
    assert!(other.get_standard_scripts().iter().all(|s| s.script_type == "standard"));
    assert!(other.get_external_scripts().iter().all(|s| s.script_type == "external"));
}
