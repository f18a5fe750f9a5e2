use savvagent::tools::{is_bash_endpoint, join_texts, resolve_with, BashDispatch, BashNetResolver,
    BashSlot, BashSpawnKey, CallResult, ConnectError, FixedPolicy, JsonKind, NetOverride, Route,
    RoutingTable, ToolCallOutcome};

#[test]
fn overrides_short_circuit_the_policy() {
    assert!(resolve_with(NetOverride::ForceAllow, false));
    assert!(!resolve_with(NetOverride::ForceDeny, true));
    assert!(resolve_with(NetOverride::Inherit, true));
    assert!(!resolve_with(NetOverride::Inherit, false));
    assert_eq!(NetOverride::default(), NetOverride::Inherit);
    let r = FixedPolicy { allow: true };
    assert!(!r.resolve(NetOverride::ForceDeny));
    assert!(r.resolve(NetOverride::Inherit));
}

#[test]
fn bash_endpoint_detection() {
    assert!(is_bash_endpoint("/usr/bin/savvagent-tool-bash"));
    assert!(!is_bash_endpoint("/usr/bin/savvagent-tool-fs"));
}

#[test]
fn bash_slot_respawns_only_on_key_change() {
    let mut slot = BashSlot::new();
    assert_eq!(slot.plan(false), BashDispatch::Spawn(BashSpawnKey { allow_net: false }));
    slot.spawned(BashSpawnKey { allow_net: false });
    assert_eq!(slot.plan(false), BashDispatch::Reuse);
    assert_eq!(slot.plan(true), BashDispatch::Spawn(BashSpawnKey { allow_net: true }));
    slot.spawned(BashSpawnKey { allow_net: true });
    assert_eq!(slot.plan(true), BashDispatch::Reuse);
}

#[test]
fn routing_table_routes_and_rejects_duplicates() {
    let mut t = RoutingTable::new();
    assert_eq!(t.add_eager_server("fs", vec!["read_file".into(), "write_file".into()]), Ok(0));
    assert_eq!(t.add_bash_server("bash", vec!["run".into()]), Ok(()));
    assert_eq!(t.add_eager_server("grep", vec!["grep".into()]), Ok(1));
    assert_eq!(t.route("read_file"), Route::Eager(0));
    assert_eq!(t.route("grep"), Route::Eager(1));
    assert_eq!(t.route("run"), Route::Bash);
    assert_eq!(t.route("nope"), Route::Unknown);
    assert_eq!(
        t.add_eager_server("dup", vec!["x".into(), "grep".into()]),
        Err(ConnectError::DuplicateTool { name: "grep".into(), label: "dup".into() })
    );
    assert_eq!(
        t.add_eager_server("twice", vec!["y".into(), "y".into()]),
        Err(ConnectError::DuplicateTool { name: "y".into(), label: "twice".into() })
    );
    assert_eq!(t.add_bash_server("bash2", vec!["run2".into()]), Err(ConnectError::MultipleBash));
    assert_eq!(t.tool_names().len(), 4);
    assert_eq!(
        ConnectError::DuplicateTool { name: "grep".into(), label: "dup".into() }.message(),
        "duplicate tool `grep` advertised by dup"
    );
}

#[test]
fn call_results_are_normalized() {
    let r = CallResult { structured: None, contents: vec![Some("a".into()), None, Some("b".into())], is_error: None };
    assert_eq!(ToolCallOutcome::from_call_result("t", Ok(r)), ToolCallOutcome { is_error: false, payload: "a\nb".into() });
    let r = CallResult { structured: Some(None), contents: vec![], is_error: Some(true) };
    assert_eq!(
        ToolCallOutcome::from_call_result("t", Ok(r)),
        ToolCallOutcome { is_error: true, payload: "<unrenderable JSON>".into() }
    );
    assert_eq!(
        ToolCallOutcome::from_call_result("ls", Err("closed".into())),
        ToolCallOutcome { is_error: true, payload: "tool transport error on ls: closed".into() }
    );
    assert_eq!(join_texts(&vec![Some(String::new()), Some("x".into())]), "x");
}

#[test]
fn argument_shape_and_unknown_tool_messages() {
    assert!(ToolCallOutcome::bad_arguments("t", JsonKind::Object).is_none());
    assert_eq!(
        ToolCallOutcome::bad_arguments("t", JsonKind::Array).unwrap().payload,
        "tool `t` arguments must be a JSON object, got array"
    );
    assert_eq!(ToolCallOutcome::unknown_tool("zz").payload, "unknown tool: zz");
}

#[test]
fn failed_respawn_keeps_the_running_server_and_reports_the_step() {
    let mut slot = savvagent::tools::BashSlot::new();
    let up = slot.settle_spawn("tool-bash", false, savvagent::tools::SpawnAttempt::Up);
    assert!(up.is_none());
    assert_eq!(slot.active, Some(savvagent::tools::BashSpawnKey { allow_net: false }));
    let failed = slot
        .settle_spawn("tool-bash", true, savvagent::tools::SpawnAttempt::SpawnFailed("no such file".to_string()))
        .unwrap();
    assert!(failed.is_error);
    assert_eq!(failed.payload, "spawn tool-bash (tool-bash, allow_net=true): no such file");
    assert_eq!(slot.active, Some(savvagent::tools::BashSpawnKey { allow_net: false }));
    let init = slot
        .settle_spawn("tool-bash", true, savvagent::tools::SpawnAttempt::InitFailed("eof".to_string()))
        .unwrap();
    assert_eq!(init.payload, "init MCP session with tool-bash (tool-bash, allow_net=true): eof");
    assert_eq!(slot.plan(false), savvagent::tools::BashDispatch::Reuse);
}
