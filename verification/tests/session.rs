use cosmic_session::event::{
    Binding, CosmicToplevelEvent, CosmicWorkspaceEvent, Event, Global, GroupEvent, ToplevelEvent,
    WorkspaceEvent,
};
use cosmic_session::wayland::{
    binding_for, pump_cosmic, pump_requests, State, ToplevelData, WorkspaceData,
    TL_STATE_FULLSCREEN, TL_STATE_MAXIMIZED, TL_STATE_MINIMIZED, TL_STATE_STICKY, WS_COSMIC_PINNED,
    WS_EXT_ACTIVE,
};
use cosmic_session::words::{host_byte_order, ByteOrder};

fn s(text: &str) -> String {
    text.to_string()
}

fn window(handle: &str, event: ToplevelEvent) -> Event {
    Event::Toplevel { handle: s(handle), event }
}

fn cosmic(handle: &str, event: CosmicToplevelEvent) -> Event {
    Event::CosmicToplevel { handle: s(handle), event }
}

fn workspace(handle: &str, event: WorkspaceEvent) -> Event {
    Event::Workspace { handle: s(handle), event }
}

/// A session with one window, one workspace, one output and one group, whose extensions
/// are `ct` and `cw`.
fn session() -> State {
    let mut state = State::new(ByteOrder::Little);
    state.event(Event::Bound { global: Global::ToplevelInfo, object: s("info") });
    state.event(Event::Bound { global: Global::CosmicWorkspaceManager, object: s("wmgr") });
    state.event(Event::OutputName { output: s("o1"), name: s("DP-1") });
    state.event(Event::NewToplevel { toplevel: s("t1") });
    state.event(Event::NewWorkspaceGroup { group: s("g1") });
    state.event(Event::NewWorkspace { workspace: s("w1") });
    pump_cosmic(&mut state, vec![s("ct")], vec![s("cw")]);
    state
}

fn data(state: &State) -> &ToplevelData {
    &state.toplevels.get(&s("t1")).unwrap().data
}

fn space(state: &State) -> &WorkspaceData {
    &state.workspaces.get(&s("w1")).unwrap().data
}

fn shown(state: &State) -> String {
    format!("{:?}", state)
}

#[test]
fn protocol_values() {
    assert_eq!(TL_STATE_MAXIMIZED, 0);
    assert_eq!(TL_STATE_MINIMIZED, 1);
    assert_eq!(TL_STATE_FULLSCREEN, 3);
    assert_eq!(TL_STATE_STICKY, 4);
    assert_eq!(WS_EXT_ACTIVE, 1);
    assert_eq!(WS_COSMIC_PINNED, 1);
}

#[test]
fn bound_versions() {
    let cases = [
        ("ext_foreign_toplevel_list_v1", Global::ToplevelList, 1),
        ("zcosmic_toplevel_info_v1", Global::ToplevelInfo, 3),
        ("zcosmic_toplevel_manager_v1", Global::ToplevelManager, 4),
        ("ext_workspace_manager_v1", Global::WorkspaceManager, 1),
        ("zcosmic_workspace_manager_v2", Global::CosmicWorkspaceManager, 2),
        ("wl_output", Global::Output, 4),
    ];
    for (interface, global, highest) in cases {
        assert_eq!(binding_for(interface, 9), Some(Binding { global, version: highest }));
        assert_eq!(binding_for(interface, highest), Some(Binding { global, version: highest }));
        assert_eq!(binding_for(interface, 1), Some(Binding { global, version: 1 }));
    }
    assert_eq!(binding_for("wl_seat", 9), None);
    assert_eq!(binding_for("", 1), None);
}

#[test]
fn a_state_starts_empty() {
    let state = State::default();
    assert_eq!(state.byte_order, host_byte_order());
    assert_eq!(state.toplevels.len(), 0);
    assert_eq!(state.workspaces.len(), 0);
    assert_eq!(state.outputs.len(), 0);
    assert_eq!(state.groups.len(), 0);
    assert!(!state.toplevels_done);
    assert!(state.any_output().is_none());
}

#[test]
fn globals_are_kept() {
    let mut state = State::new(ByteOrder::Little);
    for (global, object) in [
        (Global::ToplevelList, "list"),
        (Global::ToplevelInfo, "info"),
        (Global::ToplevelManager, "mgr"),
        (Global::WorkspaceManager, "wm"),
        (Global::CosmicWorkspaceManager, "cwm"),
        (Global::Output, "o"),
    ] {
        state.event(Event::Bound { global, object: s(object) });
    }
    assert_eq!(state.toplevel_info, Some(s("info")));
    assert_eq!(state.toplevel_mgr, Some(s("mgr")));
    assert_eq!(state.workspace_mgr, Some(s("wm")));
    assert_eq!(state.workspace_cosmic, Some(s("cwm")));
    assert_eq!(state.outputs.len(), 0);
}

#[test]
fn a_window_tells_what_it_is() {
    let mut state = session();
    state.event(window("t1", ToplevelEvent::Title { title: s("Title") }));
    state.event(window("t1", ToplevelEvent::AppId { app_id: s("app") }));
    state.event(window("t1", ToplevelEvent::Identifier { identifier: s("id") }));
    state.event(window("t1", ToplevelEvent::Other));
    assert_eq!(data(&state).title, "Title");
    assert_eq!(data(&state).app_id, "app");
    assert_eq!(data(&state).identifier, "id");
    assert!(!data(&state).done);
    state.event(window("t1", ToplevelEvent::Done));
    assert!(data(&state).done);
    state.event(window("t1", ToplevelEvent::Closed));
    assert_eq!(state.toplevels.len(), 0);
}

#[test]
fn the_states_of_a_window() {
    let mut state = session();
    let bytes = vec![0, 0, 0, 0, 4, 0, 0, 0, 9];
    state.event(cosmic("ct", CosmicToplevelEvent::State { state: bytes }));
    assert_eq!(data(&state).states, vec![TL_STATE_MAXIMIZED, TL_STATE_STICKY]);
}

#[test]
fn the_places_of_a_window() {
    let mut state = session();
    let at = |output: &str, x: i32| CosmicToplevelEvent::Geometry {
        output: s(output),
        x,
        y: -2,
        width: 3,
        height: 4,
    };
    state.event(cosmic("ct", at("o1", 1)));
    state.event(cosmic("ct", at("o2", 5)));
    state.event(cosmic("ct", at("o1", 7)));
    let geometry = &data(&state).geometry;
    assert_eq!(geometry.len(), 2);
    assert_eq!(geometry.get(&s("DP-1")), Some(&(7, -2, 3, 4)));
    assert_eq!(geometry.get(&s("o2")), Some(&(5, -2, 3, 4)));
}

#[test]
fn entering_twice_counts_once() {
    let mut state = session();
    let enter = || cosmic("ct", CosmicToplevelEvent::OutputEnter { output: s("o1") });
    state.event(enter());
    let once = shown(&state);
    state.event(enter());
    assert_eq!(shown(&state), once);
    assert_eq!(data(&state).outputs, vec!["DP-1"]);
    let enter_workspace =
        || cosmic("ct", CosmicToplevelEvent::ExtWorkspaceEnter { workspace: s("w1") });
    state.event(enter_workspace());
    state.event(enter_workspace());
    assert_eq!(data(&state).workspaces, vec!["w1"]);
}

#[test]
fn leaving_undoes_entering() {
    let mut state = session();
    let before = shown(&state);
    state.event(cosmic("ct", CosmicToplevelEvent::OutputEnter { output: s("o2") }));
    assert_eq!(data(&state).outputs, vec!["o2"]);
    state.event(cosmic("ct", CosmicToplevelEvent::OutputLeave { output: s("o2") }));
    assert_eq!(shown(&state), before);
    state.event(cosmic("ct", CosmicToplevelEvent::ExtWorkspaceEnter { workspace: s("w1") }));
    assert_eq!(data(&state).workspaces, vec!["w1"]);
    state.event(cosmic("ct", CosmicToplevelEvent::ExtWorkspaceLeave { workspace: s("w1") }));
    assert_eq!(shown(&state), before);
}

#[test]
fn a_workspace_tells_what_it_is() {
    let mut state = session();
    state.event(workspace("w1", WorkspaceEvent::Id { id: s("id") }));
    state.event(workspace("w1", WorkspaceEvent::Name { name: s("one") }));
    let coordinates = vec![2, 0, 0, 0, 1, 0, 0, 0];
    state.event(workspace("w1", WorkspaceEvent::Coordinates { coordinates }));
    state.event(workspace("w1", WorkspaceEvent::State { state: WS_EXT_ACTIVE }));
    state.event(workspace("w1", WorkspaceEvent::Capabilities { capabilities: 7 }));
    state.event(workspace("w1", WorkspaceEvent::Other));
    assert_eq!(space(&state).id, Some(s("id")));
    assert_eq!(space(&state).name, "one");
    assert_eq!(space(&state).coordinates, vec![2, 1]);
    assert_eq!(space(&state).ext_state, 1);
    state.event(workspace("w1", WorkspaceEvent::Removed));
    assert_eq!(state.workspaces.len(), 0);
}

#[test]
fn a_workspace_extension_tells_more() {
    let mut state = session();
    let tell = |event| Event::CosmicWorkspace { handle: s("cw"), event };
    state.event(tell(CosmicWorkspaceEvent::State { state: 5 }));
    assert_eq!(space(&state).cosmic_state, 5);
    for (number, tiling) in [(1, Some(1)), (0, Some(0)), (2, None), (u32::MAX, None)] {
        state.event(tell(CosmicWorkspaceEvent::TilingState { state: number }));
        assert_eq!(space(&state).tiling, tiling);
    }
    let before = shown(&state);
    state.event(tell(CosmicWorkspaceEvent::Capabilities { capabilities: 3 }));
    state.event(tell(CosmicWorkspaceEvent::Other));
    assert_eq!(shown(&state), before);
}

#[test]
fn groups_have_outputs_and_workspaces() {
    let mut state = session();
    let tell = |group: &str, event| Event::WorkspaceGroup { group: s(group), event };
    state.event(tell("g1", GroupEvent::OutputEnter { output: s("o1") }));
    state.event(tell("g1", GroupEvent::OutputEnter { output: s("o1") }));
    state.event(tell("g1", GroupEvent::WorkspaceEnter { workspace: s("w1") }));
    state.event(tell("g1", GroupEvent::Other));
    assert_eq!(state.groups.get(&s("g1")), Some(&vec![s("DP-1"), s("DP-1")]));
    assert_eq!(space(&state).group, Some(s("g1")));
    state.event(tell("g2", GroupEvent::OutputEnter { output: s("o1") }));
    assert!(state.groups.get(&s("g2")).is_none());
    state.event(Event::NewWorkspaceGroup { group: s("g1") });
    assert_eq!(state.groups.get(&s("g1")), Some(&vec![]));
}

#[test]
fn unknown_objects_change_nothing() {
    let mut state = session();
    let before = shown(&state);
    state.event(window("t9", ToplevelEvent::Title { title: s("x") }));
    state.event(cosmic("t1", CosmicToplevelEvent::OutputEnter { output: s("o1") }));
    state.event(workspace("w9", WorkspaceEvent::Name { name: s("x") }));
    state.event(Event::CosmicWorkspace {
        handle: s("w1"),
        event: CosmicWorkspaceEvent::State { state: 1 },
    });
    state.event(Event::WorkspaceGroup {
        group: s("g1"),
        event: GroupEvent::WorkspaceEnter { workspace: s("w9") },
    });
    state.event(Event::Other);
    assert_eq!(shown(&state), before);
    // the extension of a window that closed has nobody to speak of
    state.event(window("t1", ToplevelEvent::Closed));
    let closed = shown(&state);
    state.event(cosmic("ct", CosmicToplevelEvent::OutputEnter { output: s("o1") }));
    assert_eq!(shown(&state), closed);
}

#[test]
fn other_windows_are_left_alone() {
    let mut state = session();
    state.event(window("t1", ToplevelEvent::Title { title: s("first") }));
    state.event(Event::NewToplevel { toplevel: s("t2") });
    state.event(window("t2", ToplevelEvent::Title { title: s("second") }));
    assert_eq!(data(&state).title, "first");
    state.event(window("t2", ToplevelEvent::Closed));
    assert_eq!(data(&state).title, "first");
    // announced once more, a window is one of which nothing is known
    state.event(Event::NewToplevel { toplevel: s("t1") });
    assert_eq!(data(&state).title, "");
    assert!(state.toplevels.get(&s("t1")).unwrap().cosmic.is_none());
}

#[test]
fn extensions_wait_for_their_globals() {
    let mut state = State::new(ByteOrder::Little);
    state.event(Event::NewToplevel { toplevel: s("t1") });
    state.event(Event::NewToplevel { toplevel: s("t2") });
    state.event(Event::NewWorkspace { workspace: s("w1") });
    assert_eq!(pump_requests(&state), (vec![], vec![]));
    pump_cosmic(&mut state, vec![], vec![]);
    state.event(Event::Bound { global: Global::ToplevelInfo, object: s("info") });
    assert_eq!(pump_requests(&state), (vec![s("t1"), s("t2")], vec![]));
    pump_cosmic(&mut state, vec![s("c1"), s("c2")], vec![]);
    assert_eq!(state.toplevels.get(&s("t2")).unwrap().cosmic, Some(s("c2")));
    assert_eq!(pump_requests(&state), (vec![], vec![]));
    state.event(Event::Bound { global: Global::CosmicWorkspaceManager, object: s("wm") });
    assert_eq!(pump_requests(&state), (vec![], vec![s("w1")]));
    pump_cosmic(&mut state, vec![], vec![s("cw")]);
    assert_eq!(state.workspaces.get(&s("w1")).unwrap().cosmic, Some(s("cw")));
    let pumped = shown(&state);
    pump_cosmic(&mut state, vec![], vec![]);
    assert_eq!(shown(&state), pumped);
    // what the second extension tells is about the second window
    state.event(cosmic("c2", CosmicToplevelEvent::OutputEnter { output: s("o") }));
    assert_eq!(state.toplevels.get(&s("t2")).unwrap().data.outputs, vec!["o"]);
    assert!(state.toplevels.get(&s("t1")).unwrap().data.outputs.is_empty());
}

#[test]
fn what_was_announced_gets_its_extension() {
    let mut state = session();
    for key in ["t2", "t3", "t2"] {
        state.event(Event::NewToplevel { toplevel: s(key) });
    }
    state.event(Event::NewWorkspace { workspace: s("w2") });
    state.event(window("t3", ToplevelEvent::Closed));
    let mgr = Event::Bound { global: Global::ToplevelManager, object: s("mgr") };
    state.event(mgr);
    pump_cosmic(&mut state, vec![s("c2"), s("c3"), s("c4")], vec![s("cw2")]);
    let cosmic_of = |k: &str| state.toplevels.get(&s(k)).unwrap().cosmic.clone();
    assert_eq!(cosmic_of("t1"), Some(s("ct")));
    assert_eq!(cosmic_of("t2"), Some(s("c4")));
    assert!(state.toplevels.get(&s("t3")).is_none());
    assert_eq!(state.workspaces.get(&s("w2")).unwrap().cosmic, Some(s("cw2")));
    assert_eq!(state.toplevels.get(&s("t2")).unwrap().ext, "t2");
    assert_eq!(state.toplevel_mgr, Some(s("mgr")));
}

#[test]
fn objects_are_found_by_name() {
    let mut state = session();
    state.event(workspace("w1", WorkspaceEvent::Name { name: s("one") }));
    assert_eq!(state.workspace_by_name("one").unwrap().ext, "w1");
    assert!(state.workspace_by_name("two").is_none());
    assert_eq!(state.output_by_name("DP-1"), Some(&s("o1")));
    assert_eq!(state.output_by_name("o1"), None);
    assert_eq!(state.any_output(), Some(&s("o1")));
    assert_eq!(state.output_name(&s("o1")), "DP-1");
    assert_eq!(state.output_name(&s("o9")), "o9");
    state.event(Event::OutputName { output: s("o1"), name: s("HDMI-A-1") });
    assert_eq!(state.output_by_name("DP-1"), None);
    assert_eq!(state.output_name(&s("o1")), "HDMI-A-1");
}

#[test]
fn the_compositor_is_done() {
    let mut state = session();
    assert!(!state.toplevels_done);
    state.event(Event::ToplevelInfoDone);
    state.event(Event::Other);
    assert!(state.toplevels_done);
}
