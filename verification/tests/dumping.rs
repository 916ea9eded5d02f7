use cosmic_session::dump::{binding_for, MissingGlobal, State, Toplevel, Workspace};
use cosmic_session::event::{
    Binding, CosmicToplevelEvent, CosmicWorkspaceEvent, Event, Global, GroupEvent, ToplevelEvent,
    WorkspaceEvent,
};
use cosmic_session::report::{report, warning, window_block, workspace_line, write_area};
use cosmic_session::wayland;
use cosmic_session::words::{host_byte_order, ByteOrder};

fn s(text: &str) -> String {
    text.to_string()
}

fn told() -> Vec<Event> {
    let window = |handle: &str, event| Event::Toplevel { handle: s(handle), event };
    let workspace = |handle: &str, event| Event::Workspace { handle: s(handle), event };
    vec![
        Event::Bound { global: Global::ToplevelInfo, object: s("info") },
        Event::Bound { global: Global::CosmicWorkspaceManager, object: s("wm") },
        Event::OutputName { output: s("o1"), name: s("DP-1") },
        Event::NewToplevel { toplevel: s("t1") },
        window("t1", ToplevelEvent::AppId { app_id: s("app") }),
        window("t1", ToplevelEvent::Title { title: s("A \"title\"\n") }),
        window("t1", ToplevelEvent::Identifier { identifier: s("ident") }),
        window("t1", ToplevelEvent::Done),
        window("t1", ToplevelEvent::Other),
        Event::NewWorkspaceGroup { group: s("g1") },
        Event::NewWorkspace { workspace: s("w1") },
        Event::NewWorkspace { workspace: s("w2") },
        workspace("w1", WorkspaceEvent::Name { name: s("uno") }),
        workspace("w1", WorkspaceEvent::Coordinates { coordinates: vec![2, 0, 0, 0] }),
        workspace("w1", WorkspaceEvent::State { state: 26 }),
        workspace("w1", WorkspaceEvent::Capabilities { capabilities: 7 }),
        workspace("w2", WorkspaceEvent::Name { name: s("dos") }),
        workspace("w2", WorkspaceEvent::Id { id: s("ñ") }),
        workspace("w2", WorkspaceEvent::Coordinates { coordinates: vec![1, 0, 0, 0, 9, 0, 0, 0] }),
        Event::WorkspaceGroup {
            group: s("g1"),
            event: GroupEvent::WorkspaceEnter { workspace: s("w1") },
        },
        Event::Other,
    ]
}

fn replies() -> Vec<Event> {
    let cosmic = |event| Event::CosmicToplevel { handle: s("ct"), event };
    let space = |event| Event::CosmicWorkspace { handle: s("c1"), event };
    vec![
        cosmic(CosmicToplevelEvent::State { state: vec![0, 0, 0, 0, 4, 0, 0, 0] }),
        cosmic(CosmicToplevelEvent::OutputEnter { output: s("o1") }),
        cosmic(CosmicToplevelEvent::ExtWorkspaceEnter { workspace: s("w1") }),
        cosmic(CosmicToplevelEvent::ExtWorkspaceEnter { workspace: s("w9") }),
        cosmic(CosmicToplevelEvent::Geometry {
            output: s("o1"),
            x: -1,
            y: 0,
            width: 800,
            height: 600,
        }),
        cosmic(CosmicToplevelEvent::Other),
        space(CosmicWorkspaceEvent::TilingState { state: 1 }),
        space(CosmicWorkspaceEvent::State { state: 255 }),
        space(CosmicWorkspaceEvent::Capabilities { capabilities: 8 }),
        space(CosmicWorkspaceEvent::Other),
    ]
}

fn extended() -> State {
    let mut state = State::new(ByteOrder::Little);
    for event in told() {
        state.event(event);
    }
    state.extend_toplevels(vec![s("ct")]);
    state.extend_workspaces(vec![s("c1"), s("c2")]);
    state
}

fn complete() -> State {
    let mut state = extended();
    for event in replies() {
        state.event(event);
    }
    state
}

fn window(state: &State) -> &Toplevel {
    state.toplevels.get(&s("t1")).unwrap()
}

fn shown(state: &State) -> String {
    format!("{:?}", state)
}

#[test]
fn versions_that_a_dump_binds() {
    let cases = [
        ("ext_foreign_toplevel_list_v1", Global::ToplevelList, 1),
        ("zcosmic_toplevel_info_v1", Global::ToplevelInfo, 3),
        ("ext_workspace_manager_v1", Global::WorkspaceManager, 1),
        ("zcosmic_workspace_manager_v2", Global::CosmicWorkspaceManager, 2),
        ("wl_output", Global::Output, 4),
    ];
    for (interface, global, highest) in cases {
        assert_eq!(binding_for(interface, 9), Some(Binding { global, version: highest }));
        assert_eq!(binding_for(interface, 9), wayland::binding_for(interface, 9));
        assert_eq!(binding_for(interface, 1), Some(Binding { global, version: 1 }));
    }
    assert_eq!(binding_for("zcosmic_toplevel_manager_v1", 4), None);
    assert_eq!(binding_for("wl_seat", 1), None);
}

#[test]
fn a_dump_starts_empty() {
    let state = State::default();
    assert_eq!(state.byte_order, host_byte_order());
    assert_eq!(state.toplevels.len(), 0);
    assert!(!state.toplevels_done);
    assert_eq!(
        report(&state),
        vec!["== OUTPUTS ==", "", "== WORKSPACES ==", "", "== VENTANAS =="]
    );
}

#[test]
fn globals_that_a_dump_needs() {
    let mut state = State::new(ByteOrder::Little);
    assert_eq!(state.toplevel_requests(), Err(MissingGlobal::ToplevelInfo));
    assert_eq!(MissingGlobal::ToplevelInfo.message(), "falta zcosmic_toplevel_info_v1");
    state.event(Event::NewToplevel { toplevel: s("t1") });
    state.event(Event::Bound { global: Global::ToplevelInfo, object: s("info") });
    assert_eq!(state.toplevel_requests(), Ok(vec![s("t1")]));
    assert_eq!(state.workspace_requests(), Err(MissingGlobal::WorkspaceManager));
    assert_eq!(MissingGlobal::WorkspaceManager.message(), "falta zcosmic_workspace_manager_v2");
    for global in
        [Global::WorkspaceManager, Global::ToplevelManager, Global::ToplevelList, Global::Output]
    {
        state.event(Event::Bound { global, object: s("x") });
    }
    assert_eq!(state.workspace_requests(), Err(MissingGlobal::WorkspaceManager));
    state.event(Event::Bound { global: Global::CosmicWorkspaceManager, object: s("wm") });
    assert_eq!(state.workspace_requests(), Ok(vec![]));
}

#[test]
fn extensions_are_asked_for_once() {
    let mut state = State::new(ByteOrder::Little);
    for event in told() {
        state.event(event);
    }
    assert_eq!(state.toplevel_requests(), Ok(vec![s("t1")]));
    assert_eq!(state.workspace_requests(), Ok(vec![s("w1"), s("w2")]));
    state.extend_toplevels(vec![s("ct")]);
    state.extend_workspaces(vec![s("c1"), s("c2")]);
    assert_eq!(state.toplevel_requests(), Ok(vec![]));
    assert_eq!(state.workspace_requests(), Ok(vec![]));
    assert_eq!(state.cosmic_toplevel_map.get(&s("ct")), Some(&s("t1")));
    assert_eq!(state.cosmic_workspace_map.get(&s("c2")), Some(&s("w2")));
    let before = shown(&state);
    state.extend_toplevels(vec![]);
    state.extend_workspaces(vec![]);
    assert_eq!(shown(&state), before);
}

#[test]
fn a_dump_takes_in_what_is_told() {
    let state = complete();
    let t = window(&state);
    assert_eq!(t.app_id, "app");
    assert_eq!(t.title, "A \"title\"\n");
    assert_eq!(t.identifier, "ident");
    assert_eq!(t.states, vec![0, 4]);
    assert_eq!(t.outputs, vec!["DP-1"]);
    assert_eq!(t.workspaces, vec!["w1", "w9"]);
    assert_eq!(t.geometry.get(&s("DP-1")), Some(&(-1, 0, 800, 600)));
    let w = state.workspaces.get(&s("w1")).unwrap();
    assert_eq!(w.id, None);
    assert_eq!(w.coordinates, vec![2]);
    assert_eq!((w.ext_state, w.cosmic_state), (26, 255));
    assert_eq!((w.capabilities, w.cosmic_capabilities), (7, 8));
    assert_eq!(w.tiling, Some(1));
    assert_eq!(w.group, Some(s("g1")));
}

#[test]
fn a_dump_counts_every_entry() {
    let mut state = complete();
    let cosmic = |event| Event::CosmicToplevel { handle: s("ct"), event };
    state.event(cosmic(CosmicToplevelEvent::OutputEnter { output: s("o1") }));
    state.event(cosmic(CosmicToplevelEvent::ExtWorkspaceEnter { workspace: s("w1") }));
    assert_eq!(window(&state).outputs, vec!["DP-1", "DP-1"]);
    assert_eq!(window(&state).workspaces, vec!["w1", "w9", "w1"]);
    state.event(cosmic(CosmicToplevelEvent::OutputLeave { output: s("o1") }));
    state.event(cosmic(CosmicToplevelEvent::ExtWorkspaceLeave { workspace: s("w1") }));
    assert!(window(&state).outputs.is_empty());
    assert_eq!(window(&state).workspaces, vec!["w9"]);
}

#[test]
fn a_group_is_known_once_an_output_enters_it() {
    let mut state = complete();
    let enter = |group: &str, output: &str| Event::WorkspaceGroup {
        group: s(group),
        event: GroupEvent::OutputEnter { output: s(output) },
    };
    state.event(enter("g2", "o1"));
    state.event(enter("g2", "o5"));
    state.event(enter("g1", "o1"));
    assert_eq!(state.groups.get(&s("g2")), Some(&vec![s("DP-1"), s("o5")]));
    assert_eq!(state.groups.get(&s("g1")), Some(&vec![s("DP-1")]));
}

#[test]
fn a_dump_ignores_strangers() {
    let mut state = complete();
    let before = shown(&state);
    state.event(Event::Toplevel { handle: s("t9"), event: ToplevelEvent::Closed });
    state.event(Event::CosmicToplevel {
        handle: s("t1"),
        event: CosmicToplevelEvent::OutputEnter { output: s("o1") },
    });
    state.event(Event::Workspace { handle: s("w9"), event: WorkspaceEvent::Removed });
    state.event(Event::CosmicWorkspace {
        handle: s("w1"),
        event: CosmicWorkspaceEvent::TilingState { state: 0 },
    });
    assert_eq!(shown(&state), before);
}

#[test]
fn what_is_closed_is_not_reported() {
    let mut state = complete();
    state.event(Event::Toplevel { handle: s("t1"), event: ToplevelEvent::Closed });
    state.event(Event::Workspace { handle: s("w2"), event: WorkspaceEvent::Removed });
    let lines = report(&state);
    assert_eq!(lines.len(), 5 + 1 + 1);
    assert_eq!(lines[6], "== VENTANAS ==");
}

#[test]
fn a_dump_knows_what_a_session_knows() {
    let mut session = wayland::State::new(ByteOrder::Little);
    for event in told() {
        session.event(event);
    }
    wayland::pump_cosmic(&mut session, vec![s("ct")], vec![s("c1"), s("c2")]);
    for event in replies() {
        session.event(event);
    }
    let state = complete();
    let one = &session.toplevels.get(&s("t1")).unwrap().data;
    let other = window(&state);
    assert_eq!(one.title, other.title);
    assert_eq!(one.states, other.states);
    assert_eq!(one.outputs, other.outputs);
    assert_eq!(one.workspaces, other.workspaces);
    assert_eq!(session.workspaces.get(&s("w1")).unwrap().data.tiling, Some(1));
}

#[test]
fn the_report() {
    assert_eq!(
        report(&complete()),
        vec![
            "== OUTPUTS ==",
            "  DP-1",
            "",
            "== WORKSPACES ==",
            "  [w2] name=\"dos\" id=Some(\"ñ\") coords=[1, 9] ? ext_state=0x0 cosmic_state=0x0",
            "  [w1] name=\"uno\" id=None coords=[2] tiling ext_state=0x1a cosmic_state=0xff",
            "",
            "== VENTANAS ==",
            "  app — \"A \\\"title\\\"\\n\"",
            "     identifier: ident",
            "     states:     [0, 4]",
            "     outputs:    [\"DP-1\"]",
            "     workspaces: [\"uno\", \"w9\"]",
            "     geometry:   {\"DP-1\": (-1, 0, 800, 600)}",
        ]
    );
}

#[test]
fn workspaces_with_the_same_coordinates_stay_as_they_came() {
    let mut state = State::new(ByteOrder::Little);
    for key in ["b", "a", "c"] {
        state.event(Event::NewWorkspace { workspace: s(key) });
    }
    let lines = report(&state);
    assert!(lines[3].starts_with("  [b]"));
    assert!(lines[4].starts_with("  [a]"));
    assert!(lines[5].starts_with("  [c]"));
}

#[test]
fn the_report_is_written_as_the_formatter_writes() {
    let mut state = complete();
    let name = "tab\t quote\" back\\ ñ \u{200b} 'x'";
    state.event(Event::OutputName { output: s("o1"), name: s(name) });
    let cosmic = |event| Event::CosmicToplevel { handle: s("ct"), event };
    state.event(cosmic(CosmicToplevelEvent::OutputEnter { output: s("o1") }));
    let lines = report(&state);
    assert_eq!(lines[1], format!("  {}", name));
    let outputs = vec![s("DP-1"), s(name)];
    assert_eq!(lines[11], format!("     outputs:    {:?}", outputs));
    let id = Some(s("ñ"));
    assert!(lines[4].contains(&format!("id={:?} coords={:?}", id, vec![1, 9])));
    let place = std::collections::BTreeMap::from([(s("DP-1"), (-1, 0, 800, 600))]);
    assert_eq!(lines[13], format!("     geometry:   {:?}", place));
}

#[test]
fn the_line_on_a_workspace() {
    let mut w = Workspace::default();
    w.tiling = Some(0);
    w.ext_state = u32::MAX;
    assert_eq!(
        workspace_line("k", &w, "N", &Some(s("I"))),
        "  [k] name=N id=Some(I) coords=[] floating ext_state=0xffffffff cosmic_state=0x0"
    );
    w.tiling = Some(2);
    assert!(workspace_line("k", &w, "N", &None).contains(" id=None coords=[] ? "));
}

#[test]
fn the_lines_on_a_window() {
    let t = Toplevel::default();
    assert_eq!(
        window_block(&t, "T", &vec![s("a"), s("b")], &vec![], &vec![s("p"), s("q")]),
        vec![
            "   — T",
            "     identifier: ",
            "     states:     []",
            "     outputs:    [a, b]",
            "     workspaces: []",
            "     geometry:   {p, q}",
        ]
    );
    assert_eq!(write_area("o", (1, -2, 3, i32::MIN)), "o: (1, -2, 3, -2147483648)");
}

#[test]
fn the_warning() {
    let mut state = complete();
    assert_eq!(warning(&state), vec!["", "[aviso] no llegó zcosmic_toplevel_info_v1.done"]);
    state.event(Event::ToplevelInfoDone);
    assert!(warning(&state).is_empty());
}

#[test]
fn names_of_objects_in_a_dump() {
    let state = complete();
    assert_eq!(state.output_name(&s("o1")), "DP-1");
    assert_eq!(state.output_name(&s("o2")), "o2");
    assert_eq!(state.workspace_name(&s("w1")), "uno");
    assert_eq!(state.workspace_name(&s("w9")), "w9");
}
