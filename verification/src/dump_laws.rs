//! What holds of a dump and of its report whatever the compositor tells.

use crate::dump;
use crate::dump::{DumpView, SpaceView, State, WindowView};
use crate::event;
use crate::event::{
    CosmicToplevelEvent, CosmicWorkspaceEvent, Event, Global, GroupEvent, ToplevelEvent,
    WorkspaceEvent,
};
use crate::order;
use crate::report;
use crate::session_laws;
use crate::text;
use crate::wayland;
use crate::wayland::StateView;
use crate::words;
use crate::words::ByteOrder;
use vstd::prelude::*;

verus! {

/// The state after a number of events.
pub open spec fn after_all(s: DumpView, events: Seq<Event>) -> DumpView
    decreases events.len(),
{
    if events.len() == 0 {
        s
    } else {
        after_all(s, events.drop_last()).after(events.last())
    }
}

/// The window that an event is about: the one whose handle it comes from, or the one to
/// which the extension that it comes from is routed.
pub open spec fn subject(s: DumpView, e: Event) -> Option<Seq<char>> {
    match e {
        Event::NewToplevel { toplevel } => Some(toplevel@),
        Event::Toplevel { handle, event } => Some(handle@),
        Event::CosmicToplevel { handle, event } => if s.cosmic_toplevel_map.contains_key(handle@) {
            Some(s.cosmic_toplevel_map[handle@])
        } else {
            None
        },
        _ => None,
    }
}

/// The workspace that an event is about.
pub open spec fn workspace_subject(s: DumpView, e: Event) -> Option<Seq<char>> {
    match e {
        Event::NewWorkspace { workspace } => Some(workspace@),
        Event::Workspace { handle, event } => Some(handle@),
        Event::WorkspaceGroup { group, event: GroupEvent::WorkspaceEnter { workspace } } => Some(
            workspace@,
        ),
        Event::CosmicWorkspace { handle, event } => if s.cosmic_workspace_map.contains_key(
            handle@,
        ) {
            Some(s.cosmic_workspace_map[handle@])
        } else {
            None
        },
        _ => None,
    }
}

/// Whether a live session and a dump know the same of a window: all but on which outputs
/// and workspaces it is counts, and for those which they are.
pub open spec fn same_window(
    one: wayland::ToplevelView,
    other: dump::WindowView,
) -> bool {
    &&& one.identifier == other.identifier
    &&& one.app_id == other.app_id
    &&& one.title == other.title
    &&& one.states == other.states
    &&& one.geometry == other.geometry
    &&& forall|o: Seq<char>| #[trigger]
        one.outputs.contains(o) <==> #[trigger] other.outputs.contains(o)
    &&& forall|w: Seq<char>| #[trigger]
        one.workspaces.contains(w) <==> #[trigger] other.workspaces.contains(w)
}

/// Whether a live session and a dump know the same of a workspace.
pub open spec fn same_workspace(
    one: wayland::WorkspaceView,
    other: dump::SpaceView,
) -> bool {
    &&& one.id == other.id
    &&& one.name == other.name
    &&& one.coordinates == other.coordinates
    &&& one.ext_state == other.ext_state
    &&& one.cosmic_state == other.cosmic_state
    &&& one.tiling == other.tiling
    &&& one.group == other.group
}

/// Whether a live session and a dump know the same of the windows, the workspaces and the
/// outputs.
pub open spec fn agree(s: StateView, d: DumpView) -> bool {
    &&& s.byte_order == d.byte_order
    &&& s.toplevel_info == d.toplevel_info
    &&& s.workspace_cosmic == d.workspace_cosmic
    &&& s.outputs == d.outputs
    &&& s.pending_toplevels == d.pending_toplevels
    &&& s.pending_workspaces == d.pending_workspaces
    &&& s.cosmic_toplevel_map == d.cosmic_toplevel_map
    &&& s.cosmic_workspace_map == d.cosmic_workspace_map
    &&& s.toplevels_done == d.toplevels_done
    &&& forall|k: Seq<char>| #[trigger]
        s.toplevels.contains_key(k) <==> #[trigger] d.toplevels.contains_key(k)
    &&& forall|k: Seq<char>|
        s.toplevels.contains_key(k) ==> same_window(
            (#[trigger] s.toplevels[k]).data,
            #[trigger] d.toplevels[k],
        )
    &&& forall|k: Seq<char>| #[trigger]
        s.workspaces.contains_key(k) <==> #[trigger] d.workspaces.contains_key(k)
    &&& forall|k: Seq<char>|
        s.workspaces.contains_key(k) ==> same_workspace(
            (#[trigger] s.workspaces[k]).data,
            #[trigger] d.workspaces[k],
        )
}

/// A live session and a dump that know the same still do after the same event.
pub proof fn dumps_agree_with_sessions(s: StateView, d: DumpView, e: Event)
    requires
        agree(s, d),
    ensures
        agree(s.after(e), d.after(e)),
{
    match e {
        Event::CosmicToplevel { handle, event } => {
            if s.cosmic_toplevel_map.contains_key(handle@) {
                let ext = s.cosmic_toplevel_map[handle@];
                if s.toplevels.contains_key(ext) {
                    let one = s.toplevels[ext].data;
                    let other = d.toplevels[ext];
                    match event {
                        CosmicToplevelEvent::OutputEnter { output } => {
                            text::with_members(one.outputs, s.output_name(output@));
                            text::push_members(other.outputs, d.output_name(output@));
                        },
                        CosmicToplevelEvent::OutputLeave { output } => {
                            text::without_members(one.outputs, s.output_name(output@));
                            text::without_members(other.outputs, d.output_name(output@));
                        },
                        CosmicToplevelEvent::ExtWorkspaceEnter { workspace } => {
                            text::with_members(one.workspaces, workspace@);
                            text::push_members(other.workspaces, workspace@);
                        },
                        CosmicToplevelEvent::ExtWorkspaceLeave { workspace } => {
                            text::without_members(one.workspaces, workspace@);
                            text::without_members(other.workspaces, workspace@);
                        },
                        _ => {},
                    }
                    assert(same_window(
                        s.after(e).toplevels[ext].data,
                        d.after(e).toplevels[ext],
                    ));
                }
            }
        },
        _ => {},
    }
}

/// A live session and a dump that hear the same from the start know the same.
pub proof fn dumps_know_what_sessions_know(order: ByteOrder, events: Seq<Event>)
    ensures
        agree(
            session_laws::after_all(StateView::unknown(order), events),
            after_all(DumpView::unknown(order), events),
        ),
    decreases events.len(),
{
    if events.len() > 0 {
        dumps_know_what_sessions_know(order, events.drop_last());
        dumps_agree_with_sessions(
            session_laws::after_all(StateView::unknown(order), events.drop_last()),
            after_all(DumpView::unknown(order), events.drop_last()),
            events.last(),
        );
    }
}

/// A live session and a dump that know the same still do after both took in the same
/// extensions, if the globals that make extensions are there.
pub proof fn extensions_keep_agreement(
    s: StateView,
    d: DumpView,
    toplevels: Seq<Seq<char>>,
    workspaces: Seq<Seq<char>>,
)
    requires
        agree(s, d),
        d.missing() is None,
    ensures
        agree(s.pumped(toplevels, workspaces), d.extended(toplevels, workspaces)),
{
    session_laws::pumping_keeps_what_is_known(s, toplevels, workspaces);
    session_laws::pumping_again_changes_nothing(s, toplevels, workspaces);
    let t = s.without_due();
    pumped_routes(t, toplevels, s.due_toplevels());
    pumped_workspace_routes(
        t.with_cosmic_toplevels(toplevels, s.due_toplevels()),
        workspaces,
        s.due_workspaces(),
    );
}

proof fn pumped_routes(s: StateView, extensions: Seq<Seq<char>>, handles: Seq<Seq<char>>)
    ensures
        s.with_cosmic_toplevels(extensions, handles).cosmic_toplevel_map == dump::routed(
            s.cosmic_toplevel_map,
            extensions,
            handles,
        ),
        s.with_cosmic_toplevels(extensions, handles).cosmic_workspace_map
            == s.cosmic_workspace_map,
    decreases handles.len(),
{
    if handles.len() > 0 {
        pumped_routes(s, extensions.drop_last(), handles.drop_last());
    }
}

proof fn pumped_workspace_routes(
    s: StateView,
    extensions: Seq<Seq<char>>,
    handles: Seq<Seq<char>>,
)
    ensures
        s.with_cosmic_workspaces(extensions, handles).cosmic_workspace_map == dump::routed(
            s.cosmic_workspace_map,
            extensions,
            handles,
        ),
        s.with_cosmic_workspaces(extensions, handles).cosmic_toplevel_map == s.cosmic_toplevel_map,
    decreases handles.len(),
{
    if handles.len() > 0 {
        pumped_workspace_routes(s, extensions.drop_last(), handles.drop_last());
    }
}

/// What an object tells that is not known, or an extension that is routed nowhere or to
/// such an object, changes nothing.
pub proof fn strangers_are_ignored(s: DumpView, e: Event)
    requires
        match e {
            Event::Toplevel { handle, event } => !s.toplevels.contains_key(handle@),
            Event::CosmicToplevel { handle, event } => {
                ||| !s.cosmic_toplevel_map.contains_key(handle@)
                ||| !s.toplevels.contains_key(s.cosmic_toplevel_map[handle@])
            },
            Event::Workspace { handle, event } => !s.workspaces.contains_key(handle@),
            Event::CosmicWorkspace { handle, event } => {
                ||| !s.cosmic_workspace_map.contains_key(handle@)
                ||| !s.workspaces.contains_key(s.cosmic_workspace_map[handle@])
            },
            Event::WorkspaceGroup { group, event: GroupEvent::WorkspaceEnter { workspace } } =>
                !s.workspaces.contains_key(workspace@),
            Event::WorkspaceGroup { group, event: GroupEvent::Other } => true,
            Event::Other => true,
            _ => false,
        },
    ensures
        s.after(e) == s,
{
    assert(s.after(e) =~~= s);
}

/// An event changes at most the window and the workspace that it is about: all others are
/// known as before.
pub proof fn others_are_left_alone(s: DumpView, e: Event, k: Seq<char>)
    ensures
        subject(s, e) != Some(k) ==> {
            &&& s.after(e).toplevels.contains_key(k) == s.toplevels.contains_key(k)
            &&& s.toplevels.contains_key(k) ==> s.after(e).toplevels[k] == s.toplevels[k]
        },
        workspace_subject(s, e) != Some(k) ==> {
            &&& s.after(e).workspaces.contains_key(k) == s.workspaces.contains_key(k)
            &&& s.workspaces.contains_key(k) ==> s.after(e).workspaces[k] == s.workspaces[k]
        },
{
}

/// Leaving an output ends all that entering it began: however often the window entered,
/// the state is the one that leaving alone gives.
pub proof fn leaving_an_output_ends_being_on_it(
    s: DumpView,
    handle: String,
    output: String,
    enter: Event,
    leave: Event,
)
    requires
        enter == (Event::CosmicToplevel {
            handle,
            event: CosmicToplevelEvent::OutputEnter { output },
        }),
        leave == (Event::CosmicToplevel {
            handle,
            event: CosmicToplevelEvent::OutputLeave { output },
        }),
    ensures
        s.after(enter).after(leave) == s.after(leave),
        s.cosmic_toplevel_map.contains_key(handle@) && s.toplevels.contains_key(
            s.cosmic_toplevel_map[handle@],
        ) ==> !s.after(leave).toplevels[s.cosmic_toplevel_map[handle@]].outputs.contains(
            s.output_name(output@),
        ),
{
    reveal(Seq::filter);
    let data = s.toplevels[s.cosmic_toplevel_map[handle@]];
    let name = s.output_name(output@);
    text::without_members(data.outputs, name);
    assert(data.outputs.push(name).drop_last() =~= data.outputs);
    assert(s.after(enter).after(leave) =~~= s.after(leave));
}

/// Leaving a workspace ends all that entering it began: however often the window entered,
/// the state is the one that leaving alone gives.
pub proof fn leaving_a_workspace_ends_being_on_it(
    s: DumpView,
    handle: String,
    workspace: String,
    enter: Event,
    leave: Event,
)
    requires
        enter == (Event::CosmicToplevel {
            handle,
            event: CosmicToplevelEvent::ExtWorkspaceEnter { workspace },
        }),
        leave == (Event::CosmicToplevel {
            handle,
            event: CosmicToplevelEvent::ExtWorkspaceLeave { workspace },
        }),
    ensures
        s.after(enter).after(leave) == s.after(leave),
        s.cosmic_toplevel_map.contains_key(handle@) && s.toplevels.contains_key(
            s.cosmic_toplevel_map[handle@],
        ) ==> !s.after(leave).toplevels[s.cosmic_toplevel_map[handle@]].workspaces.contains(
            workspace@,
        ),
{
    reveal(Seq::filter);
    let data = s.toplevels[s.cosmic_toplevel_map[handle@]];
    text::without_members(data.workspaces, workspace@);
    assert(data.workspaces.push(workspace@).drop_last() =~= data.workspaces);
    assert(s.after(enter).after(leave) =~~= s.after(leave));
}

/// A window that closed is forgotten, and no event but the announcement of a window of
/// that handle brings it back. So it is for a workspace that was removed.
pub proof fn what_is_gone_stays_gone(s: DumpView, e: Event, k: Seq<char>)
    ensures
        (e matches Event::Toplevel { handle, event } && event is Closed && handle@ == k)
            ==> !s.after(e).toplevels.contains_key(k),
        !s.toplevels.contains_key(k) && !(e matches Event::NewToplevel { toplevel } && toplevel@
            == k) ==> !s.after(e).toplevels.contains_key(k),
        (e matches Event::Workspace { handle, event } && event is Removed && handle@ == k)
            ==> !s.after(e).workspaces.contains_key(k),
        !s.workspaces.contains_key(k) && !(e matches Event::NewWorkspace { workspace } && workspace@
            == k) ==> !s.after(e).workspaces.contains_key(k),
{
}

/// Globals stay bound and the compositor stays done, and the byte order never changes.
pub proof fn progress_is_kept(s: DumpView, e: Event)
    ensures
        s.missing() is None ==> s.after(e).missing() is None,
        s.toplevels_done ==> s.after(e).toplevels_done,
        !s.toplevels_done ==> (s.after(e).toplevels_done <==> e is ToplevelInfoDone),
        s.after(e).byte_order == s.byte_order,
{
}

/// Once the extensions are there, each of them is routed to the handle that it was asked
/// for, nothing waits any more, and what was known is known as before.
pub proof fn extensions_are_routed(
    s: DumpView,
    toplevels: Seq<Seq<char>>,
    workspaces: Seq<Seq<char>>,
)
    requires
        toplevels.len() == s.pending_toplevels.len(),
        workspaces.len() == s.pending_workspaces.len(),
        toplevels.no_duplicates(),
        workspaces.no_duplicates(),
    ensures
        ({
            let t = s.extended(toplevels, workspaces);
            &&& t.pending_toplevels.len() == 0
            &&& t.pending_workspaces.len() == 0
            &&& t.toplevels == s.toplevels
            &&& t.workspaces == s.workspaces
            &&& t.outputs == s.outputs
            &&& forall|i: int|
                0 <= i < toplevels.len() ==> {
                    &&& t.cosmic_toplevel_map.contains_key(#[trigger] toplevels[i])
                    &&& t.cosmic_toplevel_map[toplevels[i]] == s.pending_toplevels[i]
                }
            &&& forall|i: int|
                0 <= i < workspaces.len() ==> {
                    &&& t.cosmic_workspace_map.contains_key(#[trigger] workspaces[i])
                    &&& t.cosmic_workspace_map[workspaces[i]] == s.pending_workspaces[i]
                }
        }),
{
    routes_lead_back(s.cosmic_toplevel_map, toplevels, s.pending_toplevels);
    routes_lead_back(s.cosmic_workspace_map, workspaces, s.pending_workspaces);
}

/// Each extension of a list leads to the handle of the same place.
proof fn routes_lead_back(
    routes: Map<Seq<char>, Seq<char>>,
    extensions: Seq<Seq<char>>,
    handles: Seq<Seq<char>>,
)
    requires
        extensions.len() == handles.len(),
        extensions.no_duplicates(),
    ensures
        forall|i: int|
            0 <= i < extensions.len() ==> {
                &&& dump::routed(routes, extensions, handles).contains_key(
                    #[trigger] extensions[i],
                )
                &&& dump::routed(routes, extensions, handles)[extensions[i]] == handles[i]
            },
    decreases handles.len(),
{
    if handles.len() > 0 {
        let n = handles.len() - 1;
        routes_lead_back(routes, extensions.drop_last(), handles.drop_last());
        assert forall|i: int| 0 <= i < extensions.len() implies {
            &&& dump::routed(routes, extensions, handles).contains_key(#[trigger] extensions[i])
            &&& dump::routed(routes, extensions, handles)[extensions[i]] == handles[i]
        } by {
            if i < n {
                assert(extensions.drop_last()[i] == extensions[i]);
                assert(handles.drop_last()[i] == handles[i]);
            }
        }
    }
}

/// Where nothing waits, taking in extensions changes nothing.
pub proof fn extending_again_changes_nothing(
    s: DumpView,
    toplevels: Seq<Seq<char>>,
    workspaces: Seq<Seq<char>>,
)
    ensures
        s.extended(toplevels, workspaces).extended(seq![], seq![]) == s.extended(
            toplevels,
            workspaces,
        ),
{
}

/// A dump binds what a live session binds, to the same versions, but for the manager of
/// windows, which it has no use for.
pub proof fn dumps_bind_what_sessions_bind(interface: Seq<char>, offered: u32)
    ensures
        event::binding(dump::supported(interface), offered) == if interface
            == "zcosmic_toplevel_manager_v1"@ {
            None
        } else {
            event::binding(wayland::supported(interface), offered)
        },
{
    reveal_strlit("zcosmic_toplevel_manager_v1");
    reveal_strlit("ext_foreign_toplevel_list_v1");
    reveal_strlit("zcosmic_toplevel_info_v1");
    reveal_strlit("ext_workspace_manager_v1");
    reveal_strlit("zcosmic_workspace_manager_v2");
    reveal_strlit("wl_output");
    assert("zcosmic_toplevel_manager_v1"@.len() == 27);
    assert("ext_foreign_toplevel_list_v1"@.len() == 28);
    assert("zcosmic_toplevel_info_v1"@.len() == 24);
    assert("ext_workspace_manager_v1"@.len() == 24);
    assert("zcosmic_workspace_manager_v2"@.len() == 28);
    assert("wl_output"@.len() == 9);
    if interface == "zcosmic_toplevel_manager_v1"@ {
        assert(dump::supported(interface) is None);
    } else {
        assert(dump::supported(interface) == wayland::supported(interface));
    }
}

/// The report has a line for each output and each workspace and six lines for each window,
/// and five lines of its own.
pub proof fn reports_are_complete(state: State)
    requires
        state.workspaces.order().len() <= usize::MAX,
    ensures
        report::report_of(state).len() == 5 + state.outputs.order().len()
            + state.workspaces.order().len() + 6 * state.toplevels.order().len(),
{
    order::there_is_an_order(report::coordinates(state.workspaces));
    windows_take_six_lines(state, state.toplevels.order().len());
}

proof fn windows_take_six_lines(state: State, n: nat)
    ensures
        report::window_lines(state, n).len() == 6 * n,
    decreases n,
{
    if n > 0 {
        windows_take_six_lines(state, (n - 1) as nat);
    }
}

/// Every output that has a name has its line in the report, in the order in which the
/// outputs came in.
pub proof fn every_output_is_reported(state: State, output: Seq<char>)
    requires
        state.outputs.listed(),
        state.outputs@.contains_key(output),
    ensures
        ({
            let i = state.outputs.order().index_of(output);
            &&& 0 <= i < state.outputs.order().len()
            &&& report::report_of(state)[1 + i] == report::output_text(state.outputs@[output]@)
        }),
{
}

/// The six lines on each window stand together in the report, in the order in which the
/// windows came in.
pub proof fn every_window_is_reported(state: State, window: Seq<char>)
    requires
        state.toplevels.listed(),
        state.toplevels@.contains_key(window),
    ensures
        ({
            let lines = report::window_lines(state, state.toplevels.order().len());
            let i = state.toplevels.order().index_of(window);
            &&& 0 <= i < state.toplevels.order().len()
            &&& lines.subrange(6 * i, 6 * i + 6) == report::window_lines_of(
                state,
                state.toplevels@[window],
            )
        }),
{
    let i = state.toplevels.order().index_of(window);
    windows_stay_where_they_are(state, i, state.toplevels.order().len());
}

proof fn windows_stay_where_they_are(state: State, i: int, n: nat)
    requires
        0 <= i < n,
    ensures
        report::window_lines(state, n).subrange(6 * i, 6 * i + 6)
            == report::window_lines_of(
            state,
            state.toplevels@[state.toplevels.order()[i]],
        ),
    decreases n,
{
    let lines = report::window_lines(state, n);
    let rest = report::window_lines(state, (n - 1) as nat);
    windows_take_six_lines(state, n);
    windows_take_six_lines(state, (n - 1) as nat);
    if i + 1 < n {
        windows_stay_where_they_are(state, i, (n - 1) as nat);
        assert(lines.subrange(6 * i, 6 * i + 6) =~= rest.subrange(
            6 * i,
            6 * i + 6,
        ));
    } else {
        assert(lines.subrange(6 * i, 6 * i + 6) =~= report::window_lines_of(
            state,
            state.toplevels@[state.toplevels.order()[i]],
        ));
    }
}

/// Whether a line is that of a workspace that is known.
pub open spec fn line_of_known(state: State, line: Seq<char>) -> bool {
    exists|k: Seq<char>| #[trigger]
        state.workspaces@.contains_key(k) && line == report::workspace_line_of(
            k,
            state.workspaces@[k]@,
        )
}

/// Every workspace that is known has its line in the report, and every line on workspaces
/// is that of a known one.
pub proof fn every_workspace_is_reported(state: State)
    requires
        state.workspaces.listed(),
        state.workspaces.order().len() <= usize::MAX,
    ensures
        forall|k: Seq<char>| #[trigger]
            state.workspaces@.contains_key(k) ==> report::workspace_lines(
                state.workspaces,
            ).contains(report::workspace_line_of(k, state.workspaces@[k]@)),
        forall|i: int|
            0 <= i < report::workspace_lines(state.workspaces).len() ==> line_of_known(
                state,
                #[trigger] report::workspace_lines(state.workspaces)[i],
            ),
{
    let keys = report::coordinates(state.workspaces);
    let places = report::sorted(keys);
    let lines = report::workspace_lines(state.workspaces);
    order::there_is_an_order(keys);
    assert forall|k: Seq<char>| #[trigger] state.workspaces@.contains_key(k) implies lines.contains(
        report::workspace_line_of(k, state.workspaces@[k]@),
    ) by {
        let i = state.workspaces.order().index_of(k);
        assert(places.contains(i as usize));
        let p = places.index_of(i as usize);
        assert(lines[p] == report::workspace_line_of(k, state.workspaces@[k]@));
    }
    assert forall|i: int| 0 <= i < lines.len() implies line_of_known(
        state,
        #[trigger] lines[i],
    ) by {
        let k = state.workspaces.order()[places[i] as int];
        assert(state.workspaces.order().contains(k));
        assert(state.workspaces@.contains_key(k));
    }
}

/// The workspaces are reported in the order of their coordinates: of two lines, the first
/// is not that of a workspace that comes behind the other.
pub proof fn workspaces_are_reported_in_order(state: State, i: int, j: int)
    requires
        state.workspaces.order().len() <= usize::MAX,
        0 <= i < j < report::workspace_lines(state.workspaces).len(),
    ensures
        ({
            let keys = report::coordinates(state.workspaces);
            let places = report::sorted(keys);
            order::at_most(keys[places[i] as int], keys[places[j] as int])
        }),
{
    let keys = report::coordinates(state.workspaces);
    let places = report::sorted(keys);
    order::there_is_an_order(keys);
    assert(order::comes_before(keys, places[i] as int, places[j] as int));
    order::at_most_is_total(keys[places[i] as int], keys[places[i] as int]);
}

/// A known window that tells a title, an app_id or an identifier has what it told, whatever it
/// had before. Nothing else of it changes, and nothing of the rest. A window that closes is
/// forgotten, and nothing else changes.
pub proof fn a_window_has_what_it_told_last(s: DumpView, handle: String, event: ToplevelEvent)
    requires
        s.toplevels.contains_key(handle@),
    ensures
        ({
            let before = s.toplevels[handle@];
            let t = s.after(Event::Toplevel { handle, event });
            let now = WindowView {
                identifier: match event {
                    ToplevelEvent::Identifier { identifier } => identifier@,
                    _ => before.identifier,
                },
                app_id: match event {
                    ToplevelEvent::AppId { app_id } => app_id@,
                    _ => before.app_id,
                },
                title: match event {
                    ToplevelEvent::Title { title } => title@,
                    _ => before.title,
                },
                states: before.states,
                geometry: before.geometry,
                outputs: before.outputs,
                workspaces: before.workspaces,
            };
            &&& event is Closed ==> t == (DumpView { toplevels: s.toplevels.remove(handle@), ..s })
            &&& !(event is Closed) ==> t == (DumpView {
                toplevels: s.toplevels.insert(handle@, now),
                ..s
            })
        }),
{
    let t = s.after(Event::Toplevel { handle, event });
    let told = s.toplevels.insert(handle@, t.toplevels[handle@]);
    assert(!(event is Closed) ==> t.toplevels =~= told);
    assert(t =~= DumpView { toplevels: t.toplevels, ..s });
}

/// A known window whose extension tells its states has those, and one whose extension tells its
/// place on an output has that place there; the places on other outputs stay. The window lists
/// what it entered once more, and what it left no more. Nothing else of it changes, and nothing
/// of the rest. An output goes by its name, or by its key without one.
pub proof fn a_window_is_as_its_extension_told_last(
    s: DumpView,
    handle: String,
    event: CosmicToplevelEvent,
)
    requires
        s.cosmic_toplevel_map.contains_key(handle@),
        s.toplevels.contains_key(s.cosmic_toplevel_map[handle@]),
    ensures
        ({
            let ext = s.cosmic_toplevel_map[handle@];
            let before = s.toplevels[ext];
            let t = s.after(Event::CosmicToplevel { handle, event });
            let name = |o: Seq<char>|
                if s.outputs.contains_key(o) {
                    s.outputs[o]
                } else {
                    o
                };
            let now = WindowView {
                identifier: before.identifier,
                app_id: before.app_id,
                title: before.title,
                states: match event {
                    CosmicToplevelEvent::State { state } => words::words(s.byte_order, state@),
                    _ => before.states,
                },
                geometry: match event {
                    CosmicToplevelEvent::Geometry { output, x, y, width, height } =>
                        before.geometry.insert(name(output@), (x, y, width, height)),
                    _ => before.geometry,
                },
                outputs: match event {
                    CosmicToplevelEvent::OutputEnter { output } => before.outputs.push(
                        name(output@),
                    ),
                    CosmicToplevelEvent::OutputLeave { output } => before.outputs.filter(
                        |o: Seq<char>| o != name(output@),
                    ),
                    _ => before.outputs,
                },
                workspaces: match event {
                    CosmicToplevelEvent::ExtWorkspaceEnter { workspace } => before.workspaces.push(
                        workspace@,
                    ),
                    CosmicToplevelEvent::ExtWorkspaceLeave { workspace } =>
                        before.workspaces.filter(|w: Seq<char>| w != workspace@),
                    _ => before.workspaces,
                },
            };
            t == (DumpView { toplevels: s.toplevels.insert(ext, now), ..s })
        }),
{
    let ext = s.cosmic_toplevel_map[handle@];
    let before = s.toplevels[ext];
    let t = s.after(Event::CosmicToplevel { handle, event });
    let name = |o: Seq<char>|
        if s.outputs.contains_key(o) {
            s.outputs[o]
        } else {
            o
        };
    match event {
        CosmicToplevelEvent::OutputLeave { output } => {
            assert((|o: Seq<char>| o != name(output@)) =~= (|o: Seq<char>|
                o != s.output_name(output@)));
            assert(t.toplevels[ext].outputs == before.outputs.filter(
                |o: Seq<char>| o != name(output@),
            ));
        },
        _ => {},
    }
    let told = s.toplevels.insert(ext, t.toplevels[ext]);
    assert(t.toplevels =~= told);
}

/// A known workspace that tells an id, a name, coordinates, a state or capabilities has what it
/// told, whatever it had before. Nothing else of it changes, and nothing of the rest. A workspace
/// that is removed is forgotten, and nothing else changes.
pub proof fn a_workspace_has_what_it_told_last(s: DumpView, handle: String, event: WorkspaceEvent)
    requires
        s.workspaces.contains_key(handle@),
    ensures
        ({
            let before = s.workspaces[handle@];
            let t = s.after(Event::Workspace { handle, event });
            let now = SpaceView {
                id: match event {
                    WorkspaceEvent::Id { id } => Some(id@),
                    _ => before.id,
                },
                name: match event {
                    WorkspaceEvent::Name { name } => name@,
                    _ => before.name,
                },
                coordinates: match event {
                    WorkspaceEvent::Coordinates { coordinates } => words::words(
                        s.byte_order,
                        coordinates@,
                    ),
                    _ => before.coordinates,
                },
                ext_state: match event {
                    WorkspaceEvent::State { state } => state,
                    _ => before.ext_state,
                },
                cosmic_state: before.cosmic_state,
                tiling: before.tiling,
                capabilities: match event {
                    WorkspaceEvent::Capabilities { capabilities } => capabilities,
                    _ => before.capabilities,
                },
                cosmic_capabilities: before.cosmic_capabilities,
                group: before.group,
            };
            &&& event is Removed ==> t == (DumpView {
                workspaces: s.workspaces.remove(handle@),
                ..s
            })
            &&& !(event is Removed) ==> t == (DumpView {
                workspaces: s.workspaces.insert(handle@, now),
                ..s
            })
        }),
{
    let t = s.after(Event::Workspace { handle, event });
    let told = s.workspaces.insert(handle@, t.workspaces[handle@]);
    assert(!(event is Removed) ==> t.workspaces =~= told);
    assert(t =~= DumpView { workspaces: t.workspaces, ..s });
}

/// A known workspace whose extension tells a state or capabilities has them; one whose extension
/// tells a tiling state has it if it is 0 or 1, and none otherwise. Nothing else of it changes,
/// and nothing of the rest.
pub proof fn a_workspace_is_as_its_extension_told_last(
    s: DumpView,
    handle: String,
    event: CosmicWorkspaceEvent,
)
    requires
        s.cosmic_workspace_map.contains_key(handle@),
        s.workspaces.contains_key(s.cosmic_workspace_map[handle@]),
    ensures
        ({
            let ext = s.cosmic_workspace_map[handle@];
            let before = s.workspaces[ext];
            let t = s.after(Event::CosmicWorkspace { handle, event });
            let now = SpaceView {
                id: before.id,
                name: before.name,
                coordinates: before.coordinates,
                ext_state: before.ext_state,
                cosmic_state: match event {
                    CosmicWorkspaceEvent::State { state } => state,
                    _ => before.cosmic_state,
                },
                tiling: match event {
                    CosmicWorkspaceEvent::TilingState { state } => if state == 0 || state == 1 {
                        Some(state)
                    } else {
                        None
                    },
                    _ => before.tiling,
                },
                capabilities: before.capabilities,
                cosmic_capabilities: match event {
                    CosmicWorkspaceEvent::Capabilities { capabilities } => capabilities,
                    _ => before.cosmic_capabilities,
                },
                group: before.group,
            };
            t == (DumpView { workspaces: s.workspaces.insert(ext, now), ..s })
        }),
{
    let ext = s.cosmic_workspace_map[handle@];
    let t = s.after(Event::CosmicWorkspace { handle, event });
    let told = s.workspaces.insert(ext, t.workspaces[ext]);
    assert(t.workspaces =~= told);
}

/// A group, known before or not, has the output that entered it behind those that it had, by its
/// name or by its key without one. A known workspace that entered a group is in that group,
/// whichever it was in before. Nothing else changes.
pub proof fn groups_have_what_entered_them(
    s: DumpView,
    group: String,
    output: String,
    workspace: String,
)
    ensures
        ({
            let name = if s.outputs.contains_key(output@) {
                s.outputs[output@]
            } else {
                output@
            };
            let had = if s.groups.contains_key(group@) {
                s.groups[group@]
            } else {
                seq![]
            };
            let event = GroupEvent::OutputEnter { output };
            s.after(Event::WorkspaceGroup { group, event }) == (DumpView {
                groups: s.groups.insert(group@, had.push(name)),
                ..s
            })
        }),
        ({
            let before = s.workspaces[workspace@];
            let event = GroupEvent::WorkspaceEnter { workspace };
            let now = SpaceView {
                id: before.id,
                name: before.name,
                coordinates: before.coordinates,
                ext_state: before.ext_state,
                cosmic_state: before.cosmic_state,
                tiling: before.tiling,
                capabilities: before.capabilities,
                cosmic_capabilities: before.cosmic_capabilities,
                group: Some(group@),
            };
            s.workspaces.contains_key(workspace@)
                ==> s.after(Event::WorkspaceGroup { group, event })
                == (DumpView { workspaces: s.workspaces.insert(workspace@, now), ..s })
        }),
{
}

/// What is announced is added, empty, and a window or a workspace then waits behind those that wait
/// already. Nothing else changes.
pub proof fn what_is_announced_is_added(s: DumpView, object: String)
    ensures
        s.after(Event::NewToplevel { toplevel: object }) == (DumpView {
            toplevels: s.toplevels.insert(
                object@,
                WindowView {
                    identifier: seq![],
                    app_id: seq![],
                    title: seq![],
                    states: seq![],
                    geometry: Map::empty(),
                    outputs: seq![],
                    workspaces: seq![],
                },
            ),
            pending_toplevels: s.pending_toplevels.push(object@),
            ..s
        }),
        s.after(Event::NewWorkspace { workspace: object }) == (DumpView {
            workspaces: s.workspaces.insert(
                object@,
                SpaceView {
                    id: None,
                    name: seq![],
                    coordinates: seq![],
                    ext_state: 0,
                    cosmic_state: 0,
                    tiling: None,
                    capabilities: 0,
                    cosmic_capabilities: 0,
                    group: None,
                },
            ),
            pending_workspaces: s.pending_workspaces.push(object@),
            ..s
        }),
        s.after(Event::NewWorkspaceGroup { group: object }) == (DumpView {
            groups: s.groups.insert(object@, seq![]),
            ..s
        }),
{
}

/// An output has the name that it is given, a global that is needed later is kept under the object
/// that it was bound as, and the compositor is done once it says so. Nothing else changes.
pub proof fn names_and_globals_are_kept(s: DumpView, object: String, name: String)
    ensures
        s.after(Event::OutputName { output: object, name }) == (DumpView {
            outputs: s.outputs.insert(object@, name@),
            ..s
        }),
        s.after(Event::ToplevelInfoDone) == (DumpView { toplevels_done: true, ..s }),
        s.after(Event::Other) == s,
        s.after(Event::Bound { global: Global::ToplevelInfo, object }) == (DumpView {
            toplevel_info: Some(object@),
            ..s
        }),
        s.after(Event::Bound { global: Global::CosmicWorkspaceManager, object }) == (DumpView {
            workspace_cosmic: Some(object@),
            ..s
        }),
        s.after(Event::Bound { global: Global::ToplevelManager, object }) == s,
        s.after(Event::Bound { global: Global::WorkspaceManager, object }) == s,
        s.after(Event::Bound { global: Global::ToplevelList, object }) == s,
        s.after(Event::Bound { global: Global::Output, object }) == s,
{
}

/// Nothing is known at the start.
pub proof fn nothing_is_known_at_the_start(order: ByteOrder)
    ensures
        DumpView::unknown(order) == (DumpView {
            byte_order: order,
            toplevel_info: None,
            workspace_cosmic: None,
            toplevels: Map::empty(),
            workspaces: Map::empty(),
            outputs: Map::empty(),
            pending_toplevels: seq![],
            pending_workspaces: seq![],
            cosmic_toplevel_map: Map::empty(),
            cosmic_workspace_map: Map::empty(),
            groups: Map::empty(),
            toplevels_done: false,
        }),
{
}

/// A known workspace goes by the name that it told last, whatever its id is, and by an empty
/// name until it tells one; an unknown one goes by its key. No event but one by which the
/// workspace is named, announced or removed changes what it goes by.
pub proof fn workspaces_go_by_their_last_name(
    s: DumpView,
    workspace: String,
    name: String,
    e: Event,
)
    ensures
        s.workspaces.contains_key(workspace@) ==> s.after(
            Event::Workspace { handle: workspace, event: WorkspaceEvent::Name { name } },
        ).workspace_name(workspace@) == name@,
        s.after(Event::NewWorkspace { workspace }).workspace_name(workspace@) == Seq::<
            char,
        >::empty(),
        !s.workspaces.contains_key(workspace@) ==> s.workspace_name(workspace@) == workspace@,
        !(e matches Event::NewWorkspace { workspace: w } && w@ == workspace@) && !(
        e matches Event::Workspace { handle, event } && handle@ == workspace@ && (event is Name
            || event is Removed)) ==> s.after(e).workspace_name(workspace@) == s.workspace_name(
            workspace@,
        ),
{
}

/// An output goes by its key until the compositor names it, and then by the last name that it was
/// given.
pub proof fn outputs_go_by_their_last_name(s: DumpView, output: String, name: String, e: Event)
    ensures
        !s.outputs.contains_key(output@) ==> s.output_name(output@) == output@,
        s.after(Event::OutputName { output, name }).output_name(output@) == name@,
        !(e matches Event::OutputName { output: o, name: n } && o@ == output@) ==> s.after(
            e,
        ).output_name(output@) == s.output_name(output@),
{
}

/// The routes of the extensions that are not taken in stay as they are, and so do globals, groups
/// and the byte order.
pub proof fn other_routes_stay(
    s: DumpView,
    toplevels: Seq<Seq<char>>,
    workspaces: Seq<Seq<char>>,
)
    requires
        toplevels.len() == s.pending_toplevels.len(),
        workspaces.len() == s.pending_workspaces.len(),
    ensures
        ({
            let t = s.extended(toplevels, workspaces);
            &&& t == s.with_cosmic_toplevels(toplevels).with_cosmic_workspaces(workspaces)
            &&& t.toplevels == s.toplevels
            &&& t.workspaces == s.workspaces
            &&& t.outputs == s.outputs
            &&& t.pending_toplevels.len() == 0
            &&& t.pending_workspaces.len() == 0
            &&& t.toplevel_info == s.toplevel_info
            &&& t.workspace_cosmic == s.workspace_cosmic
            &&& t.groups == s.groups
            &&& t.byte_order == s.byte_order
            &&& t.toplevels_done == s.toplevels_done
            &&& forall|k: Seq<char>|
                !toplevels.contains(k) ==> (#[trigger] t.cosmic_toplevel_map.contains_key(k)
                    <==> s.cosmic_toplevel_map.contains_key(k)) && (
                s.cosmic_toplevel_map.contains_key(k) ==> t.cosmic_toplevel_map[k]
                    == s.cosmic_toplevel_map[k])
            &&& forall|k: Seq<char>|
                !workspaces.contains(k) ==> (#[trigger] t.cosmic_workspace_map.contains_key(k)
                    <==> s.cosmic_workspace_map.contains_key(k)) && (
                s.cosmic_workspace_map.contains_key(k) ==> t.cosmic_workspace_map[k]
                    == s.cosmic_workspace_map[k])
        }),
{
    routes_of_others(s.cosmic_toplevel_map, toplevels, s.pending_toplevels);
    routes_of_others(s.cosmic_workspace_map, workspaces, s.pending_workspaces);
}

proof fn routes_of_others(
    routes: Map<Seq<char>, Seq<char>>,
    extensions: Seq<Seq<char>>,
    handles: Seq<Seq<char>>,
)
    requires
        extensions.len() == handles.len(),
    ensures
        ({
            let t = dump::routed(routes, extensions, handles);
            forall|k: Seq<char>|
                !extensions.contains(k) ==> (#[trigger] t.contains_key(k)
                    <==> routes.contains_key(k))
                    && (routes.contains_key(k) ==> t[k] == routes[k])
        }),
    decreases handles.len(),
{
    if handles.len() > 0 {
        routes_of_others(routes, extensions.drop_last(), handles.drop_last());
        let rest = dump::routed(routes, extensions.drop_last(), handles.drop_last());
        let t = dump::routed(routes, extensions, handles);
        assert(t == rest.insert(extensions.last(), handles.last()));
        assert forall|k: Seq<char>| !extensions.contains(k) implies (#[trigger] t.contains_key(k)
            <==> routes.contains_key(k)) && (routes.contains_key(k) ==> t[k] == routes[k]) by {
            assert(extensions[extensions.len() - 1] != k);
            if extensions.drop_last().contains(k) {
                let i = extensions.drop_last().index_of(k);
                assert(extensions[i] == k);
            }
            assert(rest.contains_key(k) <==> routes.contains_key(k));
        }
    }
}

/// The models of windows and workspaces are what is kept of them, field by field.
pub proof fn models_are_what_is_kept(window: dump::Toplevel, workspace: dump::Workspace)
    ensures
        window@.identifier == window.identifier@,
        window@.app_id == window.app_id@,
        window@.title == window.title@,
        window@.states == window.states@,
        window@.geometry == window.geometry@,
        window@.outputs == text::texts(window.outputs@),
        window@.workspaces == text::texts(window.workspaces@),
        workspace@.id == text::optional(workspace.id),
        workspace@.name == workspace.name@,
        workspace@.coordinates == workspace.coordinates@,
        workspace@.ext_state == workspace.ext_state,
        workspace@.cosmic_state == workspace.cosmic_state,
        workspace@.tiling == workspace.tiling,
        workspace@.capabilities == workspace.capabilities,
        workspace@.cosmic_capabilities == workspace.cosmic_capabilities,
        workspace@.group == text::optional(workspace.group),
{
}

/// The model of the state is what is kept in it, field by field and key by key.
pub proof fn the_model_of_the_state_is_what_is_kept(s: State)
    ensures
        s@.byte_order == s.byte_order,
        s@.toplevel_info == text::optional(s.toplevel_info),
        s@.workspace_cosmic == text::optional(s.workspace_cosmic),
        s@.pending_toplevels == text::texts(s.pending_toplevels@),
        s@.pending_workspaces == text::texts(s.pending_workspaces@),
        s@.toplevels_done == s.toplevels_done,
        forall|k: Seq<char>| #[trigger]
            s@.toplevels.contains_key(k) <==> s.toplevels@.contains_key(k),
        forall|k: Seq<char>|
            s.toplevels@.contains_key(k) ==> #[trigger] s@.toplevels[k] == s.toplevels@[k]@,
        forall|k: Seq<char>| #[trigger]
            s@.workspaces.contains_key(k) <==> s.workspaces@.contains_key(k),
        forall|k: Seq<char>|
            s.workspaces@.contains_key(k) ==> #[trigger] s@.workspaces[k] == s.workspaces@[k]@,
        forall|k: Seq<char>| #[trigger]
            s@.outputs.contains_key(k) <==> s.outputs@.contains_key(k),
        forall|k: Seq<char>|
            s.outputs@.contains_key(k) ==> #[trigger] s@.outputs[k] == s.outputs@[k]@,
        forall|k: Seq<char>| #[trigger]
            s@.cosmic_toplevel_map.contains_key(k) <==> s.cosmic_toplevel_map@.contains_key(k),
        forall|k: Seq<char>|
            s.cosmic_toplevel_map@.contains_key(k) ==> #[trigger] s@.cosmic_toplevel_map[k]
                == s.cosmic_toplevel_map@[k]@,
        forall|k: Seq<char>| #[trigger]
            s@.cosmic_workspace_map.contains_key(k) <==> s.cosmic_workspace_map@.contains_key(k),
        forall|k: Seq<char>|
            s.cosmic_workspace_map@.contains_key(k) ==> #[trigger] s@.cosmic_workspace_map[k]
                == s.cosmic_workspace_map@[k]@,
        forall|k: Seq<char>| #[trigger]
            s@.groups.contains_key(k) <==> s.groups@.contains_key(k),
        forall|k: Seq<char>|
            s.groups@.contains_key(k) ==> #[trigger] s@.groups[k] == text::texts(s.groups@[k]@),
{
}

/// Of the extensions that go by one key, the last one counts: it is routed to its handle.
pub proof fn the_last_route_counts(
    routes: Map<Seq<char>, Seq<char>>,
    extensions: Seq<Seq<char>>,
    handles: Seq<Seq<char>>,
    i: int,
)
    requires
        extensions.len() == handles.len(),
        0 <= i < extensions.len(),
        forall|j: int| i < j < extensions.len() ==> #[trigger] extensions[j] != extensions[i],
    ensures
        dump::routed(routes, extensions, handles).contains_key(extensions[i]),
        dump::routed(routes, extensions, handles)[extensions[i]] == handles[i],
    decreases handles.len(),
{
    let n = handles.len() - 1;
    if i < n {
        assert(extensions[n] != extensions[i]);
        let front = extensions.drop_last();
        assert forall|j: int| i < j < front.len() implies #[trigger] front[j] != front[i] by {
            assert(extensions[j] != extensions[i]);
        }
        the_last_route_counts(routes, front, handles.drop_last(), i);
    }
}

} // verus!
