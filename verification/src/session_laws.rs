//! What holds of the live state of a session whatever the compositor tells.

use crate::event;
use crate::event::{
    CosmicToplevelEvent, CosmicWorkspaceEvent, Event, Global, GroupEvent, ToplevelEvent,
    WorkspaceEvent,
};
use crate::text;
use crate::wayland;
use crate::wayland::{
    StateView, ToplevelEntryView, ToplevelView, WorkspaceEntryView, WorkspaceView,
};
use crate::words;
use crate::words::ByteOrder;
use vstd::prelude::*;

verus! {

/// Every window and every workspace is filed under its own handle, and no window lists
/// an output or a workspace twice.
pub open spec fn consistent(s: StateView) -> bool {
    &&& forall|k: Seq<char>| #[trigger]
        s.toplevels.contains_key(k) ==> {
            &&& s.toplevels[k].ext == k
            &&& s.toplevels[k].data.outputs.no_duplicates()
            &&& s.toplevels[k].data.workspaces.no_duplicates()
        }
    &&& forall|k: Seq<char>| #[trigger]
        s.workspaces.contains_key(k) ==> s.workspaces[k].ext == k
}

/// The state after a number of events.
pub open spec fn after_all(s: StateView, events: Seq<Event>) -> StateView
    decreases events.len(),
{
    if events.len() == 0 {
        s
    } else {
        after_all(s, events.drop_last()).after(events.last())
    }
}

/// The window that an event is about: the one whose handle it comes from, or the one to
/// which the extension that it comes from is routed.
pub open spec fn subject(s: StateView, e: Event) -> Option<Seq<char>> {
    match e {
        Event::NewToplevel { toplevel } => Some(toplevel@),
        Event::Toplevel { handle, event } => Some(handle@),
        Event::CosmicToplevel { handle, event } => if s.cosmic_toplevel_map.contains_key(handle@) {
            Some(s.cosmic_toplevel_map[handle@])
        } else {
            None
        },
        _ => None,
    }
}

/// The workspace that an event is about.
pub open spec fn workspace_subject(s: StateView, e: Event) -> Option<Seq<char>> {
    match e {
        Event::NewWorkspace { workspace } => Some(workspace@),
        Event::Workspace { handle, event } => Some(handle@),
        Event::WorkspaceGroup { group, event: GroupEvent::WorkspaceEnter { workspace } } => Some(
            workspace@,
        ),
        Event::CosmicWorkspace { handle, event } => if s.cosmic_workspace_map.contains_key(
            handle@,
        ) {
            Some(s.cosmic_workspace_map[handle@])
        } else {
            None
        },
        _ => None,
    }
}

/// A session of which nothing is known is consistent.
pub proof fn nothing_known_is_consistent(order: ByteOrder)
    ensures
        consistent(StateView::unknown(order)),
{
}

/// No event makes a consistent state inconsistent.
pub proof fn events_keep_consistency(s: StateView, e: Event)
    requires
        consistent(s),
    ensures
        consistent(s.after(e)),
{
    match e {
        Event::CosmicToplevel { handle, event } => {
            if s.cosmic_toplevel_map.contains_key(handle@) {
                let ext = s.cosmic_toplevel_map[handle@];
                let data = s.toplevels[ext].data;
                if s.toplevels.contains_key(ext) {
                    match event {
                        CosmicToplevelEvent::OutputLeave { output } => {
                            text::without_keeps_no_duplicates(data.outputs, s.output_name(output@));
                        },
                        CosmicToplevelEvent::ExtWorkspaceLeave { workspace } => {
                            text::without_keeps_no_duplicates(data.workspaces, workspace@);
                        },
                        _ => {},
                    }
                }
            }
        },
        _ => {},
    }
}

/// Whatever a compositor tells, the state is consistent.
pub proof fn sessions_are_consistent(order: ByteOrder, events: Seq<Event>)
    ensures
        consistent(after_all(StateView::unknown(order), events)),
    decreases events.len(),
{
    if events.len() > 0 {
        sessions_are_consistent(order, events.drop_last());
        events_keep_consistency(
            after_all(StateView::unknown(order), events.drop_last()),
            events.last(),
        );
    }
}

/// Taking in the extensions that were due keeps the state consistent.
pub proof fn pumping_keeps_consistency(
    s: StateView,
    toplevels: Seq<Seq<char>>,
    workspaces: Seq<Seq<char>>,
)
    requires
        consistent(s),
    ensures
        consistent(s.pumped(toplevels, workspaces)),
{
    let t = s.without_due();
    adopting_toplevels(t, toplevels, s.due_toplevels());
    adopting_workspaces(
        t.with_cosmic_toplevels(toplevels, s.due_toplevels()),
        workspaces,
        s.due_workspaces(),
    );
}

/// What routing extensions to windows leaves as it was.
proof fn adopting_toplevels(s: StateView, extensions: Seq<Seq<char>>, handles: Seq<Seq<char>>)
    ensures
        ({
            let t = s.with_cosmic_toplevels(extensions, handles);
            &&& t == StateView {
                toplevels: t.toplevels,
                cosmic_toplevel_map: t.cosmic_toplevel_map,
                ..s
            }
            &&& t.toplevels.dom() == s.toplevels.dom()
            &&& forall|k: Seq<char>| #[trigger]
                s.toplevels.contains_key(k) ==> {
                    &&& t.toplevels[k].ext == s.toplevels[k].ext
                    &&& t.toplevels[k].data == s.toplevels[k].data
                }
            &&& forall|k: Seq<char>|
                s.toplevels.contains_key(k) && !handles.contains(k)
                    ==> #[trigger] t.toplevels[k] == s.toplevels[k]
        }),
    decreases handles.len(),
{
    if handles.len() > 0 {
        adopting_toplevels(s, extensions.drop_last(), handles.drop_last());
        let rest = s.with_cosmic_toplevels(extensions.drop_last(), handles.drop_last());
        let t = s.with_cosmic_toplevels(extensions, handles);
        assert(t.toplevels.dom() =~= s.toplevels.dom());
        assert forall|k: Seq<char>|
            s.toplevels.contains_key(k) && !handles.contains(k) implies #[trigger] t.toplevels[k]
            == s.toplevels[k] by {
            assert(handles.contains(handles.last()));
            if handles.drop_last().contains(k) {
                let i = handles.drop_last().index_of(k);
                assert(handles[i] == k);
            }
        }
    }
}

/// What routing extensions to workspaces leaves as it was.
proof fn adopting_workspaces(s: StateView, extensions: Seq<Seq<char>>, handles: Seq<Seq<char>>)
    ensures
        ({
            let t = s.with_cosmic_workspaces(extensions, handles);
            &&& t == StateView {
                workspaces: t.workspaces,
                cosmic_workspace_map: t.cosmic_workspace_map,
                ..s
            }
            &&& t.workspaces.dom() == s.workspaces.dom()
            &&& forall|k: Seq<char>| #[trigger]
                s.workspaces.contains_key(k) ==> {
                    &&& t.workspaces[k].ext == s.workspaces[k].ext
                    &&& t.workspaces[k].data == s.workspaces[k].data
                }
            &&& forall|k: Seq<char>|
                s.workspaces.contains_key(k) && !handles.contains(k)
                    ==> #[trigger] t.workspaces[k] == s.workspaces[k]
        }),
    decreases handles.len(),
{
    if handles.len() > 0 {
        adopting_workspaces(s, extensions.drop_last(), handles.drop_last());
        let t = s.with_cosmic_workspaces(extensions, handles);
        assert(t.workspaces.dom() =~= s.workspaces.dom());
        assert forall|k: Seq<char>|
            s.workspaces.contains_key(k) && !handles.contains(k) implies #[trigger] t.workspaces[k]
            == s.workspaces[k] by {
            assert(handles.contains(handles.last()));
            if handles.drop_last().contains(k) {
                let i = handles.drop_last().index_of(k);
                assert(handles[i] == k);
            }
        }
    }
}

/// Taking in the extensions that were due changes nothing that is known of windows,
/// workspaces, outputs, groups and globals, and it adds and forgets none of them. A window
/// or a workspace that was not waiting for its extension stays as it was altogether.
pub proof fn pumping_keeps_what_is_known(
    s: StateView,
    toplevels: Seq<Seq<char>>,
    workspaces: Seq<Seq<char>>,
)
    ensures
        ({
            let t = s.pumped(toplevels, workspaces);
            &&& t.toplevels.dom() == s.toplevels.dom()
            &&& forall|k: Seq<char>| #[trigger]
                s.toplevels.contains_key(k) ==> {
                    &&& t.toplevels[k].data == s.toplevels[k].data
                    &&& t.toplevels[k].ext == s.toplevels[k].ext
                    &&& !s.pending_toplevels.contains(k) ==> t.toplevels[k] == s.toplevels[k]
                }
            &&& t.workspaces.dom() == s.workspaces.dom()
            &&& forall|k: Seq<char>| #[trigger]
                s.workspaces.contains_key(k) ==> {
                    &&& t.workspaces[k].data == s.workspaces[k].data
                    &&& t.workspaces[k].ext == s.workspaces[k].ext
                    &&& !s.pending_workspaces.contains(k) ==> t.workspaces[k] == s.workspaces[k]
                }
            &&& t.outputs == s.outputs
            &&& t.groups == s.groups
            &&& t.toplevels_done == s.toplevels_done
            &&& t.byte_order == s.byte_order
            &&& t.toplevel_info == s.toplevel_info
            &&& t.toplevel_mgr == s.toplevel_mgr
            &&& t.workspace_mgr == s.workspace_mgr
            &&& t.workspace_cosmic == s.workspace_cosmic
        }),
{
    let t = s.without_due();
    adopting_toplevels(t, toplevels, s.due_toplevels());
    adopting_workspaces(
        t.with_cosmic_toplevels(toplevels, s.due_toplevels()),
        workspaces,
        s.due_workspaces(),
    );
}

/// Once the extensions that were due are there, none is due, and pumping again changes
/// nothing.
pub proof fn pumping_again_changes_nothing(
    s: StateView,
    toplevels: Seq<Seq<char>>,
    workspaces: Seq<Seq<char>>,
)
    ensures
        s.pumped(toplevels, workspaces).due_toplevels() == Seq::<Seq<char>>::empty(),
        s.pumped(toplevels, workspaces).due_workspaces() == Seq::<Seq<char>>::empty(),
        s.pumped(toplevels, workspaces).pumped(seq![], seq![]) == s.pumped(toplevels, workspaces),
{
    let t = s.without_due();
    adopting_toplevels(t, toplevels, s.due_toplevels());
    adopting_workspaces(
        t.with_cosmic_toplevels(toplevels, s.due_toplevels()),
        workspaces,
        s.due_workspaces(),
    );
    let p = s.pumped(toplevels, workspaces);
    assert(p.without_due() =~= p);
}

/// The routes that adopting extensions makes.
proof fn adopted_routes(
    s: StateView,
    extensions: Seq<Seq<char>>,
    handles: Seq<Seq<char>>,
    i: int,
)
    requires
        extensions.len() == handles.len(),
        extensions.no_duplicates(),
        0 <= i < handles.len(),
    ensures
        ({
            let t = s.with_cosmic_toplevels(extensions, handles);
            &&& t.cosmic_toplevel_map.contains_key(extensions[i])
            &&& t.cosmic_toplevel_map[extensions[i]] == handles[i]
            &&& s.toplevels.contains_key(handles[i]) && handles.no_duplicates()
                ==> t.toplevels[handles[i]].cosmic == Some(extensions[i])
        }),
    decreases handles.len(),
{
    adopting_toplevels(s, extensions.drop_last(), handles.drop_last());
    if i < handles.len() - 1 {
        adopted_routes(s, extensions.drop_last(), handles.drop_last(), i);
        assert(extensions[i] != extensions.last());
    }
}

/// The routes that adopting extensions of workspaces makes.
proof fn adopted_workspace_routes(
    s: StateView,
    extensions: Seq<Seq<char>>,
    handles: Seq<Seq<char>>,
    i: int,
)
    requires
        extensions.len() == handles.len(),
        extensions.no_duplicates(),
        0 <= i < handles.len(),
    ensures
        ({
            let t = s.with_cosmic_workspaces(extensions, handles);
            &&& t.cosmic_workspace_map.contains_key(extensions[i])
            &&& t.cosmic_workspace_map[extensions[i]] == handles[i]
            &&& s.workspaces.contains_key(handles[i]) && handles.no_duplicates()
                ==> t.workspaces[handles[i]].cosmic == Some(extensions[i])
        }),
    decreases handles.len(),
{
    adopting_workspaces(s, extensions.drop_last(), handles.drop_last());
    if i < handles.len() - 1 {
        adopted_workspace_routes(s, extensions.drop_last(), handles.drop_last(), i);
        assert(extensions[i] != extensions.last());
    }
}

/// Once the extensions that were due are there, what an extension tells is told of the
/// window or the workspace that it was made for, and that one knows its extension.
pub proof fn extensions_are_routed(
    s: StateView,
    toplevels: Seq<Seq<char>>,
    workspaces: Seq<Seq<char>>,
)
    requires
        toplevels.len() == s.due_toplevels().len(),
        workspaces.len() == s.due_workspaces().len(),
        toplevels.no_duplicates(),
        workspaces.no_duplicates(),
    ensures
        ({
            let t = s.pumped(toplevels, workspaces);
            &&& forall|i: int|
                0 <= i < toplevels.len() ==> {
                    let handle = s.due_toplevels()[i];
                    &&& t.cosmic_toplevel_map.contains_key(#[trigger] toplevels[i])
                    &&& t.cosmic_toplevel_map[toplevels[i]] == handle
                    &&& s.toplevels.contains_key(handle) && s.due_toplevels().no_duplicates()
                        ==> t.toplevels[handle].cosmic == Some(toplevels[i])
                }
            &&& forall|i: int|
                0 <= i < workspaces.len() ==> {
                    let handle = s.due_workspaces()[i];
                    &&& t.cosmic_workspace_map.contains_key(#[trigger] workspaces[i])
                    &&& t.cosmic_workspace_map[workspaces[i]] == handle
                    &&& s.workspaces.contains_key(handle) && s.due_workspaces().no_duplicates()
                        ==> t.workspaces[handle].cosmic == Some(workspaces[i])
                }
        }),
{
    let a = s.without_due();
    let b = a.with_cosmic_toplevels(toplevels, s.due_toplevels());
    let t = s.pumped(toplevels, workspaces);
    adopting_toplevels(a, toplevels, s.due_toplevels());
    adopting_workspaces(b, workspaces, s.due_workspaces());
    assert forall|i: int| 0 <= i < toplevels.len() implies {
        let handle = s.due_toplevels()[i];
        &&& t.cosmic_toplevel_map.contains_key(#[trigger] toplevels[i])
        &&& t.cosmic_toplevel_map[toplevels[i]] == handle
        &&& s.toplevels.contains_key(handle) && s.due_toplevels().no_duplicates()
            ==> t.toplevels[handle].cosmic == Some(toplevels[i])
    } by {
        adopted_routes(a, toplevels, s.due_toplevels(), i);
    }
    assert forall|i: int| 0 <= i < workspaces.len() implies {
        let handle = s.due_workspaces()[i];
        &&& t.cosmic_workspace_map.contains_key(#[trigger] workspaces[i])
        &&& t.cosmic_workspace_map[workspaces[i]] == handle
        &&& s.workspaces.contains_key(handle) && s.due_workspaces().no_duplicates()
            ==> t.workspaces[handle].cosmic == Some(workspaces[i])
    } by {
        adopted_workspace_routes(b, workspaces, s.due_workspaces(), i);
    }
}

/// Every window and every workspace has its extension or waits for it.
pub open spec fn extended_or_waiting(s: StateView) -> bool {
    &&& forall|k: Seq<char>| #[trigger]
        s.toplevels.contains_key(k) && s.toplevels[k].cosmic is None
            ==> s.pending_toplevels.contains(k)
    &&& forall|k: Seq<char>| #[trigger]
        s.workspaces.contains_key(k) && s.workspaces[k].cosmic is None
            ==> s.pending_workspaces.contains(k)
}

/// Whether an extension is one of those that were made for a handle, where extension number
/// `i` of a list is made for handle number `i` of another.
pub open spec fn made_for(
    extension: Option<Seq<char>>,
    handle: Seq<char>,
    extensions: Seq<Seq<char>>,
    handles: Seq<Seq<char>>,
) -> bool {
    exists|i: int|
        0 <= i < handles.len() && handles[i] == handle && extension == Some(
            #[trigger] extensions[i],
        )
}

/// No event leaves a window or a workspace without both an extension and a place among those
/// that wait for one.
pub proof fn events_keep_the_waiting(s: StateView, e: Event)
    requires
        extended_or_waiting(s),
    ensures
        extended_or_waiting(s.after(e)),
{
    match e {
        Event::NewToplevel { toplevel } => {
            text::push_members(s.pending_toplevels, toplevel@);
        },
        Event::NewWorkspace { workspace } => {
            text::push_members(s.pending_workspaces, workspace@);
        },
        _ => {},
    }
}

proof fn adopted_windows_are_extended(
    s: StateView,
    extensions: Seq<Seq<char>>,
    handles: Seq<Seq<char>>,
    k: Seq<char>,
)
    requires
        extensions.len() == handles.len(),
        s.toplevels.contains_key(k),
        handles.contains(k),
    ensures
        made_for(
            s.with_cosmic_toplevels(extensions, handles).toplevels[k].cosmic,
            k,
            extensions,
            handles,
        ),
    decreases handles.len(),
{
    let n = handles.len() - 1;
    adopting_toplevels(s, extensions.drop_last(), handles.drop_last());
    if handles.last() == k {
        assert(extensions[n] == extensions.last());
    } else {
        let j = handles.index_of(k);
        assert(handles.drop_last()[j] == k);
        adopted_windows_are_extended(s, extensions.drop_last(), handles.drop_last(), k);
        let i = choose|i: int|
            0 <= i < handles.len() - 1 && handles.drop_last()[i] == k
                && s.with_cosmic_toplevels(
                extensions.drop_last(),
                handles.drop_last(),
            ).toplevels[k].cosmic == Some(#[trigger] extensions.drop_last()[i]);
        assert(extensions[i] == extensions.drop_last()[i]);
    }
}

proof fn adopted_workspaces_are_extended(
    s: StateView,
    extensions: Seq<Seq<char>>,
    handles: Seq<Seq<char>>,
    k: Seq<char>,
)
    requires
        extensions.len() == handles.len(),
        s.workspaces.contains_key(k),
        handles.contains(k),
    ensures
        made_for(
            s.with_cosmic_workspaces(extensions, handles).workspaces[k].cosmic,
            k,
            extensions,
            handles,
        ),
    decreases handles.len(),
{
    let n = handles.len() - 1;
    adopting_workspaces(s, extensions.drop_last(), handles.drop_last());
    if handles.last() == k {
        assert(extensions[n] == extensions.last());
    } else {
        let j = handles.index_of(k);
        assert(handles.drop_last()[j] == k);
        adopted_workspaces_are_extended(s, extensions.drop_last(), handles.drop_last(), k);
        let i = choose|i: int|
            0 <= i < handles.len() - 1 && handles.drop_last()[i] == k
                && s.with_cosmic_workspaces(
                extensions.drop_last(),
                handles.drop_last(),
            ).workspaces[k].cosmic == Some(#[trigger] extensions.drop_last()[i]);
        assert(extensions[i] == extensions.drop_last()[i]);
    }
}

/// A window or a workspace whose extension was due has one that was made for it.
pub proof fn what_was_due_is_extended(
    s: StateView,
    toplevels: Seq<Seq<char>>,
    workspaces: Seq<Seq<char>>,
)
    requires
        toplevels.len() == s.due_toplevels().len(),
        workspaces.len() == s.due_workspaces().len(),
    ensures
        ({
            let t = s.pumped(toplevels, workspaces);
            &&& forall|k: Seq<char>| #[trigger]
                s.toplevels.contains_key(k) && s.due_toplevels().contains(k) ==> made_for(
                    t.toplevels[k].cosmic,
                    k,
                    toplevels,
                    s.due_toplevels(),
                )
            &&& forall|k: Seq<char>| #[trigger]
                s.workspaces.contains_key(k) && s.due_workspaces().contains(k) ==> made_for(
                    t.workspaces[k].cosmic,
                    k,
                    workspaces,
                    s.due_workspaces(),
                )
        }),
{
    let a = s.without_due();
    let b = a.with_cosmic_toplevels(toplevels, s.due_toplevels());
    let t = s.pumped(toplevels, workspaces);
    adopting_toplevels(a, toplevels, s.due_toplevels());
    adopting_workspaces(b, workspaces, s.due_workspaces());
    assert forall|k: Seq<char>| #[trigger]
        s.toplevels.contains_key(k) && s.due_toplevels().contains(k) implies made_for(
        t.toplevels[k].cosmic,
        k,
        toplevels,
        s.due_toplevels(),
    ) by {
        adopted_windows_are_extended(a, toplevels, s.due_toplevels(), k);
    }
    assert forall|k: Seq<char>| #[trigger]
        s.workspaces.contains_key(k) && s.due_workspaces().contains(k) implies made_for(
        t.workspaces[k].cosmic,
        k,
        workspaces,
        s.due_workspaces(),
    ) by {
        adopted_workspaces_are_extended(b, workspaces, s.due_workspaces(), k);
    }
}

/// Taking in the extensions that were due leaves no window and no workspace without both an
/// extension and a place among those that wait for one.
pub proof fn pumping_keeps_the_waiting(
    s: StateView,
    toplevels: Seq<Seq<char>>,
    workspaces: Seq<Seq<char>>,
)
    requires
        extended_or_waiting(s),
        toplevels.len() == s.due_toplevels().len(),
        workspaces.len() == s.due_workspaces().len(),
    ensures
        extended_or_waiting(s.pumped(toplevels, workspaces)),
{
    pumping_keeps_what_is_known(s, toplevels, workspaces);
    what_was_due_is_extended(s, toplevels, workspaces);
    let a = s.without_due();
    adopting_toplevels(a, toplevels, s.due_toplevels());
    adopting_workspaces(
        a.with_cosmic_toplevels(toplevels, s.due_toplevels()),
        workspaces,
        s.due_workspaces(),
    );
    let t = s.pumped(toplevels, workspaces);
    assert forall|k: Seq<char>| #[trigger]
        t.toplevels.contains_key(k)
            && t.toplevels[k].cosmic is None implies t.pending_toplevels.contains(k) by {
        assert(s.toplevels.contains_key(k));
    }
    assert forall|k: Seq<char>| #[trigger]
        t.workspaces.contains_key(k)
            && t.workspaces[k].cosmic is None implies t.pending_workspaces.contains(k) by {
        assert(s.workspaces.contains_key(k));
    }
}

/// Once both globals that make extensions are bound, a pump gives every window and every
/// workspace that was announced before its extension.
pub proof fn what_was_announced_is_extended(
    s: StateView,
    toplevels: Seq<Seq<char>>,
    workspaces: Seq<Seq<char>>,
)
    requires
        extended_or_waiting(s),
        s.toplevel_info is Some,
        s.workspace_cosmic is Some,
        toplevels.len() == s.due_toplevels().len(),
        workspaces.len() == s.due_workspaces().len(),
    ensures
        ({
            let t = s.pumped(toplevels, workspaces);
            &&& forall|k: Seq<char>| #[trigger]
                s.toplevels.contains_key(k) ==> t.toplevels[k].cosmic is Some
            &&& forall|k: Seq<char>| #[trigger]
                s.workspaces.contains_key(k) ==> t.workspaces[k].cosmic is Some
        }),
{
    pumping_keeps_what_is_known(s, toplevels, workspaces);
    what_was_due_is_extended(s, toplevels, workspaces);
}

/// Whatever a compositor tells, every window and every workspace has its extension or waits
/// for it.
pub proof fn sessions_keep_the_waiting(order: ByteOrder, events: Seq<Event>)
    ensures
        extended_or_waiting(after_all(StateView::unknown(order), events)),
    decreases events.len(),
{
    if events.len() > 0 {
        sessions_keep_the_waiting(order, events.drop_last());
        events_keep_the_waiting(
            after_all(StateView::unknown(order), events.drop_last()),
            events.last(),
        );
    }
}

/// Hearing the same thing twice in a row is like hearing it once, but for the events that
/// announce a window or a workspace, which then waits for its extension twice, and for
/// an output that enters a group, which the group then lists twice.
pub proof fn hearing_it_again_changes_nothing(s: StateView, e: Event)
    requires
        !(e is NewToplevel),
        !(e is NewWorkspace),
        !(e matches Event::WorkspaceGroup { group, event } && event is OutputEnter),
    ensures
        s.after(e).after(e) == s.after(e),
{
    match e {
        Event::CosmicToplevel { handle, event } => {
            if s.cosmic_toplevel_map.contains_key(handle@) {
                let data = s.toplevels[s.cosmic_toplevel_map[handle@]].data;
                match event {
                    CosmicToplevelEvent::OutputEnter { output } => {
                        let name = s.output_name(output@);
                        assert(!data.outputs.contains(name) ==> data.outputs.push(
                            name,
                        )[data.outputs.len() as int] == name);
                    },
                    CosmicToplevelEvent::OutputLeave { output } => {
                        let name = s.output_name(output@);
                        text::without_members(data.outputs, name);
                        text::without_absent(text::without(data.outputs, name), name);
                    },
                    CosmicToplevelEvent::ExtWorkspaceEnter { workspace } => {
                        assert(!data.workspaces.contains(workspace@) ==> data.workspaces.push(
                            workspace@,
                        )[data.workspaces.len() as int] == workspace@);
                    },
                    CosmicToplevelEvent::ExtWorkspaceLeave { workspace } => {
                        text::without_members(data.workspaces, workspace@);
                        text::without_absent(
                            text::without(data.workspaces, workspace@),
                            workspace@,
                        );
                    },
                    _ => {},
                }
            }
        },
        _ => {},
    }
    assert(s.after(e).after(e) =~~= s.after(e));
}

/// Leaving an output undoes having entered it, for a window that was not on it: the state
/// is what it was before both.
pub proof fn leaving_an_output_undoes_entering_it(
    s: StateView,
    handle: String,
    output: String,
    enter: Event,
    leave: Event,
)
    requires
        enter == (Event::CosmicToplevel {
            handle,
            event: CosmicToplevelEvent::OutputEnter { output },
        }),
        leave == (Event::CosmicToplevel {
            handle,
            event: CosmicToplevelEvent::OutputLeave { output },
        }),
        !s.toplevels[s.cosmic_toplevel_map[handle@]].data.outputs.contains(s.output_name(output@)),
    ensures
        s.after(enter).after(leave) == s,
{
    let data = s.toplevels[s.cosmic_toplevel_map[handle@]].data;
    text::without_undoes_with(data.outputs, s.output_name(output@));
    assert(s.after(enter).after(leave) =~~= s);
}

/// Leaving a workspace undoes having entered it, for a window that was not on it: the
/// state is what it was before both.
pub proof fn leaving_a_workspace_undoes_entering_it(
    s: StateView,
    handle: String,
    workspace: String,
    enter: Event,
    leave: Event,
)
    requires
        enter == (Event::CosmicToplevel {
            handle,
            event: CosmicToplevelEvent::ExtWorkspaceEnter { workspace },
        }),
        leave == (Event::CosmicToplevel {
            handle,
            event: CosmicToplevelEvent::ExtWorkspaceLeave { workspace },
        }),
        !s.toplevels[s.cosmic_toplevel_map[handle@]].data.workspaces.contains(workspace@),
    ensures
        s.after(enter).after(leave) == s,
{
    let data = s.toplevels[s.cosmic_toplevel_map[handle@]].data;
    text::without_undoes_with(data.workspaces, workspace@);
    assert(s.after(enter).after(leave) =~~= s);
}

/// A known window is on an output after it entered it and not after it left it, and what
/// it is otherwise on stays the same. So it is for workspaces.
pub proof fn windows_are_where_they_went(s: StateView, handle: String, event: CosmicToplevelEvent)
    requires
        s.cosmic_toplevel_map.contains_key(handle@),
        s.toplevels.contains_key(s.cosmic_toplevel_map[handle@]),
    ensures
        ({
            let ext = s.cosmic_toplevel_map[handle@];
            let before = s.toplevels[ext].data;
            let now = s.after(Event::CosmicToplevel { handle, event }).toplevels[ext].data;
            match event {
                CosmicToplevelEvent::OutputEnter { output } => forall|o: Seq<char>| #[trigger]
                    now.outputs.contains(o) <==> before.outputs.contains(o) || o == s.output_name(
                        output@,
                    ),
                CosmicToplevelEvent::OutputLeave { output } => forall|o: Seq<char>| #[trigger]
                    now.outputs.contains(o) <==> before.outputs.contains(o) && o != s.output_name(
                        output@,
                    ),
                CosmicToplevelEvent::ExtWorkspaceEnter { workspace } => forall|w: Seq<char>|
                    #[trigger]
                    now.workspaces.contains(w) <==> before.workspaces.contains(w) || w
                        == workspace@,
                CosmicToplevelEvent::ExtWorkspaceLeave { workspace } => forall|w: Seq<char>|
                    #[trigger]
                    now.workspaces.contains(w) <==> before.workspaces.contains(w) && w
                        != workspace@,
                _ => now.outputs == before.outputs && now.workspaces == before.workspaces,
            }
        }),
{
    let before = s.toplevels[s.cosmic_toplevel_map[handle@]].data;
    match event {
        CosmicToplevelEvent::OutputEnter { output } => {
            text::with_members(before.outputs, s.output_name(output@));
        },
        CosmicToplevelEvent::OutputLeave { output } => {
            text::without_members(before.outputs, s.output_name(output@));
        },
        CosmicToplevelEvent::ExtWorkspaceEnter { workspace } => {
            text::with_members(before.workspaces, workspace@);
        },
        CosmicToplevelEvent::ExtWorkspaceLeave { workspace } => {
            text::without_members(before.workspaces, workspace@);
        },
        _ => {},
    }
}

/// What an object tells that is not known, or an extension that is routed nowhere or to
/// such an object, changes nothing.
pub proof fn strangers_are_ignored(s: StateView, e: Event)
    requires
        match e {
            Event::Toplevel { handle, event } => !s.toplevels.contains_key(handle@),
            Event::CosmicToplevel { handle, event } => {
                ||| !s.cosmic_toplevel_map.contains_key(handle@)
                ||| !s.toplevels.contains_key(s.cosmic_toplevel_map[handle@])
            },
            Event::Workspace { handle, event } => !s.workspaces.contains_key(handle@),
            Event::CosmicWorkspace { handle, event } => {
                ||| !s.cosmic_workspace_map.contains_key(handle@)
                ||| !s.workspaces.contains_key(s.cosmic_workspace_map[handle@])
            },
            Event::WorkspaceGroup { group, event: GroupEvent::OutputEnter { output } } =>
                !s.groups.contains_key(group@),
            Event::WorkspaceGroup { group, event: GroupEvent::WorkspaceEnter { workspace } } =>
                !s.workspaces.contains_key(workspace@),
            Event::WorkspaceGroup { group, event: GroupEvent::Other } => true,
            Event::Other => true,
            _ => false,
        },
    ensures
        s.after(e) == s,
{
    assert(s.after(e) =~~= s);
}

/// An event changes at most the window and the workspace that it is about: all others are
/// known as before.
pub proof fn others_are_left_alone(s: StateView, e: Event, k: Seq<char>)
    ensures
        subject(s, e) != Some(k) ==> {
            &&& s.after(e).toplevels.contains_key(k) == s.toplevels.contains_key(k)
            &&& s.toplevels.contains_key(k) ==> s.after(e).toplevels[k] == s.toplevels[k]
        },
        workspace_subject(s, e) != Some(k) ==> {
            &&& s.after(e).workspaces.contains_key(k) == s.workspaces.contains_key(k)
            &&& s.workspaces.contains_key(k) ==> s.after(e).workspaces[k] == s.workspaces[k]
        },
{
}

/// What is told of windows changes nothing but the windows and those that wait for their
/// extension; what is told of workspaces leaves the windows and the outputs alone.
pub proof fn kinds_do_not_mix(s: StateView, e: Event)
    ensures
        (e is NewToplevel || e is Toplevel || e is CosmicToplevel) ==> s.after(e) == (StateView {
            toplevels: s.after(e).toplevels,
            pending_toplevels: s.after(e).pending_toplevels,
            ..s
        }),
        (e is NewWorkspace || e is Workspace || e is CosmicWorkspace) ==> s.after(e)
            == (StateView {
            workspaces: s.after(e).workspaces,
            pending_workspaces: s.after(e).pending_workspaces,
            ..s
        }),
        (e is NewWorkspaceGroup || e is WorkspaceGroup) ==> s.after(e) == (StateView {
            workspaces: s.after(e).workspaces,
            groups: s.after(e).groups,
            ..s
        }),
        e is OutputName ==> s.after(e) == (StateView { outputs: s.after(e).outputs, ..s }),
{
}

/// A window that closed is forgotten, and no event but the announcement of a window of
/// that handle brings it back. So it is for a workspace that was removed.
pub proof fn what_is_gone_stays_gone(s: StateView, e: Event, k: Seq<char>)
    ensures
        (e matches Event::Toplevel { handle, event } && event is Closed && handle@ == k)
            ==> !s.after(e).toplevels.contains_key(k),
        !s.toplevels.contains_key(k) && !(e matches Event::NewToplevel { toplevel } && toplevel@
            == k) ==> !s.after(e).toplevels.contains_key(k),
        (e matches Event::Workspace { handle, event } && event is Removed && handle@ == k)
            ==> !s.after(e).workspaces.contains_key(k),
        !s.workspaces.contains_key(k) && !(e matches Event::NewWorkspace { workspace } && workspace@
            == k) ==> !s.after(e).workspaces.contains_key(k),
{
}

/// An announced window starts as one of which nothing is known, and waits for its
/// extension behind those that wait already. So does a workspace.
pub proof fn newcomers_are_unknown(s: StateView, toplevel: String, workspace: String)
    ensures
        ({
            let t = s.after(Event::NewToplevel { toplevel });
            &&& t.toplevels.contains_key(toplevel@)
            &&& t.toplevels[toplevel@].data == wayland::ToplevelView::unknown()
            &&& t.toplevels[toplevel@].cosmic is None
            &&& t.pending_toplevels == s.pending_toplevels.push(toplevel@)
        }),
        ({
            let t = s.after(Event::NewWorkspace { workspace });
            &&& t.workspaces.contains_key(workspace@)
            &&& t.workspaces[workspace@].data == wayland::WorkspaceView::unknown()
            &&& t.workspaces[workspace@].cosmic is None
            &&& t.pending_workspaces == s.pending_workspaces.push(workspace@)
        }),
{
}

/// An output goes by its key until the compositor names it, and then by the last name
/// that it was given.
pub proof fn outputs_go_by_their_last_name(s: StateView, output: String, name: String, e: Event)
    ensures
        !s.outputs.contains_key(output@) ==> s.output_name(output@) == output@,
        s.after(Event::OutputName { output, name }).output_name(output@) == name@,
        !(e matches Event::OutputName { output: o, name: n } && o@ == output@) ==> s.after(
            e,
        ).output_name(output@) == s.output_name(output@),
{
}

/// Globals stay bound and the compositor stays done, and the byte order never changes.
pub proof fn progress_is_kept(s: StateView, e: Event)
    ensures
        s.toplevel_info is Some ==> s.after(e).toplevel_info is Some,
        s.toplevel_mgr is Some ==> s.after(e).toplevel_mgr is Some,
        s.workspace_cosmic is Some ==> s.after(e).workspace_cosmic is Some,
        s.workspace_mgr is Some ==> s.after(e).workspace_mgr is Some,
        s.toplevels_done ==> s.after(e).toplevels_done,
        !s.toplevels_done ==> (s.after(e).toplevels_done <==> e is ToplevelInfoDone),
        s.after(e).byte_order == s.byte_order,
{
}

/// No version is bound that the compositor does not offer or that is not understood.
pub proof fn bound_versions_are_common(interface: Seq<char>, offered: u32)
    ensures
        match (
            wayland::supported(interface),
            event::binding(wayland::supported(interface), offered),
        ) {
            (Some((global, highest)), Some(b)) => {
                &&& b.global == global
                &&& b.version <= offered
                &&& b.version <= highest
                &&& b.version == offered || b.version == highest
            },
            (None, None) => true,
            _ => false,
        },
{
}

/// A known window that tells a title, an app_id or an identifier has what it told, whatever it
/// had before, and is done once it told so. Nothing else of it changes, and nothing of the rest.
/// A window that closes is forgotten, and nothing else changes.
pub proof fn a_window_has_what_it_told_last(s: StateView, handle: String, event: ToplevelEvent)
    requires
        s.toplevels.contains_key(handle@),
    ensures
        ({
            let before = s.toplevels[handle@];
            let t = s.after(Event::Toplevel { handle, event });
            let now = ToplevelEntryView {
                ext: before.ext,
                cosmic: before.cosmic,
                data: ToplevelView {
                    identifier: match event {
                        ToplevelEvent::Identifier { identifier } => identifier@,
                        _ => before.data.identifier,
                    },
                    app_id: match event {
                        ToplevelEvent::AppId { app_id } => app_id@,
                        _ => before.data.app_id,
                    },
                    title: match event {
                        ToplevelEvent::Title { title } => title@,
                        _ => before.data.title,
                    },
                    states: before.data.states,
                    geometry: before.data.geometry,
                    outputs: before.data.outputs,
                    workspaces: before.data.workspaces,
                    done: event is Done || before.data.done,
                },
            };
            &&& event is Closed ==> t == (StateView {
                toplevels: s.toplevels.remove(handle@),
                ..s
            })
            &&& !(event is Closed) ==> t == (StateView {
                toplevels: s.toplevels.insert(handle@, now),
                ..s
            })
        }),
{
    let t = s.after(Event::Toplevel { handle, event });
    let told = s.toplevels.insert(handle@, t.toplevels[handle@]);
    assert(!(event is Closed) ==> t.toplevels =~= told);
    assert(t =~= StateView { toplevels: t.toplevels, ..s });
}

/// A known window whose extension tells its states has those, and one whose extension tells its
/// place on an output has that place there; the places on other outputs stay. The window is on
/// what it entered, behind what it was on before, and not on what it left. Nothing else of it
/// changes, and nothing of the rest. An output goes by its name, or by its key without one.
pub proof fn a_window_is_as_its_extension_told_last(
    s: StateView,
    handle: String,
    event: CosmicToplevelEvent,
)
    requires
        s.cosmic_toplevel_map.contains_key(handle@),
        s.toplevels.contains_key(s.cosmic_toplevel_map[handle@]),
    ensures
        ({
            let ext = s.cosmic_toplevel_map[handle@];
            let before = s.toplevels[ext];
            let t = s.after(Event::CosmicToplevel { handle, event });
            let name = |o: Seq<char>|
                if s.outputs.contains_key(o) {
                    s.outputs[o]
                } else {
                    o
                };
            let now = ToplevelEntryView {
                ext: before.ext,
                cosmic: before.cosmic,
                data: ToplevelView {
                    identifier: before.data.identifier,
                    app_id: before.data.app_id,
                    title: before.data.title,
                    states: match event {
                        CosmicToplevelEvent::State { state } => words::words(s.byte_order, state@),
                        _ => before.data.states,
                    },
                    geometry: match event {
                        CosmicToplevelEvent::Geometry { output, x, y, width, height } =>
                            before.data.geometry.insert(name(output@), (x, y, width, height)),
                        _ => before.data.geometry,
                    },
                    outputs: match event {
                        CosmicToplevelEvent::OutputEnter { output } =>
                            if before.data.outputs.contains(name(output@)) {
                                before.data.outputs
                            } else {
                                before.data.outputs.push(name(output@))
                            },
                        CosmicToplevelEvent::OutputLeave { output } =>
                            before.data.outputs.filter(|o: Seq<char>| o != name(output@)),
                        _ => before.data.outputs,
                    },
                    workspaces: match event {
                        CosmicToplevelEvent::ExtWorkspaceEnter { workspace } =>
                            if before.data.workspaces.contains(workspace@) {
                                before.data.workspaces
                            } else {
                                before.data.workspaces.push(workspace@)
                            },
                        CosmicToplevelEvent::ExtWorkspaceLeave { workspace } =>
                            before.data.workspaces.filter(|w: Seq<char>| w != workspace@),
                        _ => before.data.workspaces,
                    },
                    done: before.data.done,
                },
            };
            t == (StateView { toplevels: s.toplevels.insert(ext, now), ..s })
        }),
{
    let ext = s.cosmic_toplevel_map[handle@];
    let before = s.toplevels[ext].data;
    let t = s.after(Event::CosmicToplevel { handle, event });
    let name = |o: Seq<char>|
        if s.outputs.contains_key(o) {
            s.outputs[o]
        } else {
            o
        };
    match event {
        CosmicToplevelEvent::OutputLeave { output } => {
            let n = name(output@);
            assert(n == s.output_name(output@));
            assert((|o: Seq<char>| o != name(output@)) =~= (|o: Seq<char>|
                o != s.output_name(output@)));
            assert(t.toplevels[ext].data.outputs == before.outputs.filter(
                |o: Seq<char>| o != name(output@),
            ));
        },
        _ => {},
    }
    let told = s.toplevels.insert(ext, t.toplevels[ext]);
    assert(t.toplevels =~= told);
}

/// A known workspace that tells an id, a name, coordinates or a state has what it told, whatever
/// it had before. Nothing else of it changes, and nothing of the rest. A workspace that is
/// removed is forgotten, and nothing else changes.
pub proof fn a_workspace_has_what_it_told_last(
    s: StateView,
    handle: String,
    event: WorkspaceEvent,
)
    requires
        s.workspaces.contains_key(handle@),
    ensures
        ({
            let before = s.workspaces[handle@];
            let t = s.after(Event::Workspace { handle, event });
            let now = WorkspaceEntryView {
                ext: before.ext,
                cosmic: before.cosmic,
                data: WorkspaceView {
                    id: match event {
                        WorkspaceEvent::Id { id } => Some(id@),
                        _ => before.data.id,
                    },
                    name: match event {
                        WorkspaceEvent::Name { name } => name@,
                        _ => before.data.name,
                    },
                    coordinates: match event {
                        WorkspaceEvent::Coordinates { coordinates } => words::words(
                            s.byte_order,
                            coordinates@,
                        ),
                        _ => before.data.coordinates,
                    },
                    ext_state: match event {
                        WorkspaceEvent::State { state } => state,
                        _ => before.data.ext_state,
                    },
                    cosmic_state: before.data.cosmic_state,
                    tiling: before.data.tiling,
                    group: before.data.group,
                },
            };
            &&& event is Removed ==> t == (StateView {
                workspaces: s.workspaces.remove(handle@),
                ..s
            })
            &&& !(event is Removed) ==> t == (StateView {
                workspaces: s.workspaces.insert(handle@, now),
                ..s
            })
        }),
{
    let t = s.after(Event::Workspace { handle, event });
    let told = s.workspaces.insert(handle@, t.workspaces[handle@]);
    assert(!(event is Removed) ==> t.workspaces =~= told);
    assert(t =~= StateView { workspaces: t.workspaces, ..s });
}

/// A known workspace whose extension tells a state has it; one whose extension tells a tiling
/// state has it if it is 0 or 1, and none otherwise. Nothing else of it changes, and nothing of
/// the rest.
pub proof fn a_workspace_is_as_its_extension_told_last(
    s: StateView,
    handle: String,
    event: CosmicWorkspaceEvent,
)
    requires
        s.cosmic_workspace_map.contains_key(handle@),
        s.workspaces.contains_key(s.cosmic_workspace_map[handle@]),
    ensures
        ({
            let ext = s.cosmic_workspace_map[handle@];
            let before = s.workspaces[ext];
            let t = s.after(Event::CosmicWorkspace { handle, event });
            let now = WorkspaceEntryView {
                ext: before.ext,
                cosmic: before.cosmic,
                data: WorkspaceView {
                    id: before.data.id,
                    name: before.data.name,
                    coordinates: before.data.coordinates,
                    ext_state: before.data.ext_state,
                    cosmic_state: match event {
                        CosmicWorkspaceEvent::State { state } => state,
                        _ => before.data.cosmic_state,
                    },
                    tiling: match event {
                        CosmicWorkspaceEvent::TilingState { state } => if state == 0 || state
                            == 1 {
                            Some(state)
                        } else {
                            None
                        },
                        _ => before.data.tiling,
                    },
                    group: before.data.group,
                },
            };
            t == (StateView { workspaces: s.workspaces.insert(ext, now), ..s })
        }),
{
    let ext = s.cosmic_workspace_map[handle@];
    let t = s.after(Event::CosmicWorkspace { handle, event });
    let told = s.workspaces.insert(ext, t.workspaces[ext]);
    assert(t.workspaces =~= told);
}

/// A known group has the output that entered it behind those that it had, by its name or by its
/// key without one. A known workspace that entered a group is in that group, whichever it was in
/// before. Nothing else changes.
pub proof fn groups_have_what_entered_them(
    s: StateView,
    group: String,
    output: String,
    workspace: String,
)
    ensures
        ({
            let name = if s.outputs.contains_key(output@) {
                s.outputs[output@]
            } else {
                output@
            };
            let event = GroupEvent::OutputEnter { output };
            s.groups.contains_key(group@) ==> s.after(Event::WorkspaceGroup { group, event })
                == (StateView {
                groups: s.groups.insert(group@, s.groups[group@].push(name)),
                ..s
            })
        }),
        ({
            let before = s.workspaces[workspace@];
            let event = GroupEvent::WorkspaceEnter { workspace };
            let now = WorkspaceEntryView {
                ext: before.ext,
                cosmic: before.cosmic,
                data: WorkspaceView {
                    id: before.data.id,
                    name: before.data.name,
                    coordinates: before.data.coordinates,
                    ext_state: before.data.ext_state,
                    cosmic_state: before.data.cosmic_state,
                    tiling: before.data.tiling,
                    group: Some(group@),
                },
            };
            s.workspaces.contains_key(workspace@) ==> s.after(Event::WorkspaceGroup { group, event })
                == (StateView { workspaces: s.workspaces.insert(workspace@, now), ..s })
        }),
{
}

/// What is announced is added, empty, and a window or a workspace then waits behind those that wait
/// already. Nothing else changes.
pub proof fn what_is_announced_is_added(s: StateView, object: String)
    ensures
        s.after(Event::NewToplevel { toplevel: object }) == (StateView {
            toplevels: s.toplevels.insert(
                object@,
                ToplevelEntryView {
                    ext: object@,
                    cosmic: None,
                    data: ToplevelView {
                        identifier: seq![],
                        app_id: seq![],
                        title: seq![],
                        states: seq![],
                        geometry: Map::empty(),
                        outputs: seq![],
                        workspaces: seq![],
                        done: false,
                    },
                },
            ),
            pending_toplevels: s.pending_toplevels.push(object@),
            ..s
        }),
        s.after(Event::NewWorkspace { workspace: object }) == (StateView {
            workspaces: s.workspaces.insert(
                object@,
                WorkspaceEntryView {
                    ext: object@,
                    cosmic: None,
                    data: WorkspaceView {
                        id: None,
                        name: seq![],
                        coordinates: seq![],
                        ext_state: 0,
                        cosmic_state: 0,
                        tiling: None,
                        group: None,
                    },
                },
            ),
            pending_workspaces: s.pending_workspaces.push(object@),
            ..s
        }),
        s.after(Event::NewWorkspaceGroup { group: object }) == (StateView {
            groups: s.groups.insert(object@, seq![]),
            ..s
        }),
{
}

/// An output has the name that it is given, a global that is needed later is kept under the object
/// that it was bound as, and the compositor is done once it says so. Nothing else changes.
pub proof fn names_and_globals_are_kept(s: StateView, object: String, name: String)
    ensures
        s.after(Event::OutputName { output: object, name }) == (StateView {
            outputs: s.outputs.insert(object@, name@),
            ..s
        }),
        s.after(Event::ToplevelInfoDone) == (StateView { toplevels_done: true, ..s }),
        s.after(Event::Other) == s,
        s.after(Event::Bound { global: Global::ToplevelInfo, object }) == (StateView {
            toplevel_info: Some(object@),
            ..s
        }),
        s.after(Event::Bound { global: Global::ToplevelManager, object }) == (StateView {
            toplevel_mgr: Some(object@),
            ..s
        }),
        s.after(Event::Bound { global: Global::WorkspaceManager, object }) == (StateView {
            workspace_mgr: Some(object@),
            ..s
        }),
        s.after(Event::Bound { global: Global::CosmicWorkspaceManager, object }) == (StateView {
            workspace_cosmic: Some(object@),
            ..s
        }),
        s.after(Event::Bound { global: Global::ToplevelList, object }) == s,
        s.after(Event::Bound { global: Global::Output, object }) == s,
{
}

/// Nothing is known at the start.
pub proof fn nothing_is_known_at_the_start(order: ByteOrder)
    ensures
        StateView::unknown(order) == (StateView {
            byte_order: order,
            toplevel_info: None,
            toplevel_mgr: None,
            workspace_cosmic: None,
            workspace_mgr: None,
            toplevels: Map::empty(),
            workspaces: Map::empty(),
            outputs: Map::empty(),
            pending_toplevels: seq![],
            pending_workspaces: seq![],
            cosmic_toplevel_map: Map::empty(),
            cosmic_workspace_map: Map::empty(),
            groups: Map::empty(),
            toplevels_done: false,
        }),
{
}

/// Where the global that makes extensions is missing, a pump leaves what waits waiting and all
/// routes as they are. Where it is there, all that waits is due, in the order in which it came,
/// and a pump leaves nothing waiting and the routes of all other extensions as they are.
pub proof fn what_is_not_due_keeps_waiting(
    s: StateView,
    toplevels: Seq<Seq<char>>,
    workspaces: Seq<Seq<char>>,
    k: Seq<char>,
)
    requires
        toplevels.len() == s.due_toplevels().len(),
        workspaces.len() == s.due_workspaces().len(),
    ensures
        s.toplevel_info is None ==> {
            let t = s.pumped(toplevels, workspaces);
            &&& s.due_toplevels().len() == 0
            &&& t.pending_toplevels == s.pending_toplevels
            &&& t.cosmic_toplevel_map == s.cosmic_toplevel_map
            &&& t.toplevels == s.toplevels
        },
        s.toplevel_info is Some ==> {
            &&& s.due_toplevels() == s.pending_toplevels
            &&& s.pumped(toplevels, workspaces).pending_toplevels.len() == 0
        },
        s.workspace_cosmic is None ==> {
            let t = s.pumped(toplevels, workspaces);
            &&& s.due_workspaces().len() == 0
            &&& t.pending_workspaces == s.pending_workspaces
            &&& t.cosmic_workspace_map == s.cosmic_workspace_map
            &&& t.workspaces == s.workspaces
        },
        s.workspace_cosmic is Some ==> {
            &&& s.due_workspaces() == s.pending_workspaces
            &&& s.pumped(toplevels, workspaces).pending_workspaces.len() == 0
        },
        !toplevels.contains(k) ==> {
            let t = s.pumped(toplevels, workspaces);
            &&& t.cosmic_toplevel_map.contains_key(k) <==> s.cosmic_toplevel_map.contains_key(k)
            &&& s.cosmic_toplevel_map.contains_key(k) ==> t.cosmic_toplevel_map[k] == s.cosmic_toplevel_map[k]
        },
        !workspaces.contains(k) ==> {
            let t = s.pumped(toplevels, workspaces);
            &&& t.cosmic_workspace_map.contains_key(k) <==> s.cosmic_workspace_map.contains_key(k)
            &&& s.cosmic_workspace_map.contains_key(k) ==> t.cosmic_workspace_map[k] == s.cosmic_workspace_map[k]
        },
{
    let a = s.without_due();
    let b = a.with_cosmic_toplevels(toplevels, s.due_toplevels());
    adopting_toplevels(a, toplevels, s.due_toplevels());
    adopting_workspaces(b, workspaces, s.due_workspaces());
    other_routes_stay(a, toplevels, s.due_toplevels());
    other_workspace_routes_stay(b, workspaces, s.due_workspaces());
    let t = s.pumped(toplevels, workspaces);
    assert(t == b.with_cosmic_workspaces(workspaces, s.due_workspaces()));
    assert(t.cosmic_toplevel_map == b.cosmic_toplevel_map);
    assert(b.cosmic_workspace_map == s.cosmic_workspace_map);
    assert(t.toplevels == b.toplevels);
    assert(b.workspaces == s.workspaces);
    if s.toplevel_info is None {
        assert(b == a);
    }
    if s.workspace_cosmic is None {
        assert(t == b);
    }
    assert(!toplevels.contains(k) ==> (b.cosmic_toplevel_map.contains_key(k)
        <==> a.cosmic_toplevel_map.contains_key(k)));
    assert(!workspaces.contains(k) ==> (t.cosmic_workspace_map.contains_key(k)
        <==> b.cosmic_workspace_map.contains_key(k)));
}

proof fn other_routes_stay(s: StateView, extensions: Seq<Seq<char>>, handles: Seq<Seq<char>>)
    requires
        extensions.len() == handles.len(),
    ensures
        ({
            let t = s.with_cosmic_toplevels(extensions, handles);
            forall|k: Seq<char>|
                !extensions.contains(k) ==> (#[trigger] t.cosmic_toplevel_map.contains_key(k)
                    <==> s.cosmic_toplevel_map.contains_key(k)) && (
                s.cosmic_toplevel_map.contains_key(k) ==> t.cosmic_toplevel_map[k]
                    == s.cosmic_toplevel_map[k])
        }),
    decreases handles.len(),
{
    if handles.len() > 0 {
        other_routes_stay(s, extensions.drop_last(), handles.drop_last());
        let t = s.with_cosmic_toplevels(extensions, handles);
        assert forall|k: Seq<char>| !extensions.contains(k) implies (
        #[trigger] t.cosmic_toplevel_map.contains_key(k) <==> s.cosmic_toplevel_map.contains_key(k))
            && (s.cosmic_toplevel_map.contains_key(k) ==> t.cosmic_toplevel_map[k]
            == s.cosmic_toplevel_map[k]) by {
            assert(extensions[extensions.len() - 1] != k);
            if extensions.drop_last().contains(k) {
                let i = extensions.drop_last().index_of(k);
                assert(extensions[i] == k);
            }
        }
    }
}

proof fn other_workspace_routes_stay(
    s: StateView,
    extensions: Seq<Seq<char>>,
    handles: Seq<Seq<char>>,
)
    requires
        extensions.len() == handles.len(),
    ensures
        ({
            let t = s.with_cosmic_workspaces(extensions, handles);
            forall|k: Seq<char>|
                !extensions.contains(k) ==> (#[trigger] t.cosmic_workspace_map.contains_key(k)
                    <==> s.cosmic_workspace_map.contains_key(k)) && (
                s.cosmic_workspace_map.contains_key(k) ==> t.cosmic_workspace_map[k]
                    == s.cosmic_workspace_map[k])
        }),
    decreases handles.len(),
{
    if handles.len() > 0 {
        other_workspace_routes_stay(s, extensions.drop_last(), handles.drop_last());
        let t = s.with_cosmic_workspaces(extensions, handles);
        assert forall|k: Seq<char>| !extensions.contains(k) implies (
        #[trigger] t.cosmic_workspace_map.contains_key(k)
            <==> s.cosmic_workspace_map.contains_key(k)) && (s.cosmic_workspace_map.contains_key(k)
            ==> t.cosmic_workspace_map[k] == s.cosmic_workspace_map[k]) by {
            assert(extensions[extensions.len() - 1] != k);
            if extensions.drop_last().contains(k) {
                let i = extensions.drop_last().index_of(k);
                assert(extensions[i] == k);
            }
        }
    }
}

/// These interfaces are bound and no others, each up to the highest version that is understood.
pub proof fn these_interfaces_are_bound(interface: Seq<char>, offered: u32)
    ensures
        event::binding(wayland::supported(interface), offered) is Some <==> {
            ||| interface == "ext_foreign_toplevel_list_v1"@
            ||| interface == "zcosmic_toplevel_info_v1"@
            ||| interface == "zcosmic_toplevel_manager_v1"@
            ||| interface == "ext_workspace_manager_v1"@
            ||| interface == "zcosmic_workspace_manager_v2"@
            ||| interface == "wl_output"@
        },
        event::binding(wayland::supported(interface), offered) matches Some(b) ==> {
            &&& b.version <= offered
            &&& b.version < offered ==> b.version == match b.global {
                Global::ToplevelList => 1u32,
                Global::ToplevelInfo => 3u32,
                Global::ToplevelManager => 4u32,
                Global::WorkspaceManager => 1u32,
                Global::CosmicWorkspaceManager => 2u32,
                Global::Output => 4u32,
            }
            &&& b.version <= match b.global {
                Global::ToplevelList => 1u32,
                Global::ToplevelInfo => 3u32,
                Global::ToplevelManager => 4u32,
                Global::WorkspaceManager => 1u32,
                Global::CosmicWorkspaceManager => 2u32,
                Global::Output => 4u32,
            }
            &&& interface == match b.global {
                Global::ToplevelList => "ext_foreign_toplevel_list_v1"@,
                Global::ToplevelInfo => "zcosmic_toplevel_info_v1"@,
                Global::ToplevelManager => "zcosmic_toplevel_manager_v1"@,
                Global::WorkspaceManager => "ext_workspace_manager_v1"@,
                Global::CosmicWorkspaceManager => "zcosmic_workspace_manager_v2"@,
                Global::Output => "wl_output"@,
            }
        },
{
}

/// The models of windows and workspaces are what is kept of them, field by field.
pub proof fn models_are_what_is_kept(
    window: wayland::ToplevelData,
    window_entry: wayland::ToplevelEntry,
    workspace: wayland::WorkspaceData,
    workspace_entry: wayland::WorkspaceEntry,
)
    ensures
        window@.identifier == window.identifier@,
        window@.app_id == window.app_id@,
        window@.title == window.title@,
        window@.states == window.states@,
        window@.geometry == window.geometry@,
        window@.outputs == text::texts(window.outputs@),
        window@.workspaces == text::texts(window.workspaces@),
        window@.done == window.done,
        window_entry@.ext == window_entry.ext@,
        window_entry@.cosmic == text::optional(window_entry.cosmic),
        window_entry@.data == window_entry.data@,
        workspace@.id == text::optional(workspace.id),
        workspace@.name == workspace.name@,
        workspace@.coordinates == workspace.coordinates@,
        workspace@.ext_state == workspace.ext_state,
        workspace@.cosmic_state == workspace.cosmic_state,
        workspace@.tiling == workspace.tiling,
        workspace@.group == text::optional(workspace.group),
        workspace_entry@.ext == workspace_entry.ext@,
        workspace_entry@.cosmic == text::optional(workspace_entry.cosmic),
        workspace_entry@.data == workspace_entry.data@,
{
}

/// The model of the state is what is kept in it, field by field and key by key.
pub proof fn the_model_of_the_state_is_what_is_kept(s: wayland::State)
    ensures
        s@.byte_order == s.byte_order,
        s@.toplevel_info == text::optional(s.toplevel_info),
        s@.toplevel_mgr == text::optional(s.toplevel_mgr),
        s@.workspace_cosmic == text::optional(s.workspace_cosmic),
        s@.workspace_mgr == text::optional(s.workspace_mgr),
        s@.pending_toplevels == text::texts(s.pending_toplevels@),
        s@.pending_workspaces == text::texts(s.pending_workspaces@),
        s@.toplevels_done == s.toplevels_done,
        forall|k: Seq<char>| #[trigger]
            s@.toplevels.contains_key(k) <==> s.toplevels@.contains_key(k),
        forall|k: Seq<char>|
            s.toplevels@.contains_key(k) ==> #[trigger] s@.toplevels[k] == s.toplevels@[k]@,
        forall|k: Seq<char>| #[trigger]
            s@.workspaces.contains_key(k) <==> s.workspaces@.contains_key(k),
        forall|k: Seq<char>|
            s.workspaces@.contains_key(k) ==> #[trigger] s@.workspaces[k] == s.workspaces@[k]@,
        forall|k: Seq<char>| #[trigger]
            s@.outputs.contains_key(k) <==> s.outputs@.contains_key(k),
        forall|k: Seq<char>|
            s.outputs@.contains_key(k) ==> #[trigger] s@.outputs[k] == s.outputs@[k]@,
        forall|k: Seq<char>| #[trigger]
            s@.cosmic_toplevel_map.contains_key(k) <==> s.cosmic_toplevel_map@.contains_key(k),
        forall|k: Seq<char>|
            s.cosmic_toplevel_map@.contains_key(k) ==> #[trigger] s@.cosmic_toplevel_map[k] == s.cosmic_toplevel_map@[k]@,
        forall|k: Seq<char>| #[trigger]
            s@.cosmic_workspace_map.contains_key(k) <==> s.cosmic_workspace_map@.contains_key(k),
        forall|k: Seq<char>|
            s.cosmic_workspace_map@.contains_key(k) ==> #[trigger] s@.cosmic_workspace_map[k] == s.cosmic_workspace_map@[k]@,
        forall|k: Seq<char>| #[trigger]
            s@.groups.contains_key(k) <==> s.groups@.contains_key(k),
        forall|k: Seq<char>|
            s.groups@.contains_key(k) ==> #[trigger] s@.groups[k] == text::texts(s.groups@[k]@),
{
}

/// Of the extensions that go by one key, the last one counts: it is routed to its handle. Of those
/// that are made for one handle, the last one counts: the window or the workspace has that one.
pub proof fn the_last_extension_counts(
    s: StateView,
    toplevels: Seq<Seq<char>>,
    workspaces: Seq<Seq<char>>,
    i: int,
)
    requires
        toplevels.len() == s.due_toplevels().len(),
        workspaces.len() == s.due_workspaces().len(),
    ensures
        0 <= i < toplevels.len() && (forall|j: int|
            i < j < toplevels.len() ==> #[trigger] toplevels[j] != toplevels[i]) ==> {
            let t = s.pumped(toplevels, workspaces);
            &&& t.cosmic_toplevel_map.contains_key(toplevels[i])
            &&& t.cosmic_toplevel_map[toplevels[i]] == s.due_toplevels()[i]
        },
        0 <= i < toplevels.len() && s.toplevels.contains_key(s.due_toplevels()[i]) && (forall|j: int|
            i < j < toplevels.len() ==> #[trigger] s.due_toplevels()[j] != s.due_toplevels()[i])
            ==> s.pumped(toplevels, workspaces).toplevels[s.due_toplevels()[i]].cosmic == Some(
            toplevels[i],
        ),
        0 <= i < workspaces.len() && (forall|j: int|
            i < j < workspaces.len() ==> #[trigger] workspaces[j] != workspaces[i]) ==> {
            let t = s.pumped(toplevels, workspaces);
            &&& t.cosmic_workspace_map.contains_key(workspaces[i])
            &&& t.cosmic_workspace_map[workspaces[i]] == s.due_workspaces()[i]
        },
        0 <= i < workspaces.len() && s.workspaces.contains_key(s.due_workspaces()[i]) && (forall|
            j: int,
        |
            i < j < workspaces.len() ==> #[trigger] s.due_workspaces()[j] != s.due_workspaces()[i])
            ==> s.pumped(toplevels, workspaces).workspaces[s.due_workspaces()[i]].cosmic == Some(
            workspaces[i],
        ),
{
    let a = s.without_due();
    let b = a.with_cosmic_toplevels(toplevels, s.due_toplevels());
    adopting_toplevels(a, toplevels, s.due_toplevels());
    adopting_workspaces(b, workspaces, s.due_workspaces());
    if 0 <= i < toplevels.len() {
        last_of_windows(a, toplevels, s.due_toplevels(), i);
    }
    if 0 <= i < workspaces.len() {
        last_of_workspaces(b, workspaces, s.due_workspaces(), i);
    }
}

proof fn last_of_windows(
    s: StateView,
    extensions: Seq<Seq<char>>,
    handles: Seq<Seq<char>>,
    i: int,
)
    requires
        extensions.len() == handles.len(),
        0 <= i < handles.len(),
    ensures
        ({
            let t = s.with_cosmic_toplevels(extensions, handles);
            &&& (forall|j: int|
                i < j < extensions.len() ==> #[trigger] extensions[j] != extensions[i]) ==> {
                &&& t.cosmic_toplevel_map.contains_key(extensions[i])
                &&& t.cosmic_toplevel_map[extensions[i]] == handles[i]
            }
            &&& s.toplevels.contains_key(handles[i]) && (forall|j: int|
                i < j < handles.len() ==> #[trigger] handles[j] != handles[i])
                ==> t.toplevels[handles[i]].cosmic == Some(extensions[i])
        }),
    decreases handles.len(),
{
    let n = handles.len() - 1;
    let front = extensions.drop_last();
    let first = handles.drop_last();
    adopting_toplevels(s, front, first);
    if i < n {
        last_of_windows(s, front, first, i);
        assert(front[i] == extensions[i]);
        assert(first[i] == handles[i]);
        if forall|j: int| i < j < extensions.len() ==> #[trigger] extensions[j] != extensions[i] {
            assert(extensions[n] != extensions[i]);
            assert forall|j: int| i < j < front.len() implies #[trigger] front[j] != front[i] by {
                assert(extensions[j] != extensions[i]);
            }
        }
        if forall|j: int| i < j < handles.len() ==> #[trigger] handles[j] != handles[i] {
            assert(handles[n] != handles[i]);
            assert forall|j: int| i < j < first.len() implies #[trigger] first[j] != first[i] by {
                assert(handles[j] != handles[i]);
            }
        }
    }
}

proof fn last_of_workspaces(
    s: StateView,
    extensions: Seq<Seq<char>>,
    handles: Seq<Seq<char>>,
    i: int,
)
    requires
        extensions.len() == handles.len(),
        0 <= i < handles.len(),
    ensures
        ({
            let t = s.with_cosmic_workspaces(extensions, handles);
            &&& (forall|j: int|
                i < j < extensions.len() ==> #[trigger] extensions[j] != extensions[i]) ==> {
                &&& t.cosmic_workspace_map.contains_key(extensions[i])
                &&& t.cosmic_workspace_map[extensions[i]] == handles[i]
            }
            &&& s.workspaces.contains_key(handles[i]) && (forall|j: int|
                i < j < handles.len() ==> #[trigger] handles[j] != handles[i])
                ==> t.workspaces[handles[i]].cosmic == Some(extensions[i])
        }),
    decreases handles.len(),
{
    let n = handles.len() - 1;
    let front = extensions.drop_last();
    let first = handles.drop_last();
    adopting_workspaces(s, front, first);
    if i < n {
        last_of_workspaces(s, front, first, i);
        assert(front[i] == extensions[i]);
        assert(first[i] == handles[i]);
        if forall|j: int| i < j < extensions.len() ==> #[trigger] extensions[j] != extensions[i] {
            assert(extensions[n] != extensions[i]);
            assert forall|j: int| i < j < front.len() implies #[trigger] front[j] != front[i] by {
                assert(extensions[j] != extensions[i]);
            }
        }
        if forall|j: int| i < j < handles.len() ==> #[trigger] handles[j] != handles[i] {
            assert(handles[n] != handles[i]);
            assert forall|j: int| i < j < first.len() implies #[trigger] first[j] != first[i] by {
                assert(handles[j] != handles[i]);
            }
        }
    }
}

} // verus!
