//! The live state of the session: the windows, the workspaces and the outputs that the
//! compositor has told about, kept up to date event by event.

use crate::event;
use crate::event::{
    known_tiling, lower, Binding, CosmicToplevelEvent, CosmicWorkspaceEvent, Event, Global,
    GroupEvent, ToplevelEvent, WorkspaceEvent,
};
use crate::table::Table;
use crate::text;
use crate::text::{add_text, copy_texts, remove_text, same_text};
use crate::words;
use crate::words::{decode_words, host_byte_order, ByteOrder};
use vstd::prelude::*;

verus! {

pub const TL_STATE_MAXIMIZED: u32 = 0;

pub const TL_STATE_MINIMIZED: u32 = 1;

pub const TL_STATE_FULLSCREEN: u32 = 3;

pub const TL_STATE_STICKY: u32 = 4;

pub const WS_EXT_ACTIVE: u32 = 1;

pub const WS_COSMIC_PINNED: u32 = 1;

/// What is known of a window.
#[derive(Debug, Clone)]
pub struct ToplevelData {
    pub identifier: String,
    pub app_id: String,
    pub title: String,
    pub states: Vec<u32>,
    /// output -> (x, y, w, h)
    pub geometry: Table<(i32, i32, i32, i32)>,
    pub outputs: Vec<String>,
    /// keys of `State::workspaces`
    pub workspaces: Vec<String>,
    pub done: bool,
}

/// A window: its handle, the handle of its cosmic extension, what is known of it.
#[derive(Debug)]
pub struct ToplevelEntry {
    pub ext: String,
    pub cosmic: Option<String>,
    pub data: ToplevelData,
}

/// What is known of a workspace.
#[derive(Debug, Clone)]
pub struct WorkspaceData {
    pub id: Option<String>,
    pub name: String,
    pub coordinates: Vec<u32>,
    pub ext_state: u32,
    pub cosmic_state: u32,
    pub tiling: Option<u32>,
    pub group: Option<String>,
}

/// A workspace: its handle, the handle of its cosmic extension, what is known of it.
#[derive(Debug)]
pub struct WorkspaceEntry {
    pub ext: String,
    pub cosmic: Option<String>,
    pub data: WorkspaceData,
}

/// Everything that is known of the session. Objects are named by their keys.
#[derive(Debug)]
pub struct State {
    /// how the arrays of the protocol are to be read
    pub byte_order: ByteOrder,
    pub toplevel_info: Option<String>,
    pub toplevel_mgr: Option<String>,
    pub workspace_cosmic: Option<String>,
    pub workspace_mgr: Option<String>,
    pub toplevels: Table<ToplevelEntry>,
    pub workspaces: Table<WorkspaceEntry>,
    /// output -> its name
    pub outputs: Table<String>,
    /// handles whose cosmic extension has not been asked for yet
    pub pending_toplevels: Vec<String>,
    pub pending_workspaces: Vec<String>,
    /// cosmic extension -> handle
    pub cosmic_toplevel_map: Table<String>,
    pub cosmic_workspace_map: Table<String>,
    /// group -> names of its outputs
    pub groups: Table<Vec<String>>,
    pub toplevels_done: bool,
}

/// The model of `ToplevelData`.
#[verifier::ext_equal]
pub struct ToplevelView {
    pub identifier: Seq<char>,
    pub app_id: Seq<char>,
    pub title: Seq<char>,
    pub states: Seq<u32>,
    pub geometry: Map<Seq<char>, (i32, i32, i32, i32)>,
    pub outputs: Seq<Seq<char>>,
    pub workspaces: Seq<Seq<char>>,
    pub done: bool,
}

/// The model of `ToplevelEntry`.
#[verifier::ext_equal]
pub struct ToplevelEntryView {
    pub ext: Seq<char>,
    pub cosmic: Option<Seq<char>>,
    pub data: ToplevelView,
}

/// The model of `WorkspaceData`.
#[verifier::ext_equal]
pub struct WorkspaceView {
    pub id: Option<Seq<char>>,
    pub name: Seq<char>,
    pub coordinates: Seq<u32>,
    pub ext_state: u32,
    pub cosmic_state: u32,
    pub tiling: Option<u32>,
    pub group: Option<Seq<char>>,
}

/// The model of `WorkspaceEntry`.
#[verifier::ext_equal]
pub struct WorkspaceEntryView {
    pub ext: Seq<char>,
    pub cosmic: Option<Seq<char>>,
    pub data: WorkspaceView,
}

/// The model of `State`.
#[verifier::ext_equal]
pub struct StateView {
    pub byte_order: ByteOrder,
    pub toplevel_info: Option<Seq<char>>,
    pub toplevel_mgr: Option<Seq<char>>,
    pub workspace_cosmic: Option<Seq<char>>,
    pub workspace_mgr: Option<Seq<char>>,
    pub toplevels: Map<Seq<char>, ToplevelEntryView>,
    pub workspaces: Map<Seq<char>, WorkspaceEntryView>,
    pub outputs: Map<Seq<char>, Seq<char>>,
    pub pending_toplevels: Seq<Seq<char>>,
    pub pending_workspaces: Seq<Seq<char>>,
    pub cosmic_toplevel_map: Map<Seq<char>, Seq<char>>,
    pub cosmic_workspace_map: Map<Seq<char>, Seq<char>>,
    pub groups: Map<Seq<char>, Seq<Seq<char>>>,
    pub toplevels_done: bool,
}

impl View for ToplevelData {
    type V = ToplevelView;

    open spec fn view(&self) -> ToplevelView {
        ToplevelView {
            identifier: self.identifier@,
            app_id: self.app_id@,
            title: self.title@,
            states: self.states@,
            geometry: self.geometry@,
            outputs: text::texts(self.outputs@),
            workspaces: text::texts(self.workspaces@),
            done: self.done,
        }
    }
}

impl View for ToplevelEntry {
    type V = ToplevelEntryView;

    open spec fn view(&self) -> ToplevelEntryView {
        ToplevelEntryView {
            ext: self.ext@,
            cosmic: text::optional(self.cosmic),
            data: self.data@,
        }
    }
}

impl View for WorkspaceData {
    type V = WorkspaceView;

    open spec fn view(&self) -> WorkspaceView {
        WorkspaceView {
            id: text::optional(self.id),
            name: self.name@,
            coordinates: self.coordinates@,
            ext_state: self.ext_state,
            cosmic_state: self.cosmic_state,
            tiling: self.tiling,
            group: text::optional(self.group),
        }
    }
}

impl View for WorkspaceEntry {
    type V = WorkspaceEntryView;

    open spec fn view(&self) -> WorkspaceEntryView {
        WorkspaceEntryView {
            ext: self.ext@,
            cosmic: text::optional(self.cosmic),
            data: self.data@,
        }
    }
}

impl View for State {
    type V = StateView;

    open spec fn view(&self) -> StateView {
        StateView {
            byte_order: self.byte_order,
            toplevel_info: text::optional(self.toplevel_info),
            toplevel_mgr: text::optional(self.toplevel_mgr),
            workspace_cosmic: text::optional(self.workspace_cosmic),
            workspace_mgr: text::optional(self.workspace_mgr),
            toplevels: self.toplevels@.map_values(|e: ToplevelEntry| e@),
            workspaces: self.workspaces@.map_values(|e: WorkspaceEntry| e@),
            outputs: self.outputs@.map_values(|n: String| n@),
            pending_toplevels: text::texts(self.pending_toplevels@),
            pending_workspaces: text::texts(self.pending_workspaces@),
            cosmic_toplevel_map: self.cosmic_toplevel_map@.map_values(|h: String| h@),
            cosmic_workspace_map: self.cosmic_workspace_map@.map_values(|h: String| h@),
            groups: self.groups@.map_values(|outputs: Vec<String>| text::texts(outputs@)),
            toplevels_done: self.toplevels_done,
        }
    }
}

impl ToplevelView {
    /// A window of which nothing is known.
    pub open spec fn unknown() -> ToplevelView {
        ToplevelView {
            identifier: seq![],
            app_id: seq![],
            title: seq![],
            states: seq![],
            geometry: Map::empty(),
            outputs: seq![],
            workspaces: seq![],
            done: false,
        }
    }
}

impl WorkspaceView {
    /// A workspace of which nothing is known.
    pub open spec fn unknown() -> WorkspaceView {
        WorkspaceView {
            id: None,
            name: seq![],
            coordinates: seq![],
            ext_state: 0,
            cosmic_state: 0,
            tiling: None,
            group: None,
        }
    }
}

impl StateView {
    /// A session of which nothing is known.
    pub open spec fn unknown(byte_order: ByteOrder) -> StateView {
        StateView {
            byte_order,
            toplevel_info: None,
            toplevel_mgr: None,
            workspace_cosmic: None,
            workspace_mgr: None,
            toplevels: Map::empty(),
            workspaces: Map::empty(),
            outputs: Map::empty(),
            pending_toplevels: seq![],
            pending_workspaces: seq![],
            cosmic_toplevel_map: Map::empty(),
            cosmic_workspace_map: Map::empty(),
            groups: Map::empty(),
            toplevels_done: false,
        }
    }

    /// The name of an output: its key for as long as the compositor has not named it.
    pub open spec fn output_name(self, output: Seq<char>) -> Seq<char> {
        if self.outputs.contains_key(output) {
            self.outputs[output]
        } else {
            output
        }
    }

    /// The state with other data for a window that is known. Nothing changes for a
    /// window that is not.
    pub open spec fn with_toplevel(self, handle: Seq<char>, data: ToplevelView) -> StateView {
        if self.toplevels.contains_key(handle) {
            let entry = ToplevelEntryView { data, ..self.toplevels[handle] };
            StateView { toplevels: self.toplevels.insert(handle, entry), ..self }
        } else {
            self
        }
    }

    /// The state with other data for a workspace that is known. Nothing changes for a
    /// workspace that is not.
    pub open spec fn with_workspace(self, handle: Seq<char>, data: WorkspaceView) -> StateView {
        if self.workspaces.contains_key(handle) {
            let entry = WorkspaceEntryView { data, ..self.workspaces[handle] };
            StateView { workspaces: self.workspaces.insert(handle, entry), ..self }
        } else {
            self
        }
    }

    /// The state after an event of a window's handle.
    pub open spec fn after_toplevel(self, handle: Seq<char>, event: ToplevelEvent) -> StateView {
        let data = self.toplevels[handle].data;
        match event {
            ToplevelEvent::Title { title } => self.with_toplevel(
                handle,
                ToplevelView { title: title@, ..data },
            ),
            ToplevelEvent::AppId { app_id } => self.with_toplevel(
                handle,
                ToplevelView { app_id: app_id@, ..data },
            ),
            ToplevelEvent::Identifier { identifier } => self.with_toplevel(
                handle,
                ToplevelView { identifier: identifier@, ..data },
            ),
            ToplevelEvent::Done => self.with_toplevel(handle, ToplevelView { done: true, ..data }),
            ToplevelEvent::Closed => StateView {
                toplevels: self.toplevels.remove(handle),
                ..self
            },
            ToplevelEvent::Other => self,
        }
    }

    /// The state after an event of a window's cosmic extension.
    pub open spec fn after_cosmic_toplevel(
        self,
        handle: Seq<char>,
        event: CosmicToplevelEvent,
    ) -> StateView {
        if !self.cosmic_toplevel_map.contains_key(handle) {
            self
        } else {
            let ext = self.cosmic_toplevel_map[handle];
            let data = self.toplevels[ext].data;
            match event {
                CosmicToplevelEvent::State { state } => self.with_toplevel(
                    ext,
                    ToplevelView { states: words::words(self.byte_order, state@), ..data },
                ),
                CosmicToplevelEvent::OutputEnter { output } => self.with_toplevel(
                    ext,
                    ToplevelView {
                        outputs: text::with(data.outputs, self.output_name(output@)),
                        ..data
                    },
                ),
                CosmicToplevelEvent::OutputLeave { output } => self.with_toplevel(
                    ext,
                    ToplevelView {
                        outputs: text::without(data.outputs, self.output_name(output@)),
                        ..data
                    },
                ),
                CosmicToplevelEvent::Geometry {
                    output,
                    x,
                    y,
                    width,
                    height,
                } => self.with_toplevel(
                    ext,
                    ToplevelView {
                        geometry: data.geometry.insert(
                            self.output_name(output@),
                            (x, y, width, height),
                        ),
                        ..data
                    },
                ),
                CosmicToplevelEvent::ExtWorkspaceEnter { workspace } => self.with_toplevel(
                    ext,
                    ToplevelView {
                        workspaces: text::with(data.workspaces, workspace@),
                        ..data
                    },
                ),
                CosmicToplevelEvent::ExtWorkspaceLeave { workspace } => self.with_toplevel(
                    ext,
                    ToplevelView {
                        workspaces: text::without(data.workspaces, workspace@),
                        ..data
                    },
                ),
                CosmicToplevelEvent::Other => self,
            }
        }
    }

    /// The state after an event of a group of workspaces.
    pub open spec fn after_group(self, group: Seq<char>, event: GroupEvent) -> StateView {
        match event {
            GroupEvent::OutputEnter { output } => if self.groups.contains_key(group) {
                StateView {
                    groups: self.groups.insert(
                        group,
                        self.groups[group].push(self.output_name(output@)),
                    ),
                    ..self
                }
            } else {
                self
            },
            GroupEvent::WorkspaceEnter { workspace } => self.with_workspace(
                workspace@,
                WorkspaceView { group: Some(group), ..self.workspaces[workspace@].data },
            ),
            GroupEvent::Other => self,
        }
    }

    /// The state after an event of a workspace's handle.
    pub open spec fn after_workspace(self, handle: Seq<char>, event: WorkspaceEvent) -> StateView {
        let data = self.workspaces[handle].data;
        match event {
            WorkspaceEvent::Id { id } => self.with_workspace(
                handle,
                WorkspaceView { id: Some(id@), ..data },
            ),
            WorkspaceEvent::Name { name } => self.with_workspace(
                handle,
                WorkspaceView { name: name@, ..data },
            ),
            WorkspaceEvent::Coordinates { coordinates } => self.with_workspace(
                handle,
                WorkspaceView {
                    coordinates: words::words(self.byte_order, coordinates@),
                    ..data
                },
            ),
            WorkspaceEvent::State { state } => self.with_workspace(
                handle,
                WorkspaceView { ext_state: state, ..data },
            ),
            WorkspaceEvent::Removed => StateView {
                workspaces: self.workspaces.remove(handle),
                ..self
            },
            WorkspaceEvent::Capabilities { .. } | WorkspaceEvent::Other => self,
        }
    }

    /// The state after an event of a workspace's cosmic extension.
    pub open spec fn after_cosmic_workspace(
        self,
        handle: Seq<char>,
        event: CosmicWorkspaceEvent,
    ) -> StateView {
        if !self.cosmic_workspace_map.contains_key(handle) {
            self
        } else {
            let ext = self.cosmic_workspace_map[handle];
            let data = self.workspaces[ext].data;
            match event {
                CosmicWorkspaceEvent::TilingState { state } => self.with_workspace(
                    ext,
                    WorkspaceView { tiling: event::tiling(state), ..data },
                ),
                CosmicWorkspaceEvent::State { state } => self.with_workspace(
                    ext,
                    WorkspaceView { cosmic_state: state, ..data },
                ),
                CosmicWorkspaceEvent::Capabilities { .. } | CosmicWorkspaceEvent::Other => self,
            }
        }
    }

    /// The windows whose cosmic extension is to be asked for, in order: all that wait for
    /// theirs, once the global that makes them is bound.
    pub open spec fn due_toplevels(self) -> Seq<Seq<char>> {
        if self.toplevel_info is Some {
            self.pending_toplevels
        } else {
            seq![]
        }
    }

    /// The workspaces whose cosmic extension is to be asked for, in order: all that wait
    /// for theirs, once the global that makes them is bound.
    pub open spec fn due_workspaces(self) -> Seq<Seq<char>> {
        if self.workspace_cosmic is Some {
            self.pending_workspaces
        } else {
            seq![]
        }
    }

    /// The state with extension number `i` of a list routed to window number `i` of
    /// another.
    pub open spec fn with_cosmic_toplevels(
        self,
        extensions: Seq<Seq<char>>,
        handles: Seq<Seq<char>>,
    ) -> StateView
        decreases handles.len(),
    {
        if handles.len() == 0 {
            self
        } else {
            let rest = self.with_cosmic_toplevels(extensions.drop_last(), handles.drop_last());
            let extension = extensions.last();
            let handle = handles.last();
            StateView {
                cosmic_toplevel_map: rest.cosmic_toplevel_map.insert(extension, handle),
                toplevels: if rest.toplevels.contains_key(handle) {
                    rest.toplevels.insert(
                        handle,
                        ToplevelEntryView { cosmic: Some(extension), ..rest.toplevels[handle] },
                    )
                } else {
                    rest.toplevels
                },
                ..rest
            }
        }
    }

    /// The state with extension number `i` of a list routed to workspace number `i` of
    /// another.
    pub open spec fn with_cosmic_workspaces(
        self,
        extensions: Seq<Seq<char>>,
        handles: Seq<Seq<char>>,
    ) -> StateView
        decreases handles.len(),
    {
        if handles.len() == 0 {
            self
        } else {
            let rest = self.with_cosmic_workspaces(extensions.drop_last(), handles.drop_last());
            let extension = extensions.last();
            let handle = handles.last();
            StateView {
                cosmic_workspace_map: rest.cosmic_workspace_map.insert(extension, handle),
                workspaces: if rest.workspaces.contains_key(handle) {
                    rest.workspaces.insert(
                        handle,
                        WorkspaceEntryView { cosmic: Some(extension), ..rest.workspaces[handle] },
                    )
                } else {
                    rest.workspaces
                },
                ..rest
            }
        }
    }

    /// The state once the extensions that were due are there: each is routed to its
    /// handle, and no handle waits any more where the global was bound.
    pub open spec fn pumped(
        self,
        toplevels: Seq<Seq<char>>,
        workspaces: Seq<Seq<char>>,
    ) -> StateView {
        self.without_due().with_cosmic_toplevels(
            toplevels,
            self.due_toplevels(),
        ).with_cosmic_workspaces(workspaces, self.due_workspaces())
    }

    /// The state in which none of the handles that are due waits any more.
    pub open spec fn without_due(self) -> StateView {
        StateView {
            pending_toplevels: if self.toplevel_info is Some {
                seq![]
            } else {
                self.pending_toplevels
            },
            pending_workspaces: if self.workspace_cosmic is Some {
                seq![]
            } else {
                self.pending_workspaces
            },
            ..self
        }
    }

    /// The state after an event.
    pub open spec fn after(self, event: Event) -> StateView {
        match event {
            Event::Bound { global, object } => match global {
                Global::ToplevelInfo => StateView { toplevel_info: Some(object@), ..self },
                Global::ToplevelManager => StateView { toplevel_mgr: Some(object@), ..self },
                Global::WorkspaceManager => StateView { workspace_mgr: Some(object@), ..self },
                Global::CosmicWorkspaceManager => StateView {
                    workspace_cosmic: Some(object@),
                    ..self
                },
                Global::ToplevelList | Global::Output => self,
            },
            Event::OutputName { output, name } => StateView {
                outputs: self.outputs.insert(output@, name@),
                ..self
            },
            Event::NewToplevel { toplevel } => StateView {
                toplevels: self.toplevels.insert(
                    toplevel@,
                    ToplevelEntryView {
                        ext: toplevel@,
                        cosmic: None,
                        data: ToplevelView::unknown(),
                    },
                ),
                pending_toplevels: self.pending_toplevels.push(toplevel@),
                ..self
            },
            Event::Toplevel { handle, event } => self.after_toplevel(handle@, event),
            Event::ToplevelInfoDone => StateView { toplevels_done: true, ..self },
            Event::CosmicToplevel { handle, event } => self.after_cosmic_toplevel(handle@, event),
            Event::NewWorkspaceGroup { group } => StateView {
                groups: self.groups.insert(group@, seq![]),
                ..self
            },
            Event::NewWorkspace { workspace } => StateView {
                workspaces: self.workspaces.insert(
                    workspace@,
                    WorkspaceEntryView {
                        ext: workspace@,
                        cosmic: None,
                        data: WorkspaceView::unknown(),
                    },
                ),
                pending_workspaces: self.pending_workspaces.push(workspace@),
                ..self
            },
            Event::WorkspaceGroup { group, event } => self.after_group(group@, event),
            Event::Workspace { handle, event } => self.after_workspace(handle@, event),
            Event::CosmicWorkspace { handle, event } => self.after_cosmic_workspace(handle@, event),
            Event::Other => self,
        }
    }
}

impl State {
    /// A session of which nothing is known, on a connection of this byte order.
    pub fn new(byte_order: ByteOrder) -> (s: State)
        ensures
            s@ == StateView::unknown(byte_order),
    {
        State {
            byte_order,
            toplevel_info: None,
            toplevel_mgr: None,
            workspace_cosmic: None,
            workspace_mgr: None,
            toplevels: Table::new(),
            workspaces: Table::new(),
            outputs: Table::new(),
            pending_toplevels: Vec::new(),
            pending_workspaces: Vec::new(),
            cosmic_toplevel_map: Table::new(),
            cosmic_workspace_map: Table::new(),
            groups: Table::new(),
            toplevels_done: false,
        }
    }

    /// Takes in an event of a window's handle.
    pub fn toplevel_event(&mut self, handle: String, event: ToplevelEvent)
        ensures
            final(self)@ == old(self)@.after_toplevel(handle@, event),
    {
        let entry = match self.toplevels.get_mut(&handle) {
            Some(entry) => entry,
            None => {
                return ;
            },
        };
        match event {
            ToplevelEvent::Title { title } => {
                entry.data.title = title;
            },
            ToplevelEvent::AppId { app_id } => {
                entry.data.app_id = app_id;
            },
            ToplevelEvent::Identifier { identifier } => {
                entry.data.identifier = identifier;
            },
            ToplevelEvent::Done => {
                entry.data.done = true;
            },
            ToplevelEvent::Closed => {
                self.toplevels.remove(&handle);
            },
            ToplevelEvent::Other => {},
        }
    }

    /// The name of an output: its key for as long as the compositor has not named it.
    pub fn output_name(&self, output: &String) -> (r: String)
        ensures
            r@ == self@.output_name(output@),
    {
        match self.outputs.get(output) {
            Some(name) => name.clone(),
            None => output.clone(),
        }
    }

    /// Takes in an event of a window's cosmic extension.
    pub fn cosmic_toplevel_event(&mut self, handle: String, event: CosmicToplevelEvent)
        ensures
            final(self)@ == old(self)@.after_cosmic_toplevel(handle@, event),
    {
        let ext = match self.cosmic_toplevel_map.get(&handle) {
            Some(ext) => ext.clone(),
            None => {
                return ;
            },
        };
        match event {
            CosmicToplevelEvent::State { state } => {
                let states = decode_words(self.byte_order, &state);
                if let Some(entry) = self.toplevels.get_mut(&ext) {
                    entry.data.states = states;
                }
            },
            CosmicToplevelEvent::OutputEnter { output } => {
                let name = self.output_name(&output);
                if let Some(entry) = self.toplevels.get_mut(&ext) {
                    add_text(&mut entry.data.outputs, name);
                }
            },
            CosmicToplevelEvent::OutputLeave { output } => {
                let name = self.output_name(&output);
                if let Some(entry) = self.toplevels.get_mut(&ext) {
                    remove_text(&mut entry.data.outputs, &name);
                }
            },
            CosmicToplevelEvent::Geometry { output, x, y, width, height } => {
                let name = self.output_name(&output);
                if let Some(entry) = self.toplevels.get_mut(&ext) {
                    entry.data.geometry.insert(name, (x, y, width, height));
                }
            },
            CosmicToplevelEvent::ExtWorkspaceEnter { workspace } => {
                if let Some(entry) = self.toplevels.get_mut(&ext) {
                    add_text(&mut entry.data.workspaces, workspace);
                }
            },
            CosmicToplevelEvent::ExtWorkspaceLeave { workspace } => {
                if let Some(entry) = self.toplevels.get_mut(&ext) {
                    remove_text(&mut entry.data.workspaces, &workspace);
                }
            },
            CosmicToplevelEvent::Other => {},
        }
    }

    /// Takes in an event of a group of workspaces.
    pub fn group_event(&mut self, group: String, event: GroupEvent)
        ensures
            final(self)@ == old(self)@.after_group(group@, event),
    {
        match event {
            GroupEvent::OutputEnter { output } => {
                let name = self.output_name(&output);
                if let Some(outputs) = self.groups.get_mut(&group) {
                    let ghost before = outputs@;
                    outputs.push(name);
                    assert(text::texts(outputs@) =~= text::texts(before).push(name@));
                }
            },
            GroupEvent::WorkspaceEnter { workspace } => {
                if let Some(entry) = self.workspaces.get_mut(&workspace) {
                    entry.data.group = Some(group);
                }
            },
            GroupEvent::Other => {},
        }
    }

    /// Takes in an event of a workspace's handle.
    pub fn workspace_event(&mut self, handle: String, event: WorkspaceEvent)
        ensures
            final(self)@ == old(self)@.after_workspace(handle@, event),
    {
        let order = self.byte_order;
        let entry = match self.workspaces.get_mut(&handle) {
            Some(entry) => entry,
            None => {
                return ;
            },
        };
        match event {
            WorkspaceEvent::Id { id } => {
                entry.data.id = Some(id);
            },
            WorkspaceEvent::Name { name } => {
                entry.data.name = name;
            },
            WorkspaceEvent::Coordinates { coordinates } => {
                entry.data.coordinates = decode_words(order, &coordinates);
            },
            WorkspaceEvent::State { state } => {
                entry.data.ext_state = state;
            },
            WorkspaceEvent::Removed => {
                self.workspaces.remove(&handle);
            },
            WorkspaceEvent::Capabilities { capabilities } => {},
            WorkspaceEvent::Other => {},
        }
    }

    /// Takes in an event of a workspace's cosmic extension.
    pub fn cosmic_workspace_event(&mut self, handle: String, event: CosmicWorkspaceEvent)
        ensures
            final(self)@ == old(self)@.after_cosmic_workspace(handle@, event),
    {
        let ext = match self.cosmic_workspace_map.get(&handle) {
            Some(ext) => ext.clone(),
            None => {
                return ;
            },
        };
        let entry = match self.workspaces.get_mut(&ext) {
            Some(entry) => entry,
            None => {
                return ;
            },
        };
        match event {
            CosmicWorkspaceEvent::TilingState { state } => {
                entry.data.tiling = known_tiling(state);
            },
            CosmicWorkspaceEvent::State { state } => {
                entry.data.cosmic_state = state;
            },
            CosmicWorkspaceEvent::Capabilities { capabilities } => {},
            CosmicWorkspaceEvent::Other => {},
        }
    }

    /// Takes in an event.
    pub fn event(&mut self, event: Event)
        ensures
            final(self)@ == old(self)@.after(event),
    {
        match event {
            Event::Bound { global, object } => {
                match global {
                    Global::ToplevelInfo => {
                        self.toplevel_info = Some(object);
                    },
                    Global::ToplevelManager => {
                        self.toplevel_mgr = Some(object);
                    },
                    Global::WorkspaceManager => {
                        self.workspace_mgr = Some(object);
                    },
                    Global::CosmicWorkspaceManager => {
                        self.workspace_cosmic = Some(object);
                    },
                    Global::ToplevelList => {},
                    Global::Output => {},
                }
            },
            Event::OutputName { output, name } => {
                self.outputs.insert(output, name);
            },
            Event::NewToplevel { toplevel } => {
                self.toplevels.insert(
                    toplevel.clone(),
                    ToplevelEntry {
                        ext: toplevel.clone(),
                        cosmic: None,
                        data: ToplevelData::default(),
                    },
                );
                let ghost before = self.pending_toplevels@;
                self.pending_toplevels.push(toplevel);
                assert(text::texts(self.pending_toplevels@) =~= text::texts(before).push(
                    toplevel@,
                ));
            },
            Event::Toplevel { handle, event } => self.toplevel_event(handle, event),
            Event::ToplevelInfoDone => {
                self.toplevels_done = true;
            },
            Event::CosmicToplevel { handle, event } => self.cosmic_toplevel_event(handle, event),
            Event::NewWorkspaceGroup { group } => {
                let outputs: Vec<String> = Vec::new();
                assert(text::texts(outputs@) =~= seq![]);
                self.groups.insert(group, outputs);
            },
            Event::NewWorkspace { workspace } => {
                self.workspaces.insert(
                    workspace.clone(),
                    WorkspaceEntry {
                        ext: workspace.clone(),
                        cosmic: None,
                        data: WorkspaceData::default(),
                    },
                );
                let ghost before = self.pending_workspaces@;
                self.pending_workspaces.push(workspace);
                assert(text::texts(self.pending_workspaces@) =~= text::texts(before).push(
                    workspace@,
                ));
            },
            Event::WorkspaceGroup { group, event } => self.group_event(group, event),
            Event::Workspace { handle, event } => self.workspace_event(handle, event),
            Event::CosmicWorkspace { handle, event } => self.cosmic_workspace_event(handle, event),
            Event::Other => {},
        }
    }

    /// A workspace of this name, where there is one.
    pub fn workspace_by_name(&self, name: &str) -> (r: Option<&WorkspaceEntry>)
        ensures
            match r {
                Some(w) => {
                    &&& w@.data.name == name@
                    &&& exists|k: Seq<char>|
                        #[trigger] self@.workspaces.contains_key(k) && self@.workspaces[k] == w@
                },
                None => forall|k: Seq<char>| #[trigger]
                    self@.workspaces.contains_key(k) ==> self@.workspaces[k].data.name != name@,
            },
    {
        let n: usize = self.workspaces.len();
        let mut i: usize = 0;
        while i < n
            invariant
                n == self.workspaces.order().len(),
                i <= n,
                forall|k: Seq<char>| #[trigger]
                    self.workspaces@.contains_key(k) <==> self.workspaces.order().contains(k),
                forall|j: int|
                    0 <= j < i ==> self.workspaces@[#[trigger] self.workspaces.order()[j]]@.data.name
                        != name@,
            decreases n - i,
        {
            let w = self.workspaces.value_at(i);
            if same_text(w.data.name.as_str(), name) {
                assert(self@.workspaces.contains_key(self.workspaces.order()[i as int]));
                return Some(w);
            }
            i = i + 1;
        }
        assert forall|k: Seq<char>| #[trigger] self@.workspaces.contains_key(k) implies
            self@.workspaces[k].data.name != name@ by {
            assert(self.workspaces@.contains_key(k));
            let j = self.workspaces.order().index_of(k);
            assert(self.workspaces.order()[j] == k);
        }
        None
    }

    /// An output of this name, where there is one.
    pub fn output_by_name(&self, name: &str) -> (r: Option<&String>)
        ensures
            match r {
                Some(output) => self@.outputs.contains_key(output@) && self@.outputs[output@]
                    == name@,
                None => forall|k: Seq<char>| #[trigger]
                    self@.outputs.contains_key(k) ==> self@.outputs[k] != name@,
            },
    {
        let n: usize = self.outputs.len();
        let mut i: usize = 0;
        while i < n
            invariant
                n == self.outputs.order().len(),
                i <= n,
                forall|k: Seq<char>| #[trigger]
                    self.outputs@.contains_key(k) <==> self.outputs.order().contains(k),
                forall|j: int|
                    0 <= j < i ==> self.outputs@[#[trigger] self.outputs.order()[j]]@ != name@,
            decreases n - i,
        {
            if same_text(self.outputs.value_at(i).as_str(), name) {
                return Some(self.outputs.key_at(i));
            }
            i = i + 1;
        }
        assert forall|k: Seq<char>| #[trigger] self@.outputs.contains_key(k) implies
            self@.outputs[k] != name@ by {
            assert(self.outputs@.contains_key(k));
            let j = self.outputs.order().index_of(k);
            assert(self.outputs.order()[j] == k);
        }
        None
    }

    /// Some output, where there is one.
    pub fn any_output(&self) -> (r: Option<&String>)
        ensures
            match r {
                Some(output) => self@.outputs.contains_key(output@),
                None => forall|k: Seq<char>| !self@.outputs.contains_key(k),
            },
    {
        if self.outputs.len() > 0 {
            Some(self.outputs.key_at(0))
        } else {
            assert forall|k: Seq<char>| !self@.outputs.contains_key(k) by {
                assert(self.outputs@.contains_key(k) <==> self.outputs.order().contains(k));
            }
            None
        }
    }
}

/// The global that an interface is, and the highest version of it that is understood.
pub open spec fn supported(interface: Seq<char>) -> Option<(Global, u32)> {
    if interface == "ext_foreign_toplevel_list_v1"@ {
        Some((Global::ToplevelList, 1u32))
    } else if interface == "zcosmic_toplevel_info_v1"@ {
        Some((Global::ToplevelInfo, 3u32))
    } else if interface == "zcosmic_toplevel_manager_v1"@ {
        Some((Global::ToplevelManager, 4u32))
    } else if interface == "ext_workspace_manager_v1"@ {
        Some((Global::WorkspaceManager, 1u32))
    } else if interface == "zcosmic_workspace_manager_v2"@ {
        Some((Global::CosmicWorkspaceManager, 2u32))
    } else if interface == "wl_output"@ {
        Some((Global::Output, 4u32))
    } else {
        None
    }
}

/// What to bind when the compositor offers a version of an interface: the highest
/// version that both sides understand, of the interfaces that are supported.
pub fn binding_for(interface: &str, version: u32) -> (r: Option<Binding>)
    ensures
        r == event::binding(supported(interface@), version),
{
    if same_text(interface, "ext_foreign_toplevel_list_v1") {
        Some(Binding { global: Global::ToplevelList, version: lower(version, 1) })
    } else if same_text(interface, "zcosmic_toplevel_info_v1") {
        Some(Binding { global: Global::ToplevelInfo, version: lower(version, 3) })
    } else if same_text(interface, "zcosmic_toplevel_manager_v1") {
        Some(Binding { global: Global::ToplevelManager, version: lower(version, 4) })
    } else if same_text(interface, "ext_workspace_manager_v1") {
        Some(Binding { global: Global::WorkspaceManager, version: lower(version, 1) })
    } else if same_text(interface, "zcosmic_workspace_manager_v2") {
        Some(Binding { global: Global::CosmicWorkspaceManager, version: lower(version, 2) })
    } else if same_text(interface, "wl_output") {
        Some(Binding { global: Global::Output, version: lower(version, 4) })
    } else {
        None
    }
}

/// The handles whose cosmic extension is to be asked for now: those of windows, then
/// those of workspaces.
pub fn pump_requests(state: &State) -> (r: (Vec<String>, Vec<String>))
    ensures
        text::texts(r.0@) == state@.due_toplevels(),
        text::texts(r.1@) == state@.due_workspaces(),
{
    let toplevels = if state.toplevel_info.is_some() {
        copy_texts(&state.pending_toplevels)
    } else {
        Vec::new()
    };
    let workspaces = if state.workspace_cosmic.is_some() {
        copy_texts(&state.pending_workspaces)
    } else {
        Vec::new()
    };
    assert(state.toplevel_info is None ==> text::texts(toplevels@) =~= seq![]);
    assert(state.workspace_cosmic is None ==> text::texts(workspaces@) =~= seq![]);
    (toplevels, workspaces)
}

/// Routes each extension to its window.
fn adopt_toplevels(state: &mut State, extensions: &Vec<String>, handles: &Vec<String>)
    requires
        extensions@.len() == handles@.len(),
    ensures
        final(state)@ == old(state)@.with_cosmic_toplevels(
            text::texts(extensions@),
            text::texts(handles@),
        ),
{
    let ghost start = state@;
    let ghost from = text::texts(extensions@);
    let ghost to = text::texts(handles@);
    let mut i: usize = 0;
    while i < handles.len()
        invariant
            i <= handles@.len(),
            handles@.len() == extensions@.len(),
            from == text::texts(extensions@),
            to == text::texts(handles@),
            state@ == start.with_cosmic_toplevels(from.take(i as int), to.take(i as int)),
        decreases handles@.len() - i,
    {
        assert(from.take(i + 1).drop_last() =~= from.take(i as int));
        assert(to.take(i + 1).drop_last() =~= to.take(i as int));
        state.cosmic_toplevel_map.insert(extensions[i].clone(), handles[i].clone());
        if let Some(entry) = state.toplevels.get_mut(&handles[i]) {
            entry.cosmic = Some(extensions[i].clone());
        }
        i = i + 1;
    }
    assert(from.take(i as int) =~= from);
    assert(to.take(i as int) =~= to);
}

/// Routes each extension to its workspace.
fn adopt_workspaces(state: &mut State, extensions: &Vec<String>, handles: &Vec<String>)
    requires
        extensions@.len() == handles@.len(),
    ensures
        final(state)@ == old(state)@.with_cosmic_workspaces(
            text::texts(extensions@),
            text::texts(handles@),
        ),
{
    let ghost start = state@;
    let ghost from = text::texts(extensions@);
    let ghost to = text::texts(handles@);
    let mut i: usize = 0;
    while i < handles.len()
        invariant
            i <= handles@.len(),
            handles@.len() == extensions@.len(),
            from == text::texts(extensions@),
            to == text::texts(handles@),
            state@ == start.with_cosmic_workspaces(from.take(i as int), to.take(i as int)),
        decreases handles@.len() - i,
    {
        assert(from.take(i + 1).drop_last() =~= from.take(i as int));
        assert(to.take(i + 1).drop_last() =~= to.take(i as int));
        state.cosmic_workspace_map.insert(extensions[i].clone(), handles[i].clone());
        if let Some(entry) = state.workspaces.get_mut(&handles[i]) {
            entry.cosmic = Some(extensions[i].clone());
        }
        i = i + 1;
    }
    assert(from.take(i as int) =~= from);
    assert(to.take(i as int) =~= to);
}

/// Takes in the cosmic extensions that were made for the handles of `pump_requests`, in
/// the same order.
pub fn pump_cosmic(state: &mut State, toplevels: Vec<String>, workspaces: Vec<String>)
    requires
        toplevels@.len() == old(state)@.due_toplevels().len(),
        workspaces@.len() == old(state)@.due_workspaces().len(),
    ensures
        final(state)@ == old(state)@.pumped(text::texts(toplevels@), text::texts(workspaces@)),
{
    let mut toplevel_handles: Vec<String> = Vec::new();
    if state.toplevel_info.is_some() {
        std::mem::swap(&mut toplevel_handles, &mut state.pending_toplevels);
    }
    let mut workspace_handles: Vec<String> = Vec::new();
    if state.workspace_cosmic.is_some() {
        std::mem::swap(&mut workspace_handles, &mut state.pending_workspaces);
    }
    assert(text::texts(toplevel_handles@) =~= old(state)@.due_toplevels());
    assert(text::texts(workspace_handles@) =~= old(state)@.due_workspaces());
    assert(state@ =~= old(state)@.without_due());
    adopt_toplevels(state, &toplevels, &toplevel_handles);
    adopt_workspaces(state, &workspaces, &workspace_handles);
}

impl Default for State {
    fn default() -> (s: State)
        ensures
            s@ == StateView::unknown(s.byte_order),
            words::host_reads_as(s.byte_order),
    {
        State::new(host_byte_order())
    }
}

impl Default for ToplevelData {
    fn default() -> (d: ToplevelData)
        ensures
            d@ == ToplevelView::unknown(),
    {
        ToplevelData {
            identifier: String::new(),
            app_id: String::new(),
            title: String::new(),
            states: Vec::new(),
            geometry: Table::new(),
            outputs: Vec::new(),
            workspaces: Vec::new(),
            done: false,
        }
    }
}

impl Default for WorkspaceData {
    fn default() -> (d: WorkspaceData)
        ensures
            d@ == WorkspaceView::unknown(),
    {
        WorkspaceData {
            id: None,
            name: String::new(),
            coordinates: Vec::new(),
            ext_state: 0,
            cosmic_state: 0,
            tiling: None,
            group: None,
        }
    }
}

} // verus!
