//! The state of the session as a dump gathers it: every event that it hears of is taken
//! in as it comes.

use crate::event;
use crate::event::{
    known_tiling, lower, Binding, CosmicToplevelEvent, CosmicWorkspaceEvent, Event, Global,
    GroupEvent, ToplevelEvent, WorkspaceEvent,
};
use crate::table::Table;
use crate::text;
use crate::text::{copy_texts, remove_text, same_text};
use crate::words;
use crate::words::{decode_words, host_byte_order, ByteOrder};
use vstd::prelude::*;

verus! {

/// What is known of a window.
#[derive(Debug, Clone)]
pub struct Toplevel {
    pub identifier: String,
    pub app_id: String,
    pub title: String,
    pub states: Vec<u32>,
    /// output -> (x, y, w, h)
    pub geometry: Table<(i32, i32, i32, i32)>,
    pub outputs: Vec<String>,
    /// keys of `State::workspaces`
    pub workspaces: Vec<String>,
}

/// What is known of a workspace.
#[derive(Debug, Clone)]
pub struct Workspace {
    pub id: Option<String>,
    pub name: String,
    pub coordinates: Vec<u32>,
    pub ext_state: u32,
    pub cosmic_state: u32,
    pub tiling: Option<u32>,
    pub capabilities: u32,
    pub cosmic_capabilities: u32,
    pub group: Option<String>,
}

/// Everything that the dump has heard of. Objects are named by their keys.
#[derive(Debug)]
pub struct State {
    /// how the arrays of the protocol are to be read
    pub byte_order: ByteOrder,
    pub toplevel_info: Option<String>,
    pub workspace_cosmic: Option<String>,
    pub toplevels: Table<Toplevel>,
    pub workspaces: Table<Workspace>,
    /// output -> its name
    pub outputs: Table<String>,
    /// handles whose cosmic extension has not been asked for yet
    pub pending_toplevels: Vec<String>,
    pub pending_workspaces: Vec<String>,
    /// cosmic extension -> handle
    pub cosmic_toplevel_map: Table<String>,
    pub cosmic_workspace_map: Table<String>,
    /// group -> names of its outputs
    pub groups: Table<Vec<String>>,
    pub toplevels_done: bool,
}

/// A global without which no dump can be made.
#[derive(Debug, Clone, Copy, PartialEq, Eq, Structural)]
pub enum MissingGlobal {
    ToplevelInfo,
    WorkspaceManager,
}

/// The model of `Toplevel`.
#[verifier::ext_equal]
pub struct WindowView {
    pub identifier: Seq<char>,
    pub app_id: Seq<char>,
    pub title: Seq<char>,
    pub states: Seq<u32>,
    pub geometry: Map<Seq<char>, (i32, i32, i32, i32)>,
    pub outputs: Seq<Seq<char>>,
    pub workspaces: Seq<Seq<char>>,
}

/// The model of `Workspace`.
#[verifier::ext_equal]
pub struct SpaceView {
    pub id: Option<Seq<char>>,
    pub name: Seq<char>,
    pub coordinates: Seq<u32>,
    pub ext_state: u32,
    pub cosmic_state: u32,
    pub tiling: Option<u32>,
    pub capabilities: u32,
    pub cosmic_capabilities: u32,
    pub group: Option<Seq<char>>,
}

/// The model of `State`.
#[verifier::ext_equal]
pub struct DumpView {
    pub byte_order: ByteOrder,
    pub toplevel_info: Option<Seq<char>>,
    pub workspace_cosmic: Option<Seq<char>>,
    pub toplevels: Map<Seq<char>, WindowView>,
    pub workspaces: Map<Seq<char>, SpaceView>,
    pub outputs: Map<Seq<char>, Seq<char>>,
    pub pending_toplevels: Seq<Seq<char>>,
    pub pending_workspaces: Seq<Seq<char>>,
    pub cosmic_toplevel_map: Map<Seq<char>, Seq<char>>,
    pub cosmic_workspace_map: Map<Seq<char>, Seq<char>>,
    pub groups: Map<Seq<char>, Seq<Seq<char>>>,
    pub toplevels_done: bool,
}

impl View for Toplevel {
    type V = WindowView;

    open spec fn view(&self) -> WindowView {
        WindowView {
            identifier: self.identifier@,
            app_id: self.app_id@,
            title: self.title@,
            states: self.states@,
            geometry: self.geometry@,
            outputs: text::texts(self.outputs@),
            workspaces: text::texts(self.workspaces@),
        }
    }
}

impl View for Workspace {
    type V = SpaceView;

    open spec fn view(&self) -> SpaceView {
        SpaceView {
            id: text::optional(self.id),
            name: self.name@,
            coordinates: self.coordinates@,
            ext_state: self.ext_state,
            cosmic_state: self.cosmic_state,
            tiling: self.tiling,
            capabilities: self.capabilities,
            cosmic_capabilities: self.cosmic_capabilities,
            group: text::optional(self.group),
        }
    }
}

impl View for State {
    type V = DumpView;

    open spec fn view(&self) -> DumpView {
        DumpView {
            byte_order: self.byte_order,
            toplevel_info: text::optional(self.toplevel_info),
            workspace_cosmic: text::optional(self.workspace_cosmic),
            toplevels: self.toplevels@.map_values(|t: Toplevel| t@),
            workspaces: self.workspaces@.map_values(|w: Workspace| w@),
            outputs: self.outputs@.map_values(|n: String| n@),
            pending_toplevels: text::texts(self.pending_toplevels@),
            pending_workspaces: text::texts(self.pending_workspaces@),
            cosmic_toplevel_map: self.cosmic_toplevel_map@.map_values(|h: String| h@),
            cosmic_workspace_map: self.cosmic_workspace_map@.map_values(|h: String| h@),
            groups: self.groups@.map_values(|outputs: Vec<String>| text::texts(outputs@)),
            toplevels_done: self.toplevels_done,
        }
    }
}

impl WindowView {
    /// A window of which nothing is known.
    pub open spec fn unknown() -> WindowView {
        WindowView {
            identifier: seq![],
            app_id: seq![],
            title: seq![],
            states: seq![],
            geometry: Map::empty(),
            outputs: seq![],
            workspaces: seq![],
        }
    }
}

impl SpaceView {
    /// A workspace of which nothing is known.
    pub open spec fn unknown() -> SpaceView {
        SpaceView {
            id: None,
            name: seq![],
            coordinates: seq![],
            ext_state: 0,
            cosmic_state: 0,
            tiling: None,
            capabilities: 0,
            cosmic_capabilities: 0,
            group: None,
        }
    }
}

impl DumpView {
    /// A session of which nothing is known.
    pub open spec fn unknown(byte_order: ByteOrder) -> DumpView {
        DumpView {
            byte_order,
            toplevel_info: None,
            workspace_cosmic: None,
            toplevels: Map::empty(),
            workspaces: Map::empty(),
            outputs: Map::empty(),
            pending_toplevels: seq![],
            pending_workspaces: seq![],
            cosmic_toplevel_map: Map::empty(),
            cosmic_workspace_map: Map::empty(),
            groups: Map::empty(),
            toplevels_done: false,
        }
    }

    /// The name of an output: its key for as long as the compositor has not named it.
    pub open spec fn output_name(self, output: Seq<char>) -> Seq<char> {
        if self.outputs.contains_key(output) {
            self.outputs[output]
        } else {
            output
        }
    }

    /// The name of a workspace: its key where it is not known.
    pub open spec fn workspace_name(self, workspace: Seq<char>) -> Seq<char> {
        if self.workspaces.contains_key(workspace) {
            self.workspaces[workspace].name
        } else {
            workspace
        }
    }

    /// The state with other data for a window that is known. Nothing changes for a
    /// window that is not.
    pub open spec fn with_toplevel(self, handle: Seq<char>, data: WindowView) -> DumpView {
        if self.toplevels.contains_key(handle) {
            DumpView { toplevels: self.toplevels.insert(handle, data), ..self }
        } else {
            self
        }
    }

    /// The state with other data for a workspace that is known. Nothing changes for a
    /// workspace that is not.
    pub open spec fn with_workspace(self, handle: Seq<char>, data: SpaceView) -> DumpView {
        if self.workspaces.contains_key(handle) {
            DumpView { workspaces: self.workspaces.insert(handle, data), ..self }
        } else {
            self
        }
    }

    /// The state after an event of a window's handle.
    pub open spec fn after_toplevel(self, handle: Seq<char>, event: ToplevelEvent) -> DumpView {
        let data = self.toplevels[handle];
        match event {
            ToplevelEvent::Title { title } => self.with_toplevel(
                handle,
                WindowView { title: title@, ..data },
            ),
            ToplevelEvent::AppId { app_id } => self.with_toplevel(
                handle,
                WindowView { app_id: app_id@, ..data },
            ),
            ToplevelEvent::Identifier { identifier } => self.with_toplevel(
                handle,
                WindowView { identifier: identifier@, ..data },
            ),
            ToplevelEvent::Closed => DumpView { toplevels: self.toplevels.remove(handle), ..self },
            ToplevelEvent::Done | ToplevelEvent::Other => self,
        }
    }

    /// The state after an event of a window's cosmic extension. A window that enters an
    /// output or a workspace lists it once more, whether it did so already or not; one
    /// that leaves lists it no more.
    pub open spec fn after_cosmic_toplevel(
        self,
        handle: Seq<char>,
        event: CosmicToplevelEvent,
    ) -> DumpView {
        if !self.cosmic_toplevel_map.contains_key(handle) {
            self
        } else {
            let ext = self.cosmic_toplevel_map[handle];
            let data = self.toplevels[ext];
            match event {
                CosmicToplevelEvent::State { state } => self.with_toplevel(
                    ext,
                    WindowView { states: words::words(self.byte_order, state@), ..data },
                ),
                CosmicToplevelEvent::OutputEnter { output } => self.with_toplevel(
                    ext,
                    WindowView {
                        outputs: data.outputs.push(self.output_name(output@)),
                        ..data
                    },
                ),
                CosmicToplevelEvent::OutputLeave { output } => self.with_toplevel(
                    ext,
                    WindowView {
                        outputs: text::without(data.outputs, self.output_name(output@)),
                        ..data
                    },
                ),
                CosmicToplevelEvent::Geometry {
                    output,
                    x,
                    y,
                    width,
                    height,
                } => self.with_toplevel(
                    ext,
                    WindowView {
                        geometry: data.geometry.insert(
                            self.output_name(output@),
                            (x, y, width, height),
                        ),
                        ..data
                    },
                ),
                CosmicToplevelEvent::ExtWorkspaceEnter { workspace } => self.with_toplevel(
                    ext,
                    WindowView { workspaces: data.workspaces.push(workspace@), ..data },
                ),
                CosmicToplevelEvent::ExtWorkspaceLeave { workspace } => self.with_toplevel(
                    ext,
                    WindowView {
                        workspaces: text::without(data.workspaces, workspace@),
                        ..data
                    },
                ),
                CosmicToplevelEvent::Other => self,
            }
        }
    }

    /// The outputs of a group: none where the group is not known.
    pub open spec fn group_outputs(self, group: Seq<char>) -> Seq<Seq<char>> {
        if self.groups.contains_key(group) {
            self.groups[group]
        } else {
            seq![]
        }
    }

    /// The state after an event of a group of workspaces. A group that is not known yet is
    /// known once an output enters it.
    pub open spec fn after_group(self, group: Seq<char>, event: GroupEvent) -> DumpView {
        match event {
            GroupEvent::OutputEnter { output } => DumpView {
                groups: self.groups.insert(
                    group,
                    self.group_outputs(group).push(self.output_name(output@)),
                ),
                ..self
            },
            GroupEvent::WorkspaceEnter { workspace } => self.with_workspace(
                workspace@,
                SpaceView { group: Some(group), ..self.workspaces[workspace@] },
            ),
            GroupEvent::Other => self,
        }
    }

    /// The state after an event of a workspace's handle.
    pub open spec fn after_workspace(self, handle: Seq<char>, event: WorkspaceEvent) -> DumpView {
        let data = self.workspaces[handle];
        match event {
            WorkspaceEvent::Id { id } => self.with_workspace(
                handle,
                SpaceView { id: Some(id@), ..data },
            ),
            WorkspaceEvent::Name { name } => self.with_workspace(
                handle,
                SpaceView { name: name@, ..data },
            ),
            WorkspaceEvent::Coordinates { coordinates } => self.with_workspace(
                handle,
                SpaceView { coordinates: words::words(self.byte_order, coordinates@), ..data },
            ),
            WorkspaceEvent::State { state } => self.with_workspace(
                handle,
                SpaceView { ext_state: state, ..data },
            ),
            WorkspaceEvent::Capabilities { capabilities } => self.with_workspace(
                handle,
                SpaceView { capabilities, ..data },
            ),
            WorkspaceEvent::Removed => DumpView {
                workspaces: self.workspaces.remove(handle),
                ..self
            },
            WorkspaceEvent::Other => self,
        }
    }

    /// The state after an event of a workspace's cosmic extension.
    pub open spec fn after_cosmic_workspace(
        self,
        handle: Seq<char>,
        event: CosmicWorkspaceEvent,
    ) -> DumpView {
        if !self.cosmic_workspace_map.contains_key(handle) {
            self
        } else {
            let ext = self.cosmic_workspace_map[handle];
            let data = self.workspaces[ext];
            match event {
                CosmicWorkspaceEvent::TilingState { state } => self.with_workspace(
                    ext,
                    SpaceView { tiling: event::tiling(state), ..data },
                ),
                CosmicWorkspaceEvent::State { state } => self.with_workspace(
                    ext,
                    SpaceView { cosmic_state: state, ..data },
                ),
                CosmicWorkspaceEvent::Capabilities { capabilities } => self.with_workspace(
                    ext,
                    SpaceView { cosmic_capabilities: capabilities, ..data },
                ),
                CosmicWorkspaceEvent::Other => self,
            }
        }
    }

    /// The state after an event.
    pub open spec fn after(self, event: Event) -> DumpView {
        match event {
            Event::Bound { global, object } => match global {
                Global::ToplevelInfo => DumpView { toplevel_info: Some(object@), ..self },
                Global::CosmicWorkspaceManager => DumpView {
                    workspace_cosmic: Some(object@),
                    ..self
                },
                _ => self,
            },
            Event::OutputName { output, name } => DumpView {
                outputs: self.outputs.insert(output@, name@),
                ..self
            },
            Event::NewToplevel { toplevel } => DumpView {
                toplevels: self.toplevels.insert(toplevel@, WindowView::unknown()),
                pending_toplevels: self.pending_toplevels.push(toplevel@),
                ..self
            },
            Event::Toplevel { handle, event } => self.after_toplevel(handle@, event),
            Event::ToplevelInfoDone => DumpView { toplevels_done: true, ..self },
            Event::CosmicToplevel { handle, event } => self.after_cosmic_toplevel(handle@, event),
            Event::NewWorkspaceGroup { group } => DumpView {
                groups: self.groups.insert(group@, seq![]),
                ..self
            },
            Event::NewWorkspace { workspace } => DumpView {
                workspaces: self.workspaces.insert(workspace@, SpaceView::unknown()),
                pending_workspaces: self.pending_workspaces.push(workspace@),
                ..self
            },
            Event::WorkspaceGroup { group, event } => self.after_group(group@, event),
            Event::Workspace { handle, event } => self.after_workspace(handle@, event),
            Event::CosmicWorkspace { handle, event } => self.after_cosmic_workspace(handle@, event),
            Event::Other => self,
        }
    }

    /// The global without which no extension can be asked for.
    pub open spec fn missing(self) -> Option<MissingGlobal> {
        if self.toplevel_info is None {
            Some(MissingGlobal::ToplevelInfo)
        } else if self.workspace_cosmic is None {
            Some(MissingGlobal::WorkspaceManager)
        } else {
            None
        }
    }

    /// The state once each extension of a window is routed to its handle.
    pub open spec fn with_cosmic_toplevels(self, extensions: Seq<Seq<char>>) -> DumpView {
        DumpView {
            pending_toplevels: seq![],
            cosmic_toplevel_map: routed(
                self.cosmic_toplevel_map,
                extensions,
                self.pending_toplevels,
            ),
            ..self
        }
    }

    /// The state once each extension of a workspace is routed to its handle.
    pub open spec fn with_cosmic_workspaces(self, extensions: Seq<Seq<char>>) -> DumpView {
        DumpView {
            pending_workspaces: seq![],
            cosmic_workspace_map: routed(
                self.cosmic_workspace_map,
                extensions,
                self.pending_workspaces,
            ),
            ..self
        }
    }

    /// The state once each extension is routed to its handle.
    pub open spec fn extended(
        self,
        toplevels: Seq<Seq<char>>,
        workspaces: Seq<Seq<char>>,
    ) -> DumpView {
        self.with_cosmic_toplevels(toplevels).with_cosmic_workspaces(workspaces)
    }
}

/// The routes with extension number `i` of a list routed to handle number `i` of another.
pub open spec fn routed(
    routes: Map<Seq<char>, Seq<char>>,
    extensions: Seq<Seq<char>>,
    handles: Seq<Seq<char>>,
) -> Map<Seq<char>, Seq<char>>
    decreases handles.len(),
{
    if handles.len() == 0 {
        routes
    } else {
        routed(routes, extensions.drop_last(), handles.drop_last()).insert(
            extensions.last(),
            handles.last(),
        )
    }
}

/// The global that an interface is, and the highest version of it that is understood.
pub open spec fn supported(interface: Seq<char>) -> Option<(Global, u32)> {
    if interface == "ext_foreign_toplevel_list_v1"@ {
        Some((Global::ToplevelList, 1u32))
    } else if interface == "zcosmic_toplevel_info_v1"@ {
        Some((Global::ToplevelInfo, 3u32))
    } else if interface == "ext_workspace_manager_v1"@ {
        Some((Global::WorkspaceManager, 1u32))
    } else if interface == "zcosmic_workspace_manager_v2"@ {
        Some((Global::CosmicWorkspaceManager, 2u32))
    } else if interface == "wl_output"@ {
        Some((Global::Output, 4u32))
    } else {
        None
    }
}

/// What to bind when the compositor offers a version of an interface: the highest
/// version that both sides understand, of the interfaces that are supported.
pub fn binding_for(interface: &str, version: u32) -> (r: Option<Binding>)
    ensures
        r == event::binding(supported(interface@), version),
{
    if same_text(interface, "ext_foreign_toplevel_list_v1") {
        Some(Binding { global: Global::ToplevelList, version: lower(version, 1) })
    } else if same_text(interface, "zcosmic_toplevel_info_v1") {
        Some(Binding { global: Global::ToplevelInfo, version: lower(version, 3) })
    } else if same_text(interface, "ext_workspace_manager_v1") {
        Some(Binding { global: Global::WorkspaceManager, version: lower(version, 1) })
    } else if same_text(interface, "zcosmic_workspace_manager_v2") {
        Some(Binding { global: Global::CosmicWorkspaceManager, version: lower(version, 2) })
    } else if same_text(interface, "wl_output") {
        Some(Binding { global: Global::Output, version: lower(version, 4) })
    } else {
        None
    }
}

impl MissingGlobal {
    /// The complaint that a global is missing.
    pub open spec fn complaint(self) -> Seq<char> {
        match self {
            MissingGlobal::ToplevelInfo => "falta zcosmic_toplevel_info_v1"@,
            MissingGlobal::WorkspaceManager => "falta zcosmic_workspace_manager_v2"@,
        }
    }

    /// The complaint that a global is missing.
    pub fn message(&self) -> (r: &'static str)
        ensures
            r@ == self.complaint(),
    {
        match self {
            MissingGlobal::ToplevelInfo => "falta zcosmic_toplevel_info_v1",
            MissingGlobal::WorkspaceManager => "falta zcosmic_workspace_manager_v2",
        }
    }
}

fn route(routes: &mut Table<String>, extensions: &Vec<String>, handles: &Vec<String>)
    requires
        extensions@.len() == handles@.len(),
    ensures
        final(routes)@.map_values(|h: String| h@) == routed(
            old(routes)@.map_values(|h: String| h@),
            text::texts(extensions@),
            text::texts(handles@),
        ),
{
    let ghost start = routes@.map_values(|h: String| h@);
    let ghost from = text::texts(extensions@);
    let ghost to = text::texts(handles@);
    let mut i: usize = 0;
    while i < handles.len()
        invariant
            i <= handles@.len(),
            handles@.len() == extensions@.len(),
            from == text::texts(extensions@),
            to == text::texts(handles@),
            routes@.map_values(|h: String| h@) == routed(
                start,
                from.take(i as int),
                to.take(i as int),
            ),
        decreases handles@.len() - i,
    {
        assert(from.take(i + 1).drop_last() =~= from.take(i as int));
        assert(to.take(i + 1).drop_last() =~= to.take(i as int));
        let ghost before = routes@;
        routes.insert(extensions[i].clone(), handles[i].clone());
        assert(routes@.map_values(|h: String| h@) =~= before.map_values(|h: String| h@).insert(
            from[i as int],
            to[i as int],
        ));
        i = i + 1;
    }
    assert(from.take(i as int) =~= from);
    assert(to.take(i as int) =~= to);
}

impl State {
    /// A session of which nothing is known, on a connection of this byte order.
    pub fn new(byte_order: ByteOrder) -> (s: State)
        ensures
            s@ == DumpView::unknown(byte_order),
    {
        State {
            byte_order,
            toplevel_info: None,
            workspace_cosmic: None,
            toplevels: Table::new(),
            workspaces: Table::new(),
            outputs: Table::new(),
            pending_toplevels: Vec::new(),
            pending_workspaces: Vec::new(),
            cosmic_toplevel_map: Table::new(),
            cosmic_workspace_map: Table::new(),
            groups: Table::new(),
            toplevels_done: false,
        }
    }

    /// Takes in an event of a window's handle.
    pub fn toplevel_event(&mut self, handle: String, event: ToplevelEvent)
        ensures
            final(self)@ == old(self)@.after_toplevel(handle@, event),
    {
        let entry = match self.toplevels.get_mut(&handle) {
            Some(entry) => entry,
            None => {
                return ;
            },
        };
        match event {
            ToplevelEvent::Title { title } => {
                entry.title = title;
            },
            ToplevelEvent::AppId { app_id } => {
                entry.app_id = app_id;
            },
            ToplevelEvent::Identifier { identifier } => {
                entry.identifier = identifier;
            },
            ToplevelEvent::Closed => {
                self.toplevels.remove(&handle);
            },
            ToplevelEvent::Done => {},
            ToplevelEvent::Other => {},
        }
    }

    /// The name of an output: its key for as long as the compositor has not named it.
    pub fn output_name(&self, output: &String) -> (r: String)
        ensures
            r@ == self@.output_name(output@),
    {
        match self.outputs.get(output) {
            Some(name) => name.clone(),
            None => output.clone(),
        }
    }

    /// The name of a workspace: its key where it is not known.
    pub fn workspace_name(&self, workspace: &String) -> (r: String)
        ensures
            r@ == self@.workspace_name(workspace@),
    {
        match self.workspaces.get(workspace) {
            Some(entry) => entry.name.clone(),
            None => workspace.clone(),
        }
    }

    /// Takes in an event of a window's cosmic extension.
    pub fn cosmic_toplevel_event(&mut self, handle: String, event: CosmicToplevelEvent)
        ensures
            final(self)@ == old(self)@.after_cosmic_toplevel(handle@, event),
    {
        let ext = match self.cosmic_toplevel_map.get(&handle) {
            Some(ext) => ext.clone(),
            None => {
                return ;
            },
        };
        match event {
            CosmicToplevelEvent::State { state } => {
                let states = decode_words(self.byte_order, &state);
                if let Some(entry) = self.toplevels.get_mut(&ext) {
                    entry.states = states;
                }
            },
            CosmicToplevelEvent::OutputEnter { output } => {
                let name = self.output_name(&output);
                if let Some(entry) = self.toplevels.get_mut(&ext) {
                    let ghost before = entry.outputs@;
                    entry.outputs.push(name);
                    assert(text::texts(entry.outputs@) =~= text::texts(before).push(name@));
                }
            },
            CosmicToplevelEvent::OutputLeave { output } => {
                let name = self.output_name(&output);
                if let Some(entry) = self.toplevels.get_mut(&ext) {
                    remove_text(&mut entry.outputs, &name);
                }
            },
            CosmicToplevelEvent::Geometry { output, x, y, width, height } => {
                let name = self.output_name(&output);
                if let Some(entry) = self.toplevels.get_mut(&ext) {
                    entry.geometry.insert(name, (x, y, width, height));
                }
            },
            CosmicToplevelEvent::ExtWorkspaceEnter { workspace } => {
                if let Some(entry) = self.toplevels.get_mut(&ext) {
                    let ghost before = entry.workspaces@;
                    entry.workspaces.push(workspace);
                    assert(text::texts(entry.workspaces@) =~= text::texts(before).push(workspace@));
                }
            },
            CosmicToplevelEvent::ExtWorkspaceLeave { workspace } => {
                if let Some(entry) = self.toplevels.get_mut(&ext) {
                    remove_text(&mut entry.workspaces, &workspace);
                }
            },
            CosmicToplevelEvent::Other => {},
        }
    }

    /// Takes in an event of a group of workspaces.
    pub fn group_event(&mut self, group: String, event: GroupEvent)
        ensures
            final(self)@ == old(self)@.after_group(group@, event),
    {
        match event {
            GroupEvent::OutputEnter { output } => {
                let name = self.output_name(&output);
                if let Some(outputs) = self.groups.get_mut(&group) {
                    let ghost before = outputs@;
                    outputs.push(name);
                    assert(text::texts(outputs@) =~= text::texts(before).push(name@));
                } else {
                    let mut outputs: Vec<String> = Vec::new();
                    outputs.push(name);
                    assert(text::texts(outputs@) =~= seq![].push(name@));
                    self.groups.insert(group, outputs);
                }
            },
            GroupEvent::WorkspaceEnter { workspace } => {
                if let Some(entry) = self.workspaces.get_mut(&workspace) {
                    entry.group = Some(group);
                }
            },
            GroupEvent::Other => {},
        }
    }

    /// Takes in an event of a workspace's handle.
    pub fn workspace_event(&mut self, handle: String, event: WorkspaceEvent)
        ensures
            final(self)@ == old(self)@.after_workspace(handle@, event),
    {
        let order = self.byte_order;
        let entry = match self.workspaces.get_mut(&handle) {
            Some(entry) => entry,
            None => {
                return ;
            },
        };
        match event {
            WorkspaceEvent::Id { id } => {
                entry.id = Some(id);
            },
            WorkspaceEvent::Name { name } => {
                entry.name = name;
            },
            WorkspaceEvent::Coordinates { coordinates } => {
                entry.coordinates = decode_words(order, &coordinates);
            },
            WorkspaceEvent::State { state } => {
                entry.ext_state = state;
            },
            WorkspaceEvent::Removed => {
                self.workspaces.remove(&handle);
            },
            WorkspaceEvent::Capabilities { capabilities } => {
                entry.capabilities = capabilities;
            },
            WorkspaceEvent::Other => {},
        }
    }

    /// Takes in an event of a workspace's cosmic extension.
    pub fn cosmic_workspace_event(&mut self, handle: String, event: CosmicWorkspaceEvent)
        ensures
            final(self)@ == old(self)@.after_cosmic_workspace(handle@, event),
    {
        let ext = match self.cosmic_workspace_map.get(&handle) {
            Some(ext) => ext.clone(),
            None => {
                return ;
            },
        };
        let entry = match self.workspaces.get_mut(&ext) {
            Some(entry) => entry,
            None => {
                return ;
            },
        };
        match event {
            CosmicWorkspaceEvent::TilingState { state } => {
                entry.tiling = known_tiling(state);
            },
            CosmicWorkspaceEvent::State { state } => {
                entry.cosmic_state = state;
            },
            CosmicWorkspaceEvent::Capabilities { capabilities } => {
                entry.cosmic_capabilities = capabilities;
            },
            CosmicWorkspaceEvent::Other => {},
        }
    }

    /// Takes in an event.
    pub fn event(&mut self, event: Event)
        ensures
            final(self)@ == old(self)@.after(event),
    {
        match event {
            Event::Bound { global, object } => {
                match global {
                    Global::ToplevelInfo => {
                        self.toplevel_info = Some(object);
                    },
                    Global::CosmicWorkspaceManager => {
                        self.workspace_cosmic = Some(object);
                    },
                    Global::ToplevelManager => {},
                    Global::WorkspaceManager => {},
                    Global::ToplevelList => {},
                    Global::Output => {},
                }
            },
            Event::OutputName { output, name } => {
                self.outputs.insert(output, name);
            },
            Event::NewToplevel { toplevel } => {
                self.toplevels.insert(toplevel.clone(), Toplevel::default());
                let ghost before = self.pending_toplevels@;
                self.pending_toplevels.push(toplevel);
                assert(text::texts(self.pending_toplevels@) =~= text::texts(before).push(
                    toplevel@,
                ));
            },
            Event::Toplevel { handle, event } => self.toplevel_event(handle, event),
            Event::ToplevelInfoDone => {
                self.toplevels_done = true;
            },
            Event::CosmicToplevel { handle, event } => self.cosmic_toplevel_event(handle, event),
            Event::NewWorkspaceGroup { group } => {
                let outputs: Vec<String> = Vec::new();
                assert(text::texts(outputs@) =~= seq![]);
                self.groups.insert(group, outputs);
            },
            Event::NewWorkspace { workspace } => {
                self.workspaces.insert(workspace.clone(), Workspace::default());
                let ghost before = self.pending_workspaces@;
                self.pending_workspaces.push(workspace);
                assert(text::texts(self.pending_workspaces@) =~= text::texts(before).push(
                    workspace@,
                ));
            },
            Event::WorkspaceGroup { group, event } => self.group_event(group, event),
            Event::Workspace { handle, event } => self.workspace_event(handle, event),
            Event::CosmicWorkspace { handle, event } => self.cosmic_workspace_event(handle, event),
            Event::Other => {},
        }
    }

    /// The windows whose cosmic extension is to be asked for. The global that makes the
    /// extensions must be there.
    pub fn toplevel_requests(&self) -> (r: Result<Vec<String>, MissingGlobal>)
        ensures
            match r {
                Ok(toplevels) => {
                    &&& self@.toplevel_info is Some
                    &&& text::texts(toplevels@) == self@.pending_toplevels
                },
                Err(missing) => {
                    &&& self@.toplevel_info is None
                    &&& missing == MissingGlobal::ToplevelInfo
                },
            },
    {
        if self.toplevel_info.is_none() {
            return Err(MissingGlobal::ToplevelInfo);
        }
        Ok(copy_texts(&self.pending_toplevels))
    }

    /// Takes in the extensions that were made for the handles of `toplevel_requests`, in the
    /// same order.
    pub fn extend_toplevels(&mut self, extensions: Vec<String>)
        requires
            extensions@.len() == old(self)@.pending_toplevels.len(),
        ensures
            final(self)@ == old(self)@.with_cosmic_toplevels(text::texts(extensions@)),
    {
        let mut handles: Vec<String> = Vec::new();
        std::mem::swap(&mut handles, &mut self.pending_toplevels);
        route(&mut self.cosmic_toplevel_map, &extensions, &handles);
        assert(text::texts(self.pending_toplevels@) =~= seq![]);
    }

    /// The workspaces whose cosmic extension is to be asked for. The global that makes the
    /// extensions must be there.
    pub fn workspace_requests(&self) -> (r: Result<Vec<String>, MissingGlobal>)
        ensures
            match r {
                Ok(workspaces) => {
                    &&& self@.workspace_cosmic is Some
                    &&& text::texts(workspaces@) == self@.pending_workspaces
                },
                Err(missing) => {
                    &&& self@.workspace_cosmic is None
                    &&& missing == MissingGlobal::WorkspaceManager
                },
            },
    {
        if self.workspace_cosmic.is_none() {
            return Err(MissingGlobal::WorkspaceManager);
        }
        Ok(copy_texts(&self.pending_workspaces))
    }

    /// Takes in the extensions that were made for the handles of `workspace_requests`, in the
    /// same order.
    pub fn extend_workspaces(&mut self, extensions: Vec<String>)
        requires
            extensions@.len() == old(self)@.pending_workspaces.len(),
        ensures
            final(self)@ == old(self)@.with_cosmic_workspaces(text::texts(extensions@)),
    {
        let mut handles: Vec<String> = Vec::new();
        std::mem::swap(&mut handles, &mut self.pending_workspaces);
        route(&mut self.cosmic_workspace_map, &extensions, &handles);
        assert(text::texts(self.pending_workspaces@) =~= seq![]);
    }
}

impl Default for State {
    fn default() -> (s: State)
        ensures
            s@ == DumpView::unknown(s.byte_order),
            words::host_reads_as(s.byte_order),
    {
        State::new(host_byte_order())
    }
}

impl Default for Toplevel {
    fn default() -> (t: Toplevel)
        ensures
            t@ == WindowView::unknown(),
    {
        Toplevel {
            identifier: String::new(),
            app_id: String::new(),
            title: String::new(),
            states: Vec::new(),
            geometry: Table::new(),
            outputs: Vec::new(),
            workspaces: Vec::new(),
        }
    }
}

impl Default for Workspace {
    fn default() -> (w: Workspace)
        ensures
            w@ == SpaceView::unknown(),
    {
        Workspace {
            id: None,
            name: String::new(),
            coordinates: Vec::new(),
            ext_state: 0,
            cosmic_state: 0,
            tiling: None,
            capabilities: 0,
            cosmic_capabilities: 0,
            group: None,
        }
    }
}

} // verus!
