//! What the compositor tells about the session. An object of the connection is named by
//! the key that identifies it.

use vstd::prelude::*;

verus! {

/// A global of the compositor that the session tools know.
#[derive(Debug, Clone, Copy, PartialEq, Eq, Structural)]
pub enum Global {
    ToplevelList,
    ToplevelInfo,
    ToplevelManager,
    WorkspaceManager,
    CosmicWorkspaceManager,
    Output,
}

/// Which version of which global to bind.
#[derive(Debug, Clone, Copy, PartialEq, Eq, Structural)]
pub struct Binding {
    pub global: Global,
    pub version: u32,
}

/// An event of an `ext_foreign_toplevel_handle_v1`.
#[derive(Debug)]
pub enum ToplevelEvent {
    Title { title: String },
    AppId { app_id: String },
    Identifier { identifier: String },
    Done,
    Closed,
    Other,
}

/// An event of a `zcosmic_toplevel_handle_v1`.
#[derive(Debug)]
pub enum CosmicToplevelEvent {
    State { state: Vec<u8> },
    OutputEnter { output: String },
    OutputLeave { output: String },
    Geometry { output: String, x: i32, y: i32, width: i32, height: i32 },
    ExtWorkspaceEnter { workspace: String },
    ExtWorkspaceLeave { workspace: String },
    Other,
}

/// An event of an `ext_workspace_group_handle_v1`.
#[derive(Debug)]
pub enum GroupEvent {
    OutputEnter { output: String },
    WorkspaceEnter { workspace: String },
    Other,
}

/// An event of an `ext_workspace_handle_v1`.
#[derive(Debug)]
pub enum WorkspaceEvent {
    Id { id: String },
    Name { name: String },
    Coordinates { coordinates: Vec<u8> },
    State { state: u32 },
    Capabilities { capabilities: u32 },
    Removed,
    Other,
}

/// An event of a `zcosmic_workspace_handle_v2`.
#[derive(Debug)]
pub enum CosmicWorkspaceEvent {
    TilingState { state: u32 },
    State { state: u32 },
    Capabilities { capabilities: u32 },
    Other,
}

/// Anything that the connection reports.
#[derive(Debug)]
#[allow(inconsistent_fields)]
pub enum Event {
    /// A global was bound as this object.
    Bound { global: Global, object: String },
    OutputName { output: String, name: String },
    NewToplevel { toplevel: String },
    Toplevel { handle: String, event: ToplevelEvent },
    ToplevelInfoDone,
    CosmicToplevel { handle: String, event: CosmicToplevelEvent },
    NewWorkspaceGroup { group: String },
    NewWorkspace { workspace: String },
    WorkspaceGroup { group: String, event: GroupEvent },
    Workspace { handle: String, event: WorkspaceEvent },
    CosmicWorkspace { handle: String, event: CosmicWorkspaceEvent },
    Other,
}

/// The lower of two numbers.
pub open spec fn lower_of(a: u32, b: u32) -> u32 {
    if a <= b {
        a
    } else {
        b
    }
}

/// The lower of two numbers.
pub fn lower(a: u32, b: u32) -> (r: u32)
    ensures
        r == lower_of(a, b),
{
    if a <= b {
        a
    } else {
        b
    }
}

/// What to bind when the compositor offers a version of an interface, of which a global
/// up to a highest version is supported.
pub open spec fn binding(supported: Option<(Global, u32)>, offered: u32) -> Option<Binding> {
    match supported {
        Some((global, highest)) => Some(Binding { global, version: lower_of(offered, highest) }),
        None => None,
    }
}

/// The tiling state that a number of the protocol stands for: 0 for a workspace whose
/// windows float, 1 for one that tiles them. Other numbers stand for nothing.
pub open spec fn tiling(state: u32) -> Option<u32> {
    if state <= 1 {
        Some(state)
    } else {
        None
    }
}

/// `WEnum::from`, `WEnum::into_result` and the `TilingState` of the protocol: a number
/// that the protocol defines comes back as it is, any other number is refused. The
/// protocol defines 0 and 1.
#[verifier::external_body]
pub(crate) fn known_tiling(state: u32) -> (r: Option<u32>)
    ensures
        r == tiling(state),
{
    wayland_client::WEnum::<
        cosmic_protocols::workspace::v2::client::zcosmic_workspace_handle_v2::TilingState,
    >::from(state).into_result().ok().map(|v| v as u32)
}

/// The lower of two numbers is one of them, and neither is lower.
pub proof fn the_lower_is_one_of_them(a: u32, b: u32)
    ensures
        lower_of(a, b) <= a,
        lower_of(a, b) <= b,
        lower_of(a, b) == a || lower_of(a, b) == b,
{
}

} // verus!
