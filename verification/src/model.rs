//! What is kept of a session when it is saved.

use std::collections::BTreeMap;
use vstd::prelude::*;

verus! {

/// A session as it was when it was saved.
#[derive(Debug, Clone)]
pub struct SessionSnapshot {
    pub saved_at_epoch: u64,
    pub workspaces: Vec<WorkspaceSnap>,
    pub windows: Vec<WindowSnap>,
    /// binary of the browser -> its active profiles
    pub browser_profiles: BTreeMap<String, Vec<String>>,
}

/// A workspace as it was when the session was saved.
#[derive(Debug, Clone)]
pub struct WorkspaceSnap {
    pub name: String,
    pub coordinates: Vec<u32>,
    /// 0 = floating, 1 = tiling
    pub tiling: Option<u32>,
    pub active: bool,
    pub pinned: bool,
    pub output: Option<String>,
}

/// A window as it was when the session was saved.
#[derive(Debug, Clone)]
pub struct WindowSnap {
    pub app_id: String,
    pub title: String,
    pub workspace: Option<String>,
    pub output: Option<String>,
    pub maximized: bool,
    pub minimized: bool,
    pub fullscreen: bool,
    pub sticky: bool,
    pub geometry: Option<(i32, i32, i32, i32)>,
}

impl Default for SessionSnapshot {
    fn default() -> (s: SessionSnapshot)
        ensures
            s.saved_at_epoch == 0,
            s.workspaces@ == Seq::<WorkspaceSnap>::empty(),
            s.windows@ == Seq::<WindowSnap>::empty(),
            s.browser_profiles@ == Map::<String, Vec<String>>::empty(),
    {
        SessionSnapshot {
            saved_at_epoch: 0,
            workspaces: Vec::new(),
            windows: Vec::new(),
            browser_profiles: BTreeMap::new(),
        }
    }
}

impl Default for WorkspaceSnap {
    fn default() -> (w: WorkspaceSnap)
        ensures
            w.name@ == Seq::<char>::empty(),
            w.coordinates@ == Seq::<u32>::empty(),
            w.tiling is None,
            !w.active,
            !w.pinned,
            w.output is None,
    {
        WorkspaceSnap {
            name: String::new(),
            coordinates: Vec::new(),
            tiling: None,
            active: false,
            pinned: false,
            output: None,
        }
    }
}

impl Default for WindowSnap {
    fn default() -> (w: WindowSnap)
        ensures
            w.app_id@ == Seq::<char>::empty(),
            w.title@ == Seq::<char>::empty(),
            w.workspace is None,
            w.output is None,
            !w.maximized,
            !w.minimized,
            !w.fullscreen,
            !w.sticky,
            w.geometry is None,
    {
        WindowSnap {
            app_id: String::new(),
            title: String::new(),
            workspace: None,
            output: None,
            maximized: false,
            minimized: false,
            fullscreen: false,
            sticky: false,
            geometry: None,
        }
    }
}

} // verus!
