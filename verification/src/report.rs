//! The report of a dump: the lines that tell which outputs, workspaces and windows there
//! are.

use crate::dump;
use crate::dump::{State, Toplevel, Workspace};
use crate::order;
use crate::order::sort_places;
use crate::show;
use crate::show::{
    write_bracketed, write_decimals, write_joined, write_numeral, write_quoted, write_signed,
};
use crate::table::Table;
use crate::text;
use vstd::prelude::*;

verus! {

/// How a value that may be missing is written.
pub open spec fn optional_text(value: Option<Seq<char>>) -> Seq<char> {
    match value {
        Some(v) => "Some("@ + v + ")"@,
        None => "None"@,
    }
}

/// How the layout of a workspace is written.
pub open spec fn layout_text(tiling: Option<u32>) -> Seq<char> {
    if tiling == Some(1u32) {
        "tiling"@
    } else if tiling == Some(0u32) {
        "floating"@
    } else {
        "?"@
    }
}

/// The line on a workspace, whose name and whose id are given as they are quoted.
pub open spec fn workspace_text(
    key: Seq<char>,
    workspace: dump::SpaceView,
    name: Seq<char>,
    id: Option<Seq<char>>,
) -> Seq<char> {
    "  ["@ + key + "] name="@ + name + " id="@ + optional_text(id) + " coords="@
        + show::bracketed(show::decimals(workspace.coordinates)) + " "@ + layout_text(
        workspace.tiling,
    ) + " ext_state=0x"@ + show::numeral(workspace.ext_state as nat, 16) + " cosmic_state=0x"@
        + show::numeral(workspace.cosmic_state as nat, 16)
}

/// How the place of a window on an output is written, where the output is given as it is
/// quoted.
pub open spec fn area_text(output: Seq<char>, area: (i32, i32, i32, i32)) -> Seq<char> {
    output + ": ("@ + show::signed(area.0 as int) + ", "@ + show::signed(area.1 as int) + ", "@
        + show::signed(area.2 as int) + ", "@ + show::signed(area.3 as int) + ")"@
}

/// How the places of a window are written.
pub open spec fn areas_text(areas: Seq<Seq<char>>) -> Seq<char> {
    "{"@ + show::joined(areas, ", "@) + "}"@
}

/// The lines on a window, whose title, outputs and workspaces are given as they are
/// quoted, and whose places as they are written.
pub open spec fn window_text(
    window: dump::WindowView,
    title: Seq<char>,
    outputs: Seq<Seq<char>>,
    workspaces: Seq<Seq<char>>,
    areas: Seq<Seq<char>>,
) -> Seq<Seq<char>> {
    seq![
        "  "@ + window.app_id + " — "@ + title,
        "     identifier: "@ + window.identifier,
        "     states:     "@ + show::bracketed(show::decimals(window.states)),
        "     outputs:    "@ + show::bracketed(outputs),
        "     workspaces: "@ + show::bracketed(workspaces),
        "     geometry:   "@ + areas_text(areas),
    ]
}

/// The texts as they are quoted.
pub open spec fn all_quoted(list: Seq<Seq<char>>) -> Seq<Seq<char>> {
    list.map_values(|t: Seq<char>| show::quoted(t))
}

/// The text as it is quoted, where there is one.
pub open spec fn quoted_if_there(value: Option<Seq<char>>) -> Option<Seq<char>> {
    match value {
        Some(v) => Some(show::quoted(v)),
        None => None,
    }
}

/// The places of a window as they are written, in the order in which they came in.
pub open spec fn areas_of(geometry: Table<(i32, i32, i32, i32)>) -> Seq<Seq<char>> {
    geometry.order().map_values(|o: Seq<char>| area_text(show::quoted(o), geometry@[o]))
}

/// The names of workspaces.
pub open spec fn workspace_names(state: dump::DumpView, list: Seq<Seq<char>>) -> Seq<Seq<char>> {
    list.map_values(|w: Seq<char>| state.workspace_name(w))
}

/// The line on an output.
pub open spec fn output_text(name: Seq<char>) -> Seq<char> {
    "  "@ + name
}

/// The lines on the outputs.
pub open spec fn output_lines(outputs: Table<String>) -> Seq<Seq<char>> {
    outputs.order().map_values(|o: Seq<char>| output_text(outputs@[o]@))
}

/// The line on a workspace.
pub open spec fn workspace_line_of(key: Seq<char>, workspace: dump::SpaceView) -> Seq<char> {
    workspace_text(
        key,
        workspace,
        show::quoted(workspace.name),
        quoted_if_there(workspace.id),
    )
}

/// The coordinates of the workspaces, in the order in which they came in.
pub open spec fn coordinates(workspaces: Table<Workspace>) -> Seq<Seq<u32>> {
    workspaces.order().map_values(|k: Seq<char>| workspaces@[k]@.coordinates)
}

/// The places of lists of numbers in the order of the lists.
pub open spec fn sorted(keys: Seq<Seq<u32>>) -> Seq<usize> {
    choose|places: Seq<usize>| order::in_order(keys, places)
}

/// The lines on the workspaces, in the order of their coordinates.
pub open spec fn workspace_lines(workspaces: Table<Workspace>) -> Seq<Seq<char>> {
    sorted(coordinates(workspaces)).map_values(
        |i: usize|
            workspace_line_of(
                workspaces.order()[i as int],
                workspaces@[workspaces.order()[i as int]]@,
            ),
    )
}

/// The lines on a window.
pub open spec fn window_lines_of(state: State, window: Toplevel) -> Seq<Seq<char>> {
    window_text(
        window@,
        show::quoted(window@.title),
        all_quoted(window@.outputs),
        all_quoted(workspace_names(state@, window@.workspaces)),
        areas_of(window.geometry),
    )
}

/// The lines on the first windows.
pub open spec fn window_lines(state: State, n: nat) -> Seq<Seq<char>>
    decreases n,
{
    if n == 0 {
        seq![]
    } else {
        window_lines(state, (n - 1) as nat) + window_lines_of(
            state,
            state.toplevels@[state.toplevels.order()[n - 1]],
        )
    }
}

/// The report.
pub open spec fn report_of(state: State) -> Seq<Seq<char>> {
    seq!["== OUTPUTS =="@] + output_lines(state.outputs) + seq![""@, "== WORKSPACES =="@]
        + workspace_lines(state.workspaces) + seq![""@, "== VENTANAS =="@] + window_lines(
        state,
        state.toplevels.order().len(),
    )
}

/// The warning that goes with a report.
pub open spec fn warning_of(state: dump::DumpView) -> Seq<Seq<char>> {
    if state.toplevels_done {
        seq![]
    } else {
        seq![""@, "[aviso] no llegó zcosmic_toplevel_info_v1.done"@]
    }
}

/// Writes a value that may be missing.
fn write_optional(value: &Option<String>) -> (r: String)
    ensures
        r@ == optional_text(text::optional(*value)),
{
    match value {
        Some(v) => "Some(".to_owned().concat(v.as_str()).concat(")"),
        None => "None".to_owned(),
    }
}

fn write_layout(tiling: Option<u32>) -> (r: &'static str)
    ensures
        r@ == layout_text(tiling),
{
    match tiling {
        Some(1) => "tiling",
        Some(0) => "floating",
        _ => "?",
    }
}

/// Writes the line on a workspace, whose name and whose id are given as they are quoted.
pub fn workspace_line(key: &str, workspace: &Workspace, name: &str, id: &Option<String>) -> (r:
    String)
    ensures
        r@ == workspace_text(key@, workspace@, name@, text::optional(*id)),
{
    let coordinates = write_bracketed(&write_decimals(&workspace.coordinates));
    "  [".to_owned().concat(key).concat("] name=").concat(name).concat(" id=").concat(
        write_optional(id).as_str(),
    ).concat(" coords=").concat(coordinates.as_str()).concat(" ").concat(
        write_layout(workspace.tiling),
    ).concat(" ext_state=0x").concat(write_numeral(workspace.ext_state, 16).as_str()).concat(
        " cosmic_state=0x",
    ).concat(write_numeral(workspace.cosmic_state, 16).as_str())
}

/// Writes the place of a window on an output, where the output is given as it is quoted.
pub fn write_area(output: &str, area: (i32, i32, i32, i32)) -> (r: String)
    ensures
        r@ == area_text(output@, area),
{
    output.to_owned().concat(": (").concat(write_signed(area.0).as_str()).concat(", ").concat(
        write_signed(area.1).as_str(),
    ).concat(", ").concat(write_signed(area.2).as_str()).concat(", ").concat(
        write_signed(area.3).as_str(),
    ).concat(")")
}

/// Writes the lines on a window, whose title, outputs and workspaces are given as they are
/// quoted, and whose places as they are written.
pub fn window_block(
    window: &Toplevel,
    title: &str,
    outputs: &Vec<String>,
    workspaces: &Vec<String>,
    areas: &Vec<String>,
) -> (r: Vec<String>)
    ensures
        text::texts(r@) == window_text(
            window@,
            title@,
            text::texts(outputs@),
            text::texts(workspaces@),
            text::texts(areas@),
        ),
{
    let states = write_bracketed(&write_decimals(&window.states));
    let places = "{".to_owned().concat(write_joined(areas, ", ").as_str()).concat("}");
    let mut r: Vec<String> = Vec::new();
    r.push("  ".to_owned().concat(window.app_id.as_str()).concat(" — ").concat(title));
    r.push("     identifier: ".to_owned().concat(window.identifier.as_str()));
    r.push("     states:     ".to_owned().concat(states.as_str()));
    r.push("     outputs:    ".to_owned().concat(write_bracketed(outputs).as_str()));
    r.push("     workspaces: ".to_owned().concat(write_bracketed(workspaces).as_str()));
    r.push("     geometry:   ".to_owned().concat(places.as_str()));
    assert(text::texts(r@) =~= window_text(
        window@,
        title@,
        text::texts(outputs@),
        text::texts(workspaces@),
        text::texts(areas@),
    ));
    r
}

fn quote_all(list: &Vec<String>) -> (r: Vec<String>)
    ensures
        text::texts(r@) == all_quoted(text::texts(list@)),
{
    let mut r: Vec<String> = Vec::new();
    let mut i: usize = 0;
    while i < list.len()
        invariant
            i <= list@.len(),
            text::texts(r@) == all_quoted(text::texts(list@)).take(i as int),
        decreases list@.len() - i,
    {
        let ghost before = r@;
        let q = write_quoted(list[i].as_str());
        r.push(q);
        assert(text::texts(r@) =~= text::texts(before).push(q@));
        i = i + 1;
    }
    assert(text::texts(r@) =~= all_quoted(text::texts(list@)));
    r
}

fn quote_if_there(value: &Option<String>) -> (r: Option<String>)
    ensures
        text::optional(r) == quoted_if_there(text::optional(*value)),
{
    match value {
        Some(v) => Some(write_quoted(v.as_str())),
        None => None,
    }
}

fn write_areas(geometry: &Table<(i32, i32, i32, i32)>) -> (r: Vec<String>)
    ensures
        text::texts(r@) == areas_of(*geometry),
{
    let mut r: Vec<String> = Vec::new();
    let mut i: usize = 0;
    while i < geometry.len()
        invariant
            i <= geometry.order().len(),
            text::texts(r@) == areas_of(*geometry).take(i as int),
        decreases geometry.order().len() - i,
    {
        let ghost before = r@;
        let output = write_quoted(geometry.key_at(i).as_str());
        let line = write_area(output.as_str(), *geometry.value_at(i));
        r.push(line);
        assert(text::texts(r@) =~= text::texts(before).push(line@));
        i = i + 1;
    }
    assert(text::texts(r@) =~= areas_of(*geometry));
    r
}

fn name_workspaces(state: &State, list: &Vec<String>) -> (r: Vec<String>)
    ensures
        text::texts(r@) == workspace_names(state@, text::texts(list@)),
{
    let mut r: Vec<String> = Vec::new();
    let mut i: usize = 0;
    while i < list.len()
        invariant
            i <= list@.len(),
            text::texts(r@) == workspace_names(state@, text::texts(list@)).take(i as int),
        decreases list@.len() - i,
    {
        let ghost before = r@;
        let name = state.workspace_name(&list[i]);
        r.push(name);
        assert(text::texts(r@) =~= text::texts(before).push(name@));
        i = i + 1;
    }
    assert(text::texts(r@) =~= workspace_names(state@, text::texts(list@)));
    r
}

fn write_window(state: &State, window: &Toplevel) -> (r: Vec<String>)
    ensures
        text::texts(r@) == window_lines_of(*state, *window),
{
    let title = write_quoted(window.title.as_str());
    let outputs = quote_all(&window.outputs);
    let workspaces = quote_all(&name_workspaces(state, &window.workspaces));
    let areas = write_areas(&window.geometry);
    window_block(window, title.as_str(), &outputs, &workspaces, &areas)
}

fn extend_lines(lines: &mut Vec<String>, more: Vec<String>)
    ensures
        text::texts(final(lines)@) == text::texts(old(lines)@) + text::texts(more@),
{
    let mut rest = more;
    lines.append(&mut rest);
    assert(text::texts(lines@) =~= text::texts(old(lines)@) + text::texts(more@));
}

fn add_line(lines: &mut Vec<String>, line: &str)
    ensures
        text::texts(final(lines)@) == text::texts(old(lines)@).push(line@),
{
    lines.push(line.to_owned());
    assert(text::texts(lines@) =~= text::texts(old(lines)@).push(line@));
}

fn write_outputs(outputs: &Table<String>) -> (r: Vec<String>)
    ensures
        text::texts(r@) == output_lines(*outputs),
{
    let mut r: Vec<String> = Vec::new();
    let mut i: usize = 0;
    while i < outputs.len()
        invariant
            i <= outputs.order().len(),
            text::texts(r@) == output_lines(*outputs).take(i as int),
        decreases outputs.order().len() - i,
    {
        add_line(&mut r, "  ".to_owned().concat(outputs.value_at(i).as_str()).as_str());
        assert(output_lines(*outputs).take(i + 1) =~= output_lines(*outputs).take(i as int).push(
            output_lines(*outputs)[i as int],
        ));
        i = i + 1;
    }
    assert(text::texts(r@) =~= output_lines(*outputs));
    r
}

fn collect_coordinates(workspaces: &Table<Workspace>) -> (r: Vec<Vec<u32>>)
    ensures
        order::key_views(r@) == coordinates(*workspaces),
{
    let mut r: Vec<Vec<u32>> = Vec::new();
    let mut i: usize = 0;
    while i < workspaces.len()
        invariant
            i <= workspaces.order().len(),
            order::key_views(r@) == coordinates(*workspaces).take(i as int),
        decreases workspaces.order().len() - i,
    {
        let ghost before = r@;
        let list = workspaces.value_at(i).coordinates.clone();
        assert(list@ =~= workspaces@[workspaces.order()[i as int]].coordinates@);
        r.push(list);
        assert(order::key_views(r@) =~= order::key_views(before).push(list@));
        i = i + 1;
    }
    assert(order::key_views(r@) =~= coordinates(*workspaces));
    r
}

fn write_workspaces(workspaces: &Table<Workspace>) -> (r: Vec<String>)
    ensures
        text::texts(r@) == workspace_lines(*workspaces),
{
    let keys = collect_coordinates(workspaces);
    let places = sort_places(&keys);
    proof {
        order::the_order_is_unique(
            coordinates(*workspaces),
            places@,
            sorted(coordinates(*workspaces)),
        );
    }
    let mut r: Vec<String> = Vec::new();
    let mut i: usize = 0;
    while i < places.len()
        invariant
            i <= places@.len(),
            order::in_order(coordinates(*workspaces), places@),
            places@ == sorted(coordinates(*workspaces)),
            text::texts(r@) == workspace_lines(*workspaces).take(i as int),
        decreases places@.len() - i,
    {
        let ghost before = r@;
        let place: usize = places[i];
        let workspace = workspaces.value_at(place);
        let name = write_quoted(workspace.name.as_str());
        let id = quote_if_there(&workspace.id);
        let line = workspace_line(
            workspaces.key_at(place).as_str(),
            workspace,
            name.as_str(),
            &id,
        );
        r.push(line);
        assert(text::texts(r@) =~= text::texts(before).push(line@));
        i = i + 1;
    }
    assert(text::texts(r@) =~= workspace_lines(*workspaces));
    r
}

fn write_windows(state: &State) -> (r: Vec<String>)
    ensures
        text::texts(r@) == window_lines(*state, state.toplevels.order().len()),
{
    let mut r: Vec<String> = Vec::new();
    assert(text::texts(r@) =~= seq![]);
    let mut i: usize = 0;
    while i < state.toplevels.len()
        invariant
            i <= state.toplevels.order().len(),
            text::texts(r@) == window_lines(*state, i as nat),
        decreases state.toplevels.order().len() - i,
    {
        let block = write_window(state, state.toplevels.value_at(i));
        extend_lines(&mut r, block);
        i = i + 1;
    }
    r
}

/// The lines of the report.
pub fn report(state: &State) -> (r: Vec<String>)
    ensures
        text::texts(r@) == report_of(*state),
{
    let mut r: Vec<String> = Vec::new();
    add_line(&mut r, "== OUTPUTS ==");
    assert(text::texts(r@) =~= seq!["== OUTPUTS =="@]);
    extend_lines(&mut r, write_outputs(&state.outputs));
    let ghost outputs = text::texts(r@);
    add_line(&mut r, "");
    add_line(&mut r, "== WORKSPACES ==");
    assert(text::texts(r@) =~= outputs + seq![""@, "== WORKSPACES =="@]);
    extend_lines(&mut r, write_workspaces(&state.workspaces));
    let ghost workspaces = text::texts(r@);
    add_line(&mut r, "");
    add_line(&mut r, "== VENTANAS ==");
    assert(text::texts(r@) =~= workspaces + seq![""@, "== VENTANAS =="@]);
    extend_lines(&mut r, write_windows(state));
    r
}

/// The lines of the warning that goes with a report.
pub fn warning(state: &State) -> (r: Vec<String>)
    ensures
        text::texts(r@) == warning_of(state@),
{
    let mut r: Vec<String> = Vec::new();
    if !state.toplevels_done {
        add_line(&mut r, "");
        add_line(&mut r, "[aviso] no llegó zcosmic_toplevel_info_v1.done");
    }
    assert(text::texts(r@) =~= warning_of(state@));
    r
}

} // verus!
