//! What a report says, line by line, whatever the dump has gathered.

use crate::dump::{SpaceView, State, Toplevel, WindowView, Workspace};
use crate::order;
use crate::report;
use crate::show;
use crate::table::Table;
use vstd::prelude::*;

verus! {

/// The line on a workspace names its key, its name, its id, its coordinates, its layout and its two
/// states, and each of them is that of the workspace. The layout is known by its number alone.
pub proof fn the_line_on_a_workspace_says_what_it_is(
    key: Seq<char>,
    workspace: SpaceView,
    name: Seq<char>,
    id: Option<Seq<char>>,
)
    ensures
        report::workspace_text(key, workspace, name, id) == "  ["@ + key + "] name="@ + name
            + " id="@ + (match id {
            Some(i) => "Some("@ + i + ")"@,
            None => "None"@,
        }) + " coords="@ + show::bracketed(show::decimals(workspace.coordinates)) + " "@ + (
        match workspace.tiling {
            Some(n) => if n == 1 {
                "tiling"@
            } else if n == 0 {
                "floating"@
            } else {
                "?"@
            },
            None => "?"@,
        }) + " ext_state=0x"@ + show::numeral(workspace.ext_state as nat, 16)
            + " cosmic_state=0x"@ + show::numeral(workspace.cosmic_state as nat, 16),
        report::workspace_line_of(key, workspace) == report::workspace_text(
            key,
            workspace,
            show::quoted(workspace.name),
            match workspace.id {
                Some(i) => Some(show::quoted(i)),
                None => None,
            },
        ),
{
}

/// The place of a window on an output is written with the output in front and its four numbers
/// behind, in the order in which they are told.
pub proof fn a_place_is_written_by_its_numbers(output: Seq<char>, area: (i32, i32, i32, i32))
    ensures
        report::area_text(output, area) == output + ": ("@ + show::signed(area.0 as int) + ", "@
            + show::signed(area.1 as int) + ", "@ + show::signed(area.2 as int) + ", "@
            + show::signed(area.3 as int) + ")"@,
{
}

/// The places of a window are all that are known of it, each under its own output.
pub proof fn every_place_is_written(geometry: Table<(i32, i32, i32, i32)>, i: int)
    requires
        0 <= i < geometry.order().len(),
    ensures
        report::areas_of(geometry).len() == geometry.order().len(),
        report::areas_of(geometry)[i] == report::area_text(
            show::quoted(geometry.order()[i]),
            geometry@[geometry.order()[i]],
        ),
{
}

/// The lines on a window, from what stands in them: its app_id and its title, its identifier, its
/// states, its outputs, its workspaces and its places.
pub proof fn the_lines_on_a_window_say_what_it_is(
    window: WindowView,
    title: Seq<char>,
    outputs: Seq<Seq<char>>,
    workspaces: Seq<Seq<char>>,
    areas: Seq<Seq<char>>,
)
    ensures
        ({
            let lines = report::window_text(window, title, outputs, workspaces, areas);
            &&& lines.len() == 6
            &&& lines[0] == "  "@ + window.app_id + " — "@ + title
            &&& lines[1] == "     identifier: "@ + window.identifier
            &&& lines[2] == "     states:     "@ + show::bracketed(show::decimals(window.states))
            &&& lines[3] == "     outputs:    "@ + show::bracketed(outputs)
            &&& lines[4] == "     workspaces: "@ + show::bracketed(workspaces)
            &&& lines[5] == "     geometry:   "@ + ("{"@ + show::joined(areas, ", "@) + "}"@)
        }),
{
}

/// A window is reported with its own title, outputs and places, and with the workspaces that it is
/// on: each by the name of the workspace, if that is known, and by its key otherwise, in the order in
/// which the window lists them.
pub proof fn a_window_is_reported_with_its_workspaces(state: State, window: Toplevel)
    ensures
        ({
            let names = Seq::new(
                window@.workspaces.len(),
                |i: int|
                    show::quoted(
                        if state@.workspaces.contains_key(window@.workspaces[i]) {
                            state@.workspaces[window@.workspaces[i]].name
                        } else {
                            window@.workspaces[i]
                        },
                    ),
            );
            let outputs = Seq::new(
                window@.outputs.len(),
                |i: int| show::quoted(window@.outputs[i]),
            );
            report::window_lines_of(state, window) == report::window_text(
                window@,
                show::quoted(window@.title),
                outputs,
                names,
                report::areas_of(window.geometry),
            )
        }),
{
    let names = Seq::new(
        window@.workspaces.len(),
        |i: int|
            show::quoted(
                if state@.workspaces.contains_key(window@.workspaces[i]) {
                    state@.workspaces[window@.workspaces[i]].name
                } else {
                    window@.workspaces[i]
                },
            ),
    );
    let outputs = Seq::new(window@.outputs.len(), |i: int| show::quoted(window@.outputs[i]));
    assert(report::all_quoted(report::workspace_names(state@, window@.workspaces)) =~= names);
    assert(report::all_quoted(window@.outputs) =~= outputs);
}

/// Each output has a line, which is its name behind two spaces, in the order in which they came in.
pub proof fn outputs_are_reported_by_name(outputs: Table<String>, i: int)
    requires
        0 <= i < outputs.order().len(),
    ensures
        report::output_lines(outputs).len() == outputs.order().len(),
        report::output_lines(outputs)[i] == "  "@ + outputs@[outputs.order()[i]]@,
{
}

/// Whether lines are those on all workspaces, one each, those with lower coordinates first and those
/// with the same coordinates as they came in. The places tell which workspace each line is on.
pub open spec fn lines_by_coordinates(
    workspaces: Table<Workspace>,
    lines: Seq<Seq<char>>,
    places: Seq<usize>,
) -> bool {
    let keys = workspaces.order();
    &&& lines.len() == keys.len()
    &&& places.len() == keys.len()
    &&& forall|i: usize| i < keys.len() ==> #[trigger] places.contains(i)
    &&& forall|p: int|
        0 <= p < places.len() ==> {
            &&& #[trigger] places[p] < keys.len()
            &&& lines[p] == report::workspace_line_of(
                keys[places[p] as int],
                workspaces@[keys[places[p] as int]]@,
            )
        }
    &&& forall|p: int, q: int|
        0 <= p < q < places.len() ==> {
            let one = workspaces@[keys[#[trigger] places[p] as int]]@.coordinates;
            let two = workspaces@[keys[#[trigger] places[q] as int]]@.coordinates;
            &&& order::at_most(one, two)
            &&& one == two ==> places[p] < places[q]
        }
}

/// Every workspace has its line in the report, and the lines come in the order of the coordinates.
pub proof fn workspaces_are_reported_by_coordinates(workspaces: Table<Workspace>)
    requires
        workspaces.order().len() <= usize::MAX,
    ensures
        exists|places: Seq<usize>|
            lines_by_coordinates(workspaces, report::workspace_lines(workspaces), places),
{
    let keys = report::coordinates(workspaces);
    let places = report::sorted(keys);
    let lines = report::workspace_lines(workspaces);
    order::there_is_an_order(keys);
    assert forall|p: int, q: int| 0 <= p < q < places.len() implies {
        let one = workspaces@[workspaces.order()[#[trigger] places[p] as int]]@.coordinates;
        let two = workspaces@[workspaces.order()[#[trigger] places[q] as int]]@.coordinates;
        &&& order::at_most(one, two)
        &&& one == two ==> places[p] < places[q]
    } by {
        order::sorting_only_rearranges(keys, places, p, q);
    }
    assert(lines_by_coordinates(workspaces, lines, places));
}

/// The report is a heading and the lines on the outputs, a heading and those on the workspaces, and a
/// heading and those on the windows; all headings but the first have an empty line before them.
pub proof fn the_report_has_three_parts(state: State)
    ensures
        report::report_of(state) == seq!["== OUTPUTS =="@] + report::output_lines(state.outputs)
            + seq![""@, "== WORKSPACES =="@] + report::workspace_lines(state.workspaces) + seq![
            ""@,
            "== VENTANAS =="@,
        ] + report::window_lines(state, state.toplevels.order().len()),
        report::window_lines(state, 0) == Seq::<Seq<char>>::empty(),
{
}

/// The lines on windows are those on each window, in the order in which the windows came in.
pub proof fn windows_are_reported_as_they_came(state: State, n: nat)
    requires
        n < state.toplevels.order().len(),
    ensures
        report::window_lines(state, n + 1) == report::window_lines(state, n)
            + report::window_lines_of(
            state,
            state.toplevels@[state.toplevels.order()[n as int]],
        ),
{
}

/// There is a warning exactly where the compositor is not done.
pub proof fn the_warning_is_given_until_all_is_told(state: State)
    ensures
        state@.toplevels_done ==> report::warning_of(state@).len() == 0,
        !state@.toplevels_done ==> report::warning_of(state@) == seq![
            ""@,
            "[aviso] no llegó zcosmic_toplevel_info_v1.done"@,
        ],
{
}

} // verus!
