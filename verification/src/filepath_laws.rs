//! What holds of paths whatever they are made of.

use crate::filepath;
use crate::filepath::{FilePath, DOT, SEPARATOR};
use crate::show;
use std::cmp::Ordering;
use vstd::prelude::*;
use vstd::std_specs::cmp::{PartialEqSpec, PartialOrdSpec};

verus! {

/// A name that is relative is put below a directory with one separator between them, which may be
/// there already, and with none where the directory is empty. A name that starts with a separator
/// stays what it is.
pub proof fn names_are_put_below_directories(dir: Seq<u8>, name: Seq<u8>)
    ensures
        name.len() > 0 && name[0] == SEPARATOR ==> filepath::join(dir, name) == name,
        name.len() == 0 || name[0] != SEPARATOR ==> {
            &&& filepath::join(seq![], name) == name
            &&& filepath::join(dir.push(SEPARATOR), name) == dir + seq![SEPARATOR] + name
            &&& dir.len() > 0 && dir.last() != SEPARATOR ==> filepath::join(dir, name) == dir
                + seq![SEPARATOR] + name
        },
{
    let none: Seq<u8> = seq![];
    assert(none + name =~= name);
    assert(dir.push(SEPARATOR) + name =~= dir + seq![SEPARATOR] + name);
}

/// Whether a name is one of a file: not empty, without a separator, and neither of the two names
/// that directories have for themselves and for the one above.
pub open spec fn is_plain(name: Seq<u8>) -> bool {
    &&& name.len() > 0
    &&& !name.contains(SEPARATOR)
    &&& name != seq![DOT]
    &&& name != seq![DOT, DOT]
}

proof fn there_is_a_piece(path: Seq<u8>)
    ensures
        filepath::pieces(path).len() > 0,
    decreases path.len(),
{
    if path.len() > 0 {
        there_is_a_piece(path.drop_last());
    }
}

proof fn names_extend_the_last_piece(path: Seq<u8>, name: Seq<u8>)
    requires
        !name.contains(SEPARATOR),
    ensures
        filepath::pieces(path + name) == filepath::pieces(path).drop_last().push(
            filepath::pieces(path).last() + name,
        ),
    decreases name.len(),
{
    there_is_a_piece(path);
    let before = filepath::pieces(path);
    if name.len() == 0 {
        assert(path + name =~= path);
        assert(before.last() + name =~= before.last());
        assert(before.drop_last().push(before.last()) =~= before);
    } else {
        let front = name.drop_last();
        assert forall|i: int| 0 <= i < front.len() implies #[trigger] front[i] != SEPARATOR by {
            assert(name[i] != SEPARATOR);
        }
        names_extend_the_last_piece(path, front);
        assert(name[name.len() - 1] != SEPARATOR);
        assert((path + name).drop_last() =~= path + front);
        assert((path + name).last() == name.last());
        let rest = filepath::pieces(path + front);
        assert(rest.drop_last() =~= before.drop_last());
        assert(rest.last().push(name.last()) =~= before.last() + name);
    }
}

/// What is behind the last separator of a path is one component more.
proof fn the_last_name_is_a_component(path: Seq<u8>, name: Seq<u8>)
    requires
        path.len() > 0,
        name.len() > 0,
        !name.contains(SEPARATOR),
    ensures
        filepath::components(path + seq![SEPARATOR] + name) == filepath::components(path)
            + filepath::component(name, false),
{
    let dir = path.push(SEPARATOR);
    assert(path + seq![SEPARATOR] + name =~= dir + name);
    there_is_a_piece(path);
    names_extend_the_last_piece(dir, name);
    assert(dir.drop_last() =~= path);
    let pieces = filepath::pieces(dir + name);
    let empty: Seq<u8> = seq![];
    assert(filepath::pieces(dir) =~= filepath::pieces(path).push(empty));
    assert(empty + name =~= name);
    assert(pieces =~= filepath::pieces(path).push(name));
    assert(pieces.drop_last() =~= filepath::pieces(path));
    assert((dir + name)[0] == path[0]);
    assert(filepath::components(dir + name) =~= filepath::components(path) + filepath::component(
        name,
        false,
    ));
}

/// The components of a path are the root, if it starts with a separator, and the names between its
/// separators, in their order: each name that is put behind a path adds itself, `..` adds the
/// directory above, and separators and `.` add nothing. At the start of a path `.` counts.
pub proof fn components_are_the_names(path: Seq<u8>, name: Seq<u8>)
    requires
        is_plain(name),
    ensures
        filepath::components(seq![]) == Seq::<Seq<u8>>::empty(),
        filepath::components(seq![SEPARATOR]) == seq![seq![0u8]],
        filepath::components(seq![DOT]) == seq![seq![1u8]],
        filepath::components(seq![DOT, DOT]) == seq![seq![2u8]],
        filepath::components(name) == seq![seq![3u8] + name],
        filepath::components(seq![SEPARATOR] + name) == seq![seq![0u8], seq![3u8] + name],
        path.len() > 0 ==> {
            &&& filepath::components(path + seq![SEPARATOR] + name) == filepath::components(path)
                + seq![seq![3u8] + name]
            &&& filepath::components(path + seq![SEPARATOR] + seq![DOT, DOT])
                == filepath::components(path) + seq![seq![2u8]]
            &&& filepath::components(path + seq![SEPARATOR] + seq![DOT]) == filepath::components(
                path,
            )
            &&& filepath::components(path + seq![SEPARATOR]) == filepath::components(path)
        },
{
    reveal_with_fuel(filepath::pieces, 3);
    reveal_with_fuel(filepath::relative_components, 3);
    let empty: Seq<u8> = seq![];
    let dot = seq![DOT];
    let dots = seq![DOT, DOT];
    let slash = seq![SEPARATOR];
    assert(empty + dot =~= dot);
    assert(empty + dots =~= dots);
    assert(empty + name =~= name);
    assert(filepath::pieces(empty) =~= seq![empty]);
    assert(filepath::components(empty) =~= seq![]);
    assert(slash.drop_last() =~= empty);
    assert(filepath::pieces(slash) =~= seq![empty, empty]);
    assert(seq![empty, empty].drop_last() =~= seq![empty]);
    assert(filepath::relative_components(seq![empty, empty]) =~= seq![]);
    assert(filepath::components(slash) =~= seq![seq![0u8]]);
    assert(!dot.contains(SEPARATOR));
    assert(!dots.contains(SEPARATOR));
    names_extend_the_last_piece(empty, dot);
    names_extend_the_last_piece(empty, dots);
    names_extend_the_last_piece(empty, name);
    assert(filepath::pieces(dot) =~= seq![dot]);
    assert(filepath::pieces(dots) =~= seq![dots]);
    assert(filepath::pieces(name) =~= seq![name]);
    assert(dots != dot) by {
        assert(dots.len() != dot.len());
    }
    assert(name.contains(name[0]));
    assert(filepath::components(dot) =~= seq![seq![1u8]]);
    assert(filepath::components(dots) =~= seq![seq![2u8]]);
    assert(filepath::components(name) =~= seq![seq![3u8] + name]);
    names_extend_the_last_piece(slash, name);
    assert(filepath::pieces(slash + name) =~= seq![empty, name]);
    assert(seq![empty, name].drop_last() =~= seq![empty]);
    assert(filepath::relative_components(seq![empty, name]) =~= seq![seq![3u8] + name]);
    assert(filepath::components(slash + name) =~= seq![seq![0u8], seq![3u8] + name]);
    if path.len() > 0 {
        the_last_name_is_a_component(path, name);
        the_last_name_is_a_component(path, dots);
        the_last_name_is_a_component(path, dot);
        assert(filepath::components(path) + filepath::component(dot, false)
            =~= filepath::components(path));
        filepath::spelling_of_the_end_does_not_matter(path);
        assert(path + slash =~= path.push(SEPARATOR));
    }
}

/// Of two lists of bytes the one with the lower byte at the first place at which they differ comes
/// first, and a list comes before those that it starts.
pub proof fn the_first_byte_that_differs_decides(
    start: Seq<u8>,
    a: u8,
    b: u8,
    left: Seq<u8>,
    right: Seq<u8>,
)
    ensures
        a < b ==> filepath::byte_order(start + seq![a] + left, start + seq![b] + right)
            == Ordering::Less,
        a > b ==> filepath::byte_order(start + seq![a] + left, start + seq![b] + right)
            == Ordering::Greater,
        filepath::byte_order(start, start) == Ordering::Equal,
        left.len() > 0 ==> filepath::byte_order(start, start + left) == Ordering::Less,
        left.len() > 0 ==> filepath::byte_order(start + left, start) == Ordering::Greater,
    decreases start.len(),
{
    let x = start + seq![a] + left;
    let y = start + seq![b] + right;
    if start.len() > 0 {
        the_first_byte_that_differs_decides(start.skip(1), a, b, left, right);
        assert(x.skip(1) =~= start.skip(1) + seq![a] + left);
        assert(y.skip(1) =~= start.skip(1) + seq![b] + right);
        assert((start + left).skip(1) =~= start.skip(1) + left);
    } else {
        assert(x[0] == a);
        assert(y[0] == b);
    }
}

/// Of two lists of components the order is that of the first components that differ, and a list
/// comes before those that it starts.
pub proof fn the_first_component_that_differs_decides(
    start: Seq<Seq<u8>>,
    a: Seq<u8>,
    b: Seq<u8>,
    left: Seq<Seq<u8>>,
    right: Seq<Seq<u8>>,
)
    ensures
        a != b ==> filepath::component_order(start + seq![a] + left, start + seq![b] + right)
            == filepath::byte_order(a, b),
        filepath::component_order(start, start) == Ordering::Equal,
        left.len() > 0 ==> filepath::component_order(start, start + left) == Ordering::Less,
        left.len() > 0 ==> filepath::component_order(start + left, start) == Ordering::Greater,
    decreases start.len(),
{
    let x = start + seq![a] + left;
    let y = start + seq![b] + right;
    if start.len() > 0 {
        the_first_byte_that_differs_decides(start[0], 0, 0, seq![], seq![]);
        the_first_component_that_differs_decides(start.skip(1), a, b, left, right);
        assert(x.skip(1) =~= start.skip(1) + seq![a] + left);
        assert(y.skip(1) =~= start.skip(1) + seq![b] + right);
        assert((start + left).skip(1) =~= start.skip(1) + left);
    } else {
        assert(x[0] == a);
        assert(y[0] == b);
        filepath::equal_components_are_the_same(seq![a], seq![b]);
        if filepath::byte_order(a, b) == Ordering::Equal {
            assert(seq![a].skip(1) =~= Seq::<Seq<u8>>::empty());
            assert(seq![b].skip(1) =~= Seq::<Seq<u8>>::empty());
            let none: Seq<Seq<u8>> = seq![];
            assert(filepath::component_order(none, none) == Ordering::Equal);
            assert(filepath::component_order(seq![a], seq![b]) == Ordering::Equal);
            assert(seq![a][0] == seq![b][0]);
        }
    }
}

/// Paths are equal exactly where their components are, and are ordered as their components are.
pub proof fn paths_are_compared_by_components(a: FilePath, b: FilePath)
    ensures
        a.eq_spec(&b) <==> filepath::components(a@) == filepath::components(b@),
        a.partial_cmp_spec(&b) == Some(
            filepath::component_order(filepath::components(a@), filepath::components(b@)),
        ),
{
}

/// The character of a hexadecimal digit in upper case.
pub open spec fn hex_char(d: int) -> char {
    if d < 10 {
        (48 + d) as char
    } else {
        (55 + d) as char
    }
}

proof fn upper_digits_are_hex(d: int)
    requires
        0 <= d < 16,
    ensures
        filepath::upper_digit(d) == seq![hex_char(d)],
{
    reveal_strlit("0");
    reveal_strlit("1");
    reveal_strlit("2");
    reveal_strlit("3");
    reveal_strlit("4");
    reveal_strlit("5");
    reveal_strlit("6");
    reveal_strlit("7");
    reveal_strlit("8");
    reveal_strlit("9");
    reveal_strlit("A");
    reveal_strlit("B");
    reveal_strlit("C");
    reveal_strlit("D");
    reveal_strlit("E");
    reveal_strlit("F");
    assert(filepath::upper_digit(d) =~= seq![hex_char(d)]);
}

/// A byte that is no text is written by its two hexadecimal digits, in upper case, and bytes in a
/// row are written one behind the other.
pub proof fn bytes_are_written_by_their_digits(bytes: Seq<u8>, byte: u8)
    ensures
        filepath::escaped(seq![]) == Seq::<char>::empty(),
        filepath::escaped(bytes.push(byte)) == filepath::escaped(bytes) + seq![
            '\\',
            'x',
            hex_char(byte as int / 16),
            hex_char(byte as int % 16),
        ],
{
    reveal_strlit("\\x");
    upper_digits_are_hex(byte as int / 16);
    upper_digits_are_hex(byte as int % 16);
    assert(bytes.push(byte).drop_last() =~= bytes);
    assert(filepath::escaped(bytes.push(byte)) =~= filepath::escaped(bytes) + seq![
        '\\',
        'x',
        hex_char(byte as int / 16),
        hex_char(byte as int % 16),
    ]);
}

/// Runs are written one behind the other: what a quoted text has between its quotes, and then the
/// bytes that are no text. A path is written as its runs, between quotes.
pub proof fn paths_are_written_run_by_run(
    path: Seq<u8>,
    runs: Seq<(Seq<char>, Seq<u8>)>,
    text: Seq<char>,
    bytes: Seq<u8>,
)
    ensures
        filepath::written_runs(seq![]) == Seq::<char>::empty(),
        filepath::written_runs(runs.push((text, bytes))) == filepath::written_runs(runs)
            + show::quoted(text).subrange(1, show::quoted(text).len() - 1) + filepath::escaped(bytes),
        filepath::inspected(path) == seq!['"'] + filepath::written_runs(filepath::utf8_runs(path))
            + seq!['"'],
{
    reveal_strlit("\"");
    assert("\""@ =~= seq!['"']);
    assert(runs.push((text, bytes)).drop_last() =~= runs);
}

/// The models of lists of paths, of bytes and of runs are what these hold, in their order.
pub proof fn path_models_are_the_paths(
    paths: Seq<FilePath>,
    lists: Seq<Vec<u8>>,
    runs: Seq<(String, Vec<u8>)>,
    i: int,
)
    ensures
        filepath::paths(paths).len() == paths.len(),
        0 <= i < paths.len() ==> filepath::paths(paths)[i] == paths[i]@,
        filepath::byte_views(lists).len() == lists.len(),
        0 <= i < lists.len() ==> filepath::byte_views(lists)[i] == lists[i]@,
        filepath::run_views(runs).len() == runs.len(),
        0 <= i < runs.len() ==> filepath::run_views(runs)[i] == (runs[i].0@, runs[i].1@),
{
}

} // verus!
