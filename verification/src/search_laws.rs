//! Which file a search finds, among all that it could find.

use crate::desktop;
use crate::desktop::{
    Answer, AnswerView, EntryKey, Question, QuestionView, SearchView,
};
use crate::desktop_laws;
use crate::desktop_laws::Files;
use crate::entry;
use crate::filepath;
use crate::filepath::DOT;
use crate::launch;
use crate::launch_laws;
use vstd::prelude::*;
use vstd::utf8;

verus! {

proof fn the_last_dot(start: Seq<u8>, end: Seq<u8>)
    requires
        !end.contains(DOT),
    ensures
        desktop::last_dot(start.push(DOT) + end) == start.len(),
        desktop::last_dot(end) == -1,
    decreases end.len(),
{
    let name = start.push(DOT) + end;
    if end.len() == 0 {
        assert(name =~= start.push(DOT));
    } else {
        let front = end.drop_last();
        assert forall|i: int| 0 <= i < front.len() implies #[trigger] front[i] != DOT by {
            assert(end.contains(end[i]));
        }
        assert(end.contains(end[end.len() - 1]));
        the_last_dot(start, front);
        assert(name.drop_last() =~= start.push(DOT) + front);
    }
}

proof fn the_last_dot_is_one(name: Seq<u8>)
    ensures
        -1 <= desktop::last_dot(name) < name.len(),
        desktop::last_dot(name) >= 0 ==> name[desktop::last_dot(name)] == DOT,
        !name.skip(desktop::last_dot(name) + 1).contains(DOT),
    decreases name.len(),
{
    let tail = name.skip(desktop::last_dot(name) + 1);
    if name.len() > 0 && name.last() != DOT {
        the_last_dot_is_one(name.drop_last());
        let front = name.drop_last().skip(desktop::last_dot(name) + 1);
        assert forall|i: int| 0 <= i < tail.len() implies #[trigger] tail[i] != DOT by {
            if i < front.len() {
                assert(front.contains(front[i]));
                assert(front[i] == tail[i]);
            }
        }
    }
}

/// The extension of a name is what stands behind its last dot, whatever dots come before that: there
/// is none where there is no dot, or where nothing stands before the last one.
pub proof fn the_extension_is_behind_the_last_dot(start: Seq<u8>, end: Seq<u8>)
    requires
        !end.contains(DOT),
    ensures
        start.len() > 0 ==> desktop::extension(start + seq![DOT] + end) == Some(end),
        desktop::extension(seq![DOT] + end) is None,
        desktop::extension(end) is None,
{
    let empty: Seq<u8> = seq![];
    the_last_dot(start, end);
    the_last_dot(empty, end);
    assert(start + seq![DOT] + end =~= start.push(DOT) + end);
    assert(seq![DOT] + end =~= empty.push(DOT) + end);
    assert((start.push(DOT) + end).skip(start.len() as int + 1) =~= end);
}

/// The bytes that the name of a desktop entry file ends with.
pub open spec fn ending() -> Seq<u8> {
    seq![46u8, 100, 101, 115, 107, 116, 111, 112]
}

proof fn the_ending_is_spelled()
    ensures
        utf8::encode_utf8(".desktop"@) == ending(),
        utf8::encode_utf8("desktop"@) == ending().skip(1),
        !ending().skip(1).contains(DOT),
{
    reveal_strlit(".desktop");
    reveal_strlit("desktop");
    utf8::is_ascii_chars_encode_utf8(".desktop"@);
    utf8::is_ascii_chars_encode_utf8("desktop"@);
    assert(utf8::encode_utf8(".desktop"@) =~= ending());
    assert(utf8::encode_utf8("desktop"@) =~= ending().skip(1));
}

/// Whether a name ends as those of desktop entry files do, with something before that.
pub open spec fn ends_well(name: Seq<u8>) -> bool {
    &&& name.len() > ending().len()
    &&& name.skip(name.len() - ending().len()) == ending()
}

/// A name is that of a desktop entry file exactly where it ends in `.desktop` with something before
/// that, whatever dots that holds.
pub proof fn desktop_files_end_in_desktop(name: Seq<u8>)
    ensures
        desktop::is_desktop_file(name) <==> ends_well(name),
        name.len() > 0 ==> desktop::is_desktop_file(name + utf8::encode_utf8(".desktop"@)),
        !desktop::is_desktop_file(utf8::encode_utf8(".desktop"@)),
{
    the_ending_is_spelled();
    let tail = ending().skip(1);
    let empty: Seq<u8> = seq![];
    assert(name + ending() =~= name.push(DOT) + tail);
    assert(ending() =~= empty.push(DOT) + tail);
    the_last_dot(name, tail);
    the_last_dot(empty, tail);
    assert((name.push(DOT) + tail).skip(name.len() as int + 1) =~= tail);
    the_last_dot_is_one(name);
    if desktop::is_desktop_file(name) {
        let dot = desktop::last_dot(name);
        assert(name.skip(dot + 1).len() == tail.len());
        assert(name.skip(dot) =~= seq![DOT] + name.skip(dot + 1));
        assert(ending() =~= seq![DOT] + tail);
        assert(dot == name.len() - ending().len());
    }
    if ends_well(name) {
        let start = name.take(name.len() - ending().len());
        assert(name =~= start.push(DOT) + tail) by {
            assert(name =~= start + name.skip(start.len() as int));
        }
        the_last_dot(start, tail);
        assert(name.skip(start.len() as int + 1) =~= tail);
    }
}

/// The files of a directory that are read are those whose names end well, in the order in which they
/// are listed, each by the path of its name below the directory.
pub proof fn files_are_read_as_they_are_listed(dir: Seq<u8>, names: Seq<Seq<u8>>, last: Seq<u8>)
    ensures
        desktop::desktop_files(dir, seq![]) == Seq::<Seq<u8>>::empty(),
        ends_well(last) ==> desktop::desktop_files(dir, names.push(last)) == desktop::desktop_files(
            dir,
            names,
        ).push(filepath::join(dir, last)),
        !ends_well(last) ==> desktop::desktop_files(dir, names.push(last))
            == desktop::desktop_files(dir, names),
{
    desktop_files_end_in_desktop(last);
    assert(names.push(last).drop_last() =~= names);
}

/// Whether the search can find something for an application at a place: by the exact name in a
/// directory (0), by a listed name in another case (1), by a listed file that gives `StartupWMClass`
/// (2) or `Name` (3) the application as its value.
pub open spec fn fits(
    files: Files,
    app_id: Seq<char>,
    dirs: Seq<Seq<u8>>,
    kind: int,
    i: int,
    j: int,
) -> bool {
    &&& 0 <= kind < 4
    &&& 0 <= i < dirs.len()
    &&& if kind == 0 {
        &&& j == 0
        &&& (files.exists)(
            filepath::join(dirs[i], utf8::encode_utf8(app_id) + utf8::encode_utf8(".desktop"@)),
        )
    } else {
        &&& (files.names)(dirs[i]) is Some
        &&& 0 <= j < (files.names)(dirs[i])->0.len()
        &&& {
            let name = (files.names)(dirs[i])->0[j];
            if kind == 1 {
                desktop::lower_case(launch::lossy_text(name)) == desktop::lower_case(app_id)
                    + ".desktop"@
            } else {
                &&& ends_well(name)
                &&& (files.texts)(filepath::join(dirs[i], name)) is Some
                &&& entry::has_entry(
                    (files.texts)(filepath::join(dirs[i], name))->0,
                    if kind == 2 {
                        "StartupWMClass"@
                    } else {
                        "Name"@
                    },
                    app_id,
                )
            }
        }
    }
}

/// The path of what can be found at a place.
pub open spec fn path_at(
    files: Files,
    app_id: Seq<char>,
    dirs: Seq<Seq<u8>>,
    kind: int,
    i: int,
    j: int,
) -> Seq<u8> {
    if kind == 0 {
        filepath::join(dirs[i], utf8::encode_utf8(app_id) + utf8::encode_utf8(".desktop"@))
    } else {
        filepath::join(dirs[i], (files.names)(dirs[i])->0[j])
    }
}

/// Whether a place comes before another: what it is found by counts first, then the directory, then
/// the place in the directory.
pub open spec fn comes_before(kind: int, i: int, j: int, kind2: int, i2: int, j2: int) -> bool {
    ||| kind < kind2
    ||| kind == kind2 && i < i2
    ||| kind == kind2 && i == i2 && j < j2
}

proof fn exact_is_spelled(app_id: Seq<char>)
    ensures
        desktop::exact_name(app_id) == utf8::encode_utf8(app_id) + utf8::encode_utf8(".desktop"@),
{
    launch_laws::encoding_goes_text_by_text(app_id, ".desktop"@);
}

proof fn no_exact(files: Files, app_id: Seq<char>, dirs: Seq<Seq<u8>>, from: int)
    requires
        0 <= from,
        forall|i: int| from <= i < dirs.len() ==> !#[trigger] fits(files, app_id, dirs, 0, i, 0),
    ensures
        files.exact(app_id, dirs, from) is None,
    decreases dirs.len() - from,
{
    exact_is_spelled(app_id);
    if from < dirs.len() {
        assert(!fits(files, app_id, dirs, 0, from, 0));
        no_exact(files, app_id, dirs, from + 1);
    }
}

proof fn exact_at(files: Files, app_id: Seq<char>, dirs: Seq<Seq<u8>>, from: int, k: int)
    requires
        0 <= from <= k,
        fits(files, app_id, dirs, 0, k, 0),
        forall|i: int| from <= i < k ==> !#[trigger] fits(files, app_id, dirs, 0, i, 0),
    ensures
        files.exact(app_id, dirs, from) == Some(path_at(files, app_id, dirs, 0, k, 0)),
    decreases k - from,
{
    exact_is_spelled(app_id);
    if from < k {
        assert(!fits(files, app_id, dirs, 0, from, 0));
        exact_at(files, app_id, dirs, from + 1, k);
    }
}

/// The first occurrence of a text in a list, from a place on, is the one before which there is none;
/// where there is none at all, nothing is found.
pub proof fn the_first_occurrence_is_found(list: Seq<Seq<char>>, wanted: Seq<char>, from: int, k: int)
    requires
        0 <= from <= k <= list.len(),
        forall|i: int| from <= i < k ==> #[trigger] list[i] != wanted,
        k < list.len() ==> list[k] == wanted,
    ensures
        desktop::first_of(list, wanted, from) == if k < list.len() {
            Some(k)
        } else {
            None
        },
    decreases k - from,
{
    if from < k {
        assert(list[from] != wanted);
        the_first_occurrence_is_found(list, wanted, from + 1, k);
    }
}

proof fn folded_in(
    files: Files,
    app_id: Seq<char>,
    dirs: Seq<Seq<u8>>,
    i: int,
    k: int,
)
    requires
        0 <= i < dirs.len(),
        (files.names)(dirs[i]) is Some,
        0 <= k <= (files.names)(dirs[i])->0.len(),
        forall|j: int| 0 <= j < k ==> !#[trigger] fits(files, app_id, dirs, 1, i, j),
        k < (files.names)(dirs[i])->0.len() ==> fits(files, app_id, dirs, 1, i, k),
    ensures
        desktop::first_folded(app_id, (files.names)(dirs[i])->0) == if k < (files.names)(
            dirs[i],
        )->0.len() {
            Some(k)
        } else {
            None
        },
{
    let names = (files.names)(dirs[i])->0;
    let wanted = desktop::lowered_name(desktop::lower_case(app_id));
    assert forall|j: int| 0 <= j < k implies #[trigger] desktop::lowered(names)[j] != wanted by {
        assert(!fits(files, app_id, dirs, 1, i, j));
    }
    the_first_occurrence_is_found(desktop::lowered(names), wanted, 0, k);
}

proof fn no_folded(files: Files, app_id: Seq<char>, dirs: Seq<Seq<u8>>, from: int)
    requires
        0 <= from,
        forall|i: int, j: int| from <= i ==> !#[trigger] fits(files, app_id, dirs, 1, i, j),
    ensures
        files.folded(app_id, dirs, from) is None,
    decreases dirs.len() - from,
{
    if from < dirs.len() {
        if (files.names)(dirs[from]) is Some {
            folded_in(files, app_id, dirs, from, (files.names)(dirs[from])->0.len() as int);
        }
        no_folded(files, app_id, dirs, from + 1);
    }
}

proof fn folded_at(
    files: Files,
    app_id: Seq<char>,
    dirs: Seq<Seq<u8>>,
    from: int,
    i: int,
    j: int,
)
    requires
        0 <= from <= i,
        fits(files, app_id, dirs, 1, i, j),
        forall|m: int, n: int|
            from <= m && comes_before(1, m, n, 1, i, j) ==> !#[trigger] fits(
                files,
                app_id,
                dirs,
                1,
                m,
                n,
            ),
    ensures
        files.folded(app_id, dirs, from) == Some(path_at(files, app_id, dirs, 1, i, j)),
    decreases i - from,
{
    if from < i {
        if (files.names)(dirs[from]) is Some {
            folded_in(files, app_id, dirs, from, (files.names)(dirs[from])->0.len() as int);
        }
        folded_at(files, app_id, dirs, from + 1, i, j);
    } else {
        folded_in(files, app_id, dirs, i, j);
    }
}

/// Whether a file gives a key the application as its value.
spec fn speaks(files: Files, key: EntryKey, app_id: Seq<char>, path: Seq<u8>) -> bool {
    (files.texts)(path) matches Some(text) && entry::has_entry(
        text,
        desktop::key_text(key),
        app_id,
    )
}

proof fn first_with_at(
    files: Files,
    key: EntryKey,
    app_id: Seq<char>,
    list: Seq<Seq<u8>>,
    from: int,
    k: int,
)
    requires
        0 <= from <= k <= list.len(),
        forall|i: int| from <= i < k ==> !speaks(files, key, app_id, #[trigger] list[i]),
        k < list.len() ==> speaks(files, key, app_id, list[k]),
    ensures
        files.first_with(key, app_id, list, from) == if k < list.len() {
            Some(list[k])
        } else {
            None
        },
    decreases k - from,
{
    if from < k {
        assert(!speaks(files, key, app_id, list[from]));
        first_with_at(files, key, app_id, list, from + 1, k);
    }
}

proof fn desktop_files_of_both(dir: Seq<u8>, a: Seq<Seq<u8>>, b: Seq<Seq<u8>>)
    ensures
        desktop::desktop_files(dir, a + b) == desktop::desktop_files(dir, a)
            + desktop::desktop_files(dir, b),
    decreases b.len(),
{
    if b.len() == 0 {
        assert(a + b =~= a);
        assert(desktop::desktop_files(dir, a) + desktop::desktop_files(dir, b)
            =~= desktop::desktop_files(dir, a));
    } else {
        desktop_files_of_both(dir, a, b.drop_last());
        assert((a + b).drop_last() =~= a + b.drop_last());
        assert(desktop::desktop_files(dir, a + b) =~= desktop::desktop_files(dir, a)
            + desktop::desktop_files(dir, b));
    }
}

spec fn kind_of(key: EntryKey) -> int {
    if key == EntryKey::StartupWmClass {
        2
    } else {
        3
    }
}

proof fn keyed_in(
    files: Files,
    key: EntryKey,
    app_id: Seq<char>,
    dirs: Seq<Seq<u8>>,
    i: int,
    k: int,
)
    requires
        0 <= i < dirs.len(),
        (files.names)(dirs[i]) is Some,
        0 <= k <= (files.names)(dirs[i])->0.len(),
        forall|j: int|
            0 <= j < k ==> !#[trigger] fits(files, app_id, dirs, kind_of(key), i, j),
        k < (files.names)(dirs[i])->0.len() ==> fits(files, app_id, dirs, kind_of(key), i, k),
    ensures
        files.first_with(
            key,
            app_id,
            desktop::desktop_files(dirs[i], (files.names)(dirs[i])->0),
            0,
        ) == if k < (files.names)(dirs[i])->0.len() {
            Some(path_at(files, app_id, dirs, kind_of(key), i, k))
        } else {
            None
        },
{
    let names = (files.names)(dirs[i])->0;
    let front = names.take(k);
    let back = names.skip(k);
    let list = desktop::desktop_files(dirs[i], names);
    let n = desktop::desktop_files(dirs[i], front).len() as int;
    assert(names =~= front + back);
    desktop_files_of_both(dirs[i], front, back);
    assert forall|m: int| 0 <= m < n implies !speaks(files, key, app_id, #[trigger] list[m]) by {
        let j = desktop_laws::desktop_files_source(dirs[i], front, m);
        assert(list[m] == desktop::desktop_files(dirs[i], front)[m]);
        assert(front[j] == names[j]);
        desktop_files_end_in_desktop(names[j]);
        assert(!fits(files, app_id, dirs, kind_of(key), i, j));
    }
    if k < names.len() {
        let one = seq![names[k]];
        let rest = names.skip(k + 1);
        let none: Seq<Seq<u8>> = seq![];
        assert(back =~= one + rest);
        desktop_files_of_both(dirs[i], one, rest);
        desktop_files_end_in_desktop(names[k]);
        assert(one.drop_last() =~= none);
        assert(desktop::desktop_files(dirs[i], none) =~= none);
        assert(desktop::desktop_files(dirs[i], one) =~= seq![filepath::join(dirs[i], names[k])]);
        assert(list[n] == filepath::join(dirs[i], names[k]));
        first_with_at(files, key, app_id, list, 0, n);
    } else {
        let none: Seq<Seq<u8>> = seq![];
        assert(back =~= none);
        assert(list =~= desktop::desktop_files(dirs[i], front));
        first_with_at(files, key, app_id, list, 0, n);
    }
}

proof fn no_keyed(files: Files, key: EntryKey, app_id: Seq<char>, dirs: Seq<Seq<u8>>, from: int)
    requires
        0 <= from,
        forall|i: int, j: int|
            from <= i ==> !#[trigger] fits(files, app_id, dirs, kind_of(key), i, j),
    ensures
        files.keyed(key, app_id, dirs, from) is None,
    decreases dirs.len() - from,
{
    if from < dirs.len() {
        if (files.names)(dirs[from]) is Some {
            keyed_in(files, key, app_id, dirs, from, (files.names)(dirs[from])->0.len() as int);
        }
        no_keyed(files, key, app_id, dirs, from + 1);
    }
}

proof fn keyed_at(
    files: Files,
    key: EntryKey,
    app_id: Seq<char>,
    dirs: Seq<Seq<u8>>,
    from: int,
    i: int,
    j: int,
)
    requires
        0 <= from <= i,
        fits(files, app_id, dirs, kind_of(key), i, j),
        forall|m: int, n: int|
            from <= m && comes_before(kind_of(key), m, n, kind_of(key), i, j) ==> !#[trigger] fits(
                files,
                app_id,
                dirs,
                kind_of(key),
                m,
                n,
            ),
    ensures
        files.keyed(key, app_id, dirs, from) == Some(
            path_at(files, app_id, dirs, kind_of(key), i, j),
        ),
    decreases i - from,
{
    if from < i {
        if (files.names)(dirs[from]) is Some {
            keyed_in(files, key, app_id, dirs, from, (files.names)(dirs[from])->0.len() as int);
        }
        keyed_at(files, key, app_id, dirs, from + 1, i, j);
    } else {
        keyed_in(files, key, app_id, dirs, i, j);
    }
}

/// The search finds what comes first of all that it could find: a file of the exact name in any
/// directory before one whose name differs in case, that before one that gives `StartupWMClass` the
/// application as its value, and that before one that gives it to `Name`; of those found by the
/// same, the one in the first directory, and in a directory the one that is listed first.
pub proof fn the_first_that_fits_is_found(
    app_id: Seq<char>,
    home: Seq<char>,
    files: Files,
    kind: int,
    i: int,
    j: int,
)
    requires
        fits(files, app_id, launch::application_paths(home), kind, i, j),
        forall|k: int, m: int, n: int|
            comes_before(k, m, n, kind, i, j) ==> !#[trigger] fits(
                files,
                app_id,
                launch::application_paths(home),
                k,
                m,
                n,
            ),
    ensures
        desktop_laws::outcome(desktop::search_for(app_id, home), files) == Some(
            path_at(files, app_id, launch::application_paths(home), kind, i, j),
        ),
{
    let dirs = launch::application_paths(home);
    desktop_laws::search_finds_the_desktop_file(app_id, home, files);
    if kind == 0 {
        exact_at(files, app_id, dirs, 0, i);
    } else {
        no_exact(files, app_id, dirs, 0);
        if kind == 1 {
            folded_at(files, app_id, dirs, 0, i, j);
        } else {
            no_folded(files, app_id, dirs, 0);
            if kind == 2 {
                keyed_at(files, EntryKey::StartupWmClass, app_id, dirs, 0, i, j);
            } else {
                no_keyed(files, EntryKey::StartupWmClass, app_id, dirs, 0);
                keyed_at(files, EntryKey::Name, app_id, dirs, 0, i, j);
            }
        }
    }
}

/// Where the search could find nothing, it finds nothing.
pub proof fn nothing_is_found_where_nothing_fits(app_id: Seq<char>, home: Seq<char>, files: Files)
    requires
        forall|k: int, m: int, n: int| !#[trigger] fits(
            files,
            app_id,
            launch::application_paths(home),
            k,
            m,
            n,
        ),
    ensures
        desktop_laws::outcome(desktop::search_for(app_id, home), files) is None,
{
    let dirs = launch::application_paths(home);
    desktop_laws::search_finds_the_desktop_file(app_id, home, files);
    no_exact(files, app_id, dirs, 0);
    no_folded(files, app_id, dirs, 0);
    no_keyed(files, EntryKey::StartupWmClass, app_id, dirs, 0);
    no_keyed(files, EntryKey::Name, app_id, dirs, 0);
}

/// An answer to another question than the one that was asked counts as a no, and a search that has
/// ended stays as it ended, whatever it is told.
pub proof fn other_answers_count_as_a_no(s: SearchView, answer: AnswerView)
    ensures
        s.stage is Finished ==> s.answered(answer) == s,
        s.stage is Exact && answer != AnswerView::Exists(true) ==> s.answered(answer) == s.answered(
            AnswerView::Exists(false),
        ),
        (s.stage is Folded || s.stage is Listing) && !(answer is Names) ==> s.answered(answer)
            == s.answered(AnswerView::Names(None)),
        s.stage is Reading && !(answer is Text) ==> s.answered(answer) == s.answered(
            AnswerView::Text(None),
        ),
{
}

/// The models of questions and answers are what is asked and what is answered.
pub proof fn models_are_what_is_asked(question: Question, answer: Answer)
    ensures
        match question {
            Question::Exists(p) => question@ == QuestionView::Exists(p@),
            Question::Names(p) => question@ == QuestionView::Names(p@),
            Question::Text(p) => question@ == QuestionView::Text(p@),
            Question::Nothing(Some(p)) => question@ == QuestionView::Nothing(Some(p@)),
            Question::Nothing(None) => question@ == QuestionView::Nothing(None),
        },
        match answer {
            Answer::Exists(yes) => answer@ == AnswerView::Exists(yes),
            Answer::Names(Some(names)) => answer@ == AnswerView::Names(
                Some(filepath::byte_views(names@)),
            ),
            Answer::Names(None) => answer@ == AnswerView::Names(None),
            Answer::Text(Some(text)) => answer@ == AnswerView::Text(Some(text@)),
            Answer::Text(None) => answer@ == AnswerView::Text(None),
        },
{
}

/// The name that is looked for is the application, in lower case, and what the names of desktop entry
/// files end with.
pub proof fn this_name_is_looked_for(lower_app_id: Seq<char>)
    ensures
        desktop::lowered_name(lower_app_id) == lower_app_id + ".desktop"@,
{
}

} // verus!
