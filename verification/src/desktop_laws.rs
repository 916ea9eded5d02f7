//! What the search for a desktop entry file finds, whatever is in the file system.

use crate::desktop;
use crate::desktop::{AnswerView, EntryKey, QuestionView, SearchView, StageView};
use crate::entry;
use crate::filepath;
use crate::launch;
use vstd::prelude::*;
use vstd::utf8;

verus! {

/// A file system: what exists, the names in the directories that can be read, and the
/// texts of the files that can be read.
pub struct Files {
    pub exists: spec_fn(Seq<u8>) -> bool,
    pub names: spec_fn(Seq<u8>) -> Option<Seq<Seq<u8>>>,
    pub texts: spec_fn(Seq<u8>) -> Option<Seq<char>>,
}

impl Files {
    /// The true answer to a question.
    pub open spec fn reply(self, question: QuestionView) -> AnswerView {
        match question {
            QuestionView::Exists(path) => AnswerView::Exists((self.exists)(path)),
            QuestionView::Names(dir) => AnswerView::Names((self.names)(dir)),
            QuestionView::Text(path) => AnswerView::Text((self.texts)(path)),
            QuestionView::Nothing(found) => AnswerView::Exists(false),
        }
    }

    /// The file of the exact name in the first directory, from one on, that has it.
    pub open spec fn exact(self, app_id: Seq<char>, dirs: Seq<Seq<u8>>, from: int) -> Option<
        Seq<u8>,
    >
        decreases dirs.len() - from,
    {
        if from >= dirs.len() {
            None
        } else {
            let path = filepath::join(dirs[from], desktop::exact_name(app_id));
            if (self.exists)(path) {
                Some(path)
            } else {
                self.exact(app_id, dirs, from + 1)
            }
        }
    }

    /// The first file whose name is the expected one but for upper and lower case, in the
    /// first directory, from one on, that has one.
    pub open spec fn folded(self, app_id: Seq<char>, dirs: Seq<Seq<u8>>, from: int) -> Option<
        Seq<u8>,
    >
        decreases dirs.len() - from,
    {
        if from >= dirs.len() {
            None
        } else {
            match (self.names)(dirs[from]) {
                Some(names) => match desktop::first_folded(app_id, names) {
                    Some(i) => Some(filepath::join(dirs[from], names[i])),
                    None => self.folded(app_id, dirs, from + 1),
                },
                None => self.folded(app_id, dirs, from + 1),
            }
        }
    }

    /// The first of some files, from one on, that gives a key the application as its value.
    pub open spec fn first_with(
        self,
        key: EntryKey,
        app_id: Seq<char>,
        files: Seq<Seq<u8>>,
        from: int,
    ) -> Option<Seq<u8>>
        decreases files.len() - from,
    {
        if from >= files.len() {
            None
        } else if (self.texts)(files[from]) matches Some(text) && entry::has_entry(
            text,
            desktop::key_text(key),
            app_id,
        ) {
            Some(files[from])
        } else {
            self.first_with(key, app_id, files, from + 1)
        }
    }

    /// The first desktop entry file that gives a key the application as its value, in the
    /// first directory, from one on, that has one.
    pub open spec fn keyed(
        self,
        key: EntryKey,
        app_id: Seq<char>,
        dirs: Seq<Seq<u8>>,
        from: int,
    ) -> Option<Seq<u8>>
        decreases dirs.len() - from,
    {
        if from >= dirs.len() {
            None
        } else {
            match (self.names)(dirs[from]) {
                Some(names) => match self.first_with(
                    key,
                    app_id,
                    desktop::desktop_files(dirs[from], names),
                    0,
                ) {
                    Some(path) => Some(path),
                    None => self.keyed(key, app_id, dirs, from + 1),
                },
                None => self.keyed(key, app_id, dirs, from + 1),
            }
        }
    }

    /// The desktop entry file of an application: by its exact name; else by its name but for
    /// upper and lower case; else by `StartupWMClass`; else by `Name`.
    pub open spec fn desktop_file(self, app_id: Seq<char>, dirs: Seq<Seq<u8>>) -> Option<Seq<u8>> {
        either(
            self.exact(app_id, dirs, 0),
            either(
                self.folded(app_id, dirs, 0),
                either(
                    self.keyed(EntryKey::StartupWmClass, app_id, dirs, 0),
                    self.keyed(EntryKey::Name, app_id, dirs, 0),
                ),
            ),
        )
    }

    /// What is left to be found from a stage on.
    spec fn expected(self, s: SearchView) -> Option<Seq<u8>> {
        let by_name = self.keyed(EntryKey::Name, s.app_id, s.dirs, 0);
        let by_class = either(self.keyed(EntryKey::StartupWmClass, s.app_id, s.dirs, 0), by_name);
        match s.stage {
            StageView::Exact { dir } => either(
                self.exact(s.app_id, s.dirs, dir),
                either(self.folded(s.app_id, s.dirs, 0), by_class),
            ),
            StageView::Folded { dir } => either(self.folded(s.app_id, s.dirs, dir), by_class),
            StageView::Listing { key, dir } => either(
                self.keyed(key, s.app_id, s.dirs, dir),
                if key == EntryKey::StartupWmClass {
                    by_name
                } else {
                    None
                },
            ),
            StageView::Reading { key, dir, files, next } => either(
                self.first_with(key, s.app_id, files, next),
                either(
                    self.keyed(key, s.app_id, s.dirs, dir + 1),
                    if key == EntryKey::StartupWmClass {
                        by_name
                    } else {
                        None
                    },
                ),
            ),
            StageView::Finished { found } => found,
        }
    }
}

/// The first of two things that is there.
pub open spec fn either(a: Option<Seq<u8>>, b: Option<Seq<u8>>) -> Option<Seq<u8>> {
    if a is Some {
        a
    } else {
        b
    }
}

/// How many kinds of questions are left.
pub open spec fn kinds_left(s: SearchView) -> nat {
    match s.stage {
        StageView::Exact { dir } => 4,
        StageView::Folded { dir } => 3,
        StageView::Listing { key, dir } => if key == EntryKey::StartupWmClass {
            2
        } else {
            1
        },
        StageView::Reading { key, dir, files, next } => if key == EntryKey::StartupWmClass {
            2
        } else {
            1
        },
        StageView::Finished { found } => 0,
    }
}

/// How many steps through the directories are left for questions of a kind.
pub open spec fn steps_left(s: SearchView) -> int {
    match s.stage {
        StageView::Exact { dir } => 2 * (s.dirs.len() - dir),
        StageView::Folded { dir } => 2 * (s.dirs.len() - dir),
        StageView::Listing { key, dir } => 2 * (s.dirs.len() - dir) + 1,
        StageView::Reading { key, dir, files, next } => 2 * (s.dirs.len() - dir),
        StageView::Finished { found } => 0,
    }
}

/// How many files of a directory are left.
pub open spec fn files_left(s: SearchView) -> int {
    match s.stage {
        StageView::Reading { key, dir, files, next } => files.len() - next,
        _ => 0,
    }
}

/// What the search finds when all its questions are answered from one file system.
pub open spec fn outcome(s: SearchView, files: Files) -> Option<Seq<u8>>
    decreases kinds_left(s), steps_left(s), files_left(s),
    when s.wf()
{
    match s.stage {
        StageView::Finished { found } => found,
        _ => outcome(s.answered(files.reply(s.question())), files),
    }
}

proof fn expectation_is_kept(s: SearchView, files: Files)
    requires
        s.wf(),
    ensures
        files.expected(s.answered(files.reply(s.question()))) == files.expected(s),
        s.answered(files.reply(s.question())).wf(),
{
    reveal_with_fuel(Files::exact, 2);
    reveal_with_fuel(Files::folded, 2);
    reveal_with_fuel(Files::keyed, 2);
    reveal_with_fuel(Files::first_with, 2);
    let t = s.answered(files.reply(s.question()));
    match s.stage {
        StageView::Exact { dir } => {
            assert(files.expected(t) == files.expected(s));
        },
        StageView::Folded { dir } => {
            assert(files.expected(t) == files.expected(s));
        },
        StageView::Listing { key, dir } => {
            assert(files.expected(t) == files.expected(s));
        },
        StageView::Reading { key, dir, files: list, next } => {
            assert(files.expected(t) == files.expected(s));
        },
        StageView::Finished { found } => {},
    }
}

proof fn outcome_is_expected(s: SearchView, files: Files)
    requires
        s.wf(),
    ensures
        outcome(s, files) == files.expected(s),
    decreases kinds_left(s), steps_left(s), files_left(s),
{
    if !(s.stage is Finished) {
        expectation_is_kept(s, files);
        outcome_is_expected(s.answered(files.reply(s.question())), files);
    }
}

/// The search ends, and what it finds is the desktop entry file of the application: the
/// exact name comes before the name in another case, that before `StartupWMClass`, and that
/// before `Name`; of each kind, the first directory that has a file decides.
pub proof fn search_finds_the_desktop_file(app_id: Seq<char>, home: Seq<char>, files: Files)
    ensures
        outcome(desktop::search_for(app_id, home), files) == files.desktop_file(
            app_id,
            launch::application_paths(home),
        ),
{
    outcome_is_expected(desktop::search_for(app_id, home), files);
}

proof fn exact_from(files: Files, app_id: Seq<char>, dirs: Seq<Seq<u8>>, from: int, k: int)
    requires
        0 <= from <= k < dirs.len(),
        (files.exists)(filepath::join(dirs[k], desktop::exact_name(app_id))),
        forall|j: int|
            from <= j < k ==> !(files.exists)(
                #[trigger] filepath::join(dirs[j], desktop::exact_name(app_id)),
            ),
    ensures
        files.exact(app_id, dirs, from) == Some(
            filepath::join(dirs[k], desktop::exact_name(app_id)),
        ),
    decreases k - from,
{
    if from < k {
        exact_from(files, app_id, dirs, from + 1, k);
    }
}

/// Where a directory has a file of the exact name and no directory before it has, that file
/// is found, whatever the other files are called and say.
pub proof fn exact_name_wins(app_id: Seq<char>, home: Seq<char>, files: Files, k: int)
    requires
        0 <= k < launch::application_paths(home).len(),
        (files.exists)(
            filepath::join(launch::application_paths(home)[k], desktop::exact_name(app_id)),
        ),
        forall|j: int|
            0 <= j < k ==> !(files.exists)(
                #[trigger] filepath::join(
                    launch::application_paths(home)[j],
                    desktop::exact_name(app_id),
                ),
            ),
    ensures
        outcome(desktop::search_for(app_id, home), files) == Some(
            filepath::join(launch::application_paths(home)[k], desktop::exact_name(app_id)),
        ),
{
    exact_from(files, app_id, launch::application_paths(home), 0, k);
    search_finds_the_desktop_file(app_id, home, files);
}

/// Whether a file of a directory gives a key the application as its value.
pub open spec fn tells(
    files: Files,
    key: EntryKey,
    app_id: Seq<char>,
    dir: Seq<u8>,
    name: Seq<u8>,
) -> bool {
    &&& desktop::is_desktop_file(name)
    &&& (files.texts)(filepath::join(dir, name)) matches Some(text)
    &&& entry::has_entry(text, desktop::key_text(key), app_id)
}

proof fn no_exact(files: Files, app_id: Seq<char>, dirs: Seq<Seq<u8>>, from: int)
    requires
        0 <= from,
        files.exact(app_id, dirs, from) is None,
    ensures
        forall|i: int|
            from <= i < dirs.len() ==> !(files.exists)(
                filepath::join(#[trigger] dirs[i], desktop::exact_name(app_id)),
            ),
    decreases dirs.len() - from,
{
    if from < dirs.len() {
        no_exact(files, app_id, dirs, from + 1);
    }
}

proof fn no_first_of(list: Seq<Seq<char>>, wanted: Seq<char>, from: int)
    requires
        0 <= from,
        desktop::first_of(list, wanted, from) is None,
    ensures
        forall|i: int| from <= i < list.len() ==> #[trigger] list[i] != wanted,
    decreases list.len() - from,
{
    if from < list.len() {
        no_first_of(list, wanted, from + 1);
    }
}

proof fn no_folded(files: Files, app_id: Seq<char>, dirs: Seq<Seq<u8>>, from: int)
    requires
        0 <= from,
        files.folded(app_id, dirs, from) is None,
    ensures
        forall|i: int, j: int|
            #![trigger (files.names)(dirs[i])->0[j]]
            from <= i < dirs.len() && (files.names)(dirs[i]) is Some && 0 <= j < (files.names)(
                dirs[i],
            )->0.len() ==> !desktop::folds_to(app_id, (files.names)(dirs[i])->0[j]),
    decreases dirs.len() - from,
{
    if from < dirs.len() {
        no_folded(files, app_id, dirs, from + 1);
        if (files.names)(dirs[from]) is Some {
            let names = (files.names)(dirs[from])->0;
            let wanted = desktop::lowered_name(desktop::lower_case(app_id));
            no_first_of(desktop::lowered(names), wanted, 0);
            assert forall|j: int| 0 <= j < names.len() implies !desktop::folds_to(
                app_id,
                #[trigger] names[j],
            ) by {
                assert(desktop::lowered(names)[j] != wanted);
            }
        }
    }
}

proof fn no_first_with(
    files: Files,
    key: EntryKey,
    app_id: Seq<char>,
    list: Seq<Seq<u8>>,
    from: int,
)
    requires
        0 <= from,
        files.first_with(key, app_id, list, from) is None,
    ensures
        forall|i: int|
            from <= i < list.len() ==> !((files.texts)(#[trigger] list[i]) matches Some(text)
                && entry::has_entry(text, desktop::key_text(key), app_id)),
    decreases list.len() - from,
{
    if from < list.len() {
        no_first_with(files, key, app_id, list, from + 1);
    }
}

proof fn desktop_files_members(dir: Seq<u8>, names: Seq<Seq<u8>>, j: int)
    requires
        0 <= j < names.len(),
        desktop::is_desktop_file(names[j]),
    ensures
        desktop::desktop_files(dir, names).contains(filepath::join(dir, names[j])),
    decreases names.len(),
{
    let rest = desktop::desktop_files(dir, names.drop_last());
    let all = desktop::desktop_files(dir, names);
    if j < names.len() - 1 {
        desktop_files_members(dir, names.drop_last(), j);
        let i = rest.index_of(filepath::join(dir, names[j]));
        assert(all[i] == filepath::join(dir, names[j]));
    } else {
        assert(all[rest.len() as int] == filepath::join(dir, names[j]));
    }
}

proof fn no_keyed(files: Files, key: EntryKey, app_id: Seq<char>, dirs: Seq<Seq<u8>>, from: int)
    requires
        0 <= from,
        files.keyed(key, app_id, dirs, from) is None,
    ensures
        forall|i: int, j: int|
            #![trigger (files.names)(dirs[i])->0[j]]
            from <= i < dirs.len() && (files.names)(dirs[i]) is Some && 0 <= j < (files.names)(
                dirs[i],
            )->0.len() ==> !tells(files, key, app_id, dirs[i], (files.names)(dirs[i])->0[j]),
    decreases dirs.len() - from,
{
    if from < dirs.len() {
        no_keyed(files, key, app_id, dirs, from + 1);
        if (files.names)(dirs[from]) is Some {
            let names = (files.names)(dirs[from])->0;
            let list = desktop::desktop_files(dirs[from], names);
            no_first_with(files, key, app_id, list, 0);
            assert forall|j: int| 0 <= j < names.len() implies !tells(
                files,
                key,
                app_id,
                dirs[from],
                #[trigger] names[j],
            ) by {
                if desktop::is_desktop_file(names[j]) {
                    desktop_files_members(dirs[from], names, j);
                    let i = list.index_of(filepath::join(dirs[from], names[j]));
                    assert(list[i] == filepath::join(dirs[from], names[j]));
                }
            }
        }
    }
}

/// Where the search finds nothing, no directory has a file of the exact name, and no
/// directory that can be read has one whose name differs only in case or whose
/// `StartupWMClass` or `Name` is the application.
pub proof fn nothing_found_means_nothing_there(app_id: Seq<char>, home: Seq<char>, files: Files)
    requires
        outcome(desktop::search_for(app_id, home), files) is None,
    ensures
        ({
            let dirs = launch::application_paths(home);
            &&& forall|i: int|
                0 <= i < dirs.len() ==> !(files.exists)(
                    filepath::join(#[trigger] dirs[i], desktop::exact_name(app_id)),
                )
            &&& forall|i: int, j: int|
                #![trigger (files.names)(dirs[i])->0[j]]
                0 <= i < dirs.len() && (files.names)(dirs[i]) is Some && 0 <= j < (files.names)(
                    dirs[i],
                )->0.len() ==> {
                    let name = (files.names)(dirs[i])->0[j];
                    &&& !desktop::folds_to(app_id, name)
                    &&& !tells(files, EntryKey::StartupWmClass, app_id, dirs[i], name)
                    &&& !tells(files, EntryKey::Name, app_id, dirs[i], name)
                }
        }),
{
    let dirs = launch::application_paths(home);
    search_finds_the_desktop_file(app_id, home, files);
    no_exact(files, app_id, dirs, 0);
    no_folded(files, app_id, dirs, 0);
    no_keyed(files, EntryKey::StartupWmClass, app_id, dirs, 0);
    no_keyed(files, EntryKey::Name, app_id, dirs, 0);
}

/// Whether a path is that of a name in a directory that can be read, and the name or the
/// file speaks for the application.
pub open spec fn speaks_for(
    files: Files,
    app_id: Seq<char>,
    dir: Seq<u8>,
    name: Seq<u8>,
    path: Seq<u8>,
) -> bool {
    &&& (files.names)(dir) matches Some(names)
    &&& names.contains(name)
    &&& path == filepath::join(dir, name)
    &&& {
        ||| desktop::folds_to(app_id, name)
        ||| tells(files, EntryKey::StartupWmClass, app_id, dir, name)
        ||| tells(files, EntryKey::Name, app_id, dir, name)
    }
}

proof fn some_exact(files: Files, app_id: Seq<char>, dirs: Seq<Seq<u8>>, from: int) -> (i: int)
    requires
        0 <= from,
        files.exact(app_id, dirs, from) is Some,
    ensures
        from <= i < dirs.len(),
        files.exact(app_id, dirs, from) == Some(
            filepath::join(dirs[i], desktop::exact_name(app_id)),
        ),
        (files.exists)(filepath::join(dirs[i], desktop::exact_name(app_id))),
    decreases dirs.len() - from,
{
    if (files.exists)(filepath::join(dirs[from], desktop::exact_name(app_id))) {
        from
    } else {
        some_exact(files, app_id, dirs, from + 1)
    }
}

proof fn some_first_of(list: Seq<Seq<char>>, wanted: Seq<char>, from: int)
    requires
        0 <= from,
        desktop::first_of(list, wanted, from) is Some,
    ensures
        from <= desktop::first_of(list, wanted, from)->0 < list.len(),
        list[desktop::first_of(list, wanted, from)->0] == wanted,
    decreases list.len() - from,
{
    if list[from] != wanted {
        some_first_of(list, wanted, from + 1);
    }
}

proof fn some_folded(files: Files, app_id: Seq<char>, dirs: Seq<Seq<u8>>, from: int) -> (r: (
    int,
    Seq<u8>,
))
    requires
        0 <= from,
        files.folded(app_id, dirs, from) is Some,
    ensures
        from <= r.0 < dirs.len(),
        speaks_for(files, app_id, dirs[r.0], r.1, files.folded(app_id, dirs, from)->0),
    decreases dirs.len() - from,
{
    match (files.names)(dirs[from]) {
        Some(names) => match desktop::first_folded(app_id, names) {
            Some(i) => {
                some_first_of(
                    desktop::lowered(names),
                    desktop::lowered_name(desktop::lower_case(app_id)),
                    0,
                );
                assert(desktop::lowered(names)[i] == desktop::lower_case(
                    launch::lossy_text(names[i]),
                ));
                assert(names.contains(names[i]));
                (from, names[i])
            },
            None => some_folded(files, app_id, dirs, from + 1),
        },
        None => some_folded(files, app_id, dirs, from + 1),
    }
}

proof fn some_first_with(
    files: Files,
    key: EntryKey,
    app_id: Seq<char>,
    list: Seq<Seq<u8>>,
    from: int,
) -> (i: int)
    requires
        0 <= from,
        files.first_with(key, app_id, list, from) is Some,
    ensures
        from <= i < list.len(),
        files.first_with(key, app_id, list, from) == Some(list[i]),
        (files.texts)(list[i]) is Some,
        entry::has_entry((files.texts)(list[i])->0, desktop::key_text(key), app_id),
    decreases list.len() - from,
{
    if files.first_with(key, app_id, list, from) == Some(list[from]) && (files.texts)(
        list[from],
    ) is Some && entry::has_entry((files.texts)(list[from])->0, desktop::key_text(key), app_id) {
        from
    } else {
        some_first_with(files, key, app_id, list, from + 1)
    }
}

/// Each path of a desktop entry file is that of a name that is listed.
pub proof fn desktop_files_source(dir: Seq<u8>, names: Seq<Seq<u8>>, i: int) -> (j: int)
    requires
        0 <= i < desktop::desktop_files(dir, names).len(),
    ensures
        0 <= j < names.len(),
        desktop::is_desktop_file(names[j]),
        desktop::desktop_files(dir, names)[i] == filepath::join(dir, names[j]),
    decreases names.len(),
{
    let rest = desktop::desktop_files(dir, names.drop_last());
    if i < rest.len() {
        desktop_files_source(dir, names.drop_last(), i)
    } else {
        names.len() - 1
    }
}

proof fn some_keyed(
    files: Files,
    key: EntryKey,
    app_id: Seq<char>,
    dirs: Seq<Seq<u8>>,
    from: int,
) -> (r: (int, Seq<u8>))
    requires
        0 <= from,
        files.keyed(key, app_id, dirs, from) is Some,
    ensures
        from <= r.0 < dirs.len(),
        speaks_for(files, app_id, dirs[r.0], r.1, files.keyed(key, app_id, dirs, from)->0),
    decreases dirs.len() - from,
{
    match (files.names)(dirs[from]) {
        Some(names) => {
            let list = desktop::desktop_files(dirs[from], names);
            match files.first_with(key, app_id, list, 0) {
                Some(path) => {
                    let i = some_first_with(files, key, app_id, list, 0);
                    let j = desktop_files_source(dirs[from], names, i);
                    assert(names.contains(names[j]));
                    assert(tells(files, key, app_id, dirs[from], names[j]));
                    (from, names[j])
                },
                None => some_keyed(files, key, app_id, dirs, from + 1),
            }
        },
        None => some_keyed(files, key, app_id, dirs, from + 1),
    }
}

/// What the search finds is a file of the exact name that exists in one of the directories,
/// or a file that one of them lists and whose name or text speaks for the application.
pub proof fn what_is_found_belongs(app_id: Seq<char>, home: Seq<char>, files: Files)
    ensures
        match outcome(desktop::search_for(app_id, home), files) {
            Some(path) => {
                let dirs = launch::application_paths(home);
                ||| (files.exists)(path) && exists|i: int|
                    0 <= i < dirs.len() && path == filepath::join(
                        #[trigger] dirs[i],
                        desktop::exact_name(app_id),
                    )
                ||| exists|i: int, name: Seq<u8>|
                    0 <= i < dirs.len() && #[trigger] speaks_for(
                        files,
                        app_id,
                        dirs[i],
                        name,
                        path,
                    )
            },
            None => true,
        },
{
    let dirs = launch::application_paths(home);
    search_finds_the_desktop_file(app_id, home, files);
    if files.exact(app_id, dirs, 0) is Some {
        let i = some_exact(files, app_id, dirs, 0);
        assert(dirs[i] == dirs[i]);
    } else if files.folded(app_id, dirs, 0) is Some {
        let r = some_folded(files, app_id, dirs, 0);
    } else if files.keyed(EntryKey::StartupWmClass, app_id, dirs, 0) is Some {
        let r = some_keyed(files, EntryKey::StartupWmClass, app_id, dirs, 0);
    } else if files.keyed(EntryKey::Name, app_id, dirs, 0) is Some {
        let r = some_keyed(files, EntryKey::Name, app_id, dirs, 0);
    }
}

/// Whether a name can be that of a file in a directory.
pub open spec fn is_file_name(name: Seq<u8>) -> bool {
    &&& name.len() > 0
    &&& !name.contains(filepath::SEPARATOR)
    &&& name != seq![filepath::DOT]
    &&& name != seq![filepath::DOT, filepath::DOT]
}

/// Whether each directory that is searched lists what it has.
pub open spec fn lists_what_exists(files: Files, home: Seq<char>) -> bool {
    forall|i: int, name: Seq<u8>|
        0 <= i < launch::application_paths(home).len() && is_file_name(name) && (files.exists)(
            #[trigger] filepath::join(launch::application_paths(home)[i], name),
        ) ==> {
            &&& (files.names)(launch::application_paths(home)[i]) matches Some(names)
            &&& names.contains(name)
        }
}

/// Texts of ASCII characters that are the same but for case have one lower-case form.
proof fn one_lower_case(a: Seq<char>, b: Seq<char>)
    requires
        utf8::is_ascii_chars(a),
        utf8::is_ascii_chars(b),
        entry::same_ignoring_ascii_case(a, b),
    ensures
        desktop::lower_case(a) == desktop::lower_case(b),
{
    assert forall|i: int| 0 <= i < a.len() implies desktop::ascii_lower(#[trigger] a[i])
        == desktop::ascii_lower(b[i]) by {
        assert(entry::ascii_fold(a[i]) == entry::ascii_fold(b[i]));
    }
    assert(desktop::lower_case(a) =~= desktop::lower_case(b));
}

/// The exact name for an application is the expected one but for case for another.
proof fn exact_name_folds(a: Seq<char>, b: Seq<char>)
    requires
        utf8::is_ascii_chars(a),
        utf8::is_ascii_chars(b),
        entry::same_ignoring_ascii_case(a, b),
    ensures
        desktop::folds_to(b, desktop::exact_name(a)),
{
    let name = a + ".desktop"@;
    reveal_strlit(".desktop");
    utf8::encode_utf8_valid_utf8(name);
    utf8::encode_utf8_decode_utf8(name);
    one_lower_case(a, b);
    assert(utf8::is_ascii_chars(name));
    assert(desktop::lower_case(name) =~= desktop::lower_case(a) + ".desktop"@);
}

/// The exact name for an application without a separator is that of a file.
proof fn exact_name_is_file_name(a: Seq<char>)
    requires
        utf8::is_ascii_chars(a),
        !a.contains('/'),
    ensures
        is_file_name(desktop::exact_name(a)),
{
    let name = a + ".desktop"@;
    let bytes = desktop::exact_name(a);
    reveal_strlit(".desktop");
    assert(utf8::is_ascii_chars(name));
    utf8::is_ascii_chars_encode_utf8(name);
    assert forall|i: int| 0 <= i < bytes.len() implies #[trigger] bytes[i]
        != filepath::SEPARATOR by {
        assert(name[i] as u8 == bytes[i]);
        assert(name[i] != '/') by {
            if i < a.len() {
                assert(a[i] == name[i]);
            }
        }
    }
}

/// What one of the entries gives an application as its value, it gives the application in
/// another case.
proof fn entries_ignore_case(text: Seq<char>, key: Seq<char>, a: Seq<char>, b: Seq<char>)
    requires
        entry::same_ignoring_ascii_case(a, b),
        entry::has_entry(text, key, a),
    ensures
        entry::has_entry(text, key, b),
{
    let i = choose|i: int|
        0 <= i < entry::lines(text).len() && entry::assigns(
            #[trigger] entry::lines(text)[i],
            key,
            a,
        );
    let line = entry::lines(text)[i];
    let value = entry::trim(entry::trim_start(line.skip(key.len() as int)).skip(1));
    assert forall|j: int| 0 <= j < value.len() implies entry::ascii_fold(#[trigger] value[j])
        == entry::ascii_fold(b[j]) by {
        assert(entry::ascii_fold(a[j]) == entry::ascii_fold(b[j]));
    }
    assert(entry::assigns(line, key, b));
}

proof fn found_in_another_case(a: Seq<char>, b: Seq<char>, home: Seq<char>, files: Files)
    requires
        utf8::is_ascii_chars(a),
        utf8::is_ascii_chars(b),
        entry::same_ignoring_ascii_case(a, b),
        !a.contains('/'),
        lists_what_exists(files, home),
        outcome(desktop::search_for(a, home), files) is Some,
    ensures
        outcome(desktop::search_for(b, home), files) is Some,
{
    if outcome(desktop::search_for(b, home), files) is None {
        let dirs = launch::application_paths(home);
        let path = outcome(desktop::search_for(a, home), files)->0;
        what_is_found_belongs(a, home, files);
        nothing_found_means_nothing_there(b, home, files);
        one_lower_case(a, b);
        exact_name_folds(a, b);
        exact_name_is_file_name(a);
        if (files.exists)(path) && exists|i: int|
            0 <= i < dirs.len() && path == filepath::join(
                #[trigger] dirs[i],
                desktop::exact_name(a),
            ) {
            let i = choose|i: int|
                0 <= i < dirs.len() && path == filepath::join(
                    #[trigger] dirs[i],
                    desktop::exact_name(a),
                );
            let names = (files.names)(dirs[i])->0;
            assert(names.contains(desktop::exact_name(a)));
            let j = names.index_of(desktop::exact_name(a));
            assert(desktop::folds_to(b, (files.names)(dirs[i])->0[j]));
        } else {
            let (i, name) = choose|i: int, name: Seq<u8>|
                0 <= i < dirs.len() && #[trigger] speaks_for(files, a, dirs[i], name, path);
            let names = (files.names)(dirs[i])->0;
            let j = names.index_of(name);
            assert((files.names)(dirs[i])->0[j] == name);
            if desktop::folds_to(a, name) {
                assert(desktop::folds_to(b, name));
            } else {
                let text = (files.texts)(filepath::join(dirs[i], name))->0;
                if tells(files, EntryKey::StartupWmClass, a, dirs[i], name) {
                    entries_ignore_case(text, desktop::key_text(EntryKey::StartupWmClass), a, b);
                } else {
                    entries_ignore_case(text, desktop::key_text(EntryKey::Name), a, b);
                }
            }
        }
    }
}

/// Whether a file is found does not depend on the case of the application's ASCII letters,
/// where the directories list what they have. Which file is found may depend on it: one of
/// the exact name comes first.
pub proof fn case_does_not_decide(a: Seq<char>, b: Seq<char>, home: Seq<char>, files: Files)
    requires
        utf8::is_ascii_chars(a),
        utf8::is_ascii_chars(b),
        entry::same_ignoring_ascii_case(a, b),
        !a.contains('/'),
        lists_what_exists(files, home),
    ensures
        outcome(desktop::search_for(a, home), files) is Some <==> outcome(
            desktop::search_for(b, home),
            files,
        ) is Some,
{
    assert(!b.contains('/')) by {
        if b.contains('/') {
            let i = b.index_of('/');
            assert(entry::ascii_fold(a[i]) == entry::ascii_fold(b[i]));
            assert(a[i] == '/');
        }
    }
    assert(entry::same_ignoring_ascii_case(b, a));
    if outcome(desktop::search_for(a, home), files) is Some {
        found_in_another_case(a, b, home, files);
    }
    if outcome(desktop::search_for(b, home), files) is Some {
        found_in_another_case(b, a, home, files);
    }
}

} // verus!
