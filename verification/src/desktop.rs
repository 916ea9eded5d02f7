//! The search for the desktop entry file of an application. It asks the file system one
//! question at a time, and each answer decides on the next.

use crate::entry;
use crate::entry::text_has_entry;
use crate::filepath;
use crate::filepath::{join_path, same_bytes, FilePath};
use crate::launch;
use crate::launch::{application_dirs, text_from_lossy};
use crate::text;
use vstd::prelude::*;
use vstd::slice::slice_subrange;
use vstd::utf8;

verus! {

/// The lower-case form of a text that holds more than ASCII characters.
pub uninterp spec fn unicode_lower_case(s: Seq<char>) -> Seq<char>;

/// A character, in lower case if it is an ASCII letter.
pub open spec fn ascii_lower(c: char) -> char {
    if 'A' <= c <= 'Z' {
        (c as u32 + 32) as char
    } else {
        c
    }
}

/// The lower-case form of a text.
pub open spec fn lower_case(s: Seq<char>) -> Seq<char> {
    if utf8::is_ascii_chars(s) {
        s.map_values(|c: char| ascii_lower(c))
    } else {
        unicode_lower_case(s)
    }
}

/// `str::to_lowercase`: the lower-case form of a text, after the Unicode property
/// Lowercase. It is a matter of the text alone. In a text of ASCII characters, the letters
/// from `A` to `Z` become those from `a` to `z` and the others stay.
pub assume_specification[ str::to_lowercase ](s: &str) -> (r: String)
    ensures
        r@ == if utf8::is_ascii_chars(s@) {
            s@.map_values(|c: char| ascii_lower(c))
        } else {
            unicode_lower_case(s@)
        },
;

/// A key of a desktop entry file by which an application is looked for.
#[derive(Debug, Clone, Copy, PartialEq, Eq, Structural)]
pub enum EntryKey {
    StartupWmClass,
    Name,
}

/// What the search wants to know.
#[derive(Debug)]
pub enum Question {
    /// whether there is anything at a path
    Exists(FilePath),
    /// the names in a directory
    Names(FilePath),
    /// the text of a file
    Text(FilePath),
    /// nothing any more: this was found
    Nothing(Option<FilePath>),
}

/// What the file system answers.
#[derive(Debug)]
pub enum Answer {
    Exists(bool),
    /// the names in a directory, if it can be read
    Names(Option<Vec<Vec<u8>>>),
    /// the text of a file, if it can be read and is text
    Text(Option<String>),
}

/// How far a search is.
#[derive(Debug)]
pub enum Stage {
    /// is there a file of the exact name in this directory?
    Exact { dir: usize },
    /// is there one of that name, but for upper and lower case, in this directory?
    Folded { dir: usize },
    /// which files of this directory are desktop entry files?
    Listing { key: EntryKey, dir: usize },
    /// does this one of those files give the key the wanted value?
    Reading { key: EntryKey, dir: usize, files: Vec<FilePath>, next: usize },
    Finished { found: Option<FilePath> },
}

/// A search for the desktop entry file of an application.
#[derive(Debug)]
pub struct DesktopSearch {
    app_id: String,
    dirs: Vec<FilePath>,
    stage: Stage,
}

/// The model of `Question`.
pub enum QuestionView {
    Exists(Seq<u8>),
    Names(Seq<u8>),
    Text(Seq<u8>),
    Nothing(Option<Seq<u8>>),
}

/// The model of `Answer`.
pub enum AnswerView {
    Exists(bool),
    Names(Option<Seq<Seq<u8>>>),
    Text(Option<Seq<char>>),
}

/// The model of `Stage`.
pub enum StageView {
    Exact { dir: int },
    Folded { dir: int },
    Listing { key: EntryKey, dir: int },
    Reading { key: EntryKey, dir: int, files: Seq<Seq<u8>>, next: int },
    Finished { found: Option<Seq<u8>> },
}

/// The model of `DesktopSearch`.
pub struct SearchView {
    pub app_id: Seq<char>,
    pub dirs: Seq<Seq<u8>>,
    pub stage: StageView,
}

/// The view of a path that may be missing.
pub open spec fn optional_path(path: Option<FilePath>) -> Option<Seq<u8>> {
    match path {
        Some(p) => Some(p@),
        None => None,
    }
}

impl View for Question {
    type V = QuestionView;

    open spec fn view(&self) -> QuestionView {
        match self {
            Question::Exists(path) => QuestionView::Exists(path@),
            Question::Names(path) => QuestionView::Names(path@),
            Question::Text(path) => QuestionView::Text(path@),
            Question::Nothing(found) => QuestionView::Nothing(optional_path(*found)),
        }
    }
}

impl View for Answer {
    type V = AnswerView;

    open spec fn view(&self) -> AnswerView {
        match self {
            Answer::Exists(yes) => AnswerView::Exists(*yes),
            Answer::Names(names) => AnswerView::Names(
                match names {
                    Some(names) => Some(filepath::byte_views(names@)),
                    None => None,
                },
            ),
            Answer::Text(text) => AnswerView::Text(
                match text {
                    Some(text) => Some(text@),
                    None => None,
                },
            ),
        }
    }
}

impl View for Stage {
    type V = StageView;

    open spec fn view(&self) -> StageView {
        match self {
            Stage::Exact { dir } => StageView::Exact { dir: *dir as int },
            Stage::Folded { dir } => StageView::Folded { dir: *dir as int },
            Stage::Listing { key, dir } => StageView::Listing { key: *key, dir: *dir as int },
            Stage::Reading { key, dir, files, next } => StageView::Reading {
                key: *key,
                dir: *dir as int,
                files: filepath::paths(files@),
                next: *next as int,
            },
            Stage::Finished { found } => StageView::Finished { found: optional_path(*found) },
        }
    }
}

impl View for DesktopSearch {
    type V = SearchView;

    closed spec fn view(&self) -> SearchView {
        SearchView {
            app_id: self.app_id@,
            dirs: filepath::paths(self.dirs@),
            stage: self.stage@,
        }
    }
}

/// The text of a key.
pub open spec fn key_text(key: EntryKey) -> Seq<char> {
    match key {
        EntryKey::StartupWmClass => "StartupWMClass"@,
        EntryKey::Name => "Name"@,
    }
}

/// The part of a file name behind its last dot: there is none where there is no dot, or
/// none but one at the start.
pub open spec fn extension(name: Seq<u8>) -> Option<Seq<u8>> {
    let dot = last_dot(name);
    if dot > 0 {
        Some(name.skip(dot + 1))
    } else {
        None
    }
}

/// The place of the last dot in a name, or -1.
pub open spec fn last_dot(name: Seq<u8>) -> int
    decreases name.len(),
{
    if name.len() == 0 {
        -1
    } else if name.last() == filepath::DOT {
        name.len() - 1
    } else {
        last_dot(name.drop_last())
    }
}

/// Whether a name in a directory is that of a desktop entry file.
pub open spec fn is_desktop_file(name: Seq<u8>) -> bool {
    extension(name) == Some(utf8::encode_utf8("desktop"@))
}

/// The paths of the desktop entry files among the names in a directory.
pub open spec fn desktop_files(dir: Seq<u8>, names: Seq<Seq<u8>>) -> Seq<Seq<u8>>
    decreases names.len(),
{
    if names.len() == 0 {
        seq![]
    } else {
        let rest = desktop_files(dir, names.drop_last());
        if is_desktop_file(names.last()) {
            rest.push(filepath::join(dir, names.last()))
        } else {
            rest
        }
    }
}

/// The name that the file of an application is expected to have.
pub open spec fn exact_name(app_id: Seq<char>) -> Seq<u8> {
    utf8::encode_utf8(app_id + ".desktop"@)
}

/// The lower-case form of names, which need not be text.
pub open spec fn lowered(names: Seq<Seq<u8>>) -> Seq<Seq<char>> {
    names.map_values(|n: Seq<u8>| lower_case(launch::lossy_text(n)))
}

/// The lower-case form of the name that the file of an application is expected to have,
/// from that of the application.
pub open spec fn lowered_name(lower_app_id: Seq<char>) -> Seq<char> {
    lower_app_id + ".desktop"@
}

/// Whether a name is the one expected for an application but for upper and lower case.
pub open spec fn folds_to(app_id: Seq<char>, name: Seq<u8>) -> bool {
    lower_case(launch::lossy_text(name)) == lowered_name(lower_case(app_id))
}

/// The place of the first occurrence of a text in a list, from a place on.
pub open spec fn first_of(list: Seq<Seq<char>>, wanted: Seq<char>, from: int) -> Option<int>
    decreases list.len() - from,
{
    if from >= list.len() {
        None
    } else if list[from] == wanted {
        Some(from)
    } else {
        first_of(list, wanted, from + 1)
    }
}

/// The place of the first name that is the expected one but for upper and lower case.
pub open spec fn first_folded(app_id: Seq<char>, names: Seq<Seq<u8>>) -> Option<int> {
    first_of(lowered(names), lowered_name(lower_case(app_id)), 0)
}

impl SearchView {
    /// The search at another stage.
    pub open spec fn at(self, stage: StageView) -> SearchView {
        SearchView { stage, ..self }
    }

    /// The search that found a file.
    pub open spec fn done(self, found: Option<Seq<u8>>) -> SearchView {
        self.at(StageView::Finished { found })
    }

    /// The search for files by a key, from a directory on.
    pub open spec fn listing(self, key: EntryKey, dir: int) -> SearchView {
        if dir < self.dirs.len() {
            self.at(StageView::Listing { key, dir })
        } else if key == EntryKey::StartupWmClass && self.dirs.len() > 0 {
            self.at(StageView::Listing { key: EntryKey::Name, dir: 0 })
        } else {
            self.done(None)
        }
    }

    /// The search for a file whose name differs in case, from a directory on.
    pub open spec fn folding(self, dir: int) -> SearchView {
        if dir < self.dirs.len() {
            self.at(StageView::Folded { dir })
        } else {
            self.listing(EntryKey::StartupWmClass, 0)
        }
    }

    /// The search for a file of the exact name, from a directory on.
    pub open spec fn probing(self, dir: int) -> SearchView {
        if dir < self.dirs.len() {
            self.at(StageView::Exact { dir })
        } else {
            self.folding(0)
        }
    }

    /// The search through files of a directory, from one of them on.
    pub open spec fn reading(
        self,
        key: EntryKey,
        dir: int,
        files: Seq<Seq<u8>>,
        next: int,
    ) -> SearchView {
        if next < files.len() {
            self.at(StageView::Reading { key, dir, files, next })
        } else {
            self.listing(key, dir + 1)
        }
    }

    /// Whether the places that a stage speaks of are there.
    pub open spec fn wf(self) -> bool {
        match self.stage {
            StageView::Exact { dir } => 0 <= dir < self.dirs.len(),
            StageView::Folded { dir } => 0 <= dir < self.dirs.len(),
            StageView::Listing { key, dir } => 0 <= dir < self.dirs.len(),
            StageView::Reading { key, dir, files, next } => 0 <= dir < self.dirs.len() && 0 <= next
                < files.len(),
            StageView::Finished { found } => true,
        }
    }

    /// What the search wants to know.
    pub open spec fn question(self) -> QuestionView {
        match self.stage {
            StageView::Exact { dir } => QuestionView::Exists(
                filepath::join(self.dirs[dir], exact_name(self.app_id)),
            ),
            StageView::Folded { dir } => QuestionView::Names(self.dirs[dir]),
            StageView::Listing { key, dir } => QuestionView::Names(self.dirs[dir]),
            StageView::Reading { key, dir, files, next } => QuestionView::Text(files[next]),
            StageView::Finished { found } => QuestionView::Nothing(found),
        }
    }

    /// The search once its question has been answered. An answer to another question
    /// counts as a no.
    pub open spec fn answered(self, answer: AnswerView) -> SearchView {
        match self.stage {
            StageView::Exact { dir } => if answer == AnswerView::Exists(true) {
                self.done(Some(filepath::join(self.dirs[dir], exact_name(self.app_id))))
            } else {
                self.probing(dir + 1)
            },
            StageView::Folded { dir } => match answer {
                AnswerView::Names(Some(names)) => match first_folded(self.app_id, names) {
                    Some(i) => self.done(Some(filepath::join(self.dirs[dir], names[i]))),
                    None => self.folding(dir + 1),
                },
                _ => self.folding(dir + 1),
            },
            StageView::Listing { key, dir } => match answer {
                AnswerView::Names(Some(names)) => self.reading(
                    key,
                    dir,
                    desktop_files(self.dirs[dir], names),
                    0,
                ),
                _ => self.listing(key, dir + 1),
            },
            StageView::Reading { key, dir, files, next } => if answer matches AnswerView::Text(
                Some(text),
            ) && entry::has_entry(text, key_text(key), self.app_id) {
                self.done(Some(files[next]))
            } else {
                self.reading(key, dir, files, next + 1)
            },
            StageView::Finished { found } => self,
        }
    }
}

fn has_desktop_extension(name: &Vec<u8>) -> (r: bool)
    ensures
        r == is_desktop_file(name@),
{
    let mut n: usize = name.len();
    assert(name@.take(n as int) =~= name@);
    while n > 0 && name[n - 1] != filepath::DOT
        invariant
            n <= name@.len(),
            last_dot(name@) == last_dot(name@.take(n as int)),
        decreases n,
    {
        assert(name@.take(n as int).drop_last() =~= name@.take(n - 1));
        n = n - 1;
    }
    if n <= 1 {
        return false;
    }
    let part = slice_subrange(name.as_slice(), n, name.len());
    assert(part@ =~= name@.skip(n as int));
    same_bytes(part, "desktop".as_bytes())
}

fn desktop_files_in(dir: &FilePath, names: &Vec<Vec<u8>>) -> (r: Vec<FilePath>)
    ensures
        filepath::paths(r@) == desktop_files(dir@, filepath::byte_views(names@)),
{
    let ghost all = filepath::byte_views(names@);
    let mut r: Vec<FilePath> = Vec::new();
    let mut i: usize = 0;
    assert(filepath::paths(r@) =~= desktop_files(dir@, all.take(0)));
    while i < names.len()
        invariant
            i <= names@.len(),
            all == filepath::byte_views(names@),
            filepath::paths(r@) == desktop_files(dir@, all.take(i as int)),
        decreases names@.len() - i,
    {
        assert(all.take(i + 1).drop_last() =~= all.take(i as int));
        let ghost before = r@;
        if has_desktop_extension(&names[i]) {
            let file = join_path(dir, &names[i]);
            r.push(file);
            assert(filepath::paths(r@) =~= filepath::paths(before).push(file@));
        }
        i = i + 1;
    }
    assert(all.take(all.len() as int) =~= all);
    r
}

/// The place of the first of some names that is the one expected for an application, the
/// names and the application in lower case.
pub fn first_named(names: &Vec<String>, lower_app_id: &str) -> (r: Option<usize>)
    ensures
        match r {
            Some(i) => i < names@.len() && first_of(
                text::texts(names@),
                lowered_name(lower_app_id@),
                0,
            ) == Some(i as int),
            None => first_of(text::texts(names@), lowered_name(lower_app_id@), 0) is None,
        },
{
    let wanted = lower_app_id.to_owned().concat(".desktop");
    let mut i: usize = 0;
    while i < names.len()
        invariant
            i <= names@.len(),
            wanted@ == lowered_name(lower_app_id@),
            first_of(text::texts(names@), wanted@, 0) == first_of(
                text::texts(names@),
                wanted@,
                i as int,
            ),
        decreases names@.len() - i,
    {
        if names[i] == wanted {
            assert(text::texts(names@)[i as int] == wanted@);
            return Some(i);
        }
        assert(text::texts(names@)[i as int] != wanted@);
        i = i + 1;
    }
    None
}

/// Starts the search for the desktop entry file of an application.
pub fn desktop_file_for(app_id: &str, home: &str) -> (r: DesktopSearch)
    ensures
        r@ == search_for(app_id@, home@),
        r@.wf(),
{
    DesktopSearch {
        app_id: app_id.to_owned(),
        dirs: application_dirs(home),
        stage: Stage::Exact { dir: 0 },
    }
}

/// The search at its start.
pub open spec fn search_for(app_id: Seq<char>, home: Seq<char>) -> SearchView {
    SearchView {
        app_id,
        dirs: launch::application_paths(home),
        stage: StageView::Exact { dir: 0 },
    }
}

impl DesktopSearch {
    #[verifier::type_invariant]
    closed spec fn inv(self) -> bool {
        self@.wf()
    }

    fn expected_name(&self) -> (r: Vec<u8>)
        ensures
            r@ == exact_name(self@.app_id),
    {
        let name = self.app_id.clone().concat(".desktop");
        name.as_str().as_bytes_vec()
    }

    fn listing(&self, key: EntryKey, dir: usize) -> (r: Stage)
        ensures
            r@ == self@.listing(key, dir as int).stage,
    {
        if dir < self.dirs.len() {
            Stage::Listing { key, dir }
        } else if key == EntryKey::StartupWmClass && self.dirs.len() > 0 {
            Stage::Listing { key: EntryKey::Name, dir: 0 }
        } else {
            Stage::Finished { found: None }
        }
    }

    fn folding(&self, dir: usize) -> (r: Stage)
        ensures
            r@ == self@.folding(dir as int).stage,
    {
        if dir < self.dirs.len() {
            Stage::Folded { dir }
        } else {
            self.listing(EntryKey::StartupWmClass, 0)
        }
    }

    fn probing(&self, dir: usize) -> (r: Stage)
        ensures
            r@ == self@.probing(dir as int).stage,
    {
        if dir < self.dirs.len() {
            Stage::Exact { dir }
        } else {
            self.folding(0)
        }
    }

    fn reading(&self, key: EntryKey, dir: usize, files: Vec<FilePath>, next: usize) -> (r: Stage)
        requires
            dir < self@.dirs.len(),
        ensures
            r@ == self@.reading(key, dir as int, filepath::paths(files@), next as int).stage,
    {
        if next < files.len() {
            Stage::Reading { key, dir, files, next }
        } else {
            assert(self.dirs@.len() == self.dirs.len());
            self.listing(key, dir + 1)
        }
    }

    fn find_folded(&self, names: &Vec<Vec<u8>>) -> (r: Option<usize>)
        ensures
            match r {
                Some(i) => i < names@.len() && first_folded(
                    self@.app_id,
                    filepath::byte_views(names@),
                ) == Some(i as int),
                None => first_folded(self@.app_id, filepath::byte_views(names@)) is None,
            },
    {
        let mut forms: Vec<String> = Vec::new();
        let mut i: usize = 0;
        while i < names.len()
            invariant
                i <= names@.len(),
                text::texts(forms@) == lowered(filepath::byte_views(names@)).take(i as int),
            decreases names@.len() - i,
        {
            let ghost before = forms@;
            let form = text_from_lossy(names[i].as_slice()).as_str().to_lowercase();
            forms.push(form);
            assert(text::texts(forms@) =~= text::texts(before).push(form@));
            i = i + 1;
        }
        assert(text::texts(forms@) =~= lowered(filepath::byte_views(names@)));
        first_named(&forms, self.app_id.as_str().to_lowercase().as_str())
    }

    /// What the search wants to know.
    pub fn question(&self) -> (r: Question)
        ensures
            r@ == self@.question(),
            self@.wf(),
    {
        proof {
            use_type_invariant(self);
        }
        match &self.stage {
            Stage::Exact { dir } => Question::Exists(
                join_path(&self.dirs[*dir], &self.expected_name()),
            ),
            Stage::Folded { dir } => Question::Names(self.dirs[*dir].clone()),
            Stage::Listing { key, dir } => Question::Names(self.dirs[*dir].clone()),
            Stage::Reading { key, dir, files, next } => Question::Text(files[*next].clone()),
            Stage::Finished { found } => Question::Nothing(
                match found {
                    Some(path) => Some(path.clone()),
                    None => None,
                },
            ),
        }
    }

    /// Takes in the answer to the question.
    pub fn answer(&mut self, answer: Answer)
        ensures
            final(self)@ == old(self)@.answered(answer@),
            final(self)@.wf(),
    {
        proof {
            use_type_invariant(&*self);
        }
        let mut stage = Stage::Finished { found: None };
        std::mem::swap(&mut stage, &mut self.stage);
        assert(self.dirs@.len() == self.dirs.len());
        let next_stage = match stage {
            Stage::Exact { dir } => match answer {
                Answer::Exists(true) => Stage::Finished {
                    found: Some(join_path(&self.dirs[dir], &self.expected_name())),
                },
                _ => self.probing(dir + 1),
            },
            Stage::Folded { dir } => match answer {
                Answer::Names(Some(names)) => match self.find_folded(&names) {
                    Some(i) => Stage::Finished {
                        found: Some(join_path(&self.dirs[dir], &names[i])),
                    },
                    None => self.folding(dir + 1),
                },
                _ => self.folding(dir + 1),
            },
            Stage::Listing { key, dir } => match answer {
                Answer::Names(Some(names)) => {
                    let files = desktop_files_in(&self.dirs[dir], &names);
                    self.reading(key, dir, files, 0)
                },
                _ => self.listing(key, dir + 1),
            },
            Stage::Reading { key, dir, files, next } => {
                let hit = match answer {
                    Answer::Text(Some(text)) => {
                        let name = match key {
                            EntryKey::StartupWmClass => "StartupWMClass",
                            EntryKey::Name => "Name",
                        };
                        text_has_entry(text.as_str(), name, self.app_id.as_str())
                    },
                    _ => false,
                };
                if hit {
                    Stage::Finished { found: Some(files[next].clone()) }
                } else {
                    assert(files@.len() == files.len());
                    self.reading(key, dir, files, next + 1)
                }
            },
            Stage::Finished { found } => Stage::Finished { found },
        };
        self.stage = next_stage;
    }
}

} // verus!
