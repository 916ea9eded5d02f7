//! Bringing applications back: what to run for them, and how browsers of the Chromium
//! family open their profiles.

use crate::filepath;
use crate::filepath::{join_path, path_from, FilePath};
use crate::text;
use crate::text::same_text;
use serde_json::Value;
use vstd::prelude::*;
use vstd::utf8;

verus! {

/// The text that bytes which are not UTF-8 spell, with what is wrong replaced.
pub uninterp spec fn mended_text(bytes: Seq<u8>) -> Seq<char>;

/// The text that bytes spell: the one that they encode, if they are UTF-8, or else one in
/// which what is wrong is replaced.
pub open spec fn lossy_text(bytes: Seq<u8>) -> Seq<char> {
    if utf8::valid_utf8(bytes) {
        utf8::decode_utf8(bytes)
    } else {
        mended_text(bytes)
    }
}

/// `String::from_utf8_lossy`: the text that the bytes spell. Bytes that are UTF-8 give
/// the text that they encode; in others, what is wrong is replaced, which is a matter of
/// the bytes alone.
#[verifier::external_body]
pub(crate) fn text_from_lossy(bytes: &[u8]) -> (r: String)
    ensures
        r@ == if utf8::valid_utf8(bytes@) {
            utf8::decode_utf8(bytes@)
        } else {
            mended_text(bytes@)
        },
{
    String::from_utf8_lossy(bytes).into_owned()
}

/// The browser whose windows have an app_id: its binary and its directory of settings
/// below the home directory.
pub open spec fn browser(app_id: Seq<char>) -> Option<(Seq<char>, Seq<char>)> {
    if app_id == "google-chrome"@ {
        Some(("google-chrome"@, ".config/google-chrome"@))
    } else if app_id == "chromium"@ {
        Some(("chromium"@, ".config/chromium"@))
    } else if app_id == "brave-browser"@ {
        Some(("brave-browser"@, ".config/BraveSoftware/Brave-Browser"@))
    } else {
        None
    }
}

/// The browser whose windows have an app_id: its binary and its directory of settings
/// below the home directory.
pub fn browser_for(app_id: &str) -> (r: Option<(&'static str, &'static str)>)
    ensures
        match r {
            Some((binary, config)) => browser(app_id@) == Some((binary@, config@)),
            None => browser(app_id@) is None,
        },
{
    if same_text(app_id, "google-chrome") {
        Some(("google-chrome", ".config/google-chrome"))
    } else if same_text(app_id, "chromium") {
        Some(("chromium", ".config/chromium"))
    } else if same_text(app_id, "brave-browser") {
        Some(("brave-browser", ".config/BraveSoftware/Brave-Browser"))
    } else {
        None
    }
}

/// The directories that hold desktop entry files, in the order in which they are searched.
pub open spec fn application_paths(home: Seq<char>) -> Seq<Seq<u8>> {
    seq![
        utf8::encode_utf8(home + "/.local/share/applications"@),
        utf8::encode_utf8("/usr/share/applications"@),
        utf8::encode_utf8("/usr/local/share/applications"@),
        utf8::encode_utf8(home + "/.local/share/flatpak/exports/share/applications"@),
        utf8::encode_utf8("/var/lib/flatpak/exports/share/applications"@),
    ]
}

/// The directories that hold desktop entry files, in the order in which they are searched.
pub fn application_dirs(home: &str) -> (r: Vec<FilePath>)
    ensures
        filepath::paths(r@) == application_paths(home@),
{
    let mut r: Vec<FilePath> = Vec::new();
    let own = home.to_owned().concat("/.local/share/applications");
    let own_flatpak = home.to_owned().concat("/.local/share/flatpak/exports/share/applications");
    r.push(path_from(own.as_str()));
    r.push(path_from("/usr/share/applications"));
    r.push(path_from("/usr/local/share/applications"));
    r.push(path_from(own_flatpak.as_str()));
    r.push(path_from("/var/lib/flatpak/exports/share/applications"));
    assert(filepath::paths(r@) =~= application_paths(home@));
    r
}

/// The file in which a browser keeps what it last had open, from the home directory and
/// the directory of settings.
pub fn local_state_path(home: &str, config_dir_rel: &str) -> (r: FilePath)
    ensures
        r@ == filepath::join(
            filepath::join(utf8::encode_utf8(home@), utf8::encode_utf8(config_dir_rel@)),
            utf8::encode_utf8("Local State"@),
        ),
{
    let dir = join_path(&path_from(home), &config_dir_rel.as_bytes_vec());
    join_path(&dir, &"Local State".as_bytes_vec())
}

/// What is read from a section of a JSON document: a list, of which only the elements
/// that are texts count, and a text. Each may be missing or be something else.
#[derive(Debug)]
pub struct Members {
    pub list: Option<Vec<Option<String>>>,
    pub text: Option<String>,
}

/// The model of `Members`.
#[verifier::ext_equal]
pub struct MembersView {
    pub list: Option<Seq<Option<Seq<char>>>>,
    pub text: Option<Seq<char>>,
}

impl View for Members {
    type V = MembersView;

    open spec fn view(&self) -> MembersView {
        MembersView {
            list: match self.list {
                Some(list) => Some(list@.map_values(|t: Option<String>| text::optional(t))),
                None => None,
            },
            text: text::optional(self.text),
        }
    }
}

/// `serde_json::Error`, carried through as it is.
#[verifier::external_type_specification]
#[verifier::external_body]
pub struct ExJsonError(serde_json::Error);

/// A value under a key of a section of a JSON document, as far as it counts: a text, or a
/// list of which the elements that are texts count.
#[derive(Debug)]
pub enum JsonValue {
    Text(String),
    List(Vec<Option<String>>),
    Other,
}

/// A key of a section of a JSON document, and the value under it.
#[derive(Debug)]
pub struct JsonField {
    pub key: String,
    pub value: JsonValue,
}

/// A key of a JSON document, and the section under it, if the value there is an object.
#[derive(Debug)]
pub struct JsonSection {
    pub key: String,
    pub fields: Option<Vec<JsonField>>,
}

/// The model of `JsonValue`.
pub enum JsonValueView {
    Text(Seq<char>),
    List(Seq<Option<Seq<char>>>),
    Other,
}

/// The model of `JsonField`.
pub struct JsonFieldView {
    pub key: Seq<char>,
    pub value: JsonValueView,
}

/// The model of `JsonSection`.
pub struct JsonSectionView {
    pub key: Seq<char>,
    pub fields: Option<Seq<JsonFieldView>>,
}

impl View for JsonValue {
    type V = JsonValueView;

    open spec fn view(&self) -> JsonValueView {
        match self {
            JsonValue::Text(t) => JsonValueView::Text(t@),
            JsonValue::List(list) => JsonValueView::List(
                list@.map_values(|t: Option<String>| text::optional(t)),
            ),
            JsonValue::Other => JsonValueView::Other,
        }
    }
}

impl View for JsonField {
    type V = JsonFieldView;

    open spec fn view(&self) -> JsonFieldView {
        JsonFieldView { key: self.key@, value: self.value@ }
    }
}

impl View for JsonSection {
    type V = JsonSectionView;

    open spec fn view(&self) -> JsonSectionView {
        JsonSectionView {
            key: self.key@,
            fields: match self.fields {
                Some(fields) => Some(fields@.map_values(|f: JsonField| f@)),
                None => None,
            },
        }
    }
}

/// The sections of a JSON document: there are none where the document is no object.
pub open spec fn section_views(document: Option<Vec<JsonSection>>) -> Option<
    Seq<JsonSectionView>,
> {
    match document {
        Some(sections) => Some(sections@.map_values(|s: JsonSection| s@)),
        None => None,
    }
}

/// The JSON document that a text spells, by its sections; nothing when the text cannot be
/// read as one.
pub uninterp spec fn json_document(text: Seq<char>) -> Option<Option<Seq<JsonSectionView>>>;

/// `serde_json::from_str` into a `serde_json::Value`: the document that the text spells,
/// with what is nested deeper than a value of a section left out. It is a matter of the text
/// alone. An error means that the text is no JSON, or that it nests too deep or holds a
/// number out of range.
#[verifier::external_body]
fn read_document(text: &str) -> (r: Result<Option<Vec<JsonSection>>, serde_json::Error>)
    ensures
        match r {
            Ok(document) => json_document(text@) == Some(section_views(document)),
            Err(_) => json_document(text@) is None,
        },
{
    let value = |v: Value| match v {
        Value::String(s) => JsonValue::Text(s),
        Value::Array(a) => JsonValue::List(a.iter().map(|x| x.as_str().map(String::from)).collect()),
        _ => JsonValue::Other,
    };
    let fields = |v: Value| match v {
        Value::Object(o) => Some(o.into_iter().map(
            |(key, v)| JsonField { key, value: value(v) }).collect()),
        _ => None,
    };
    Ok(match serde_json::from_str(text)? {
        Value::Object(o) => Some(o.into_iter().map(
            |(key, v)| JsonSection { key, fields: fields(v) }).collect()),
        _ => None,
    })
}

/// The fields of the section under a key: none where there is no such section.
pub open spec fn fields_under(
    document: Option<Seq<JsonSectionView>>,
    key: Seq<char>,
) -> Seq<JsonFieldView> {
    match document {
        Some(sections) => first_fields(sections, key),
        None => seq![],
    }
}

/// The fields of the first section under a key: none where there is no such section.
pub open spec fn first_fields(sections: Seq<JsonSectionView>, key: Seq<char>) -> Seq<JsonFieldView>
    decreases sections.len(),
{
    if sections.len() == 0 {
        seq![]
    } else if sections[0].key == key {
        match sections[0].fields {
            Some(fields) => fields,
            None => seq![],
        }
    } else {
        first_fields(sections.skip(1), key)
    }
}

/// The value of the first field under a key.
pub open spec fn value_under(fields: Seq<JsonFieldView>, key: Seq<char>) -> JsonValueView
    decreases fields.len(),
{
    if fields.len() == 0 {
        JsonValueView::Other
    } else if fields[0].key == key {
        fields[0].value
    } else {
        value_under(fields.skip(1), key)
    }
}

/// The list and the text that stand under two keys of a section: each is missing where there
/// is no such key, or where something else stands there.
pub open spec fn members_under(
    document: Option<Seq<JsonSectionView>>,
    section: Seq<char>,
    list: Seq<char>,
    text: Seq<char>,
) -> MembersView {
    let fields = fields_under(document, section);
    MembersView {
        list: match value_under(fields, list) {
            JsonValueView::List(items) => Some(items),
            _ => None,
        },
        text: match value_under(fields, text) {
            JsonValueView::Text(t) => Some(t),
            _ => None,
        },
    }
}

fn copy_list(list: &Vec<Option<String>>) -> (r: Vec<Option<String>>)
    ensures
        r@.map_values(|t: Option<String>| text::optional(t)) == list@.map_values(
            |t: Option<String>| text::optional(t),
        ),
{
    let mut r: Vec<Option<String>> = Vec::new();
    let mut i: usize = 0;
    while i < list.len()
        invariant
            i <= list@.len(),
            r@.len() == i,
            forall|j: int|
                0 <= j < i ==> text::optional(#[trigger] r@[j]) == text::optional(list@[j]),
        decreases list@.len() - i,
    {
        r.push(
            match &list[i] {
                Some(t) => Some(t.clone()),
                None => None,
            },
        );
        i = i + 1;
    }
    assert(r@.map_values(|t: Option<String>| text::optional(t)) =~= list@.map_values(
        |t: Option<String>| text::optional(t),
    ));
    r
}

/// The field under a key, if there is one.
fn find_field<'a>(fields: &'a Vec<JsonField>, key: &str) -> (r: Option<&'a JsonValue>)
    ensures
        value_under(fields@.map_values(|f: JsonField| f@), key@) == match r {
            Some(value) => value@,
            None => JsonValueView::Other,
        },
{
    let ghost all = fields@.map_values(|f: JsonField| f@);
    let mut i: usize = 0;
    assert(all.skip(0) =~= all);
    while i < fields.len()
        invariant
            i <= fields@.len(),
            all == fields@.map_values(|f: JsonField| f@),
            value_under(all, key@) == value_under(all.skip(i as int), key@),
        decreases fields@.len() - i,
    {
        assert(all.skip(i as int)[0] == fields@[i as int]@);
        if same_text(fields[i].key.as_str(), key) {
            return Some(&fields[i].value);
        }
        assert(all.skip(i as int).skip(1) =~= all.skip(i + 1));
        i = i + 1;
    }
    None
}

/// The section under a key, if there is one and it is an object.
fn find_section<'a>(document: &'a Option<Vec<JsonSection>>, key: &str) -> (r: Option<
    &'a Vec<JsonField>,
>)
    ensures
        fields_under(section_views(*document), key@) == match r {
            Some(fields) => fields@.map_values(|f: JsonField| f@),
            None => seq![],
        },
{
    let sections = match document {
        Some(sections) => sections,
        None => {
            return None;
        },
    };
    let ghost all = sections@.map_values(|s: JsonSection| s@);
    let mut i: usize = 0;
    assert(all.skip(0) =~= all);
    while i < sections.len()
        invariant
            i <= sections@.len(),
            all == sections@.map_values(|s: JsonSection| s@),
            fields_under(section_views(*document), key@) == first_fields(all.skip(i as int), key@),
        decreases sections@.len() - i,
    {
        assert(all.skip(i as int)[0] == sections@[i as int]@);
        if same_text(sections[i].key.as_str(), key) {
            return match &sections[i].fields {
                Some(fields) => Some(fields),
                None => None,
            };
        }
        assert(all.skip(i as int).skip(1) =~= all.skip(i + 1));
        i = i + 1;
    }
    None
}

/// Reads the list and the text that stand under two keys of a section.
pub fn members_of(
    document: &Option<Vec<JsonSection>>,
    section: &str,
    list: &str,
    text: &str,
) -> (r: Members)
    ensures
        r@ == members_under(section_views(*document), section@, list@, text@),
{
    match find_section(document, section) {
        Some(fields) => {
            let list = match find_field(fields, list) {
                Some(JsonValue::List(items)) => Some(copy_list(items)),
                _ => None,
            };
            let text = match find_field(fields, text) {
                Some(JsonValue::Text(t)) => Some(t.clone()),
                _ => None,
            };
            Members { list, text }
        },
        None => Members { list: None, text: None },
    }
}

/// The texts among what may be texts.
pub open spec fn present(list: Seq<Option<Seq<char>>>) -> Seq<Seq<char>>
    decreases list.len(),
{
    if list.len() == 0 {
        seq![]
    } else {
        match list.last() {
            Some(t) => present(list.drop_last()).push(t),
            None => present(list.drop_last()),
        }
    }
}

/// The profiles that a browser last had open: those that it lists; where it lists none,
/// the one that it used last; where it names none, the one called `Default`.
pub open spec fn profiles(members: MembersView) -> Seq<Seq<char>> {
    let listed = match members.list {
        Some(list) => present(list),
        None => seq![],
    };
    if listed.len() > 0 {
        listed
    } else {
        match members.text {
            Some(last) => seq![last],
            None => seq!["Default"@],
        }
    }
}

/// The profiles that a browser last had open, from what it says of them.
pub fn profiles_from(members: Members) -> (r: Vec<String>)
    ensures
        text::texts(r@) == profiles(members@),
{
    let mut r: Vec<String> = Vec::new();
    if let Some(list) = members.list {
        let ghost all = list@.map_values(|t: Option<String>| text::optional(t));
        let mut i: usize = 0;
        assert(text::texts(r@) =~= present(all.take(0)));
        while i < list.len()
            invariant
                i <= list@.len(),
                all == list@.map_values(|t: Option<String>| text::optional(t)),
                text::texts(r@) == present(all.take(i as int)),
            decreases list@.len() - i,
        {
            assert(all.take(i + 1).drop_last() =~= all.take(i as int));
            let ghost before = r@;
            if let Some(t) = &list[i] {
                r.push(t.clone());
                assert(text::texts(r@) =~= text::texts(before).push(t@));
            }
            i = i + 1;
        }
        assert(all.take(all.len() as int) =~= all);
        if r.len() > 0 {
            return r;
        }
    }
    let only = match members.text {
        Some(last) => last,
        None => "Default".to_owned(),
    };
    let mut r: Vec<String> = Vec::new();
    r.push(only);
    assert(text::texts(r@) =~= profiles(members@));
    r
}

/// What a `Local State` document says of the profiles of a browser.
pub open spec fn profile_members(document: Option<Seq<JsonSectionView>>) -> MembersView {
    members_under(document, "profile"@, "last_active_profiles"@, "last_used"@)
}

/// The profiles of the last session of a browser, from its `Local State` document.
pub fn profiles_in(document: &Option<Vec<JsonSection>>) -> (r: Vec<String>)
    ensures
        text::texts(r@) == profiles(profile_members(section_views(*document))),
{
    profiles_from(members_of(document, "profile", "last_active_profiles", "last_used"))
}

/// The profiles of the last session of a browser, from the text of its `Local State` file.
/// There are none when the file cannot be read, or not as JSON.
pub fn active_profiles(local_state: Option<&str>) -> (r: Vec<String>)
    ensures
        text::texts(r@) == match local_state {
            None => seq![],
            Some(state) => match json_document(state@) {
                None => seq![],
                Some(document) => profiles(profile_members(document)),
            },
        },
{
    let none: Vec<String> = Vec::new();
    assert(text::texts(none@) =~= seq![]);
    match local_state {
        None => none,
        Some(state) => match read_document(state) {
            Ok(document) => profiles_in(&document),
            Err(_) => none,
        },
    }
}

/// Where the document is no object, or has no object under `profile`, the profile to open is
/// the one called `Default`.
pub proof fn no_section_means_the_default(document: Option<Seq<JsonSectionView>>)
    requires
        fields_under(document, "profile"@).len() == 0,
    ensures
        profiles(profile_members(document)) == seq!["Default"@],
{
}

/// A browser that says anything has at least one profile to open.
pub proof fn there_is_a_profile(members: MembersView)
    ensures
        profiles(members).len() > 0,
{
}

/// The texts of a list are those that occur in it.
proof fn present_members(list: Seq<Option<Seq<char>>>)
    ensures
        forall|t: Seq<char>| #[trigger] present(list).contains(t) <==> list.contains(Some(t)),
    decreases list.len(),
{
    if list.len() > 0 {
        let rest = list.drop_last();
        present_members(rest);
        assert(list =~= rest.push(list.last()));
        assert forall|t: Seq<char>| #[trigger] present(list).contains(t) <==> list.contains(
            Some(t),
        ) by {
            if present(list).contains(t) && list.last() != Some(t) {
                let i = present(list).index_of(t);
                assert(present(rest)[i] == t);
                assert(present(rest).contains(t));
                let j = rest.index_of(Some(t));
                assert(list[j] == Some(t));
            }
            if present(list).contains(t) && list.last() == Some(t) {
                assert(list[list.len() - 1] == Some(t));
            }
            if list.contains(Some(t)) {
                if list.last() == Some(t) {
                    assert(present(list)[present(rest).len() as int] == t);
                } else {
                    let j = list.index_of(Some(t));
                    assert(rest[j] == Some(t));
                    assert(present(rest).contains(t));
                    let i = present(rest).index_of(t);
                    assert(present(list)[i] == t);
                }
            }
        }
    }
}

/// Where a browser lists profiles, those that it lists are the ones to open, and no other.
/// Where it lists none, there is one to open.
pub proof fn listed_profiles_are_the_ones(members: MembersView, list: Seq<Option<Seq<char>>>)
    requires
        members.list == Some(list),
    ensures
        (exists|t: Seq<char>| #[trigger] list.contains(Some(t))) ==> forall|t: Seq<char>|
            #[trigger]
            profiles(members).contains(t) <==> list.contains(Some(t)),
        (forall|t: Seq<char>| !#[trigger] list.contains(Some(t))) ==> profiles(members).len() == 1,
{
    present_members(list);
    if exists|t: Seq<char>| #[trigger] list.contains(Some(t)) {
        let t = choose|t: Seq<char>| #[trigger] list.contains(Some(t));
        assert(present(list).contains(t));
    } else if present(list).len() > 0 {
        assert(present(list).contains(present(list)[0]));
    }
}

/// A launch that is planned, to be shown and to be run.
#[derive(Debug, Clone, PartialEq, Eq, PartialOrd, Ord)]
pub enum Launch {
    Desktop(FilePath),
    BrowserProfile { binary: String, profile: String },
    RawCommand(String),
}

/// A program to run, and its arguments.
#[derive(Debug)]
pub struct CommandLine {
    pub program: String,
    pub arguments: Vec<Vec<u8>>,
}

/// The model of `CommandLine`.
#[verifier::ext_equal]
pub struct CommandLineView {
    pub program: Seq<char>,
    pub arguments: Seq<Seq<u8>>,
}

impl View for CommandLine {
    type V = CommandLineView;

    open spec fn view(&self) -> CommandLineView {
        CommandLineView {
            program: self.program@,
            arguments: self.arguments@.map_values(|a: Vec<u8>| a@),
        }
    }
}

impl Launch {
    /// How a launch is shown.
    pub open spec fn description(self) -> Seq<char> {
        match self {
            Launch::Desktop(path) => "gio launch "@ + lossy_text(path@),
            Launch::BrowserProfile { binary, profile } => binary@ + " --profile-directory=\""@
                + profile@ + "\""@,
            Launch::RawCommand(command) => command@,
        }
    }

    /// What a launch runs.
    pub open spec fn command(self) -> CommandLineView {
        match self {
            Launch::Desktop(path) => CommandLineView {
                program: "gio"@,
                arguments: seq![utf8::encode_utf8("launch"@), path@],
            },
            Launch::BrowserProfile { binary, profile } => CommandLineView {
                program: binary@,
                arguments: seq![utf8::encode_utf8("--profile-directory="@ + profile@)],
            },
            Launch::RawCommand(command) => CommandLineView {
                program: command@,
                arguments: seq![],
            },
        }
    }

    /// Shows the launch.
    pub fn describe(&self) -> (r: String)
        ensures
            r@ == self.description(),
    {
        match self {
            Launch::Desktop(path) => {
                let shown = text_from_lossy(path.as_bytes().as_slice());
                "gio launch ".to_owned().concat(shown.as_str())
            },
            Launch::BrowserProfile { binary, profile } => {
                binary.clone().concat(" --profile-directory=\"").concat(profile.as_str()).concat(
                    "\"",
                )
            },
            Launch::RawCommand(command) => command.clone(),
        }
    }

    /// The program that the launch runs, and its arguments.
    pub fn command_line(&self) -> (r: CommandLine)
        ensures
            r@ == self.command(),
    {
        let r = match self {
            Launch::Desktop(path) => {
                let mut arguments: Vec<Vec<u8>> = Vec::new();
                arguments.push("launch".as_bytes_vec());
                arguments.push(path.as_bytes().clone());
                CommandLine { program: "gio".to_owned(), arguments }
            },
            Launch::BrowserProfile { binary, profile } => {
                let mut arguments: Vec<Vec<u8>> = Vec::new();
                let argument = "--profile-directory=".to_owned().concat(profile.as_str());
                arguments.push(argument.as_str().as_bytes_vec());
                CommandLine { program: binary.clone(), arguments }
            },
            Launch::RawCommand(command) => CommandLine {
                program: command.clone(),
                arguments: Vec::new(),
            },
        };
        assert(r@ =~~= self.command());
        r
    }
}

/// What is shown of a launch starts with the program that it runs, and a command is shown
/// as nothing else.
pub proof fn what_runs_is_shown(launch: Launch)
    ensures
        launch.command().program.is_prefix_of(launch.description()),
        launch is RawCommand ==> launch.description() == launch.command().program,
{
    reveal_strlit("gio");
    reveal_strlit("gio launch ");
}

} // verus!
