//! What holds of profiles and launches whatever the browser says and whatever is launched.

use crate::launch;
use crate::launch::{
    CommandLine, JsonField, JsonFieldView, JsonSection, JsonSectionView, JsonValue, JsonValueView,
    Launch, Members, MembersView,
};
use crate::text;
use vstd::prelude::*;
use vstd::utf8;

verus! {

/// The section under a key is found wherever it stands: what stands under other keys, before it or
/// behind it, does not matter. Where no section has the key, or the document is no object, there
/// are no fields.
pub proof fn a_section_is_found_wherever_it_stands(
    sections: Seq<JsonSectionView>,
    key: Seq<char>,
    i: int,
)
    requires
        0 <= i <= sections.len(),
        i < sections.len() ==> sections[i].key == key,
        forall|j: int| 0 <= j < i ==> (#[trigger] sections[j]).key != key,
    ensures
        launch::fields_under(Some(sections), key) == if i < sections.len() {
            match sections[i].fields {
                Some(fields) => fields,
                None => seq![],
            }
        } else {
            seq![]
        },
        launch::fields_under(None, key) == Seq::<JsonFieldView>::empty(),
    decreases i,
{
    if i > 0 {
        assert(sections[0].key != key);
        let rest = sections.skip(1);
        assert forall|j: int| 0 <= j < i - 1 implies (#[trigger] rest[j]).key != key by {
            assert(rest[j] == sections[j + 1]);
        }
        a_section_is_found_wherever_it_stands(rest, key, i - 1);
    }
}

/// The value under a key is found wherever it stands. Where no field has the key, nothing stands
/// under it.
pub proof fn a_field_is_found_wherever_it_stands(
    fields: Seq<JsonFieldView>,
    key: Seq<char>,
    i: int,
)
    requires
        0 <= i <= fields.len(),
        i < fields.len() ==> fields[i].key == key,
        forall|j: int| 0 <= j < i ==> (#[trigger] fields[j]).key != key,
    ensures
        launch::value_under(fields, key) == if i < fields.len() {
            fields[i].value
        } else {
            JsonValueView::Other
        },
    decreases i,
{
    if i > 0 {
        assert(fields[0].key != key);
        let rest = fields.skip(1);
        assert forall|j: int| 0 <= j < i - 1 implies (#[trigger] rest[j]).key != key by {
            assert(rest[j] == fields[j + 1]);
        }
        a_field_is_found_wherever_it_stands(rest, key, i - 1);
    }
}

/// Whether a place of a list is that of the first field under a key, or the end of the list where
/// no field has the key.
pub open spec fn stands_at(fields: Seq<JsonFieldView>, key: Seq<char>, i: int) -> bool {
    &&& 0 <= i <= fields.len()
    &&& i < fields.len() ==> fields[i].key == key
    &&& forall|j: int| 0 <= j < i ==> (#[trigger] fields[j]).key != key
}

/// The list and the text that are read are those under their keys in the section: what stands there
/// counts if it is a list, or a text, and nothing else in the document matters.
pub proof fn members_are_read_under_their_keys(
    sections: Seq<JsonSectionView>,
    i: int,
    fields: Seq<JsonFieldView>,
    j: int,
    k: int,
    section: Seq<char>,
    list: Seq<char>,
    text: Seq<char>,
)
    requires
        0 <= i < sections.len(),
        sections[i].key == section,
        forall|n: int| 0 <= n < i ==> (#[trigger] sections[n]).key != section,
        sections[i].fields == Some(fields),
        stands_at(fields, list, j),
        stands_at(fields, text, k),
    ensures
        ({
            let members = launch::members_under(Some(sections), section, list, text);
            &&& members.list == if j < fields.len() && fields[j].value is List {
                Some(fields[j].value->List_0)
            } else {
                None
            }
            &&& members.text == if k < fields.len() && fields[k].value is Text {
                Some(fields[k].value->Text_0)
            } else {
                None
            }
        }),
{
    a_section_is_found_wherever_it_stands(sections, section, i);
    a_field_is_found_wherever_it_stands(fields, list, j);
    a_field_is_found_wherever_it_stands(fields, text, k);
}

/// Where there is no such section, or the document is no object, neither a list nor a text is read.
pub proof fn no_section_means_no_members(
    sections: Seq<JsonSectionView>,
    i: int,
    section: Seq<char>,
    list: Seq<char>,
    text: Seq<char>,
)
    requires
        0 <= i <= sections.len(),
        i < sections.len() ==> sections[i].key == section && sections[i].fields is None,
        forall|n: int| 0 <= n < i ==> (#[trigger] sections[n]).key != section,
    ensures
        launch::members_under(Some(sections), section, list, text) == (MembersView {
            list: None,
            text: None,
        }),
        launch::members_under(None, section, list, text) == (MembersView { list: None, text: None }),
{
    a_section_is_found_wherever_it_stands(sections, section, i);
    a_field_is_found_wherever_it_stands(seq![], list, 0);
    a_field_is_found_wherever_it_stands(seq![], text, 0);
}

/// The profiles of a browser are those that its document lists under `profile` and
/// `last_active_profiles`, in their order and without what is no text; where it lists none, the one
/// under `profile` and `last_used`, if that is a text; where that is none either, the one called
/// `Default`. Nothing else in the document matters.
pub proof fn profiles_are_what_the_document_lists(
    sections: Seq<JsonSectionView>,
    i: int,
    fields: Seq<JsonFieldView>,
    j: int,
    k: int,
)
    requires
        0 <= i < sections.len(),
        sections[i].key == "profile"@,
        forall|n: int| 0 <= n < i ==> (#[trigger] sections[n]).key != "profile"@,
        sections[i].fields == Some(fields),
        stands_at(fields, "last_active_profiles"@, j),
        stands_at(fields, "last_used"@, k),
    ensures
        ({
            let listed = if j < fields.len() && fields[j].value is List {
                fields[j].value->List_0.filter(|t: Option<Seq<char>>| t is Some).map_values(
                    |t: Option<Seq<char>>| t->0,
                )
            } else {
                seq![]
            };
            launch::profiles(launch::profile_members(Some(sections))) == if listed.len() > 0 {
                listed
            } else if k < fields.len() && fields[k].value is Text {
                seq![fields[k].value->Text_0]
            } else {
                seq!["Default"@]
            }
        }),
{
    a_section_is_found_wherever_it_stands(sections, "profile"@, i);
    a_field_is_found_wherever_it_stands(fields, "last_active_profiles"@, j);
    a_field_is_found_wherever_it_stands(fields, "last_used"@, k);
    if j < fields.len() && fields[j].value is List {
        texts_keep_their_order(fields[j].value->List_0);
    }
}

/// Where a document is no object, or nothing in it is under `profile`, or what is there is no
/// object, the profile is the one called `Default`.
pub proof fn a_document_without_profiles_means_the_default(sections: Seq<JsonSectionView>, i: int)
    requires
        0 <= i <= sections.len(),
        i < sections.len() ==> sections[i].key == "profile"@ && sections[i].fields is None,
        forall|n: int| 0 <= n < i ==> (#[trigger] sections[n]).key != "profile"@,
    ensures
        launch::profiles(launch::profile_members(Some(sections))) == seq!["Default"@],
        launch::profiles(launch::profile_members(None)) == seq!["Default"@],
{
    a_section_is_found_wherever_it_stands(sections, "profile"@, i);
    a_field_is_found_wherever_it_stands(seq![], "last_active_profiles"@, 0);
    a_field_is_found_wherever_it_stands(seq![], "last_used"@, 0);
}

/// The texts of a list are its elements that are texts, in their order.
pub proof fn texts_keep_their_order(list: Seq<Option<Seq<char>>>)
    ensures
        launch::present(list) == list.filter(|t: Option<Seq<char>>| t is Some).map_values(
            |t: Option<Seq<char>>| t->0,
        ),
    decreases list.len(),
{
    reveal(Seq::filter);
    if list.len() > 0 {
        texts_keep_their_order(list.drop_last());
        let kept = list.filter(|t: Option<Seq<char>>| t is Some);
        let rest = list.drop_last().filter(|t: Option<Seq<char>>| t is Some);
        if list.last() is Some {
            assert(kept =~= rest.push(list.last()));
            assert(kept.map_values(|t: Option<Seq<char>>| t->0) =~= rest.map_values(
                |t: Option<Seq<char>>| t->0,
            ).push(list.last()->0));
        } else {
            assert(kept =~= rest);
        }
    } else {
        assert(list.filter(|t: Option<Seq<char>>| t is Some).map_values(
            |t: Option<Seq<char>>| t->0,
        ) =~= seq![]);
    }
}

/// What a browser says of its profiles decides alone: the texts that it lists; else the one that it
/// used last; else the one called `Default`.
pub proof fn what_is_listed_comes_first(members: MembersView)
    ensures
        ({
            let listed = match members.list {
                Some(list) => list.filter(|t: Option<Seq<char>>| t is Some).map_values(
                    |t: Option<Seq<char>>| t->0,
                ),
                None => seq![],
            };
            &&& listed.len() > 0 ==> launch::profiles(members) == listed
            &&& listed.len() == 0 && members.text is Some ==> launch::profiles(members)
                == seq![members.text->0]
            &&& listed.len() == 0 && members.text is None ==> launch::profiles(members)
                == seq!["Default"@]
        }),
{
    if members.list is Some {
        texts_keep_their_order(members.list->0);
    }
}

/// The models of values, fields and sections are what these hold.
pub proof fn json_models_are_the_values(
    value: JsonValue,
    field: JsonField,
    section: JsonSection,
    members: Members,
    document: Option<Vec<JsonSection>>,
)
    ensures
        match value {
            JsonValue::Text(t) => value@ == JsonValueView::Text(t@),
            JsonValue::List(list) => {
                &&& value@ is List
                &&& same_texts(list@, value@->List_0)
            },
            JsonValue::Other => value@ is Other,
        },
        field@.key == field.key@,
        field@.value == field.value@,
        section@.key == section.key@,
        section@.fields is Some <==> section.fields is Some,
        section.fields matches Some(fields) ==> {
            &&& section@.fields->0.len() == fields@.len()
            &&& forall|i: int|
                0 <= i < fields@.len() ==> #[trigger] section@.fields->0[i] == fields@[i]@
        },
        members@.list is Some <==> members.list is Some,
        members.list matches Some(list) ==> same_texts(list@, members@.list->0),
        members.text matches Some(t) ==> members@.text == Some(t@),
        members.text is None ==> members@.text is None,
        launch::section_views(document) is Some <==> document is Some,
        document matches Some(sections) ==> {
            &&& launch::section_views(document)->0.len() == sections@.len()
            &&& forall|i: int|
                0 <= i < sections@.len() ==> #[trigger] launch::section_views(document)->0[i]
                    == sections@[i]@
        },
{
}

/// Whether a list of texts that may be missing is the view of a list of strings that may be.
pub open spec fn same_texts(list: Seq<Option<String>>, texts: Seq<Option<Seq<char>>>) -> bool {
    &&& texts.len() == list.len()
    &&& forall|i: int|
        0 <= i < list.len() ==> match list[i] {
            Some(t) => #[trigger] texts[i] == Some(t@),
            None => texts[i] is None,
        }
}

/// The browsers that are known are these three. Each is run by the name that its windows have, and
/// keeps its settings in a directory of its own.
pub proof fn these_browsers_are_known(app_id: Seq<char>)
    ensures
        launch::browser(app_id) is Some <==> {
            ||| app_id == "google-chrome"@
            ||| app_id == "chromium"@
            ||| app_id == "brave-browser"@
        },
        launch::browser(app_id) matches Some((binary, config)) ==> {
            &&& binary == app_id
            &&& app_id == "google-chrome"@ ==> config == ".config/google-chrome"@
            &&& app_id == "chromium"@ ==> config == ".config/chromium"@
            &&& app_id == "brave-browser"@ ==> config == ".config/BraveSoftware/Brave-Browser"@
        },
{
    reveal_strlit("google-chrome");
    reveal_strlit("chromium");
    reveal_strlit("brave-browser");
    assert("google-chrome"@[0] == 'g');
    assert("chromium"@[0] == 'c');
    assert("brave-browser"@[0] == 'b');
}

/// Files are searched for in these five directories, two of them below the home directory, whatever
/// that is, in this order.
pub proof fn these_directories_are_searched(home: Seq<char>)
    ensures
        launch::application_paths(home).len() == 5,
        launch::application_paths(home)[0] == utf8::encode_utf8(home) + utf8::encode_utf8(
            "/.local/share/applications"@,
        ),
        launch::application_paths(home)[1] == utf8::encode_utf8("/usr/share/applications"@),
        launch::application_paths(home)[2] == utf8::encode_utf8("/usr/local/share/applications"@),
        launch::application_paths(home)[3] == utf8::encode_utf8(home) + utf8::encode_utf8(
            "/.local/share/flatpak/exports/share/applications"@,
        ),
        launch::application_paths(home)[4] == utf8::encode_utf8(
            "/var/lib/flatpak/exports/share/applications"@,
        ),
{
    encoding_goes_text_by_text(home, "/.local/share/applications"@);
    encoding_goes_text_by_text(home, "/.local/share/flatpak/exports/share/applications"@);
}

/// The bytes of two texts in a row are those of the first and then those of the second.
pub proof fn encoding_goes_text_by_text(a: Seq<char>, b: Seq<char>)
    ensures
        utf8::encode_utf8(a + b) == utf8::encode_utf8(a) + utf8::encode_utf8(b),
    decreases a.len(),
{
    if a.len() == 0 {
        assert(a + b =~= b);
        assert(utf8::encode_utf8(a) =~= seq![]);
        assert(utf8::encode_utf8(a) + utf8::encode_utf8(b) =~= utf8::encode_utf8(b));
    } else {
        encoding_goes_text_by_text(a.drop_first(), b);
        assert((a + b).drop_first() =~= a.drop_first() + b);
        assert(utf8::encode_utf8(a + b) =~= utf8::encode_utf8(a) + utf8::encode_utf8(b));
    }
}

/// A profile of a browser is opened by running the browser with one argument, which names the
/// profile; what is shown names the same browser and the same profile, between quotes.
pub proof fn a_profile_is_opened_by_its_name(binary: String, profile: String)
    ensures
        ({
            let launch = Launch::BrowserProfile { binary, profile };
            &&& launch.command().program == binary@
            &&& launch.command().arguments.len() == 1
            &&& launch.command().arguments[0] == utf8::encode_utf8("--profile-directory="@)
                + utf8::encode_utf8(profile@)
            &&& launch.description() == binary@ + " --profile-directory=\""@ + profile@ + "\""@
        }),
{
    encoding_goes_text_by_text("--profile-directory="@, profile@);
}

/// Launches of different profiles, or of different browsers, run different commands and are shown
/// differently if the browser is the same.
pub proof fn different_profiles_are_opened_differently(
    binary: String,
    profile: String,
    other_binary: String,
    other: String,
)
    ensures
        ({
            let one = Launch::BrowserProfile { binary, profile };
            let two = Launch::BrowserProfile { binary: other_binary, profile: other };
            &&& one.command() == two.command() ==> binary@ == other_binary@ && profile@ == other@
            &&& binary@ == other_binary@ && one.description() == two.description() ==> profile@
                == other@
        }),
{
    let one = Launch::BrowserProfile { binary, profile };
    let two = Launch::BrowserProfile { binary: other_binary, profile: other };
    if one.command() == two.command() {
        a_profile_is_opened_by_its_name(binary, profile);
        a_profile_is_opened_by_its_name(other_binary, other);
        let start = utf8::encode_utf8("--profile-directory="@);
        assert(one.command().arguments[0].skip(start.len() as int) =~= utf8::encode_utf8(profile@));
        assert(two.command().arguments[0].skip(start.len() as int) =~= utf8::encode_utf8(other@));
        utf8::encode_utf8_decode_utf8(profile@);
        utf8::encode_utf8_decode_utf8(other@);
    }
    if binary@ == other_binary@ && one.description() == two.description() {
        let start = binary@ + " --profile-directory=\""@;
        let a = one.description();
        let b = two.description();
        assert(a.subrange(start.len() as int, a.len() - "\""@.len()) =~= profile@);
        assert(b.subrange(start.len() as int, b.len() - "\""@.len()) =~= other@);
    }
}

/// A desktop entry file is launched by `gio` with two arguments, the second being the bytes of its
/// path as they are; a path that is text is shown as that text.
pub proof fn a_desktop_file_is_launched_by_its_path(path: crate::filepath::FilePath)
    ensures
        ({
            let launch = Launch::Desktop(path);
            &&& launch.command().program == "gio"@
            &&& launch.command().arguments.len() == 2
            &&& launch.command().arguments[0] == utf8::encode_utf8("launch"@)
            &&& launch.command().arguments[1] == path@
            &&& utf8::valid_utf8(path@) ==> launch.description() == "gio launch "@
                + utf8::decode_utf8(path@)
            &&& !utf8::valid_utf8(path@) ==> launch.description() == "gio launch "@
                + launch::mended_text(path@)
        }),
{
}

/// A command is run as a program without arguments, and is shown as it is.
pub proof fn a_command_is_run_as_it_is(command: String)
    ensures
        ({
            let launch = Launch::RawCommand(command);
            &&& launch.command().program == command@
            &&& launch.command().arguments.len() == 0
            &&& launch.description() == command@
        }),
{
}

/// The model of a command line is the program and its arguments, in their order.
pub proof fn command_models_are_the_commands(line: CommandLine)
    ensures
        line@.program == line.program@,
        line@.arguments.len() == line.arguments@.len(),
        forall|i: int|
            0 <= i < line.arguments@.len() ==> #[trigger] line@.arguments[i] == line.arguments@[i]@,
{
}

/// The view of a string that may be missing is there exactly where the string is.
pub proof fn optional_is_the_view(string: Option<String>)
    ensures
        match string {
            Some(s) => text::optional(string) == Some(s@),
            None => text::optional(string) is None,
        },
{
}

} // verus!
