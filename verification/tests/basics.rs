use cosmic_session::entry::{chars_of, eq_ignoring_ascii_case, line_assigns, text_has_entry};
use cosmic_session::event::lower;
use cosmic_session::model::{SessionSnapshot, WindowSnap, WorkspaceSnap};
use cosmic_session::order::{is_at_most, sort_places};
use cosmic_session::show::{
    write_bracketed, write_decimals, write_joined, write_numeral, write_signed,
};
use cosmic_session::sync::{next_step, SyncStep, CONNECT_WAIT_MS, DUMP_WAIT_MS};
use cosmic_session::table::Table;
use cosmic_session::text::{add_text, contains_text, copy_texts, remove_text, same_text};
use cosmic_session::words::{byte_order_from, decode_words, host_byte_order, ByteOrder};

fn list(items: &[&str]) -> Vec<String> {
    items.iter().map(|s| s.to_string()).collect()
}

#[test]
fn words_in_both_orders() {
    let bytes = vec![1, 2, 3, 4, 0, 0, 0, 5];
    assert_eq!(decode_words(ByteOrder::Little, &bytes), vec![0x0403_0201, 0x0500_0000]);
    assert_eq!(decode_words(ByteOrder::Big, &bytes), vec![0x0102_0304, 5]);
    let highest = vec![255, 255, 255, 255];
    assert_eq!(decode_words(ByteOrder::Little, &highest), vec![u32::MAX]);
    assert_eq!(decode_words(ByteOrder::Big, &highest), vec![u32::MAX]);
}

#[test]
fn leftover_bytes_are_dropped() {
    assert_eq!(decode_words(ByteOrder::Little, &vec![7, 0, 0, 0, 9, 9, 9]), vec![7]);
    assert!(decode_words(ByteOrder::Little, &vec![1, 2, 3]).is_empty());
    assert!(decode_words(ByteOrder::Big, &vec![]).is_empty());
}

#[test]
fn words_of_two_arrays_in_a_row() {
    let left = vec![1, 0, 0, 0];
    let right = vec![2, 0, 0, 0, 3];
    let both = [left.clone(), right.clone()].concat();
    let mut expected = decode_words(ByteOrder::Little, &left);
    expected.extend(decode_words(ByteOrder::Little, &right));
    assert_eq!(decode_words(ByteOrder::Little, &both), expected);
}

#[test]
fn host_order_reads_native_words() {
    let order = host_byte_order();
    for n in [0u32, 1, 0x0102_0304, u32::MAX] {
        assert_eq!(decode_words(order, &n.to_ne_bytes().to_vec()), vec![n]);
    }
    assert_eq!(byte_order_from(1), ByteOrder::Little);
    assert_eq!(byte_order_from(0x0100_0000), ByteOrder::Big);
}

#[test]
fn texts_in_lists() {
    assert!(same_text("a", "a"));
    assert!(!same_text("a", "A"));
    let mut l = list(&["a", "b", "a"]);
    assert!(contains_text(&l, &"b".to_string()));
    assert!(!contains_text(&l, &"c".to_string()));
    add_text(&mut l, "b".to_string());
    assert_eq!(l, list(&["a", "b", "a"]));
    add_text(&mut l, "c".to_string());
    assert_eq!(l, list(&["a", "b", "a", "c"]));
    assert_eq!(copy_texts(&l), l);
    remove_text(&mut l, &"a".to_string());
    assert_eq!(l, list(&["b", "c"]));
    remove_text(&mut l, &"z".to_string());
    assert_eq!(l, list(&["b", "c"]));
}

#[test]
fn a_table_keeps_the_order_of_its_keys() {
    let mut t: Table<u32> = Table::new();
    t.insert("x".to_string(), 1);
    t.insert("y".to_string(), 2);
    t.insert("z".to_string(), 3);
    t.insert("x".to_string(), 4);
    assert_eq!(t.len(), 3);
    assert_eq!(t.key_at(0), "x");
    assert_eq!(*t.value_at(0), 4);
    assert_eq!(t.get(&"y".to_string()), Some(&2));
    assert_eq!(t.get(&"w".to_string()), None);
    if let Some(v) = t.get_mut(&"z".to_string()) {
        *v = 30;
    }
    assert_eq!(*t.value_at(2), 30);
    t.remove(&"y".to_string());
    t.remove(&"w".to_string());
    assert_eq!(t.len(), 2);
    assert_eq!(t.key_at(1), "z");
    let copy = t.clone();
    assert_eq!(copy.get(&"x".to_string()), Some(&4));
    let empty: Table<u32> = Table::default();
    assert_eq!(empty.len(), 0);
}

#[test]
fn a_table_is_shown_as_a_map() {
    let mut t: Table<(i32, u32)> = Table::new();
    let mut m = std::collections::BTreeMap::new();
    assert_eq!(format!("{:?}", t), format!("{:?}", m));
    for (i, key) in ["a", "b\"", "ñ"].iter().enumerate() {
        t.insert(key.to_string(), (-1, i as u32));
        m.insert(key.to_string(), (-1, i as u32));
    }
    assert_eq!(format!("{:?}", t), format!("{:?}", m));
    assert_eq!(format!("{:#?}", t), format!("{:#?}", m));
}

#[test]
fn numbers_are_written() {
    assert_eq!(write_numeral(0, 10), "0");
    assert_eq!(write_numeral(4294967295, 10), "4294967295");
    assert_eq!(write_numeral(0xdead_beef, 16), "deadbeef");
    assert_eq!(write_numeral(10, 2), "1010");
    assert_eq!(write_signed(-7), "-7");
    assert_eq!(write_signed(0), "0");
    assert_eq!(write_signed(i32::MIN), "-2147483648");
    assert_eq!(write_signed(i32::MAX), "2147483647");
}

#[test]
fn numbers_are_written_as_the_formatter_writes_them() {
    for n in [0u32, 9, 10, 15, 16, 255, 256, 1000, 123456789, u32::MAX] {
        assert_eq!(write_numeral(n, 10), format!("{}", n));
        assert_eq!(write_numeral(n, 16), format!("{:x}", n));
        let v = vec![n, 1, n];
        assert_eq!(write_bracketed(&write_decimals(&v)), format!("{:?}", v));
    }
}

#[test]
fn lists_are_written() {
    assert_eq!(write_joined(&list(&["a", "b", "c"]), "-"), "a-b-c");
    assert_eq!(write_joined(&list(&[]), "-"), "");
    assert_eq!(write_bracketed(&list(&["a", "b"])), "[a, b]");
    assert_eq!(write_bracketed(&list(&[])), "[]");
}

#[test]
fn lists_of_numbers_are_ordered() {
    assert!(is_at_most(&vec![], &vec![0]));
    assert!(!is_at_most(&vec![0], &vec![]));
    assert!(is_at_most(&vec![1, 2], &vec![1, 2]));
    assert!(is_at_most(&vec![1, 2], &vec![1, 2, 0]));
    assert!(!is_at_most(&vec![2], &vec![1, 9]));
}

#[test]
fn sorting_keeps_equals_in_place() {
    let keys = vec![vec![2], vec![1, 5], vec![], vec![1, 5], vec![1]];
    assert_eq!(sort_places(&keys), vec![2, 4, 1, 3, 0]);
    let mut std_order: Vec<usize> = (0..keys.len()).collect();
    std_order.sort_by_key(|i| keys[*i].clone());
    assert_eq!(sort_places(&keys), std_order);
    assert!(sort_places(&vec![]).is_empty());
}

#[test]
fn the_lower_number() {
    assert_eq!(lower(3, 4), 3);
    assert_eq!(lower(4, 3), 3);
    assert_eq!(lower(4, 4), 4);
}

#[test]
fn steps_to_be_in_sync() {
    assert_eq!(CONNECT_WAIT_MS, 800);
    assert_eq!(DUMP_WAIT_MS, 500);
    assert_eq!(next_step(SyncStep::Globals, 0, 800, false), SyncStep::Objects);
    assert_eq!(next_step(SyncStep::Objects, 0, 800, true), SyncStep::Extensions);
    assert_eq!(next_step(SyncStep::Extensions, 0, 800, false), SyncStep::Replies);
    assert_eq!(next_step(SyncStep::Extensions, 0, 800, true), SyncStep::Ready);
    assert_eq!(next_step(SyncStep::Replies, 799, 800, false), SyncStep::Replies);
    assert_eq!(next_step(SyncStep::Replies, 800, 800, false), SyncStep::Ready);
    assert_eq!(next_step(SyncStep::Replies, 10, 800, true), SyncStep::Ready);
    assert_eq!(next_step(SyncStep::Ready, 0, 800, false), SyncStep::Ready);
}

#[test]
fn entries_of_desktop_files() {
    let text = "[Desktop Entry]\r\nName = Files \nStartupWMClass=\torg.gnome.Nautilus\nNamed=no";
    assert!(text_has_entry(text, "Name", "files"));
    assert!(text_has_entry(text, "StartupWMClass", "ORG.gnome.nautilus"));
    assert!(!text_has_entry(text, "Name", "no"));
    assert!(!text_has_entry(text, "Name", "Fil"));
    assert!(!text_has_entry("", "Name", ""));
    assert!(text_has_entry("Name=", "Name", ""));
    assert!(!text_has_entry(" Name=a", "Name", "a"));
    assert!(text_has_entry("Name=x=y", "Name", "X=Y"));
}

#[test]
fn white_space_is_trimmed_and_letters_are_folded() {
    // no-break space and ideographic space are white space, a zero width space is not
    assert!(text_has_entry("Name\u{a0}=\u{3000}a\u{2003}", "Name", "a"));
    assert!(!text_has_entry("Name=\u{200b}a", "Name", "a"));
    // only ASCII letters are folded
    assert!(!text_has_entry("Name=É", "Name", "é"));
    assert!(text_has_entry("Name=É", "Name", "É"));
    assert!(eq_ignoring_ascii_case(&['A', '1'], &['a', '1']));
    assert!(!eq_ignoring_ascii_case(&['A'], &['a', 'b']));
    assert_eq!(chars_of("añ"), vec!['a', 'ñ']);
    assert!(line_assigns(&chars_of("k =v"), &chars_of("k"), &chars_of("V")));
    assert!(!line_assigns(&chars_of("k v"), &chars_of("k"), &chars_of("v")));
}

#[test]
fn lines_end_as_std_ends_them() {
    // only the return before a line feed goes with it
    assert!(text_has_entry("a\r\nName=b\r\nc", "Name", "b"));
    assert!(text_has_entry("Name=b\r", "Name", "b"));
    assert!(!text_has_entry("a\rName=b", "Name", "b"));
}

#[test]
fn snapshots_start_empty() {
    let s = SessionSnapshot::default();
    assert_eq!(s.saved_at_epoch, 0);
    assert!(s.workspaces.is_empty());
    assert!(s.windows.is_empty());
    assert!(s.browser_profiles.is_empty());
    let w = WorkspaceSnap::default();
    assert_eq!(w.name, "");
    assert_eq!(w.tiling, None);
    assert!(!w.active && !w.pinned);
    assert!(w.coordinates.is_empty() && w.output.is_none());
    let v = WindowSnap::default();
    assert_eq!(v.app_id, "");
    assert_eq!(v.geometry, None);
    assert!(!v.maximized && !v.minimized && !v.fullscreen && !v.sticky);
    assert!(v.title.is_empty() && v.workspace.is_none() && v.output.is_none());
}
