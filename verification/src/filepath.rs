//! Paths of files.

use crate::show;
use crate::show::{hand_to, write_quoted};
use std::cmp::Ordering;
use std::fmt;
use vstd::prelude::*;
use vstd::utf8;

verus! {

/// The byte that separates the parts of a path.
pub const SEPARATOR: u8 = 47;

/// The byte of which the names `.` and `..` are made.
pub const DOT: u8 = 46;

/// The path of a file: the bytes of its name, which need not be text. Paths are compared
/// by their components, not by their spelling.
pub struct FilePath {
    bytes: Vec<u8>,
    components: Vec<Vec<u8>>,
}

impl View for FilePath {
    type V = Seq<u8>;

    closed spec fn view(&self) -> Seq<u8> {
        self.bytes@
    }
}

/// The views of lists of bytes.
pub open spec fn byte_views(list: Seq<Vec<u8>>) -> Seq<Seq<u8>> {
    list.map_values(|b: Vec<u8>| b@)
}

/// What stands before, between and behind the separators of a path.
pub open spec fn pieces(path: Seq<u8>) -> Seq<Seq<u8>>
    decreases path.len(),
{
    if path.len() == 0 {
        seq![seq![]]
    } else {
        let rest = pieces(path.drop_last());
        if path.last() == SEPARATOR {
            rest.push(seq![])
        } else {
            rest.drop_last().push(rest.last().push(path.last()))
        }
    }
}

/// The component that a piece of a path is, if it is one: an empty piece is none, and `.` is
/// one at the start of a path alone. The first byte of a component tells what it is, in the
/// order in which components come: 0 the root, 1 the directory itself, 2 the one above it,
/// 3 a name, which follows.
pub open spec fn component(piece: Seq<u8>, first: bool) -> Seq<Seq<u8>> {
    if piece.len() == 0 {
        seq![]
    } else if piece == seq![DOT] {
        if first {
            seq![seq![1u8]]
        } else {
            seq![]
        }
    } else if piece == seq![DOT, DOT] {
        seq![seq![2u8]]
    } else {
        seq![seq![3u8] + piece]
    }
}

/// The components that pieces of a path are.
pub open spec fn relative_components(pieces: Seq<Seq<u8>>) -> Seq<Seq<u8>>
    decreases pieces.len(),
{
    if pieces.len() == 0 {
        seq![]
    } else {
        relative_components(pieces.drop_last()) + component(pieces.last(), pieces.len() == 1)
    }
}

/// The components of a path: the root, if the path starts with a separator, and those that
/// its pieces are.
pub open spec fn components(path: Seq<u8>) -> Seq<Seq<u8>> {
    let root: Seq<Seq<u8>> = if path.len() > 0 && path[0] == SEPARATOR {
        seq![seq![0u8]]
    } else {
        seq![]
    };
    root + relative_components(pieces(path))
}

/// The order of two lists of bytes: that of the first bytes that differ, or else the shorter
/// list comes first.
pub open spec fn byte_order(a: Seq<u8>, b: Seq<u8>) -> Ordering
    decreases a.len(),
{
    if a.len() == 0 && b.len() == 0 {
        Ordering::Equal
    } else if a.len() == 0 {
        Ordering::Less
    } else if b.len() == 0 {
        Ordering::Greater
    } else if a[0] < b[0] {
        Ordering::Less
    } else if a[0] > b[0] {
        Ordering::Greater
    } else {
        byte_order(a.skip(1), b.skip(1))
    }
}

/// The order of two lists of components: that of the first components that differ, or else
/// the shorter list comes first.
pub open spec fn component_order(a: Seq<Seq<u8>>, b: Seq<Seq<u8>>) -> Ordering
    decreases a.len(),
{
    if a.len() == 0 && b.len() == 0 {
        Ordering::Equal
    } else if a.len() == 0 {
        Ordering::Less
    } else if b.len() == 0 {
        Ordering::Greater
    } else if byte_order(a[0], b[0]) != Ordering::Equal {
        byte_order(a[0], b[0])
    } else {
        component_order(a.skip(1), b.skip(1))
    }
}

/// Lists of bytes that come neither before nor behind each other are the same.
proof fn equal_bytes_are_the_same(a: Seq<u8>, b: Seq<u8>)
    ensures
        byte_order(a, b) == Ordering::Equal <==> a == b,
    decreases a.len(),
{
    if a.len() > 0 && b.len() > 0 {
        equal_bytes_are_the_same(a.skip(1), b.skip(1));
        assert(a =~= seq![a[0]] + a.skip(1));
        assert(b =~= seq![b[0]] + b.skip(1));
    } else if a.len() == 0 && b.len() == 0 {
        assert(a =~= b);
    }
}

/// Lists of components that come neither before nor behind each other are the same: paths
/// are equal exactly where none comes first.
pub proof fn equal_components_are_the_same(a: Seq<Seq<u8>>, b: Seq<Seq<u8>>)
    ensures
        component_order(a, b) == Ordering::Equal <==> a == b,
    decreases a.len(),
{
    if a.len() > 0 && b.len() > 0 {
        equal_bytes_are_the_same(a[0], b[0]);
        equal_components_are_the_same(a.skip(1), b.skip(1));
        assert(a =~= seq![a[0]] + a.skip(1));
        assert(b =~= seq![b[0]] + b.skip(1));
    } else if a.len() == 0 && b.len() == 0 {
        assert(a =~= b);
    }
}

/// A separator at the end of a path that is not empty changes none of its components, nor
/// does a `.` behind it.
pub proof fn spelling_of_the_end_does_not_matter(path: Seq<u8>)
    requires
        path.len() > 0,
    ensures
        components(path.push(SEPARATOR)) == components(path),
        components(path.push(SEPARATOR).push(DOT)) == components(path),
{
    let one = path.push(SEPARATOR);
    let two = one.push(DOT);
    assert(one.drop_last() =~= path);
    assert(two.drop_last() =~= one);
    assert(pieces(one).drop_last() =~= pieces(path));
    pieces_are_there(path);
    assert(pieces(two).last() =~= seq![DOT]);
    assert(pieces(two).drop_last() =~= pieces(path));
    assert(relative_components(pieces(one)) =~= relative_components(pieces(path)));
    assert(relative_components(pieces(two)) =~= relative_components(pieces(path)));
}

proof fn pieces_are_there(path: Seq<u8>)
    ensures
        pieces(path).len() > 0,
    decreases path.len(),
{
    if path.len() > 0 {
        pieces_are_there(path.drop_last());
    }
}

/// What is left of a list from a place on.
spec fn rest_of<T>(list: Seq<T>, place: usize) -> Seq<T> {
    list.skip(place as int)
}

/// The order of two lists of bytes.
fn compare_bytes(a: &[u8], b: &[u8]) -> (r: Ordering)
    ensures
        r == byte_order(a@, b@),
{
    let mut i: usize = 0;
    assert(rest_of(a@, 0) =~= a@);
    assert(rest_of(b@, 0) =~= b@);
    while i < a.len() && i < b.len()
        invariant
            i <= a@.len(),
            i <= b@.len(),
            byte_order(a@, b@) == byte_order(rest_of(a@, i), rest_of(b@, i)),
        decreases a@.len() - i,
    {
        if a[i] < b[i] {
            return Ordering::Less;
        }
        if a[i] > b[i] {
            return Ordering::Greater;
        }
        let next: usize = i + 1;
        assert(rest_of(a@, i).skip(1) =~= rest_of(a@, next));
        assert(rest_of(b@, i).skip(1) =~= rest_of(b@, next));
        i = next;
    }
    if i < b.len() {
        Ordering::Less
    } else if i < a.len() {
        Ordering::Greater
    } else {
        Ordering::Equal
    }
}

/// The order of two lists of components.
fn compare_components(a: &Vec<Vec<u8>>, b: &Vec<Vec<u8>>) -> (r: Ordering)
    ensures
        r == component_order(byte_views(a@), byte_views(b@)),
{
    let ghost one = byte_views(a@);
    let ghost two = byte_views(b@);
    let mut i: usize = 0;
    assert(rest_of(one, 0) =~= one);
    assert(rest_of(two, 0) =~= two);
    while i < a.len() && i < b.len()
        invariant
            i <= a@.len(),
            i <= b@.len(),
            one == byte_views(a@),
            two == byte_views(b@),
            component_order(one, two) == component_order(rest_of(one, i), rest_of(two, i)),
        decreases a@.len() - i,
    {
        match compare_bytes(a[i].as_slice(), b[i].as_slice()) {
            Ordering::Less => {
                return Ordering::Less;
            },
            Ordering::Greater => {
                return Ordering::Greater;
            },
            Ordering::Equal => {},
        }
        let next: usize = i + 1;
        assert(rest_of(one, i).skip(1) =~= rest_of(one, next));
        assert(rest_of(two, i).skip(1) =~= rest_of(two, next));
        i = next;
    }
    if i < b.len() {
        Ordering::Less
    } else if i < a.len() {
        Ordering::Greater
    } else {
        Ordering::Equal
    }
}

fn add_component(list: &mut Vec<Vec<u8>>, piece: Vec<u8>, first: bool)
    ensures
        byte_views(final(list)@) == byte_views(old(list)@) + component(piece@, first),
{
    let mut tagged: Vec<u8> = Vec::new();
    if piece.len() == 0 {
        assert(byte_views(list@) =~= byte_views(old(list)@) + component(piece@, first));
        return ;
    } else if piece.len() == 1 && piece[0] == DOT {
        assert(piece@ =~= seq![DOT]);
        if !first {
            assert(byte_views(list@) =~= byte_views(old(list)@) + component(piece@, first));
            return ;
        }
        tagged.push(1);
        assert(tagged@ =~= seq![1u8]);
    } else if piece.len() == 2 && piece[0] == DOT && piece[1] == DOT {
        assert(piece@ =~= seq![DOT, DOT]);
        tagged.push(2);
        assert(tagged@ =~= seq![2u8]);
    } else {
        tagged.push(3);
        tagged.extend_from_slice(piece.as_slice());
        assert(tagged@ =~= seq![3u8] + piece@);
    }
    list.push(tagged);
    assert(byte_views(list@) =~= byte_views(old(list)@) + component(piece@, first));
}

fn components_of(bytes: &Vec<u8>) -> (r: Vec<Vec<u8>>)
    ensures
        byte_views(r@) == components(bytes@),
{
    let mut r: Vec<Vec<u8>> = Vec::new();
    if bytes.len() > 0 && bytes[0] == SEPARATOR {
        let mut root: Vec<u8> = Vec::new();
        root.push(0);
        assert(root@ =~= seq![0u8]);
        r.push(root);
    }
    let ghost root = byte_views(r@);
    let ghost mut done: Seq<Seq<u8>> = seq![];
    let mut first = true;
    let mut piece: Vec<u8> = Vec::new();
    let mut i: usize = 0;
    assert(pieces(bytes@.take(0)) =~= done.push(piece@));
    while i < bytes.len()
        invariant
            i <= bytes@.len(),
            pieces(bytes@.take(i as int)) == done.push(piece@),
            byte_views(r@) == root + relative_components(done),
            first == (done.len() == 0),
        decreases bytes@.len() - i,
    {
        assert(bytes@.take(i + 1).drop_last() =~= bytes@.take(i as int));
        assert(done.push(piece@).drop_last() =~= done);
        if bytes[i] == SEPARATOR {
            proof {
                done = done.push(piece@);
            }
            add_component(&mut r, piece, first);
            piece = Vec::new();
            first = false;
            assert(piece@ =~= seq![]);
        } else {
            piece.push(bytes[i]);
        }
        i = i + 1;
    }
    assert(bytes@.take(i as int) =~= bytes@);
    assert(done.push(piece@).drop_last() =~= done);
    add_component(&mut r, piece, first);
    assert(byte_views(r@) =~= components(bytes@));
    r
}

/// Whether two lists of bytes are the same.
pub fn same_bytes(a: &[u8], b: &[u8]) -> (r: bool)
    ensures
        r == (a@ == b@),
{
    if a.len() != b.len() {
        return false;
    }
    let mut i: usize = 0;
    while i < a.len()
        invariant
            i <= a@.len(),
            a@.len() == b@.len(),
            forall|j: int| 0 <= j < i ==> a@[j] == b@[j],
        decreases a@.len() - i,
    {
        if a[i] != b[i] {
            return false;
        }
        i = i + 1;
    }
    assert(a@ =~= b@);
    true
}

impl FilePath {
    #[verifier::type_invariant]
    closed spec fn inv(self) -> bool {
        byte_views(self.components@) == components(self.bytes@)
    }

    /// The path of these bytes.
    pub fn new(bytes: Vec<u8>) -> (r: FilePath)
        ensures
            r@ == bytes@,
    {
        let components = components_of(&bytes);
        FilePath { bytes, components }
    }

    /// The bytes of the path.
    pub fn as_bytes(&self) -> (r: &Vec<u8>)
        ensures
            r@ == self@,
    {
        &self.bytes
    }
}

/// The runs of bytes that are UTF-8, as texts, each with the bytes behind it that are not.
pub uninterp spec fn utf8_runs(bytes: Seq<u8>) -> Seq<(Seq<char>, Seq<u8>)>;

/// The views of runs.
pub open spec fn run_views(list: Seq<(String, Vec<u8>)>) -> Seq<(Seq<char>, Seq<u8>)> {
    list.map_values(|run: (String, Vec<u8>)| (run.0@, run.1@))
}

/// `<[u8]>::utf8_chunks`: the ranges of the bytes that are UTF-8 and the fragments between
/// them that are not. They are a matter of the bytes alone.
#[verifier::external_body]
fn runs_of(bytes: &[u8]) -> (r: Vec<(String, Vec<u8>)>)
    ensures
        run_views(r@) == utf8_runs(bytes@),
{
    bytes.utf8_chunks().map(|c| (c.valid().to_owned(), c.invalid().to_vec())).collect()
}

/// A hexadecimal digit in upper case.
pub open spec fn upper_digit(d: int) -> Seq<char>
    recommends
        0 <= d < 16,
{
    if d < 10 {
        show::digit(d)
    } else if d == 10 {
        "A"@
    } else if d == 11 {
        "B"@
    } else if d == 12 {
        "C"@
    } else if d == 13 {
        "D"@
    } else if d == 14 {
        "E"@
    } else {
        "F"@
    }
}

/// How bytes that are no text are written.
pub open spec fn escaped(bytes: Seq<u8>) -> Seq<char>
    decreases bytes.len(),
{
    if bytes.len() == 0 {
        seq![]
    } else {
        escaped(bytes.drop_last()) + "\\x"@ + upper_digit(bytes.last() as int / 16) + upper_digit(
            bytes.last() as int % 16,
        )
    }
}

/// What stands between the quotes when a text is quoted.
pub open spec fn inside_quotes(text: Seq<char>) -> Seq<char> {
    show::quoted(text).subrange(1, show::quoted(text).len() - 1)
}

/// How runs of bytes are written: texts as between quotes, other bytes as numbers.
pub open spec fn written_runs(runs: Seq<(Seq<char>, Seq<u8>)>) -> Seq<char>
    decreases runs.len(),
{
    if runs.len() == 0 {
        seq![]
    } else {
        written_runs(runs.drop_last()) + inside_quotes(runs.last().0) + escaped(runs.last().1)
    }
}

/// How a path is written for inspection.
pub open spec fn inspected(path: Seq<u8>) -> Seq<char> {
    "\""@ + written_runs(utf8_runs(path)) + "\""@
}

fn upper_digit_text(d: u8) -> (r: String)
    requires
        d < 16,
    ensures
        r@ == upper_digit(d as int),
{
    match d {
        10 => "A".to_owned(),
        11 => "B".to_owned(),
        12 => "C".to_owned(),
        13 => "D".to_owned(),
        14 => "E".to_owned(),
        15 => "F".to_owned(),
        _ => show::write_numeral(d as u32, 16),
    }
}

fn write_escaped(bytes: &Vec<u8>) -> (r: String)
    ensures
        r@ == escaped(bytes@),
{
    let mut r = String::new();
    let mut i: usize = 0;
    while i < bytes.len()
        invariant
            i <= bytes@.len(),
            r@ == escaped(bytes@.take(i as int)),
        decreases bytes@.len() - i,
    {
        assert(bytes@.take(i + 1).drop_last() =~= bytes@.take(i as int));
        r.append("\\x");
        r.append(upper_digit_text(bytes[i] / 16).as_str());
        r.append(upper_digit_text(bytes[i] % 16).as_str());
        i = i + 1;
    }
    assert(bytes@.take(i as int) =~= bytes@);
    r
}

/// Writes runs of bytes: texts as between quotes, other bytes as numbers.
pub fn write_runs(runs: &Vec<(String, Vec<u8>)>) -> (r: String)
    ensures
        r@ == written_runs(run_views(runs@)),
{
    let ghost all = run_views(runs@);
    let mut r = String::new();
    let mut i: usize = 0;
    while i < runs.len()
        invariant
            i <= runs@.len(),
            all == run_views(runs@),
            r@ == written_runs(all.take(i as int)),
        decreases runs@.len() - i,
    {
        assert(all.take(i + 1).drop_last() =~= all.take(i as int));
        let text = write_quoted(runs[i].0.as_str());
        let end: usize = text.as_str().unicode_len();
        r.append(text.as_str().substring_char(1, end - 1));
        r.append(write_escaped(&runs[i].1).as_str());
        i = i + 1;
    }
    assert(all.take(i as int) =~= all);
    r
}

impl FilePath {
    /// Writes the path for inspection: as a quoted text, with bytes that are no text as
    /// numbers.
    pub fn inspect(&self) -> (r: String)
        ensures
            r@ == inspected(self@),
    {
        let runs = runs_of(self.bytes.as_slice());
        "\"".to_owned().concat(write_runs(&runs).as_str()).concat("\"")
    }
}

impl fmt::Debug for FilePath {
    fn fmt(&self, f: &mut fmt::Formatter<'_>) -> (r: fmt::Result) {
        hand_to(f, self.inspect().as_str())
    }
}

impl Clone for FilePath {
    fn clone(&self) -> (r: FilePath)
        ensures
            r@ == self@,
    {
        FilePath::new(self.bytes.clone())
    }
}

impl PartialEq for FilePath {
    fn eq(&self, other: &FilePath) -> (r: bool) {
        proof {
            use_type_invariant(self);
            use_type_invariant(other);
        }
        let ghost one = byte_views(self.components@);
        let ghost two = byte_views(other.components@);
        if self.components.len() != other.components.len() {
            assert(one.len() != two.len());
            return false;
        }
        let mut i: usize = 0;
        while i < self.components.len()
            invariant
                i <= self.components@.len(),
                self.components@.len() == other.components@.len(),
                one == byte_views(self.components@),
                two == byte_views(other.components@),
                one == components(self@),
                two == components(other@),
                forall|j: int| 0 <= j < i ==> one[j] == two[j],
            decreases self.components@.len() - i,
        {
            if !same_bytes(self.components[i].as_slice(), other.components[i].as_slice()) {
                assert(one[i as int] != two[i as int]);
                return false;
            }
            i = i + 1;
        }
        assert(one =~= two);
        true
    }
}

impl vstd::std_specs::cmp::PartialEqSpecImpl for FilePath {
    open spec fn obeys_eq_spec() -> bool {
        true
    }

    open spec fn eq_spec(&self, other: &FilePath) -> bool {
        components(self@) == components(other@)
    }
}

impl Eq for FilePath {

}

impl Ord for FilePath {
    /// `Vec::<Vec<u8>>::cmp`, on the components: lists come in the order of their first items
    /// that differ, and a list comes before those that it starts.
    #[verifier::external_body]
    fn cmp(&self, other: &FilePath) -> (r: Ordering)
        ensures
            r == component_order(components(self@), components(other@)),
    {
        self.components.cmp(&other.components)
    }
}

impl PartialOrd for FilePath {
    fn partial_cmp(&self, other: &FilePath) -> (r: Option<Ordering>) {
        proof {
            use_type_invariant(self);
            use_type_invariant(other);
        }
        Some(compare_components(&self.components, &other.components))
    }
}

impl vstd::std_specs::cmp::PartialOrdSpecImpl for FilePath {
    open spec fn obeys_partial_cmp_spec() -> bool {
        true
    }

    open spec fn partial_cmp_spec(&self, other: &FilePath) -> Option<Ordering> {
        Some(component_order(components(self@), components(other@)))
    }
}

/// The views of paths.
pub open spec fn paths(list: Seq<FilePath>) -> Seq<Seq<u8>> {
    list.map_values(|p: FilePath| p@)
}

/// The path of a name below a directory. A name that starts with a separator is a path of
/// its own, whatever the directory.
pub open spec fn join(dir: Seq<u8>, name: Seq<u8>) -> Seq<u8> {
    if name.len() > 0 && name[0] == SEPARATOR {
        name
    } else if dir.len() == 0 || dir.last() == SEPARATOR {
        dir + name
    } else {
        dir.push(SEPARATOR) + name
    }
}

/// Puts a name below a directory.
pub fn join_path(dir: &FilePath, name: &Vec<u8>) -> (r: FilePath)
    ensures
        r@ == join(dir@, name@),
{
    let mut bytes: Vec<u8> = Vec::new();
    if name.len() > 0 && name[0] == SEPARATOR {
    } else {
        bytes.extend_from_slice(dir.as_bytes().as_slice());
        if bytes.len() > 0 && bytes[bytes.len() - 1] != SEPARATOR {
            bytes.push(SEPARATOR);
        }
    }
    bytes.extend_from_slice(name.as_slice());
    assert(bytes@ =~= join(dir@, name@));
    FilePath::new(bytes)
}

/// The path that a text spells.
pub fn path_from(s: &str) -> (r: FilePath)
    ensures
        r@ == utf8::encode_utf8(s@),
{
    FilePath::new(s.as_bytes_vec())
}

} // verus!
