//! Desktop entry files, as far as finding an application by one of its keys goes.

use vstd::prelude::*;
use vstd::slice::slice_subrange;

verus! {

/// Whether a character has the Unicode property White_Space.
pub open spec fn white_space(c: char) -> bool {
    ||| '\u{9}' <= c <= '\u{d}'
    ||| c == '\u{20}'
    ||| c == '\u{85}'
    ||| c == '\u{a0}'
    ||| c == '\u{1680}'
    ||| '\u{2000}' <= c <= '\u{200a}'
    ||| c == '\u{2028}'
    ||| c == '\u{2029}'
    ||| c == '\u{202f}'
    ||| c == '\u{205f}'
    ||| c == '\u{3000}'
}

/// `char::is_whitespace`: whether the character has the Unicode property White_Space.
pub assume_specification[ char::is_whitespace ](c: char) -> (r: bool)
    ensures
        r == white_space(c),
;

/// The text without the white space that it starts with.
pub open spec fn trim_start(s: Seq<char>) -> Seq<char>
    decreases s.len(),
{
    if s.len() > 0 && white_space(s[0]) {
        trim_start(s.skip(1))
    } else {
        s
    }
}

/// The text without the white space that it ends with.
pub open spec fn trim_end(s: Seq<char>) -> Seq<char>
    decreases s.len(),
{
    if s.len() > 0 && white_space(s.last()) {
        trim_end(s.drop_last())
    } else {
        s
    }
}

/// The text without white space at either end.
pub open spec fn trim(s: Seq<char>) -> Seq<char> {
    trim_end(trim_start(s))
}

/// The code of a character, the same for both cases of an ASCII letter.
pub open spec fn ascii_fold(c: char) -> int {
    if 'A' <= c <= 'Z' {
        c as int + 32
    } else {
        c as int
    }
}

/// Whether two texts are the same but for the case of ASCII letters.
pub open spec fn same_ignoring_ascii_case(a: Seq<char>, b: Seq<char>) -> bool {
    &&& a.len() == b.len()
    &&& forall|i: int| 0 <= i < a.len() ==> ascii_fold(#[trigger] a[i]) == ascii_fold(b[i])
}

/// How many characters come before the first line feed.
pub open spec fn first_line_len(s: Seq<char>) -> nat
    decreases s.len(),
{
    if s.len() == 0 || s[0] == '\n' {
        0
    } else {
        1 + first_line_len(s.skip(1))
    }
}

/// A line without the carriage return that may come before its line feed.
pub open spec fn without_return(line: Seq<char>) -> Seq<char> {
    if line.len() > 0 && line.last() == '\r' {
        line.drop_last()
    } else {
        line
    }
}

/// The lines of a text. A line ends with a line feed, or with a carriage return and a line
/// feed, and neither belongs to it; the last line may lack its ending.
pub open spec fn lines(s: Seq<char>) -> Seq<Seq<char>>
    decreases s.len(),
{
    if s.len() == 0 {
        seq![]
    } else {
        let n = first_line_len(s);
        if n >= s.len() {
            seq![s]
        } else {
            seq![without_return(s.take(n as int))] + lines(s.skip(n as int + 1))
        }
    }
}

/// Whether a line gives a key a value, up to the case of ASCII letters: the key at the
/// start of the line, then white space if any, then `=`, then the value between white
/// space if any.
pub open spec fn assigns(line: Seq<char>, key: Seq<char>, value: Seq<char>) -> bool {
    &&& key.len() <= line.len()
    &&& line.take(key.len() as int) == key
    &&& {
        let rest = trim_start(line.skip(key.len() as int));
        &&& rest.len() > 0
        &&& rest[0] == '='
        &&& same_ignoring_ascii_case(trim(rest.skip(1)), value)
    }
}

/// Whether some line of a text gives a key a value.
pub open spec fn has_entry(text: Seq<char>, key: Seq<char>, value: Seq<char>) -> bool {
    exists|i: int| 0 <= i < lines(text).len() && assigns(#[trigger] lines(text)[i], key, value)
}

/// The characters of a text.
pub fn chars_of(text: &str) -> (r: Vec<char>)
    ensures
        r@ == text@,
{
    let mut r: Vec<char> = Vec::new();
    for c in iter: text.chars()
        invariant
            r@ == iter.seq().take(iter.index() as int),
            iter.seq() == text@,
    {
        r.push(c);
    }
    assert(text@.take(text@.len() as int) =~= text@);
    r
}

fn skip_white_space(s: &[char]) -> (r: &[char])
    ensures
        r@ == trim_start(s@),
{
    let mut i: usize = 0;
    assert(s@.skip(0) =~= s@);
    while i < s.len() && s[i].is_whitespace()
        invariant
            i <= s@.len(),
            trim_start(s@.skip(i as int)) == trim_start(s@),
        decreases s@.len() - i,
    {
        assert(s@.skip(i as int).skip(1) =~= s@.skip(i + 1));
        i = i + 1;
    }
    slice_subrange(s, i, s.len())
}

fn drop_white_space(s: &[char]) -> (r: &[char])
    ensures
        r@ == trim_end(s@),
{
    let mut n: usize = s.len();
    assert(s@.take(n as int) =~= s@);
    while n > 0 && s[n - 1].is_whitespace()
        invariant
            n <= s@.len(),
            trim_end(s@.take(n as int)) == trim_end(s@),
        decreases n,
    {
        assert(s@.take(n as int).drop_last() =~= s@.take(n - 1));
        n = n - 1;
    }
    slice_subrange(s, 0, n)
}

fn fold(c: char) -> (r: u32)
    ensures
        r == ascii_fold(c),
{
    if 'A' <= c && c <= 'Z' {
        c as u32 + 32
    } else {
        c as u32
    }
}

/// Whether two texts are the same but for the case of ASCII letters.
pub fn eq_ignoring_ascii_case(a: &[char], b: &[char]) -> (r: bool)
    ensures
        r == same_ignoring_ascii_case(a@, b@),
{
    if a.len() != b.len() {
        return false;
    }
    let mut i: usize = 0;
    while i < a.len()
        invariant
            i <= a@.len(),
            a@.len() == b@.len(),
            forall|j: int| 0 <= j < i ==> ascii_fold(#[trigger] a@[j]) == ascii_fold(b@[j]),
        decreases a@.len() - i,
    {
        if fold(a[i]) != fold(b[i]) {
            return false;
        }
        i = i + 1;
    }
    true
}

/// Whether a line gives a key a value.
pub fn line_assigns(line: &[char], key: &[char], value: &[char]) -> (r: bool)
    ensures
        r == assigns(line@, key@, value@),
{
    if line.len() < key.len() {
        return false;
    }
    let mut i: usize = 0;
    while i < key.len()
        invariant
            i <= key@.len() <= line@.len(),
            forall|j: int| 0 <= j < i ==> line@[j] == key@[j],
        decreases key@.len() - i,
    {
        if line[i] != key[i] {
            assert(line@.take(key@.len() as int)[i as int] != key@[i as int]);
            return false;
        }
        i = i + 1;
    }
    assert(line@.take(key@.len() as int) =~= key@);
    let rest = skip_white_space(slice_subrange(line, key.len(), line.len()));
    assert(line@.subrange(key@.len() as int, line@.len() as int) =~= line@.skip(key@.len() as int));
    if rest.len() == 0 || rest[0] != '=' {
        return false;
    }
    let given = slice_subrange(rest, 1, rest.len());
    assert(given@ =~= rest@.skip(1));
    eq_ignoring_ascii_case(drop_white_space(skip_white_space(given)), value)
}

/// A text has an entry in its first line or behind that line.
pub proof fn first_line_or_behind(text: Seq<char>, key: Seq<char>, value: Seq<char>)
    requires
        text.len() > 0,
    ensures
        ({
            let n = first_line_len(text);
            has_entry(text, key, value) == if n >= text.len() {
                assigns(text, key, value)
            } else {
                ||| assigns(without_return(text.take(n as int)), key, value)
                ||| has_entry(text.skip(n as int + 1), key, value)
            }
        }),
{
    let n = first_line_len(text);
    let all = lines(text);
    if n >= text.len() {
        assert(all =~= seq![text]);
        assert(all[0] == text);
    } else {
        let more = lines(text.skip(n as int + 1));
        assert(all =~= seq![without_return(text.take(n as int))] + more);
        assert(all[0] == without_return(text.take(n as int)));
        if has_entry(text, key, value) {
            let i = choose|i: int| 0 <= i < all.len() && assigns(#[trigger] all[i], key, value);
            if i > 0 {
                assert(assigns(more[i - 1], key, value));
            }
        }
        if has_entry(text.skip(n as int + 1), key, value) {
            let i = choose|i: int| 0 <= i < more.len() && assigns(#[trigger] more[i], key, value);
            assert(assigns(all[i + 1], key, value));
        }
    }
}

/// The place of the first line feed, from a place on, or the end of the text.
fn line_end(chars: &Vec<char>, start: usize) -> (end: usize)
    requires
        start <= chars@.len(),
    ensures
        start <= end <= chars@.len(),
        end - start == first_line_len(chars@.skip(start as int)),
{
    let ghost left = chars@.skip(start as int);
    let mut end: usize = start;
    assert(left.skip(0) =~= left);
    while end < chars.len() && chars[end] != '\n'
        invariant
            start <= end <= chars@.len(),
            left == chars@.skip(start as int),
            first_line_len(left) == end - start + first_line_len(left.skip(end - start)),
        decreases chars@.len() - end,
    {
        assert(left.skip(end - start).skip(1) =~= left.skip(end + 1 - start));
        end = end + 1;
    }
    end
}

/// Whether some line of a text gives a key a value.
pub fn text_has_entry(text: &str, key: &str, value: &str) -> (r: bool)
    ensures
        r == has_entry(text@, key@, value@),
{
    let chars = chars_of(text);
    let name = chars_of(key);
    let wanted = chars_of(value);
    let mut start: usize = 0;
    assert(text@.skip(0) =~= text@);
    while start < chars.len()
        invariant
            start <= chars@.len(),
            chars@ == text@,
            name@ == key@,
            wanted@ == value@,
            has_entry(text@, key@, value@) == has_entry(text@.skip(start as int), key@, value@),
        decreases chars@.len() - start,
    {
        let ghost left = text@.skip(start as int);
        proof {
            first_line_or_behind(left, key@, value@);
        }
        let end = line_end(&chars, start);
        if end == chars.len() {
            let line = slice_subrange(chars.as_slice(), start, end);
            assert(line@ =~= left);
            return line_assigns(line, name.as_slice(), wanted.as_slice());
        }
        let stop: usize = if end > start && chars[end - 1] == '\r' {
            end - 1
        } else {
            end
        };
        let line = slice_subrange(chars.as_slice(), start, stop);
        assert(line@ =~= without_return(left.take(end - start)));
        if line_assigns(line, name.as_slice(), wanted.as_slice()) {
            return true;
        }
        assert(left.skip(end - start + 1) =~= text@.skip(end + 1));
        start = end + 1;
    }
    assert(lines(text@.skip(start as int)) =~= seq![]);
    false
}

} // verus!
