//! What holds of desktop entry files whatever stands in them.

use crate::entry;
use vstd::prelude::*;

verus! {

/// Whether a character is the upper-case form of another, both ASCII letters.
pub open spec fn is_upper_of(upper: char, lower: char) -> bool {
    'A' <= upper <= 'Z' && lower as int == upper as int + 32
}

/// Characters count as the same exactly where they are, or where one is the upper-case form of the
/// other, both ASCII letters.
pub proof fn only_the_case_of_ascii_letters_is_ignored(c: char, d: char)
    ensures
        entry::ascii_fold(c) == entry::ascii_fold(d) <==> c == d || is_upper_of(c, d)
            || is_upper_of(d, c),
{
}

/// Texts count as the same exactly where they are as long as each other and have in each place
/// characters that count as the same.
pub proof fn texts_are_the_same_character_by_character(a: Seq<char>, b: Seq<char>)
    ensures
        entry::same_ignoring_ascii_case(a, b) <==> a.len() == b.len() && forall|i: int|
            0 <= i < a.len() ==> {
                ||| #[trigger] a[i] == b[i]
                ||| is_upper_of(a[i], b[i])
                ||| is_upper_of(b[i], a[i])
            },
{
    if entry::same_ignoring_ascii_case(a, b) {
        assert forall|i: int| 0 <= i < a.len() implies {
            ||| #[trigger] a[i] == b[i]
            ||| is_upper_of(a[i], b[i])
            ||| is_upper_of(b[i], a[i])
        } by {
            only_the_case_of_ascii_letters_is_ignored(a[i], b[i]);
            assert(entry::ascii_fold(a[i]) == entry::ascii_fold(b[i]));
        }
    }
}

/// Whether a part of a text is white space.
pub open spec fn blank(s: Seq<char>, from: int, to: int) -> bool {
    forall|i: int| from <= i < to ==> entry::white_space(#[trigger] s[i])
}

/// What is trimmed at the start is white space, and no white space is left there.
pub proof fn the_start_is_trimmed(s: Seq<char>) -> (n: int)
    ensures
        0 <= n <= s.len(),
        entry::trim_start(s) == s.skip(n),
        blank(s, 0, n),
        n < s.len() ==> !entry::white_space(s[n]),
    decreases s.len(),
{
    if s.len() > 0 && entry::white_space(s[0]) {
        let m = the_start_is_trimmed(s.skip(1));
        assert(s.skip(1).skip(m) =~= s.skip(m + 1));
        assert forall|i: int| 0 <= i < m + 1 implies entry::white_space(#[trigger] s[i]) by {
            if i > 0 {
                assert(s.skip(1)[i - 1] == s[i]);
            }
        }
        if m + 1 < s.len() {
            assert(s.skip(1)[m] == s[m + 1]);
        }
        m + 1
    } else {
        assert(s.skip(0) =~= s);
        0
    }
}

/// What is trimmed at the end is white space, and no white space is left there.
pub proof fn the_end_is_trimmed(s: Seq<char>) -> (n: int)
    ensures
        0 <= n <= s.len(),
        entry::trim_end(s) == s.take(n),
        blank(s, n, s.len() as int),
        n > 0 ==> !entry::white_space(s[n - 1]),
    decreases s.len(),
{
    if s.len() > 0 && entry::white_space(s.last()) {
        let m = the_end_is_trimmed(s.drop_last());
        assert(s.drop_last().take(m) =~= s.take(m));
        assert forall|i: int| m <= i < s.len() implies entry::white_space(#[trigger] s[i]) by {
            if i < s.len() - 1 {
                assert(s.drop_last()[i] == s[i]);
            }
        }
        m
    } else {
        assert(s.take(s.len() as int) =~= s);
        s.len() as int
    }
}

/// A text is trimmed to a part of it: all before that part and behind it is white space, and the
/// part neither starts nor ends with white space.
pub proof fn only_white_space_is_trimmed(s: Seq<char>) -> (r: (int, int))
    ensures
        0 <= r.0 <= r.1 <= s.len(),
        entry::trim(s) == s.subrange(r.0, r.1),
        blank(s, 0, r.0),
        blank(s, r.1, s.len() as int),
        r.0 < r.1 ==> !entry::white_space(s[r.0]) && !entry::white_space(s[r.1 - 1]),
{
    let i = the_start_is_trimmed(s);
    let rest = s.skip(i);
    let n = the_end_is_trimmed(rest);
    assert(rest.take(n) =~= s.subrange(i, i + n));
    assert forall|j: int| i + n <= j < s.len() implies entry::white_space(#[trigger] s[j]) by {
        assert(rest[j - i] == s[j]);
    }
    if n > 0 {
        assert(rest[n - 1] == s[i + n - 1]);
    }
    (i, i + n)
}

/// Where a text has white space around a part that neither starts nor ends with any, it is trimmed
/// to that part.
pub proof fn what_is_no_white_space_stays(s: Seq<char>, i: int, j: int)
    requires
        0 <= i <= j <= s.len(),
        blank(s, 0, i),
        blank(s, j, s.len() as int),
        i < j ==> !entry::white_space(s[i]) && !entry::white_space(s[j - 1]),
    ensures
        entry::trim(s) == s.subrange(i, j),
{
    let (a, b) = only_white_space_is_trimmed(s);
    if i < j {
        assert(a >= i || a == b || !entry::white_space(s[a]));
        if a < b {
            assert(a == i) by {
                if a < i {
                    assert(entry::white_space(s[a]));
                }
                if i < a {
                    assert(entry::white_space(s[i]));
                }
            }
            assert(b == j) by {
                if b < j {
                    assert(entry::white_space(s[j - 1]));
                }
                if j < b {
                    assert(entry::white_space(s[b - 1]));
                }
            }
        } else if i < a {
            assert(entry::white_space(s[i]));
        } else {
            assert(entry::white_space(s[i]));
        }
    } else if a < b {
        assert(entry::white_space(s[a]));
    }
    assert(s.subrange(a, b) =~= s.subrange(i, j));
}

/// Whether a line gives a key a value, with the places spelled out: the key comes first, then white
/// space up to an equals sign, then white space, a part that counts as the value, and white space.
pub open spec fn spelled_out(
    line: Seq<char>,
    key: Seq<char>,
    value: Seq<char>,
    sign: int,
    from: int,
    to: int,
) -> bool {
    &&& key.len() <= sign < from <= to <= line.len()
    &&& line.take(key.len() as int) == key
    &&& blank(line, key.len() as int, sign)
    &&& line[sign] == '='
    &&& blank(line, sign + 1, from)
    &&& blank(line, to, line.len() as int)
    &&& from < to ==> !entry::white_space(line[from]) && !entry::white_space(line[to - 1])
    &&& entry::same_ignoring_ascii_case(line.subrange(from, to), value)
}

/// A line gives a key a value exactly where it is the key, an equals sign and the value, with white
/// space behind the key and around the value and nowhere else, up to the case of ASCII letters in
/// the value alone.
pub proof fn lines_assign_what_they_spell(line: Seq<char>, key: Seq<char>, value: Seq<char>)
    ensures
        entry::assigns(line, key, value) <==> exists|sign: int, from: int, to: int|
            spelled_out(line, key, value, sign, from, to),
{
    let n = key.len() as int;
    if entry::assigns(line, key, value) {
        let behind = line.skip(n);
        let m = the_start_is_trimmed(behind);
        let sign = n + m;
        assert(behind.skip(m) =~= line.skip(sign));
        let rest = line.skip(sign + 1);
        assert(line.skip(sign).skip(1) =~= rest);
        let (i, j) = only_white_space_is_trimmed(rest);
        assert(rest.subrange(i, j) =~= line.subrange(sign + 1 + i, sign + 1 + j));
        assert forall|p: int| n <= p < sign implies entry::white_space(#[trigger] line[p]) by {
            assert(behind[p - n] == line[p]);
        }
        assert forall|p: int| sign + 1 <= p < sign + 1 + i implies entry::white_space(
            #[trigger] line[p],
        ) by {
            assert(rest[p - sign - 1] == line[p]);
        }
        assert forall|p: int| sign + 1 + j <= p < line.len() implies entry::white_space(
            #[trigger] line[p],
        ) by {
            assert(rest[p - sign - 1] == line[p]);
        }
        assert(line[sign] == line.skip(sign)[0]);
        if i < j {
            assert(rest[i] == line[sign + 1 + i]);
            assert(rest[j - 1] == line[sign + j]);
        }
        assert(spelled_out(line, key, value, sign, sign + 1 + i, sign + 1 + j));
    }
    if exists|sign: int, from: int, to: int| spelled_out(line, key, value, sign, from, to) {
        let (sign, from, to) = choose|sign: int, from: int, to: int|
            spelled_out(line, key, value, sign, from, to);
        let behind = line.skip(n);
        let m = the_start_is_trimmed(behind);
        assert(!entry::white_space('='));
        assert(behind[sign - n] == line[sign]);
        assert(m == sign - n) by {
            if m < sign - n {
                assert(behind[m] == line[n + m]);
                assert(entry::white_space(line[n + m]));
            }
            if m > sign - n {
                assert(entry::white_space(behind[sign - n]));
            }
        }
        assert(behind.skip(m) =~= line.skip(sign));
        assert(line.skip(sign)[0] == line[sign]);
        let rest = line.skip(sign + 1);
        assert(line.skip(sign).skip(1) =~= rest);
        let i = from - sign - 1;
        let j = to - sign - 1;
        assert forall|p: int| 0 <= p < i implies entry::white_space(#[trigger] rest[p]) by {
            assert(rest[p] == line[p + sign + 1]);
        }
        assert forall|p: int| j <= p < rest.len() implies entry::white_space(#[trigger] rest[p]) by {
            assert(rest[p] == line[p + sign + 1]);
        }
        if i < j {
            assert(rest[i] == line[from]);
            assert(rest[j - 1] == line[to - 1]);
        }
        what_is_no_white_space_stays(rest, i, j);
        assert(rest.subrange(i, j) =~= line.subrange(from, to));
    }
}

proof fn a_line_is_as_long_as_it_is(line: Seq<char>, rest: Seq<char>)
    requires
        !line.contains('\n'),
    ensures
        entry::first_line_len(line) == line.len(),
        entry::first_line_len(line + seq!['\n'] + rest) == line.len(),
    decreases line.len(),
{
    let all = line + seq!['\n'] + rest;
    if line.len() > 0 {
        assert(line.contains(line[0]));
        assert(all[0] == line[0]);
        let tail = line.skip(1);
        assert forall|i: int| 0 <= i < tail.len() implies #[trigger] tail[i] != '\n' by {
            assert(line.contains(line[i + 1]));
        }
        a_line_is_as_long_as_it_is(tail, rest);
        assert(all.skip(1) =~= tail + seq!['\n'] + rest);
    } else {
        assert(all[0] == '\n');
    }
}

/// The line without a carriage return at its end, if it has one there.
pub open spec fn before_return(line: Seq<char>) -> Seq<char> {
    if line.len() > 0 && line[line.len() - 1] == '\r' {
        line.take(line.len() - 1)
    } else {
        line
    }
}

/// A text is cut at its line feeds: what comes before the first is the first line, without a
/// carriage return at its end, and what comes behind it are the other lines. A text without a line
/// feed is a line as it is, unless it is empty.
pub proof fn lines_end_at_line_feeds(line: Seq<char>, rest: Seq<char>)
    requires
        !line.contains('\n'),
    ensures
        entry::lines(line + seq!['\n'] + rest) == seq![before_return(line)] + entry::lines(rest),
        line.len() > 0 ==> entry::lines(line) == seq![line],
        entry::lines(seq![]) == Seq::<Seq<char>>::empty(),
{
    let all = line + seq!['\n'] + rest;
    a_line_is_as_long_as_it_is(line, rest);
    assert(all.take(line.len() as int) =~= line);
    assert(all.skip(line.len() as int + 1) =~= rest);
    assert(line.len() > 0 ==> line.drop_last() =~= line.take(line.len() - 1));
    assert(entry::without_return(line) =~= before_return(line));
}

/// A text has an entry exactly where one of its lines has it, whichever line that is.
pub proof fn an_entry_counts_in_every_line(
    line: Seq<char>,
    rest: Seq<char>,
    key: Seq<char>,
    value: Seq<char>,
)
    requires
        !line.contains('\n'),
    ensures
        entry::has_entry(line + seq!['\n'] + rest, key, value) <==> entry::assigns(
            before_return(line),
            key,
            value,
        ) || entry::has_entry(rest, key, value),
        line.len() > 0 ==> (entry::has_entry(line, key, value) <==> entry::assigns(
            line,
            key,
            value,
        )),
        !entry::has_entry(seq![], key, value),
{
    let all = line + seq!['\n'] + rest;
    a_line_is_as_long_as_it_is(line, rest);
    assert(all.take(line.len() as int) =~= line);
    assert(all.skip(line.len() as int + 1) =~= rest);
    assert(line.len() > 0 ==> line.drop_last() =~= line.take(line.len() - 1));
    assert(entry::without_return(line) =~= before_return(line));
    entry::first_line_or_behind(all, key, value);
    if line.len() > 0 {
        entry::first_line_or_behind(line, key, value);
    }
    assert(entry::lines(seq![]) =~= seq![]);
}

} // verus!
