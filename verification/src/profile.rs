//! The `export` lines of a shell startup file: how one is written, and how a
//! file's text is searched for the value of a key.

use crate::text::{chars_of, text_of, Text};
use vstd::prelude::*;

verus! {

/// What an `export` line of `key` begins with: `export KEY=`.
pub open spec fn export_prefix(key: Text) -> Text {
    "export "@ + key + "="@
}

/// The line that assigns `value` to `key`: `export KEY="VALUE"`. Nothing in
/// `key` or `value` is escaped.
pub open spec fn export_text(key: Text, value: Text) -> Text {
    export_prefix(key) + "\""@ + value + "\""@
}

/// The text that persists `value` under `key`: the line `export KEY="VALUE"`
/// and the line feed that ends it.
pub open spec fn export_entry(key: Text, value: Text) -> Text {
    export_text(key, value) + "\n"@
}

/// The index of the first `c` in `s`, or `s.len()` where `s` holds none.
pub open spec fn position(s: Text, c: char) -> int
    decreases s.len(),
{
    if s.len() == 0 || s[0] == c {
        0
    } else {
        1 + position(s.drop_first(), c)
    }
}

/// `line` without the carriage return that it ends with, if it ends with one.
pub open spec fn without_cr(line: Text) -> Text {
    if line.len() > 0 && line.last() == '\r' {
        line.drop_last()
    } else {
        line
    }
}

/// The lines of `text`. A line ends at a line feed, or at a carriage return
/// directly followed by one; neither belongs to the line. What follows the
/// last line feed is a line of its own unless it is empty, and keeps a
/// carriage return that it ends with.
pub open spec fn lines(text: Text) -> Seq<Text>
    decreases text.len(),
{
    let n = position(text, '\n');
    if text.len() == 0 {
        Seq::empty()
    } else if 0 <= n < text.len() {
        seq![without_cr(text.take(n))] + lines(text.skip(n + 1))
    } else {
        seq![text]
    }
}

/// Whether `line` assigns to `key`: it begins with `export KEY=`.
pub open spec fn is_export_of(line: Text, key: Text) -> bool {
    export_prefix(key).is_prefix_of(line)
}

/// `value` without one double quote at its front and one at its back, each
/// taken off only where it is there.
pub open spec fn strip_quotes(value: Text) -> Text {
    let rest = if value.len() > 0 && value[0] == '"' {
        value.drop_first()
    } else {
        value
    };
    if rest.len() > 0 && rest.last() == '"' {
        rest.drop_last()
    } else {
        rest
    }
}

/// The value that an `export` line assigns: what follows the first `=` of
/// the line, without one layer of surrounding double quotes.
pub open spec fn export_value(line: Text) -> Text {
    strip_quotes(line.skip(position(line, '=') + 1))
}

/// The value of the first of `ls` that assigns to `key`, if one does.
pub open spec fn first_export(ls: Seq<Text>, key: Text) -> Option<Text>
    decreases ls.len(),
{
    if ls.len() == 0 {
        None
    } else if is_export_of(ls[0], key) {
        Some(export_value(ls[0]))
    } else {
        first_export(ls.drop_first(), key)
    }
}

/// The value that a startup file with the text `text` gives `key`: that of
/// its first line that assigns to `key`.
pub open spec fn lookup_export(text: Text, key: Text) -> Option<Text> {
    first_export(lines(text), key)
}

/// `position` is the one index that has `c` and no `c` before it.
pub proof fn lemma_position_is(s: Text, c: char, p: int)
    requires
        0 <= p <= s.len(),
        forall|i: int| 0 <= i < p ==> s[i] != c,
        p < s.len() ==> s[p] == c,
    ensures
        position(s, c) == p,
    decreases p,
{
    if p > 0 {
        let rest = s.drop_first();
        assert forall|i: int| 0 <= i < p - 1 implies rest[i] != c by {
            assert(rest[i] == s[i + 1]);
        }
        lemma_position_is(rest, c, p - 1);
    }
}

/// Where `position` points: inside `s` at a `c` that is the first, or at
/// the end of an `s` without `c`.
pub proof fn lemma_position_first(s: Text, c: char)
    ensures
        0 <= position(s, c) <= s.len(),
        forall|i: int| 0 <= i < position(s, c) ==> s[i] != c,
        position(s, c) < s.len() ==> s[position(s, c)] == c,
    decreases s.len(),
{
    if s.len() > 0 && s[0] != c {
        let rest = s.drop_first();
        lemma_position_first(rest, c);
        assert forall|i: int| 0 <= i < position(s, c) implies s[i] != c by {
            if i > 0 {
                assert(rest[i - 1] == s[i]);
            }
        }
    }
}

/// One step of the search: where the text from `start` on has its first line
/// feed at `end`, the search from `start` looks at the line in between and,
/// if that assigns nothing to `key`, goes on behind the line feed.
proof fn lemma_lookup_step(text: Text, key: Text, start: int, end: int)
    requires
        0 <= start <= end < text.len(),
        text[end] == '\n',
        forall|i: int| start <= i < end ==> text[i] != '\n',
    ensures
        lookup_export(text.skip(start), key) == if is_export_of(
            without_cr(text.subrange(start, end)),
            key,
        ) {
            Some(export_value(without_cr(text.subrange(start, end))))
        } else {
            lookup_export(text.skip(end + 1), key)
        },
{
    let rest = text.skip(start);
    lemma_position_is(rest, '\n', end - start);
    assert(rest.take(end - start) == text.subrange(start, end));
    assert(rest.skip(end - start + 1) == text.skip(end + 1));
    let ls = lines(rest);
    assert(ls.drop_first() == lines(text.skip(end + 1)));
}

/// The last step of the search: where the text from `start` on is not empty
/// and has no line feed, it is one line.
proof fn lemma_lookup_last(text: Text, key: Text, start: int)
    requires
        0 <= start < text.len(),
        forall|i: int| start <= i < text.len() ==> text[i] != '\n',
    ensures
        lookup_export(text.skip(start), key) == if is_export_of(text.skip(start), key) {
            Some(export_value(text.skip(start)))
        } else {
            None
        },
{
    let rest = text.skip(start);
    lemma_position_is(rest, '\n', rest.len() as int);
    let ls = lines(rest);
    assert(ls == seq![rest]);
    assert(ls[0] == rest);
    assert(ls.drop_first().len() == 0);
    assert(first_export(ls.drop_first(), key) is None);
}

/// The index of the first `c` in `text[from..to]`, or `to` where there is none.
fn find_char(text: &Vec<char>, from: usize, to: usize, c: char) -> (at: usize)
    requires
        from <= to <= text.len(),
    ensures
        from <= at <= to,
        at - from == position(text@.subrange(from as int, to as int), c),
        forall|i: int| from <= i < at ==> text[i] != c,
        at < to ==> text[at as int] == c,
{
    let mut at: usize = from;
    while at < to && text[at] != c
        invariant
            from <= at <= to <= text.len(),
            forall|i: int| from <= i < at ==> text[i] != c,
        decreases to - at,
    {
        at += 1;
    }
    proof {
        lemma_position_is(text@.subrange(from as int, to as int), c, at - from);
    }
    at
}

/// Whether `text[from..to]` begins with `pattern`.
fn begins_with(text: &Vec<char>, from: usize, to: usize, pattern: &Vec<char>) -> (found: bool)
    requires
        from <= to <= text.len(),
    ensures
        found == pattern@.is_prefix_of(text@.subrange(from as int, to as int)),
{
    let ghost part = text@.subrange(from as int, to as int);
    if pattern.len() > to - from {
        return false;
    }
    let mut i: usize = 0;
    while i < pattern.len()
        invariant
            from <= to <= text.len(),
            pattern.len() <= to - from,
            i <= pattern.len(),
            part == text@.subrange(from as int, to as int),
            forall|j: int| 0 <= j < i ==> pattern[j] == part[j],
        decreases pattern.len() - i,
    {
        if text[from + i] != pattern[i] {
            assert(part.subrange(0, pattern.len() as int)[i as int] != pattern[i as int]);
            return false;
        }
        i += 1;
    }
    assert(pattern@ =~= part.subrange(0, pattern.len() as int));
    true
}

/// The bounds of the value that the line `text[start..stop]` assigns.
fn assigned_value(text: &Vec<char>, start: usize, stop: usize) -> (bounds: (usize, usize))
    requires
        start <= stop <= text.len(),
        exists|i: int| start <= i < stop && text[i] == '=',
    ensures
        start <= bounds.0 <= bounds.1 <= stop,
        text@.subrange(bounds.0 as int, bounds.1 as int) == export_value(
            text@.subrange(start as int, stop as int),
        ),
{
    let ghost line = text@.subrange(start as int, stop as int);
    let eq = find_char(text, start, stop, '=');
    let mut from: usize = eq + 1;
    let mut to: usize = stop;
    let ghost assigned = line.skip(position(line, '=') + 1);
    assert(assigned == text@.subrange(from as int, to as int));
    if from < to && text[from] == '"' {
        from += 1;
    }
    let ghost rest = text@.subrange(from as int, to as int);
    assert(rest == if assigned.len() > 0 && assigned[0] == '"' {
        assigned.drop_first()
    } else {
        assigned
    });
    if from < to && text[to - 1] == '"' {
        to -= 1;
    }
    assert(text@.subrange(from as int, to as int) == if rest.len() > 0 && rest.last() == '"' {
        rest.drop_last()
    } else {
        rest
    });
    (from, to)
}

/// Searches the text of a startup file for the value of `key`: that of the
/// first line that begins with `export KEY=`.
pub fn find_export(content: &str, key: &str) -> (value: Option<String>)
    ensures
        text_of(value) == lookup_export(content@, key@),
{
    let text = chars_of(content);
    let mut pattern = chars_of("export ");
    let mut name = chars_of(key);
    pattern.append(&mut name);
    pattern.push('=');
    proof {
        reveal_strlit("=");
        assert(pattern@ == export_prefix(key@));
    }
    let len: usize = text.len();
    let mut start: usize = 0;
    assert(text@.skip(0) == text@);
    while start < len
        invariant
            start <= len == text.len(),
            text@ == content@,
            pattern@ == export_prefix(key@),
            pattern@.len() > 0,
            pattern@.last() == '=',
            lookup_export(content@, key@) == lookup_export(text@.skip(start as int), key@),
        decreases len - start,
    {
        let end = find_char(&text, start, len, '\n');
        let mut stop: usize = end;
        if end < len && start < stop && text[stop - 1] == '\r' {
            stop -= 1;
        }
        let ghost line = text@.subrange(start as int, stop as int);
        proof {
            if end < len {
                lemma_lookup_step(text@, key@, start as int, end as int);
                assert(line == without_cr(text@.subrange(start as int, end as int)));
            } else {
                lemma_lookup_last(text@, key@, start as int);
                assert(line == text@.skip(start as int));
            }
        }
        if begins_with(&text, start, stop, &pattern) {
            assert(line[pattern@.len() - 1] == '=');
            let (from, to) = assigned_value(&text, start, stop);
            return Some(content.substring_char(from, to).to_string());
        }
        if end == len {
            return None;
        }
        start = end + 1;
    }
    proof {
        assert(text@.skip(start as int).len() == 0);
    }
    None
}

/// The text that persists `value` under `key` in a startup file.
pub fn export_line(key: &str, value: &str) -> (line: String)
    ensures
        line@ == export_entry(key@, value@),
{
    let mut line = String::from_str("export ");
    line.append(key);
    line.append("=");
    line.append("\"");
    line.append(value);
    line.append("\"");
    line.append("\n");
    line
}

} // verus!
