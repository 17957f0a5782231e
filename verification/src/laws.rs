//! What holds of the startup-file format, and of setting and getting taken
//! together.

use crate::getter::{lookup, lookup_unix, process_value, startup_file};
use crate::host::{HostState, Platform};
use crate::text::{Text, TextMap};
use crate::profile::{
    export_entry, export_prefix, export_text, export_value, first_export, is_export_of,
    lemma_position_first, lemma_position_is, lines, lookup_export, position, without_cr,
};
use crate::setter::{after_set, is_env_key, set_result};
use vstd::prelude::*;

verus! {

/// Whether `text` ends where a line would begin: it is empty or ends with a
/// line feed.
pub open spec fn ends_lines(text: Text) -> bool {
    text.len() == 0 || text.last() == '\n'
}

/// Whether no line of `text` assigns to `key`.
pub open spec fn has_no_export(text: Text, key: Text) -> bool {
    forall|i: int| 0 <= i < lines(text).len() ==> !is_export_of(#[trigger] lines(text)[i], key)
}

/// Text that is appended behind whole lines adds its own lines behind them.
pub proof fn law_lines_of_appended(text: Text, more: Text)
    requires
        ends_lines(text),
    ensures
        lines(text + more) == lines(text) + lines(more),
    decreases text.len(),
{
    if text.len() == 0 {
        assert(text + more == more);
        assert(lines(text) + lines(more) == lines(more));
    } else {
        let n = position(text, '\n');
        lemma_position_first(text, '\n');
        assert(n < text.len()) by {
            if n >= text.len() {
                assert(text[text.len() - 1] != '\n');
            }
        }
        let all = text + more;
        assert forall|i: int| 0 <= i < n implies all[i] != '\n' by {
            assert(all[i] == text[i]);
        }
        assert(all[n] == text[n]);
        lemma_position_is(all, '\n', n);
        let rest = text.skip(n + 1);
        assert(all.take(n) == text.take(n));
        assert(all.skip(n + 1) == rest + more);
        assert(ends_lines(rest)) by {
            if rest.len() > 0 {
                assert(rest.last() == text.last());
            }
        }
        law_lines_of_appended(rest, more);
        assert(lines(all) == seq![without_cr(text.take(n))] + (lines(rest) + lines(more)));
        assert(lines(text) == seq![without_cr(text.take(n))] + lines(rest));
        assert(lines(all) == lines(text) + lines(more));
    }
}

/// A text without line feed, ended by one, is one line: itself, less a
/// carriage return at its end.
pub proof fn law_one_line(line: Text)
    requires
        !line.contains('\n'),
    ensures
        lines(line + "\n"@) == seq![without_cr(line)],
{
    reveal_strlit("\n");
    let text = line + "\n"@;
    let n = line.len() as int;
    assert forall|i: int| 0 <= i < n implies text[i] != '\n' by {
        assert(text[i] == line[i]);
        assert(line.contains(line[i]));
    }
    assert(text[n] == '\n');
    lemma_position_is(text, '\n', n);
    assert(text.take(n) == line);
    assert(text.skip(n + 1).len() == 0);
    assert(lines(text.skip(n + 1)) == Seq::<Text>::empty());
    assert(lines(text) == seq![without_cr(line)] + lines(text.skip(n + 1)));
}

/// Among lines put one behind the other, the first that assigns to `key`
/// gives the value: one of the front lines where one of them does, else one
/// of the back lines.
pub proof fn law_first_of_joined(front: Seq<Text>, back: Seq<Text>, key: Text)
    ensures
        first_export(front + back, key) == match first_export(front, key) {
            Some(v) => Some(v),
            None => first_export(back, key),
        },
    decreases front.len(),
{
    if front.len() == 0 {
        assert(front + back == back);
    } else {
        let all = front + back;
        assert(all[0] == front[0]);
        assert(all.drop_first() == front.drop_first() + back);
        law_first_of_joined(front.drop_first(), back, key);
    }
}

/// No value is found exactly where no line assigns to `key`.
pub proof fn law_none_without_export(ls: Seq<Text>, key: Text)
    ensures
        first_export(ls, key) is None <==> forall|i: int|
            0 <= i < ls.len() ==> !is_export_of(#[trigger] ls[i], key),
    decreases ls.len(),
{
    if ls.len() > 0 {
        let rest = ls.drop_first();
        law_none_without_export(rest, key);
        if !is_export_of(ls[0], key) {
            if first_export(rest, key) is None {
                assert forall|i: int| 0 <= i < ls.len() implies !is_export_of(
                    #[trigger] ls[i],
                    key,
                ) by {
                    if i > 0 {
                        assert(ls[i] == rest[i - 1]);
                    }
                }
            } else {
                let i = choose|i: int| 0 <= i < rest.len() && is_export_of(#[trigger] rest[i], key);
                assert(ls[i + 1] == rest[i]);
            }
        }
    }
}

/// In a line that begins with `export KEY=`, where `KEY` holds no `=`, the
/// first `=` is the one behind the key, and what follows it is the rest of
/// the line.
proof fn lemma_assigned_part(key: Text, rest: Text)
    requires
        !key.contains('='),
    ensures
        is_export_of(export_prefix(key) + rest, key),
        (export_prefix(key) + rest).skip(position(export_prefix(key) + rest, '=') + 1) == rest,
{
    reveal_strlit("export ");
    reveal_strlit("=");
    let prefix = export_prefix(key);
    let line = prefix + rest;
    let p = prefix.len() - 1;
    assert forall|i: int| 0 <= i < p implies line[i] != '=' by {
        if i >= 7 {
            assert(line[i] == key[i - 7]);
            assert(key.contains(key[i - 7]));
        } else {
            assert(line[i] == "export "@[i]);
        }
    }
    assert(line[p] == '=');
    lemma_position_is(line, '=', p);
    assert(line.skip(p + 1) == rest);
    assert(prefix == line.subrange(0, prefix.len() as int));
}

/// A line that begins with `export KEY=` holds no line feed where neither
/// the key nor what follows holds one.
proof fn lemma_line_without_feed(key: Text, rest: Text)
    requires
        !key.contains('\n'),
        !rest.contains('\n'),
    ensures
        !(export_prefix(key) + rest).contains('\n'),
{
    reveal_strlit("export ");
    reveal_strlit("=");
    let line = export_prefix(key) + rest;
    assert forall|i: int| 0 <= i < line.len() implies line[i] != '\n' by {
        if i < 7 {
            assert(line[i] == "export "@[i]);
        } else if i < 7 + key.len() {
            assert(line[i] == key[i - 7]);
            assert(key.contains(key[i - 7]));
        } else if 8 + key.len() <= i {
            assert(line[i] == rest[i - 8 - key.len()]);
            assert(rest.contains(rest[i - 8 - key.len()]));
        }
    }
}

/// The line that the setter writes assigns to its key, and what it assigns
/// is the value as it was given: the quotes that the setter puts round the
/// value are the layer that the getter takes off.
pub proof fn law_quoted_value(key: Text, value: Text)
    requires
        !key.contains('='),
    ensures
        is_export_of(export_text(key, value), key),
        export_value(export_text(key, value)) == value,
{
    reveal_strlit("\"");
    let quoted = "\""@ + value + "\""@;
    assert(export_text(key, value) == export_prefix(key) + quoted);
    lemma_assigned_part(key, quoted);
    assert(quoted.drop_first() == value + "\""@);
    assert((value + "\""@).drop_last() == value);
}

/// A line that assigns a value without quotes round it assigns that value
/// unchanged.
pub proof fn law_bare_value(key: Text, value: Text)
    requires
        !key.contains('='),
        value.len() > 0 ==> value.first() != '"' && value.last() != '"',
    ensures
        is_export_of(export_prefix(key) + value, key),
        export_value(export_prefix(key) + value) == value,
{
    lemma_assigned_part(key, value);
}

/// A file of one line that assigns a value without quotes round it gives
/// that value unchanged, where the value does not end with a carriage
/// return: that one would count as a part of the line's end.
pub proof fn law_bare_line_is_found(key: Text, value: Text)
    requires
        !key.contains('='),
        !key.contains('\n'),
        !value.contains('\n'),
        value.len() > 0 ==> value.first() != '"' && value.last() != '"' && value.last() != '\r',
    ensures
        lookup_export(export_prefix(key) + value + "\n"@, key) == Some(value),
{
    reveal_strlit("=");
    let line = export_prefix(key) + value;
    lemma_line_without_feed(key, value);
    assert(line.last() != '\r') by {
        if value.len() > 0 {
            assert(line.last() == value.last());
        } else {
            assert(line.last() == '=');
        }
    }
    law_one_line(line);
    law_bare_value(key, value);
    assert(seq![line].drop_first().len() == 0);
}

/// A value that is already there keeps being found when text is appended
/// behind whole lines: the first line that assigns to `key` counts, not the
/// latest.
pub proof fn law_first_line_wins(text: Text, more: Text, key: Text)
    requires
        ends_lines(text),
        lookup_export(text, key) is Some,
    ensures
        lookup_export(text + more, key) == lookup_export(text, key),
{
    law_lines_of_appended(text, more);
    law_first_of_joined(lines(text), lines(more), key);
}

/// The line that the setter writes holds no line feed where neither the key
/// nor the value holds one.
proof fn lemma_export_text_is_one_line(key: Text, value: Text)
    requires
        !key.contains('\n'),
        !value.contains('\n'),
    ensures
        !export_text(key, value).contains('\n'),
        without_cr(export_text(key, value)) == export_text(key, value),
{
    reveal_strlit("\"");
    let quoted = "\""@ + value + "\""@;
    assert(export_text(key, value).last() == '"');
    assert forall|i: int| 0 <= i < quoted.len() implies quoted[i] != '\n' by {
        if 1 <= i < quoted.len() - 1 {
            assert(quoted[i] == value[i - 1]);
            assert(value.contains(value[i - 1]));
        }
    }
    assert(export_text(key, value) == export_prefix(key) + quoted);
    lemma_line_without_feed(key, quoted);
}

/// The entry of a variable, appended behind whole lines none of which
/// assigns to `key`, is found with the value as it was given.
pub proof fn law_found_after_append(text: Text, key: Text, value: Text)
    requires
        ends_lines(text),
        has_no_export(text, key),
        !key.contains('='),
        !key.contains('\n'),
        !value.contains('\n'),
    ensures
        lines(text + export_entry(key, value)) == lines(text).push(export_text(key, value)),
        lookup_export(text + export_entry(key, value), key) == Some(value),
{
    let line = export_text(key, value);
    lemma_export_text_is_one_line(key, value);
    law_one_line(line);
    law_lines_of_appended(text, export_entry(key, value));
    assert(lines(text) + seq![line] == lines(text).push(line));
    law_first_of_joined(lines(text), seq![line], key);
    law_none_without_export(lines(text), key);
    law_quoted_value(key, value);
    assert(seq![line].drop_first().len() == 0);
}

/// Of two entries of one variable that are appended one after the other,
/// the first one gives the value.
pub proof fn law_second_entry_is_shadowed(text: Text, key: Text, first: Text, second: Text)
    requires
        ends_lines(text),
        has_no_export(text, key),
        !key.contains('='),
        !key.contains('\n'),
        !first.contains('\n'),
    ensures
        lookup_export(text + export_entry(key, first) + export_entry(key, second), key) == Some(
            first,
        ),
{
    reveal_strlit("\n");
    law_found_after_append(text, key, first);
    let once = text + export_entry(key, first);
    assert(once.last() == '\n');
    law_first_line_wins(once, export_entry(key, second), key);
}

/// What `files` holds under `file`: nothing where there is no such file.
pub open spec fn content_of(files: TextMap, file: Text) -> Text {
    if files.contains_key(file) {
        files[file]
    } else {
        Seq::empty()
    }
}

/// A variable that was just set is found with the value that it was given,
/// whatever the store holds: the process has it, and the process is asked
/// first.
pub proof fn law_get_after_set(host: HostState, key: Text, value: Text)
    requires
        is_env_key(key),
        set_result(host) is Ok,
    ensures
        process_value(after_set(host, key, value), key) == Some(value),
        lookup(after_set(host, key, value), key) == Some(value),
        lookup_unix(after_set(host, key, value), key) == Some(value),
{
}

/// Setting a variable that cannot be persisted changes nothing.
pub proof fn law_failed_set_changes_nothing(host: HostState, key: Text, value: Text)
    requires
        set_result(host) is Err,
    ensures
        after_set(host, key, value) == host,
{
}

/// On a host with startup files, setting a variable appends its entry to
/// `.profile` and leaves every other file as it is. Behind whole lines the
/// entry is exactly one new line.
pub proof fn law_set_appends_one_line(host: HostState, key: Text, value: Text)
    requires
        host.store.home() is Some,
        set_result(host) is Ok,
        is_env_key(key),
    ensures
        ({
            let before = host.store.home().unwrap();
            let after = after_set(host, key, value).store.home().unwrap();
            let profile = content_of(before, ".profile"@);
            &&& after_set(host, key, value).store.home() is Some
            &&& after.dom() == before.dom().insert(".profile"@)
            &&& after[".profile"@] == profile + export_entry(key, value)
            &&& forall|file: Text| file != ".profile"@ && before.contains_key(file) ==> after[file]
                == before[file]
            &&& ends_lines(profile) && !key.contains('\n') && !value.contains('\n') ==> lines(
                after[".profile"@],
            ) == lines(profile).push(export_text(key, value))
        }),
{
    let before = host.store.home().unwrap();
    let after = after_set(host, key, value).store.home().unwrap();
    let profile = content_of(before, ".profile"@);
    assert(after.dom() =~= before.dom().insert(".profile"@));
    assert(after[".profile"@] == profile + export_entry(key, value)) by {
        if !before.contains_key(".profile"@) {
            assert(profile + export_entry(key, value) == export_entry(key, value));
        }
    }
    if ends_lines(profile) && !key.contains('\n') && !value.contains('\n') {
        let line = export_text(key, value);
        lemma_export_text_is_one_line(key, value);
        law_one_line(line);
        law_lines_of_appended(profile, export_entry(key, value));
        assert(lines(profile) + seq![line] == lines(profile).push(line));
    }
}

/// A variable that neither the process nor the store of the platform has
/// is not found.
pub proof fn law_absent(host: HostState, key: Text)
    requires
        !host.process.contains_key(key),
        host.store.user() is Some ==> !host.store.user().unwrap().contains_key(key),
        host.store.machine() is Some ==> !host.store.machine().unwrap().contains_key(key),
        host.store.home() is Some ==> has_no_export(
            content_of(host.store.home().unwrap(), startup_file(host)),
            key,
        ),
    ensures
        lookup(host, key) is None,
        lookup_unix(host, key) is None,
{
    if host.store.home() is Some {
        let files = host.store.home().unwrap();
        if files.contains_key(startup_file(host)) {
            law_none_without_export(lines(files[startup_file(host)]), key);
        }
    }
}

/// A variable that was set is still found by a process that does not have
/// it in its own table, where the store is as the setter left it. With a
/// registry that holds without condition. With startup files it holds
/// where the file that is searched is `.profile`, the file was made of
/// whole lines none of which assigned to the key, and neither key nor value
/// holds a line feed.
pub proof fn law_persisted_value_is_found(
    host: HostState,
    key: Text,
    value: Text,
    later: HostState,
)
    requires
        is_env_key(key),
        set_result(host) is Ok,
        later.store == after_set(host, key, value).store,
        !later.process.contains_key(key),
        host.store.home() is Some ==> ({
            let profile = content_of(host.store.home().unwrap(), ".profile"@);
            &&& startup_file(later) == ".profile"@
            &&& ends_lines(profile)
            &&& has_no_export(profile, key)
            &&& !key.contains('\n')
            &&& !value.contains('\n')
        }),
    ensures
        lookup(later, key) == Some(value),
        host.store.home() is Some ==> lookup_unix(later, key) == Some(value),
{
    if host.store.home() is Some {
        let profile = content_of(host.store.home().unwrap(), ".profile"@);
        law_set_appends_one_line(host, key, value);
        law_found_after_append(profile, key, value);
    }
}

/// Of two settings of one variable on a host with startup files, both are
/// appended to `.profile`, in their order, and a process without the
/// variable in its own table finds the first. That holds under the
/// conditions of `law_persisted_value_is_found`, for both values.
pub proof fn law_set_twice_finds_the_first(
    host: HostState,
    key: Text,
    first: Text,
    second: Text,
    later: HostState,
)
    requires
        is_env_key(key),
        !key.contains('\n'),
        !first.contains('\n'),
        !second.contains('\n'),
        host.store.home() is Some,
        set_result(host) is Ok,
        ends_lines(content_of(host.store.home().unwrap(), ".profile"@)),
        has_no_export(content_of(host.store.home().unwrap(), ".profile"@), key),
        later.store == after_set(after_set(host, key, first), key, second).store,
        !later.process.contains_key(key),
        startup_file(later) == ".profile"@,
    ensures
        ({
            let profile = content_of(host.store.home().unwrap(), ".profile"@);
            let twice = later.store.home().unwrap()[".profile"@];
            &&& twice == profile + export_entry(key, first) + export_entry(key, second)
            &&& lines(twice) == lines(profile).push(export_text(key, first)).push(
                export_text(key, second),
            )
            &&& lookup(later, key) == Some(first)
            &&& lookup_unix(later, key) == Some(first)
        }),
{
    reveal_strlit("\n");
    let profile = content_of(host.store.home().unwrap(), ".profile"@);
    let once = after_set(host, key, first);
    law_set_appends_one_line(host, key, first);
    let middle = content_of(once.store.home().unwrap(), ".profile"@);
    assert(middle == profile + export_entry(key, first));
    assert(middle.last() == '\n');
    law_set_appends_one_line(once, key, second);
    law_second_entry_is_shadowed(profile, key, first, second);
}

/// What the process holds comes before what the store holds, and in the
/// registry what the user holds comes before what the machine holds.
pub proof fn law_order_of_sources(host: HostState, key: Text)
    ensures
        host.process.contains_key(key) ==> lookup(host, key) == Some(host.process[key])
            && lookup_unix(host, key) == Some(host.process[key]),
        !host.process.contains_key(key) && host.store.user() is Some
            && host.store.user().unwrap().contains_key(key) ==> lookup(host, key) == Some(
            host.store.user().unwrap()[key],
        ),
        !host.process.contains_key(key) && !(host.store.user() is Some
            && host.store.user().unwrap().contains_key(key)) && host.store.machine() is Some
            && host.store.machine().unwrap().contains_key(key) ==> lookup(host, key) == Some(
            host.store.machine().unwrap()[key],
        ),
{
}

/// On a host with startup files the two lookups are one: what the startup
/// file gives is handed on to the caller.
pub proof fn law_lookups_agree_on_startup_files(host: HostState, key: Text)
    requires
        host.store.platform() == Platform::ShellFiles,
    ensures
        lookup(host, key) == lookup_unix(host, key),
{
}

} // verus!
