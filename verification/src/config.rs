//! The list of targets, as the configuration text declares it: one
//! `name=remote` entry to a line, with `#` before a comment.

use crate::host::{Host, HostView};
use crate::status::StatusView;
use crate::text::{
    chars_of, copy_range, find, find_char, lemma_find_char_unique, lines_of, split_lines, text_of,
};
use vstd::prelude::*;

verus! {

/// Whether a name may start with `c`: a letter or digit of ASCII, `-` or `_`.
pub open spec fn is_name_start(c: char) -> bool {
    ||| 'A' <= c <= 'Z'
    ||| 'a' <= c <= 'z'
    ||| '0' <= c <= '9'
    ||| c == '-'
    ||| c == '_'
}

/// Whether a name may go on with `c`: as it may start, or with `.`.
pub open spec fn is_name_char(c: char) -> bool {
    is_name_start(c) || c == '.'
}

/// Whether `s` is the name of a target.
pub open spec fn is_name(s: Seq<char>) -> bool {
    &&& s.len() > 0
    &&& is_name_start(s[0])
    &&& forall|i: int| 0 < i < s.len() ==> is_name_char(#[trigger] s[i])
}

/// The name and the remote that a line declares: the line is a name, `=`
/// and the remote, which is all that follows, and holds no newline.
pub open spec fn host_line_fields(line: Seq<char>) -> Option<(Seq<char>, Seq<char>)> {
    let eq = find_char(line, '=', 0);
    if eq < line.len() && is_name(line.take(eq)) && find_char(line, '\n', 0) >= line.len() {
        Some((line.take(eq), line.skip(eq + 1)))
    } else {
        None
    }
}

/// A name, `=` and a remote without a newline make a line that declares
/// this name and this remote.
pub proof fn lemma_host_line_shape(name: Seq<char>, remote: Seq<char>)
    requires
        is_name(name),
        forall|i: int| 0 <= i < remote.len() ==> remote[i] != '\n',
    ensures
        host_line_fields(name + seq!['='] + remote) == Some((name, remote)),
{
    let line = name + seq!['='] + remote;
    let eq = name.len() as int;
    assert forall|i: int| 0 <= i < eq implies line[i] != '=' && line[i] != '\n' by {
        assert(line[i] == name[i]);
        if i > 0 {
            assert(is_name_char(name[i]));
        }
    }
    lemma_find_char_unique(line, '=', 0, eq);
    assert forall|i: int| 0 <= i < line.len() implies line[i] != '\n' by {
        if i > eq {
            assert(line[i] == remote[i - eq - 1]);
        }
    }
    lemma_find_char_unique(line, '\n', 0, line.len() as int);
    assert(line.take(eq) == name);
    assert(line.skip(eq + 1) == remote);
}

/// What stands before the first `#` of a line.
pub open spec fn strip_comment(line: Seq<char>) -> Seq<char> {
    line.take(find_char(line, '#', 0))
}

/// Whether `c` may start a name.
pub fn name_start(c: char) -> (r: bool)
    ensures
        r == is_name_start(c),
{
    ('A' <= c && c <= 'Z') || ('a' <= c && c <= 'z') || ('0' <= c && c <= '9') || c == '-' || c
        == '_'
}

/// Reads one line that holds no comment, given as its characters.
pub fn host_fields(line: &Vec<char>) -> (fields: Option<(String, String)>)
    ensures
        match fields {
            Some((name, remote)) => host_line_fields(line@) == Some((name@, remote@)),
            None => host_line_fields(line@) is None,
        },
{
    let n = line.len();
    let eq = find(line, '=', 0);
    if eq >= n || eq == 0 || !name_start(line[0]) {
        return None;
    }
    let mut i: usize = 1;
    while i < eq
        invariant
            1 <= i <= eq < n,
            n == line.len(),
            eq == find_char(line@, '=', 0),
            forall|k: int| 0 < k < i ==> is_name_char(#[trigger] line@[k]),
        decreases eq - i,
    {
        if !(name_start(line[i]) || line[i] == '.') {
            assert(line@.take(eq as int)[i as int] == line@[i as int]);
            return None;
        }
        i = i + 1;
    }
    if find(line, '\n', 0) < n {
        return None;
    }
    proof {
        assert forall|k: int| 0 < k < eq implies is_name_char(#[trigger] line@.take(eq as int)[k]) by {
            assert(is_name_char(line@[k]));
        }
    }
    Some((text_of(line, 0, eq), text_of(line, eq + 1, n)))
}

/// Reads one line that holds no comment.
pub fn parse_host_line(line: &str) -> (fields: Option<(String, String)>)
    ensures
        match fields {
            Some((name, remote)) => host_line_fields(line@) == Some((name@, remote@)),
            None => host_line_fields(line@) is None,
        },
{
    let chars = chars_of(line);
    host_fields(&chars)
}

/// What a line of the configuration declares, once its comment is taken
/// off: a name and a remote, or nothing.
pub open spec fn entry_of(line: Seq<char>) -> Option<(Seq<char>, Seq<char>)> {
    host_line_fields(strip_comment(line))
}

/// Whether a line is malformed: it holds something before its comment,
/// and that is no entry.
pub open spec fn is_bad_line(line: Seq<char>) -> bool {
    strip_comment(line).len() > 0 && entry_of(line) is None
}

/// The entries that the lines declare, in the order of the lines.
pub open spec fn entries_of(lines: Seq<Seq<char>>) -> Seq<(Seq<char>, Seq<char>)>
    decreases lines.len(),
{
    if lines.len() == 0 {
        Seq::empty()
    } else {
        let before = entries_of(lines.drop_last());
        match entry_of(lines.last()) {
            Some(entry) => before.push(entry),
            None => before,
        }
    }
}

/// The malformed lines, each without its comment, in the order of the lines.
pub open spec fn bad_lines_of(lines: Seq<Seq<char>>) -> Seq<Seq<char>>
    decreases lines.len(),
{
    if lines.len() == 0 {
        Seq::empty()
    } else {
        let before = bad_lines_of(lines.drop_last());
        if is_bad_line(lines.last()) {
            before.push(strip_comment(lines.last()))
        } else {
            before
        }
    }
}

/// More lines declare no fewer entries.
pub proof fn lemma_entries_grow(lines: Seq<Seq<char>>, n: int)
    requires
        0 <= n <= lines.len(),
    ensures
        entries_of(lines.take(n)).len() <= entries_of(lines).len(),
    decreases lines.len(),
{
    if n < lines.len() {
        assert(lines.drop_last().take(n) == lines.take(n));
        lemma_entries_grow(lines.drop_last(), n);
    } else {
        assert(lines.take(n) == lines);
    }
}

/// The target that an entry declares on row `row`: undecided as yet.
pub open spec fn declared_host(entry: (Seq<char>, Seq<char>), row: int) -> HostView {
    HostView { local: entry.0, remote: entry.1, y: row, status: StatusView::Unknown }
}

/// What a configuration text holds: the targets it declares, and the lines
/// that were passed over as malformed.
#[derive(Debug, Clone, PartialEq, Eq)]
pub struct HostList {
    pub hosts: Vec<Host>,
    pub bad_lines: Vec<String>,
}

/// The configuration declares more targets than there are row numbers.
#[derive(Debug, Clone, Copy, PartialEq, Eq)]
pub struct TooManyHosts;

/// Reads the configuration text. Each line that declares an entry gives a
/// target, undecided and on the row of its place among the entries. A line
/// that holds nothing before its comment is passed over; any other line is
/// malformed and is handed back. Reading fails only where the row of a
/// target would not fit in `i32`.
pub fn read_hosts(text: &str) -> (result: Result<HostList, TooManyHosts>)
    ensures
        match result {
            Ok(list) => {
                let entries = entries_of(lines_of(text@));
                let bad = bad_lines_of(lines_of(text@));
                &&& entries.len() <= i32::MAX + 1
                &&& list.hosts.len() == entries.len()
                &&& forall|i: int|
                    0 <= i < entries.len() ==> (#[trigger] list.hosts[i])@ == declared_host(
                        entries[i],
                        i,
                    )
                &&& list.bad_lines.len() == bad.len()
                &&& forall|i: int| 0 <= i < bad.len() ==> (#[trigger] list.bad_lines[i])@ == bad[i]
            },
            Err(_) => entries_of(lines_of(text@)).len() > i32::MAX + 1,
        },
{
    let lines = split_lines(text);
    let ghost all = lines_of(text@);
    let mut hosts: Vec<Host> = Vec::new();
    let mut bad_lines: Vec<String> = Vec::new();
    let mut i: usize = 0;
    while i < lines.len()
        invariant
            i <= lines.len(),
            all == lines_of(text@),
            lines.len() == all.len(),
            forall|k: int| 0 <= k < lines.len() ==> (#[trigger] lines[k])@ == all[k],
            hosts.len() == entries_of(all.take(i as int)).len(),
            hosts.len() <= i32::MAX + 1,
            forall|k: int|
                0 <= k < hosts.len() ==> (#[trigger] hosts[k])@ == declared_host(
                    entries_of(all.take(i as int))[k],
                    k,
                ),
            bad_lines.len() == bad_lines_of(all.take(i as int)).len(),
            forall|k: int|
                0 <= k < bad_lines.len() ==> (#[trigger] bad_lines[k])@ == bad_lines_of(
                    all.take(i as int),
                )[k],
        decreases lines.len() - i,
    {
        proof {
            assert(all.take(i + 1).drop_last() == all.take(i as int));
            assert(all.take(i + 1).last() == all[i as int]);
        }
        let line = &lines[i];
        let cut = find(line, '#', 0);
        let stripped = copy_range(line, 0, cut);
        if stripped.len() > 0 {
            match host_fields(&stripped) {
                Some((name, remote)) => {
                    if hosts.len() > 2147483647 {
                        proof {
                            lemma_entries_grow(all, i + 1);
                        }
                        return Err(TooManyHosts);
                    }
                    let row = hosts.len() as i32;
                    hosts.push(Host::new(name, remote, row));
                },
                None => {
                    bad_lines.push(text_of(&stripped, 0, stripped.len()));
                    assert(stripped@.subrange(0, stripped.len() as int) == stripped@);
                },
            }
        }
        i = i + 1;
    }
    proof {
        assert(all.take(i as int) == all);
    }
    Ok(HostList { hosts, bad_lines })
}

} // verus!
