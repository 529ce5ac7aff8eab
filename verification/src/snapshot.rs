//! The mount snapshot: which source is mounted on which path, read once
//! from the listing of the mounted filesystems and never changed afterwards.

use crate::text::{
    chars_of, find, find_char, lemma_find_char, lemma_find_char_unique, lines_of,
    push_signed_decimal, signed_decimal, split_lines, text_of,
};
use vstd::hash_map::StringHashMap;
use vstd::prelude::*;
use vstd::string::*;

verus! {

/// What is mounted where: from the path of a mount point to the source
/// mounted on it.
pub struct MountSnapshot {
    map: StringHashMap<String>,
}

impl View for MountSnapshot {
    type V = Map<Seq<char>, Seq<char>>;

    closed spec fn view(&self) -> Map<Seq<char>, Seq<char>> {
        self.map@.map_values(|source: String| source@)
    }
}

impl MountSnapshot {
    /// A snapshot with nothing mounted.
    pub fn new() -> (snapshot: MountSnapshot)
        ensures
            snapshot@ == Map::<Seq<char>, Seq<char>>::empty(),
    {
        let snapshot = MountSnapshot { map: StringHashMap::new() };
        assert(snapshot@ =~= Map::<Seq<char>, Seq<char>>::empty());
        snapshot
    }

    /// Records that `source` is mounted on `on`. A later mount on the same
    /// path hides the earlier one.
    pub fn insert(&mut self, on: String, source: String)
        ensures
            final(self)@ == old(self)@.insert(on@, source@),
    {
        self.map.insert(on, source);
        assert(self@ =~= old(self)@.insert(on@, source@));
    }

    /// The source mounted on `path`, if anything is.
    pub fn get(&self, path: &str) -> (source: Option<&String>)
        ensures
            match source {
                Some(s) => self@.contains_key(path@) && s@ == self@[path@],
                None => !self@.contains_key(path@),
            },
    {
        self.map.get(path)
    }
}

/// The separator between source and mount point in a line of the listing.
pub open spec fn on_separator() -> Seq<char> {
    seq![' ', 'o', 'n', ' ']
}

/// The source and the mount point that a line of the listing names. Such a
/// line starts with a source, the word `on` between two spaces, a mount
/// point and one more space; neither source nor mount point is empty or
/// holds a space. Whatever follows the last of these spaces is ignored.
pub open spec fn mount_line_fields(line: Seq<char>) -> Option<(Seq<char>, Seq<char>)> {
    let a = find_char(line, ' ', 0);
    let b = find_char(line, ' ', a + 4);
    if 0 < a && a + 4 < b && b < line.len() && line.subrange(a, a + 4) == on_separator() {
        Some((line.subrange(0, a), line.subrange(a + 4, b)))
    } else {
        None
    }
}

/// Whether `s` holds no space.
pub open spec fn spaceless(s: Seq<char>) -> bool {
    forall|i: int| 0 <= i < s.len() ==> s[i] != ' '
}

/// A source, ` on `, a mount point, a space and any rest make a line that
/// names this source and this mount point.
pub proof fn lemma_mount_line_shape(source: Seq<char>, on: Seq<char>, rest: Seq<char>)
    requires
        source.len() > 0,
        on.len() > 0,
        spaceless(source),
        spaceless(on),
    ensures
        mount_line_fields(source + on_separator() + on + seq![' '] + rest) == Some((source, on)),
{
    let line = source + on_separator() + on + seq![' '] + rest;
    let a = source.len() as int;
    let b = a + 4 + on.len();
    assert forall|j: int| 0 <= j < a implies line[j] != ' ' by {
        assert(line[j] == source[j]);
    }
    assert(line[a] == ' ');
    lemma_find_char_unique(line, ' ', 0, a);
    assert forall|j: int| a + 4 <= j < b implies line[j] != ' ' by {
        assert(line[j] == on[j - a - 4]);
    }
    assert(line[b] == ' ');
    lemma_find_char_unique(line, ' ', a + 4, b);
    assert(line.subrange(a, a + 4) == on_separator());
    assert(line.subrange(0, a) == source);
    assert(line.subrange(a + 4, b) == on);
}

/// A line that names a source and a mount point is made of them as
/// `lemma_mount_line_shape` says.
pub proof fn lemma_mount_line_parts(line: Seq<char>)
    requires
        mount_line_fields(line) is Some,
    ensures
        ({
            let (source, on) = mount_line_fields(line)->0;
            let rest = line.skip((source.len() + on.len() + 5) as int);
            &&& source.len() > 0
            &&& on.len() > 0
            &&& spaceless(source)
            &&& spaceless(on)
            &&& line == source + on_separator() + on + seq![' '] + rest
        }),
{
    let a = find_char(line, ' ', 0);
    let b = find_char(line, ' ', a + 4);
    lemma_find_char(line, ' ', 0);
    lemma_find_char(line, ' ', a + 4);
    let (source, on) = mount_line_fields(line)->0;
    let rest = line.skip((source.len() + on.len() + 5) as int);
    assert(line.subrange(a, a + 4) == on_separator());
    assert(line =~= source + on_separator() + on + seq![' '] + rest) by {
        assert forall|j: int| 0 <= j < line.len() implies line[j] == (source + on_separator() + on
            + seq![' '] + rest)[j] by {
            if a <= j < a + 4 {
                assert(line.subrange(a, a + 4)[j - a] == line[j]);
            }
        }
    }
}

/// Reads one line of the listing, given as its characters.
pub fn mount_fields(line: &Vec<char>) -> (fields: Option<(String, String)>)
    ensures
        match fields {
            Some((source, on)) => mount_line_fields(line@) == Some((source@, on@)),
            None => mount_line_fields(line@) is None,
        },
{
    let n = line.len();
    let a = find(line, ' ', 0);
    if a == 0 || n < 4 || a >= n - 4 {
        proof {
            lemma_find_char(line@, ' ', 0);
        }
        return None;
    }
    let b = find(line, ' ', a + 4);
    if line[a + 1] != 'o' || line[a + 2] != 'n' || line[a + 3] != ' ' {
        assert(line@.subrange(a as int, a + 4)[1] == line@[a + 1]);
        assert(line@.subrange(a as int, a + 4)[2] == line@[a + 2]);
        assert(line@.subrange(a as int, a + 4)[3] == line@[a + 3]);
        return None;
    }
    if b == a + 4 || b >= n {
        return None;
    }
    proof {
        lemma_find_char(line@, ' ', 0);
        assert(line@.subrange(a as int, a + 4) =~= on_separator());
    }
    Some((text_of(line, 0, a), text_of(line, a + 4, b)))
}

/// Reads one line of the listing.
pub fn parse_mount_line(line: &str) -> (fields: Option<(String, String)>)
    ensures
        match fields {
            Some((source, on)) => mount_line_fields(line@) == Some((source@, on@)),
            None => mount_line_fields(line@) is None,
        },
{
    let chars = chars_of(line);
    mount_fields(&chars)
}

/// The snapshot that a listing amounts to: each line that names a source
/// and a mount point mounts the one on the other, in the order of the
/// lines, so that of two lines for one mount point the later one counts.
pub open spec fn snapshot_of(lines: Seq<Seq<char>>) -> Map<Seq<char>, Seq<char>>
    decreases lines.len(),
{
    if lines.len() == 0 {
        Map::empty()
    } else {
        let before = snapshot_of(lines.drop_last());
        match mount_line_fields(lines.last()) {
            Some((source, on)) => before.insert(on, source),
            None => before,
        }
    }
}

/// Reads the whole listing.
pub fn parse_mounts(listing: &str) -> (snapshot: MountSnapshot)
    ensures
        snapshot@ == snapshot_of(lines_of(listing@)),
{
    let lines = split_lines(listing);
    let mut snapshot = MountSnapshot::new();
    let ghost all = lines_of(listing@);
    let mut i: usize = 0;
    while i < lines.len()
        invariant
            i <= lines.len(),
            lines.len() == all.len(),
            forall|k: int| 0 <= k < lines.len() ==> (#[trigger] lines[k])@ == all[k],
            snapshot@ == snapshot_of(all.take(i as int)),
        decreases lines.len() - i,
    {
        proof {
            assert(all.take(i + 1).drop_last() == all.take(i as int));
            assert(all.take(i + 1).last() == all[i as int]);
        }
        match mount_fields(&lines[i]) {
            Some((source, on)) => {
                snapshot.insert(on, source);
            },
            None => {},
        }
        i = i + 1;
    }
    proof {
        assert(all.take(i as int) == all);
    }
    snapshot
}

/// Whether line `i` of a listing mounts something on `path`.
pub open spec fn line_mounts_on(lines: Seq<Seq<char>>, i: int, path: Seq<char>) -> bool {
    &&& 0 <= i < lines.len()
    &&& mount_line_fields(lines[i]) matches Some((_, on))
    &&& on == path
}

/// A path is in the snapshot exactly when some line of the listing mounts
/// something on it.
pub proof fn lemma_snapshot_domain(lines: Seq<Seq<char>>, path: Seq<char>)
    ensures
        snapshot_of(lines).contains_key(path) <==> exists|i: int| line_mounts_on(lines, i, path),
    decreases lines.len(),
{
    if lines.len() > 0 {
        let front = lines.drop_last();
        let last = lines.len() - 1;
        lemma_snapshot_domain(front, path);
        if snapshot_of(lines).contains_key(path) {
            if snapshot_of(front).contains_key(path) {
                let i = choose|i: int| line_mounts_on(front, i, path);
                assert(line_mounts_on(lines, i, path));
            } else {
                assert(line_mounts_on(lines, last, path));
            }
        }
        if exists|i: int| line_mounts_on(lines, i, path) {
            let i = choose|i: int| line_mounts_on(lines, i, path);
            if i < last {
                assert(line_mounts_on(front, i, path));
            }
        }
    }
}

/// Of the lines that mount something on one path, the last one decides
/// which source the snapshot records for it.
pub proof fn lemma_later_line_wins(lines: Seq<Seq<char>>, i: int, path: Seq<char>)
    requires
        line_mounts_on(lines, i, path),
        forall|j: int| i < j < lines.len() ==> !line_mounts_on(lines, j, path),
    ensures
        snapshot_of(lines).contains_key(path),
        mount_line_fields(lines[i]) matches Some((source, _)) && snapshot_of(lines)[path]
            == source,
    decreases lines.len(),
{
    let front = lines.drop_last();
    let last = lines.len() - 1;
    if i < last {
        assert(line_mounts_on(front, i, path));
        assert forall|j: int| i < j < front.len() implies !line_mounts_on(front, j, path) by {
            assert(!line_mounts_on(lines, j, path));
        }
        lemma_later_line_wins(front, i, path);
        assert(!line_mounts_on(lines, last, path));
    }
}

/// Why no snapshot could be had from the command that lists the mounts.
#[derive(Debug, Clone, Copy, PartialEq, Eq, Structural)]
pub enum ListingError {
    /// The command ended unsuccessfully with this exit status.
    ExitStatus(i32),
    /// The command ended unsuccessfully and reported no exit status.
    UnknownStatus,
}

/// The words in which a listing failure is reported.
pub open spec fn listing_message(e: ListingError) -> Seq<char> {
    match e {
        ListingError::ExitStatus(code) => "mount exited with status "@ + signed_decimal(
            code as int,
        ) + ", we can't do our job."@,
        ListingError::UnknownStatus => "mount exited with an unknown unsuccessful status, we can't do our job."@,
    }
}

impl ListingError {
    /// The report of this failure, for the operator.
    pub fn message(&self) -> (text: String)
        ensures
            text@ == listing_message(*self),
    {
        match self {
            ListingError::ExitStatus(code) => {
                let mut text = String::from_str("mount exited with status ");
                push_signed_decimal(&mut text, *code as i64);
                text.append(", we can't do our job.");
                text
            },
            ListingError::UnknownStatus => String::from_str(
                "mount exited with an unknown unsuccessful status, we can't do our job.",
            ),
        }
    }
}

/// Turns what the listing command gave into a snapshot: whether it ended
/// successfully, its exit status where it reported one, and what it wrote.
/// An unsuccessful command gives no snapshot, whatever it wrote.
pub fn read_mounts(success: bool, code: Option<i32>, listing: &str) -> (result: Result<
    MountSnapshot,
    ListingError,
>)
    ensures
        match result {
            Ok(snapshot) => success && snapshot@ == snapshot_of(lines_of(listing@)),
            Err(e) => !success && e == match code {
                Some(status) => ListingError::ExitStatus(status),
                None => ListingError::UnknownStatus,
            },
        },
{
    if !success {
        return Err(
            match code {
                Some(status) => ListingError::ExitStatus(status),
                None => ListingError::UnknownStatus,
            },
        );
    }
    Ok(parse_mounts(listing))
}

} // verus!
