//! One mount target: deciding what has to be done for it, and its status
//! line.

use crate::snapshot::MountSnapshot;
use crate::status::{may_become, Status, StatusView};
use crate::text::chars_of;
use crate::width::{first_line, fit_prefix, lemma_first_line, lemma_fit_prefix, shorten};
use vstd::prelude::*;
use vstd::string::*;
use vstd::utf8::encode_utf8;

verus! {

/// One remote filesystem that is to be mounted.
#[derive(Debug, Clone, PartialEq, Eq)]
pub struct Host {
    /// The name of the mount point below the base directory.
    pub local: String,
    /// What to mount, as the mount operation takes it.
    pub remote: String,
    /// The row of this target: its place in the list and on the terminal.
    pub y: i32,
    /// How far this target has come.
    pub status: Status,
}

/// A target with its texts as sequences of characters.
pub struct HostView {
    pub local: Seq<char>,
    pub remote: Seq<char>,
    pub y: int,
    pub status: StatusView,
}

impl View for Host {
    type V = HostView;

    open spec fn view(&self) -> HostView {
        HostView { local: self.local@, remote: self.remote@, y: self.y as int, status: self.status@ }
    }
}

/// A mount attempt to launch: mount `remote` on `at`, and report the
/// outcome under `row`.
#[derive(Debug, Clone, PartialEq, Eq)]
pub struct MountJob {
    pub row: i32,
    pub remote: String,
    pub at: String,
}

/// The words that the mount command takes for a mount attempt: the two
/// options that keep the connection alive, the remote and the mount point.
pub open spec fn job_arguments(remote: Seq<char>, at: Seq<char>) -> Seq<Seq<char>> {
    seq!["-o"@, "ServerAliveCountMax=3"@, "-o"@, "ServeraliveInterval=10"@, remote, at]
}

impl MountJob {
    /// The words to hand to the mount command for this attempt.
    pub fn arguments(&self) -> (words: Vec<String>)
        ensures
            words.len() == 6,
            forall|i: int| 0 <= i < 6 ==> (#[trigger] words[i])@ == job_arguments(self.remote@, self.at@)[i],
    {
        let mut words: Vec<String> = Vec::new();
        words.push(String::from_str("-o"));
        words.push(String::from_str("ServerAliveCountMax=3"));
        words.push(String::from_str("-o"));
        words.push(String::from_str("ServeraliveInterval=10"));
        words.push(self.remote.clone());
        words.push(self.at.clone());
        words
    }
}

/// The path of the mount point `local` below the directory `base`. A name
/// that starts at the root stands for itself; otherwise one separator stands
/// between the two, unless `base` is empty or ends in one already.
pub open spec fn mount_path_of(base: Seq<char>, local: Seq<char>) -> Seq<char> {
    if local.len() > 0 && local[0] == '/' {
        local
    } else if base.len() == 0 || base.last() == '/' {
        base + local
    } else {
        base + seq!['/'] + local
    }
}

/// The path of the mount point `local` below the directory `base`.
pub fn mount_path(base: &str, local: &str) -> (path: String)
    ensures
        path@ == mount_path_of(base@, local@),
{
    let head = chars_of(base);
    let tail = chars_of(local);
    let mut path = String::new();
    if tail.len() > 0 && tail[0] == '/' {
        path.append(local);
        assert(path@ == local@);
        return path;
    }
    path.append(base);
    assert(path@ == base@);
    if head.len() > 0 && head[head.len() - 1] != '/' {
        path.append("/");
        proof {
            reveal_strlit("/");
            assert("/"@ == seq!['/']);
        }
    }
    path.append(local);
    path
}

/// How `source` is written into a warning: in quotes and with its special
/// characters escaped, as std's `Debug` writes a string.
pub uninterp spec fn debug_form(source: Seq<char>) -> Seq<char>;

/// Calls `format!` of std with `{:?}` on a string slice. Taken on trust:
/// the result depends on the characters of the string alone.
#[verifier::external_body]
fn debug_quoted(source: &str) -> (quoted: String)
    ensures
        quoted@ == debug_form(source@),
{
    format!("{:?}", source)
}

/// The reason recorded for a target on whose mount point `source` is
/// mounted instead of what was declared.
pub open spec fn warn_reason(source: Seq<char>) -> Seq<char> {
    "already mounted, but wrong source? "@ + debug_form(source)
}

/// The status of a target on whose mount point another source is mounted,
/// given that source as it is to be quoted in the reason.
pub fn warned_with(quoted: &str) -> (status: Status)
    ensures
        status@ == StatusView::Warned("already mounted, but wrong source? "@ + quoted@),
{
    let mut why = String::from_str("already mounted, but wrong source? ");
    why.append(quoted);
    Status::Warned(why)
}

/// The status that the snapshot decides for a target that is to mount
/// `remote` on `at`.
pub open spec fn decided_status(
    snapshot: Map<Seq<char>, Seq<char>>,
    at: Seq<char>,
    remote: Seq<char>,
) -> StatusView {
    if !snapshot.contains_key(at) {
        StatusView::Pending
    } else if snapshot[at] == remote {
        StatusView::Okay
    } else {
        StatusView::Warned(warn_reason(snapshot[at]))
    }
}

/// The columns of a status line that the name and the reason share.
pub const LINE_WIDTH: usize = 77;

/// The columns left for a reason behind the name `local`: what the bytes
/// of the name leave of `LINE_WIDTH`, and nothing where the name alone is
/// longer.
pub open spec fn line_budget(local: Seq<char>) -> nat {
    let used = encode_utf8(local).len();
    if used <= LINE_WIDTH {
        (LINE_WIDTH - used) as nat
    } else {
        0
    }
}

/// The part of a status that is shown behind the name: the first line of
/// the reason of a flagged or failed target, cut to `budget` columns.
pub open spec fn detail_of(status: StatusView, budget: nat) -> Seq<char> {
    match status {
        StatusView::Warned(why) => fit_prefix(first_line(why), budget),
        StatusView::Failed(why) => fit_prefix(first_line(why), budget),
        _ => Seq::empty(),
    }
}

/// What is written before the name of a pending target: nothing.
pub const COLOR_MOUNT_PENDING: &'static str = "";

/// What is written before the name of a flagged target: yellow.
pub const COLOR_MOUNT_WARNED: &'static str = "\x1B[33m";

/// What is written before the name of a failed target: red.
pub const COLOR_MOUNT_FAILED: &'static str = "\x1B[31m";

/// What is written before the name of a mounted target: green.
pub const COLOR_MOUNT_OKAY: &'static str = "\x1B[32m";

/// What is written behind a name to end its colour.
pub const COLOR_RESET: &'static str = "\x1B[0m";

/// The status line of the target `local` in the given status, with `detail`
/// behind the name where the status has a reason to show. The name of a
/// decided target stands in the colour of its status.
pub open spec fn line_with(local: Seq<char>, status: StatusView, detail: Seq<char>) -> Seq<char> {
    match status {
        StatusView::Unknown => local + ": ???"@,
        StatusView::Pending => COLOR_MOUNT_PENDING@ + local + COLOR_RESET@ + ": ..."@,
        StatusView::Warned(_) => COLOR_MOUNT_WARNED@ + local + COLOR_RESET@ + " "@ + detail,
        StatusView::Failed(_) => COLOR_MOUNT_FAILED@ + local + COLOR_RESET@ + ": "@ + detail,
        StatusView::Okay => COLOR_MOUNT_OKAY@ + local + COLOR_RESET@ + ": OK "@,
    }
}

/// The status line of a target, as it is shown: the reason of a flagged or
/// failed target is cut to its first line and to the columns that the name
/// leaves of the line.
pub open spec fn status_line(host: HostView) -> Seq<char> {
    line_with(host.local, host.status, detail_of(host.status, line_budget(host.local)))
}

/// Whether a text holds no newline.
pub open spec fn one_line(s: Seq<char>) -> bool {
    forall|i: int| 0 <= i < s.len() ==> s[i] != '\n'
}

/// The status line of a target whose name holds no newline holds none
/// either, whatever its reason holds: it takes one line of the terminal.
pub proof fn lemma_status_line_is_one_line(host: HostView)
    requires
        one_line(host.local),
    ensures
        one_line(status_line(host)),
{
    reveal_strlit(": ???");
    reveal_strlit("");
    reveal_strlit("\x1B[0m");
    reveal_strlit(": ...");
    reveal_strlit("\x1B[33m");
    reveal_strlit(" ");
    reveal_strlit("\x1B[31m");
    reveal_strlit(": ");
    reveal_strlit("\x1B[32m");
    reveal_strlit(": OK ");
    let budget = line_budget(host.local);
    let detail = detail_of(host.status, budget);
    assert(one_line(detail)) by {
        match host.status {
            StatusView::Warned(why) => {
                lemma_first_line(why);
                lemma_fit_prefix(first_line(why), budget);
                assert forall|i: int| 0 <= i < detail.len() implies detail[i] != '\n' by {
                    assert(detail[i] == first_line(why)[i]);
                }
            },
            StatusView::Failed(why) => {
                lemma_first_line(why);
                lemma_fit_prefix(first_line(why), budget);
                assert forall|i: int| 0 <= i < detail.len() implies detail[i] != '\n' by {
                    assert(detail[i] == first_line(why)[i]);
                }
            },
            _ => {},
        }
    }
}

/// Writes the status line of the target `local` in the given status, with
/// `detail` as the text to show for a flagged or failed target.
pub fn line_with_detail(local: &str, status: &Status, detail: &str) -> (line: String)
    ensures
        line@ == line_with(local@, status@, detail@),
{
    let mut line = String::new();
    match status {
        Status::Unknown => {
            line.append(local);
            line.append(": ???");
            assert(line@ == local@ + ": ???"@);
        },
        Status::Pending => {
            line.append(COLOR_MOUNT_PENDING);
            line.append(local);
            line.append(COLOR_RESET);
            line.append(": ...");
            assert(line@ == COLOR_MOUNT_PENDING@ + local@ + COLOR_RESET@ + ": ..."@);
        },
        Status::Warned(_) => {
            line.append(COLOR_MOUNT_WARNED);
            line.append(local);
            line.append(COLOR_RESET);
            line.append(" ");
            line.append(detail);
            assert(line@ == COLOR_MOUNT_WARNED@ + local@ + COLOR_RESET@ + " "@ + detail@);
        },
        Status::Failed(_) => {
            line.append(COLOR_MOUNT_FAILED);
            line.append(local);
            line.append(COLOR_RESET);
            line.append(": ");
            line.append(detail);
            assert(line@ == COLOR_MOUNT_FAILED@ + local@ + COLOR_RESET@ + ": "@ + detail@);
        },
        Status::Okay => {
            line.append(COLOR_MOUNT_OKAY);
            line.append(local);
            line.append(COLOR_RESET);
            line.append(": OK ");
            assert(line@ == COLOR_MOUNT_OKAY@ + local@ + COLOR_RESET@ + ": OK "@);
        },
    }
    line
}

impl Host {
    /// A target that nothing has been decided for yet.
    pub fn new(local: String, remote: String, y: i32) -> (host: Host)
        ensures
            host.local == local,
            host.remote == remote,
            host.y == y,
            host.status@ is Unknown,
    {
        Host { local, remote, y, status: Status::Unknown }
    }

    /// Decides what has to be done for this target, which must be
    /// undecided. Its mount point is `mount_path_of(remote_path, local)`.
    /// Where the snapshot has the declared source mounted there, the target
    /// is mounted; where it has another source there, the target is flagged
    /// with a reason that names that source. Neither needs any work. Where
    /// the snapshot has nothing there, the target becomes pending and the
    /// mount attempt to launch for it is returned.
    pub fn check_and_spawn(&mut self, remote_path: &str, mounts: &MountSnapshot) -> (job: Option<
        MountJob,
    >)
        requires
            old(self).status@ is Unknown,
        ensures
            final(self).local == old(self).local,
            final(self).remote == old(self).remote,
            final(self).y == old(self).y,
            final(self).status@ == decided_status(
                mounts@,
                mount_path_of(remote_path@, old(self).local@),
                old(self).remote@,
            ),
            may_become(old(self).status@, final(self).status@),
            job is Some <==> !mounts@.contains_key(mount_path_of(remote_path@, old(self).local@)),
            job is Some <==> final(self).status@ is Pending,
            job matches Some(j) ==> j.row == old(self).y && j.remote@ == old(self).remote@ && j.at@
                == mount_path_of(remote_path@, old(self).local@),
    {
        let at = mount_path(remote_path, self.local.as_str());
        match mounts.get(at.as_str()) {
            Some(wat) => {
                if *wat == self.remote {
                    self.status = Status::Okay;
                } else {
                    let quoted = debug_quoted(wat.as_str());
                    self.status = warned_with(quoted.as_str());
                }
                None
            },
            None => {
                self.status = Status::Pending;
                Some(MountJob { row: self.y, remote: self.remote.clone(), at })
            },
        }
    }

    /// The status line of this target, without the newline that ends it.
    /// The reason of a flagged or failed target is cut to its first line and
    /// to the columns that the name leaves of a line.
    pub fn print(&self) -> (line: String)
        ensures
            line@ == status_line(self@),
    {
        let name = self.local.as_str();
        let used = name.as_bytes().len();
        let budget: usize = if used <= LINE_WIDTH {
            LINE_WIDTH - used
        } else {
            0
        };
        match &self.status {
            Status::Warned(why) => line_with_detail(name, &self.status, shorten(why.as_str(), budget)),
            Status::Failed(why) => line_with_detail(name, &self.status, shorten(why.as_str(), budget)),
            _ => line_with_detail(name, &self.status, ""),
        }
    }
}

} // verus!
