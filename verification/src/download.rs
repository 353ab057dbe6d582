//! Downloading an episode to disk: the decisions around the transfer.
//!
//! The transfer itself (spawning yt-dlp or ffmpeg, reading their
//! stderr, linking the finished file into place) is the caller's I/O;
//! this module decides the destination, the episode range, the tool
//! command lines, the lock location, what a file at the target means,
//! and what each outcome says on the progress stream.

use vstd::prelude::*;
use crate::error::AniError;
use crate::text::{
    all_digits, contains, decimal, find_char_from, is_digit, is_whitespace, parse_u32,
    parse_u32_spec, push_str, rfind_char, rfind_char_spec, starts_with, str_eq, to_lowercase,
    to_owned_string, to_uppercase, trim_start_spec, u32_to_string, unicode_lowercase,
    unicode_uppercase,
};

verus! {

/// Wire payload for the download endpoint: the play request's fields
/// plus an explicit destination directory.
#[derive(Debug, Clone, PartialEq, Eq)]
pub struct DownloadArgs {
    /// Canonical Kitsu title.
    pub title: String,
    /// Episode number, or a `first-last` range.
    pub episode: String,
    /// `"sub"` or `"dub"`.
    pub mode: String,
    /// `"best"`, `"worst"`, a height; `None` means `"best"`.
    pub quality: Option<String>,
    /// Kitsu's episode count.
    pub episode_count: Option<u32>,
    /// Year the show first aired.
    pub year: Option<u32>,
    /// Kitsu's subtype.
    pub subtype: Option<String>,
    /// Fallback titles.
    pub alt_titles: Vec<String>,
    /// Kitsu id of the show.
    pub kitsu_id: Option<String>,
    /// Directory the download lands in.
    pub download_dir: Option<String>,
}

/// One line of a download's progress stream.
#[derive(Debug, Clone, PartialEq, Eq)]
pub struct DownloadProgress {
    /// One line of text.
    pub line: String,
}

/// The final event of a download: the directory the file landed in.
#[derive(Debug, Clone, PartialEq, Eq)]
pub struct DownloadResponse {
    /// Directory the file was written to.
    pub dest_dir: String,
}

// ---------------------------------------------------------------------
// Destination and range
// ---------------------------------------------------------------------

/// The destination directory: the explicit one when non-empty, else
/// the platform default the caller resolved, else a configuration
/// error.
pub open spec fn resolve_dest_spec(
    download_dir: Option<Seq<char>>,
    default_dir: Option<Seq<char>>,
) -> Result<Seq<char>, AniError> {
    match download_dir {
        Some(d) if d.len() > 0 => Ok(d),
        _ => match default_dir {
            Some(d) => Ok(d),
            None => Err(AniError::Config),
        },
    }
}

/// The folder the user chose wins: a non-empty explicit directory is
/// the destination whatever the platform default is. Without one the
/// default is used, and with neither the download is refused as a
/// configuration error.
pub proof fn law_the_chosen_folder_wins(
    download_dir: Option<Seq<char>>,
    default_dir: Option<Seq<char>>,
)
    ensures
        ({
            let chosen = download_dir is Some && download_dir->0.len() > 0;
            let r = resolve_dest_spec(download_dir, default_dir);
            &&& chosen ==> r == Ok::<Seq<char>, AniError>(download_dir->0)
            &&& !chosen && default_dir is Some ==> r == Ok::<Seq<char>, AniError>(default_dir->0)
            &&& !chosen && default_dir is None ==> r == Err::<Seq<char>, AniError>(AniError::Config)
        }),
{
}

/// Resolve the destination directory: an explicit non-empty
/// `download_dir` wins over `default_dir` (the platform's download
/// directory, when one exists).
pub fn resolve_dest(args: &DownloadArgs, default_dir: Option<String>) -> (r: Result<String, AniError>)
    ensures
        match r {
            Ok(d) => resolve_dest_spec(
                match args.download_dir {
                    Some(s) => Some(s@),
                    None => None,
                },
                match default_dir {
                    Some(s) => Some(s@),
                    None => None,
                },
            ) == Ok::<Seq<char>, AniError>(d@),
            Err(e) => resolve_dest_spec(
                match args.download_dir {
                    Some(s) => Some(s@),
                    None => None,
                },
                match default_dir {
                    Some(s) => Some(s@),
                    None => None,
                },
            ) == Err::<Seq<char>, AniError>(e),
        },
{
    match &args.download_dir {
        Some(d) => {
            if !d.as_str().is_empty() {
                return Ok(to_owned_string(d.as_str()));
            }
        },
        None => {},
    }
    match default_dir {
        Some(d) => Ok(d),
        None => Err(AniError::Config),
    }
}

/// An episode range `first-last`: both halves integers (as
/// `str::parse::<u32>` reads them), split at the first `-`, in order.
pub open spec fn episode_range_spec(s: Seq<char>) -> Option<(u32, u32)> {
    match crate::text::find_char_spec(s, '-') {
        Some(i) => match (
            parse_u32_spec(s.subrange(0, i)),
            parse_u32_spec(s.subrange(i + 1, s.len() as int)),
        ) {
            (Some(a), Some(b)) => if a <= b {
                Some((a, b))
            } else {
                None
            },
            _ => None,
        },
        None => None,
    }
}

/// Read a `first-last` episode range (the Download All and Range
/// forms). Singles, fractional halves and reversed pairs are not
/// ranges.
pub fn episode_range(s: &str) -> (r: Option<(u32, u32)>)
    ensures
        r == episode_range_spec(s@),
{
    let len = s.unicode_len();
    match find_char_from(s, '-', 0) {
        Some(i) => {
            proof {
                assert(crate::text::is_first_index_of(s@, '-', i as int));
                let w = choose|w: int| crate::text::is_first_index_of(s@, '-', w);
                crate::text::lemma_first_index_unique(s@, '-', w, i as int);
            }
            let a = parse_u32(s.substring_char(0, i));
            let b = parse_u32(s.substring_char(i + 1, len));
            match (a, b) {
                (Some(a), Some(b)) => if a <= b {
                    Some((a, b))
                } else {
                    None
                },
                _ => None,
            }
        },
        None => {
            proof {
                assert forall|w: int| !crate::text::is_first_index_of(s@, '-', w) by {
                    if 0 <= w < s@.len() {
                        assert(s@[w] != '-');
                    }
                }
            }
            None
        },
    }
}

/// `"{a}-{b}"` is a range exactly when `a <= b`, and it reads back as
/// `(a, b)`; a bare integer is never a range.
pub proof fn law_ordered_pairs_and_only_they_are_ranges(a: u32, b: u32)
    ensures
        episode_range_spec(decimal(a as nat) + "-"@ + decimal(b as nat)) == (if a <= b {
            Some((a, b))
        } else {
            None
        }),
        episode_range_spec(decimal(a as nat)) is None,
{
    reveal_strlit("-");
    let da = decimal(a as nat);
    let db = decimal(b as nat);
    let s = da + "-"@ + db;
    crate::text::lemma_decimal(a as nat);
    crate::text::lemma_decimal(b as nat);
    crate::text::lemma_parse_decimal(a);
    crate::text::lemma_parse_decimal(b);
    assert(s[da.len() as int] == '-');
    assert forall|j: int| 0 <= j < da.len() implies s[j] != '-' by {
        assert(s[j] == da[j]);
        assert(is_digit(da[j]));
    }
    assert(crate::text::is_first_index_of(s, '-', da.len() as int));
    let w = choose|w: int| crate::text::is_first_index_of(s, '-', w);
    crate::text::lemma_first_index_unique(s, '-', w, da.len() as int);
    assert(s.subrange(0, da.len() as int) =~= da);
    assert(s.subrange(da.len() + 1int, s.len() as int) =~= db);
    assert forall|w: int| !crate::text::is_first_index_of(da, '-', w) by {
        if 0 <= w < da.len() {
            assert(is_digit(da[w]));
        }
    }
}

// ---------------------------------------------------------------------
// Names
// ---------------------------------------------------------------------

/// The file stem a single-episode download lands on.
pub open spec fn file_stem_spec(title: Seq<char>, episode: Seq<char>) -> Seq<char> {
    title + " Episode "@ + episode
}

/// `"{title} Episode {episode}"`: the stem of the downloaded file.
pub fn file_stem(title: &str, episode: &str) -> (r: String)
    ensures
        r@ == file_stem_spec(title@, episode@),
{
    let mut s = to_owned_string(title);
    push_str(&mut s, " Episode ");
    push_str(&mut s, episode);
    s
}

/// The name the lock of a file is kept under: the file's own name,
/// uppercased then lowercased, so case variants a case-insensitive
/// filesystem treats as one file (final sigma included) share a lock.
pub open spec fn lock_name_spec(name: Seq<char>) -> Seq<char> {
    unicode_lowercase(unicode_uppercase(name))
}

/// Whether a final path component names no file.
pub open spec fn no_file_name(name: Seq<char>) -> bool {
    name.len() == 0 || name == "."@ || name == ".."@
}

/// The last component of a `/`-separated path.
pub open spec fn file_name_spec(target: Seq<char>) -> Seq<char> {
    match rfind_char_spec(target, '/') {
        Some(i) => target.subrange(i + 1, target.len() as int),
        None => target,
    }
}

/// Where the cross-instance lock of a target file lives, given its
/// file name already folded: in a `.ani-gui-locks` directory beside the
/// file, under the folded name. `None` when the path names no file.
pub open spec fn lock_path_for_spec(target: Seq<char>, folded: Seq<char>) -> Option<Seq<char>> {
    if no_file_name(file_name_spec(target)) {
        None
    } else {
        match rfind_char_spec(target, '/') {
            Some(i) => Some(target.subrange(0, i) + "/.ani-gui-locks/"@ + folded),
            None => Some(".ani-gui-locks/"@ + folded),
        }
    }
}

/// Where the cross-instance lock of a target file lives: in a
/// `.ani-gui-locks` directory beside it, named after the file.
pub open spec fn lock_path_spec(target: Seq<char>) -> Option<Seq<char>> {
    lock_path_for_spec(target, lock_name_spec(file_name_spec(target)))
}

fn file_name_of(target: &str) -> (r: &str)
    ensures
        r@ == file_name_spec(target@),
{
    let len = target.unicode_len();
    match rfind_char(target, '/') {
        Some(i) => target.substring_char(i + 1, len),
        None => target,
    }
}

/// The lock path of a `/`-separated target file path whose file name
/// folds to `folded`; `None` when the path names no file.
pub fn lock_path_for(target: &str, folded: &str) -> (r: Option<String>)
    ensures
        match r {
            Some(p) => lock_path_for_spec(target@, folded@) == Some(p@),
            None => lock_path_for_spec(target@, folded@) is None,
        },
{
    proof {
        reveal_strlit(".");
        reveal_strlit("..");
        reveal_strlit("/.ani-gui-locks/");
        reveal_strlit(".ani-gui-locks/");
    }
    let name = file_name_of(target);
    if name.is_empty() || str_eq(name, ".") || str_eq(name, "..") {
        return None;
    }
    match rfind_char(target, '/') {
        Some(i) => {
            let mut p = to_owned_string(target.substring_char(0, i));
            push_str(&mut p, "/.ani-gui-locks/");
            push_str(&mut p, folded);
            Some(p)
        },
        None => {
            let mut p = to_owned_string(".ani-gui-locks/");
            push_str(&mut p, folded);
            Some(p)
        },
    }
}

/// The lock path of a `/`-separated target file path; `None` when the
/// path names no file.
pub fn target_lock_path(target: &str) -> (r: Option<String>)
    ensures
        match r {
            Some(p) => lock_path_spec(target@) == Some(p@),
            None => lock_path_spec(target@) is None,
        },
{
    let name = file_name_of(target);
    let folded = to_lowercase(to_uppercase(name).as_str());
    lock_path_for(target, folded.as_str())
}

/// The lock never leaves the directory of the file it guards, and two
/// targets in one directory whose names fold alike share one lock.
pub proof fn law_lock_stays_beside_its_target(dir: Seq<char>, name: Seq<char>, other: Seq<char>)
    requires
        !no_file_name(name),
        !no_file_name(other),
        !name.contains('/'),
        !other.contains('/'),
        lock_name_spec(name) == lock_name_spec(other),
    ensures
        lock_path_spec(dir + "/"@ + name) matches Some(p) && p.len() > dir.len() + 1 && p.subrange(
            0,
            dir.len() + 1int,
        ) == dir + "/"@,
        lock_path_spec(dir + "/"@ + name) == lock_path_spec(dir + "/"@ + other),
{
    reveal_strlit("/");
    reveal_strlit("/.ani-gui-locks/");
    lemma_last_slash(dir, name);
    lemma_last_slash(dir, other);
    let t = dir + "/"@ + name;
    let p = dir + "/.ani-gui-locks/"@ + lock_name_spec(name);
    assert(t.subrange(0, dir.len() as int) =~= dir);
    assert(p.subrange(0, dir.len() + 1int) =~= dir + "/"@);
    let t2 = dir + "/"@ + other;
    assert(t2.subrange(0, dir.len() as int) =~= dir);
}

/// The lock is never the target itself: locking it would create or
/// truncate the file the download is about to produce.
pub proof fn law_the_lock_is_never_the_target(dir: Seq<char>, name: Seq<char>)
    requires
        !no_file_name(name),
        !name.contains('/'),
    ensures
        lock_path_spec(dir + "/"@ + name) matches Some(p) && p != dir + "/"@ + name,
{
    reveal_strlit("/");
    reveal_strlit("/.ani-gui-locks/");
    lemma_last_slash(dir, name);
    let t = dir + "/"@ + name;
    let p = dir + "/.ani-gui-locks/"@ + lock_name_spec(name);
    assert(lock_path_spec(t) == Some(p));
    if p == t {
        let j = dir.len() + 15int;
        assert(p[j] == '/');
        assert(t[j] == name[14]);
        assert(name.contains('/'));
    }
}

/// Two files in one directory whose names fold differently never share
/// a lock.
pub proof fn law_distinct_folds_take_distinct_locks(dir: Seq<char>, a: Seq<char>, b: Seq<char>)
    requires
        !no_file_name(a),
        !no_file_name(b),
        !a.contains('/'),
        !b.contains('/'),
        lock_name_spec(a) != lock_name_spec(b),
    ensures
        lock_path_spec(dir + "/"@ + a) != lock_path_spec(dir + "/"@ + b),
{
    reveal_strlit("/");
    reveal_strlit("/.ani-gui-locks/");
    lemma_last_slash(dir, a);
    lemma_last_slash(dir, b);
    let head = dir + "/.ani-gui-locks/"@;
    let pa = head + lock_name_spec(a);
    let pb = head + lock_name_spec(b);
    assert(lock_path_spec(dir + "/"@ + a) == Some(pa));
    assert(lock_path_spec(dir + "/"@ + b) == Some(pb));
    if pa == pb {
        assert(pa.subrange(head.len() as int, pa.len() as int) =~= lock_name_spec(a));
        assert(pb.subrange(head.len() as int, pb.len() as int) =~= lock_name_spec(b));
    }
}

proof fn lemma_last_slash(dir: Seq<char>, name: Seq<char>)
    requires
        !name.contains('/'),
    ensures
        rfind_char_spec(dir + "/"@ + name, '/') == Some(dir.len() as int),
        (dir + "/"@ + name).subrange(dir.len() + 1int, (dir + "/"@ + name).len() as int) == name,
{
    reveal_strlit("/");
    let t = dir + "/"@ + name;
    assert(t[dir.len() as int] == '/');
    assert forall|j: int| dir.len() < j < t.len() implies t[j] != '/' by {
        assert(t[j] == name[j - dir.len() - 1]);
        if t[j] == '/' {
            assert(name.contains('/'));
        }
    }
    assert(crate::text::is_last_index_of(t, '/', dir.len() as int));
    let w = choose|w: int| crate::text::is_last_index_of(t, '/', w);
    if w != dir.len() {
        if w < dir.len() {
            assert(t[dir.len() as int] != '/');
        } else {
            assert(t[w] != '/');
        }
    }
    assert(t.subrange(dir.len() + 1int, t.len() as int) =~= name);
}

/// The name a transfer writes under before it is anyone's episode:
/// hidden, carrying the process id and a fresh token, ending `.mp4` so
/// both tools pick the MP4 container.
pub open spec fn scratch_name_spec(pid: u32, token: Seq<char>) -> Seq<char> {
    ".ani-gui-"@ + decimal(pid as nat) + "-"@ + token + ".part.mp4"@
}

/// Whether a token is what a version-4 UUID's simple form looks like:
/// 32 lowercase hexadecimal digits.
pub open spec fn is_simple_uuid(token: Seq<char>) -> bool {
    token.len() == 32 && forall|i: int|
        0 <= i < 32 ==> (('0' <= #[trigger] token[i] && token[i] <= '9') || ('a' <= token[i]
            && token[i] <= 'f'))
}

/// Calls `uuid::Uuid::new_v4().simple()`: a random version-4 UUID in
/// its simple form. Random, so the contract states only the shape every
/// outcome has: 32 lowercase hexadecimal digits.
#[verifier::external_body]
fn new_uuid_simple() -> (r: String)
    ensures
        is_simple_uuid(r@),
{
    uuid::Uuid::new_v4().simple().to_string()
}

/// The scratch file name of process `pid` under `token`.
pub fn scratch_name_with(pid: u32, token: &str) -> (r: String)
    ensures
        r@ == scratch_name_spec(pid, token@),
{
    let mut s = to_owned_string(".ani-gui-");
    push_str(&mut s, u32_to_string(pid).as_str());
    push_str(&mut s, "-");
    push_str(&mut s, token);
    push_str(&mut s, ".part.mp4");
    s
}

/// A fresh scratch file name for process `pid`.
pub fn scratch_name(pid: u32) -> (r: String)
    ensures
        exists|token: Seq<char>| is_simple_uuid(token) && r@ == scratch_name_spec(pid, token),
{
    let token = new_uuid_simple();
    scratch_name_with(pid, token.as_str())
}

// ---------------------------------------------------------------------
// What sits at a path
// ---------------------------------------------------------------------

/// How long an empty file must sit untouched before it counts as an
/// abandoned claim, in seconds.
pub const CLAIM_GRACE_SECS: u64 = 60;

/// What the filesystem said about a path, looked at without following
/// links.
#[derive(Debug, Clone, Copy, PartialEq, Eq, Structural)]
pub enum PathFacts {
    /// Nothing is there.
    Missing,
    /// The path could not be looked at.
    Unreadable,
    /// Something is there.
    Present {
        /// Whether it is a regular file.
        is_file: bool,
        /// Its length in bytes.
        len: u64,
        /// Seconds since its last modification, when readable and not
        /// in the future.
        age_secs: Option<u64>,
    },
}

/// What is sitting at a target path.
#[derive(Debug, Clone, Copy, PartialEq, Eq, Structural)]
pub enum AtTarget {
    /// Free.
    Nothing,
    /// A file with bytes in it: not ours to replace.
    Episode,
    /// An empty file young enough that its publisher is still running.
    LiveClaim,
    /// An empty file old enough that nobody is coming back for it.
    AbandonedClaim,
    /// Something that is not a regular file.
    Obstruction,
    /// The path could not be looked at: unknown, never free.
    Unreadable,
}

/// The classification of what is at a path.
pub open spec fn at_target_spec(f: PathFacts) -> AtTarget {
    match f {
        PathFacts::Missing => AtTarget::Nothing,
        PathFacts::Unreadable => AtTarget::Unreadable,
        PathFacts::Present { is_file, len, age_secs } => if !is_file {
            AtTarget::Obstruction
        } else if len > 0 {
            AtTarget::Episode
        } else {
            match age_secs {
                Some(a) => if a >= CLAIM_GRACE_SECS {
                    AtTarget::AbandonedClaim
                } else {
                    AtTarget::LiveClaim
                },
                None => AtTarget::LiveClaim,
            }
        },
    }
}

/// Classify what is at a path. Unreadable or future-dated timestamps
/// count as a live claim: the direction that loses a download rather
/// than a file.
pub fn at_target(f: PathFacts) -> (r: AtTarget)
    ensures
        r == at_target_spec(f),
{
    match f {
        PathFacts::Missing => AtTarget::Nothing,
        PathFacts::Unreadable => AtTarget::Unreadable,
        PathFacts::Present { is_file, len, age_secs } => if !is_file {
            AtTarget::Obstruction
        } else if len > 0 {
            AtTarget::Episode
        } else {
            match age_secs {
                Some(a) => if a >= CLAIM_GRACE_SECS {
                    AtTarget::AbandonedClaim
                } else {
                    AtTarget::LiveClaim
                },
                None => AtTarget::LiveClaim,
            }
        },
    }
}

/// Only a missing path is free: an unreadable one never is.
pub proof fn law_only_a_missing_path_is_free(f: PathFacts)
    ensures
        (at_target_spec(f) == AtTarget::Nothing) <==> (f == PathFacts::Missing),
        at_target_spec(f) == AtTarget::Episode ==> (f matches PathFacts::Present { is_file, len, .. }
            && is_file && len > 0),
{
}

/// The progress key said when the episode is already in the folder.
pub const ALREADY_HERE: &'static str = "status.download.already_here";

/// Before a transfer: what the target says about starting one.
#[derive(Debug, Clone, PartialEq, Eq)]
pub enum BeforeTransfer {
    /// Free: transfer.
    Proceed,
    /// The episode is already there: say so and end successfully.
    AlreadyHere,
    /// Refuse with `Io`, saying this line first when there is one.
    Refuse(Option<String>),
}

/// The line a refused transfer says first, given what is at the
/// target.
pub open spec fn refusal_line(at: AtTarget, target: Seq<char>) -> Option<Seq<char>> {
    match at {
        AtTarget::AbandonedClaim => Some("status.download.abandoned_claim "@ + target),
        AtTarget::LiveClaim => Some("status.download.claim_pending "@ + target),
        _ => None,
    }
}

/// Decide before spending a transfer: a free target proceeds; an
/// episode already there ends the download happily; a claim, abandoned
/// or outlasting the wait, is named on the progress stream and refused;
/// anything else is refused silently.
pub fn before_transfer(at: AtTarget, target: &str) -> (r: BeforeTransfer)
    ensures
        match r {
            BeforeTransfer::Proceed => at == AtTarget::Nothing,
            BeforeTransfer::AlreadyHere => at == AtTarget::Episode,
            BeforeTransfer::Refuse(line) => {
                &&& at != AtTarget::Nothing
                &&& at != AtTarget::Episode
                &&& match line {
                    Some(l) => refusal_line(at, target@) == Some(l@),
                    None => refusal_line(at, target@) is None,
                }
            },
        },
{
    match at {
        AtTarget::Nothing => BeforeTransfer::Proceed,
        AtTarget::Episode => BeforeTransfer::AlreadyHere,
        AtTarget::AbandonedClaim => {
            let mut line = to_owned_string("status.download.abandoned_claim ");
            push_str(&mut line, target);
            BeforeTransfer::Refuse(Some(line))
        },
        AtTarget::LiveClaim => {
            let mut line = to_owned_string("status.download.claim_pending ");
            push_str(&mut line, target);
            BeforeTransfer::Refuse(Some(line))
        },
        _ => BeforeTransfer::Refuse(None),
    }
}

/// What publication does first, given what is at the target.
#[derive(Debug, Clone, Copy, PartialEq, Eq, Structural)]
pub enum PublishGate {
    /// Try to link the finished file into place.
    Link,
    /// Fail with `Io`; remove the scratch file first when set.
    Refuse { drop_scratch: bool },
}

/// The publication decision.
pub open spec fn publish_gate_spec(at: AtTarget) -> PublishGate {
    match at {
        AtTarget::Nothing | AtTarget::Episode => PublishGate::Link,
        AtTarget::AbandonedClaim | AtTarget::LiveClaim => PublishGate::Refuse { drop_scratch: true },
        _ => PublishGate::Refuse { drop_scratch: false },
    }
}

/// Whether publication may ask the filesystem for the name: a free
/// name or an episode is asked (the link itself refuses an occupied
/// name); a claim is reported and never taken; an obstruction or an
/// unreadable target fails.
pub fn publish_gate(at: AtTarget) -> (r: PublishGate)
    ensures
        r == publish_gate_spec(at),
{
    match at {
        AtTarget::Nothing | AtTarget::Episode => PublishGate::Link,
        AtTarget::AbandonedClaim | AtTarget::LiveClaim => PublishGate::Refuse { drop_scratch: true },
        _ => PublishGate::Refuse { drop_scratch: false },
    }
}

/// What a link-free publication does after its create-new collided.
#[derive(Debug, Clone, Copy, PartialEq, Eq, Structural)]
pub enum Collision {
    /// The episode is there: drop the scratch file, report it present.
    AlreadyThere,
    /// The name went free again: claim it once more.
    ClaimAgain,
    /// Fail with `Io`, dropping the scratch file.
    Fail,
}

/// The collision decision.
pub open spec fn collision_spec(at: AtTarget, reclaimed: bool) -> Collision {
    match at {
        AtTarget::Episode => Collision::AlreadyThere,
        AtTarget::Nothing => if reclaimed {
            Collision::Fail
        } else {
            Collision::ClaimAgain
        },
        _ => Collision::Fail,
    }
}

/// Read a collision of a link-free publication: bytes are the episode;
/// a name gone free is claimed again, once; anything else is a failure
/// to report.
pub fn collision(at: AtTarget, reclaimed: bool) -> (r: Collision)
    ensures
        r == collision_spec(at, reclaimed),
{
    match at {
        AtTarget::Episode => Collision::AlreadyThere,
        AtTarget::Nothing => if reclaimed {
            Collision::Fail
        } else {
            Collision::ClaimAgain
        },
        _ => Collision::Fail,
    }
}

/// A link-free publication claims a freed name at most twice.
pub proof fn law_collisions_reclaim_once(at: AtTarget)
    ensures
        collision_spec(at, true) != Collision::ClaimAgain,
        collision_spec(at, false) == Collision::ClaimAgain ==> at == AtTarget::Nothing,
{
}

/// What a finished tool run left at the scratch path.
#[derive(Debug, Clone, Copy, PartialEq, Eq, Structural)]
pub enum ScratchOutcome {
    /// A file with bytes: publish it.
    Publish,
    /// Nothing usable was written: end successfully with nothing
    /// published.
    NothingWritten,
    /// The scratch path could not be looked at: fail with `Io`.
    Fail,
}

/// The finish decision.
pub open spec fn scratch_outcome_spec(at: AtTarget) -> ScratchOutcome {
    match at {
        AtTarget::Episode => ScratchOutcome::Publish,
        AtTarget::Unreadable => ScratchOutcome::Fail,
        _ => ScratchOutcome::NothingWritten,
    }
}

/// Decide what a finished tool run leaves to publish.
pub fn scratch_outcome(at: AtTarget) -> (r: ScratchOutcome)
    ensures
        r == scratch_outcome_spec(at),
{
    match at {
        AtTarget::Episode => ScratchOutcome::Publish,
        AtTarget::Unreadable => ScratchOutcome::Fail,
        _ => ScratchOutcome::NothingWritten,
    }
}

// ---------------------------------------------------------------------
// The tools
// ---------------------------------------------------------------------

/// yt-dlp's format sort for a quality setting: `worst` sorts by
/// ascending resolution, a height sorts toward it, anything else keeps
/// the default (best).
pub open spec fn ytdlp_sort_spec(quality: Option<Seq<char>>) -> Seq<Seq<char>> {
    match quality {
        Some(q) => if q == "worst"@ {
            seq!["-S"@, "+res"@]
        } else if q.len() > 0 && all_digits(q) {
            seq!["-S"@, "res:"@ + q]
        } else {
            Seq::empty()
        },
        None => Seq::empty(),
    }
}

/// The argument strings of a list of strings.
pub open spec fn views(v: Seq<String>) -> Seq<Seq<char>> {
    v.map_values(|s: String| s@)
}

fn push_arg(v: &mut Vec<String>, a: &str)
    ensures
        views(final(v)@) == views(old(v)@).push(a@),
{
    let ghost before = v@;
    v.push(to_owned_string(a));
    proof {
        assert(views(v@) =~= views(before).push(a@));
    }
}

/// yt-dlp's format-sort arguments for a quality setting.
pub fn ytdlp_sort_args(quality: Option<&str>) -> (r: Vec<String>)
    ensures
        views(r@) == ytdlp_sort_spec(
            match quality {
                Some(q) => Some(q@),
                None => None,
            },
        ),
{
    proof {
        reveal_strlit("worst");
    }
    let mut v: Vec<String> = Vec::new();
    match quality {
        Some(q) => {
            if str_eq(q, "worst") {
                push_arg(&mut v, "-S");
                push_arg(&mut v, "+res");
            } else if !q.is_empty() && crate::numbering::all_ascii_digits(q) {
                push_arg(&mut v, "-S");
                let mut r = to_owned_string("res:");
                push_str(&mut r, q);
                push_arg(&mut v, r.as_str());
            }
        },
        None => {},
    }
    proof {
        assert(views(v@) =~= ytdlp_sort_spec(
            match quality {
                Some(q) => Some(q@),
                None => None,
            },
        ));
    }
    v
}

/// yt-dlp's arguments: the stream, fragment retrying, sixteen-way
/// concurrency, the scratch output, then the format sort.
pub open spec fn ytdlp_argv_spec(
    master_url: Seq<char>,
    scratch: Seq<char>,
    quality: Option<Seq<char>>,
) -> Seq<Seq<char>> {
    seq![
        master_url,
        "--no-skip-unavailable-fragments"@,
        "--fragment-retries"@,
        "infinite"@,
        "-N"@,
        "16"@,
        "-o"@,
        scratch,
    ] + ytdlp_sort_spec(quality)
}

/// The yt-dlp command line for a resolved stream.
pub fn ytdlp_argv(master_url: &str, scratch: &str, quality: Option<&str>) -> (r: Vec<String>)
    ensures
        views(r@) == ytdlp_argv_spec(
            master_url@,
            scratch@,
            match quality {
                Some(q) => Some(q@),
                None => None,
            },
        ),
{
    let mut v: Vec<String> = Vec::new();
    push_arg(&mut v, master_url);
    push_arg(&mut v, "--no-skip-unavailable-fragments");
    push_arg(&mut v, "--fragment-retries");
    push_arg(&mut v, "infinite");
    push_arg(&mut v, "-N");
    push_arg(&mut v, "16");
    push_arg(&mut v, "-o");
    push_arg(&mut v, scratch);
    let sort = ytdlp_sort_args(quality);
    let ghost head = views(v@);
    let mut i: usize = 0;
    while i < sort.len()
        invariant
            i <= sort@.len(),
            views(v@) == head + views(sort@).subrange(0, i as int),
        decreases sort@.len() - i,
    {
        push_arg(&mut v, sort[i].as_str());
        proof {
            assert(views(sort@).subrange(0, i + 1) =~= views(sort@).subrange(0, i as int).push(
                sort@[i as int]@,
            ));
            assert(head + views(sort@).subrange(0, i + 1) =~= (head + views(sort@).subrange(
                0,
                i as int,
            )).push(sort@[i as int]@));
        }
        i = i + 1;
    }
    proof {
        assert(views(sort@).subrange(0, i as int) =~= views(sort@));
    }
    v
}

/// ffmpeg's arguments: overwrite the scratch name this run invented,
/// copy the stream without re-encoding.
pub open spec fn ffmpeg_argv_spec(master_url: Seq<char>, scratch: Seq<char>) -> Seq<Seq<char>> {
    seq![
        "-y"@,
        "-extension_picky"@,
        "0"@,
        "-loglevel"@,
        "error"@,
        "-stats"@,
        "-i"@,
        master_url,
        "-c"@,
        "copy"@,
        scratch,
    ]
}

/// The ffmpeg command line for a resolved stream.
pub fn ffmpeg_argv(master_url: &str, scratch: &str) -> (r: Vec<String>)
    ensures
        views(r@) == ffmpeg_argv_spec(master_url@, scratch@),
{
    let mut v: Vec<String> = Vec::new();
    push_arg(&mut v, "-y");
    push_arg(&mut v, "-extension_picky");
    push_arg(&mut v, "0");
    push_arg(&mut v, "-loglevel");
    push_arg(&mut v, "error");
    push_arg(&mut v, "-stats");
    push_arg(&mut v, "-i");
    push_arg(&mut v, master_url);
    push_arg(&mut v, "-c");
    push_arg(&mut v, "copy");
    push_arg(&mut v, scratch);
    proof {
        assert(views(v@) =~= ffmpeg_argv_spec(master_url@, scratch@));
    }
    v
}

/// What to do when a yt-dlp run failed.
#[derive(Debug, Clone, PartialEq, Eq)]
pub enum AfterYtdlp {
    /// Retry through ffmpeg on a fresh scratch name, saying this line.
    RetryFfmpeg(String),
    /// End with this error.
    Fail(AniError),
}

/// The fallback decision after a failed yt-dlp run.
pub open spec fn after_ytdlp_spec(
    repackage_failed: bool,
    ffmpeg_present: bool,
    err: AniError,
) -> (Option<Seq<char>>, Option<AniError>) {
    if !ffmpeg_present {
        (None, Some(if repackage_failed { AniError::FfmpegMissing } else { err }))
    } else if repackage_failed {
        (Some("status.download.repackage_retry"@), None)
    } else {
        (Some("status.download.retry_ffmpeg"@), None)
    }
}

/// Decide after a failed yt-dlp run: with ffmpeg installed, retry
/// through it (a repackage failure and an ordinary failure say
/// different lines); without it, a repackage failure asks for ffmpeg
/// and any other failure stands.
pub fn after_ytdlp(repackage_failed: bool, ffmpeg_present: bool, err: AniError) -> (r: AfterYtdlp)
    ensures
        match r {
            AfterYtdlp::RetryFfmpeg(line) => after_ytdlp_spec(repackage_failed, ffmpeg_present, err)
                == (Some(line@), None::<AniError>),
            AfterYtdlp::Fail(e) => after_ytdlp_spec(repackage_failed, ffmpeg_present, err) == (
                None::<Seq<char>>,
                Some(e),
            ),
        },
{
    if !ffmpeg_present {
        if repackage_failed {
            AfterYtdlp::Fail(AniError::FfmpegMissing)
        } else {
            AfterYtdlp::Fail(err)
        }
    } else if repackage_failed {
        AfterYtdlp::RetryFfmpeg(to_owned_string("status.download.repackage_retry"))
    } else {
        AfterYtdlp::RetryFfmpeg(to_owned_string("status.download.retry_ffmpeg"))
    }
}

/// The error a tool run that exited unsuccessfully ends with.
pub open spec fn tool_exit_spec(success: bool) -> Result<(), AniError> {
    if success {
        Ok(())
    } else {
        Err(AniError::Scraper { key: crate::i18n::keys::SCRAPER_PARSE_FAILED })
    }
}

/// Read a finished tool's exit status.
pub fn tool_exit(success: bool) -> (r: Result<(), AniError>)
    ensures
        r == tool_exit_spec(success),
{
    if success {
        Ok(())
    } else {
        Err(AniError::Scraper { key: crate::i18n::keys::SCRAPER_PARSE_FAILED })
    }
}

/// yt-dlp's own warning that it left MPEG-TS inside an `.mp4`, on one
/// line: the line, leading whitespace trimmed, starts with `WARNING:`
/// and mentions the condition.
pub open spec fn repackage_warning_line(line: Seq<char>) -> bool {
    let l = trim_start_spec(line);
    l.len() >= 8 && l.subrange(0, 8) == "WARNING:"@ && exists|k: int|
        crate::text::occurs_at(l, "Possible MPEG-TS in MP4 container"@, k)
}

/// Positions `i..j` of `s` are one whole line.
pub open spec fn is_line(s: Seq<char>, i: int, j: int) -> bool {
    &&& 0 <= i <= j <= s.len()
    &&& (i == 0 || s[i - 1] == '\n')
    &&& (j == s.len() || s[j] == '\n')
    &&& forall|k: int| i <= k < j ==> s[k] != '\n'
}

/// Whether some line of `stderr` is yt-dlp's repackage warning.
pub open spec fn could_not_repackage_spec(stderr: Seq<char>) -> bool {
    exists|i: int, j: int| is_line(stderr, i, j) && repackage_warning_line(stderr.subrange(i, j))
}

fn trim_start_str(s: &str) -> (r: &str)
    ensures
        r@ == trim_start_spec(s@),
{
    let len = s.unicode_len();
    let mut i: usize = 0;
    proof {
        assert(s@.subrange(0, len as int) =~= s@);
    }
    while i < len && crate::text::char_is_whitespace(s.get_char(i))
        invariant
            i <= len,
            len == s@.len(),
            trim_start_spec(s@) == trim_start_spec(s@.subrange(i as int, len as int)),
        decreases len - i,
    {
        proof {
            let cur = s@.subrange(i as int, len as int);
            assert(cur.skip(1) =~= s@.subrange(i + 1, len as int));
        }
        i = i + 1;
    }
    proof {
        let front = s@.subrange(i as int, len as int);
        assert(trim_start_spec(front) == front);
    }
    s.substring_char(i, len)
}

fn warning_line(line: &str) -> (r: bool)
    ensures
        r == repackage_warning_line(line@),
{
    proof {
        reveal_strlit("WARNING:");
    }
    let l = trim_start_str(line);
    let starts = starts_with(l, "WARNING:");
    proof {
        if l@.len() >= 8 {
            assert(("WARNING:"@).len() == 8);
        }
    }
    starts && contains(l, "Possible MPEG-TS in MP4 container")
}

/// Whether yt-dlp reported that it left MPEG-TS inside an `.mp4`:
/// anchored to its warning line, never to a title echoed elsewhere in
/// the output.
pub fn yt_dlp_could_not_repackage(stderr: &str) -> (r: bool)
    ensures
        r == could_not_repackage_spec(stderr@),
{
    let len = stderr.unicode_len();
    let mut start: usize = 0;
    while start <= len
        invariant
            start <= len,
            len == stderr@.len(),
            start == 0 || stderr@[start - 1] == '\n',
            forall|i: int, j: int|
                #![trigger is_line(stderr@, i, j)]
                is_line(stderr@, i, j) && i < start ==> !repackage_warning_line(
                    stderr@.subrange(i, j),
                ),
        decreases len + 1 - start,
    {
        let end = match find_char_from(stderr, '\n', start) {
            Some(e) => e,
            None => len,
        };
        proof {
            assert(is_line(stderr@, start as int, end as int));
        }
        if warning_line(stderr.substring_char(start, end)) {
            return true;
        }
        proof {
            assert forall|i: int, j: int|
                #![trigger is_line(stderr@, i, j)]
                is_line(stderr@, i, j) && i < end + 1 implies !repackage_warning_line(
                stderr@.subrange(i, j),
            ) by {
                if i >= start {
                    if i > start {
                        if i - 1 < end {
                            assert(stderr@[i - 1] != '\n');
                        }
                        assert(i - 1 == end);
                    } else {
                        if j > end {
                            assert(stderr@[end as int] == '\n');
                        }
                        if j < end {
                            assert(stderr@[j] != '\n');
                        }
                        assert(j == end);
                    }
                }
            }
        }
        if end == len {
            proof {
                assert forall|i: int, j: int| !(is_line(stderr@, i, j) && repackage_warning_line(
                    stderr@.subrange(i, j),
                )) by {
                    if is_line(stderr@, i, j) {
                        assert(i < end + 1);
                    }
                }
            }
            return false;
        }
        start = end + 1;
    }
    false
}

} // verus!
