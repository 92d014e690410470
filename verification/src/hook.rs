//! The theme hook script and the autostart entry: their places, their contents, and
//! taking this program's block out of an older shared hook script.

use vstd::prelude::*;
use crate::text::{
    chars_eq, chars_of, copy_range, find, find_chars, find_from, lemma_find_from, occurs_at, starts_with,
    starts_with_chars, string_of, text_eq, trim, trim_chars,
};

verus! {

/// The first line of this program's block in a shared hook script.
pub const HOOK_BEGIN: &'static str = "# >>> rgbpc sync hook >>>";

/// The last line of this program's block in a shared hook script.
pub const HOOK_END: &'static str = "# <<< rgbpc sync hook <<<";

/// The hook script that runs a theme sync in the background.
pub const HOOK_CONTENT: &'static str = "#!/bin/bash\nrgbpc --sync-theme &\n";

/// The autostart directory, below the home directory.
pub const RESTORE_AUTOSTART_DIR: &'static str = ".config/autostart";

/// The autostart entry's file name.
pub const RESTORE_AUTOSTART_FILE: &'static str = "rgbpc-restore.desktop";

/// The autostart entry that restores the lighting at login.
pub const RESTORE_AUTOSTART_CONTENT: &'static str = "[Desktop Entry]\nType=Application\nName=RGBPC Restore\nComment=Restore RGB lighting at login\nExec=rgbpc --restore-last\nTerminal=false\nX-GNOME-Autostart-enabled=true\n";

/// The hook script's place below the home directory.
pub const HOOK_RELATIVE_PATH: &'static str = ".config/omarchy/hooks/theme-set.d/rgbpc";

/// The directory of the hook script below the home directory.
pub const HOOK_DIR_RELATIVE_PATH: &'static str = ".config/omarchy/hooks/theme-set.d";

/// The older shared hook script's place below the home directory.
pub const LEGACY_HOOK_RELATIVE_PATH: &'static str = ".config/omarchy/hooks/theme-set";

/// `Path::join` of a relative path on Unix: a `/` goes between unless the base is
/// empty or already ends with one.
pub open spec fn join_path(base: Seq<char>, rel: Seq<char>) -> Seq<char> {
    if base.len() == 0 || base.last() == '/' {
        base + rel
    } else {
        base + seq!['/'] + rel
    }
}

/// `base` joined with the relative path `rel`.
pub fn join_relative(base: &str, rel: &str) -> (r: String)
    ensures
        r@ == join_path(base@, rel@),
{
    let b = chars_of(base);
    let mut out = string_of(b.as_slice());
    if b.len() > 0 && b[b.len() - 1] != '/' {
        out.append("/");
        proof {
            reveal_strlit("/");
        }
        assert("/"@ =~= seq!['/']);
    }
    out.append(rel);
    out
}

pub fn hook_path_from_home(home_dir: &str) -> (r: String)
    ensures
        r@ == join_path(home_dir@, HOOK_RELATIVE_PATH@),
{
    join_relative(home_dir, HOOK_RELATIVE_PATH)
}

pub fn legacy_hook_path_from_home(home_dir: &str) -> (r: String)
    ensures
        r@ == join_path(home_dir@, LEGACY_HOOK_RELATIVE_PATH@),
{
    join_relative(home_dir, LEGACY_HOOK_RELATIVE_PATH)
}

pub fn restore_autostart_path_from_home(home_dir: &str) -> (r: String)
    ensures
        r@ == join_path(join_path(home_dir@, RESTORE_AUTOSTART_DIR@), RESTORE_AUTOSTART_FILE@),
{
    let dir = join_relative(home_dir, RESTORE_AUTOSTART_DIR);
    join_relative(dir.as_str(), RESTORE_AUTOSTART_FILE)
}

/// The home directory as `dirs::home_dir` finds it, as text; a path that is not
/// valid UTF-8 is converted lossily, so the paths built on it then differ from the
/// directory itself. It depends on the environment, so nothing is stated of it.
#[verifier::external_body]
fn home_dir() -> Option<String> {
    dirs::home_dir().map(|p| p.to_string_lossy().into_owned())
}

/// The home directory that was found, or why there is none.
pub fn home_or_error(found: Option<String>) -> (r: Result<String, String>)
    ensures
        match found {
            Some(h) => r == Ok::<String, String>(h),
            None => r matches Err(m) && m@ == "Could not determine the user home directory"@,
        },
{
    match found {
        Some(h) => Ok(h),
        None => Err("Could not determine the user home directory".to_string()),
    }
}

/// The home directory, or why there is none.
pub fn user_home_dir() -> (r: Result<String, String>)
    ensures
        r matches Err(m) ==> m@ == "Could not determine the user home directory"@,
{
    home_or_error(home_dir())
}

/// The autostart entry's place for a home directory found or not.
pub fn autostart_path_for(home: Result<String, String>) -> (r: Result<String, String>)
    ensures
        match home {
            Ok(h) => r matches Ok(p) && p@ == join_path(
                join_path(h@, RESTORE_AUTOSTART_DIR@),
                RESTORE_AUTOSTART_FILE@,
            ),
            Err(e) => r == Err::<String, String>(e),
        },
{
    match home {
        Ok(h) => Ok(restore_autostart_path_from_home(h.as_str())),
        Err(e) => Err(e),
    }
}

/// The autostart entry's place in the current user's home directory.
pub fn get_restore_autostart_path() -> (r: Result<String, String>)
    ensures
        r matches Ok(p) ==> exists|h: Seq<char>|
            p@ == join_path(join_path(h, RESTORE_AUTOSTART_DIR@), RESTORE_AUTOSTART_FILE@),
        r matches Err(m) ==> m@ == "Could not determine the user home directory"@,
{
    let home = user_home_dir();
    let ghost h = home;
    let r = autostart_path_for(home);
    proof {
        if r is Ok {
            assert(h is Ok);
        }
    }
    r
}

/// Where this program's block lies in a shared hook script: from its first line to
/// the end of its last line and the line break after it, if any (`\r\n` or `\n`).
pub open spec fn block_range(s: Seq<char>) -> Option<(int, int)> {
    match find(s, HOOK_BEGIN@) {
        None => None,
        Some(start) => match find_from(s, HOOK_END@, start) {
            None => None,
            Some(e) => {
                let end = e + HOOK_END@.len();
                if starts_with(s.skip(end), seq!['\r', '\n']) {
                    Some((start, end + 2))
                } else if starts_with(s.skip(end), seq!['\n']) {
                    Some((start, end + 1))
                } else {
                    Some((start, end))
                }
            },
        },
    }
}

/// Where this program's block lies in `content`, counted in characters.
pub fn managed_block_range(content: &[char]) -> (r: Option<(usize, usize)>)
    ensures
        match r {
            Some((a, b)) => block_range(content@) == Some((a as int, b as int)) && a <= b
                <= content.len(),
            None => block_range(content@) is None,
        },
{
    let begin = chars_of(HOOK_BEGIN);
    let end_marker = chars_of(HOOK_END);
    proof {
        lemma_find_from(content@, begin@, 0);
    }
    let start = match find_chars(content, begin.as_slice(), 0) {
        Some(i) => i,
        None => return None,
    };
    proof {
        lemma_find_from(content@, end_marker@, start as int);
    }
    let e = match find_chars(content, end_marker.as_slice(), start) {
        Some(i) => i,
        None => return None,
    };
    assert(occurs_at(content@, end_marker@, e as int));
    assert(e + end_marker@.len() <= content@.len());
    assert(content@.len() == content.len());
    assert(end_marker@.len() == end_marker.len());
    let end = e + end_marker.len();
    let rest = copy_range(content, end, content.len());
    assert(rest@ =~= content@.skip(end as int));
    let crlf = chars_of("\r\n");
    let lf = chars_of("\n");
    proof {
        reveal_strlit("\r\n");
        reveal_strlit("\n");
    }
    assert(crlf@ =~= seq!['\r', '\n']);
    assert(lf@ =~= seq!['\n']);
    if starts_with_chars(rest.as_slice(), crlf.as_slice()) {
        Some((start, end + 2))
    } else if starts_with_chars(rest.as_slice(), lf.as_slice()) {
        Some((start, end + 1))
    } else {
        Some((start, end))
    }
}

/// `s` without the characters from `a` up to `b`.
pub open spec fn cut(s: Seq<char>, a: int, b: int) -> Seq<char> {
    s.take(a) + s.skip(b)
}

/// A shared hook script without this program's block, or `None` when it holds none.
pub open spec fn without_block(s: Seq<char>) -> Option<Seq<char>> {
    match block_range(s) {
        Some((a, b)) => Some(cut(s, a, b)),
        None => None,
    }
}

/// `content` without this program's block, or `None` when it holds none.
pub fn remove_managed_block(content: &str) -> (r: Option<String>)
    ensures
        match r {
            Some(u) => without_block(content@) == Some(u@),
            None => without_block(content@) is None,
        },
{
    let chars = chars_of(content);
    match managed_block_range(chars.as_slice()) {
        Some((a, b)) => {
            let mut kept = copy_range(chars.as_slice(), 0, a);
            let tail = copy_range(chars.as_slice(), b, chars.len());
            let mut i: usize = 0;
            let ghost head = kept@;
            while i < tail.len()
                invariant
                    i <= tail.len(),
                    kept@ == head + tail@.take(i as int),
                decreases tail.len() - i,
            {
                kept.push(tail[i]);
                assert(tail@.take(i + 1) =~= tail@.take(i as int).push(tail@[i as int]));
                i = i + 1;
            }
            assert(tail@.take(tail.len() as int) =~= tail@);
            assert(kept@ =~= cut(content@, a as int, b as int));
            Some(string_of(kept.as_slice()))
        },
        None => None,
    }
}

/// What to do with an older shared hook script.
#[derive(Debug, PartialEq, Eq)]
pub enum LegacyHookUpdate {
    /// It holds no block of this program: leave it.
    Keep,
    /// Without the block nothing but blank space or the shebang line is left: remove it.
    Remove,
    /// Write it back without the block.
    Rewrite(String),
}

/// The decision for an older shared hook script with content `s`.
pub open spec fn legacy_update(s: Seq<char>) -> Option<Option<Seq<char>>> {
    match without_block(s) {
        None => None,
        Some(u) => if trim(u).len() == 0 || trim(u) == "#!/bin/bash"@ {
            Some(None)
        } else {
            Some(Some(u))
        },
    }
}

pub open spec fn legacy_view(u: LegacyHookUpdate) -> Option<Option<Seq<char>>> {
    match u {
        LegacyHookUpdate::Keep => None,
        LegacyHookUpdate::Remove => Some(None),
        LegacyHookUpdate::Rewrite(t) => Some(Some(t@)),
    }
}

/// What to do with an older shared hook script whose content is `existing`.
pub fn legacy_hook_update(existing: &str) -> (r: LegacyHookUpdate)
    ensures
        legacy_view(r) == legacy_update(existing@),
{
    let updated = match remove_managed_block(existing) {
        Some(u) => u,
        None => return LegacyHookUpdate::Keep,
    };
    let t = trim_chars(chars_of(updated.as_str()).as_slice());
    let shebang = chars_of("#!/bin/bash");
    if t.len() == 0 || chars_eq(t.as_slice(), shebang.as_slice()) {
        LegacyHookUpdate::Remove
    } else {
        LegacyHookUpdate::Rewrite(updated)
    }
}

/// Whether an older shared hook script holds a block of this program.
pub fn legacy_hook_is_managed(existing: &str) -> (b: bool)
    ensures
        b == (block_range(existing@) is Some),
{
    let chars = chars_of(existing);
    managed_block_range(chars.as_slice()).is_some()
}

/// Whether the hook script has to be written: it is missing, or says something else.
pub fn hook_needs_write(existing: Option<&str>) -> (b: bool)
    ensures
        b == match existing {
            Some(c) => c@ != HOOK_CONTENT@,
            None => true,
        },
{
    match existing {
        Some(c) => !text_eq(c, HOOK_CONTENT),
        None => true,
    }
}

/// The permission bits that make the hook script executable.
pub const HOOK_MODE: u32 = 0o755;

/// Whether the hook script is in place as it should be: its content, and its
/// permission bits `rwxr-xr-x`.
pub fn hook_is_current(content: Option<&str>, mode: u32) -> (b: bool)
    ensures
        b == match content {
            Some(c) => c@ == HOOK_CONTENT@ && mode & 0o777 == HOOK_MODE,
            None => false,
        },
{
    match content {
        Some(c) => text_eq(c, HOOK_CONTENT) && (mode & 0o777) == HOOK_MODE,
        None => false,
    }
}

/// Whether the hook needs installing again: it is not in place, or the older shared
/// script still holds a block of this program.
pub fn hook_needs_migration(hook_is_current: bool, legacy_hook_is_managed: bool) -> (b: bool)
    ensures
        b == !(hook_is_current && !legacy_hook_is_managed),
{
    !(hook_is_current && !legacy_hook_is_managed)
}

/// A change to make on disk. A list of them is made in order, and the first that
/// fails stops the rest.
#[derive(Debug, PartialEq, Eq)]
pub enum FileOp {
    /// Create the directory and any missing parents.
    CreateDirAll(String),
    /// Write the file with this content.
    Write { path: String, content: String },
    /// Set the file's permission bits to `HOOK_MODE`.
    MakeExecutable(String),
    /// Remove the file; a missing file is no failure.
    RemoveIfExists(String),
}

/// A change on disk as plain values.
pub enum FileOpView {
    CreateDirAll(Seq<char>),
    Write(Seq<char>, Seq<char>),
    MakeExecutable(Seq<char>),
    RemoveIfExists(Seq<char>),
}

impl View for FileOp {
    type V = FileOpView;

    open spec fn view(&self) -> FileOpView {
        match self {
            FileOp::CreateDirAll(p) => FileOpView::CreateDirAll(p@),
            FileOp::Write { path, content } => FileOpView::Write(path@, content@),
            FileOp::MakeExecutable(p) => FileOpView::MakeExecutable(p@),
            FileOp::RemoveIfExists(p) => FileOpView::RemoveIfExists(p@),
        }
    }
}

/// Some changes on disk as plain values.
pub open spec fn ops_view(ops: Seq<FileOp>) -> Seq<FileOpView> {
    ops.map_values(|o: FileOp| o@)
}

/// The directory that has to exist before the hook script is read and written.
pub fn hook_dir_from_home(home_dir: &str) -> (r: String)
    ensures
        r@ == join_path(home_dir@, HOOK_DIR_RELATIVE_PATH@),
{
    join_relative(home_dir, HOOK_DIR_RELATIVE_PATH)
}

/// The changes that put the hook script in place, given what it holds now (`None`
/// when it is missing): it is written unless it already says the right thing, and
/// it is made executable either way.
pub open spec fn install_ops(home: Seq<char>, current: Option<Seq<char>>) -> Seq<FileOpView> {
    let path = join_path(home, HOOK_RELATIVE_PATH@);
    let write = match current {
        Some(c) => c != HOOK_CONTENT@,
        None => true,
    };
    (if write {
        seq![FileOpView::Write(path, HOOK_CONTENT@)]
    } else {
        Seq::empty()
    }) + seq![FileOpView::MakeExecutable(path)]
}

/// The changes that put the hook script in place, once its directory exists and its
/// content was read (`None` when it is missing). The older shared script is dealt
/// with after these by `remove_legacy_hook`.
pub fn install_hook(home_dir: &str, current: Option<&str>) -> (r: Vec<FileOp>)
    ensures
        ops_view(r@) == install_ops(home_dir@, match current {
            Some(c) => Some(c@),
            None => None,
        }),
{
    let path = hook_path_from_home(home_dir);
    let mut ops: Vec<FileOp> = Vec::new();
    if hook_needs_write(current) {
        ops.push(FileOp::Write { path: path.clone(), content: String::from_str(HOOK_CONTENT) });
    }
    ops.push(FileOp::MakeExecutable(path));
    assert(ops_view(ops@) =~= install_ops(home_dir@, match current {
        Some(c) => Some(c@),
        None => None,
    }));
    ops
}

/// The changes to the older shared hook script with content `legacy` (`None` when it
/// is missing): none when it holds no block of this program; its removal when
/// nothing but blank space or the shebang line would be left; else writing it back
/// without the block.
pub open spec fn legacy_ops(home: Seq<char>, legacy: Option<Seq<char>>) -> Seq<FileOpView> {
    let path = join_path(home, LEGACY_HOOK_RELATIVE_PATH@);
    match legacy {
        None => Seq::empty(),
        Some(c) => match legacy_update(c) {
            None => Seq::empty(),
            Some(None) => seq![FileOpView::RemoveIfExists(path)],
            Some(Some(u)) => seq![FileOpView::Write(path, u)],
        },
    }
}

/// The changes that take this program's block out of the older shared hook script.
pub fn remove_legacy_hook(home_dir: &str, legacy: Option<&str>) -> (r: Vec<FileOp>)
    ensures
        ops_view(r@) == legacy_ops(home_dir@, match legacy {
            Some(c) => Some(c@),
            None => None,
        }),
{
    let path = legacy_hook_path_from_home(home_dir);
    let mut ops: Vec<FileOp> = Vec::new();
    match legacy {
        None => {},
        Some(c) => match legacy_hook_update(c) {
            LegacyHookUpdate::Keep => {},
            LegacyHookUpdate::Remove => ops.push(FileOp::RemoveIfExists(path)),
            LegacyHookUpdate::Rewrite(u) => ops.push(FileOp::Write { path, content: u }),
        },
    }
    assert(ops_view(ops@) =~= legacy_ops(home_dir@, match legacy {
        Some(c) => Some(c@),
        None => None,
    }));
    ops
}

/// Whether the hook has to be installed again: unless the hook script holds the
/// right content with permission bits `rwxr-xr-x` and the older shared script
/// (when there is one) holds no block of this program.
pub open spec fn needs_migration(current: Option<Seq<char>>, mode: u32, legacy: Option<Seq<char>>) -> bool {
    !((match current {
        Some(c) => c == HOOK_CONTENT@ && mode & 0o777 == HOOK_MODE,
        None => false,
    }) && !(match legacy {
        Some(c) => block_range(c) is Some,
        None => false,
    }))
}

/// Whether the hook has to be installed again, from the hook script's content
/// (`None` when missing) and permission bits and the older shared script's content
/// (`None` when missing): it has to unless the hook is in place and the older
/// script holds no block of this program.
pub fn migrate_hook_if_needed(current: Option<&str>, mode: u32, legacy: Option<&str>) -> (b: bool)
    ensures
        b == needs_migration(
            match current {
                Some(c) => Some(c@),
                None => None,
            },
            mode,
            match legacy {
                Some(c) => Some(c@),
                None => None,
            },
        ),
{
    let current_ok = hook_is_current(current, mode);
    let managed = match legacy {
        Some(c) => legacy_hook_is_managed(c),
        None => false,
    };
    hook_needs_migration(current_ok, managed)
}

/// The change that removes the hook script; the older shared script is dealt with
/// after it by `remove_legacy_hook`.
pub fn remove_hook(home_dir: &str) -> (r: Vec<FileOp>)
    ensures
        ops_view(r@) == seq![FileOpView::RemoveIfExists(join_path(home_dir@, HOOK_RELATIVE_PATH@))],
{
    let mut ops: Vec<FileOp> = Vec::new();
    ops.push(FileOp::RemoveIfExists(hook_path_from_home(home_dir)));
    assert(ops_view(ops@) =~= seq![FileOpView::RemoveIfExists(join_path(home_dir@, HOOK_RELATIVE_PATH@))]);
    ops
}

/// The changes that put the autostart entry in place: its directory, then the entry.
pub fn install_restore_autostart(home_dir: &str) -> (r: Vec<FileOp>)
    ensures
        ops_view(r@) == seq![
            FileOpView::CreateDirAll(join_path(home_dir@, RESTORE_AUTOSTART_DIR@)),
            FileOpView::Write(
                join_path(join_path(home_dir@, RESTORE_AUTOSTART_DIR@), RESTORE_AUTOSTART_FILE@),
                RESTORE_AUTOSTART_CONTENT@,
            ),
        ],
{
    let dir = join_relative(home_dir, RESTORE_AUTOSTART_DIR);
    let path = join_relative(dir.as_str(), RESTORE_AUTOSTART_FILE);
    let mut ops: Vec<FileOp> = Vec::new();
    ops.push(FileOp::CreateDirAll(dir));
    ops.push(FileOp::Write { path, content: String::from_str(RESTORE_AUTOSTART_CONTENT) });
    assert(ops_view(ops@) =~= seq![
        FileOpView::CreateDirAll(join_path(home_dir@, RESTORE_AUTOSTART_DIR@)),
        FileOpView::Write(
            join_path(join_path(home_dir@, RESTORE_AUTOSTART_DIR@), RESTORE_AUTOSTART_FILE@),
            RESTORE_AUTOSTART_CONTENT@,
        ),
    ]);
    ops
}

/// The change that removes the autostart entry.
pub fn remove_restore_autostart(home_dir: &str) -> (r: Vec<FileOp>)
    ensures
        ops_view(r@) == seq![
            FileOpView::RemoveIfExists(
                join_path(join_path(home_dir@, RESTORE_AUTOSTART_DIR@), RESTORE_AUTOSTART_FILE@),
            ),
        ],
{
    let mut ops: Vec<FileOp> = Vec::new();
    ops.push(FileOp::RemoveIfExists(restore_autostart_path_from_home(home_dir)));
    assert(ops_view(ops@) =~= seq![
        FileOpView::RemoveIfExists(
            join_path(join_path(home_dir@, RESTORE_AUTOSTART_DIR@), RESTORE_AUTOSTART_FILE@),
        ),
    ]);
    ops
}

/// What `path` holds once `ops` have all been made, given what it held before
/// (`None` for a missing file).
pub open spec fn content_after(ops: Seq<FileOpView>, path: Seq<char>, before: Option<Seq<char>>) -> Option<
    Seq<char>,
>
    decreases ops.len(),
{
    if ops.len() == 0 {
        before
    } else {
        let earlier = content_after(ops.drop_last(), path, before);
        match ops.last() {
            FileOpView::Write(p, c) => if p == path {
                Some(c)
            } else {
                earlier
            },
            FileOpView::RemoveIfExists(p) => if p == path {
                None
            } else {
                earlier
            },
            _ => earlier,
        }
    }
}

/// Whether the last of `ops` that touches `path` makes it executable.
pub open spec fn left_executable(ops: Seq<FileOpView>, path: Seq<char>) -> bool
    decreases ops.len(),
{
    if ops.len() == 0 {
        false
    } else {
        match ops.last() {
            FileOpView::MakeExecutable(p) => p == path || left_executable(ops.drop_last(), path),
            FileOpView::Write(p, _) => p != path && left_executable(ops.drop_last(), path),
            FileOpView::RemoveIfExists(p) => p != path && left_executable(ops.drop_last(), path),
            FileOpView::CreateDirAll(_) => left_executable(ops.drop_last(), path),
        }
    }
}

/// What the older shared hook script holds once its block is dealt with.
pub open spec fn legacy_after(legacy: Option<Seq<char>>) -> Option<Seq<char>> {
    match legacy {
        None => None,
        Some(c) => match legacy_update(c) {
            None => Some(c),
            Some(None) => None,
            Some(Some(u)) => Some(u),
        },
    }
}

proof fn lemma_content_after_other(ops: Seq<FileOpView>, more: Seq<FileOpView>, path: Seq<char>, before: Option<Seq<char>>)
    requires
        forall|i: int| 0 <= i < more.len() ==> match #[trigger] more[i] {
            FileOpView::Write(p, _) => p != path,
            FileOpView::RemoveIfExists(p) => p != path,
            FileOpView::MakeExecutable(p) => p != path,
            FileOpView::CreateDirAll(_) => true,
        },
    ensures
        content_after(ops + more, path, before) == content_after(ops, path, before),
        left_executable(ops + more, path) == left_executable(ops, path),
    decreases more.len(),
{
    if more.len() == 0 {
        assert(ops + more =~= ops);
    } else {
        let shorter = more.drop_last();
        assert((ops + more).drop_last() =~= ops + shorter);
        assert((ops + more).last() == more[more.len() - 1]);
        lemma_content_after_other(ops, shorter, path, before);
    }
}

proof fn lemma_content_after_first(ops: Seq<FileOpView>, more: Seq<FileOpView>, path: Seq<char>, before: Option<Seq<char>>)
    requires
        forall|i: int| 0 <= i < ops.len() ==> match #[trigger] ops[i] {
            FileOpView::Write(p, _) => p != path,
            FileOpView::RemoveIfExists(p) => p != path,
            FileOpView::MakeExecutable(p) => p != path,
            FileOpView::CreateDirAll(_) => true,
        },
    ensures
        content_after(ops + more, path, before) == content_after(more, path, before),
    decreases more.len(),
{
    if more.len() == 0 {
        assert(ops + more =~= ops);
        lemma_untouched(ops, path, before);
    } else {
        let shorter = more.drop_last();
        assert((ops + more).drop_last() =~= ops + shorter);
        assert((ops + more).last() == more[more.len() - 1]);
        lemma_content_after_first(ops, shorter, path, before);
    }
}

proof fn lemma_untouched(ops: Seq<FileOpView>, path: Seq<char>, before: Option<Seq<char>>)
    requires
        forall|i: int| 0 <= i < ops.len() ==> match #[trigger] ops[i] {
            FileOpView::Write(p, _) => p != path,
            FileOpView::RemoveIfExists(p) => p != path,
            FileOpView::MakeExecutable(p) => p != path,
            FileOpView::CreateDirAll(_) => true,
        },
    ensures
        content_after(ops, path, before) == before,
    decreases ops.len(),
{
    if ops.len() > 0 {
        assert(ops.last() == ops[ops.len() - 1]);
        lemma_untouched(ops.drop_last(), path, before);
    }
}

/// Installing the hook and then dealing with the older shared script leaves the hook
/// script holding the right content and executable, and the older script with its
/// block dealt with and everything else kept; when that leaves it without a block of
/// this program, no further installation is needed.
pub proof fn law_install_settles_the_hook(home: Seq<char>, current: Option<Seq<char>>, legacy: Option<Seq<char>>)
    ensures
        ({
            let ops = install_ops(home, current) + legacy_ops(home, legacy);
            let hook = join_path(home, HOOK_RELATIVE_PATH@);
            let old_hook = join_path(home, LEGACY_HOOK_RELATIVE_PATH@);
            &&& content_after(ops, hook, current) == Some(HOOK_CONTENT@)
            &&& left_executable(ops, hook)
            &&& content_after(ops, old_hook, legacy) == legacy_after(legacy)
            &&& (match legacy_after(legacy) {
                Some(c) => block_range(c) is None,
                None => true,
            }) ==> !needs_migration(Some(HOOK_CONTENT@), HOOK_MODE, legacy_after(legacy))
        }),
{
    let hook = join_path(home, HOOK_RELATIVE_PATH@);
    let old_hook = join_path(home, LEGACY_HOOK_RELATIVE_PATH@);
    let first = install_ops(home, current);
    let second = legacy_ops(home, legacy);
    reveal_strlit(".config/omarchy/hooks/theme-set.d/rgbpc");
    reveal_strlit(".config/omarchy/hooks/theme-set");
    assert(hook.len() != old_hook.len());
    assert(HOOK_MODE & 0o777 == HOOK_MODE) by (bit_vector);
    lemma_content_after_other(first, second, hook, current);
    lemma_content_after_first(first, second, old_hook, legacy);
    if first.len() == 2 {
        let w = seq![FileOpView::Write(hook, HOOK_CONTENT@)];
        assert(first.drop_last() =~= w);
        assert(w.drop_last() =~= Seq::<FileOpView>::empty());
        assert(content_after(w, hook, current) == Some(HOOK_CONTENT@));
    } else {
        assert(first.drop_last() =~= Seq::<FileOpView>::empty());
        assert(content_after(first.drop_last(), hook, current) == current);
    }
}

} // verus!
