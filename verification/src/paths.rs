//! Which entries of the games directory are passed over, and where a game's own
//! directory is.
//!
//! Systems split paths differently. What is said here of a path's file name is
//! what holds on a system that separates components by `/` alone, and on one that
//! separates them by `\` too and knows drives, servers and devices.
use crate::failure::{failure_about, ErrorKind, Failure, FailureView};
use crate::text::{debug_path, path_debug};
use vstd::prelude::*;

verus! {

/// What separates the components of a path.
pub ghost enum Split {
    Slash,
    Backslash,
    Both,
}

/// Whether `c` separates components.
pub open spec fn separates(split: Split, c: char) -> bool {
    match split {
        Split::Slash => c == '/',
        Split::Backslash => c == '\\',
        Split::Both => c == '/' || c == '\\',
    }
}

/// Whether `c` separates the components of a path on some system.
pub open spec fn is_separator(c: char) -> bool {
    separates(Split::Both, c)
}

/// Where the last segment of `path` starts.
pub open spec fn last_segment_start(split: Split, path: Seq<char>) -> int
    decreases path.len(),
{
    if path.len() == 0 || separates(split, path.last()) {
        path.len() as int
    } else {
        last_segment_start(split, path.drop_last())
    }
}

/// The final component of a path without a drive or a server. Empty segments and
/// `.` count for nothing; there is none where the path ends in `..` or holds no
/// name.
pub open spec fn last_component(split: Split, path: Seq<char>) -> Option<Seq<char>>
    decreases path.len(),
{
    let start = last_segment_start(split, path);
    if start < 0 || path.len() < start {
        None
    } else {
        let segment = path.skip(start);
        if segment.len() == 0 || segment == seq!['.'] {
            if start == 0 {
                None
            } else {
                last_component(split, path.take(start - 1))
            }
        } else if segment == seq!['.', '.'] {
            None
        } else {
            Some(segment)
        }
    }
}

/// The final component of a path, where `/` alone separates.
pub open spec fn final_component(path: Seq<char>) -> Option<Seq<char>> {
    last_component(Split::Slash, path)
}

/// Whether `path` may start with the name of a drive, such as `C:`.
pub open spec fn may_start_with_drive(path: Seq<char>) -> bool {
    path.len() >= 2 && !is_separator(path[0]) && path[1] == ':'
}

/// Whether `path` starts with two separators, as the names of servers and devices
/// do: `\\server\share`, `\\.\COM42`.
pub open spec fn starts_with_two_separators(path: Seq<char>) -> bool {
    path.len() >= 2 && is_separator(path[0]) && is_separator(path[1])
}

/// Whether `path` starts with `\\?\`, after which `\` alone separates.
pub open spec fn is_verbatim(path: Seq<char>) -> bool {
    path.len() >= 4 && path.take(4) == seq!['\\', '\\', '?', '\\']
}

/// Where the first separator of `path` is, or its length.
pub open spec fn first_separator(path: Seq<char>) -> int
    decreases path.len(),
{
    if path.len() == 0 || is_separator(path[0]) {
        0
    } else {
        1 + first_separator(path.drop_first())
    }
}

/// `path` without its first segment and the separator behind it.
pub open spec fn after_segment(path: Seq<char>) -> Seq<char> {
    if first_separator(path) < path.len() {
        path.skip(first_separator(path) + 1)
    } else {
        Seq::empty()
    }
}

/// What is left of a path that starts with the name of a server and a share, or
/// of a device.
pub open spec fn after_server(path: Seq<char>) -> Seq<char> {
    after_segment(after_segment(path.skip(2)))
}

/// Whether `name` can be what `Path::file_name` returns for `path`: its final
/// component on a system where `/` separates, or on one where `\` separates too,
/// with or without the drive or the server that the path may start with.
pub open spec fn file_name_of(path: Seq<char>, name: Option<Seq<char>>) -> bool {
    ||| name == final_component(path)
    ||| name == last_component(Split::Both, path)
    ||| may_start_with_drive(path) && name == last_component(Split::Both, path.skip(2))
    ||| starts_with_two_separators(path) && name == last_component(Split::Both, after_server(path))
    ||| is_verbatim(path) && (name is None || name == last_component(Split::Backslash, path))
}

/// Whether `path` has the same file name on every system.
pub open spec fn is_portable(path: Seq<char>) -> bool {
    forall|name: Option<Seq<char>>| #[trigger]
        file_name_of(path, name) ==> name == final_component(path)
}

/// A borrowed text as a value, where there is one.
pub open spec fn text_view(text: Option<&str>) -> Option<Seq<char>> {
    match text {
        Some(t) => Some(t@),
        None => None,
    }
}

/// `std::path::Path::file_name`: the final component of a path, with repeated and
/// trailing separators and `.` segments left out, and nothing where the path ends
/// in `..` or has no such component. What separates components is the system's
/// matter: `/`, or both `/` and `\`, and then a drive, or a server with its share,
/// that the path starts with is no component. In a path that starts with `\\?\`
/// only `\` separates then, and there may be no file name at all.
#[verifier::external_body]
pub(crate) fn file_name(path: &str) -> (name: Option<&str>)
    ensures
        file_name_of(path@, text_view(name)),
{
    match std::path::Path::new(path).file_name() {
        Some(name) => name.to_str(),
        None => None,
    }
}

/// Whether an entry of this name is passed over: hidden files and editor
/// backups.
pub open spec fn is_ignored_name(name: Seq<char>) -> bool {
    name.len() > 0 && (name[0] == '.' || name[0] == '#')
}

/// What is decided about `path`, given its file name.
pub open spec fn ignore_verdict(path: Seq<char>, name: Option<Seq<char>>) -> Result<
    bool,
    FailureView,
> {
    match name {
        Some(n) => Ok(is_ignored_name(n)),
        None => Err(
            failure_about(ErrorKind::Other, path_debug(path), ": invalid path in games dir"@),
        ),
    }
}

/// What a decision says.
pub open spec fn verdict_view(verdict: Result<bool, Failure>) -> Result<bool, FailureView> {
    match verdict {
        Ok(ignored) => Ok(ignored),
        Err(failure) => Err(failure@),
    }
}

/// Whether `verdict` can be what [`should_ignore`] returns for `path`: the
/// decision about a file name that the path can have.
pub open spec fn is_verdict_on(path: Seq<char>, verdict: Result<bool, FailureView>) -> bool {
    exists|name: Option<Seq<char>>| #[trigger]
        file_name_of(path, name) && verdict == ignore_verdict(path, name)
}

/// Whether `verdict` is the decision about the file name that `Path::file_name`
/// returned for `path`, on the system that this runs on.
pub closed spec fn is_system_verdict(path: Seq<char>, verdict: Result<bool, FailureView>) -> bool {
    exists|p: &str, name: Option<&str>| #[trigger]
        call_ensures(file_name, (p,), name) && p@ == path && verdict == ignore_verdict(
            path,
            text_view(name),
        )
}

/// Decides about a path of the games directory whose file name is known.
pub fn should_ignore_named(path: &str, name: Option<&str>) -> (verdict: Result<bool, Failure>)
    ensures
        verdict_view(verdict) == ignore_verdict(path@, text_view(name)),
        name matches Some(n) ==> (verdict matches Ok(ignored) && ignored == (n@.len() > 0 && (n@[0]
            == '.' || n@[0] == '#'))),
        name is None ==> (verdict matches Err(failure) && failure.kind == ErrorKind::Other
            && failure.message@ == path_debug(path@) + ": invalid path in games dir"@),
{
    match name {
        Some(name) => {
            if name.is_empty() {
                Ok(false)
            } else {
                let first = name.get_char(0);
                Ok(first == '.' || first == '#')
            }
        },
        None => {
            let quoted = debug_path(path);
            Err(Failure::about(ErrorKind::Other, quoted.as_str(), ": invalid path in games dir"))
        },
    }
}

/// Decides whether a path of the games directory is passed over: whether its
/// file name starts with `.` or `#`. A path without a file name is an error.
pub fn should_ignore(path: &str) -> (verdict: Result<bool, Failure>)
    ensures
        is_verdict_on(path@, verdict_view(verdict)),
        is_system_verdict(path@, verdict_view(verdict)),
        is_portable(path@) ==> verdict_view(verdict) == ignore_verdict(
            path@,
            final_component(path@),
        ),
{
    let name = file_name(path);
    assert(call_ensures(file_name, (path,), name));
    should_ignore_named(path, name)
}

/// The verdict of the system is made of what `Path::file_name` returned, and so it
/// is one of those that the path can get.
pub(crate) proof fn law_system_verdict_is_on_the_file_name(
    path: Seq<char>,
    verdict: Result<bool, FailureView>,
)
    requires
        is_system_verdict(path, verdict),
    ensures
        is_verdict_on(path, verdict),
        exists|p: &str, name: Option<&str>| #[trigger]
            call_ensures(file_name, (p,), name) && p@ == path && match name {
                Some(n) => verdict == Ok::<bool, FailureView>(
                    n@.len() > 0 && (n@[0] == '.' || n@[0] == '#'),
                ),
                None => verdict matches Err(failure) && failure.kind == ErrorKind::Other
                    && failure.message == path_debug(path) + ": invalid path in games dir"@,
            },
{
    let (p, name) = choose|p: &str, name: Option<&str>| #[trigger]
        call_ensures(file_name, (p,), name) && p@ == path && verdict == ignore_verdict(
            path,
            text_view(name),
        );
    assert(file_name_of(path, text_view(name)));
    assert(call_ensures(file_name, (p,), name));
}

/// Whether a name is ignored is decided by its first character: it is if that is
/// `.` or `#`, and it is not if that is any other or there is none. A path without a
/// file name is invalid, which is said of it.
pub proof fn law_only_dot_and_hash_are_ignored(path: Seq<char>, name: Seq<char>)
    ensures
        name.len() == 0 ==> ignore_verdict(path, Some(name)) == Ok::<bool, FailureView>(false),
        name.len() > 0 && name[0] != '.' && name[0] != '#' ==> ignore_verdict(path, Some(name))
            == Ok::<bool, FailureView>(false),
        name.len() > 0 && (name[0] == '.' || name[0] == '#') ==> ignore_verdict(path, Some(name))
            == Ok::<bool, FailureView>(true),
        ignore_verdict(path, None) matches Err(failure) && failure.kind == ErrorKind::Other
            && failure.message == path_debug(path) + ": invalid path in games dir"@,
{
}

/// Whether `path`, taken as a path below another, stays below it on every system:
/// it starts neither with a separator nor with a drive.
pub open spec fn is_relative(path: Seq<char>) -> bool {
    !(path.len() > 0 && is_separator(path[0])) && !may_start_with_drive(path)
}

/// Whether `joined` can be what `Path::join` makes of `root` and `name`: the two
/// texts in a row, with a separator of the system between them where `root` is not
/// empty and does not end in one, nor in the name of a drive.
pub open spec fn is_joined(root: Seq<char>, name: Seq<char>, joined: Seq<char>) -> bool {
    is_relative(name) && !is_verbatim(root) ==> {
        ||| joined == root.push('/') + name && root.len() > 0 && root.last() != '/'
        ||| joined == root.push('\\') + name && root.len() > 0 && !is_separator(root.last())
        ||| joined == root + name && (root.len() == 0 || is_separator(root.last()) || (root.len()
            == 2 && may_start_with_drive(root)))
    }
}

/// `std::path::Path::join`: the path `name` below the path `root`. Their texts are
/// put in a row, with the system's separator between them where one is missing.
/// What is made of a `name` that starts with a separator or a drive, and of a
/// `root` that starts with `\\?\`, depends on the system, and is left unsaid.
#[verifier::external_body]
pub(crate) fn join(root: &str, name: &str) -> (joined: String)
    ensures
        is_joined(root@, name@, joined@),
{
    std::path::Path::new(root).join(name).to_string_lossy().into_owned()
}

/// Whether `joined` is what `Path::join` returned for `root` and `name`, on the system
/// that this runs on.
pub closed spec fn is_join_result(root: Seq<char>, name: Seq<char>, joined: Seq<char>) -> bool {
    exists|r: &str, n: &str, j: String| #[trigger]
        call_ensures(join, (r, n), j) && r@ == root && n@ == name && j@ == joined
}

/// The path `name` below the path `root`, as the system joins them.
pub(crate) fn path_below(root: &str, name: &str) -> (joined: String)
    ensures
        is_join_result(root@, name@, joined@),
        is_joined(root@, name@, joined@),
{
    let joined = join(root, name);
    assert(call_ensures(join, (root, name), joined));
    joined
}

/// A join result is what `Path::join` returned, and no other text that looks like
/// one. The root and the name stand in it in full, in this order, with at most one
/// separator between them.
pub(crate) proof fn law_join_result_is_returned_by_join(
    root: Seq<char>,
    name: Seq<char>,
    joined: Seq<char>,
)
    requires
        is_join_result(root, name, joined),
    ensures
        exists|r: &str, n: &str, j: String| #[trigger]
            call_ensures(join, (r, n), j) && r@ == root && n@ == name && j@ == joined,
        is_joined(root, name, joined),
{
}

/// A path below another keeps both texts in full: it is the root, a `/` or a `\` or
/// nothing, and the name. Nothing stands between them only where the root is empty,
/// ends in a separator or is a drive.
pub proof fn law_joined_path_is_root_then_name(
    root: Seq<char>,
    name: Seq<char>,
    joined: Seq<char>,
)
    requires
        is_joined(root, name, joined),
        name.len() > 0 ==> name[0] != '/' && name[0] != '\\',
        name.len() >= 2 ==> name[1] != ':',
        root.len() > 0 ==> root[0] != '\\',
    ensures
        root.len() == 0 ==> joined == name,
        root.len() > 0 && root.last() == '/' ==> joined == root + name,
        root.len() > 2 && root.last() != '/' && root.last() != '\\' ==> {
            ||| joined == root + seq!['/'] + name
            ||| joined == root + seq!['\\'] + name
        },
        joined.len() >= root.len() + name.len(),
        joined.len() <= root.len() + 1 + name.len(),
        joined.take(root.len() as int) == root,
        joined.skip(joined.len() - name.len()) == name,
{
    assert(is_verbatim(root) ==> root.take(4)[0] == '\\');
    assert(root + seq!['/'] + name =~= root.push('/') + name);
    assert(root + seq!['\\'] + name =~= root.push('\\') + name);
    assert(joined.take(root.len() as int) =~= root);
    assert(joined.skip(joined.len() - name.len()) =~= name);
    if root.len() == 0 {
        assert(joined =~= name);
    }
}

/// Whether `name` is one ordinary component of a path, on every system.
pub open spec fn is_plain_name(name: Seq<char>) -> bool {
    &&& name.len() > 0
    &&& !name.contains('/')
    &&& !name.contains('\\')
    &&& name != seq!['.']
    &&& name != seq!['.', '.']
}

/// The path of the entry `name` in the directory `dir`.
pub open spec fn entry_path(dir: Seq<char>, name: Seq<char>) -> Seq<char> {
    dir.push('/') + name
}

/// Whether what stands behind `dir` and a `/` is a component of its own on every
/// system: `dir` is no single separator, if it starts with two separators another
/// one follows the name of the server, and it does not start with `\\?\`.
pub open spec fn is_plain_dir(dir: Seq<char>) -> bool {
    &&& dir != seq!['/']
    &&& dir != seq!['\\']
    &&& starts_with_two_separators(dir) ==> first_separator(dir.skip(2)) < dir.len() - 2
    &&& !is_verbatim(dir)
}

/// Whether `tail` is `name`, with or without a trailing `/`.
spec fn is_tail(tail: Seq<char>, name: Seq<char>) -> bool {
    tail == name || tail == name.push('/')
}

proof fn lemma_no_separator(split: Split, name: Seq<char>)
    requires
        is_plain_name(name),
    ensures
        forall|i: int| 0 <= i < name.len() ==> !separates(split, #[trigger] name[i]),
{
    assert forall|i: int| 0 <= i < name.len() implies !separates(split, #[trigger] name[i]) by {
        assert(name.contains(name[i]));
    }
}

/// A path that ends in a row of characters that do not separate, at its start or
/// behind a `/`, has that row for its last segment.
proof fn lemma_last_segment(split: Split, before: Seq<char>, name: Seq<char>)
    requires
        separates(split, '/'),
        before.len() == 0 || before.last() == '/',
        forall|i: int| 0 <= i < name.len() ==> !separates(split, #[trigger] name[i]),
    ensures
        last_segment_start(split, before + name) == before.len(),
    decreases name.len(),
{
    let path = before + name;
    if name.len() == 0 {
        assert(path =~= before);
    } else {
        assert(path.last() == name[name.len() - 1]);
        assert(path.drop_last() =~= before + name.drop_last());
        assert forall|i: int| 0 <= i < name.drop_last().len() implies !separates(
            split,
            #[trigger] name.drop_last()[i],
        ) by {
            assert(name.drop_last()[i] == name[i]);
        }
        lemma_last_segment(split, before, name.drop_last());
    }
}

proof fn lemma_component(split: Split, before: Seq<char>, tail: Seq<char>, name: Seq<char>)
    requires
        separates(split, '/'),
        before.len() == 0 || before.last() == '/',
        is_plain_name(name),
        is_tail(tail, name),
    ensures
        last_component(split, before + tail) == Some(name),
{
    let path = before + name;
    lemma_no_separator(split, name);
    lemma_last_segment(split, before, name);
    assert(path.skip(before.len() as int) =~= name);
    assert(last_component(split, path) == Some(name));
    if tail != name {
        let slashed = before + tail;
        assert(slashed =~= path.push('/'));
        assert(slashed.last() == '/');
        assert(slashed.skip(slashed.len() as int) =~= Seq::empty());
        assert(slashed.take(slashed.len() - 1) =~= path);
    }
}

proof fn lemma_first_separator(path: Seq<char>)
    ensures
        0 <= first_separator(path) <= path.len(),
    decreases path.len(),
{
    if path.len() > 0 && !is_separator(path[0]) {
        lemma_first_separator(path.drop_first());
    }
}

proof fn lemma_first_separator_before_slash(dir: Seq<char>, tail: Seq<char>)
    ensures
        first_separator(dir.push('/') + tail) == first_separator(dir),
    decreases dir.len(),
{
    let path = dir.push('/') + tail;
    if dir.len() == 0 {
        assert(path[0] == '/');
    } else {
        assert(path[0] == dir[0]);
        assert(path.drop_first() =~= dir.drop_first().push('/') + tail);
        lemma_first_separator_before_slash(dir.drop_first(), tail);
    }
}

/// Without its first segment, a path in a directory is a path in another, or its
/// end alone.
proof fn lemma_after_segment(dir: Seq<char>, tail: Seq<char>)
    ensures
        first_separator(dir) < dir.len() ==> after_segment(dir.push('/') + tail)
            == after_segment(dir).push('/') + tail,
        first_separator(dir) >= dir.len() ==> after_segment(dir.push('/') + tail) == tail,
{
    let path = dir.push('/') + tail;
    let i = first_separator(dir);
    lemma_first_separator(dir);
    lemma_first_separator_before_slash(dir, tail);
    if i < dir.len() {
        assert(path.skip(i + 1) =~= dir.skip(i + 1).push('/') + tail);
    } else {
        assert(path.skip(i + 1) =~= tail);
    }
}

/// The path of an entry, with or without a trailing `/`, is portable.
proof fn lemma_entry_is_portable(dir: Seq<char>, tail: Seq<char>, name: Seq<char>)
    requires
        is_plain_name(name),
        is_plain_dir(dir),
        is_tail(tail, name),
    ensures
        is_portable(dir.push('/') + tail),
        final_component(dir.push('/') + tail) == Some(name),
{
    let path = dir.push('/') + tail;
    lemma_component(Split::Slash, dir.push('/'), tail, name);
    lemma_component(Split::Both, dir.push('/'), tail, name);
    lemma_no_separator(Split::Both, name);
    assert(tail[0] == name[0]);
    if may_start_with_drive(path) {
        assert(path[0] == dir.push('/')[0]);
        assert(path[1] == dir.push('/')[1]);
        assert(path.skip(2) =~= dir.skip(2).push('/') + tail);
        lemma_component(Split::Both, dir.skip(2).push('/'), tail, name);
    }
    if starts_with_two_separators(path) {
        assert(path[0] == dir.push('/')[0]);
        if dir.len() == 0 {
            assert(path[1] == tail[0]);
        } else if dir.len() == 1 {
            assert(dir =~= seq![dir[0]]);
        } else {
            assert(path[1] == dir[1]);
            let rest = dir.skip(2);
            assert(path.skip(2) =~= rest.push('/') + tail);
            lemma_after_segment(rest, tail);
            lemma_after_segment(after_segment(rest), tail);
            lemma_component(Split::Both, Seq::empty(), tail, name);
            assert(Seq::empty() + tail =~= tail);
            lemma_component(Split::Both, after_segment(after_segment(rest)).push('/'), tail, name);
        }
    }
    if is_verbatim(path) {
        let start = seq!['\\', '\\', '?', '\\'];
        assert(path.take(4)[0] == start[0] && path.take(4)[1] == start[1] && path.take(4)[2]
            == start[2] && path.take(4)[3] == start[3]);
        assert(path[dir.len() as int] == '/');
        assert(dir.len() >= 4);
        assert(dir.take(4) =~= path.take(4));
    }
}

proof fn lemma_verdicts(path: Seq<char>, name: Seq<char>)
    requires
        is_portable(path),
        final_component(path) == Some(name),
    ensures
        forall|verdict: Result<bool, FailureView>| #[trigger]
            is_verdict_on(path, verdict) <==> verdict == Ok::<bool, FailureView>(
                is_ignored_name(name),
            ),
{
    assert(file_name_of(path, Some(name)));
    assert forall|verdict: Result<bool, FailureView>|
        verdict == Ok::<bool, FailureView>(is_ignored_name(name)) implies #[trigger]
        is_verdict_on(path, verdict) by {
        assert(file_name_of(path, Some(name)) && verdict == ignore_verdict(path, Some(name)));
    }
}

/// The path of an entry `name` in a directory has that name for its file name,
/// whatever the directory is called. So the verdict on it depends on the name
/// alone, and a trailing `/` changes nothing.
pub proof fn law_entry_is_judged_by_its_name(dir: Seq<char>, name: Seq<char>)
    requires
        is_plain_name(name),
        is_plain_dir(dir),
    ensures
        is_portable(entry_path(dir, name)),
        final_component(entry_path(dir, name)) == Some(name),
        is_portable(entry_path(dir, name).push('/')),
        final_component(entry_path(dir, name).push('/')) == Some(name),
        forall|verdict: Result<bool, FailureView>| #[trigger]
            is_verdict_on(entry_path(dir, name), verdict) <==> verdict == Ok::<bool, FailureView>(
                name[0] == '.' || name[0] == '#',
            ),
        forall|verdict: Result<bool, FailureView>| #[trigger]
            is_verdict_on(entry_path(dir, name).push('/'), verdict) <==> verdict == Ok::<
                bool,
                FailureView,
            >(name[0] == '.' || name[0] == '#'),
{
    lemma_entry_is_portable(dir, name, name);
    lemma_entry_is_portable(dir, name.push('/'), name);
    assert(entry_path(dir, name).push('/') =~= dir.push('/') + name.push('/'));
    lemma_verdicts(entry_path(dir, name), name);
    lemma_verdicts(entry_path(dir, name).push('/'), name);
}

/// The verdict on a name alone is the verdict on it in any directory. A name that
/// may be taken for that of a drive is left out: alone, it is not the same on every
/// system.
pub proof fn law_directory_has_no_influence(
    dir: Seq<char>,
    other_dir: Seq<char>,
    name: Seq<char>,
    verdict: Result<bool, FailureView>,
)
    requires
        is_plain_name(name),
        is_plain_dir(dir),
        is_plain_dir(other_dir),
    ensures
        is_verdict_on(entry_path(dir, name), verdict) <==> is_verdict_on(
            entry_path(other_dir, name),
            verdict,
        ),
        !may_start_with_drive(name) ==> (is_verdict_on(entry_path(dir, name), verdict)
            <==> is_verdict_on(name, verdict)),
        !may_start_with_drive(name) ==> (is_verdict_on(name.push('/'), verdict)
            <==> is_verdict_on(name, verdict)),
{
    law_entry_is_judged_by_its_name(dir, name);
    law_entry_is_judged_by_its_name(other_dir, name);
    if !may_start_with_drive(name) {
        lemma_name_is_portable(name, name);
        lemma_name_is_portable(name.push('/'), name);
        lemma_verdicts(name, name);
        lemma_verdicts(name.push('/'), name);
    }
}

/// A name alone, with or without a trailing `/`, is portable.
proof fn lemma_name_is_portable(tail: Seq<char>, name: Seq<char>)
    requires
        is_plain_name(name),
        !may_start_with_drive(name),
        is_tail(tail, name),
    ensures
        is_portable(tail),
        final_component(tail) == Some(name),
{
    lemma_component(Split::Slash, Seq::empty(), tail, name);
    lemma_component(Split::Both, Seq::empty(), tail, name);
    assert(Seq::empty() + tail =~= tail);
    lemma_no_separator(Split::Both, name);
    assert(tail[0] == name[0]);
    assert(!is_separator(tail[0]));
    if name.len() >= 2 {
        assert(tail[1] == name[1]);
    }
    if is_verbatim(tail) {
        assert(tail.take(4)[0] == '\\');
    }
}

} // verus!
