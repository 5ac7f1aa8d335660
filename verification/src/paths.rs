//! Paths as the installer sees them: a starting directory, given as text by
//! the host, and the names entered below it, one by one.
//!
//! The names are kept apart instead of glued with a separator, so that the
//! installer can show that a record of the archive stays below the directory
//! it is unpacked into. How the path of a record falls into names is the
//! host's matter: `/` parts names everywhere, `\` only where the host reads
//! paths as Windows does, and there a name with a `:` would reach for a drive
//! and is refused.

use vstd::prelude::*;
use vstd::string::StringExecFns;
use vstd::string::StrSliceExecFns;

verus! {

/// A directory or file: `root`, then each of `segments` entered in turn.
#[derive(Debug, PartialEq, Eq)]
pub struct InstallPath {
    pub root: String,
    pub segments: Vec<String>,
}

/// The mathematical value of an [`InstallPath`].
pub struct PathModel {
    pub root: Seq<char>,
    pub segments: Seq<Seq<char>>,
}

/// The texts of a sequence of strings.
pub open spec fn texts(names: Seq<String>) -> Seq<Seq<char>> {
    names.map_values(|name: String| name@)
}

impl View for InstallPath {
    type V = PathModel;

    open spec fn view(&self) -> PathModel {
        PathModel { root: self.root@, segments: texts(self.segments@) }
    }
}

impl PathModel {
    /// This path with one more name entered.
    pub open spec fn join(self, segment: Seq<char>) -> PathModel {
        PathModel { root: self.root, segments: self.segments.push(segment) }
    }

    /// This path with several more names entered, in order.
    pub open spec fn join_all(self, more: Seq<Seq<char>>) -> PathModel {
        PathModel { root: self.root, segments: self.segments + more }
    }

    /// The directory that holds this path: the last name is left again.
    pub open spec fn parent(self) -> PathModel
        recommends
            self.segments.len() > 0,
    {
        PathModel { root: self.root, segments: self.segments.drop_last() }
    }

    /// Whether `self` lies below `dir`: the same root, and `dir`'s names first.
    pub open spec fn is_below(self, dir: PathModel) -> bool {
        &&& self.root == dir.root
        &&& self.segments.len() > dir.segments.len()
        &&& self.segments.take(dir.segments.len() as int) == dir.segments
    }

    /// The path written out, with `/` between the root and each name.
    pub open spec fn text(self) -> Seq<char>
        decreases self.segments.len(),
    {
        if self.segments.len() == 0 {
            self.root
        } else {
            self.parent().text() + seq!['/'] + self.segments.last()
        }
    }
}

impl InstallPath {
    /// The path that is `root` itself.
    pub fn new(root: String) -> (path: InstallPath)
        ensures
            path@ == (PathModel { root: root@, segments: Seq::empty() }),
    {
        let path = InstallPath { root, segments: Vec::new() };
        assert(path@.segments =~= Seq::empty());
        path
    }

    /// Enters `segment` below this path.
    pub fn push(&mut self, segment: String)
        ensures
            final(self)@ == old(self)@.join(segment@),
    {
        self.segments.push(segment);
        assert(self@.segments =~= old(self)@.segments.push(segment@));
    }

    /// The directory that holds this path, or `None` for a bare root.
    pub fn parent(&self) -> (dir: Option<InstallPath>)
        ensures
            match dir {
                Some(d) => self@.segments.len() > 0 && d@ == self@.parent(),
                None => self@.segments.len() == 0,
            },
    {
        if self.segments.len() == 0 {
            return None;
        }
        let mut dir = self.clone();
        dir.segments.pop();
        assert(dir@.segments =~= self@.segments.drop_last());
        Some(dir)
    }

    /// The path written out, with `/` between the root and each name.
    pub fn to_text(&self) -> (text: String)
        ensures
            text@ == self@.text(),
    {
        let mut text = self.root.clone();
        let n: usize = self.segments.len();
        let mut i: usize = 0;
        assert(self@.segments.take(0) =~= Seq::empty());
        while i < n
            invariant
                n == self.segments@.len(),
                i <= n,
                text@ == (PathModel {
                    root: self@.root,
                    segments: self@.segments.take(i as int),
                }).text(),
            decreases n - i,
        {
            let ghost before = PathModel {
                root: self@.root,
                segments: self@.segments.take(i as int),
            };
            let ghost after = PathModel {
                root: self@.root,
                segments: self@.segments.take(i + 1),
            };
            proof {
                reveal_strlit("/");
                assert("/"@ =~= seq!['/']);
                assert(after.parent() == before) by {
                    assert(after.segments.drop_last() =~= before.segments);
                }
                assert(after.segments.last() == self.segments@[i as int]@);
            }
            text.append("/");
            text.append(self.segments[i].as_str());
            i += 1;
        }
        assert(self@.segments.take(n as int) =~= self@.segments);
        text
    }
}

impl Clone for InstallPath {
    fn clone(&self) -> (copy: Self)
        ensures
            copy@ == self@,
    {
        let mut segments: Vec<String> = Vec::new();
        let n: usize = self.segments.len();
        let mut i: usize = 0;
        while i < n
            invariant
                n == self.segments@.len(),
                i <= n,
                segments@.len() == i,
                forall|k: int| 0 <= k < i ==> segments@[k]@ == self.segments@[k]@,
            decreases n - i,
        {
            segments.push(self.segments[i].clone());
            i += 1;
        }
        let copy = InstallPath { root: self.root.clone(), segments };
        assert(copy@.segments =~= self@.segments);
        copy
    }
}

/// Whether `c` parts two names of a path. `/` does so on every host; `\`
/// does so only on a host that reads paths as Windows does, and is a
/// character of a name like any other elsewhere.
pub open spec fn is_separator(c: char, windows_paths: bool) -> bool {
    c == '/' || (windows_paths && c == '\\')
}

/// Whether the host would read `name` as reaching for a drive instead of
/// entering a directory: on a host that reads paths as Windows does, a name
/// that holds a `:`.
pub open spec fn reaches_for_drive(name: Seq<char>, windows_paths: bool) -> bool {
    windows_paths && name.contains(':')
}

/// A name that enters a directory or names a file: not empty, not `.` or
/// `..`, without a separator, and not reaching for a drive.
pub open spec fn is_plain_name(name: Seq<char>, windows_paths: bool) -> bool {
    &&& name.len() > 0
    &&& name != seq!['.']
    &&& name != seq!['.', '.']
    &&& forall|k: int| 0 <= k < name.len() ==> !is_separator(#[trigger] name[k], windows_paths)
    &&& !reaches_for_drive(name, windows_paths)
}

/// Where a walk stands after `component`, having entered `entered` before. An
/// empty component and `.` stay; `..` leaves the last name entered, and with
/// none entered the walk has left its starting directory; a component that
/// reaches for a drive leaves it as well. A walk that has left is `None` from
/// then on.
pub open spec fn enter(
    entered: Option<Seq<Seq<char>>>,
    component: Seq<char>,
    windows_paths: bool,
) -> Option<Seq<Seq<char>>> {
    match entered {
        None => None,
        Some(names) => if component.len() == 0 || component == seq!['.'] {
            Some(names)
        } else if component == seq!['.', '.'] {
            if names.len() == 0 {
                None
            } else {
                Some(names.drop_last())
            }
        } else if reaches_for_drive(component, windows_paths) {
            None
        } else {
            Some(names.push(component))
        },
    }
}

/// A walk along a relative path, read up to some character.
pub struct Walk {
    /// The names entered by the components that a separator has closed.
    pub entered: Option<Seq<Seq<char>>>,
    /// The characters since the last separator.
    pub current: Seq<char>,
}

/// The walk along all of `path`.
pub open spec fn walk(path: Seq<char>, windows_paths: bool) -> Walk
    decreases path.len(),
{
    if path.len() == 0 {
        Walk { entered: Some(Seq::empty()), current: Seq::empty() }
    } else {
        let before = walk(path.drop_last(), windows_paths);
        if is_separator(path.last(), windows_paths) {
            Walk {
                entered: enter(before.entered, before.current, windows_paths),
                current: Seq::empty(),
            }
        } else {
            Walk { entered: before.entered, current: before.current.push(path.last()) }
        }
    }
}

/// The names that `path` enters, one after the other, when the host
/// resolves it inside a directory; `None` when `path` is empty or absolute,
/// when it leaves the directory at any point, or when it ends at the
/// directory itself. `windows_paths` says whether the host reads paths as
/// Windows does.
pub open spec fn resolved_components(path: Seq<char>, windows_paths: bool) -> Option<
    Seq<Seq<char>>,
> {
    if path.len() == 0 || is_separator(path[0], windows_paths) {
        None
    } else {
        let end = walk(path, windows_paths);
        match enter(end.entered, end.current, windows_paths) {
            Some(names) => if names.len() > 0 {
                Some(names)
            } else {
                None
            },
            None => None,
        }
    }
}

/// Every name that a walk has entered is plain, and the component being read
/// holds no separator.
proof fn lemma_walk_is_plain(path: Seq<char>, windows_paths: bool)
    ensures
        walk(path, windows_paths).entered matches Some(names) ==> forall|i: int|
            0 <= i < names.len() ==> is_plain_name(#[trigger] names[i], windows_paths),
        forall|k: int|
            0 <= k < walk(path, windows_paths).current.len() ==> !is_separator(
                #[trigger] walk(path, windows_paths).current[k],
                windows_paths,
            ),
    decreases path.len(),
{
    if path.len() > 0 {
        lemma_walk_is_plain(path.drop_last(), windows_paths);
    }
}

/// A resolved path enters at least one name, and only plain names: it names a
/// file or directory strictly inside the directory it is resolved in.
pub proof fn lemma_resolved_components_are_plain(path: Seq<char>, windows_paths: bool)
    ensures
        resolved_components(path, windows_paths) matches Some(names) ==> names.len() > 0
            && forall|i: int|
            0 <= i < names.len() ==> is_plain_name(#[trigger] names[i], windows_paths),
{
    lemma_walk_is_plain(path, windows_paths);
}

/// Where `\` does not part names, a path without `/` is one name: it is
/// taken as it stands, or refused where it is `.` or `..`.
pub proof fn lemma_path_without_slash_is_one_name(path: Seq<char>)
    requires
        path.len() > 0,
        !path.contains('/'),
    ensures
        resolved_components(path, false) == (if path == seq!['.'] || path == seq!['.', '.'] {
            None
        } else {
            Some(seq![path])
        }),
{
    assert forall|k: int| 0 <= k < path.len() implies !is_separator(#[trigger] path[k], false) by {
        if path[k] == '/' {
            assert(path.contains(path[k]));
        }
    }
    lemma_walk_through_name(Seq::empty(), path, false);
    assert(Seq::<char>::empty() + path =~= path);
    assert(Seq::<Seq<char>>::empty().push(path) =~= seq![path]);
}

/// The names of a path, written with `/` between them.
pub open spec fn joined(names: Seq<Seq<char>>) -> Seq<char>
    decreases names.len(),
{
    if names.len() == 0 {
        Seq::empty()
    } else if names.len() == 1 {
        names[0]
    } else {
        joined(names.drop_last()) + seq!['/'] + names.last()
    }
}

/// Reading on through characters that are no separators only makes the
/// component in hand longer.
proof fn lemma_walk_through_name(before: Seq<char>, name: Seq<char>, windows_paths: bool)
    requires
        forall|k: int| 0 <= k < name.len() ==> !is_separator(#[trigger] name[k], windows_paths),
    ensures
        walk(before + name, windows_paths) == (Walk {
            entered: walk(before, windows_paths).entered,
            current: walk(before, windows_paths).current + name,
        }),
    decreases name.len(),
{
    let so_far = walk(before, windows_paths).current;
    if name.len() == 0 {
        assert(before + name =~= before);
        assert(so_far + name =~= so_far);
    } else {
        lemma_walk_through_name(before, name.drop_last(), windows_paths);
        assert((before + name).drop_last() =~= before + name.drop_last());
        assert((before + name).last() == name.last());
        assert(so_far + name =~= (so_far + name.drop_last()).push(name.last()));
    }
}

proof fn lemma_walk_along_plain_names(names: Seq<Seq<char>>, windows_paths: bool)
    requires
        names.len() > 0,
        forall|i: int| 0 <= i < names.len() ==> is_plain_name(#[trigger] names[i], windows_paths),
    ensures
        walk(joined(names), windows_paths) == (Walk {
            entered: Some(names.drop_last()),
            current: names.last(),
        }),
        joined(names).len() > 0,
        joined(names)[0] == names[0][0],
    decreases names.len(),
{
    let last = names.last();
    assert(is_plain_name(last, windows_paths));
    if names.len() == 1 {
        lemma_walk_through_name(Seq::empty(), last, windows_paths);
        assert(Seq::<char>::empty() + last =~= last);
        assert(names.drop_last() =~= Seq::empty());
    } else {
        let front = names.drop_last();
        assert forall|i: int| 0 <= i < front.len() implies is_plain_name(
            #[trigger] front[i],
            windows_paths,
        ) by {
            assert(front[i] == names[i]);
        }
        lemma_walk_along_plain_names(front, windows_paths);
        let closed = joined(front) + seq!['/'];
        assert(closed.drop_last() =~= joined(front));
        assert(closed.last() == '/');
        assert(is_plain_name(front.last(), windows_paths));
        assert(front.drop_last().push(front.last()) =~= front);
        assert(walk(closed, windows_paths) == (Walk {
            entered: Some(front),
            current: Seq::empty(),
        }));
        lemma_walk_through_name(closed, last, windows_paths);
        assert(Seq::<char>::empty() + last =~= last);
    }
}

/// A path that is written as plain names with `/` between them is resolved
/// to exactly those names: what the archive names is where the file goes.
pub proof fn lemma_plain_path_resolves_to_its_names(names: Seq<Seq<char>>, windows_paths: bool)
    requires
        names.len() > 0,
        forall|i: int| 0 <= i < names.len() ==> is_plain_name(#[trigger] names[i], windows_paths),
    ensures
        resolved_components(joined(names), windows_paths) == Some(names),
{
    lemma_walk_along_plain_names(names, windows_paths);
    assert(is_plain_name(names[0], windows_paths));
    assert(is_plain_name(names.last(), windows_paths));
    assert(names.drop_last().push(names.last()) =~= names);
}

/// Names entered below a directory are written behind the directory as they
/// are written in the archive.
pub proof fn lemma_text_below_directory(dir: PathModel, names: Seq<Seq<char>>)
    requires
        names.len() > 0,
    ensures
        dir.join_all(names).text() == dir.text() + seq!['/'] + joined(names),
    decreases names.len(),
{
    let file = dir.join_all(names);
    assert(file.segments.last() == names.last());
    if names.len() == 1 {
        assert(file.parent() == dir) by {
            assert(file.segments.drop_last() =~= dir.segments);
        }
    } else {
        assert(file.parent() == dir.join_all(names.drop_last())) by {
            assert(file.segments.drop_last() =~= dir.segments + names.drop_last());
        }
        lemma_text_below_directory(dir, names.drop_last());
        assert(dir.text() + seq!['/'] + joined(names.drop_last()) + seq!['/'] + names.last()
            =~= dir.text() + seq!['/'] + (joined(names.drop_last()) + seq!['/'] + names.last()));
    }
}

/// A path resolved below `dir` lies below `dir`.
pub proof fn lemma_resolved_path_is_below(dir: PathModel, path: Seq<char>, windows_paths: bool)
    requires
        resolved_components(path, windows_paths) is Some,
    ensures
        dir.join_all(resolved_components(path, windows_paths)->0).is_below(dir),
{
    let names = resolved_components(path, windows_paths)->0;
    assert((dir.segments + names).take(dir.segments.len() as int) =~= dir.segments);
}

/// Resolves `path`, as a record of the archive gives it, into the names it
/// enters below the directory it is unpacked into. `windows_paths` says
/// whether the host reads paths as Windows does.
pub fn resolve_relative(path: &str, windows_paths: bool) -> (names: Option<Vec<String>>)
    ensures
        match names {
            Some(list) => resolved_components(path@, windows_paths) == Some(texts(list@)),
            None => resolved_components(path@, windows_paths) is None,
        },
{
    let n: usize = path.unicode_len();
    if n == 0 {
        return None;
    }
    let first = path.get_char(0);
    if first == '/' || (windows_paths && first == '\\') {
        return None;
    }
    let mut entered: Vec<String> = Vec::new();
    let mut alive: bool = true;
    let mut start: usize = 0;
    let mut i: usize = 0;
    assert(path@.take(0) =~= Seq::empty());
    assert(texts(entered@) =~= Seq::empty());
    for c in it: path.chars()
        invariant
            it.seq() == path@,
            n == path@.len(),
            i == it.index(),
            start <= i <= n,
            walk(path@.take(i as int), windows_paths).current == path@.subrange(
                start as int,
                i as int,
            ),
            walk(path@.take(i as int), windows_paths).entered == (if alive {
                Some(texts(entered@))
            } else {
                None
            }),
    {
        assert(i < n);
        proof {
            assert(path@.take(i + 1).drop_last() =~= path@.take(i as int));
            assert(path@.take(i + 1).last() == c);
        }
        if c == '/' || (windows_paths && c == '\\') {
            if alive {
                alive = close_component(path, start, i, &mut entered, windows_paths);
            }
            start = i + 1;
            assert(path@.subrange(start as int, i + 1) =~= Seq::empty());
        } else {
            assert(path@.subrange(start as int, i + 1) =~= path@.subrange(
                start as int,
                i as int,
            ).push(c));
        }
        i = i + 1;
    }
    assert(path@.take(n as int) =~= path@);
    if alive {
        alive = close_component(path, start, n, &mut entered, windows_paths);
    }
    if alive && entered.len() > 0 {
        Some(entered)
    } else {
        None
    }
}

/// Whether `name` holds a `:`.
fn holds_colon(name: &str) -> (found: bool)
    ensures
        found == name@.contains(':'),
{
    let mut found: bool = false;
    assert(name@.take(0) =~= Seq::empty());
    for c in it: name.chars()
        invariant
            it.seq() == name@,
            found == name@.take(it.index()).contains(':'),
    {
        let ghost i = it.index();
        proof {
            let before = name@.take(i);
            let after = name@.take(i + 1);
            assert(after =~= before.push(c));
            if before.contains(':') {
                let k = choose|k: int| 0 <= k < before.len() && before[k] == ':';
                assert(after[k] == ':');
            }
            if c == ':' {
                assert(after[i] == ':');
            }
            if after.contains(':') {
                let k = choose|k: int| 0 <= k < after.len() && after[k] == ':';
                if k < i {
                    assert(before[k] == ':');
                }
            }
        }
        if c == ':' {
            found = true;
        }
    }
    assert(name@.take(name@.len() as int) =~= name@);
    found
}

/// Enters the component `path[start..end]` on top of `entered`; `false` when
/// that leaves the starting directory.
fn close_component(
    path: &str,
    start: usize,
    end: usize,
    entered: &mut Vec<String>,
    windows_paths: bool,
) -> (alive: bool)
    requires
        start <= end <= path@.len(),
    ensures
        enter(
            Some(texts(old(entered)@)),
            path@.subrange(start as int, end as int),
            windows_paths,
        ) == (if alive {
            Some(texts(final(entered)@))
        } else {
            None
        }),
{
    let component = path.substring_char(start, end);
    let len: usize = end - start;
    let ghost names = texts(entered@);
    if len == 0 {
        true
    } else if len == 1 && component.get_char(0) == '.' {
        assert(component@ =~= seq!['.']);
        true
    } else if len == 2 && component.get_char(0) == '.' && component.get_char(1) == '.' {
        assert(component@ =~= seq!['.', '.']);
        if entered.len() == 0 {
            false
        } else {
            entered.pop();
            assert(texts(entered@) =~= names.drop_last());
            true
        }
    } else {
        assert(component@ != seq!['.']) by {
            if component@ == seq!['.'] {
                assert(seq!['.'].len() == 1);
                assert(seq!['.'][0] == '.');
            }
        }
        assert(component@ != seq!['.', '.']) by {
            if component@ == seq!['.', '.'] {
                assert(seq!['.', '.'].len() == 2);
                assert(seq!['.', '.'][0] == '.');
                assert(seq!['.', '.'][1] == '.');
            }
        }
        if windows_paths && holds_colon(component) {
            false
        } else {
            entered.push(component.to_owned());
            assert(texts(entered@) =~= names.push(component@));
            true
        }
    }
}

} // verus!
