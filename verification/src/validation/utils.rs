//! Where a path points, and what is found there.
use vstd::prelude::*;

use crate::strmap::StrMap;
use crate::text::{char_index, has_prefix, push_str, starts_with};

verus! {

/// One component of a path, as `std::path::Component` yields it on Unix.
pub enum PathComponent {
    RootDir,
    CurDir,
    ParentDir,
    Normal(String),
}

/// A path component, as values.
pub enum ComponentView {
    RootDir,
    CurDir,
    ParentDir,
    Normal(Seq<char>),
}

impl View for PathComponent {
    type V = ComponentView;

    open spec fn view(&self) -> ComponentView {
        match self {
            PathComponent::RootDir => ComponentView::RootDir,
            PathComponent::CurDir => ComponentView::CurDir,
            PathComponent::ParentDir => ComponentView::ParentDir,
            PathComponent::Normal(s) => ComponentView::Normal(s@),
        }
    }
}

/// The pieces of `s` between slashes, empty pieces included.
pub open spec fn slash_pieces(s: Seq<char>) -> Seq<Seq<char>>
    decreases s.len(),
{
    let i = char_index(s, '/');
    if i < s.len() && 0 <= i {
        seq![s.take(i)] + slash_pieces(s.skip(i + 1))
    } else {
        seq![s]
    }
}

/// The component that a non-empty piece other than `.` stands for.
pub open spec fn piece_component(p: Seq<char>) -> ComponentView {
    if p == ".."@ {
        ComponentView::ParentDir
    } else {
        ComponentView::Normal(p)
    }
}

/// The components of the Unix path `p`, as `Path::components` yields them:
/// a root for a leading slash; `.` only at the start of a relative path;
/// empty pieces (repeated and trailing slashes) left out.
pub open spec fn components_spec(p: Seq<char>) -> Seq<ComponentView> {
    let rooted = p.len() > 0 && p[0] == '/';
    let ps = slash_pieces(p);
    let head: Seq<ComponentView> = if rooted {
        seq![ComponentView::RootDir]
    } else if ps.len() > 0 && ps[0] == "."@ {
        seq![ComponentView::CurDir]
    } else {
        seq![]
    };
    head + ps.filter(|x: Seq<char>| x.len() > 0 && x != "."@).map_values(
        |x: Seq<char>| piece_component(x),
    )
}

/// The components of a Unix path (`Path::components`).
#[verifier::external_body]
pub(crate) fn path_components(p: &str) -> (r: Vec<PathComponent>)
    ensures
        r@.map_values(|c: PathComponent| c@) == components_spec(p@),
{
    std::path::Path::new(p).components().map(|c| match c {
        std::path::Component::RootDir => PathComponent::RootDir,
        std::path::Component::CurDir => PathComponent::CurDir,
        std::path::Component::ParentDir => PathComponent::ParentDir,
        std::path::Component::Normal(s) => PathComponent::Normal(s.to_string_lossy().into_owned()),
        std::path::Component::Prefix(p) => {
            PathComponent::Normal(p.as_os_str().to_string_lossy().into_owned())
        },
    }).collect()
}

/// `PathBuf::from(cwd).join(target)` for a relative `target`, or `target`
/// itself when it starts with a slash.
pub open spec fn joined_spec(target: Seq<char>, cwd: Seq<char>) -> Seq<char> {
    if has_prefix(target, "/"@) {
        target
    } else if cwd.len() == 0 {
        target
    } else if cwd.last() == '/' {
        cwd + target
    } else {
        cwd + "/"@ + target
    }
}

/// The path that results from pushing the components `cs` onto an empty
/// path, with `.` ignored and `..` removing the last component: whether it
/// is rooted, and its remaining parts.
pub open spec fn fold_components(cs: Seq<ComponentView>) -> (bool, Seq<Seq<char>>)
    decreases cs.len(),
{
    if cs.len() == 0 {
        (false, seq![])
    } else {
        let (rooted, parts) = fold_components(cs.drop_last());
        match cs.last() {
            ComponentView::RootDir => (true, seq![]),
            ComponentView::CurDir => (rooted, parts),
            ComponentView::ParentDir => if parts.len() > 0 {
                (rooted, parts.drop_last())
            } else {
                (rooted, parts)
            },
            ComponentView::Normal(n) => (rooted, parts.push(n)),
        }
    }
}

/// `parts` separated by slashes.
pub open spec fn join_parts(parts: Seq<Seq<char>>) -> Seq<char>
    decreases parts.len(),
{
    if parts.len() == 0 {
        seq![]
    } else if parts.len() == 1 {
        parts[0]
    } else {
        join_parts(parts.drop_last()) + "/"@ + parts.last()
    }
}

/// The text of a path: a leading slash when rooted, then the parts.
pub open spec fn render_path(rooted: bool, parts: Seq<Seq<char>>) -> Seq<char> {
    if rooted {
        "/"@ + join_parts(parts)
    } else {
        join_parts(parts)
    }
}

/// The absolute path that `target` names, relative to `cwd`, with `.` and
/// `..` resolved.
pub open spec fn resolve_path_spec(target: Seq<char>, cwd: Seq<char>) -> Seq<char> {
    let (rooted, parts) = fold_components(components_spec(joined_spec(target, cwd)));
    render_path(rooted, parts)
}

/// The paths known to exist, each with whether it is a directory.
pub struct FsSnapshot {
    entries: StrMap<bool>,
}

impl View for FsSnapshot {
    type V = Map<Seq<char>, bool>;

    closed spec fn view(&self) -> Map<Seq<char>, bool> {
        self.entries@
    }
}

impl FsSnapshot {
    pub closed spec fn wf(&self) -> bool {
        self.entries.wf()
    }

    /// A snapshot in which nothing exists.
    pub fn new() -> (s: Self)
        ensures
            s.wf(),
            s@ == Map::<Seq<char>, bool>::empty(),
    {
        FsSnapshot { entries: StrMap::new() }
    }

    /// Records that `path` exists, as a directory or not.
    pub fn add(&mut self, path: String, is_dir: bool)
        requires
            old(self).wf(),
        ensures
            final(self).wf(),
            final(self)@ == old(self)@.insert(path@, is_dir),
    {
        self.entries.insert(path, is_dir);
    }

    /// Whether `path` exists, and if so whether it is a directory.
    pub fn lookup(&self, path: &str) -> (r: Option<bool>)
        requires
            self.wf(),
        ensures
            r == (if self@.contains_key(path@) {
                Some(self@[path@])
            } else {
                None
            }),
    {
        match self.entries.get(path) {
            Some(d) => Some(*d),
            None => None,
        }
    }
}

/// A target path, resolved, with what was found there.
#[derive(Debug)]
pub struct FileSystemState {
    pub exists: bool,
    pub is_dir: bool,
    pub abs_path: String,
}

fn joined(target: &str, cwd: &str) -> (r: String)
    ensures
        r@ == joined_spec(target@, cwd@),
{
    let mut r = String::new();
    if starts_with(target, "/") {
        push_str(&mut r, target);
        return r;
    }
    let cv = crate::text::chars_of(cwd);
    if cv.len() == 0 {
        push_str(&mut r, target);
    } else if cv[cv.len() - 1] == '/' {
        push_str(&mut r, cwd);
        push_str(&mut r, target);
    } else {
        push_str(&mut r, cwd);
        push_str(&mut r, "/");
        push_str(&mut r, target);
    }
    r
}

fn render(rooted: bool, parts: &Vec<String>) -> (r: String)
    ensures
        r@ == render_path(rooted, parts@.map_values(|s: String| s@)),
{
    let ghost ps = parts@.map_values(|s: String| s@);
    let mut body = String::new();
    let mut i: usize = 0;
    while i < parts.len()
        invariant
            i <= parts@.len(),
            ps == parts@.map_values(|s: String| s@),
            body@ == join_parts(ps.take(i as int)),
        decreases parts@.len() - i,
    {
        if i > 0 {
            push_str(&mut body, "/");
        }
        push_str(&mut body, parts[i].as_str());
        proof {
            assert(ps.take(i + 1).drop_last() =~= ps.take(i as int));
            if i == 0 {
                assert(ps.take(1) =~= seq![ps[0]]);
            }
        }
        i = i + 1;
    }
    proof {
        assert(ps.take(parts@.len() as int) =~= ps);
    }
    if rooted {
        let mut r = String::new();
        push_str(&mut r, "/");
        push_str(&mut r, body.as_str());
        r
    } else {
        body
    }
}

/// The absolute path that `target` names, relative to `cwd`, with `.` and
/// `..` resolved.
pub fn resolve_path(target: &str, cwd: &str) -> (r: String)
    ensures
        r@ == resolve_path_spec(target@, cwd@),
{
    let raw = joined(target, cwd);
    let comps = path_components(raw.as_str());
    let ghost cs = comps@.map_values(|c: PathComponent| c@);
    let mut rooted = false;
    let mut parts: Vec<String> = Vec::new();
    let mut i: usize = 0;
    while i < comps.len()
        invariant
            i <= comps@.len(),
            cs == comps@.map_values(|c: PathComponent| c@),
            (rooted, parts@.map_values(|s: String| s@)) == fold_components(cs.take(i as int)),
        decreases comps@.len() - i,
    {
        proof {
            assert(cs.take(i + 1).drop_last() =~= cs.take(i as int));
        }
        match &comps[i] {
            PathComponent::RootDir => {
                rooted = true;
                parts = Vec::new();
                proof {
                    assert(parts@.map_values(|s: String| s@) =~= Seq::<Seq<char>>::empty());
                }
            },
            PathComponent::CurDir => {},
            PathComponent::ParentDir => {
                if parts.len() > 0 {
                    let ghost before = parts@;
                    parts.pop();
                    proof {
                        assert(parts@.map_values(|s: String| s@) =~= before.map_values(
                            |s: String| s@,
                        ).drop_last());
                    }
                }
            },
            PathComponent::Normal(n) => {
                let ghost before = parts@;
                parts.push(n.clone());
                proof {
                    assert(parts@.map_values(|s: String| s@) =~= before.map_values(
                        |s: String| s@,
                    ).push(n@));
                }
            },
        }
        i = i + 1;
    }
    proof {
        assert(cs.take(comps@.len() as int) =~= cs);
    }
    render(rooted, &parts)
}

/// What `target`, resolved against `cwd`, is in the snapshot `fs`.
pub open spec fn check_spec(target: Seq<char>, cwd: Seq<char>, fs: Map<Seq<char>, bool>) -> (
    bool,
    bool,
    Seq<char>,
) {
    let abs = resolve_path_spec(target, cwd);
    if fs.contains_key(abs) {
        (true, fs[abs], abs)
    } else {
        (false, false, abs)
    }
}

/// Resolves `target` against `cwd` and looks the result up in `fs`.
pub fn check(target: &str, cwd: &str, fs: &FsSnapshot) -> (r: FileSystemState)
    requires
        fs.wf(),
    ensures
        (r.exists, r.is_dir, r.abs_path@) == check_spec(target@, cwd@, fs@),
{
    let abs_path = resolve_path(target, cwd);
    match fs.lookup(abs_path.as_str()) {
        Some(is_dir) => FileSystemState { exists: true, is_dir, abs_path },
        None => FileSystemState { exists: false, is_dir: false, abs_path },
    }
}

} // verus!
