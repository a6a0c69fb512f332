//! Lexical normalization of paths, on the components of a path.

use vstd::prelude::*;

verus! {

/// One component of a path.
#[derive(Debug, Clone, PartialEq, Eq)]
pub enum Component {
    /// A drive or share prefix such as `C:`.
    Prefix(String),
    /// The root directory.
    RootDir,
    /// `.`
    CurDir,
    /// `..`
    ParentDir,
    /// A file or directory name.
    Normal(String),
}

/// The mathematical value of a component.
pub enum ComponentView {
    Prefix(Seq<char>),
    RootDir,
    CurDir,
    ParentDir,
    Normal(Seq<char>),
}

impl Component {
    /// The mathematical value.
    pub open spec fn view(&self) -> ComponentView {
        match self {
            Component::Prefix(p) => ComponentView::Prefix(p@),
            Component::RootDir => ComponentView::RootDir,
            Component::CurDir => ComponentView::CurDir,
            Component::ParentDir => ComponentView::ParentDir,
            Component::Normal(n) => ComponentView::Normal(n@),
        }
    }
}

/// The values of a sequence of components.
pub open spec fn components_view(s: Seq<Component>) -> Seq<ComponentView> {
    Seq::new(s.len(), |i: int| s[i]@)
}

/// The path built so far after one more component was taken in: the root
/// replaces everything but a prefix, `.` changes nothing, `..` removes a
/// trailing name, a name is appended.
pub open spec fn normalize_step(built: Seq<ComponentView>, c: ComponentView) -> Seq<ComponentView> {
    match c {
        ComponentView::Prefix(_) => built.push(c),
        ComponentView::RootDir => if built.len() > 0 && built[0] is Prefix {
            seq![built[0], ComponentView::RootDir]
        } else {
            seq![ComponentView::RootDir]
        },
        ComponentView::CurDir => built,
        ComponentView::ParentDir => if built.len() > 0 && built.last() is Normal {
            built.drop_last()
        } else {
            built
        },
        ComponentView::Normal(_) => built.push(c),
    }
}

/// The normal form of the first `n` components of a path.
pub open spec fn normalize_prefix(path: Seq<ComponentView>, n: nat) -> Seq<ComponentView>
    decreases n,
{
    if n == 0 {
        Seq::empty()
    } else {
        normalize_step(normalize_prefix(path, (n - 1) as nat), path[n - 1])
    }
}

/// The normal form of a path: no `.`, and no `..` that a name before it
/// cancels; a `..` with nothing to cancel is dropped.
pub open spec fn spec_normalize_path(path: Seq<ComponentView>) -> Seq<ComponentView> {
    normalize_prefix(path, path.len())
}

/// Whether a path starts at the root.
pub open spec fn has_root(path: Seq<ComponentView>) -> bool {
    (path.len() > 0 && path[0] is RootDir) || (path.len() > 1 && path[0] is Prefix
        && path[1] is RootDir)
}

/// The absolute normal form of a path relative to `current_dir`.
pub open spec fn spec_make_abs_path(
    path: Seq<ComponentView>,
    current_dir: Seq<ComponentView>,
) -> Seq<ComponentView> {
    if has_root(path) {
        spec_normalize_path(path)
    } else {
        spec_normalize_path(current_dir + path)
    }
}

fn clone_component(c: &Component) -> (r: Component)
    ensures
        r@ == c@,
{
    match c {
        Component::Prefix(p) => Component::Prefix(p.clone()),
        Component::RootDir => Component::RootDir,
        Component::CurDir => Component::CurDir,
        Component::ParentDir => Component::ParentDir,
        Component::Normal(n) => Component::Normal(n.clone()),
    }
}

/// Normalizes a path without looking at the file system.
pub fn normalize_path(path: &Vec<Component>) -> (r: Vec<Component>)
    ensures
        components_view(r@) == spec_normalize_path(components_view(path@)),
{
    let ghost pv = components_view(path@);
    let mut ret: Vec<Component> = Vec::new();
    assert(components_view(ret@) =~= Seq::<ComponentView>::empty());
    let mut i: usize = 0;
    while i < path.len()
        invariant
            i <= path.len(),
            pv == components_view(path@),
            components_view(ret@) == normalize_prefix(pv, i as nat),
        decreases path.len() - i,
    {
        let ghost before = components_view(ret@);
        assert(pv[i as int] == path@[i as int]@);
        match &path[i] {
            Component::Prefix(p) => {
                ret.push(Component::Prefix(p.clone()));
                assert(components_view(ret@) =~= before.push(pv[i as int]));
            },
            Component::RootDir => {
                let keep = if ret.len() > 0 {
                    match &ret[0] {
                        Component::Prefix(p) => Some(p.clone()),
                        _ => None,
                    }
                } else {
                    None
                };
                ret = Vec::new();
                match keep {
                    Some(p) => {
                        ret.push(Component::Prefix(p));
                        ret.push(Component::RootDir);
                        assert(components_view(ret@) =~= seq![before[0], ComponentView::RootDir]);
                    },
                    None => {
                        ret.push(Component::RootDir);
                        assert(components_view(ret@) =~= seq![ComponentView::RootDir]);
                    },
                }
            },
            Component::CurDir => {},
            Component::ParentDir => {
                let n = ret.len();
                if n > 0 {
                    let is_name = match &ret[n - 1] {
                        Component::Normal(_) => true,
                        _ => false,
                    };
                    if is_name {
                        ret.pop();
                        assert(components_view(ret@) =~= before.drop_last());
                    }
                }
            },
            Component::Normal(c) => {
                ret.push(Component::Normal(c.clone()));
                assert(components_view(ret@) =~= before.push(pv[i as int]));
            },
        }
        i += 1;
    }
    ret
}

/// Whether a path starts at the root.
pub fn is_rooted(path: &Vec<Component>) -> (r: bool)
    ensures
        r == has_root(components_view(path@)),
{
    if path.len() == 0 {
        return false;
    }
    match &path[0] {
        Component::RootDir => true,
        Component::Prefix(_) => {
            if path.len() > 1 {
                match &path[1] {
                    Component::RootDir => true,
                    _ => false,
                }
            } else {
                false
            }
        },
        _ => false,
    }
}

/// Makes a path absolute against `current_dir` and normalizes it.
pub fn make_abs_path(path: Vec<Component>, current_dir: &Vec<Component>) -> (r: Vec<Component>)
    ensures
        components_view(r@) == spec_make_abs_path(
            components_view(path@),
            components_view(current_dir@),
        ),
{
    if is_rooted(&path) {
        normalize_path(&path)
    } else {
        let mut joined: Vec<Component> = Vec::new();
        let mut i: usize = 0;
        while i < current_dir.len()
            invariant
                i <= current_dir.len(),
                components_view(joined@) == components_view(current_dir@).take(i as int),
            decreases current_dir.len() - i,
        {
            let ghost before = components_view(joined@);
            let c = clone_component(&current_dir[i]);
            joined.push(c);
            assert(components_view(joined@) =~= before.push(c@));
            assert(components_view(joined@) =~= components_view(current_dir@).take(i + 1));
            i += 1;
        }
        assert(components_view(current_dir@).take(current_dir.len() as int) =~= components_view(
            current_dir@,
        ));
        let ghost head = components_view(joined@);
        let ghost orig = path@;
        for c in it: path
            invariant
                it.seq() == orig,
                components_view(joined@) == head + components_view(orig).take(it.index() as int),
        {
            let ghost before = components_view(joined@);
            assert(c == orig[it.index() as int]);
            joined.push(c);
            assert(components_view(joined@) =~= before.push(c@));
            assert(components_view(joined@) =~= head + components_view(orig).take(
                it.index() + 1,
            ));
        }
        assert(components_view(orig).take(orig.len() as int) =~= components_view(orig));
        normalize_path(&joined)
    }
}

} // verus!
