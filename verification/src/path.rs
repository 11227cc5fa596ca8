//! Paths as sequences of components, the way the file system layer splits
//! them, with the comparisons that confinement checks need.

use vstd::prelude::*;
use vstd::string::*;
use crate::order::{compare_names, Order};
use crate::platform::Platform;

verus! {

/// One component of a path.
pub enum PathComponent {
    /// A drive or share prefix (Windows only), as text.
    Prefix(String),
    /// The root separator.
    RootDir,
    /// `.` at the start of a relative path.
    CurDir,
    /// `..`.
    ParentDir,
    /// An ordinary name.
    Normal(String),
}

/// The model of a path component.
pub enum ComponentView {
    Prefix(Seq<char>),
    RootDir,
    CurDir,
    ParentDir,
    Normal(Seq<char>),
}

impl DeepView for PathComponent {
    type V = ComponentView;

    open spec fn deep_view(&self) -> ComponentView {
        match self {
            PathComponent::Prefix(s) => ComponentView::Prefix(s@),
            PathComponent::RootDir => ComponentView::RootDir,
            PathComponent::CurDir => ComponentView::CurDir,
            PathComponent::ParentDir => ComponentView::ParentDir,
            PathComponent::Normal(s) => ComponentView::Normal(s@),
        }
    }
}

/// A path as its components, with whether the host considers it absolute.
pub struct PathModel {
    pub components: Vec<PathComponent>,
    pub absolute: bool,
}

/// `base` is a leading part of `path`, component by component.
pub open spec fn is_prefix(base: Seq<ComponentView>, path: Seq<ComponentView>) -> bool {
    base.len() <= path.len() && path.take(base.len() as int) == base
}

/// `path` lies strictly below `base`.
pub open spec fn strictly_inside(base: Seq<ComponentView>, path: Seq<ComponentView>) -> bool {
    is_prefix(base, path) && base.len() < path.len()
}

/// Copies a component.
pub fn clone_component(c: &PathComponent) -> (r: PathComponent)
    ensures
        r.deep_view() == c.deep_view(),
{
    match c {
        PathComponent::Prefix(s) => PathComponent::Prefix(s.clone()),
        PathComponent::RootDir => PathComponent::RootDir,
        PathComponent::CurDir => PathComponent::CurDir,
        PathComponent::ParentDir => PathComponent::ParentDir,
        PathComponent::Normal(s) => PathComponent::Normal(s.clone()),
    }
}

/// Copies a path.
pub fn clone_path(p: &Vec<PathComponent>) -> (r: Vec<PathComponent>)
    ensures
        r.deep_view() == p.deep_view(),
{
    let mut r: Vec<PathComponent> = Vec::new();
    let n = p.len();
    let mut i: usize = 0;
    while i < n
        invariant
            n == p.len(),
            i <= n,
            r.len() == i,
            forall|j: int| 0 <= j < i ==> #[trigger] r@[j].deep_view() == p@[j].deep_view(),
        decreases n - i,
    {
        r.push(clone_component(&p[i]));
        i = i + 1;
    }
    assert(r.deep_view() =~= p.deep_view());
    r
}

/// Whether two components are the same.
pub fn component_eq(a: &PathComponent, b: &PathComponent) -> (r: bool)
    ensures
        r == (a.deep_view() == b.deep_view()),
{
    match (a, b) {
        (PathComponent::Prefix(x), PathComponent::Prefix(y)) => matches!(compare_names(x.as_str(), y.as_str()), Order::Equal),
        (PathComponent::RootDir, PathComponent::RootDir) => true,
        (PathComponent::CurDir, PathComponent::CurDir) => true,
        (PathComponent::ParentDir, PathComponent::ParentDir) => true,
        (PathComponent::Normal(x), PathComponent::Normal(y)) => matches!(compare_names(x.as_str(), y.as_str()), Order::Equal),
        _ => false,
    }
}

/// Whether `path` begins with all of `base`.
pub fn starts_with(path: &Vec<PathComponent>, base: &Vec<PathComponent>) -> (r: bool)
    ensures
        r == is_prefix(base.deep_view(), path.deep_view()),
{
    let ghost pv = path.deep_view();
    let ghost bv = base.deep_view();
    if base.len() > path.len() {
        return false;
    }
    let n = base.len();
    let mut i: usize = 0;
    while i < n
        invariant
            n == base.len(),
            n <= path.len(),
            pv == path.deep_view(),
            bv == base.deep_view(),
            i <= n,
            forall|j: int| 0 <= j < i ==> pv[j] == bv[j],
        decreases n - i,
    {
        if !component_eq(&path[i], &base[i]) {
            assert(pv.take(n as int)[i as int] != bv[i as int]);
            return false;
        }
        i = i + 1;
    }
    assert(pv.take(n as int) =~= bv);
    true
}

/// Whether two paths are the same.
pub fn path_eq(a: &Vec<PathComponent>, b: &Vec<PathComponent>) -> (r: bool)
    ensures
        r == (a.deep_view() == b.deep_view()),
{
    if a.len() != b.len() {
        assert(a.deep_view().len() != b.deep_view().len());
        return false;
    }
    let r = starts_with(a, b);
    assert(a.deep_view().take(b.len() as int) =~= a.deep_view());
    r
}

/// What remains of `path` after `base`, if `path` begins with `base`.
pub fn strip_prefix(path: &Vec<PathComponent>, base: &Vec<PathComponent>) -> (r: Option<Vec<PathComponent>>)
    ensures
        r is Some <==> is_prefix(base.deep_view(), path.deep_view()),
        r matches Some(rest) ==> rest.deep_view() == path.deep_view().skip(base.len() as int),
{
    if !starts_with(path, base) {
        return None;
    }
    let mut rest: Vec<PathComponent> = Vec::new();
    let n = path.len();
    let mut i: usize = base.len();
    while i < n
        invariant
            n == path.len(),
            base.len() <= i <= n,
            rest.len() == i - base.len(),
            forall|j: int| 0 <= j < rest.len() ==> #[trigger] rest@[j].deep_view() == path@[j + base.len()].deep_view(),
        decreases n - i,
    {
        rest.push(clone_component(&path[i]));
        i = i + 1;
    }
    assert(rest.deep_view() =~= path.deep_view().skip(base.len() as int));
    Some(rest)
}

/// A name that Windows would read differently from what it says: it holds a
/// colon, or ends with a dot or a space.
pub open spec fn is_ambiguous_on_windows(name: Seq<char>) -> bool {
    ||| name.contains(':')
    ||| (name.len() > 0 && name.last() == '.')
    ||| (name.len() > 0 && name.last() == ' ')
}

/// Whether Windows would read `name` ambiguously.
pub fn is_ambiguous_windows_name(name: &str) -> (r: bool)
    ensures
        r == is_ambiguous_on_windows(name@),
        r <==> ((exists|i: int| 0 <= i < name@.len() && #[trigger] name@[i] == ':')
            || (name@.len() > 0 && (name@[name@.len() - 1] == '.' || name@[name@.len() - 1] == ' '))),
{
    proof {
        lemma_ambiguous_names(name@);
    }
    let n = name.unicode_len();
    let mut i: usize = 0;
    while i < n
        invariant
            n == name@.len(),
            i <= n,
            forall|j: int| 0 <= j < i ==> name@[j] != ':',
        decreases n - i,
    {
        if name.get_char(i) == ':' {
            assert(name@.contains(':'));
            return true;
        }
        i = i + 1;
    }
    assert(!name@.contains(':'));
    if n == 0 {
        return false;
    }
    let last = name.get_char(n - 1);
    last == '.' || last == ' '
}

/// A name that stands for one entry of its directory: not empty, not `.` or
/// `..`, and holding no separator (`/`, and on Windows `\` too).
pub open spec fn is_ordinary_name(name: Seq<char>, platform: Platform) -> bool {
    &&& name.len() > 0
    &&& name != seq!['.']
    &&& name != seq!['.', '.']
    &&& !name.contains('/')
    &&& !(platform is Windows && name.contains('\\'))
}

/// A component that is an ordinary name.
pub open spec fn is_ordinary_component(c: ComponentView, platform: Platform) -> bool {
    c matches ComponentView::Normal(name) && is_ordinary_name(name, platform)
}

/// Every component of `path` from `start` on is an ordinary name.
pub open spec fn ordinary_from(start: int, path: Seq<ComponentView>, platform: Platform) -> bool {
    forall|i: int| start <= i < path.len() ==> #[trigger] is_ordinary_component(path[i], platform)
}

/// Whether `name` is an ordinary name on `platform`.
pub fn is_ordinary(name: &str, platform: Platform) -> (r: bool)
    ensures
        r == is_ordinary_name(name@, platform),
        r <==> (name@.len() > 0 && name@ != seq!['.'] && name@ != seq!['.', '.']
            && forall|i: int| 0 <= i < name@.len() ==> #[trigger] name@[i] != '/' && !(platform is Windows && name@[i] == '\\')),
{
    proof {
        lemma_ordinary_names(name@, platform);
    }
    let n = name.unicode_len();
    if n == 0 {
        return false;
    }
    let windows = matches!(platform, Platform::Windows);
    let mut i: usize = 0;
    while i < n
        invariant
            n == name@.len(),
            i <= n,
            forall|j: int| 0 <= j < i ==> name@[j] != '/' && !(windows && name@[j] == '\\'),
            windows == (platform is Windows),
        decreases n - i,
    {
        let c = name.get_char(i);
        if c == '/' || (windows && c == '\\') {
            assert(name@[i as int] == c);
            return false;
        }
        i = i + 1;
    }
    assert(!name@.contains('/'));
    assert(windows ==> !name@.contains('\\'));
    if n <= 2 && name.get_char(0) == '.' && (n == 1 || name.get_char(1) == '.') {
        proof {
            if n == 1 {
                assert(name@ =~= seq!['.']);
            } else {
                assert(name@ =~= seq!['.', '.']);
            }
        }
        return false;
    }
    proof {
        if name@ == seq!['.'] || name@ == seq!['.', '.'] {
            assert(name@[0] == '.');
        }
    }
    true
}

/// Whether every component of `path` from `start` on is an ordinary name.
pub fn ordinary_after(path: &Vec<PathComponent>, start: usize, platform: Platform) -> (r: bool)
    ensures
        r == ordinary_from(start as int, path.deep_view(), platform),
{
    let ghost pv = path.deep_view();
    let mut i: usize = start;
    while i < path.len()
        invariant
            pv == path.deep_view(),
            start <= i || i >= path.len(),
            forall|j: int| start <= j < i && j < pv.len() ==> #[trigger] is_ordinary_component(pv[j], platform),
        decreases path.len() - i,
    {
        let ok = match &path[i] {
            PathComponent::Normal(name) => is_ordinary(name.as_str(), platform),
            _ => false,
        };
        if !ok {
            assert(!is_ordinary_component(pv[i as int], platform));
            return false;
        }
        i = i + 1;
    }
    true
}

/// Which names are ordinary depends only on the separators and the three
/// names that do not stand for an entry: a name is ordinary exactly when it
/// is not empty, not `.` and not `..`, and no character of it is `/` (nor,
/// on Windows, `\`). Dots elsewhere, spaces and any other characters are
/// allowed.
pub proof fn lemma_ordinary_names(name: Seq<char>, platform: Platform)
    ensures
        is_ordinary_name(name, platform) <==> (name.len() > 0 && name != seq!['.'] && name != seq!['.', '.']
            && forall|i: int| 0 <= i < name.len() ==> #[trigger] name[i] != '/' && !(platform is Windows && name[i] == '\\')),
{
    if exists|i: int| 0 <= i < name.len() && #[trigger] name[i] == '/' {
        let i = choose|i: int| 0 <= i < name.len() && #[trigger] name[i] == '/';
        assert(name.contains('/'));
    }
    if exists|i: int| 0 <= i < name.len() && #[trigger] name[i] == '\\' {
        let i = choose|i: int| 0 <= i < name.len() && #[trigger] name[i] == '\\';
        assert(name.contains('\\'));
    }
}

/// A name that begins with a dot, such as `.gitkeep` or `.env`, is as
/// ordinary as any other: a dot followed by a non-empty rest that is not
/// itself `.` and holds no separator is an ordinary name.
pub proof fn lemma_dot_names_are_ordinary(rest: Seq<char>, platform: Platform)
    requires
        rest.len() > 0,
        rest != seq!['.'],
        forall|i: int| 0 <= i < rest.len() ==> #[trigger] rest[i] != '/' && !(platform is Windows && rest[i] == '\\'),
    ensures
        is_ordinary_name(seq!['.'] + rest, platform),
{
    let name = seq!['.'] + rest;
    lemma_ordinary_names(name, platform);
    assert forall|i: int| 0 <= i < name.len() implies #[trigger] name[i] != '/' && !(platform is Windows && name[i] == '\\') by {
        if i > 0 {
            assert(name[i] == rest[i - 1]);
        }
    }
    if name == seq!['.', '.'] {
        assert(rest =~= seq!['.']);
    }
    assert(name.len() >= 2);
}

/// Windows reads a name differently from what it says exactly when the
/// name holds a colon, or its last character is a dot or a space; a dot or
/// a space anywhere else does not matter.
pub proof fn lemma_ambiguous_names(name: Seq<char>)
    ensures
        is_ambiguous_on_windows(name) <==> ((exists|i: int| 0 <= i < name.len() && #[trigger] name[i] == ':')
            || (name.len() > 0 && (name[name.len() - 1] == '.' || name[name.len() - 1] == ' '))),
{
    if exists|i: int| 0 <= i < name.len() && #[trigger] name[i] == ':' {
        let i = choose|i: int| 0 <= i < name.len() && #[trigger] name[i] == ':';
        assert(name.contains(':'));
    }
}

/// A name with an extension, such as `demo.txt`, is not ambiguous: a base
/// and an extension joined by a dot, neither holding a colon, where the
/// extension is not empty and ends with neither a dot nor a space.
pub proof fn lemma_extensions_are_unambiguous(base: Seq<char>, ext: Seq<char>)
    requires
        forall|i: int| 0 <= i < base.len() ==> #[trigger] base[i] != ':',
        forall|i: int| 0 <= i < ext.len() ==> #[trigger] ext[i] != ':',
        ext.len() > 0,
        ext[ext.len() - 1] != '.',
        ext[ext.len() - 1] != ' ',
    ensures
        !is_ambiguous_on_windows(base + seq!['.'] + ext),
{
    let name = base + seq!['.'] + ext;
    lemma_ambiguous_names(name);
    assert forall|i: int| 0 <= i < name.len() implies #[trigger] name[i] != ':' by {
        if i < base.len() {
            assert(name[i] == base[i]);
        } else if i > base.len() {
            assert(name[i] == ext[i - base.len() - 1]);
        }
    }
    assert(name[name.len() - 1] == ext[ext.len() - 1]);
}

} // verus!
