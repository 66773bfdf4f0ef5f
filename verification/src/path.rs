//! Paths as sequences of components.
//!
//! A path is what the platform's path parser makes of it: a sequence of
//! components, a name being the bytes that the file system stores. Requested
//! paths arrive as text with `/` between the names.

use vstd::prelude::*;
use vstd::slice::slice_to_vec;
use vstd::utf8::decode_utf8;
use vstd::utf8::valid_utf8;

use crate::text::bytes_equal;
use crate::text::join;
use crate::text::join_text;
use crate::text::lossy_text;
use crate::text::option_text;
use crate::text::string_texts;
use crate::trusted::string_from_utf8;
use crate::trusted::utf8_lossy;

verus! {

/// One component of a path.
#[derive(Debug, Clone, PartialEq, Eq)]
pub enum PathComponent {
    Prefix(Vec<u8>),
    RootDir,
    CurDir,
    ParentDir,
    Normal(Vec<u8>),
}

/// The value of a path component.
pub enum ComponentView {
    Prefix(Seq<u8>),
    RootDir,
    CurDir,
    ParentDir,
    Normal(Seq<u8>),
}

impl View for PathComponent {
    type V = ComponentView;

    open spec fn view(&self) -> ComponentView {
        match self {
            PathComponent::Prefix(b) => ComponentView::Prefix(b@),
            PathComponent::RootDir => ComponentView::RootDir,
            PathComponent::CurDir => ComponentView::CurDir,
            PathComponent::ParentDir => ComponentView::ParentDir,
            PathComponent::Normal(b) => ComponentView::Normal(b@),
        }
    }
}

/// A path inside or around an agent workspace.
#[derive(Debug, Clone, PartialEq, Eq)]
pub struct WorkspacePath {
    pub components: Vec<PathComponent>,
}

impl View for WorkspacePath {
    type V = Seq<ComponentView>;

    open spec fn view(&self) -> Seq<ComponentView> {
        self.components@.map_values(|c: PathComponent| c@)
    }
}

/// The value of an optional path.
pub open spec fn option_path(p: Option<&WorkspacePath>) -> Option<Seq<ComponentView>> {
    match p {
        Some(q) => Some(q@),
        None => None,
    }
}

/// Every component is a name.
pub open spec fn names_only(p: Seq<ComponentView>) -> bool {
    forall|i: int| 0 <= i < p.len() ==> (#[trigger] p[i]) is Normal
}

/// The names among the components, in order.
pub open spec fn names_of(p: Seq<ComponentView>) -> Seq<Seq<u8>>
    decreases p.len(),
{
    if p.len() == 0 {
        seq![]
    } else {
        match p.last() {
            ComponentView::Normal(name) => names_of(p.drop_last()).push(name),
            _ => names_of(p.drop_last()),
        }
    }
}

/// The names of a path as text, with `/` between them.
pub open spec fn rel_text(p: Seq<ComponentView>) -> Seq<char> {
    join_text(names_of(p).map_values(|n: Seq<u8>| lossy_text(n)), "/"@)
}

/// Position of the last `b`, or -1 where there is none.
pub open spec fn last_index(s: Seq<u8>, b: u8) -> int
    decreases s.len(),
{
    if s.len() == 0 {
        -1
    } else if s.last() == b {
        s.len() - 1
    } else {
        last_index(s.drop_last(), b)
    }
}

/// What stands behind the last dot of the last name, unless that dot is the
/// name's first byte.
pub open spec fn extension_bytes(p: Seq<ComponentView>) -> Option<Seq<u8>> {
    if p.len() > 0 {
        match p.last() {
            ComponentView::Normal(name) => if last_index(name, 46) > 0 {
                Some(name.skip(last_index(name, 46) + 1))
            } else {
                None
            },
            _ => None,
        }
    } else {
        None
    }
}

/// The extension of a path, where it has one that is UTF-8.
pub open spec fn extension_text(p: Seq<ComponentView>) -> Option<Seq<char>> {
    match extension_bytes(p) {
        Some(ext) => if valid_utf8(ext) {
            Some(decode_utf8(ext))
        } else {
            None
        },
        None => None,
    }
}

impl PathComponent {
    /// Whether two components are the same.
    pub fn equals(&self, other: &PathComponent) -> (r: bool)
        ensures
            r == (self@ == other@),
    {
        match (self, other) {
            (PathComponent::Prefix(a), PathComponent::Prefix(b)) => bytes_equal(
                a.as_slice(),
                b.as_slice(),
            ),
            (PathComponent::RootDir, PathComponent::RootDir) => true,
            (PathComponent::CurDir, PathComponent::CurDir) => true,
            (PathComponent::ParentDir, PathComponent::ParentDir) => true,
            (PathComponent::Normal(a), PathComponent::Normal(b)) => bytes_equal(
                a.as_slice(),
                b.as_slice(),
            ),
            _ => false,
        }
    }

    /// A copy of the component.
    pub fn copied(&self) -> (r: PathComponent)
        ensures
            r@ == self@,
    {
        match self {
            PathComponent::Prefix(b) => PathComponent::Prefix(slice_to_vec(b.as_slice())),
            PathComponent::RootDir => PathComponent::RootDir,
            PathComponent::CurDir => PathComponent::CurDir,
            PathComponent::ParentDir => PathComponent::ParentDir,
            PathComponent::Normal(b) => PathComponent::Normal(slice_to_vec(b.as_slice())),
        }
    }
}

impl WorkspacePath {
    /// The path without components.
    pub fn empty() -> (r: WorkspacePath)
        ensures
            r@ == Seq::<ComponentView>::empty(),
    {
        let r: WorkspacePath = WorkspacePath { components: Vec::new() };
        assert(r@ =~= Seq::<ComponentView>::empty());
        r
    }

    /// Whether the path has no components.
    pub fn is_empty(&self) -> (r: bool)
        ensures
            r == (self@.len() == 0),
    {
        self.components.len() == 0
    }

    /// Whether two paths have the same components.
    pub fn equals(&self, other: &WorkspacePath) -> (r: bool)
        ensures
            r == (self@ == other@),
    {
        if self.components.len() != other.components.len() {
            assert(self@.len() != other@.len());
            return false;
        }
        let r: bool = self.starts_with(other);
        proof {
            if r {
                assert(self@ =~= other@);
            } else if self@ == other@ {
                assert(other@.is_prefix_of(self@));
            }
        }
        r
    }

    /// Whether the components of `base` come first in this path.
    pub fn starts_with(&self, base: &WorkspacePath) -> (r: bool)
        ensures
            r == base@.is_prefix_of(self@),
    {
        let n: usize = base.components.len();
        if n > self.components.len() {
            return false;
        }
        let mut i: usize = 0;
        while i < n
            invariant
                n == base.components@.len(),
                n <= self.components@.len(),
                i <= n,
                forall|k: int| 0 <= k < i ==> self@[k] == #[trigger] base@[k],
            decreases n - i,
        {
            if !self.components[i].equals(&base.components[i]) {
                assert(self@[i as int] != base@[i as int]);
                assert(self@.subrange(0, n as int)[i as int] == self@[i as int]);
                return false;
            }
            assert(self@[i as int] == base@[i as int]);
            i = i + 1;
        }
        assert(self@.subrange(0, n as int) =~= base@);
        true
    }

    /// The components from position `from` on.
    fn tail(&self, from: usize) -> (r: WorkspacePath)
        requires
            from <= self@.len(),
        ensures
            r@ == self@.skip(from as int),
    {
        let n: usize = self.components.len();
        let mut out: Vec<PathComponent> = Vec::new();
        let mut i: usize = from;
        while i < n
            invariant
                n == self.components@.len(),
                from <= i <= n,
                out@.len() == i - from,
                forall|k: int| 0 <= k < i - from ==> (#[trigger] out@[k])@ == self@[from + k],
            decreases n - i,
        {
            out.push(self.components[i].copied());
            i = i + 1;
        }
        let r: WorkspacePath = WorkspacePath { components: out };
        assert(r@ =~= self@.skip(from as int));
        r
    }

    /// A copy of the path.
    pub fn copied(&self) -> (r: WorkspacePath)
        ensures
            r@ == self@,
    {
        let r: WorkspacePath = self.tail(0);
        assert(self@.skip(0) =~= self@);
        r
    }

    /// What is left of the path behind `base`, where it starts with `base`.
    pub fn strip_prefix(&self, base: &WorkspacePath) -> (r: Option<WorkspacePath>)
        ensures
            r is Some == base@.is_prefix_of(self@),
            r matches Some(rest) ==> rest@ == self@.skip(base@.len() as int),
    {
        if self.starts_with(base) {
            Some(self.tail(base.components.len()))
        } else {
            None
        }
    }

    /// The path that the names of `rel` lead to from here.
    pub fn join(&self, rel: &WorkspacePath) -> (r: WorkspacePath)
        requires
            names_only(rel@),
        ensures
            r@ == self@ + rel@,
    {
        let mut r: WorkspacePath = self.copied();
        let n: usize = rel.components.len();
        let mut i: usize = 0;
        while i < n
            invariant
                n == rel.components@.len(),
                i <= n,
                r@ == self@ + rel@.take(i as int),
            decreases n - i,
        {
            let ghost before = r@;
            r.components.push(rel.components[i].copied());
            assert(r@ =~= before.push(rel@[i as int]));
            assert(r@ =~= self@ + rel@.take(i + 1));
            i = i + 1;
        }
        assert(rel@.take(n as int) =~= rel@);
        r
    }

    /// The extension of the last name, where it is UTF-8.
    pub fn extension(&self) -> (r: Option<String>)
        ensures
            option_text(r) == extension_text(self@),
    {
        let n: usize = self.components.len();
        if n == 0 {
            return None;
        }
        assert(self@.last() == self.components@[n - 1]@);
        let name: &Vec<u8> = match &self.components[n - 1] {
            PathComponent::Normal(name) => name,
            _ => return None,
        };
        let mut end: usize = name.len();
        assert(name@.take(end as int) =~= name@);
        while end > 0 && name[end - 1] != 46
            invariant
                end <= name@.len(),
                last_index(name@, 46) == last_index(name@.take(end as int), 46),
            decreases end,
        {
            assert(name@.take(end as int).drop_last() =~= name@.take(end - 1));
            end = end - 1;
        }
        if end <= 1 {
            return None;
        }
        assert(last_index(name@, 46) == end - 1);
        let ext: &[u8] = vstd::slice::slice_subrange(name.as_slice(), end, name.len());
        assert(ext@ =~= name@.skip(end as int));
        string_from_utf8(slice_to_vec(ext))
    }
}

/// The text of a name; what is not UTF-8 is replaced.
fn name_to_string(name: &Vec<u8>) -> (r: String)
    ensures
        r@ == lossy_text(name@),
{
    utf8_lossy(name.as_slice())
}

/// The names of a path as text, with `/` between them.
pub fn rel_path_to_string(path: &WorkspacePath) -> (r: String)
    ensures
        r@ == rel_text(path@),
{
    let n: usize = path.components.len();
    let mut parts: Vec<String> = Vec::new();
    let mut i: usize = 0;
    assert(string_texts(parts@) =~= names_of(path@.take(0)).map_values(
        |n: Seq<u8>| lossy_text(n),
    ));
    while i < n
        invariant
            n == path.components@.len(),
            i <= n,
            string_texts(parts@) == names_of(path@.take(i as int)).map_values(
                |n: Seq<u8>| lossy_text(n),
            ),
        decreases n - i,
    {
        let ghost before = names_of(path@.take(i as int));
        assert(path@.take(i + 1).drop_last() =~= path@.take(i as int));
        assert(path@.take(i + 1).last() == path.components@[i as int]@);
        match &path.components[i] {
            PathComponent::Normal(name) => {
                let ghost done = string_texts(parts@);
                let text: String = name_to_string(name);
                parts.push(text);
                assert(string_texts(parts@) =~= done.push(text@));
                assert(before.push(name@).map_values(|n: Seq<u8>| lossy_text(n)) =~= done.push(
                    text@,
                ));
            },
            _ => {},
        }
        i = i + 1;
    }
    assert(path@.take(n as int) =~= path@);
    join(&parts, "/")
}

} // verus!
