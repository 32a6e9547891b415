//! Identifiers of types: the text that names a type, and its tree form.

use vstd::prelude::*;

verus! {

/// The tree form of a type identifier: a tuple of types, or a path with type
/// arguments.
#[derive(Debug)]
pub enum SchemaIdTree {
    /// A tuple of types: `(bool, usize)`.
    Tuple(Vec<SchemaIdTree>),
    /// A path with type arguments: `alloc::vec::Vec<usize>`.
    Path { path: Vec<String>, args: Vec<SchemaIdTree> },
}

/// The text of a tree: a tuple in round brackets, a path with `::` between
/// its segments and its arguments, if it has any, in angle brackets.
pub open spec fn render_tree(t: SchemaIdTree) -> Seq<char>
    decreases t, 0int,
{
    match t {
        SchemaIdTree::Tuple(list) => "("@ + render_list(list@, 0) + ")"@,
        SchemaIdTree::Path { path, args } => if args@.len() == 0 {
            render_path(path@, 0)
        } else {
            render_path(path@, 0) + "<"@ + render_list(args@, 0) + ">"@
        },
    }
}

/// The text of the trees `list[k..]`, with `, ` before each but the first of
/// the whole list.
pub open spec fn render_list(list: Seq<SchemaIdTree>, k: int) -> Seq<char>
    decreases list, list.len() - k,
{
    if k < 0 || k >= list.len() {
        Seq::empty()
    } else if k > 0 {
        ", "@ + render_tree(list[k]) + render_list(list, k + 1)
    } else {
        render_tree(list[k]) + render_list(list, k + 1)
    }
}

/// The text of the segments `path[k..]`, with `::` before each but the first
/// of the whole path.
pub open spec fn render_path(path: Seq<String>, k: int) -> Seq<char>
    decreases path.len() - k,
{
    if k < 0 || k >= path.len() {
        Seq::empty()
    } else if k > 0 {
        "::"@ + path[k]@ + render_path(path, k + 1)
    } else {
        path[k]@ + render_path(path, k + 1)
    }
}

/// Whether two trees are alike: same case, equal segments, and trees alike in
/// the same places.
pub open spec fn same_tree(a: SchemaIdTree, b: SchemaIdTree) -> bool
    decreases a, 0int,
{
    match a {
        SchemaIdTree::Tuple(x) => match b {
            SchemaIdTree::Tuple(y) => same_list(x@, y@),
            _ => false,
        },
        SchemaIdTree::Path { path: p, args: x } => match b {
            SchemaIdTree::Path { path: q, args: y } => same_path(p@, q@) && same_list(x@, y@),
            _ => false,
        },
    }
}

/// Whether two lists of trees are alike.
pub open spec fn same_list(x: Seq<SchemaIdTree>, y: Seq<SchemaIdTree>) -> bool
    decreases x, 1int,
{
    &&& x.len() == y.len()
    &&& forall|i: int| 0 <= i < x.len() ==> same_tree(#[trigger] x[i], y[i])
}

/// Whether two paths have the same segments.
pub open spec fn same_path(p: Seq<String>, q: Seq<String>) -> bool {
    &&& p.len() == q.len()
    &&& forall|i: int| 0 <= i < p.len() ==> (#[trigger] p[i])@ == q[i]@
}

/// Copies a list of trees.
fn clone_list(list: &Vec<SchemaIdTree>) -> (r: Vec<SchemaIdTree>)
    ensures
        same_list(list@, r@),
    decreases list, 1int,
{
    let mut r: Vec<SchemaIdTree> = Vec::with_capacity(list.len());
    let mut i: usize = 0;
    while i < list.len()
        invariant
            i <= list@.len(),
            r@.len() == i,
            forall|j: int| 0 <= j < i ==> same_tree(#[trigger] list@[j], r@[j]),
        decreases list@.len() - i,
    {
        r.push(list[i].clone_tree());
        i += 1;
    }
    r
}

/// Copies a path.
fn clone_path(path: &Vec<String>) -> (r: Vec<String>)
    ensures
        same_path(path@, r@),
{
    let mut r: Vec<String> = Vec::with_capacity(path.len());
    let mut i: usize = 0;
    while i < path.len()
        invariant
            i <= path@.len(),
            r@.len() == i,
            forall|j: int| 0 <= j < i ==> (#[trigger] path@[j])@ == r@[j]@,
        decreases path@.len() - i,
    {
        r.push(path[i].clone());
        i += 1;
    }
    r
}

/// Compares two lists of trees.
fn eq_list(x: &Vec<SchemaIdTree>, y: &Vec<SchemaIdTree>) -> (r: bool)
    ensures
        r == same_list(x@, y@),
    decreases x, 1int,
{
    if x.len() != y.len() {
        return false;
    }
    let mut i: usize = 0;
    while i < x.len()
        invariant
            i <= x@.len(),
            x@.len() == y@.len(),
            forall|j: int| 0 <= j < i ==> same_tree(#[trigger] x@[j], y@[j]),
        decreases x@.len() - i,
    {
        if !x[i].eq_tree(&y[i]) {
            return false;
        }
        i += 1;
    }
    true
}

/// Compares two paths.
fn eq_path(p: &Vec<String>, q: &Vec<String>) -> (r: bool)
    ensures
        r == same_path(p@, q@),
{
    if p.len() != q.len() {
        return false;
    }
    let mut i: usize = 0;
    while i < p.len()
        invariant
            i <= p@.len(),
            p@.len() == q@.len(),
            forall|j: int| 0 <= j < i ==> (#[trigger] p@[j])@ == q@[j]@,
        decreases p@.len() - i,
    {
        if p[i] != q[i] {
            return false;
        }
        i += 1;
    }
    true
}

impl SchemaIdTree {
    /// Copies the tree.
    pub fn clone_tree(&self) -> (r: SchemaIdTree)
        ensures
            same_tree(*self, r),
        decreases self, 0int,
    {
        match self {
            SchemaIdTree::Tuple(list) => SchemaIdTree::Tuple(clone_list(list)),
            SchemaIdTree::Path { path, args } => SchemaIdTree::Path {
                path: clone_path(path),
                args: clone_list(args),
            },
        }
    }

    /// Compares two trees.
    pub fn eq_tree(&self, other: &SchemaIdTree) -> (r: bool)
        ensures
            r == same_tree(*self, *other),
        decreases self, 0int,
    {
        match self {
            SchemaIdTree::Tuple(x) => match other {
                SchemaIdTree::Tuple(y) => eq_list(x, y),
                _ => false,
            },
            SchemaIdTree::Path { path: p, args: x } => match other {
                SchemaIdTree::Path { path: q, args: y } => eq_path(p, q) && eq_list(x, y),
                _ => false,
            },
        }
    }
}

impl Clone for SchemaIdTree {
    fn clone(&self) -> (r: Self)
        ensures
            same_tree(*self, r),
    {
        self.clone_tree()
    }
}

impl PartialEq for SchemaIdTree {
    fn eq(&self, other: &Self) -> (r: bool) {
        self.eq_tree(other)
    }
}

impl Eq for SchemaIdTree {

}

impl vstd::std_specs::cmp::PartialEqSpecImpl for SchemaIdTree {
    open spec fn obeys_eq_spec() -> bool {
        true
    }

    open spec fn eq_spec(&self, other: &Self) -> bool {
        same_tree(*self, *other)
    }
}

/// Appends the text of a list of trees.
fn render_list_into(list: &Vec<SchemaIdTree>, out: &mut String)
    ensures
        final(out)@ == old(out)@ + render_list(list@, 0),
    decreases list, 1int,
{
    let ghost start = out@;
    let mut i: usize = 0;
    while i < list.len()
        invariant
            i <= list@.len(),
            out@ + render_list(list@, i as int) == start + render_list(list@, 0),
        decreases list@.len() - i,
    {
        let ghost before = out@;
        if i > 0 {
            out.append(", ");
        }
        let ghost middle = out@;
        list[i].render_into(out);
        proof {
            let item = render_tree(list@[i as int]);
            let rest = render_list(list@, i + 1);
            if i > 0 {
                assert(before + ", "@ + item + rest =~= before + (", "@ + item + rest));
            } else {
                assert(before + item + rest =~= before + (item + rest));
            }
        }
        i += 1;
    }
    proof {
        assert(out@ + Seq::<char>::empty() =~= out@);
    }
}

/// Appends the text of a path.
fn render_path_into(path: &Vec<String>, out: &mut String)
    ensures
        final(out)@ == old(out)@ + render_path(path@, 0),
{
    let ghost start = out@;
    let mut i: usize = 0;
    while i < path.len()
        invariant
            i <= path@.len(),
            out@ + render_path(path@, i as int) == start + render_path(path@, 0),
        decreases path@.len() - i,
    {
        let ghost before = out@;
        if i > 0 {
            out.append("::");
        }
        out.append(path[i].as_str());
        proof {
            let item = path@[i as int]@;
            let rest = render_path(path@, i + 1);
            if i > 0 {
                assert(before + "::"@ + item + rest =~= before + ("::"@ + item + rest));
            } else {
                assert(before + item + rest =~= before + (item + rest));
            }
        }
        i += 1;
    }
    proof {
        assert(out@ + Seq::<char>::empty() =~= out@);
    }
}

impl SchemaIdTree {
    /// The items of a tuple.
    pub fn as_tuple(&self) -> (r: Option<&[SchemaIdTree]>)
        ensures
            match *self {
                SchemaIdTree::Tuple(list) => r.is_some() && r.unwrap()@ == list@,
                _ => r.is_none(),
            },
    {
        match self {
            SchemaIdTree::Tuple(list) => Some(list.as_slice()),
            _ => None,
        }
    }

    /// The segments of a path.
    pub fn as_path(&self) -> (r: Option<&[String]>)
        ensures
            match *self {
                SchemaIdTree::Path { path, args } => r.is_some() && r.unwrap()@ == path@,
                _ => r.is_none(),
            },
    {
        match self {
            SchemaIdTree::Path { path, .. } => Some(path.as_slice()),
            _ => None,
        }
    }

    /// The last segment of a path.
    pub fn as_path_name(&self) -> (r: Option<&str>)
        ensures
            match *self {
                SchemaIdTree::Path { path, args } => if path@.len() == 0 {
                    r.is_none()
                } else {
                    r.is_some() && r.unwrap()@ == path@[path@.len() - 1]@
                },
                _ => r.is_none(),
            },
    {
        match self {
            SchemaIdTree::Path { path, .. } => {
                if path.len() == 0 {
                    None
                } else {
                    Some(path[path.len() - 1].as_str())
                }
            },
            _ => None,
        }
    }

    /// The type arguments of a path.
    pub fn as_path_args(&self) -> (r: Option<&[SchemaIdTree]>)
        ensures
            match *self {
                SchemaIdTree::Path { path, args } => r.is_some() && r.unwrap()@ == args@,
                _ => r.is_none(),
            },
    {
        match self {
            SchemaIdTree::Path { args, .. } => Some(args.as_slice()),
            _ => None,
        }
    }

    /// Appends the text of this tree.
    pub fn render_into(&self, out: &mut String)
        ensures
            final(out)@ == old(out)@ + render_tree(*self),
        decreases self, 0int,
    {
        let ghost start = out@;
        match self {
            SchemaIdTree::Tuple(list) => {
                out.append("(");
                render_list_into(list, out);
                out.append(")");
                proof {
                    assert(out@ =~= start + ("("@ + render_list(list@, 0) + ")"@));
                }
            },
            SchemaIdTree::Path { path, args } => {
                render_path_into(path, out);
                if args.len() > 0 {
                    out.append("<");
                    render_list_into(args, out);
                    out.append(">");
                    proof {
                        assert(out@ =~= start + (render_path(path@, 0) + "<"@ + render_list(
                            args@,
                            0,
                        ) + ">"@));
                    }
                }
            },
        }
    }

    /// The text of this tree.
    pub fn render(&self) -> (r: String)
        ensures
            r@ == render_tree(*self),
    {
        let mut out = String::new();
        self.render_into(&mut out);
        proof {
            assert(Seq::<char>::empty() + render_tree(*self) =~= render_tree(*self));
        }
        out
    }
}

/// The text that names a type.
#[derive(Debug, Clone)]
pub struct SchemaId(pub String);

impl PartialEq for SchemaId {
    fn eq(&self, other: &Self) -> (r: bool) {
        self.0 == other.0
    }
}

impl Eq for SchemaId {

}

impl vstd::std_specs::cmp::PartialEqSpecImpl for SchemaId {
    open spec fn obeys_eq_spec() -> bool {
        true
    }

    open spec fn eq_spec(&self, other: &Self) -> bool {
        self.0@ == other.0@
    }
}

impl SchemaId {
    /// The identifier with the given text.
    pub fn new(text: &str) -> (r: SchemaId)
        ensures
            r.0@ == text@,
    {
        SchemaId(text.to_owned())
    }

    /// The text of this identifier.
    pub fn id(&self) -> (r: &str)
        ensures
            r@ == self.0@,
    {
        self.0.as_str()
    }

    /// The identifier whose text is the text of `tree`.
    pub fn from_tree(tree: &SchemaIdTree) -> (r: SchemaId)
        ensures
            r.0@ == render_tree(*tree),
    {
        SchemaId(tree.render())
    }
}

/// A type identifier in either form.
#[derive(Debug, Clone)]
pub enum SchemaIdContainer {
    /// The text form.
    Id(SchemaId),
    /// The tree form.
    Tree(SchemaIdTree),
}

/// Whether two identifiers are alike: the same form, and the same text or
/// trees alike.
pub open spec fn same_container(a: SchemaIdContainer, b: SchemaIdContainer) -> bool {
    match a {
        SchemaIdContainer::Id(x) => match b {
            SchemaIdContainer::Id(y) => x.0@ == y.0@,
            _ => false,
        },
        SchemaIdContainer::Tree(x) => match b {
            SchemaIdContainer::Tree(y) => same_tree(x, y),
            _ => false,
        },
    }
}

impl PartialEq for SchemaIdContainer {
    fn eq(&self, other: &Self) -> (r: bool) {
        match self {
            SchemaIdContainer::Id(x) => match other {
                SchemaIdContainer::Id(y) => x.0 == y.0,
                _ => false,
            },
            SchemaIdContainer::Tree(x) => match other {
                SchemaIdContainer::Tree(y) => x.eq_tree(y),
                _ => false,
            },
        }
    }
}

impl Eq for SchemaIdContainer {

}

impl vstd::std_specs::cmp::PartialEqSpecImpl for SchemaIdContainer {
    open spec fn obeys_eq_spec() -> bool {
        true
    }

    open spec fn eq_spec(&self, other: &Self) -> bool {
        same_container(*self, *other)
    }
}

impl SchemaIdContainer {
    /// Holds an identifier in text form.
    pub fn new_id(id: SchemaId) -> (r: SchemaIdContainer)
        ensures
            r == SchemaIdContainer::Id(id),
    {
        SchemaIdContainer::Id(id)
    }

    /// Holds an identifier in tree form.
    pub fn new_tree(tree: SchemaIdTree) -> (r: SchemaIdContainer)
        ensures
            r == SchemaIdContainer::Tree(tree),
    {
        SchemaIdContainer::Tree(tree)
    }

    /// The text form, if this is one.
    pub fn as_id(&self) -> (r: Option<&SchemaId>)
        ensures
            match *self {
                SchemaIdContainer::Id(id) => r == Some(&id),
                _ => r.is_none(),
            },
    {
        match self {
            SchemaIdContainer::Id(id) => Some(id),
            _ => None,
        }
    }

    /// The tree form, if this is one.
    pub fn as_tree(&self) -> (r: Option<&SchemaIdTree>)
        ensures
            match *self {
                SchemaIdContainer::Tree(tree) => r == Some(&tree),
                _ => r.is_none(),
            },
    {
        match self {
            SchemaIdContainer::Tree(tree) => Some(tree),
            _ => None,
        }
    }

    /// The text form: the identifier itself, or the text of the tree.
    pub fn into_id(self) -> (r: SchemaId)
        ensures
            match self {
                SchemaIdContainer::Id(id) => r == id,
                SchemaIdContainer::Tree(tree) => r.0@ == render_tree(tree),
            },
    {
        match self {
            SchemaIdContainer::Id(id) => id,
            SchemaIdContainer::Tree(tree) => SchemaId::from_tree(&tree),
        }
    }
}

} // verus!
