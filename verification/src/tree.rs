//! The objects of a server, filed by their paths. Every path that leads to an
//! object has a node, and each node knows the names of the nodes right below
//! it.

use vstd::prelude::*;
use vstd::string::StrSliceExecFns;
use crate::error::Error;
use crate::message::{is_error_reply, ErrorMessage, Message, UNKNOWN_OBJECT};
use crate::names::NameMap;
use crate::object::Object;
use crate::registry::{finalized, ChildrenList, Interfaces, InterfacesBuilder, Outcome, OBJECT_MANAGER};
use crate::text::{chars_of, has_prefix, join, starts_with};
use crate::value::{BasicValue, Dictionary, Path, Signature, Value};

verus! {

/// One place in the tree: an object, or only the way to the objects below.
pub struct Node {
    /// The object at this path, if one is registered.
    pub object: Option<Object>,
    /// Whether the object manages the objects below it.
    pub is_manager: bool,
    /// The names of the nodes right below this one.
    pub children: ChildrenList,
}

/// The objects of a server by path.
pub struct ObjectTree {
    nodes: NameMap<Node>,
}

/// Whether an object of the first set of nodes is in the second as it was.
pub open spec fn kept(a: NameMap<Node>, b: NameMap<Node>, k: Seq<char>) -> bool {
    &&& b.has(k)
    &&& b.item(k).object is Some
    &&& b.item(k).is_manager == a.item(k).is_manager
    &&& b.item(k).object->0.path == a.item(k).object->0.path
    &&& b.item(k).object->0.interfaces.map == a.item(k).object->0.interfaces.map
}

impl ObjectTree {
    /// The nodes by their full paths.
    pub closed spec fn nodes(self) -> NameMap<Node> {
        self.nodes
    }

    #[verifier::type_invariant]
    spec fn shows_children(self) -> bool {
        synced(self.nodes)
    }

    /// Whether an object is registered at a path.
    pub open spec fn has_object(self, path: Seq<char>) -> bool {
        self.nodes().has(path) && self.nodes().item(path).object is Some
    }

    /// The object registered at a path.
    pub open spec fn object(self, path: Seq<char>) -> Object
        recommends
            self.has_object(path),
    {
        self.nodes().item(path).object->0
    }

    /// Whether every object of `before`, but the one at `path`, is in this
    /// tree as it was, and no other object but at `path`.
    pub open spec fn keeps(self, before: ObjectTree, path: Seq<char>) -> bool {
        forall|k: Seq<char>|
            k != path ==> ((#[trigger] before.has_object(k) <==> self.has_object(k)) && (before.has_object(k)
                ==> kept(before.nodes(), self.nodes(), k)))
    }

    /// A tree without objects.
    pub fn new() -> (r: ObjectTree)
        ensures
            forall|k: Seq<char>| !r.has_object(k),
            r.nodes().count() == 0,
    {
        ObjectTree { nodes: NameMap::new() }
    }

    /// The object registered at a path.
    pub fn lookup(&self, path: &str) -> (r: Option<&Object>)
        ensures
            match r {
                Some(o) => self.has_object(path@) && *o == self.object(path@),
                None => !self.has_object(path@),
            },
    {
        match self.nodes.get(path) {
            Some(node) => match &node.object {
                Some(o) => Some(o),
                None => None,
            },
            None => None,
        }
    }

    /// Whether an object is registered at a path.
    pub fn resolves(&self, path: &str) -> (r: bool)
        ensures
            r == self.has_object(path@),
    {
        self.lookup(path).is_some()
    }
}

/// The position of the last slash of a path, or -1 where it has none.
pub open spec fn last_slash(path: Seq<char>) -> int
    decreases path.len(),
{
    if path.len() == 0 {
        -1
    } else if path.last() == '/' {
        path.len() - 1
    } else {
        last_slash(path.drop_last())
    }
}

/// The path of the node above the node at a path: what stands before the last
/// slash, and the root for a node right below the root.
pub open spec fn above(path: Seq<char>) -> Seq<char> {
    if last_slash(path) <= 0 {
        seq!['/']
    } else {
        path.subrange(0, last_slash(path))
    }
}

/// The name of the node at a path: what stands after the last slash.
pub open spec fn leaf(path: Seq<char>) -> Seq<char> {
    path.subrange(last_slash(path) + 1, path.len() as int)
}

/// Whether the first `c` characters of a path are the path of a node on the
/// way to it: the whole path, or what stands before one of its later slashes.
pub open spec fn is_part(path: Seq<char>, c: int) -> bool {
    2 <= c <= path.len() && (c == path.len() || path[c] == '/')
}

/// Whether the node above the node at a path is there and has the node's name
/// among its children.
pub open spec fn linked(nodes: NameMap<Node>, path: Seq<char>) -> bool {
    nodes.has(above(path)) && has_child(nodes.item(above(path)), leaf(path))
}

/// Whether a node has a child of that name.
pub open spec fn has_child(node: Node, name: Seq<char>) -> bool {
    exists|i: int| 0 <= i < node.children@.len() && (#[trigger] node.children@[i])@ == name
}

/// Whether the second list of children is the first with further names at its
/// end.
pub open spec fn grown(a: Seq<String>, b: Seq<String>) -> bool {
    a.len() <= b.len() && b.subrange(0, a.len() as int) == a
}

/// Whether every node of the first set has, in the second, the children that
/// it had and maybe more after them.
pub open spec fn grows_all(a: NameMap<Node>, b: NameMap<Node>) -> bool {
    forall|k: Seq<char>| #[trigger] a.has(k) ==> b.has(k) && grown(a.item(k).children@, b.item(k).children@)
}

/// Children that grow twice have grown.
pub proof fn lemma_grows_chain(a: NameMap<Node>, b: NameMap<Node>, c: NameMap<Node>)
    requires
        grows_all(a, b),
        grows_all(b, c),
    ensures
        grows_all(a, c),
{
    assert forall|k: Seq<char>| #[trigger] a.has(k) implies c.has(k) && grown(
        a.item(k).children@,
        c.item(k).children@,
    ) by {
        assert(b.has(k));
        let x = a.item(k).children@;
        let y = b.item(k).children@;
        let z = c.item(k).children@;
        assert(z.subrange(0, x.len() as int) =~= y.subrange(0, x.len() as int));
    }
}

/// A child stays a child when the children grow.
pub proof fn lemma_child_stays(a: Node, b: Node, name: Seq<char>)
    requires
        has_child(a, name),
        grown(a.children@, b.children@),
    ensures
        has_child(b, name),
{
    let i = choose|i: int| 0 <= i < a.children@.len() && (#[trigger] a.children@[i])@ == name;
    assert(b.children@.subrange(0, a.children@.len() as int)[i] == b.children@[i]);
}

/// The last slash of a path with one more character.
pub proof fn lemma_last_slash_step(path: Seq<char>, i: int)
    requires
        0 <= i < path.len(),
    ensures
        last_slash(path.subrange(0, i + 1)) == (if path[i] == '/' {
            i
        } else {
            last_slash(path.subrange(0, i))
        }),
{
    assert(path.subrange(0, i + 1).drop_last() =~= path.subrange(0, i));
}

/// Whether the second set of nodes has every node of the first, with the same
/// object or none at each, and no object at a node that is new.
pub open spec fn extends(a: NameMap<Node>, b: NameMap<Node>) -> bool {
    &&& forall|k: Seq<char>| #[trigger] a.has(k) ==> b.has(k)
    &&& forall|k: Seq<char>| #[trigger] a.has(k) ==> (a.item(k).object is Some <==> b.item(k).object is Some)
    &&& forall|k: Seq<char>| #[trigger] a.has(k) && a.item(k).object is Some ==> kept(a, b, k)
    &&& forall|k: Seq<char>| #[trigger] b.has(k) && !a.has(k) ==> b.item(k).object is None
}

/// Whether every object shows the children that its node has.
pub open spec fn synced(nodes: NameMap<Node>) -> bool {
    forall|k: Seq<char>| #[trigger]
        nodes.has(k) && nodes.item(k).object is Some ==> nodes.item(k).object->0.interfaces.children@
            == nodes.item(k).children@
}

/// A copy of a list of names.
pub fn copy_list(list: &Vec<String>) -> (r: Vec<String>)
    ensures
        r@ == list@,
{
    let mut out: Vec<String> = Vec::new();
    let mut i: usize = 0;
    while i < list.len()
        invariant
            i <= list.len(),
            out@ == list@.take(i as int),
        decreases list.len() - i,
    {
        out.push(list[i].clone());
        assert(out@ =~= list@.take(i as int + 1));
        i = i + 1;
    }
    assert(list@.take(i as int) =~= list@);
    out
}

/// Puts one more name at the end of the children of a node, and of the
/// children that the node's object shows.
fn add_child(nodes: &mut NameMap<Node>, parent: &str, segment: &str)
    requires
        old(nodes).has(parent@),
        synced(*old(nodes)),
    ensures
        synced(*final(nodes)),
        extends(*old(nodes), *final(nodes)),
        forall|k: Seq<char>| final(nodes).has(k) <==> old(nodes).has(k),
        forall|k: Seq<char>| k != parent@ && old(nodes).has(k) ==> final(nodes).item(k) == old(nodes).item(k),
        final(nodes).item(parent@).children@.len() == old(nodes).item(parent@).children@.len() + 1,
        final(nodes).item(parent@).children@.drop_last() == old(nodes).item(parent@).children@,
        final(nodes).item(parent@).children@.last()@ == segment@,
        grows_all(*old(nodes), *final(nodes)),
        has_child(final(nodes).item(parent@), segment@),
{
    let ghost before = *nodes;
    let node = nodes.remove(parent).unwrap();
    let Node { object, is_manager, children } = node;
    let mut children = children;
    let name = segment.to_owned();
    let object = match object {
        Some(o) => {
            let Object { path, interfaces } = o;
            let Interfaces { map, children: shown } = interfaces;
            let mut shown = shown;
            shown.push(name.clone());
            Some(Object { path, interfaces: Interfaces { map, children: shown } })
        },
        None => None,
    };
    children.push(name);
    assert(children@.drop_last() =~= before.item(parent@).children@);
    let _ = nodes.insert(parent, Node { object, is_manager, children });
    assert(forall|k: Seq<char>| nodes.has(k) <==> before.has(k));
    proof {
        let last = nodes.item(parent@).children@.len() - 1;
        assert(nodes.item(parent@).children@[last]@ == segment@);
        assert forall|k: Seq<char>| #[trigger] before.has(k) implies nodes.has(k) && grown(
            before.item(k).children@,
            nodes.item(k).children@,
        ) by {
            if k == parent@ {
                let x = before.item(k).children@;
                let y = nodes.item(k).children@;
                assert(y.subrange(0, x.len() as int) =~= y.drop_last());
            } else {
                let x = before.item(k).children@;
                assert(x.subrange(0, x.len() as int) =~= x);
            }
        }
    }
}

/// Makes sure that a node exists at a path whose parent node exists. A node
/// that is new holds no object and is entered in the children of its parent.
fn ensure_node(nodes: &mut NameMap<Node>, key: &str, parent: &str, segment: &str)
    requires
        old(nodes).has(parent@),
        parent@ != key@,
        synced(*old(nodes)),
    ensures
        synced(*final(nodes)),
        extends(*old(nodes), *final(nodes)),
        final(nodes).has(key@),
        forall|k: Seq<char>| final(nodes).has(k) <==> (old(nodes).has(k) || k == key@),
        forall|k: Seq<char>| k != parent@ && old(nodes).has(k) ==> final(nodes).item(k) == old(nodes).item(k),
        !old(nodes).has(key@) ==> final(nodes).item(key@).children@.len() == 0,
        grows_all(*old(nodes), *final(nodes)),
        !old(nodes).has(key@) ==> has_child(final(nodes).item(parent@), segment@),
{
    if !nodes.contains(key) {
        let ghost before = *nodes;
        let _ = nodes.insert(key, Node { object: None, is_manager: false, children: Vec::new() });
        let ghost mid = *nodes;
        assert(extends(before, mid));
        assert(synced(mid));
        add_child(nodes, parent, segment);
        proof {
            lemma_extends_chain(before, mid, *nodes);
            assert(grows_all(before, mid)) by {
                assert forall|k: Seq<char>| #[trigger] before.has(k) implies mid.has(k) && grown(
                    before.item(k).children@,
                    mid.item(k).children@,
                ) by {
                    let x = before.item(k).children@;
                    assert(x.subrange(0, x.len() as int) =~= x);
                }
            }
            lemma_grows_chain(before, mid, *nodes);
        }
    } else {
        proof {
            let before = *nodes;
            assert forall|k: Seq<char>| #[trigger] before.has(k) implies grown(
                before.item(k).children@,
                before.item(k).children@,
            ) by {
                let x = before.item(k).children@;
                assert(x.subrange(0, x.len() as int) =~= x);
            }
        }
    }
}

/// What extends an extension extends the first.
pub proof fn lemma_extends_chain(a: NameMap<Node>, b: NameMap<Node>, c: NameMap<Node>)
    requires
        extends(a, b),
        extends(b, c),
    ensures
        extends(a, c),
{
    assert forall|k: Seq<char>| #[trigger] a.has(k) && a.item(k).object is Some implies kept(a, c, k) by {
        assert(b.has(k));
        assert(kept(a, b, k));
        assert(kept(b, c, k));
    }
    assert forall|k: Seq<char>| #[trigger] a.has(k) implies c.has(k) && (a.item(k).object is Some
        <==> c.item(k).object is Some) by {
        assert(b.has(k));
    }
    assert forall|k: Seq<char>| #[trigger] c.has(k) && !a.has(k) implies c.item(k).object is None by {
        if b.has(k) {
        }
    }
}

/// Why an insertion is refused.
pub enum Refusal {
    /// The path does not start with a slash.
    InvalidPath,
    /// An object is registered at the path.
    PathTaken,
    /// The interfaces have one of the standard interfaces, of this name,
    /// already.
    InterfaceTaken(Seq<char>),
}

/// Why an insertion is refused, if it is: for a path that does not start with
/// a slash, else for a path that has an object, else for the first standard
/// interface whose name the interfaces take.
pub open spec fn refusal(tree: ObjectTree, path: Seq<char>, ifaces: InterfacesBuilder, manager: bool) -> Option<Refusal> {
    if !has_prefix(path, seq!['/']) {
        Some(Refusal::InvalidPath)
    } else if tree.has_object(path) {
        Some(Refusal::PathTaken)
    } else {
        match crate::registry::first_taken(ifaces.map, manager) {
            Some(name) => Some(Refusal::InterfaceTaken(name)),
            None => None,
        }
    }
}

/// Whether a failure reports the refusal of an insertion at a path.
pub open spec fn reports(e: Error, why: Refusal, path: Seq<char>) -> bool {
    match why {
        Refusal::InvalidPath => e matches Error::InvalidPath(s) && s@ == path,
        Refusal::PathTaken => e matches Error::PathAlreadyRegistered(s) && s@ == path,
        Refusal::InterfaceTaken(name) => e matches Error::InterfaceAlreadyRegistered(s) && s@ == name,
    }
}

/// Whether `after` and `r` are what registering an object in `before` leads
/// to. A failed insertion leaves the tree as it was and reports why. A
/// successful one puts the object at its path, with the finalized interfaces,
/// and leaves the other objects as they were. The root and every part of the
/// path have a node afterwards. Every node keeps the children that it had, and
/// each node that is new is among the children of the node above it.
pub open spec fn inserted(
    before: ObjectTree,
    path: Seq<char>,
    ifaces: InterfacesBuilder,
    manager: bool,
    after: ObjectTree,
    r: Result<(), Error>,
) -> bool {
    match r {
        Err(e) => {
            &&& after.nodes() == before.nodes()
            &&& refusal(before, path, ifaces, manager) matches Some(why)
            &&& reports(e, why, path)
        },
        Ok(_) => {
            &&& refusal(before, path, ifaces, manager) is None
            &&& after.has_object(path)
            &&& after.object(path).path@ == path
            &&& after.nodes().item(path).is_manager == manager
            &&& exists|children: ChildrenList| #[trigger]
                finalized(ifaces, children, manager, Ok(after.object(path).interfaces))
            &&& after.keeps(before, path)
            &&& grows_all(before.nodes(), after.nodes())
            &&& after.nodes().has(seq!['/'])
            &&& forall|c: int| #[trigger] is_part(path, c) ==> after.nodes().has(path.subrange(0, c))
            &&& forall|c: int| #[trigger]
                is_part(path, c) && !before.nodes().has(path.subrange(0, c)) ==> linked(
                    after.nodes(),
                    path.subrange(0, c),
                )
        },
    }
}

/// Whether `after` and `r` are what taking the object at a path out of
/// `before` leads to. Where no object is at the path, the tree stays as it was.
/// Otherwise the object is gone and the other objects are as they were. The
/// node of the path stays, with its children, where it has any, and is gone
/// where it has none. No node is new. A node that stays has the children that
/// it had, but for the name of a node right below it that is gone.
pub open spec fn removed(before: ObjectTree, path: Seq<char>, after: ObjectTree, r: Result<(), Error>) -> bool {
    match r {
        Err(e) => after.nodes() == before.nodes() && !before.has_object(path) && (e matches Error::NoSuchPath(s)
            && s@ == path),
        Ok(_) => {
            &&& before.has_object(path)
            &&& !after.has_object(path)
            &&& after.keeps(before, path)
            &&& forall|k: Seq<char>| after.nodes().has(k) ==> before.nodes().has(k)
            &&& after.nodes().has(path) <==> before.nodes().item(path).children@.len() > 0
            &&& after.nodes().has(path) ==> after.nodes().item(path).children == before.nodes().item(path).children
            &&& forall|k: Seq<char>| #[trigger]
                after.nodes().has(k) ==> after.nodes().item(k).children@ == before.nodes().item(k).children@
                    || lost_child(before.nodes(), after.nodes(), k)
        },
    }
}

/// A path takes one object: once an object is registered at a path,
/// registering another there fails with `PathAlreadyRegistered` for that path.
pub proof fn lemma_insert_twice(
    t0: ObjectTree,
    path: Seq<char>,
    first: InterfacesBuilder,
    m1: bool,
    t1: ObjectTree,
    second: InterfacesBuilder,
    m2: bool,
    t2: ObjectTree,
    r: Result<(), Error>,
)
    requires
        inserted(t0, path, first, m1, t1, Ok(())),
        inserted(t1, path, second, m2, t2, r),
    ensures
        r matches Err(Error::PathAlreadyRegistered(p)) && p@ == path,
        t2.nodes() == t1.nodes(),
{
}

/// A path that does not start with a slash is refused as invalid, whatever
/// the tree holds.
pub proof fn lemma_insert_invalid(
    t0: ObjectTree,
    path: Seq<char>,
    ifaces: InterfacesBuilder,
    manager: bool,
    t1: ObjectTree,
    r: Result<(), Error>,
)
    requires
        !has_prefix(path, seq!['/']),
        inserted(t0, path, ifaces, manager, t1, r),
    ensures
        r matches Err(Error::InvalidPath(p)) && p@ == path,
        t1.nodes() == t0.nodes(),
{
}

impl ObjectTree {
    /// Registers an object at a path. The path has to start with a slash and
    /// to be free. The interfaces are finalized, with `ObjectManager` where
    /// `manager` is set. A node is made for every part of the path that has
    /// none, and each new node is entered in the children of the node above
    /// it. Where the insertion fails the tree stays as it was.
    pub fn insert(&mut self, path: &str, ifaces: InterfacesBuilder, manager: bool) -> (r: Result<(), Error>)
        ensures
            inserted(*old(self), path@, ifaces, manager, *final(self), r),
    {
        proof {
            use_type_invariant(&*self);
            reveal_strlit("/");
            assert("/"@ =~= seq!['/']);
        }
        if !crate::text::starts_with(path, "/") {
            return Err(Error::InvalidPath(path.to_owned()));
        }
        let list = match self.nodes.get(path) {
            Some(node) => {
                if node.object.is_some() {
                    return Err(Error::PathAlreadyRegistered(path.to_owned()));
                }
                copy_list(&node.children)
            },
            None => Vec::new(),
        };
        let ghost given = list;
        let interfaces = match ifaces.finalize_with(list, manager) {
            Ok(i) => i,
            Err(e) => {
                return Err(e);
            },
        };
        let ghost before = self.nodes;
        let mut nodes: NameMap<Node> = NameMap::new();
        assert(synced(nodes));
        std::mem::swap(&mut self.nodes, &mut nodes);
        let chars = chars_of(path);
        let n = chars.len();
        if !nodes.contains("/") {
            let _ = nodes.insert("/", Node { object: None, is_manager: false, children: Vec::new() });
        }
        assert(extends(before, nodes));
        let mut parent: String = "/".to_owned();
        assert(grows_all(before, nodes)) by {
            assert forall|k: Seq<char>| #[trigger] before.has(k) implies nodes.has(k) && grown(
                before.item(k).children@,
                nodes.item(k).children@,
            ) by {
                let x = before.item(k).children@;
                assert(x.subrange(0, x.len() as int) =~= x);
            }
        }
        let mut cut: usize = 0;
        let mut i: usize = 1;
        proof {
            assert(path@.subrange(0, 1) =~= seq!['/']);
            assert(path@.subrange(0, 1)[0] == path@[0]);
            reveal_with_fuel(last_slash, 2);
        }
        while i < n
            invariant
                1 <= i <= n,
                cut < i,
                n == path@.len(),
                chars@ == path@,
                path@[0] == '/',
                cut == last_slash(path@.subrange(0, i as int)),
                synced(nodes),
                extends(before, nodes),
                grows_all(before, nodes),
                nodes.has(seq!['/']),
                forall|k: Seq<char>| #[trigger] nodes.has(k) && !before.has(k) ==> k.len() <= i,
                forall|c: int| #[trigger] is_part(path@, c) && c <= i ==> nodes.has(path@.subrange(0, c)),
                forall|c: int| #[trigger]
                    is_part(path@, c) && c <= i && !before.has(path@.subrange(0, c)) ==> linked(
                        nodes,
                        path@.subrange(0, c),
                    ),
                nodes.has(path@) ==> nodes.item(path@).children@ == given@,
                !before.has(path@) ==> given@.len() == 0,
            decreases n - i,
        {
            proof {
                lemma_last_slash_step(path@, i as int);
            }
            if chars[i] == '/' {
                cut = i;
            }
            let c = i + 1;
            if c == n || chars[c] == '/' {
                let key = path.substring_char(0, c);
                let segment = path.substring_char(cut + 1, c);
                let parent: String = if cut <= 1 {
                    "/".to_owned()
                } else {
                    path.substring_char(0, cut).to_owned()
                };
                let ghost mid = nodes;
                proof {
                    reveal_strlit("/");
                    assert("/"@ =~= seq!['/']);
                    assert(key@.len() == c);
                    assert(last_slash(key@) == cut);
                    assert(key@.subrange(0, cut as int) =~= path@.subrange(0, cut as int));
                    assert(key@.subrange(cut as int + 1, c as int) =~= path@.subrange(cut as int + 1, c as int));
                    if cut == 1 {
                        assert(key@.subrange(0, 1) =~= seq!['/']);
                    }
                    assert(parent@ == above(key@));
                    assert(segment@ == leaf(key@));
                    if cut >= 2 {
                        lemma_last_slash_bound(path@.subrange(0, i as int + 1));
                        assert(path@[cut as int] == '/');
                        assert(is_part(path@, cut as int));
                    }
                    assert(mid.has(parent@));
                }
                ensure_node(&mut nodes, key, parent.as_str(), segment);
                proof {
                    lemma_extends_chain(before, mid, nodes);
                    lemma_grows_chain(before, mid, nodes);
                    if !mid.has(path@) && nodes.has(path@) {
                        assert(key@ == path@);
                        assert(!before.has(path@));
                        assert(nodes.item(path@).children@ =~= given@);
                    }
                    if c == n {
                        assert(path@.subrange(0, n as int) =~= path@);
                    }
                    assert forall|d: int| #[trigger]
                        is_part(path@, d) && d <= i + 1 && !before.has(path@.subrange(0, d)) implies linked(
                        nodes,
                        path@.subrange(0, d),
                    ) by {
                        let part = path@.subrange(0, d);
                        if d <= i {
                            assert(linked(mid, part));
                            lemma_child_stays(mid.item(above(part)), nodes.item(above(part)), leaf(part));
                        } else {
                            assert(part == key@);
                            assert(!mid.has(key@)) by {
                                if mid.has(key@) {
                                    assert(key@.len() <= i);
                                }
                            }
                        }
                    }
                }
            }
            i = i + 1;
        }
        proof {
            if n == 1 {
                assert(path@ =~= seq!['/']);
            } else {
                assert(is_part(path@, n as int));
                assert(path@.subrange(0, n as int) =~= path@);
            }
            assert(nodes.has(path@));
        }
        let ghost grown_nodes = nodes;
        let node = nodes.remove(path).unwrap();
        let Node { object: _, is_manager: _, children } = node;
        let object = Object { path: path.to_owned(), interfaces };
        assert(grown_nodes.item(path@).object is None) by {
            if before.has(path@) {
            }
        }
        let _ = nodes.insert(path, Node { object: Some(object), is_manager: manager, children });
        assert(synced(nodes)) by {
            assert forall|k: Seq<char>| #[trigger]
                nodes.has(k) && nodes.item(k).object is Some implies nodes.item(k).object->0.interfaces.children@
                == nodes.item(k).children@ by {
                if k != path@ {
                    assert(grown_nodes.has(k));
                }
            }
        }
        proof {
            assert(forall|k: Seq<char>| nodes.has(k) <==> grown_nodes.has(k));
            assert forall|k: Seq<char>| #[trigger] before.has(k) implies nodes.has(k) && grown(
                before.item(k).children@,
                nodes.item(k).children@,
            ) by {
                assert(grown_nodes.has(k));
            }
            assert forall|c: int| #[trigger] is_part(path@, c) && !before.has(path@.subrange(0, c)) implies linked(
                nodes,
                path@.subrange(0, c),
            ) by {
                let part = path@.subrange(0, c);
                assert(linked(grown_nodes, part));
                lemma_last_slash_bound(part);
                assert(above(part).len() < n);
            }
        }
        std::mem::swap(&mut self.nodes, &mut nodes);
        proof {
            assert(finalized(ifaces, given, manager, Ok(self.object(path@).interfaces)));
            assert forall|k: Seq<char>| k != path@ implies ((#[trigger] old(self).has_object(k)
                <==> self.has_object(k)) && (old(self).has_object(k) ==> kept(
                old(self).nodes(),
                self.nodes(),
                k,
            ))) by {
                if old(self).has_object(k) {
                    assert(before.has(k));
                    assert(kept(before, grown_nodes, k));
                }
                if self.has_object(k) {
                    assert(grown_nodes.has(k));
                    if !before.has(k) {
                    }
                }
            }
        }
        Ok(())
    }
}

/// Where a name first stands among children, or their number where it does
/// not occur.
pub open spec fn first_index(list: Seq<String>, name: Seq<char>) -> int
    decreases list.len(),
{
    if list.len() == 0 {
        0
    } else if list[0]@ == name {
        0
    } else {
        1 + first_index(list.drop_first(), name)
    }
}

/// The children without the first that has the name.
pub open spec fn dropped(list: Seq<String>, name: Seq<char>) -> Seq<String> {
    if first_index(list, name) < list.len() {
        list.remove(first_index(list, name))
    } else {
        list
    }
}

/// The first place of a name is the place before which it does not occur and
/// at which it stands.
pub proof fn lemma_first_index(list: Seq<String>, name: Seq<char>, at: int)
    requires
        0 <= at <= list.len(),
        forall|j: int| 0 <= j < at ==> (#[trigger] list[j])@ != name,
        at < list.len() ==> list[at]@ == name,
    ensures
        first_index(list, name) == at,
    decreases list.len(),
{
    if list.len() > 0 && at > 0 {
        let rest = list.drop_first();
        assert forall|j: int| 0 <= j < at - 1 implies (#[trigger] rest[j])@ != name by {
            assert(rest[j] == list[j + 1]);
        }
        lemma_first_index(rest, name, at - 1);
    }
}

/// Whether a node lost the name of a node right below it that is gone, and
/// nothing else.
pub open spec fn lost_child(before: NameMap<Node>, after: NameMap<Node>, k: Seq<char>) -> bool {
    exists|gone: Seq<char>| #[trigger]
        before.has(gone) && !after.has(gone) && above(gone) == k && after.item(k).children@ == dropped(
            before.item(k).children@,
            leaf(gone),
        )
}

/// Whether the second set of nodes holds the objects of the first but the one
/// at `path`, each as it was, and no other object but at `path`.
pub open spec fn keeps_nodes(a: NameMap<Node>, b: NameMap<Node>, path: Seq<char>) -> bool {
    forall|k: Seq<char>|
        k != path ==> (((#[trigger] a.has(k) && a.item(k).object is Some) <==> (b.has(k) && b.item(k).object
            is Some)) && (a.has(k) && a.item(k).object is Some ==> kept(a, b, k)))
}

/// Taking out a node that holds no object keeps the objects.
proof fn lemma_pruned(a: NameMap<Node>, b: NameMap<Node>, c: NameMap<Node>, path: Seq<char>, gone: Seq<char>)
    requires
        keeps_nodes(a, b, path),
        b.has(gone),
        b.item(gone).object is None,
        !c.has(gone),
        forall|k: Seq<char>| k != gone ==> (c.has(k) <==> b.has(k)),
        forall|k: Seq<char>| k != gone && b.has(k) ==> c.item(k) == b.item(k),
    ensures
        keeps_nodes(a, c, path),
{
    assert forall|k: Seq<char>| k != path implies (((#[trigger] a.has(k) && a.item(k).object is Some) <==> (
    c.has(k) && c.item(k).object is Some)) && (a.has(k) && a.item(k).object is Some ==> kept(a, c, k))) by {
        if k != gone {
            if a.has(k) && a.item(k).object is Some {
                assert(kept(a, b, k));
            }
        }
    }
}

/// Takes a name out of the children of a node, and out of the children that
/// the node's object shows.
fn remove_child(nodes: &mut NameMap<Node>, parent: &str, segment: &str)
    requires
        synced(*old(nodes)),
    ensures
        synced(*final(nodes)),
        extends(*old(nodes), *final(nodes)),
        forall|k: Seq<char>| final(nodes).has(k) <==> old(nodes).has(k),
        forall|k: Seq<char>| k != parent@ && old(nodes).has(k) ==> final(nodes).item(k) == old(nodes).item(k),
        old(nodes).has(parent@) ==> final(nodes).item(parent@).children@ == dropped(
            old(nodes).item(parent@).children@,
            segment@,
        ),
{
    if !nodes.contains(parent) {
        return ;
    }
    let ghost before = *nodes;
    let node = nodes.remove(parent).unwrap();
    let Node { object, is_manager, children } = node;
    let mut children = children;
    let wanted = segment.to_owned();
    let mut at: usize = 0;
    while at < children.len() && children[at] != wanted
        invariant
            at <= children.len(),
            wanted@ == segment@,
            forall|j: int| 0 <= j < at ==> (#[trigger] children@[j])@ != segment@,
        decreases children.len() - at,
    {
        at = at + 1;
    }
    proof {
        lemma_first_index(children@, segment@, at as int);
    }
    let object = if at < children.len() {
        let _ = children.remove(at);
        match object {
            Some(o) => {
                let Object { path, interfaces } = o;
                let Interfaces { map, children: shown } = interfaces;
                let mut shown = shown;
                let _ = shown.remove(at);
                Some(Object { path, interfaces: Interfaces { map, children: shown } })
            },
            None => None,
        }
    } else {
        object
    };
    let _ = nodes.insert(parent, Node { object, is_manager, children });
    assert(forall|k: Seq<char>| nodes.has(k) <==> before.has(k));
}

/// A path parted at its last slash.
pub struct Parted {
    /// The path of the node above.
    pub above: String,
    /// The node's own name.
    pub name: String,
    /// The position of the last slash.
    pub slash: usize,
}

/// The position of the last slash among characters.
fn find_last_slash(chars: &Vec<char>) -> (r: Option<usize>)
    ensures
        match r {
            Some(j) => j == last_slash(chars@),
            None => last_slash(chars@) == -1,
        },
{
    let mut j: usize = chars.len();
    assert(chars@.subrange(0, j as int) =~= chars@);
    while j > 0
        invariant
            j <= chars@.len(),
            last_slash(chars@) == last_slash(chars@.subrange(0, j as int)),
        decreases j,
    {
        j = j - 1;
        proof {
            lemma_last_slash_step(chars@, j as int);
        }
        if chars[j] == '/' {
            return Some(j);
        }
    }
    None
}

/// The path of the node above a node and the node's own name: what stands
/// before and after the last slash of its path. The node above a node right
/// below the root is the root. A path without a slash, and a path of one
/// character, have no node above.
pub fn split_last(key: &str) -> (r: Option<Parted>)
    ensures
        match r {
            Some(p) => key@.len() > 1 && p.slash == last_slash(key@) && p.above@ == above(key@) && p.name@
                == leaf(key@),
            None => key@.len() <= 1 || last_slash(key@) == -1,
        },
{
    let chars = chars_of(key);
    let n = chars.len();
    if n <= 1 {
        return None;
    }
    match find_last_slash(&chars) {
        None => None,
        Some(j) => {
            proof {
                lemma_last_slash_bound(key@);
            }
            let name = key.substring_char(j + 1, n).to_owned();
            let parent = if j == 0 {
                proof {
                    reveal_strlit("/");
                    assert("/"@ =~= seq!['/']);
                }
                "/".to_owned()
            } else {
                key.substring_char(0, j).to_owned()
            };
            Some(Parted { above: parent, name, slash: j })
        },
    }
}

/// The last slash of a path stands inside the path.
pub proof fn lemma_last_slash_bound(path: Seq<char>)
    ensures
        -1 <= last_slash(path) < path.len(),
        last_slash(path) >= 0 ==> path[last_slash(path)] == '/',
    decreases path.len(),
{
    if path.len() > 0 && path.last() != '/' {
        lemma_last_slash_bound(path.drop_last());
    }
}

impl ObjectTree {
    /// Takes the object at a path out of the tree. Its node stays while nodes
    /// are below it. A node that holds neither an object nor children is taken
    /// out too, and so are the nodes above it that are left in that state.
    pub fn remove(&mut self, path: &str) -> (r: Result<(), Error>)
        ensures
            removed(*old(self), path@, *final(self), r),
    {
        proof {
            use_type_invariant(&*self);
        }
        if !self.resolves(path) {
            return Err(Error::NoSuchPath(path.to_owned()));
        }
        let ghost before = self.nodes;
        let mut nodes: NameMap<Node> = NameMap::new();
        assert(synced(nodes));
        std::mem::swap(&mut self.nodes, &mut nodes);
        let node = nodes.remove(path).unwrap();
        let Node { object: _, is_manager: _, children } = node;
        if children.len() > 0 {
            let _ = nodes.insert(path, Node { object: None, is_manager: false, children });
            assert(keeps_nodes(before, nodes, path@));
        } else {
            assert(keeps_nodes(before, nodes, path@));
            assert(!nodes.has(path@));
            let mut key: String = path.to_owned();
            let mut steps: usize = key.as_str().unicode_len();
            while steps > 0
                invariant_except_break
                    before.has(key@),
                    !nodes.has(key@),
                    forall|k: Seq<char>| #[trigger]
                        nodes.has(k) ==> nodes.item(k).children@ == before.item(k).children@,
                invariant
                    synced(nodes),
                    keeps_nodes(before, nodes, path@),
                    !nodes.has(path@),
                    forall|k: Seq<char>| nodes.has(k) ==> before.has(k),
                ensures
                    forall|k: Seq<char>| #[trigger]
                        nodes.has(k) ==> nodes.item(k).children@ == before.item(k).children@ || lost_child(
                            before,
                            nodes,
                            k,
                        ),
                decreases steps,
            {
                steps = steps - 1;
                let (parent, name) = match split_last(key.as_str()) {
                    Some(p) => (p.above, p.name),
                    None => {
                        break ;
                    },
                };
                let ghost mid = nodes;
                remove_child(&mut nodes, parent.as_str(), name.as_str());
                proof {
                    assert forall|k: Seq<char>| #[trigger] nodes.has(k) implies nodes.item(k).children@
                        == before.item(k).children@ || lost_child(before, nodes, k) by {
                        if k == parent@ {
                            assert(before.has(key@) && !nodes.has(key@) && above(key@) == k);
                        }
                    }
                    assert forall|k: Seq<char>| k != path@ implies (((#[trigger] before.has(k) && before.item(
                        k,
                    ).object is Some) <==> (nodes.has(k) && nodes.item(k).object is Some)) && (before.has(k)
                        && before.item(k).object is Some ==> kept(before, nodes, k))) by {
                        if mid.has(k) {
                            if mid.item(k).object is Some {
                                assert(kept(mid, nodes, k));
                            }
                        }
                        if before.has(k) && before.item(k).object is Some {
                            assert(kept(before, mid, k));
                        }
                    }
                }
                let empty = match nodes.get(parent.as_str()) {
                    Some(above) => above.object.is_none() && above.children.len() == 0,
                    None => false,
                };
                if !empty {
                    break ;
                }
                let ghost pruned = nodes;
                assert(pruned.has(parent@) && pruned.item(parent@).object is None);
                assert(keeps_nodes(before, pruned, path@));
                let _ = nodes.remove(parent.as_str());
                proof {
                    lemma_pruned(before, pruned, nodes, path@, parent@);
                }
                key = parent;
            }
        }
        std::mem::swap(&mut self.nodes, &mut nodes);
        Ok(())
    }
}

/// Whether a path lies below another: right below the root every other path
/// that starts with a slash, and below any other path those that continue it
/// after a slash.
pub open spec fn beneath(root: Seq<char>, key: Seq<char>) -> bool {
    if root == seq!['/'] {
        key.len() > 1 && key[0] == '/'
    } else {
        has_prefix(key, root + seq!['/'])
    }
}

/// Whether a path lies below another.
pub fn is_beneath(root: &str, key: &str) -> (r: bool)
    ensures
        r == beneath(root@, key@),
{
    proof {
        reveal_strlit("/");
        assert("/"@ =~= seq!['/']);
    }
    let slash = "/".to_owned();
    let top = root.to_owned();
    if top == slash {
        let chars = chars_of(key);
        chars.len() > 1 && chars[0] == '/'
    } else {
        let prefix = join(root, "/");
        starts_with(key, prefix.as_str())
    }
}

/// The path that a dictionary entry is filed under, where its key is an
/// object path.
pub open spec fn entry_path(entry: (BasicValue, Value)) -> Option<Seq<char>> {
    match entry.0 {
        BasicValue::ObjectPath(p) => Some(p.0@),
        _ => None,
    }
}

/// Whether an outcome is the error reply for a path at which no object is
/// registered.
pub open spec fn unknown_object(r: Option<Outcome>, serial: u32, path: Seq<char>) -> bool {
    r matches Some(Outcome::Reply(m)) && is_error_reply(m@, serial, UNKNOWN_OBJECT@, "unknown object: "@ + path)
}

/// Whether one of the entries is filed under the path.
pub open spec fn files_path(entries: Seq<(BasicValue, Value)>, path: Seq<char>) -> bool {
    exists|i: int| 0 <= i < entries.len() && entry_path(#[trigger] entries[i]) == Some(path)
}

impl ObjectTree {
    /// Whether a message asks the object at a path for the objects that it
    /// manages.
    pub open spec fn manages(self, path: Seq<char>, msg: Message) -> bool {
        &&& self.nodes().item(path).is_manager
        &&& msg@.interface == Some(OBJECT_MANAGER@)
        &&& msg@.member == Some("GetManagedObjects"@)
    }

    /// Whether a dictionary entry holds an object below `root` under its path,
    /// with a dictionary of its interfaces.
    pub open spec fn enters(self, root: Seq<char>, entry: (BasicValue, Value)) -> bool {
        &&& entry_path(entry) matches Some(p)
        &&& self.has_object(p)
        &&& beneath(root, p)
        &&& entry.1 matches Value::Dictionary(d)
        &&& d.signature.0@ == "a{sa{sv}}"@
    }

    /// Whether a value is the dictionary of the objects below `root`: each
    /// entry holds one of them, and each of them has an entry.
    pub open spec fn surveys(self, root: Seq<char>, r: Value) -> bool {
        match r {
            Value::Dictionary(d) => {
                &&& d.signature.0@ == "a{oa{sa{sv}}}"@
                &&& forall|i: int| 0 <= i < d.entries@.len() ==> self.enters(root, #[trigger] d.entries@[i])
                &&& forall|k: Seq<char>|
                    self.has_object(k) && beneath(root, k) ==> #[trigger] files_path(d.entries@, k)
            },
            _ => false,
        }
    }

    /// The objects below a path: a dictionary from their paths, in order, to
    /// the readable properties of their interfaces.
    pub fn managed_objects(&self, root: &str) -> (r: Value)
        ensures
            self.surveys(root@, r),
    {
        let mut entries: Vec<(BasicValue, Value)> = Vec::new();
        let n = self.nodes.len();
        let mut i: usize = 0;
        while i < n
            invariant
                i <= n,
                n == self.nodes.count(),
                self.nodes.items().len() == n,
                crate::names::ascending(self.nodes.names()),
                forall|j: int| 0 <= j < entries@.len() ==> self.enters(root@, #[trigger] entries@[j]),
                forall|k: int|
                    0 <= k < i && self.nodes.items()[k].object is Some && beneath(
                        root@,
                        #[trigger] self.nodes.names()[k],
                    ) ==> exists|j: int|
                        0 <= j < entries@.len() && entry_path(#[trigger] entries@[j]) == Some(
                            self.nodes.names()[k],
                        ),
            decreases n - i,
        {
            let key = self.nodes.name_at(i);
            let node = self.nodes.item_at(i);
            let ghost before = entries@;
            proof {
                NameMap::<Node>::lemma_place(self.nodes.names(), i as int);
            }
            match &node.object {
                Some(o) => {
                    if is_beneath(root, key.as_str()) {
                        let props = o.interfaces.get_interfaces_and_properties();
                        entries.push((BasicValue::ObjectPath(Path(key.clone())), Value::Dictionary(props)));
                        proof {
                            let at = before.len() as int;
                            assert(entry_path(entries@[at]) == Some(self.nodes.names()[i as int]));
                            assert forall|k: int|
                                0 <= k < i + 1 && self.nodes.items()[k].object is Some && beneath(
                                    root@,
                                    #[trigger] self.nodes.names()[k],
                                ) implies exists|j: int|
                                0 <= j < entries@.len() && entry_path(#[trigger] entries@[j]) == Some(
                                    self.nodes.names()[k],
                                ) by {
                                if k < i {
                                    let j = choose|j: int|
                                        0 <= j < before.len() && entry_path(#[trigger] before[j]) == Some(
                                            self.nodes.names()[k],
                                        );
                                    assert(entries@[j] == before[j]);
                                } else {
                                    assert(entry_path(entries@[at]) == Some(self.nodes.names()[k]));
                                }
                            }
                            assert forall|j: int| 0 <= j < entries@.len() implies self.enters(
                                root@,
                                #[trigger] entries@[j],
                            ) by {
                                if j < before.len() {
                                    assert(entries@[j] == before[j]);
                                }
                            }
                        }
                    }
                },
                None => {},
            }
            i = i + 1;
        }
        proof {
            assert forall|k: Seq<char>| self.has_object(k) && beneath(root@, k) implies #[trigger] files_path(
                entries@,
                k,
            ) by {
                let at = self.nodes.names().index_of(k);
                NameMap::<Node>::lemma_place(self.nodes.names(), at);
                assert(self.nodes.names()[at] == k);
                assert(self.nodes.items()[at].object is Some);
            }
        }
        Value::Dictionary(Dictionary { entries, signature: Signature("a{oa{sa{sv}}}".to_owned()) })
    }

    /// Whether `r` is what the object at a path makes of a call, given the
    /// objects below it where the call asks an object manager for them, and
    /// nothing where it does not.
    pub open spec fn delivered(self, path: Seq<char>, msg: Message, managed: Option<Value>, r: Option<Outcome>) -> bool {
        &&& managed is Some <==> self.manages(path, msg)
        &&& managed is Some ==> self.surveys(path, managed->0)
        &&& self.object(path).interfaces.handled(msg, managed, r)
    }

    /// Whether `r` is what a call leads to. A call for a path at which no
    /// object is registered gets the error reply `UnknownObject`. Any other
    /// call is given to the object at its path, together with the objects that
    /// it manages where the call asks an object manager for them.
    pub open spec fn routed(self, msg: Message, r: Option<Outcome>) -> bool {
        match msg@.path {
            None => unknown_object(r, msg.serial, Seq::empty()),
            Some(path) => if !self.has_object(path) {
                unknown_object(r, msg.serial, path)
            } else {
                exists|managed: Option<Value>| #[trigger] self.delivered(path, msg, managed, r)
            },
        }
    }

    /// Routes a call to the object at its path.
    pub fn dispatch(&self, msg: &Message) -> (r: Option<Outcome>)
        ensures
            self.routed(*msg, r),
    {
        let path = match msg.path() {
            Some(p) => p,
            None => String::new(),
        };
        let found = if msg.path.is_some() {
            self.nodes.get(path.as_str())
        } else {
            None
        };
        let node = match found {
            Some(node) => node,
            None => {
                let text = join("unknown object: ", path.as_str());
                let e = ErrorMessage::new(UNKNOWN_OBJECT, text.as_str());
                return Some(Outcome::Reply(e.into_message(msg)));
            },
        };
        let object = match &node.object {
            Some(o) => o,
            None => {
                let text = join("unknown object: ", path.as_str());
                let e = ErrorMessage::new(UNKNOWN_OBJECT, text.as_str());
                return Some(Outcome::Reply(e.into_message(msg)));
            },
        };
        let asks = node.is_manager && match (&msg.interface, &msg.member) {
            (Some(i), Some(m)) => {
                let wanted = OBJECT_MANAGER.to_owned();
                let method = "GetManagedObjects".to_owned();
                *i == wanted && *m == method
            },
            _ => false,
        };
        let managed = if asks {
            Some(self.managed_objects(path.as_str()))
        } else {
            None
        };
        assert(msg@.path == Some(path@));
        assert(self.has_object(path@));
        assert(managed is Some <==> self.manages(path@, *msg));
        let r = object.handle_managed(msg, managed);
        assert(self.delivered(msg@.path->0, *msg, managed, r));
        r
    }
}

} // verus!
