//! The index of the nodes of a file that items and scopes are anchored to:
//! each such node gets an id, in the order of a walk that visits all the
//! children of a node before it descends into them.
use vstd::prelude::*;
use crate::base_db::FileId;
use crate::lower::ptr_of;
use crate::syntax::{NodeKind, NodePtr, SyntaxNode};
use std::sync::Arc;

verus! {

/// Whether the walk descends into a node of kind `k`: the declarations and
/// statements that hold items or scopes.
pub open spec fn descends(k: NodeKind) -> bool {
    k == NodeKind::FunctionDefinition || k == NodeKind::Methodmap || k == NodeKind::MethodmapProperty || k
        == NodeKind::MethodmapPropertyAlias || k == NodeKind::MethodmapPropertyNative || k == NodeKind::MethodmapPropertyMethod
        || k == NodeKind::MethodmapPropertyGetter || k == NodeKind::MethodmapPropertySetter || k == NodeKind::MethodmapNative || k
        == NodeKind::MethodmapNativeConstructor || k == NodeKind::MethodmapNativeDestructor || k == NodeKind::MethodmapMethod
        || k == NodeKind::MethodmapMethodConstructor || k == NodeKind::MethodmapMethodDestructor || k
        == NodeKind::FunctionDeclaration || k == NodeKind::Enum || k == NodeKind::EnumEntries || k
        == NodeKind::ParameterDeclarations || k == NodeKind::Block || k == NodeKind::ForStatement || k
        == NodeKind::ConditionStatement || k == NodeKind::DoWhileStatement || k == NodeKind::SwitchStatement || k
        == NodeKind::SwitchCase || k == NodeKind::WhileStatement || k == NodeKind::EnumStruct || k == NodeKind::EnumStructMethod
        || k == NodeKind::Typedef || k == NodeKind::TypedefExpression || k == NodeKind::Typeset || k == NodeKind::Functag || k
        == NodeKind::Funcenum || k == NodeKind::FuncenumMember
}

fn exec_descends(k: NodeKind) -> (res: bool)
    ensures
        res == descends(k),
{
    match k {
        NodeKind::FunctionDefinition | NodeKind::Methodmap | NodeKind::MethodmapProperty | NodeKind::MethodmapPropertyAlias
        | NodeKind::MethodmapPropertyNative | NodeKind::MethodmapPropertyMethod | NodeKind::MethodmapPropertyGetter
        | NodeKind::MethodmapPropertySetter | NodeKind::MethodmapNative | NodeKind::MethodmapNativeConstructor
        | NodeKind::MethodmapNativeDestructor | NodeKind::MethodmapMethod | NodeKind::MethodmapMethodConstructor
        | NodeKind::MethodmapMethodDestructor | NodeKind::FunctionDeclaration | NodeKind::Enum | NodeKind::EnumEntries
        | NodeKind::ParameterDeclarations | NodeKind::Block | NodeKind::ForStatement | NodeKind::ConditionStatement
        | NodeKind::DoWhileStatement | NodeKind::SwitchStatement | NodeKind::SwitchCase | NodeKind::WhileStatement
        | NodeKind::EnumStruct | NodeKind::EnumStructMethod | NodeKind::Typedef | NodeKind::TypedefExpression | NodeKind::Typeset
        | NodeKind::Functag | NodeKind::Funcenum | NodeKind::FuncenumMember => true,
        _ => false,
    }
}

/// The pointers to the variable declarations among the first `n` children of `node`.
pub open spec fn declaration_ptrs(node: SyntaxNode, n: nat) -> Seq<NodePtr>
    decreases n,
{
    if n == 0 || n > node.children.len() {
        seq![]
    } else {
        declaration_ptrs(node, (n - 1) as nat) + if node.children@[n - 1].1.kind == NodeKind::VariableDeclaration {
            seq![ptr_of(node.children@[n - 1].1)]
        } else {
            seq![]
        }
    }
}

/// The pointers that visiting `node` allocates: none for the file, those of
/// its variable declarations for a declaration of variables, its own otherwise.
pub open spec fn visit(node: SyntaxNode) -> Seq<NodePtr> {
    if node.kind == NodeKind::SourceFile {
        seq![]
    } else if node.kind == NodeKind::GlobalVariableDeclaration || node.kind == NodeKind::VariableDeclarationStatement {
        declaration_ptrs(node, node.children.len() as nat)
    } else {
        seq![ptr_of(node)]
    }
}

/// What visiting the first `n` children of `node` allocates.
pub open spec fn level(node: SyntaxNode, n: nat) -> Seq<NodePtr>
    decreases n,
{
    if n == 0 || n > node.children.len() {
        seq![]
    } else {
        level(node, (n - 1) as nat) + visit(node.children@[n - 1].1)
    }
}

/// The pointers that the walk below `node` allocates: the visits of its
/// children, then the walks below those it descends into.
pub open spec fn walk(node: SyntaxNode) -> Seq<NodePtr>
    decreases node, 1nat, 0nat,
{
    level(node, node.children.len() as nat) + deeper(node, node.children.len() as nat)
}

/// The walks below the first `n` children of `node` that the walk descends into.
pub open spec fn deeper(node: SyntaxNode, n: nat) -> Seq<NodePtr>
    decreases node, 0nat, n,
{
    if n == 0 || n > node.children.len() {
        seq![]
    } else {
        deeper(node, (n - 1) as nat) + if descends(node.children@[n - 1].1.kind) {
            walk(node.children@[n - 1].1)
        } else {
            seq![]
        }
    }
}

/// The id of `ptr`: the last index at which the arena holds it.
pub open spec fn last_index(arena: Seq<NodePtr>, ptr: NodePtr) -> Option<int>
    decreases arena.len(),
{
    if arena.len() == 0 {
        None
    } else if arena.last() == ptr {
        Some(arena.len() - 1)
    } else {
        last_index(arena.drop_last(), ptr)
    }
}

/// The nodes of a file that have an id, by id.
#[derive(Debug)]
pub struct AstIdMap {
    pub arena: Vec<NodePtr>,
}

impl AstIdMap {
    /// The ids of the nodes under `root`, in the order of the walk.
    pub fn from_source(root: &SyntaxNode) -> (res: AstIdMap)
        ensures
            res.arena@ == walk(*root),
    {
        let mut arena: Vec<NodePtr> = Vec::new();
        walk_into(root, &mut arena);
        AstIdMap { arena }
    }

    /// The id of the node `ptr`.
    pub fn ast_id_of(&self, ptr: NodePtr) -> (res: u32)
        requires
            last_index(self.arena@, ptr) is Some,
            self.arena.len() <= u32::MAX + 1,
        ensures
            last_index(self.arena@, ptr) == Some(res as int),
    {
        let mut i: usize = self.arena.len();
        assert(self.arena@.take(i as int) =~= self.arena@);
        while i > 0
            invariant
                0 <= i <= self.arena.len(),
                self.arena.len() <= u32::MAX + 1,
                last_index(self.arena@, ptr) == last_index(self.arena@.take(i as int), ptr),
                last_index(self.arena@, ptr) is Some,
            decreases i,
        {
            let ghost t = self.arena@.take(i as int);
            assert(t.last() == self.arena@[i - 1]);
            if self.arena[i - 1] == ptr {
                return (i - 1) as u32;
            }
            assert(t.drop_last() =~= self.arena@.take(i - 1));
            i = i - 1;
        }
        assert(self.arena@.take(0) =~= Seq::<NodePtr>::empty());
        0
    }

    /// The node of the id `id`.
    pub fn get_raw(&self, id: u32) -> (res: NodePtr)
        requires
            id < self.arena.len(),
        ensures
            res == self.arena@[id as int],
    {
        self.arena[id as usize]
    }
}

/// Appends to `arena` what the walk below `node` allocates.
fn walk_into(node: &SyntaxNode, arena: &mut Vec<NodePtr>)
    ensures
        final(arena)@ == old(arena)@ + walk(*node),
    decreases node,
{
    let ghost a0 = arena@;
    let mut i: usize = 0;
    while i < node.children.len()
        invariant
            0 <= i <= node.children.len(),
            arena@ == a0 + level(*node, i as nat),
        decreases node.children.len() - i,
    {
        let child = &node.children[i].1;
        let ghost before = arena@;
        if child.kind == NodeKind::SourceFile {
        } else if child.kind == NodeKind::GlobalVariableDeclaration || child.kind == NodeKind::VariableDeclarationStatement {
            let mut j: usize = 0;
            while j < child.children.len()
                invariant
                    0 <= j <= child.children.len(),
                    arena@ == before + declaration_ptrs(*child, j as nat),
                decreases child.children.len() - j,
            {
                if child.children[j].1.kind == NodeKind::VariableDeclaration {
                    arena.push(NodePtr::from_node(&child.children[j].1));
                }
                assert(arena@ =~= before + declaration_ptrs(*child, (j + 1) as nat));
                j = j + 1;
            }
        } else {
            arena.push(NodePtr::from_node(child));
        }
        assert(arena@ =~= a0 + level(*node, (i + 1) as nat));
        i = i + 1;
    }
    let ghost a1 = arena@;
    let mut k: usize = 0;
    while k < node.children.len()
        invariant
            0 <= k <= node.children.len(),
            arena@ == a1 + deeper(*node, k as nat),
        decreases node.children.len() - k,
    {
        let child = &node.children[k].1;
        if exec_descends(child.kind) {
            walk_into(child, arena);
        }
        assert(arena@ =~= a1 + deeper(*node, (k + 1) as nat));
        k = k + 1;
    }
    assert(arena@ =~= a0 + walk(*node));
}

/// The node of `tree` that `ptr` points to: from the root, the node itself
/// when it matches, else the search goes on in its first child that covers
/// the range of `ptr`; none when no child covers it.
pub open spec fn find_node(node: SyntaxNode, ptr: NodePtr) -> Option<SyntaxNode>
    decreases node,
{
    if node.start_byte == ptr.start_byte && node.end_byte == ptr.end_byte && node.kind == ptr.kind {
        Some(node)
    } else {
        match covering_child(node.children@, ptr, 0) {
            Some(i) => if 0 <= i < node.children.len() {
                find_node(node.children@[i].1, ptr)
            } else {
                None
            },
            None => None,
        }
    }
}

/// The index of the first child, from `i` on, whose range covers that of `ptr`.
pub open spec fn covering_child(children: Seq<(Option<crate::syntax::FieldName>, SyntaxNode)>, ptr: NodePtr, i: int) -> Option<int>
    decreases children.len() - i,
{
    if i < 0 || i >= children.len() {
        None
    } else if children[i].1.start_byte <= ptr.start_byte && children[i].1.end_byte >= ptr.end_byte {
        Some(i)
    } else {
        covering_child(children, ptr, i + 1)
    }
}

pub open spec fn opt_node_ref(n: Option<&SyntaxNode>) -> Option<SyntaxNode> {
    match n {
        Some(x) => Some(*x),
        None => None,
    }
}

impl NodePtr {
    /// The node of the tree rooted at `root` that the pointer points to.
    pub fn to_node<'t>(self, root: &'t SyntaxNode) -> (res: Option<&'t SyntaxNode>)
        ensures
            opt_node_ref(res) == find_node(*root, self),
        decreases root,
    {
        if root.start_byte == self.start_byte && root.end_byte == self.end_byte && root.kind == self.kind {
            return Some(root);
        }
        let mut i: usize = 0;
        while i < root.children.len()
            invariant
                0 <= i <= root.children.len(),
                !(root.start_byte == self.start_byte && root.end_byte == self.end_byte && root.kind == self.kind),
                covering_child(root.children@, self, 0) == covering_child(root.children@, self, i as int),
            decreases root.children.len() - i,
        {
            let child = &root.children[i].1;
            if child.start_byte <= self.start_byte && child.end_byte >= self.end_byte {
                return self.to_node(child);
            }
            i = i + 1;
        }
        None
    }
}

/// The syntax trees that node indices are computed from.
pub trait ParseDatabase {
    spec fn spec_parse_tree(&self, file_id: FileId) -> SyntaxNode;

    /// The syntax tree of the file `file_id`.
    fn parse_tree(&self, file_id: FileId) -> (res: &SyntaxNode)
        ensures
            *res == self.spec_parse_tree(file_id),
    ;
}

impl AstIdMap {
    /// The ids of the nodes of the file `file_id`.
    pub fn from_tree<D: ParseDatabase>(db: &D, file_id: FileId) -> (res: Arc<AstIdMap>)
        ensures
            res.arena@ == walk(db.spec_parse_tree(file_id)),
    {
        let tree = db.parse_tree(file_id);
        Arc::new(AstIdMap::from_source(tree))
    }
}


/// The id of a node gives the node back: the index that `ast_id_of` finds for
/// a pointer holds that pointer, and every pointer in the arena has an id.
pub proof fn law_ast_id_round_trip(arena: Seq<NodePtr>, ptr: NodePtr)
    ensures
        last_index(arena, ptr) matches Some(i) ==> 0 <= i < arena.len() && arena[i] == ptr,
        arena.contains(ptr) ==> last_index(arena, ptr) is Some,
    decreases arena.len(),
{
    if arena.len() > 0 && arena.last() != ptr {
        law_ast_id_round_trip(arena.drop_last(), ptr);
        if arena.contains(ptr) {
            let j = choose|j: int| 0 <= j < arena.len() && arena[j] == ptr;
            assert(arena.drop_last()[j] == ptr);
        }
    }
}


/// The node at index `i` of an arena has an id: the last index that holds it,
/// which is `i` or later.
proof fn lemma_last_index_at(arena: Seq<NodePtr>, i: int)
    requires
        0 <= i < arena.len(),
    ensures
        last_index(arena, arena[i]) matches Some(j) && i <= j < arena.len() && arena[j] == arena[i],
    decreases arena.len(),
{
    if arena.last() != arena[i] {
        lemma_last_index_at(arena.drop_last(), i);
        assert(arena.drop_last()[i] == arena[i]);
    }
}

/// Every node of an id map has an id, and that id gives the node back: looking
/// up the node at index `i` finds an index, `i` or later, that holds it.
pub proof fn law_ast_id_map_entries(m: &AstIdMap, i: int)
    requires
        0 <= i < m.arena.len(),
    ensures
        last_index(m.arena@, m.arena@[i]) matches Some(j) && i <= j < m.arena.len() && m.arena@[j] == m.arena@[i],
{
    lemma_last_index_at(m.arena@, i);
}

/// The pointers that `declaration_ptrs` collects are those of the variable
/// declarations among the first `n` children.
proof fn lemma_declaration_ptrs(node: SyntaxNode, n: nat)
    requires
        n <= node.children.len(),
    ensures
        forall|k: int| 0 <= k < declaration_ptrs(node, n).len() ==> (#[trigger] declaration_ptrs(node, n)[k]).kind
            == NodeKind::VariableDeclaration,
        forall|k: int|
            0 <= k < n && (#[trigger] node.children@[k]).1.kind == NodeKind::VariableDeclaration
                ==> declaration_ptrs(node, n).contains(ptr_of(node.children@[k].1)),
    decreases n,
{
    if n > 0 {
        lemma_declaration_ptrs(node, (n - 1) as nat);
        let prev = declaration_ptrs(node, (n - 1) as nat);
        let cur = declaration_ptrs(node, n);
        assert forall|k: int| 0 <= k < cur.len() implies (#[trigger] cur[k]).kind == NodeKind::VariableDeclaration by {
            if k < prev.len() {
                assert(cur[k] == prev[k]);
            }
        }
        assert forall|k: int|
            0 <= k < n && (#[trigger] node.children@[k]).1.kind == NodeKind::VariableDeclaration implies cur.contains(
                ptr_of(node.children@[k].1),
            ) by {
            if k < n - 1 {
                let j = choose|j: int| 0 <= j < prev.len() && prev[j] == ptr_of(node.children@[k].1);
                assert(cur[j] == prev[j]);
            } else {
                assert(cur[prev.len() as int] == ptr_of(node.children@[k].1));
            }
        }
    }
}

/// What visiting a node gives an id to: nothing for the file; for a
/// declaration of variables, each of its variable declarations but not itself;
/// for any other node, the node itself.
pub proof fn law_visit_ids(node: SyntaxNode)
    ensures
        node.kind == NodeKind::SourceFile ==> visit(node).len() == 0,
        node.kind == NodeKind::GlobalVariableDeclaration || node.kind == NodeKind::VariableDeclarationStatement
            ==> !visit(node).contains(ptr_of(node)) && forall|k: int|
            0 <= k < node.children.len() && (#[trigger] node.children@[k]).1.kind == NodeKind::VariableDeclaration
                ==> visit(node).contains(ptr_of(node.children@[k].1)),
        node.kind != NodeKind::SourceFile && node.kind != NodeKind::GlobalVariableDeclaration && node.kind
            != NodeKind::VariableDeclarationStatement ==> visit(node) == seq![ptr_of(node)],
{
    if node.kind == NodeKind::GlobalVariableDeclaration || node.kind == NodeKind::VariableDeclarationStatement {
        lemma_declaration_ptrs(node, node.children.len() as nat);
        let d = declaration_ptrs(node, node.children.len() as nat);
        if d.contains(ptr_of(node)) {
            let j = choose|j: int| 0 <= j < d.len() && d[j] == ptr_of(node);
            assert(d[j].kind == NodeKind::VariableDeclaration);
        }
    }
}

} // verus!
