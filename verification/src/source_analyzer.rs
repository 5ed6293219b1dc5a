//! Answers about a node of a body in terms of the source: the scope it sits
//! in, and what its field accesses, method calls and constructors resolve
//! to.
use vstd::prelude::*;
use std::sync::Arc;
use crate::base_db::FileId;
use crate::hir::{Body, ExprId};
use crate::ids::{DefWithBodyId, FunctionId, InFile};
use crate::infer::{last_value, AttributeId, InferenceResult};
use crate::lower::{last_expr, BodySourceMap};
use crate::resolver::{chain_of, is_block_scope, stacked, Resolver};
use crate::scope::{ExprScopes, ScopeId};
use crate::source_to_def::nodes_view;
use crate::syntax::{NodeKind, NodePtr, SyntaxNode};

verus! {

/// The scope of the expression `e` in `scopes`.
pub open spec fn scope_of_expr(scopes: ExprScopes, e: ExprId) -> Option<ScopeId> {
    if e < scopes.scope_by_expr.len() {
        scopes.scope_by_expr@[e as int]
    } else {
        None
    }
}

/// The scope of the first of `nodes` that is a block lowered to an
/// expression with a scope.
pub open spec fn first_block_scope(scopes: ExprScopes, source_map: BodySourceMap, file_id: FileId, nodes: Seq<SyntaxNode>) -> Option<
    ScopeId,
>
    decreases nodes.len(),
{
    if nodes.len() == 0 {
        None
    } else {
        let n = nodes[0];
        let found = if n.kind == NodeKind::Block {
            match last_expr(source_map.expr_map@, InFile { file_id, value: NodePtr::spec_from(&n) }) {
                Some(e) => scope_of_expr(scopes, e),
                None => None,
            }
        } else {
            None
        };
        if found is Some {
            found
        } else {
            first_block_scope(scopes, source_map, file_id, nodes.drop_first())
        }
    }
}

/// The scope that `node`, with ancestors from its parent up `ancestors`,
/// sits in: that of the innermost block around it, itself included, that
/// has one.
pub fn scope_for(scopes: &ExprScopes, source_map: &BodySourceMap, file_id: FileId, node: &SyntaxNode, ancestors: &Vec<&SyntaxNode>) -> (res:
    Option<ScopeId>)
    ensures
        res == first_block_scope(*scopes, *source_map, file_id, seq![*node] + nodes_view(ancestors@)),
{
    let ghost all = seq![*node] + nodes_view(ancestors@);
    assert(all[0] == *node);
    assert(all.drop_first() =~= nodes_view(ancestors@));
    if node.kind == NodeKind::Block {
        match source_map.node_ptr_expr(InFile::new(file_id, NodePtr::from_node(node))) {
            Some(e) => {
                let s = scopes.scope_for(e);
                if s.is_some() {
                    return s;
                }
            },
            None => {},
        }
    }
    let ghost anc = nodes_view(ancestors@);
    let mut i: usize = 0;
    assert(anc.skip(0) =~= anc);
    while i < ancestors.len()
        invariant
            0 <= i <= ancestors.len(),
            anc == nodes_view(ancestors@),
            all == seq![*node] + nodes_view(ancestors@),
            first_block_scope(*scopes, *source_map, file_id, all) == first_block_scope(*scopes, *source_map, file_id, anc.skip(i as int)),
        decreases ancestors.len() - i,
    {
        let n: &SyntaxNode = ancestors[i];
        let ghost rest = anc.skip(i as int);
        assert(rest[0] == *n);
        assert(rest.drop_first() =~= anc.skip(i + 1));
        if n.kind == NodeKind::Block {
            match source_map.node_ptr_expr(InFile::new(file_id, NodePtr::from_node(n))) {
                Some(e) => {
                    let s = scopes.scope_for(e);
                    if s.is_some() {
                        proof {
                            assert(last_expr(source_map.expr_map@, InFile { file_id, value: NodePtr::spec_from(&rest[0]) }) == Some(e));
                            assert(s == scope_of_expr(*scopes, e));
                            assert(first_block_scope(*scopes, *source_map, file_id, rest) == s);
                        }
                        return s;
                    }
                },
                None => {},
            }
        }
        i = i + 1;
    }
    assert(anc.skip(i as int).len() == 0);
    None
}

/// An analysis of a place in a body: its file, the resolver of its scope,
/// the body with its source map, and the inference of the body when it was
/// made.
pub struct SourceAnalyzer {
    pub file_id: FileId,
    pub resolver: Resolver,
    pub def: Option<(DefWithBodyId, Arc<Body>, Arc<BodySourceMap>)>,
    pub infer: Option<Arc<InferenceResult>>,
}

/// The expression that `node` was lowered to in the body of `a`.
pub open spec fn analyzer_expr(a: &SourceAnalyzer, node: SyntaxNode) -> Option<ExprId> {
    match a.def {
        Some((_, _, sm)) => last_expr(sm.expr_map@, InFile { file_id: a.file_id, value: NodePtr::spec_from(&node) }),
        None => None,
    }
}

impl SourceAnalyzer {
    /// An analysis of `node`, with ancestors `ancestors`, in the body of
    /// `def`: its resolver is `base` with the local scopes around the node.
    pub fn new_for_body(
        def: DefWithBodyId,
        body: Arc<Body>,
        source_map: Arc<BodySourceMap>,
        scopes: Arc<ExprScopes>,
        base: Resolver,
        infer: Option<Arc<InferenceResult>>,
        file_id: FileId,
        node: &SyntaxNode,
        ancestors: &Vec<&SyntaxNode>,
    ) -> (res: SourceAnalyzer)
        requires
            scopes.wf(),
        ensures
            res.file_id == file_id,
            res.resolver.file_id == base.file_id,
            res.resolver.scopes@ == base.scopes@ + stacked(
                chain_of(
                    &*scopes,
                    first_block_scope(*scopes, *source_map, file_id, seq![*node] + nodes_view(ancestors@)),
                ).filter(|s: ScopeId| is_block_scope(&*scopes, s)),
                scopes,
                def,
            ),
            res.def == Some((def, body, source_map)),
            res.infer == infer,
    {
        let scope = scope_for(&scopes, &source_map, file_id, node, ancestors);
        let resolver = Resolver::resolver_for_scope(base, scopes, def, scope);
        SourceAnalyzer { file_id, resolver, def: Some((def, body, source_map)), infer }
    }

    /// The expression that `node` was lowered to.
    fn expr_id(&self, node: &SyntaxNode) -> (res: Option<ExprId>)
        ensures
            res == analyzer_expr(self, *node),
    {
        match &self.def {
            Some((_, _, sm)) => sm.node_ptr_expr(InFile::new(self.file_id, NodePtr::from_node(node))),
            None => None,
        }
    }

    /// What the field access `node`, the field of `parent`, resolves to.
    pub fn resolve_attribute(&self, node: &SyntaxNode, parent: &SyntaxNode) -> (res: Option<AttributeId>)
        requires
            parent.kind == NodeKind::FieldAccess,
        ensures
            res == match (analyzer_expr(self, *node), self.infer) {
                (Some(e), Some(inf)) => last_value(inf.attribute_resolutions.spec_entries(), e),
                _ => None,
            },
    {
        let expr_id = self.expr_id(node)?;
        match &self.infer {
            Some(infer) => infer.attribute_resolution(expr_id),
            None => None,
        }
    }

    /// What the method call `node`, the field of `parent`, resolves to.
    pub fn resolve_method(&self, node: &SyntaxNode, parent: &SyntaxNode) -> (res: Option<FunctionId>)
        requires
            parent.kind == NodeKind::FieldAccess,
        ensures
            res == match (analyzer_expr(self, *node), self.infer) {
                (Some(e), Some(inf)) => last_value(inf.method_resolutions.spec_entries(), e),
                _ => None,
            },
    {
        let expr_id = self.expr_id(node)?;
        match &self.infer {
            Some(infer) => infer.method_resolution(expr_id),
            None => None,
        }
    }

    /// What the constructor call `node`, the class of the new expression
    /// `parent`, resolves to.
    pub fn resolve_constructor(&self, node: &SyntaxNode, parent: &SyntaxNode) -> (res: Option<FunctionId>)
        requires
            parent.kind == NodeKind::NewExpression,
        ensures
            res == match (analyzer_expr(self, *node), self.infer) {
                (Some(e), Some(inf)) => last_value(inf.method_resolutions.spec_entries(), e),
                _ => None,
            },
    {
        let expr_id = self.expr_id(node)?;
        match &self.infer {
            Some(infer) => infer.method_resolution(expr_id),
            None => None,
        }
    }
}

} // verus!
