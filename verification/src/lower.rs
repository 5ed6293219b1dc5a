//! Lowering of the syntax of a body to its expression arena.
use vstd::prelude::*;
use crate::base_db::FileId;
use crate::hir::{
    cases_view, expr_children, opt_type_ref_view, spec_returntype, BlockId, Body, Expr, ExprId, ExprView, FloatTypeWrapper,
    IdentId, Literal, LiteralView, Name, SwitchCase, TypeRef, TypeRefView,
};
use crate::ids::{DefWithBodyId, InFile};
use std::sync::Arc;
use crate::text::to_chars;
use crate::ids::BlockLoc;
use crate::pattern::parse_i64_spec;
use crate::syntax::{field_index_from, FieldName, NodeKind, NodePtr, SyntaxNode};

verus! {

pub proof fn lemma_field_index_in_range(children: Seq<(Option<FieldName>, SyntaxNode)>, field: FieldName, start: int)
    ensures
        field_index_from(children, field, start) matches Some(i) ==> start <= i < children.len() && children[i].0 == Some(field),
    decreases children.len() - start,
{
    if 0 <= start < children.len() && children[start].0 != Some(field) {
        lemma_field_index_in_range(children, field, start + 1);
    }
}

/// The index of the first child of `node` that fills `field`, if any.
pub open spec fn child_ix(node: SyntaxNode, field: FieldName) -> Option<int> {
    match field_index_from(node.children@, field, 0) {
        Some(i) => if 0 <= i < node.children.len() {
            Some(i)
        } else {
            None
        },
        None => None,
    }
}

/// The queries that lowering makes: the index of a node in its file, the
/// interning of blocks, and the bits of the value of a float literal (zero
/// when the text is no number). Each is a function of its arguments.
pub trait LowerDatabase {
    spec fn spec_ast_id_of(&self, file_id: FileId, ptr: NodePtr) -> u32;

    spec fn spec_intern_block(&self, loc: BlockLoc) -> BlockId;

    spec fn spec_float_bits(&self, text: Seq<char>) -> u64;

    fn ast_id_of(&self, file_id: FileId, ptr: NodePtr) -> (res: u32)
        ensures
            res == self.spec_ast_id_of(file_id, ptr),
    ;

    fn intern_block(&self, loc: BlockLoc) -> (res: BlockId)
        ensures
            res == self.spec_intern_block(loc),
    ;

    fn float_bits(&self, text: &str) -> (res: u64)
        ensures
            res == self.spec_float_bits(text@),
    ;
}

/// The arenas of a body under construction, as plain values: the
/// expressions, the node of each, the nodes recorded with their expressions,
/// the identifiers and the parameters.
pub struct LowerState {
    pub exprs: Seq<ExprView>,
    pub back: Seq<Option<NodePtr>>,
    pub map: Seq<(NodePtr, ExprId)>,
    pub idents: Seq<Seq<char>>,
    pub params: Seq<(IdentId, ExprId)>,
}

/// Allocates `e`, lowered from the node `ptr`.
pub open spec fn push_expr(st: LowerState, e: ExprView, ptr: NodePtr) -> (LowerState, ExprId) {
    let id = st.exprs.len() as ExprId;
    (
        LowerState {
            exprs: st.exprs.push(e),
            back: st.back.push(Some(ptr)),
            map: st.map.push((ptr, id)),
            ..st
        },
        id,
    )
}

/// Allocates a missing expression, lowered from no node.
pub open spec fn push_missing(st: LowerState) -> (LowerState, ExprId) {
    let id = st.exprs.len() as ExprId;
    (LowerState { exprs: st.exprs.push(ExprView::Missing), back: st.back.push(None), ..st }, id)
}

/// Allocates the identifier `n`.
pub open spec fn push_ident(st: LowerState, n: Seq<char>) -> (LowerState, IdentId) {
    (LowerState { idents: st.idents.push(n), ..st }, st.idents.len() as IdentId)
}

pub open spec fn ptr_of(node: SyntaxNode) -> NodePtr {
    NodePtr::spec_from(&node)
}

pub open spec fn push_some(r: (LowerState, ExprId)) -> (LowerState, Option<ExprId>) {
    (r.0, Some(r.1))
}

/// The value of a bool literal.
pub open spec fn bool_value(text: Seq<char>) -> Option<bool> {
    if text == "true"@ {
        Some(true)
    } else if text == "false"@ {
        Some(false)
    } else {
        None
    }
}

/// The value of a char literal: its second character, or the nul character.
pub open spec fn char_value(text: Seq<char>) -> char {
    if text.len() > 1 {
        text[1]
    } else {
        '\0'
    }
}

/// The value of an int literal: its decimal value, or zero.
pub open spec fn int_value(text: Seq<char>) -> i64 {
    match parse_i64_spec(text) {
        Some(v) => v,
        None => 0,
    }
}

/// The kind of the child of `node` that fills `field`, if any.
pub open spec fn child_kind(node: SyntaxNode, field: FieldName) -> Option<NodeKind> {
    match child_ix(node, field) {
        Some(i) => Some(node.children@[i].1.kind),
        None => None,
    }
}

pub open spec fn keep_all() -> spec_fn((Option<FieldName>, SyntaxNode)) -> bool {
    |c: (Option<FieldName>, SyntaxNode)| true
}

pub open spec fn keep_field(f: FieldName) -> spec_fn((Option<FieldName>, SyntaxNode)) -> bool {
    |c: (Option<FieldName>, SyntaxNode)| c.0 == Some(f)
}

pub open spec fn keep_statement() -> spec_fn((Option<FieldName>, SyntaxNode)) -> bool {
    |c: (Option<FieldName>, SyntaxNode)| c.1.kind != NodeKind::AnonLBrace && c.1.kind != NodeKind::AnonRBrace
}

/// Lowers `node` to an expression; a missing expression when it denotes none.
pub open spec fn spec_collect<D: LowerDatabase>(db: &D, fid: FileId, st: LowerState, node: SyntaxNode) -> (LowerState, ExprId)
    decreases node, 2nat, 0nat, 0nat,
{
    let (st1, r) = spec_maybe(db, fid, st, node);
    match r {
        Some(id) => (st1, id),
        None => push_missing(st1),
    }
}

/// Lowers child `c` of `parent`, if there is one.
pub open spec fn spec_collect_opt<D: LowerDatabase>(db: &D, fid: FileId, st: LowerState, parent: SyntaxNode, c: Option<int>) -> (LowerState, Option<ExprId>)
    decreases parent, 0nat, 0nat, 0nat,
{
    match c {
        Some(i) => if 0 <= i < parent.children.len() {
            push_some(spec_collect(db, fid, st, parent.children@[i].1))
        } else {
            (st, None)
        },
        None => (st, None),
    }
}

/// Lowers each of the first `n` children of `parent` that `keep` selects;
/// with `maybe`, those that denote no expression are skipped.
pub open spec fn spec_collect_children<D: LowerDatabase>(
    db: &D,
    fid: FileId,
    st: LowerState,
    parent: SyntaxNode,
    n: nat,
    keep: spec_fn((Option<FieldName>, SyntaxNode)) -> bool,
    maybe: bool,
) -> (LowerState, Seq<ExprId>)
    decreases parent, 0nat, n, 0nat,
{
    if n == 0 || n > parent.children.len() {
        (st, seq![])
    } else {
        let (st1, ids) = spec_collect_children(db, fid, st, parent, (n - 1) as nat, keep, maybe);
        if keep(parent.children@[n - 1]) {
            if maybe {
                let (st2, r) = spec_maybe(db, fid, st1, parent.children@[n - 1].1);
                match r {
                    Some(id) => (st2, ids.push(id)),
                    None => (st2, ids),
                }
            } else {
                let (st2, id) = spec_collect(db, fid, st1, parent.children@[n - 1].1);
                (st2, ids.push(id))
            }
        } else {
            (st1, ids)
        }
    }
}

/// Lowers the cases among the first `n` children of the switch `parent`: for
/// each case, its values, then its body; a case without body only lowers its values.
pub open spec fn spec_cases<D: LowerDatabase>(db: &D, fid: FileId, st: LowerState, parent: SyntaxNode, n: nat) -> (
    LowerState,
    Seq<(Seq<ExprId>, ExprId)>,
)
    decreases parent, 0nat, n, 1nat,
{
    if n == 0 || n > parent.children.len() {
        (st, seq![])
    } else {
        let (st1, cases) = spec_cases(db, fid, st, parent, (n - 1) as nat);
        let case = parent.children@[n - 1].1;
        if case.kind == NodeKind::SwitchCase {
            let (st2, values) = spec_collect_children(
                db,
                fid,
                st1,
                parent.children@[n - 1].1,
                case.children.len() as nat,
                keep_field(FieldName::Value),
                false,
            );
            match child_ix(case, FieldName::Body) {
                Some(b) => {
                    let (st3, body) = spec_collect(db, fid, st2, parent.children@[n - 1].1.children@[b].1);
                    (st3, cases.push((values, body)))
                },
                None => (st2, cases),
            }
        } else {
            (st1, cases)
        }
    }
}

/// Lowers the declarations among the first `n` children of `parent`: each
/// named one allocates its identifier, lowers its initial value, and becomes a
/// binding of type `type_ref` (with `old_style`, the old-style declarations, each
/// with its own type).
pub open spec fn spec_decls<D: LowerDatabase>(
    db: &D,
    fid: FileId,
    st: LowerState,
    parent: SyntaxNode,
    n: nat,
    type_ref: Option<TypeRefView>,
    old_style: bool,
) -> (LowerState, Seq<ExprId>)
    decreases parent, 0nat, n, 0nat,
{
    if n == 0 || n > parent.children.len() {
        (st, seq![])
    } else {
        let (st1, ids) = spec_decls(db, fid, st, parent, (n - 1) as nat, type_ref, old_style);
        let c = parent.children@[n - 1].1;
        let selected = if old_style {
            c.kind == NodeKind::OldVariableDeclaration
        } else {
            c.kind == NodeKind::VariableDeclaration || c.kind == NodeKind::DynamicArrayDeclaration
        };
        if selected {
            let t = if old_style {
                spec_returntype(c, FieldName::Type)
            } else {
                type_ref
            };
            match child_ix(c, FieldName::Name) {
                Some(nm) => {
                    let (st2, ident) = push_ident(st1, c.children@[nm].1.text@);
                    let (st3, init) = spec_collect_opt(db, fid, st2, parent.children@[n - 1].1, child_ix(c, FieldName::InitialValue));
                    let (st4, b) = push_expr(st3, ExprView::Binding { ident_id: ident, type_ref: t, initializer: init }, ptr_of(c));
                    (st4, ids.push(b))
                },
                None => (st1, ids),
            }
        } else {
            (st1, ids)
        }
    }
}

/// Lowers a declaration statement: its declarations, then the statement.
pub open spec fn spec_decl_statement<D: LowerDatabase>(db: &D, fid: FileId, st: LowerState, node: SyntaxNode, old_style: bool) -> (LowerState, ExprId)
    decreases node, 0nat, node.children.len() + 1, 0nat,
{
    let (st1, decls) = spec_decls(db, fid, st, node, node.children.len() as nat, spec_returntype(node, FieldName::Type), old_style);
    push_expr(st1, ExprView::Decl(decls), ptr_of(node))
}

/// Lowers `node` to an expression, if it denotes one.
pub open spec fn spec_maybe<D: LowerDatabase>(db: &D, fid: FileId, st: LowerState, node: SyntaxNode) -> (LowerState, Option<ExprId>)
    decreases node, 1nat, 0nat, 0nat,
{
    let ptr = ptr_of(node);
    let text = node.text@;
    match node.kind {
        NodeKind::NamedArg => match (child_ix(node, FieldName::ArgName), child_ix(node, FieldName::Value)) {
            (Some(a), Some(v)) => {
                let (st1, name) = spec_collect(db, fid, st, node.children@[a].1);
                let (st2, value) = spec_collect(db, fid, st1, node.children@[v].1);
                push_some(push_expr(st2, ExprView::NamedArg { name, value }, ptr))
            },
            _ => (st, None),
        },
        NodeKind::Block => {
            let block_id = db.spec_intern_block(BlockLoc { ast_id: db.spec_ast_id_of(fid, ptr), file_id: fid });
            let (st1, statements) = spec_collect_children(db, fid, st, node, node.children.len() as nat, keep_statement(), false);
            push_some(push_expr(st1, ExprView::Block { id: Some(block_id), statements }, ptr))
        },
        NodeKind::VariableDeclarationStatement => push_some(spec_decl_statement(db, fid, st, node, false)),
        NodeKind::OldVariableDeclarationStatement | NodeKind::OldForLoopVariableDeclarationStatement => push_some(
            spec_decl_statement(db, fid, st, node, true),
        ),
        NodeKind::ForStatement => {
            let (st1, initialization) = spec_collect_children(
                db,
                fid,
                st,
                node,
                node.children.len() as nat,
                keep_field(FieldName::Initialization),
                false,
            );
            let (st2, condition) = spec_collect_opt(db, fid, st1, node, child_ix(node, FieldName::Condition));
            let (st3, iteration) = match child_ix(node, FieldName::Iteration) {
                Some(i) => spec_maybe(db, fid, st2, node.children@[i].1),
                None => (st2, None),
            };
            let (st4, body) = spec_collect_opt(db, fid, st3, node, child_ix(node, FieldName::Body));
            push_some(push_expr(st4, ExprView::Loop { initialization, condition, iteration, body }, ptr))
        },
        NodeKind::WhileStatement | NodeKind::DoWhileStatement => {
            let (st1, condition) = spec_collect_opt(db, fid, st, node, child_ix(node, FieldName::Condition));
            let (st2, body) = spec_collect_opt(db, fid, st1, node, child_ix(node, FieldName::Body));
            push_some(push_expr(st2, ExprView::Loop { initialization: seq![], condition, iteration: None, body }, ptr))
        },
        NodeKind::BreakStatement => push_some(push_expr(st, ExprView::Control { keyword: NodeKind::AnonBreak, operand: None }, ptr)),
        NodeKind::ContinueStatement => push_some(
            push_expr(st, ExprView::Control { keyword: NodeKind::AnonContinue, operand: None }, ptr),
        ),
        NodeKind::ConditionStatement => match (child_ix(node, FieldName::Condition), child_ix(node, FieldName::TruePath)) {
            (Some(c), Some(t)) => {
                let (st1, else_branch) = spec_collect_opt(db, fid, st, node, child_ix(node, FieldName::FalsePath));
                let (st2, condition) = spec_collect(db, fid, st1, node.children@[c].1);
                let (st3, then_branch) = spec_collect(db, fid, st2, node.children@[t].1);
                push_some(push_expr(st3, ExprView::Condition { condition, then_branch, else_branch }, ptr))
            },
            _ => (st, None),
        },
        NodeKind::SwitchStatement => match child_ix(node, FieldName::Condition) {
            Some(c) => {
                let (st1, cases) = spec_cases(db, fid, st, node, node.children.len() as nat);
                let (st2, condition) = spec_collect(db, fid, st1, node.children@[c].1);
                push_some(push_expr(st2, ExprView::Switch { condition, cases }, ptr))
            },
            None => (st, None),
        },
        NodeKind::ReturnStatement => match child_ix(node, FieldName::Expression) {
            Some(e) => {
                let (st1, operand) = spec_maybe(db, fid, st, node.children@[e].1);
                push_some(
                    push_expr(st1, ExprView::Control { keyword: NodeKind::AnonReturn, operand }, ptr_of(node.children@[e].1)),
                )
            },
            None => (st, None),
        },
        NodeKind::DeleteStatement => match child_ix(node, FieldName::Free) {
            Some(e) => {
                let (st1, operand) = spec_maybe(db, fid, st, node.children@[e].1);
                push_some(
                    push_expr(st1, ExprView::Control { keyword: NodeKind::AnonDelete, operand }, ptr_of(node.children@[e].1)),
                )
            },
            None => (st, None),
        },
        NodeKind::ExpressionStatement => if node.children.len() > 0 {
            push_some(spec_collect(db, fid, st, node.children@[0].1))
        } else {
            (st, None)
        },
        NodeKind::AssignmentExpression | NodeKind::BinaryExpression | NodeKind::PreprocBinaryExpression => match child_ix(
            node,
            FieldName::Left,
        ) {
            Some(l) => {
                let (st1, lhs) = spec_collect(db, fid, st, node.children@[l].1);
                match child_ix(node, FieldName::Right) {
                    Some(r) => {
                        let (st2, rhs) = spec_collect(db, fid, st1, node.children@[r].1);
                        push_some(push_expr(st2, ExprView::BinaryOp { lhs, rhs, op: child_kind(node, FieldName::Operator) }, ptr))
                    },
                    None => (st1, None),
                }
            },
            None => (st, None),
        },
        NodeKind::CallExpression => match (child_ix(node, FieldName::Function), child_ix(node, FieldName::Arguments)) {
            (Some(f), Some(a)) => {
                let function = node.children@[f].1;
                if function.kind == NodeKind::Identifier {
                    let (st1, callee) = spec_collect(db, fid, st, node.children@[f].1);
                    let (st2, args) = spec_collect_children(
                        db,
                        fid,
                        st1,
                        node.children@[a].1,
                        node.children@[a].1.children.len() as nat,
                        keep_all(),
                        true,
                    );
                    push_some(push_expr(st2, ExprView::Call { callee, args }, ptr))
                } else {
                    match (child_ix(function, FieldName::Target), child_ix(function, FieldName::Field)) {
                        (Some(t), Some(m)) => {
                            let (st1, args) = spec_collect_children(
                                db,
                                fid,
                                st,
                                node.children@[a].1,
                                node.children@[a].1.children.len() as nat,
                                keep_all(),
                                true,
                            );
                            let (st2, target) = spec_collect(db, fid, st1, node.children@[f].1.children@[t].1);
                            let method = function.children@[m].1;
                            push_some(
                                push_expr(st2, ExprView::MethodCall { target, method_name: method.text@, args }, ptr_of(method)),
                            )
                        },
                        _ => (st, None),
                    }
                }
            },
            _ => (st, None),
        },
        NodeKind::ArrayIndexedAccess => match (child_ix(node, FieldName::Array), child_ix(node, FieldName::Index)) {
            (Some(a), Some(i)) => {
                let (st1, array) = spec_collect(db, fid, st, node.children@[a].1);
                let (st2, index) = spec_collect(db, fid, st1, node.children@[i].1);
                push_some(push_expr(st2, ExprView::ArrayIndexedAccess { array, index }, ptr))
            },
            _ => (st, None),
        },
        NodeKind::TernaryExpression => match child_ix(node, FieldName::Condition) {
            Some(c) => {
                let (st1, condition) = spec_collect(db, fid, st, node.children@[c].1);
                match child_ix(node, FieldName::Consequence) {
                    Some(t) => {
                        let (st2, then_branch) = spec_collect(db, fid, st1, node.children@[t].1);
                        match child_ix(node, FieldName::Alternative) {
                            Some(e) => {
                                let (st3, else_branch) = spec_collect(db, fid, st2, node.children@[e].1);
                                push_some(push_expr(st3, ExprView::TernaryOp { condition, then_branch, else_branch }, ptr))
                            },
                            None => (st2, None),
                        }
                    },
                    None => (st1, None),
                }
            },
            None => (st, None),
        },
        NodeKind::FieldAccess => match (child_ix(node, FieldName::Field), child_ix(node, FieldName::Target)) {
            (Some(f), Some(t)) => {
                let (st1, target) = spec_collect(db, fid, st, node.children@[t].1);
                let field = node.children@[f].1;
                push_some(push_expr(st1, ExprView::FieldAccess { target, name: field.text@ }, ptr_of(field)))
            },
            _ => (st, None),
        },
        NodeKind::ArrayScopeAccess | NodeKind::ScopeAccess => match (child_ix(node, FieldName::Field), child_ix(node, FieldName::Scope)) {
            (Some(f), Some(sc)) => {
                let (st1, scope) = spec_collect(db, fid, st, node.children@[sc].1);
                let field = node.children@[f].1;
                push_some(push_expr(st1, ExprView::ScopeAccess { scope, field: field.text@ }, ptr_of(field)))
            },
            _ => (st, None),
        },
        NodeKind::UnaryExpression | NodeKind::UpdateExpression | NodeKind::PreprocUnaryExpression => match child_ix(
            node,
            FieldName::Argument,
        ) {
            Some(a) => {
                let argument = node.children@[a].1;
                let op = child_kind(argument, FieldName::Operator);
                let (st1, operand) = spec_collect(db, fid, st, node.children@[a].1);
                push_some(push_expr(st1, ExprView::UnaryOp { operand, op }, ptr_of(argument)))
            },
            None => (st, None),
        },
        NodeKind::SizeofExpression => match child_ix(node, FieldName::Type) {
            Some(t) => {
                let (st1, operand) = spec_collect(db, fid, st, node.children@[t].1);
                push_some(push_expr(st1, ExprView::UnaryOp { operand, op: Some(NodeKind::SizeofExpression) }, ptr))
            },
            None => (st, None),
        },
        NodeKind::ViewAs | NodeKind::OldTypeCast => match (child_ix(node, FieldName::Value), spec_returntype(node, FieldName::Type)) {
            (Some(v), Some(type_ref)) => {
                let (st1, operand) = spec_collect(db, fid, st, node.children@[v].1);
                push_some(push_expr(st1, ExprView::ViewAs { operand, type_ref }, ptr))
            },
            _ => (st, None),
        },
        NodeKind::Identifier => push_some(push_expr(st, ExprView::Ident(text), ptr)),
        NodeKind::This => push_some(push_expr(st, ExprView::This, ptr)),
        NodeKind::IntLiteral => push_some(push_expr(st, ExprView::Literal(LiteralView::Int(int_value(text))), ptr)),
        NodeKind::FloatLiteral => push_some(push_expr(st, ExprView::Literal(LiteralView::Float(db.spec_float_bits(text))), ptr)),
        NodeKind::CharLiteral => push_some(push_expr(st, ExprView::Literal(LiteralView::Char(char_value(text))), ptr)),
        NodeKind::StringLiteral => push_some(push_expr(st, ExprView::Literal(LiteralView::String(text)), ptr)),
        NodeKind::BoolLiteral => match bool_value(text) {
            Some(b) => push_some(push_expr(st, ExprView::Literal(LiteralView::Bool(b)), ptr)),
            None => (st, None),
        },
        NodeKind::Null => push_some(push_expr(st, ExprView::Literal(LiteralView::Null), ptr)),
        NodeKind::ParenthesizedExpression | NodeKind::PreprocParenthesizedExpression => match child_ix(node, FieldName::Expression) {
            Some(e) => spec_maybe(db, fid, st, node.children@[e].1),
            None => (st, None),
        },
        NodeKind::NewExpression => match (child_ix(node, FieldName::Class), child_ix(node, FieldName::Arguments)) {
            (Some(c), Some(a)) => {
                let (st1, args) = spec_collect_children(
                    db,
                    fid,
                    st,
                    node.children@[a].1,
                    node.children@[a].1.children.len() as nat,
                    keep_all(),
                    true,
                );
                let class = node.children@[c].1;
                push_some(push_expr(st1, ExprView::New { name: class.text@, args }, ptr_of(class)))
            },
            _ => (st, None),
        },
        NodeKind::DynamicArray => match child_ix(node, FieldName::Type) {
            Some(t) => {
                let (st1, r) = spec_maybe(db, fid, st, node.children@[t].1);
                match r {
                    Some(identifier) => push_some(push_expr(st1, ExprView::DynamicArray { identifier }, ptr)),
                    None => (st1, None),
                }
            },
            None => (st, None),
        },
        NodeKind::ArrayLiteral => {
            let (st1, elements) = spec_collect_children(db, fid, st, node, node.children.len() as nat, keep_all(), true);
            push_some(push_expr(st1, ExprView::Literal(LiteralView::Array(elements)), ptr))
        },
        NodeKind::CommaExpression => {
            let (st1, exprs) = spec_collect_children(db, fid, st, node, node.children.len() as nat, keep_all(), false);
            push_some(push_expr(st1, ExprView::CommaExpr(exprs), ptr))
        },
        _ => (st, None),
    }
}

/// Every call in the tree rooted at `node` calls an identifier or a field
/// access, as the grammar has it.
pub open spec fn calls_ok(node: SyntaxNode) -> bool
    decreases node,
{
    &&& (node.kind == NodeKind::CallExpression ==> match child_ix(node, FieldName::Function) {
        Some(f) => node.children@[f].1.kind == NodeKind::Identifier || node.children@[f].1.kind == NodeKind::FieldAccess,
        None => true,
    })
    &&& forall|i: int| 0 <= i < node.children.len() ==> calls_ok(#[trigger] node.children@[i].1)
}

/// The source of the expressions of a body: the node of each expression,
/// and the expression of each node.
#[derive(Debug)]
pub struct BodySourceMap {
    pub expr_map: Vec<(InFile<NodePtr>, ExprId)>,
    pub expr_map_back: Vec<Option<InFile<NodePtr>>>,
}

/// The expression recorded last for `ptr`, if any.
pub open spec fn last_expr(map: Seq<(InFile<NodePtr>, ExprId)>, ptr: InFile<NodePtr>) -> Option<ExprId>
    decreases map.len(),
{
    if map.len() == 0 {
        None
    } else if map.last().0 == ptr {
        Some(map.last().1)
    } else {
        last_expr(map.drop_last(), ptr)
    }
}

impl BodySourceMap {
    /// The node that expression `expr` was lowered from.
    pub fn expr_source(&self, expr: ExprId) -> (res: Option<InFile<NodePtr>>)
        ensures
            res == if expr < self.expr_map_back.len() {
                self.expr_map_back@[expr as int]
            } else {
                None
            },
    {
        if expr < self.expr_map_back.len() {
            self.expr_map_back[expr]
        } else {
            None
        }
    }

    /// The expression that the node `node` was lowered to.
    pub fn node_ptr_expr(&self, node: InFile<NodePtr>) -> (res: Option<ExprId>)
        ensures
            res == last_expr(self.expr_map@, node),
    {
        let mut i: usize = self.expr_map.len();
        assert(self.expr_map@.take(i as int) =~= self.expr_map@);
        while i > 0
            invariant
                0 <= i <= self.expr_map.len(),
                last_expr(self.expr_map@, node) == last_expr(self.expr_map@.take(i as int), node),
            decreases i,
        {
            let ghost t = self.expr_map@.take(i as int);
            assert(t.last() == self.expr_map@[i - 1]);
            if self.expr_map[i - 1].0 == node {
                return Some(self.expr_map[i - 1].1);
            }
            assert(t.drop_last() =~= self.expr_map@.take(i - 1));
            i = i - 1;
        }
        None
    }
}

/// The arenas of `body` and `source_map` as plain values.
pub open spec fn arena_state(body: &Body, source_map: &BodySourceMap) -> LowerState {
    LowerState {
        exprs: body.exprs@.map_values(|e: Expr| e@),
        back: source_map.expr_map_back@.map_values(
            |o: Option<InFile<NodePtr>>|
                match o {
                    Some(p) => Some(p.value),
                    None => None,
                },
        ),
        map: source_map.expr_map@.map_values(|e: (InFile<NodePtr>, ExprId)| (e.0.value, e.1)),
        idents: body.idents@.map_values(|n: Name| n@),
        params: body.params@,
    }
}

/// Each node that the source map records for an expression is the node that
/// the map records as the source of that expression.
pub open spec fn source_map_consistent(source_map: &BodySourceMap) -> bool {
    forall|k: int|
        0 <= k < source_map.expr_map.len() ==> {
            let (p, id) = #[trigger] source_map.expr_map@[k];
            &&& id < source_map.expr_map_back.len()
            &&& source_map.expr_map_back@[id as int] == Some(p)
        }
}

/// Which children a list lowers.
#[derive(Clone, Copy)]
pub enum Keep {
    All,
    Field(FieldName),
    Statement,
}

pub open spec fn keep_fn(k: Keep) -> spec_fn((Option<FieldName>, SyntaxNode)) -> bool {
    match k {
        Keep::All => keep_all(),
        Keep::Field(f) => keep_field(f),
        Keep::Statement => keep_statement(),
    }
}

fn keeps(k: Keep, c: &(Option<FieldName>, SyntaxNode)) -> (res: bool)
    ensures
        res == keep_fn(k)(*c),
{
    match k {
        Keep::All => true,
        Keep::Field(f) => c.0 == Some(f),
        Keep::Statement => c.1.kind != NodeKind::AnonLBrace && c.1.kind != NodeKind::AnonRBrace,
    }
}

/// The index of the child of `node` that fills `field`.
pub(crate) fn child_index(node: &SyntaxNode, field: FieldName) -> (res: Option<usize>)
    ensures
        match res {
            Some(i) => child_ix(*node, field) == Some(i as int) && i < node.children.len(),
            None => child_ix(*node, field) is None,
        },
{
    let r = node.child_by_field_name(field);
    proof {
        lemma_field_index_in_range(node.children@, field, 0);
    }
    r
}

/// Every id that `e` refers to is below `n`.
pub open spec fn refs_below(e: Expr, n: nat) -> bool {
    forall|k: int| 0 <= k < expr_children(&e).len() ==> #[trigger] expr_children(&e)[k] < n
}

/// Lowers the syntax of a body.
pub struct ExprCollector<'a, D: LowerDatabase> {
    pub db: &'a D,
    pub file_id: FileId,
    pub body: Body,
    pub source_map: BodySourceMap,
}

impl<'a, D: LowerDatabase> ExprCollector<'a, D> {
    pub open spec fn state(&self) -> LowerState {
        arena_state(&self.body, &self.source_map)
    }

    /// The arenas are consistent: the body is well formed, each expression
    /// has its entry of source, all sources are in this file.
    pub open spec fn inv(&self) -> bool {
        &&& self.body.wf()
        &&& self.source_map.expr_map_back.len() == self.body.exprs.len()
        &&& forall|k: int| 0 <= k < self.source_map.expr_map.len() ==> (#[trigger] self.source_map.expr_map@[k]).0.file_id
            == self.file_id
        &&& forall|k: int|
            0 <= k < self.source_map.expr_map_back.len() ==> (#[trigger] self.source_map.expr_map_back@[k] matches Some(p)
                ==> p.file_id == self.file_id)
        &&& source_map_consistent(&self.source_map)
    }

    pub open spec fn same_ctx(&self, other: &Self) -> bool {
        &&& self.db == other.db
        &&& self.file_id == other.file_id
        &&& self.body.exprs.len() >= other.body.exprs.len()
        &&& self.body.idents.len() >= other.body.idents.len()
        &&& self.body.body_expr == other.body.body_expr
    }

    fn alloc_expr(&mut self, expr: Expr, ptr: NodePtr) -> (res: ExprId)
        requires
            old(self).inv(),
            refs_below(expr, old(self).body.exprs.len() as nat),
            expr matches Expr::Binding { ident_id, .. } ==> ident_id < old(self).body.idents.len(),
        ensures
            final(self).inv(),
            final(self).same_ctx(old(self)),
            (final(self).state(), res) == push_expr(old(self).state(), expr@, ptr),
            res == old(self).body.exprs.len(),
            final(self).body.exprs@ == old(self).body.exprs@.push(expr),
            final(self).body.idents == old(self).body.idents,
            final(self).body.params == old(self).body.params,
    {
        let id = self.body.exprs.len();
        let ghost s0 = self.state();
        let ghost e0 = self.body.exprs@;
        let ghost b0 = self.source_map.expr_map_back@;
        let ghost m0 = self.source_map.expr_map@;
        let ghost ev = expr@;
        let fptr = InFile::new(self.file_id, ptr);
        self.body.exprs.push(expr);
        self.source_map.expr_map_back.push(Some(fptr));
        self.source_map.expr_map.push((fptr, id));
        proof {
            assert(self.body.exprs@.map_values(|e: Expr| e@) =~= e0.map_values(|e: Expr| e@).push(ev));
            assert(self.source_map.expr_map_back@.map_values(
                |o: Option<InFile<NodePtr>>|
                    match o {
                        Some(p) => Some(p.value),
                        None => None,
                    },
            ) =~= b0.map_values(
                |o: Option<InFile<NodePtr>>|
                    match o {
                        Some(p) => Some(p.value),
                        None => None,
                    },
            ).push(Some(ptr)));
            assert(self.source_map.expr_map@.map_values(|e: (InFile<NodePtr>, ExprId)| (e.0.value, e.1)) =~= m0.map_values(
                |e: (InFile<NodePtr>, ExprId)| (e.0.value, e.1),
            ).push((ptr, id)));
            assert forall|i: int, k: int|
                0 <= i < self.body.exprs.len() && 0 <= k < expr_children(&self.body.exprs@[i]).len() implies #[trigger] expr_children(
                &self.body.exprs@[i],
            )[k] < i by {
                if i < e0.len() {
                    assert(self.body.exprs@[i] == e0[i]);
                }
            }
            assert forall|i: int|
                0 <= i < self.body.exprs.len() implies match #[trigger] self.body.exprs@[i] {
                Expr::Binding { ident_id, .. } => ident_id < self.body.idents.len(),
                _ => true,
            } by {
                if i < e0.len() {
                    assert(self.body.exprs@[i] == e0[i]);
                }
            }
            assert forall|p: int| 0 <= p < self.body.params.len() implies {
                let (ident, expr) = #[trigger] self.body.params@[p];
                &&& ident < self.body.idents.len()
                &&& expr < self.body.exprs.len()
                &&& self.body.exprs@[expr as int] matches Expr::Binding { ident_id, .. } && ident_id == ident
            } by {
                let (ident, e) = self.body.params@[p];
                assert(self.body.exprs@[e as int] == e0[e as int]);
            }
            assert forall|k: int| 0 <= k < self.source_map.expr_map_back.len() implies (#[trigger] self.source_map.expr_map_back@[k] matches Some(
                p,
            ) ==> p.file_id == self.file_id) by {
                if k < b0.len() {
                    assert(self.source_map.expr_map_back@[k] == b0[k]);
                }
            }
            assert forall|k: int| 0 <= k < self.source_map.expr_map.len() implies (#[trigger] self.source_map.expr_map@[k]).0.file_id
                == self.file_id by {
                if k < m0.len() {
                    assert(self.source_map.expr_map@[k] == m0[k]);
                }
            }
            assert forall|k: int| 0 <= k < self.source_map.expr_map.len() implies {
                let (p, e) = #[trigger] self.source_map.expr_map@[k];
                &&& e < self.source_map.expr_map_back.len()
                &&& self.source_map.expr_map_back@[e as int] == Some(p)
            } by {
                if k < m0.len() {
                    assert(self.source_map.expr_map@[k] == m0[k]);
                    let (p, e) = m0[k];
                    assert(self.source_map.expr_map_back@[e as int] == b0[e as int]);
                }
            }
        }
        id
    }

    fn missing_expr(&mut self) -> (res: ExprId)
        requires
            old(self).inv(),
        ensures
            final(self).inv(),
            final(self).same_ctx(old(self)),
            (final(self).state(), res) == push_missing(old(self).state()),
            res == old(self).body.exprs.len(),
            final(self).body.exprs.len() == old(self).body.exprs.len() + 1,
            final(self).body.idents == old(self).body.idents,
    {
        let id = self.body.exprs.len();
        let ghost e0 = self.body.exprs@;
        let ghost b0 = self.source_map.expr_map_back@;
        self.body.exprs.push(Expr::Missing);
        self.source_map.expr_map_back.push(None);
        proof {
            assert(self.body.exprs@.map_values(|e: Expr| e@) =~= e0.map_values(|e: Expr| e@).push(ExprView::Missing));
            assert(self.source_map.expr_map_back@.map_values(
                |o: Option<InFile<NodePtr>>|
                    match o {
                        Some(p) => Some(p.value),
                        None => None,
                    },
            ) =~= b0.map_values(
                |o: Option<InFile<NodePtr>>|
                    match o {
                        Some(p) => Some(p.value),
                        None => None,
                    },
            ).push(None));
            assert forall|i: int, k: int|
                0 <= i < self.body.exprs.len() && 0 <= k < expr_children(&self.body.exprs@[i]).len() implies #[trigger] expr_children(
                &self.body.exprs@[i],
            )[k] < i by {
                if i < e0.len() {
                    assert(self.body.exprs@[i] == e0[i]);
                }
            }
            assert forall|i: int|
                0 <= i < self.body.exprs.len() implies match #[trigger] self.body.exprs@[i] {
                Expr::Binding { ident_id, .. } => ident_id < self.body.idents.len(),
                _ => true,
            } by {
                if i < e0.len() {
                    assert(self.body.exprs@[i] == e0[i]);
                }
            }
            assert forall|p: int| 0 <= p < self.body.params.len() implies {
                let (ident, expr) = #[trigger] self.body.params@[p];
                &&& ident < self.body.idents.len()
                &&& expr < self.body.exprs.len()
                &&& self.body.exprs@[expr as int] matches Expr::Binding { ident_id, .. } && ident_id == ident
            } by {
                let (ident, e) = self.body.params@[p];
                assert(self.body.exprs@[e as int] == e0[e as int]);
            }
            assert forall|k: int| 0 <= k < self.source_map.expr_map_back.len() implies (#[trigger] self.source_map.expr_map_back@[k] matches Some(
                p,
            ) ==> p.file_id == self.file_id) by {
                if k < b0.len() {
                    assert(self.source_map.expr_map_back@[k] == b0[k]);
                }
            }
            assert forall|k: int| 0 <= k < self.source_map.expr_map.len() implies {
                let (p, e) = #[trigger] self.source_map.expr_map@[k];
                &&& e < self.source_map.expr_map_back.len()
                &&& self.source_map.expr_map_back@[e as int] == Some(p)
            } by {
                let (p, e) = self.source_map.expr_map@[k];
                assert(self.source_map.expr_map_back@[e as int] == b0[e as int]);
            }
        }
        id
    }

    fn alloc_ident(&mut self, name: Name) -> (res: IdentId)
        requires
            old(self).inv(),
        ensures
            final(self).inv(),
            final(self).same_ctx(old(self)),
            (final(self).state(), res) == push_ident(old(self).state(), name@),
            res == old(self).body.idents.len(),
            final(self).body.exprs.len() == old(self).body.exprs.len(),
            final(self).body.idents.len() == old(self).body.idents.len() + 1,
    {
        let id = self.body.idents.len();
        let ghost i0 = self.body.idents@;
        let ghost nv = name@;
        self.body.idents.push(name);
        proof {
            assert(self.body.idents@.map_values(|n: Name| n@) =~= i0.map_values(|n: Name| n@).push(nv));
        }
        id
    }
}

pub open spec fn opt_index(c: Option<usize>) -> Option<int> {
    match c {
        Some(i) => Some(i as int),
        None => None,
    }
}

pub open spec fn ids_below(ids: Seq<ExprId>, n: nat) -> bool {
    forall|k: int| 0 <= k < ids.len() ==> #[trigger] ids[k] < n
}

impl<'a, D: LowerDatabase> ExprCollector<'a, D> {
    /// Lowers `node` to an expression; a missing expression when it denotes none.
    fn collect_expr(&mut self, node: &SyntaxNode) -> (res: ExprId)
        requires
            old(self).inv(),
            calls_ok(*node),
        ensures
            final(self).inv(),
            final(self).same_ctx(old(self)),
            (final(self).state(), res) == spec_collect(old(self).db, old(self).file_id, old(self).state(), *node),
            res < final(self).body.exprs.len(),
        decreases node, 2nat, 0nat,
    {
        match self.maybe_collect_expr(node) {
            Some(id) => id,
            None => self.missing_expr(),
        }
    }

    /// Lowers child `c` of `parent`, if there is one.
    fn collect_opt(&mut self, parent: &SyntaxNode, c: Option<usize>) -> (res: Option<ExprId>)
        requires
            old(self).inv(),
            calls_ok(*parent),
            c matches Some(i) ==> i < parent.children.len(),
        ensures
            final(self).inv(),
            final(self).same_ctx(old(self)),
            (final(self).state(), res) == spec_collect_opt(old(self).db, old(self).file_id, old(self).state(), *parent, opt_index(c)),
            res matches Some(id) ==> id < final(self).body.exprs.len(),
        decreases parent, 0nat, 0nat,
    {
        match c {
            Some(i) => {
                assert(calls_ok(parent.children@[i as int].1));
                Some(self.collect_expr(&parent.children[i].1))
            },
            None => None,
        }
    }

    /// Lowers the children of `parent` that `keep` selects; with `maybe`,
    /// those that denote no expression are skipped.
    fn collect_children(&mut self, parent: &SyntaxNode, keep: Keep, maybe: bool) -> (res: Vec<ExprId>)
        requires
            old(self).inv(),
            calls_ok(*parent),
        ensures
            final(self).inv(),
            final(self).same_ctx(old(self)),
            (final(self).state(), res@) == spec_collect_children(
                old(self).db,
                old(self).file_id,
                old(self).state(),
                *parent,
                parent.children.len() as nat,
                keep_fn(keep),
                maybe,
            ),
            ids_below(res@, final(self).body.exprs.len() as nat),
        decreases parent, 0nat, 0nat,
    {
        let ghost st0 = self.state();
        let ghost db0 = self.db;
        let ghost fid0 = self.file_id;
        let ghost len0 = self.body.exprs.len();
        let ghost il0 = self.body.idents.len();
        let ghost be0 = self.body.body_expr;
        let mut ids: Vec<ExprId> = Vec::new();
        let mut i: usize = 0;
        while i < parent.children.len()
            invariant
                0 <= i <= parent.children.len(),
                self.inv(),
                calls_ok(*parent),
                self.db == db0,
                self.file_id == fid0,
                self.body.exprs.len() >= len0,
                self.body.idents.len() >= il0,
                self.body.body_expr == be0,
                (self.state(), ids@) == spec_collect_children(db0, fid0, st0, *parent, i as nat, keep_fn(keep), maybe),
                ids_below(ids@, self.body.exprs.len() as nat),
            decreases parent.children.len() - i,
        {
            let c = &parent.children[i];
            assert(calls_ok(parent.children@[i as int].1));
            if keeps(keep, c) {
                if maybe {
                    if let Some(id) = self.maybe_collect_expr(&c.1) {
                        ids.push(id);
                    }
                } else {
                    let id = self.collect_expr(&c.1);
                    ids.push(id);
                }
            }
            i = i + 1;
        }
        ids
    }

    /// Lowers the cases of the switch `parent`.
    fn cases(&mut self, parent: &SyntaxNode) -> (res: Vec<SwitchCase>)
        requires
            old(self).inv(),
            calls_ok(*parent),
        ensures
            final(self).inv(),
            final(self).same_ctx(old(self)),
            (final(self).state(), cases_view(res@)) == spec_cases(
                old(self).db,
                old(self).file_id,
                old(self).state(),
                *parent,
                parent.children.len() as nat,
            ),
            forall|j: int| 0 <= j < res.len() ==> ids_below(#[trigger] res@[j].spec_values(), final(self).body.exprs.len() as nat)
                && res@[j].spec_body() < final(self).body.exprs.len(),
        decreases parent, 0nat, 0nat,
    {
        let ghost st0 = self.state();
        let ghost db0 = self.db;
        let ghost fid0 = self.file_id;
        let ghost len0 = self.body.exprs.len();
        let ghost il0 = self.body.idents.len();
        let ghost be0 = self.body.body_expr;
        let mut cases: Vec<SwitchCase> = Vec::new();
        let mut i: usize = 0;
        while i < parent.children.len()
            invariant
                0 <= i <= parent.children.len(),
                self.inv(),
                calls_ok(*parent),
                self.db == db0,
                self.file_id == fid0,
                self.body.exprs.len() >= len0,
                self.body.idents.len() >= il0,
                self.body.body_expr == be0,
                (self.state(), cases_view(cases@)) == spec_cases(db0, fid0, st0, *parent, i as nat),
                forall|j: int| 0 <= j < cases.len() ==> ids_below(#[trigger] cases@[j].spec_values(), self.body.exprs.len() as nat)
                    && cases@[j].spec_body() < self.body.exprs.len(),
            decreases parent.children.len() - i,
        {
            let case = &parent.children[i].1;
            assert(calls_ok(parent.children@[i as int].1));
            let ghost len_before = self.body.exprs.len();
            let ghost cases_before = cases@;
            if case.kind == NodeKind::SwitchCase {
                let values = self.collect_children(case, Keep::Field(FieldName::Value), false);
                match child_index(case, FieldName::Body) {
                    Some(b) => {
                        assert(calls_ok(case.children@[b as int].1));
                        let body = self.collect_expr(&case.children[b].1);
                        let ghost c0 = cases@;
                        let sc = SwitchCase::new(values, body);
                        cases.push(sc);
                        assert(cases_view(cases@) =~= cases_view(c0).push((sc.spec_values(), sc.spec_body())));
                    },
                    None => {},
                }
            }
            proof {
                let n = self.body.exprs.len() as nat;
                assert forall|j: int| 0 <= j < cases.len() implies ids_below(#[trigger] cases@[j].spec_values(), n)
                    && cases@[j].spec_body() < n by {
                    if j < cases_before.len() {
                        assert(cases@[j] == cases_before[j]);
                        assert(ids_below(cases_before[j].spec_values(), len_before as nat));
                    }
                }
            }
            i = i + 1;
        }
        cases
    }

    /// Lowers the declarations among the children of `parent`.
    fn decls(&mut self, parent: &SyntaxNode, type_ref: &Option<TypeRef>, old_style: bool) -> (res: Vec<ExprId>)
        requires
            old(self).inv(),
            calls_ok(*parent),
        ensures
            final(self).inv(),
            final(self).same_ctx(old(self)),
            (final(self).state(), res@) == spec_decls(
                old(self).db,
                old(self).file_id,
                old(self).state(),
                *parent,
                parent.children.len() as nat,
                opt_type_ref_view(*type_ref),
                old_style,
            ),
            ids_below(res@, final(self).body.exprs.len() as nat),
        decreases parent, 0nat, 0nat,
    {
        let ghost st0 = self.state();
        let ghost db0 = self.db;
        let ghost fid0 = self.file_id;
        let ghost len0 = self.body.exprs.len();
        let ghost il0 = self.body.idents.len();
        let ghost be0 = self.body.body_expr;
        let mut ids: Vec<ExprId> = Vec::new();
        let mut i: usize = 0;
        while i < parent.children.len()
            invariant
                0 <= i <= parent.children.len(),
                self.inv(),
                calls_ok(*parent),
                self.db == db0,
                self.file_id == fid0,
                self.body.exprs.len() >= len0,
                self.body.idents.len() >= il0,
                self.body.body_expr == be0,
                (self.state(), ids@) == spec_decls(db0, fid0, st0, *parent, i as nat, opt_type_ref_view(*type_ref), old_style),
                ids_below(ids@, self.body.exprs.len() as nat),
            decreases parent.children.len() - i,
        {
            let c = &parent.children[i].1;
            assert(calls_ok(parent.children@[i as int].1));
            let selected = if old_style {
                c.kind == NodeKind::OldVariableDeclaration
            } else {
                c.kind == NodeKind::VariableDeclaration || c.kind == NodeKind::DynamicArrayDeclaration
            };
            if selected {
                let t = if old_style {
                    TypeRef::from_returntype_node(c, FieldName::Type)
                } else {
                    match type_ref {
                        Some(t) => Some(t.clone()),
                        None => None,
                    }
                };
                match child_index(c, FieldName::Name) {
                    Some(nm) => {
                        let ident = self.alloc_ident(Name(c.children[nm].1.text.clone()));
                        let init = self.collect_opt(c, child_index(c, FieldName::InitialValue));
                        let b = self.alloc_expr(Expr::Binding { ident_id: ident, type_ref: t, initializer: init }, NodePtr::from_node(c));
                        ids.push(b);
                    },
                    None => {},
                }
            }
            i = i + 1;
        }
        ids
    }

    /// Lowers a declaration statement: its declarations, then the statement.
    fn decl_statement(&mut self, node: &SyntaxNode, old_style: bool) -> (res: ExprId)
        requires
            old(self).inv(),
            calls_ok(*node),
        ensures
            final(self).inv(),
            final(self).same_ctx(old(self)),
            (final(self).state(), res) == spec_decl_statement(old(self).db, old(self).file_id, old(self).state(), *node, old_style),
            res < final(self).body.exprs.len(),
        decreases node, 0nat, 1nat,
    {
        let type_ref = TypeRef::from_returntype_node(node, FieldName::Type);
        let decls = self.decls(node, &type_ref, old_style);
        self.alloc_expr(Expr::Decl(decls), NodePtr::from_node(node))
    }
}

impl<'a, D: LowerDatabase> ExprCollector<'a, D> {
    /// `self` is what lowering `node` from `prev` gave, with result `res`.
    pub open spec fn lowered(&self, prev: &Self, node: SyntaxNode, res: Option<ExprId>) -> bool {
        &&& self.inv()
        &&& self.same_ctx(prev)
        &&& (self.state(), res) == spec_maybe(prev.db, prev.file_id, prev.state(), node)
        &&& res matches Some(id) ==> id < self.body.exprs.len()
    }

    /// Lowers `node` to an expression, if it denotes one.
    fn maybe_collect_expr(&mut self, node: &SyntaxNode) -> (res: Option<ExprId>)
        requires
            old(self).inv(),
            calls_ok(*node),
        ensures
            final(self).lowered(old(self), *node, res),
        decreases node, 1nat, 0nat,
    {
        match node.kind {
            NodeKind::NamedArg => self.lower_named_arg(node),
            NodeKind::Block => self.lower_block(node),
            NodeKind::VariableDeclarationStatement => Some(self.decl_statement(node, false)),
            NodeKind::OldVariableDeclarationStatement | NodeKind::OldForLoopVariableDeclarationStatement => Some(
                self.decl_statement(node, true),
            ),
            NodeKind::ForStatement => self.lower_for(node),
            NodeKind::WhileStatement | NodeKind::DoWhileStatement => self.lower_while(node),
            NodeKind::BreakStatement | NodeKind::ContinueStatement => self.lower_jump(node),
            NodeKind::ConditionStatement => self.lower_condition(node),
            NodeKind::SwitchStatement => self.lower_switch(node),
            NodeKind::ReturnStatement | NodeKind::DeleteStatement => self.lower_control(node),
            NodeKind::ExpressionStatement => {
                if node.children.len() > 0 {
                    assert(calls_ok(node.children@[0].1));
                    Some(self.collect_expr(&node.children[0].1))
                } else {
                    None
                }
            },
            NodeKind::AssignmentExpression | NodeKind::BinaryExpression | NodeKind::PreprocBinaryExpression => self.lower_binary(
                node,
            ),
            NodeKind::CallExpression => self.lower_call(node),
            NodeKind::ArrayIndexedAccess => self.lower_index(node),
            NodeKind::TernaryExpression => self.lower_ternary(node),
            NodeKind::FieldAccess | NodeKind::ArrayScopeAccess | NodeKind::ScopeAccess => self.lower_access(node),
            NodeKind::UnaryExpression | NodeKind::UpdateExpression | NodeKind::PreprocUnaryExpression => self.lower_unary(node),
            NodeKind::SizeofExpression => self.lower_sizeof(node),
            NodeKind::ViewAs | NodeKind::OldTypeCast => self.lower_view_as(node),
            NodeKind::Identifier | NodeKind::This | NodeKind::IntLiteral | NodeKind::FloatLiteral | NodeKind::CharLiteral
            | NodeKind::StringLiteral | NodeKind::BoolLiteral | NodeKind::Null => self.lower_leaf(node),
            NodeKind::ParenthesizedExpression | NodeKind::PreprocParenthesizedExpression => {
                let e = match child_index(node, FieldName::Expression) {
                    Some(e) => e,
                    None => return None,
                };
                assert(calls_ok(node.children@[e as int].1));
                self.maybe_collect_expr(&node.children[e].1)
            },
            NodeKind::NewExpression => self.lower_new(node),
            NodeKind::DynamicArray => self.lower_dynamic_array(node),
            NodeKind::ArrayLiteral | NodeKind::CommaExpression => self.lower_list(node),
            _ => None,
        }
    }

    fn lower_named_arg(&mut self, node: &SyntaxNode) -> (res: Option<ExprId>)
        requires
            old(self).inv(),
            calls_ok(*node),
            node.kind == NodeKind::NamedArg,
        ensures
            final(self).lowered(old(self), *node, res),
        decreases node, 0nat, 1nat,
    {
        let a = match child_index(node, FieldName::ArgName) {
            Some(a) => a,
            None => return None,
        };
        let v = match child_index(node, FieldName::Value) {
            Some(v) => v,
            None => return None,
        };
        assert(calls_ok(node.children@[a as int].1));
        assert(calls_ok(node.children@[v as int].1));
        let name = self.collect_expr(&node.children[a].1);
        let value = self.collect_expr(&node.children[v].1);
        Some(self.alloc_expr(Expr::NamedArg { name, value }, NodePtr::from_node(node)))
    }

    fn lower_block(&mut self, node: &SyntaxNode) -> (res: Option<ExprId>)
        requires
            old(self).inv(),
            calls_ok(*node),
            node.kind == NodeKind::Block,
        ensures
            final(self).lowered(old(self), *node, res),
        decreases node, 0nat, 1nat,
    {
        let ptr = NodePtr::from_node(node);
        let ast_id = self.db.ast_id_of(self.file_id, ptr);
        let block_id = self.db.intern_block(BlockLoc { ast_id, file_id: self.file_id });
        let statements = self.collect_children(node, Keep::Statement, false);
        Some(self.alloc_expr(Expr::Block { id: Some(block_id), statements }, ptr))
    }

    fn lower_for(&mut self, node: &SyntaxNode) -> (res: Option<ExprId>)
        requires
            old(self).inv(),
            calls_ok(*node),
            node.kind == NodeKind::ForStatement,
        ensures
            final(self).lowered(old(self), *node, res),
        decreases node, 0nat, 1nat,
    {
        let initialization = self.collect_children(node, Keep::Field(FieldName::Initialization), false);
        let condition = self.collect_opt(node, child_index(node, FieldName::Condition));
        let iteration = match child_index(node, FieldName::Iteration) {
            Some(i) => {
                assert(calls_ok(node.children@[i as int].1));
                self.maybe_collect_expr(&node.children[i].1)
            },
            None => None,
        };
        let body = self.collect_opt(node, child_index(node, FieldName::Body));
        Some(self.alloc_expr(Expr::Loop { initialization, condition, iteration, body }, NodePtr::from_node(node)))
    }

    fn lower_while(&mut self, node: &SyntaxNode) -> (res: Option<ExprId>)
        requires
            old(self).inv(),
            calls_ok(*node),
            node.kind == NodeKind::WhileStatement || node.kind == NodeKind::DoWhileStatement,
        ensures
            final(self).lowered(old(self), *node, res),
        decreases node, 0nat, 1nat,
    {
        let condition = self.collect_opt(node, child_index(node, FieldName::Condition));
        let body = self.collect_opt(node, child_index(node, FieldName::Body));
        let initialization: Vec<ExprId> = Vec::new();
        assert(initialization@ =~= Seq::<ExprId>::empty());
        Some(self.alloc_expr(Expr::Loop { initialization, condition, iteration: None, body }, NodePtr::from_node(node)))
    }

    fn lower_jump(&mut self, node: &SyntaxNode) -> (res: Option<ExprId>)
        requires
            old(self).inv(),
            node.kind == NodeKind::BreakStatement || node.kind == NodeKind::ContinueStatement,
        ensures
            final(self).lowered(old(self), *node, res),
    {
        let keyword = if node.kind == NodeKind::BreakStatement {
            NodeKind::AnonBreak
        } else {
            NodeKind::AnonContinue
        };
        Some(self.alloc_expr(Expr::Control { keyword, operand: None }, NodePtr::from_node(node)))
    }

    fn lower_condition(&mut self, node: &SyntaxNode) -> (res: Option<ExprId>)
        requires
            old(self).inv(),
            calls_ok(*node),
            node.kind == NodeKind::ConditionStatement,
        ensures
            final(self).lowered(old(self), *node, res),
        decreases node, 0nat, 1nat,
    {
        let c = match child_index(node, FieldName::Condition) {
            Some(c) => c,
            None => return None,
        };
        let t = match child_index(node, FieldName::TruePath) {
            Some(t) => t,
            None => return None,
        };
        assert(calls_ok(node.children@[c as int].1));
        assert(calls_ok(node.children@[t as int].1));
        let else_branch = self.collect_opt(node, child_index(node, FieldName::FalsePath));
        let condition = self.collect_expr(&node.children[c].1);
        let then_branch = self.collect_expr(&node.children[t].1);
        Some(self.alloc_expr(Expr::Condition { condition, then_branch, else_branch }, NodePtr::from_node(node)))
    }

    fn lower_switch(&mut self, node: &SyntaxNode) -> (res: Option<ExprId>)
        requires
            old(self).inv(),
            calls_ok(*node),
            node.kind == NodeKind::SwitchStatement,
        ensures
            final(self).lowered(old(self), *node, res),
        decreases node, 0nat, 1nat,
    {
        let c = match child_index(node, FieldName::Condition) {
            Some(c) => c,
            None => return None,
        };
        assert(calls_ok(node.children@[c as int].1));
        let cases = self.cases(node);
        let ghost n1 = self.body.exprs.len();
        let condition = self.collect_expr(&node.children[c].1);
        proof {
            let n = self.body.exprs.len();
            assert forall|j: int| 0 <= j < cases.len() implies ids_below(#[trigger] cases@[j].spec_values(), n as nat)
                && cases@[j].spec_body() < n by {
                assert(ids_below(cases@[j].spec_values(), n1 as nat));
            }
            assert forall|k: int| 0 <= k < crate::hir::cases_children(cases@).len() implies #[trigger] crate::hir::cases_children(
                cases@,
            )[k] < n by {
                lemma_cases_children_below(cases@, n as nat, k);
            }
        }
        Some(self.alloc_expr(Expr::Switch { condition, cases }, NodePtr::from_node(node)))
    }

    fn lower_control(&mut self, node: &SyntaxNode) -> (res: Option<ExprId>)
        requires
            old(self).inv(),
            calls_ok(*node),
            node.kind == NodeKind::ReturnStatement || node.kind == NodeKind::DeleteStatement,
        ensures
            final(self).lowered(old(self), *node, res),
        decreases node, 0nat, 1nat,
    {
        let field = if node.kind == NodeKind::ReturnStatement {
            FieldName::Expression
        } else {
            FieldName::Free
        };
        let e = match child_index(node, field) {
            Some(e) => e,
            None => return None,
        };
        let child = &node.children[e].1;
        assert(calls_ok(node.children@[e as int].1));
        let operand = self.maybe_collect_expr(child);
        let keyword = if node.kind == NodeKind::ReturnStatement {
            NodeKind::AnonReturn
        } else {
            NodeKind::AnonDelete
        };
        Some(self.alloc_expr(Expr::Control { keyword, operand }, NodePtr::from_node(child)))
    }

    fn lower_binary(&mut self, node: &SyntaxNode) -> (res: Option<ExprId>)
        requires
            old(self).inv(),
            calls_ok(*node),
            node.kind == NodeKind::AssignmentExpression || node.kind == NodeKind::BinaryExpression || node.kind
                == NodeKind::PreprocBinaryExpression,
        ensures
            final(self).lowered(old(self), *node, res),
        decreases node, 0nat, 1nat,
    {
        let l = match child_index(node, FieldName::Left) {
            Some(l) => l,
            None => return None,
        };
        assert(calls_ok(node.children@[l as int].1));
        let lhs = self.collect_expr(&node.children[l].1);
        let r = match child_index(node, FieldName::Right) {
            Some(r) => r,
            None => return None,
        };
        assert(calls_ok(node.children@[r as int].1));
        let rhs = self.collect_expr(&node.children[r].1);
        let op = match child_index(node, FieldName::Operator) {
            Some(o) => Some(node.children[o].1.kind),
            None => None,
        };
        Some(self.alloc_expr(Expr::BinaryOp { lhs, rhs, op }, NodePtr::from_node(node)))
    }

    fn lower_call(&mut self, node: &SyntaxNode) -> (res: Option<ExprId>)
        requires
            old(self).inv(),
            calls_ok(*node),
            node.kind == NodeKind::CallExpression,
        ensures
            final(self).lowered(old(self), *node, res),
        decreases node, 0nat, 1nat,
    {
        let f = match child_index(node, FieldName::Function) {
            Some(f) => f,
            None => return None,
        };
        let a = match child_index(node, FieldName::Arguments) {
            Some(a) => a,
            None => return None,
        };
        let function = &node.children[f].1;
        let arguments = &node.children[a].1;
        assert(calls_ok(node.children@[f as int].1));
        assert(calls_ok(node.children@[a as int].1));
        if function.kind == NodeKind::Identifier {
            let callee = self.collect_expr(function);
            let args = self.collect_children(arguments, Keep::All, true);
            Some(self.alloc_expr(Expr::Call { callee, args }, NodePtr::from_node(node)))
        } else {
            let t = match child_index(function, FieldName::Target) {
                Some(t) => t,
                None => return None,
            };
            let m = match child_index(function, FieldName::Field) {
                Some(m) => m,
                None => return None,
            };
            assert(calls_ok(function.children@[t as int].1));
            let args = self.collect_children(arguments, Keep::All, true);
            let target = self.collect_expr(&function.children[t].1);
            let method = &function.children[m].1;
            Some(
                self.alloc_expr(
                    Expr::MethodCall { target, method_name: Name(method.text.clone()), args },
                    NodePtr::from_node(method),
                ),
            )
        }
    }

    fn lower_index(&mut self, node: &SyntaxNode) -> (res: Option<ExprId>)
        requires
            old(self).inv(),
            calls_ok(*node),
            node.kind == NodeKind::ArrayIndexedAccess,
        ensures
            final(self).lowered(old(self), *node, res),
        decreases node, 0nat, 1nat,
    {
        let a = match child_index(node, FieldName::Array) {
            Some(a) => a,
            None => return None,
        };
        let i = match child_index(node, FieldName::Index) {
            Some(i) => i,
            None => return None,
        };
        assert(calls_ok(node.children@[a as int].1));
        assert(calls_ok(node.children@[i as int].1));
        let array = self.collect_expr(&node.children[a].1);
        let index = self.collect_expr(&node.children[i].1);
        Some(self.alloc_expr(Expr::ArrayIndexedAccess { array, index }, NodePtr::from_node(node)))
    }

    fn lower_ternary(&mut self, node: &SyntaxNode) -> (res: Option<ExprId>)
        requires
            old(self).inv(),
            calls_ok(*node),
            node.kind == NodeKind::TernaryExpression,
        ensures
            final(self).lowered(old(self), *node, res),
        decreases node, 0nat, 1nat,
    {
        let c = match child_index(node, FieldName::Condition) {
            Some(c) => c,
            None => return None,
        };
        assert(calls_ok(node.children@[c as int].1));
        let condition = self.collect_expr(&node.children[c].1);
        let t = match child_index(node, FieldName::Consequence) {
            Some(t) => t,
            None => return None,
        };
        assert(calls_ok(node.children@[t as int].1));
        let then_branch = self.collect_expr(&node.children[t].1);
        let e = match child_index(node, FieldName::Alternative) {
            Some(e) => e,
            None => return None,
        };
        assert(calls_ok(node.children@[e as int].1));
        let else_branch = self.collect_expr(&node.children[e].1);
        Some(self.alloc_expr(Expr::TernaryOp { condition, then_branch, else_branch }, NodePtr::from_node(node)))
    }

    fn lower_access(&mut self, node: &SyntaxNode) -> (res: Option<ExprId>)
        requires
            old(self).inv(),
            calls_ok(*node),
            node.kind == NodeKind::FieldAccess || node.kind == NodeKind::ArrayScopeAccess || node.kind == NodeKind::ScopeAccess,
        ensures
            final(self).lowered(old(self), *node, res),
        decreases node, 0nat, 1nat,
    {
        let f = match child_index(node, FieldName::Field) {
            Some(f) => f,
            None => return None,
        };
        let target_field = if node.kind == NodeKind::FieldAccess {
            FieldName::Target
        } else {
            FieldName::Scope
        };
        let t = match child_index(node, target_field) {
            Some(t) => t,
            None => return None,
        };
        assert(calls_ok(node.children@[t as int].1));
        let target = self.collect_expr(&node.children[t].1);
        let field = &node.children[f].1;
        let e = if node.kind == NodeKind::FieldAccess {
            Expr::FieldAccess { target, name: Name(field.text.clone()) }
        } else {
            Expr::ScopeAccess { scope: target, field: Name(field.text.clone()) }
        };
        Some(self.alloc_expr(e, NodePtr::from_node(field)))
    }

    fn lower_unary(&mut self, node: &SyntaxNode) -> (res: Option<ExprId>)
        requires
            old(self).inv(),
            calls_ok(*node),
            node.kind == NodeKind::UnaryExpression || node.kind == NodeKind::UpdateExpression || node.kind
                == NodeKind::PreprocUnaryExpression,
        ensures
            final(self).lowered(old(self), *node, res),
        decreases node, 0nat, 1nat,
    {
        let a = match child_index(node, FieldName::Argument) {
            Some(a) => a,
            None => return None,
        };
        let argument = &node.children[a].1;
        assert(calls_ok(node.children@[a as int].1));
        let op = match child_index(argument, FieldName::Operator) {
            Some(o) => Some(argument.children[o].1.kind),
            None => None,
        };
        let operand = self.collect_expr(argument);
        Some(self.alloc_expr(Expr::UnaryOp { operand, op }, NodePtr::from_node(argument)))
    }

    fn lower_sizeof(&mut self, node: &SyntaxNode) -> (res: Option<ExprId>)
        requires
            old(self).inv(),
            calls_ok(*node),
            node.kind == NodeKind::SizeofExpression,
        ensures
            final(self).lowered(old(self), *node, res),
        decreases node, 0nat, 1nat,
    {
        let t = match child_index(node, FieldName::Type) {
            Some(t) => t,
            None => return None,
        };
        assert(calls_ok(node.children@[t as int].1));
        let operand = self.collect_expr(&node.children[t].1);
        Some(self.alloc_expr(Expr::UnaryOp { operand, op: Some(NodeKind::SizeofExpression) }, NodePtr::from_node(node)))
    }

    fn lower_view_as(&mut self, node: &SyntaxNode) -> (res: Option<ExprId>)
        requires
            old(self).inv(),
            calls_ok(*node),
            node.kind == NodeKind::ViewAs || node.kind == NodeKind::OldTypeCast,
        ensures
            final(self).lowered(old(self), *node, res),
        decreases node, 0nat, 1nat,
    {
        let v = match child_index(node, FieldName::Value) {
            Some(v) => v,
            None => return None,
        };
        let type_ref = match TypeRef::from_returntype_node(node, FieldName::Type) {
            Some(t) => t,
            None => return None,
        };
        assert(calls_ok(node.children@[v as int].1));
        let operand = self.collect_expr(&node.children[v].1);
        Some(self.alloc_expr(Expr::ViewAs { operand, type_ref }, NodePtr::from_node(node)))
    }

    /// Lowers an identifier, `this` or a literal other than an array.
    fn lower_leaf(&mut self, node: &SyntaxNode) -> (res: Option<ExprId>)
        requires
            old(self).inv(),
            node.kind == NodeKind::Identifier || node.kind == NodeKind::This || node.kind == NodeKind::IntLiteral || node.kind
                == NodeKind::FloatLiteral || node.kind == NodeKind::CharLiteral || node.kind == NodeKind::StringLiteral
                || node.kind == NodeKind::BoolLiteral || node.kind == NodeKind::Null,
        ensures
            final(self).lowered(old(self), *node, res),
    {
        let ptr = NodePtr::from_node(node);
        let e = match node.kind {
            NodeKind::Identifier => Expr::Ident(Name(node.text.clone())),
            NodeKind::This => Expr::This,
            NodeKind::IntLiteral => {
                let value = match crate::pattern::parse_i64(node.text.as_str()) {
                    Some(v) => v,
                    None => 0,
                };
                Expr::Literal(Literal::Int(value))
            },
            NodeKind::FloatLiteral => Expr::Literal(Literal::Float(FloatTypeWrapper(self.db.float_bits(node.text.as_str())))),
            NodeKind::CharLiteral => {
                let c = if node.text.as_str().unicode_len() > 1 {
                    node.text.as_str().get_char(1)
                } else {
                    '\0'
                };
                Expr::Literal(Literal::Char(c))
            },
            NodeKind::StringLiteral => Expr::Literal(Literal::String(node.text.clone())),
            NodeKind::BoolLiteral => {
                proof {
                    reveal_strlit("true");
                    reveal_strlit("false");
                }
                if crate::base_db::str_eq(node.text.as_str(), "true") {
                    Expr::Literal(Literal::Bool(true))
                } else if crate::base_db::str_eq(node.text.as_str(), "false") {
                    Expr::Literal(Literal::Bool(false))
                } else {
                    return None;
                }
            },
            _ => Expr::Literal(Literal::Null),
        };
        Some(self.alloc_expr(e, ptr))
    }

    fn lower_new(&mut self, node: &SyntaxNode) -> (res: Option<ExprId>)
        requires
            old(self).inv(),
            calls_ok(*node),
            node.kind == NodeKind::NewExpression,
        ensures
            final(self).lowered(old(self), *node, res),
        decreases node, 0nat, 1nat,
    {
        let c = match child_index(node, FieldName::Class) {
            Some(c) => c,
            None => return None,
        };
        let a = match child_index(node, FieldName::Arguments) {
            Some(a) => a,
            None => return None,
        };
        assert(calls_ok(node.children@[a as int].1));
        let args = self.collect_children(&node.children[a].1, Keep::All, true);
        let class = &node.children[c].1;
        Some(self.alloc_expr(Expr::New { name: Name(class.text.clone()), args }, NodePtr::from_node(class)))
    }

    fn lower_dynamic_array(&mut self, node: &SyntaxNode) -> (res: Option<ExprId>)
        requires
            old(self).inv(),
            calls_ok(*node),
            node.kind == NodeKind::DynamicArray,
        ensures
            final(self).lowered(old(self), *node, res),
        decreases node, 0nat, 1nat,
    {
        let t = match child_index(node, FieldName::Type) {
            Some(t) => t,
            None => return None,
        };
        assert(calls_ok(node.children@[t as int].1));
        let identifier = match self.maybe_collect_expr(&node.children[t].1) {
            Some(i) => i,
            None => return None,
        };
        Some(self.alloc_expr(Expr::DynamicArray { identifier }, NodePtr::from_node(node)))
    }

    /// Lowers an array literal or a comma expression.
    fn lower_list(&mut self, node: &SyntaxNode) -> (res: Option<ExprId>)
        requires
            old(self).inv(),
            calls_ok(*node),
            node.kind == NodeKind::ArrayLiteral || node.kind == NodeKind::CommaExpression,
        ensures
            final(self).lowered(old(self), *node, res),
        decreases node, 0nat, 1nat,
    {
        if node.kind == NodeKind::ArrayLiteral {
            let elements = self.collect_children(node, Keep::All, true);
            Some(self.alloc_expr(Expr::Literal(Literal::Array(elements)), NodePtr::from_node(node)))
        } else {
            let exprs = self.collect_children(node, Keep::All, false);
            Some(self.alloc_expr(Expr::CommaExpr(exprs), NodePtr::from_node(node)))
        }
    }
}

proof fn lemma_cases_children_below(cases: Seq<SwitchCase>, n: nat, k: int)
    requires
        forall|j: int| 0 <= j < cases.len() ==> ids_below(#[trigger] cases[j].spec_values(), n) && cases[j].spec_body() < n,
        0 <= k < crate::hir::cases_children(cases).len(),
    ensures
        crate::hir::cases_children(cases)[k] < n,
    decreases cases.len(),
{
    let rest = cases.drop_last();
    let pre = crate::hir::cases_children(rest);
    let last = cases.last();
    assert(cases[cases.len() - 1] == last);
    assert(ids_below(last.spec_values(), n));
    if k < pre.len() {
        assert forall|j: int| 0 <= j < rest.len() implies ids_below(#[trigger] rest[j].spec_values(), n) && rest[j].spec_body() < n by {
            assert(rest[j] == cases[j]);
        }
        lemma_cases_children_below(rest, n, k);
    } else if k < pre.len() + last.spec_values().len() {
        assert(crate::hir::cases_children(cases)[k] == last.spec_values()[k - pre.len()]);
    }
}


/// The arena before anything is lowered.
pub open spec fn empty_state() -> LowerState {
    LowerState { exprs: seq![], back: seq![], map: seq![], idents: seq![], params: seq![] }
}

/// Lowers the parameter declaration `node`: a named one allocates its
/// identifier, lowers its default value and becomes a parameter binding.
pub open spec fn spec_param<D: LowerDatabase>(db: &D, fid: FileId, st: LowerState, node: SyntaxNode) -> LowerState {
    match child_ix(node, FieldName::Name) {
        Some(nm) => {
            let (st1, ident) = push_ident(st, node.children@[nm].1.text@);
            let (st2, init) = spec_collect_opt(db, fid, st1, node, child_ix(node, FieldName::InitialValue));
            let (st3, b) = push_expr(
                st2,
                ExprView::Binding { ident_id: ident, type_ref: spec_returntype(node, FieldName::Type), initializer: init },
                ptr_of(node),
            );
            LowerState { params: st3.params.push((ident, b)), ..st3 }
        },
        None => st,
    }
}

/// Lowers the parameter declarations among the first `n` children of `parent`.
pub open spec fn spec_params<D: LowerDatabase>(db: &D, fid: FileId, st: LowerState, parent: SyntaxNode, n: nat) -> LowerState
    decreases n,
{
    if n == 0 || n > parent.children.len() {
        st
    } else {
        let st1 = spec_params(db, fid, st, parent, (n - 1) as nat);
        if parent.children@[n - 1].1.kind == NodeKind::ParameterDeclaration {
            spec_param(db, fid, st1, parent.children@[n - 1].1)
        } else {
            st1
        }
    }
}

/// Lowers a parameter list, then a body: the arenas, and the body's expression.
pub open spec fn spec_collect_body<D: LowerDatabase>(
    db: &D,
    fid: FileId,
    st: LowerState,
    params_list: Option<SyntaxNode>,
    body: Option<SyntaxNode>,
) -> (LowerState, Option<ExprId>) {
    let st1 = match params_list {
        Some(p) => if p.kind == NodeKind::ParameterDeclarations {
            spec_params(db, fid, st, p, p.children.len() as nat)
        } else {
            spec_param(db, fid, st, p)
        },
        None => st,
    };
    match body {
        Some(b) => push_some(spec_collect(db, fid, st1, b)),
        None => (st1, None),
    }
}

/// Lowers a parameter list and a body of the file `fid` into fresh arenas.
pub open spec fn spec_lower<D: LowerDatabase>(db: &D, fid: FileId, params_list: Option<SyntaxNode>, body: Option<SyntaxNode>) -> (
    LowerState,
    Option<ExprId>,
) {
    spec_collect_body(db, fid, empty_state(), params_list, body)
}

pub open spec fn opt_node(n: Option<&SyntaxNode>) -> Option<SyntaxNode> {
    match n {
        Some(x) => Some(*x),
        None => None,
    }
}

/// A parameter list that lowering accepts: a list of declarations or one declaration.
pub open spec fn params_list_ok(p: Option<SyntaxNode>) -> bool {
    p matches Some(n) ==> (n.kind == NodeKind::ParameterDeclarations || n.kind == NodeKind::ParameterDeclaration) && calls_ok(n)
}

impl<'a, D: LowerDatabase> ExprCollector<'a, D> {
    /// Lowers the parameter declaration `node`.
    fn collect_parameter_declaration(&mut self, node: &SyntaxNode)
        requires
            old(self).inv(),
            calls_ok(*node),
        ensures
            final(self).inv(),
            final(self).same_ctx(old(self)),
            final(self).state() == spec_param(old(self).db, old(self).file_id, old(self).state(), *node),
    {
        match child_index(node, FieldName::Name) {
            Some(nm) => {
                let ident_id = self.alloc_ident(Name(node.children[nm].1.text.clone()));
                let type_ref = TypeRef::from_returntype_node(node, FieldName::Type);
                let initializer = self.collect_opt(node, child_index(node, FieldName::InitialValue));
                let decl_id = self.alloc_expr(Expr::Binding { ident_id, type_ref, initializer }, NodePtr::from_node(node));
                let ghost p0 = self.body.params@;
                self.body.params.push((ident_id, decl_id));
                proof {
                    assert(self.body.exprs@[decl_id as int] matches Expr::Binding { ident_id: i, .. } && i == ident_id);
                    assert forall|p: int| 0 <= p < self.body.params.len() implies {
                        let (ident, expr) = #[trigger] self.body.params@[p];
                        &&& ident < self.body.idents.len()
                        &&& expr < self.body.exprs.len()
                        &&& self.body.exprs@[expr as int] matches Expr::Binding { ident_id, .. } && ident_id == ident
                    } by {
                        if p < p0.len() {
                            assert(self.body.params@[p] == p0[p]);
                        }
                    }
                }
            },
            None => {},
        }
    }

    /// Lowers the parameter list and the body, and hands out the arenas.
    fn collect(self, params_list: Option<&SyntaxNode>, body: Option<&SyntaxNode>) -> (res: (Body, BodySourceMap))
        requires
            self.inv(),
            self.body.body_expr is None,
            params_list_ok(opt_node(params_list)),
            body matches Some(b) ==> calls_ok(*b),
        ensures
            res.0.wf(),
            res.1.expr_map_back.len() == res.0.exprs.len(),
            sources_in(&res.1, self.file_id),
            source_map_consistent(&res.1),
            (arena_state(&res.0, &res.1), res.0.body_expr) == spec_collect_body(
                self.db,
                self.file_id,
                self.state(),
                opt_node(params_list),
                opt_node(body),
            ),
    {
        let mut this = self;
        match params_list {
            Some(p) => {
                if p.kind == NodeKind::ParameterDeclarations {
                    let ghost st0 = this.state();
                    let ghost db0 = this.db;
                    let ghost fid0 = this.file_id;
                    let ghost len0 = this.body.exprs.len();
                    let ghost il0 = this.body.idents.len();
                    let ghost be0 = this.body.body_expr;
                    let mut i: usize = 0;
                    while i < p.children.len()
                        invariant
                            0 <= i <= p.children.len(),
                            this.inv(),
                            calls_ok(*p),
                            this.db == db0,
                            this.file_id == fid0,
                            this.body.exprs.len() >= len0,
                            this.body.idents.len() >= il0,
                            this.body.body_expr == be0,
                            this.state() == spec_params(db0, fid0, st0, *p, i as nat),
                        decreases p.children.len() - i,
                    {
                        let c = &p.children[i].1;
                        assert(calls_ok(p.children@[i as int].1));
                        if c.kind == NodeKind::ParameterDeclaration {
                            this.collect_parameter_declaration(c);
                        }
                        i = i + 1;
                    }
                } else {
                    this.collect_parameter_declaration(p);
                }
            },
            None => {},
        }
        match body {
            Some(b) => {
                let e = this.collect_expr(b);
                this.body.body_expr = Some(e);
            },
            None => {},
        }
        (this.body, this.source_map)
    }
}

/// Every node that `source_map` records is in the file `file_id`.
pub open spec fn sources_in(source_map: &BodySourceMap, file_id: FileId) -> bool {
    &&& forall|k: int| 0 <= k < source_map.expr_map.len() ==> (#[trigger] source_map.expr_map@[k]).0.file_id == file_id
    &&& forall|k: int| 0 <= k < source_map.expr_map_back.len() ==> (#[trigger] source_map.expr_map_back@[k] matches Some(p)
        ==> p.file_id == file_id)
}

/// Lowers the parameter list `params_list` and the body `body` of the file
/// `file_id` to a body and its source map.
pub fn lower<D: LowerDatabase>(db: &D, params_list: Option<&SyntaxNode>, file_id: FileId, body: Option<&SyntaxNode>) -> (res: (
    Body,
    BodySourceMap,
))
    requires
        params_list_ok(opt_node(params_list)),
        body matches Some(b) ==> calls_ok(*b),
    ensures
        res.0.wf(),
        res.1.expr_map_back.len() == res.0.exprs.len(),
        sources_in(&res.1, file_id),
        source_map_consistent(&res.1),
        (arena_state(&res.0, &res.1), res.0.body_expr) == spec_lower(db, file_id, opt_node(params_list), opt_node(body)),
{
    let collector = ExprCollector {
        db,
        file_id,
        body: Body { exprs: Vec::new(), body_expr: None, idents: Vec::new(), params: Vec::new(), block_scopes: Vec::new() },
        source_map: BodySourceMap { expr_map: Vec::new(), expr_map_back: Vec::new() },
    };
    proof {
        let st = collector.state();
        assert(st.exprs =~= empty_state().exprs);
        assert(st.back =~= empty_state().back);
        assert(st.map =~= empty_state().map);
        assert(st.idents =~= empty_state().idents);
        assert(st.params =~= empty_state().params);
    }
    collector.collect(params_list, body)
}


/// Index of the first child, from `start` on, of kind `kind`.
pub open spec fn kind_index_from(children: Seq<(Option<FieldName>, SyntaxNode)>, kind: NodeKind, start: int) -> Option<int>
    decreases children.len() - start,
{
    if start < 0 || start >= children.len() {
        None
    } else if children[start].1.kind == kind {
        Some(start)
    } else {
        kind_index_from(children, kind, start + 1)
    }
}

/// The first child of `node` of kind `kind`.
pub open spec fn child_of_kind_spec(node: SyntaxNode, kind: NodeKind) -> Option<SyntaxNode> {
    match kind_index_from(node.children@, kind, 0) {
        Some(i) => if 0 <= i < node.children.len() {
            Some(node.children@[i].1)
        } else {
            None
        },
        None => None,
    }
}

/// The child of `node` that fills `field`.
pub open spec fn child_node_spec(node: SyntaxNode, field: FieldName) -> Option<SyntaxNode> {
    match child_ix(node, field) {
        Some(i) => Some(node.children@[i].1),
        None => None,
    }
}

/// The parameter list of the def `def` whose node is `node`: for a property,
/// the parameter of its setter; for another function, its parameter
/// declarations; for a typedef or a functag, the parameters of its type.
pub open spec fn params_node(def: DefWithBodyId, node: SyntaxNode) -> Option<SyntaxNode> {
    match def {
        DefWithBodyId::FunctionId(_) => if node.kind == NodeKind::MethodmapPropertyNative || node.kind
            == NodeKind::MethodmapPropertyMethod {
            match child_of_kind_spec(node, NodeKind::MethodmapPropertySetter) {
                Some(setter) => child_node_spec(setter, FieldName::Parameter),
                None => None,
            }
        } else {
            child_of_kind_spec(node, NodeKind::ParameterDeclarations)
        },
        DefWithBodyId::TypedefId(_) => if node.kind == NodeKind::Typedef {
            match child_of_kind_spec(node, NodeKind::TypedefExpression) {
                Some(e) => child_node_spec(e, FieldName::Parameters),
                None => None,
            }
        } else if node.kind == NodeKind::TypedefExpression {
            child_node_spec(node, FieldName::Parameters)
        } else {
            None
        },
        DefWithBodyId::FunctagId(_) => child_node_spec(node, FieldName::Parameters),
    }
}

/// The body of the def `def` whose node is `node`: only a function has one.
pub open spec fn body_node(def: DefWithBodyId, node: SyntaxNode) -> Option<SyntaxNode> {
    match def {
        DefWithBodyId::FunctionId(_) => child_node_spec(node, FieldName::Body),
        _ => None,
    }
}

pub(crate) fn child_of_kind(node: &SyntaxNode, kind: NodeKind) -> (res: Option<&SyntaxNode>)
    ensures
        opt_node(res) == child_of_kind_spec(*node, kind),
{
    let mut i: usize = 0;
    while i < node.children.len()
        invariant
            0 <= i <= node.children.len(),
            kind_index_from(node.children@, kind, 0) == kind_index_from(node.children@, kind, i as int),
        decreases node.children.len() - i,
    {
        if node.children[i].1.kind == kind {
            return Some(&node.children[i].1);
        }
        i = i + 1;
    }
    None
}

pub(crate) fn child_node(node: &SyntaxNode, field: FieldName) -> (res: Option<&SyntaxNode>)
    ensures
        opt_node(res) == child_node_spec(*node, field),
{
    match child_index(node, field) {
        Some(i) => Some(&node.children[i].1),
        None => None,
    }
}

/// The source of a def with a body, as the database gives it.
pub trait BodySourceDatabase: LowerDatabase {
    spec fn spec_body_source(&self, def: DefWithBodyId) -> InFile<SyntaxNode>;

    fn body_source(&self, def: DefWithBodyId) -> (res: (FileId, &SyntaxNode))
        ensures
            res.0 == self.spec_body_source(def).file_id,
            *res.1 == self.spec_body_source(def).value,
    ;
}

/// A def whose parameter list and body lowering accepts.
pub open spec fn lowerable(def: DefWithBodyId, node: SyntaxNode) -> bool {
    &&& params_list_ok(params_node(def, node))
    &&& body_node(def, node) matches Some(b) ==> calls_ok(b)
}

impl Body {
    /// The body of `def` with its source map: its parameter list and its body
    /// lowered, in the file of its source.
    pub fn body_with_source_map_query<D: BodySourceDatabase>(db: &D, def: DefWithBodyId) -> (res: (
        Arc<Body>,
        Arc<BodySourceMap>,
    ))
        requires
            lowerable(def, db.spec_body_source(def).value),
        ensures
            res.0.wf(),
            res.1.expr_map_back.len() == res.0.exprs.len(),
            sources_in(&*res.1, db.spec_body_source(def).file_id),
            source_map_consistent(&*res.1),
            (arena_state(&*res.0, &*res.1), res.0.body_expr) == spec_lower(
                db,
                db.spec_body_source(def).file_id,
                params_node(def, db.spec_body_source(def).value),
                body_node(def, db.spec_body_source(def).value),
            ),
    {
        let (file_id, node) = db.body_source(def);
        let params_list = match def {
            DefWithBodyId::FunctionId(_) => {
                if node.kind == NodeKind::MethodmapPropertyNative || node.kind == NodeKind::MethodmapPropertyMethod {
                    match child_of_kind(node, NodeKind::MethodmapPropertySetter) {
                        Some(setter) => child_node(setter, FieldName::Parameter),
                        None => None,
                    }
                } else {
                    child_of_kind(node, NodeKind::ParameterDeclarations)
                }
            },
            DefWithBodyId::TypedefId(_) => {
                if node.kind == NodeKind::Typedef {
                    match child_of_kind(node, NodeKind::TypedefExpression) {
                        Some(e) => child_node(e, FieldName::Parameters),
                        None => None,
                    }
                } else if node.kind == NodeKind::TypedefExpression {
                    child_node(node, FieldName::Parameters)
                } else {
                    None
                }
            },
            DefWithBodyId::FunctagId(_) => child_node(node, FieldName::Parameters),
        };
        let body_node = match def {
            DefWithBodyId::FunctionId(_) => child_node(node, FieldName::Body),
            _ => None,
        };
        let (body, source_map) = lower(db, params_list, file_id, body_node);
        (Arc::new(body), Arc::new(source_map))
    }
}


/// The source map of a lowered body answers both ways alike: the expression
/// that it finds for a node has that node as its source.
pub proof fn law_source_map_round_trip(source_map: &BodySourceMap, ptr: InFile<NodePtr>)
    requires
        source_map_consistent(source_map),
    ensures
        last_expr(source_map.expr_map@, ptr) matches Some(e) ==> e < source_map.expr_map_back.len()
            && source_map.expr_map_back@[e as int] == Some(ptr),
{
    lemma_last_expr_in(source_map.expr_map@, ptr);
}

proof fn lemma_last_expr_in(map: Seq<(InFile<NodePtr>, ExprId)>, ptr: InFile<NodePtr>)
    ensures
        last_expr(map, ptr) matches Some(e) ==> exists|k: int| 0 <= k < map.len() && #[trigger] map[k] == (ptr, e),
    decreases map.len(),
{
    if map.len() > 0 {
        if map.last().0 == ptr {
            assert(map[map.len() - 1] == (ptr, map.last().1));
        } else {
            lemma_last_expr_in(map.drop_last(), ptr);
            if let Some(e) = last_expr(map, ptr) {
                let k = choose|k: int| 0 <= k < map.drop_last().len() && #[trigger] map.drop_last()[k] == (ptr, e);
                assert(map[k] == (ptr, e));
            }
        }
    }
}
} // verus!
