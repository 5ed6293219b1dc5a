//! The high-level intermediate representation of function bodies: names, type
//! references, and the expression arena of a body.
use vstd::prelude::*;
use crate::syntax::{FieldName, NodeKind, SyntaxNode};
use crate::text::{push_str, repeat_seq};

verus! {

/// A name, as declared or referenced in source.
#[derive(Debug)]
pub struct Name(pub String);

impl View for Name {
    type V = Seq<char>;

    open spec fn view(&self) -> Seq<char> {
        self.0@
    }
}

impl Clone for Name {
    fn clone(&self) -> (res: Self)
        ensures
            res@ == self@,
    {
        Name(self.0.clone())
    }
}

impl Name {
    pub fn from_str(value: &str) -> (res: Name)
        ensures
            res@ == value@,
    {
        Name(String::from_str(value))
    }

    /// The name's text.
    pub fn to_string(&self) -> (res: String)
        ensures
            res@ == self@,
    {
        self.0.clone()
    }

    pub fn as_str(&self) -> (res: &str)
        ensures
            res@ == self@,
    {
        self.0.as_str()
    }

    /// Whether two names are spelled alike.
    pub fn same_as(&self, other: &Name) -> (res: bool)
        ensures
            res == (self@ == other@),
    {
        self.0 == other.0
    }
}

/// A reference to a type, as written in source.
#[derive(Debug)]
pub enum TypeRef {
    /// Reference to a type definition (e.g. enum struct, enum, methodmap, etc.)
    Name(Name),
    /// Old name
    OldName(Name),
    /// int
    Int,
    /// bool
    Bool,
    /// float
    Float,
    /// char
    Char,
    /// void
    Void,
    /// any
    Any,
    /// String
    OldString,
    /// Float
    OldFloat,
    /// Array of the given number of dimensions
    Array((Box<TypeRef>, usize)),
}

/// The abstract value of a type reference: names by their text.
pub enum TypeRefView {
    Name(Seq<char>),
    OldName(Seq<char>),
    Int,
    Bool,
    Float,
    Char,
    Void,
    Any,
    OldString,
    OldFloat,
    Array(Box<TypeRefView>, nat),
}

impl View for TypeRef {
    type V = TypeRefView;

    open spec fn view(&self) -> TypeRefView
        decreases self,
    {
        match self {
            TypeRef::Name(n) => TypeRefView::Name(n@),
            TypeRef::OldName(n) => TypeRefView::OldName(n@),
            TypeRef::Int => TypeRefView::Int,
            TypeRef::Bool => TypeRefView::Bool,
            TypeRef::Float => TypeRefView::Float,
            TypeRef::Char => TypeRefView::Char,
            TypeRef::Void => TypeRefView::Void,
            TypeRef::Any => TypeRefView::Any,
            TypeRef::OldString => TypeRefView::OldString,
            TypeRef::OldFloat => TypeRefView::OldFloat,
            TypeRef::Array((t, n)) => TypeRefView::Array(Box::new((**t).view()), *n as nat),
        }
    }
}

/// The text of a type reference: the type's name, an old-style name with a colon,
/// and one `[]` per array dimension.
pub open spec fn type_text(t: TypeRefView) -> Seq<char>
    decreases t,
{
    match t {
        TypeRefView::Name(n) => n,
        TypeRefView::OldName(n) => n + ":"@,
        TypeRefView::Int => "int"@,
        TypeRefView::Bool => "bool"@,
        TypeRefView::Float => "float"@,
        TypeRefView::Char => "char"@,
        TypeRefView::Void => "void"@,
        TypeRefView::Any => "any"@,
        TypeRefView::OldString => "String"@,
        TypeRefView::OldFloat => "Float"@,
        TypeRefView::Array(inner, n) => type_text(*inner) + repeat_seq("[]"@, n),
    }
}

/// Indexing an array type drops one dimension; a one-dimensional array and a
/// non-array type stay as they are.
pub open spec fn lower_dim(t: TypeRefView) -> TypeRefView {
    match t {
        TypeRefView::Array(inner, n) => if n > 1 {
            TypeRefView::Array(inner, (n - 1) as nat)
        } else {
            t
        },
        _ => t,
    }
}

impl Clone for TypeRef {
    fn clone(&self) -> (res: Self)
        ensures
            res@ == self@,
        decreases self,
    {
        match self {
            TypeRef::Name(n) => TypeRef::Name(n.clone()),
            TypeRef::OldName(n) => TypeRef::OldName(n.clone()),
            TypeRef::Int => TypeRef::Int,
            TypeRef::Bool => TypeRef::Bool,
            TypeRef::Float => TypeRef::Float,
            TypeRef::Char => TypeRef::Char,
            TypeRef::Void => TypeRef::Void,
            TypeRef::Any => TypeRef::Any,
            TypeRef::OldString => TypeRef::OldString,
            TypeRef::OldFloat => TypeRef::OldFloat,
            TypeRef::Array((t, n)) => {
                let inner: TypeRef = (**t).clone();
                TypeRef::Array((Box::new(inner), *n))
            },
        }
    }
}

impl TypeRef {
    /// The type of an element of this array type.
    pub fn to_lower_dim(&self) -> (res: Self)
        ensures
            res@ == lower_dim(self@),
    {
        match self {
            TypeRef::Array((type_ref, size)) => {
                if *size > 1 {
                    let inner: TypeRef = (**type_ref).clone();
                    TypeRef::Array((Box::new(inner), *size - 1))
                } else {
                    self.clone()
                }
            },
            _ => self.clone(),
        }
    }

    /// The source text of this type.
    pub fn to_str(&self) -> (res: String)
        ensures
            res@ == type_text(self@),
        decreases self,
    {
        match self {
            TypeRef::Name(name) => name.to_string(),
            TypeRef::OldName(name) => {
                let mut s = name.to_string();
                push_str(&mut s, ":");
                s
            },
            TypeRef::Int => String::from_str("int"),
            TypeRef::Bool => String::from_str("bool"),
            TypeRef::Float => String::from_str("float"),
            TypeRef::Char => String::from_str("char"),
            TypeRef::Void => String::from_str("void"),
            TypeRef::Any => String::from_str("any"),
            TypeRef::OldString => String::from_str("String"),
            TypeRef::OldFloat => String::from_str("Float"),
            TypeRef::Array((type_ref, size)) => {
                let mut res = type_ref.to_str();
                let mut i: usize = 0;
                while i < *size
                    invariant
                        0 <= i <= *size,
                        res@ == type_text((**type_ref)@) + repeat_seq("[]"@, i as nat),
                    decreases *size - i,
                {
                    push_str(&mut res, "[]");
                    proof {
                        assert(repeat_seq("[]"@, (i + 1) as nat) == repeat_seq("[]"@, i as nat) + "[]"@);
                    }
                    i = i + 1;
                }
                res
            },
        }
    }
}

/// The bits of a float literal (floats compare by their bits).
#[derive(Debug, Clone, Copy, PartialEq, Eq, Structural, Default)]
pub struct FloatTypeWrapper(pub u64);

/// Identifier of a block expression.
#[derive(Debug, Clone, Copy, PartialEq, Eq, Structural, Hash)]
pub struct BlockId(pub u32);

/// Index of an expression in the arena of its body.
pub type ExprId = usize;

/// Index of an identifier in the arena of its body.
pub type IdentId = usize;

/// A literal value.
#[derive(Debug)]
pub enum Literal {
    String(String),
    Char(char),
    Bool(bool),
    Int(i64),
    Null,
    Float(FloatTypeWrapper),
    Array(Vec<ExprId>),
}

/// The case of a switch statement: its values and its body.
#[derive(Debug)]
pub struct SwitchCase {
    values: Vec<ExprId>,
    body: ExprId,
}

impl SwitchCase {
    pub closed spec fn spec_values(&self) -> Seq<ExprId> {
        self.values@
    }

    pub closed spec fn spec_body(&self) -> ExprId {
        self.body
    }

    pub fn new(values: Vec<ExprId>, body: ExprId) -> (res: Self)
        ensures
            res.spec_values() == values@,
            res.spec_body() == body,
    {
        Self { values, body }
    }

    pub fn body(&self) -> (res: ExprId)
        ensures
            res == self.spec_body(),
    {
        self.body
    }

    pub fn values(&self) -> (res: &[ExprId])
        ensures
            res@ == self.spec_values(),
    {
        self.values.as_slice()
    }
}

/// An expression or statement of a body; children are arena indices.
#[derive(Debug)]
pub enum Expr {
    Missing,
    Ident(Name),
    This,
    Block { id: Option<BlockId>, statements: Vec<ExprId> },
    CommaExpr(Vec<ExprId>),
    NamedArg { name: ExprId, value: ExprId },
    New { name: Name, args: Vec<ExprId> },
    DynamicArray { identifier: ExprId },
    ViewAs { operand: ExprId, type_ref: TypeRef },
    FieldAccess { target: ExprId, name: Name },
    ScopeAccess { scope: ExprId, field: Name },
    ArrayIndexedAccess { array: ExprId, index: ExprId },
    UnaryOp { operand: ExprId, op: Option<NodeKind> },
    BinaryOp { lhs: ExprId, rhs: ExprId, op: Option<NodeKind> },
    TernaryOp { condition: ExprId, then_branch: ExprId, else_branch: ExprId },
    Loop {
        initialization: Vec<ExprId>,
        condition: Option<ExprId>,
        iteration: Option<ExprId>,
        body: Option<ExprId>,
    },
    Switch { condition: ExprId, cases: Vec<SwitchCase> },
    Condition { condition: ExprId, then_branch: ExprId, else_branch: Option<ExprId> },
    Control { keyword: NodeKind, operand: Option<ExprId> },
    Call { callee: ExprId, args: Vec<ExprId> },
    MethodCall { target: ExprId, method_name: Name, args: Vec<ExprId> },
    Decl(Vec<ExprId>),
    Binding { ident_id: IdentId, type_ref: Option<TypeRef>, initializer: Option<ExprId> },
    Literal(Literal),
}

pub open spec fn opt_seq(o: Option<ExprId>) -> Seq<ExprId> {
    match o {
        Some(e) => seq![e],
        None => seq![],
    }
}

/// All ids that a switch mentions: the values and the body of each case.
pub open spec fn cases_children(cases: Seq<SwitchCase>) -> Seq<ExprId>
    decreases cases.len(),
{
    if cases.len() == 0 {
        seq![]
    } else {
        cases_children(cases.drop_last()) + cases.last().spec_values() + seq![cases.last().spec_body()]
    }
}

/// The sub-expressions that an expression refers to.
pub open spec fn expr_children(e: &Expr) -> Seq<ExprId> {
    match e {
        Expr::Missing | Expr::Ident(_) | Expr::This => seq![],
        Expr::Block { statements, .. } => statements@,
        Expr::CommaExpr(es) => es@,
        Expr::NamedArg { name, value } => seq![*name, *value],
        Expr::New { args, .. } => args@,
        Expr::DynamicArray { identifier } => seq![*identifier],
        Expr::ViewAs { operand, .. } => seq![*operand],
        Expr::FieldAccess { target, .. } => seq![*target],
        Expr::ScopeAccess { scope, .. } => seq![*scope],
        Expr::ArrayIndexedAccess { array, index } => seq![*array, *index],
        Expr::UnaryOp { operand, .. } => seq![*operand],
        Expr::BinaryOp { lhs, rhs, .. } => seq![*lhs, *rhs],
        Expr::TernaryOp { condition, then_branch, else_branch } => seq![*condition, *then_branch, *else_branch],
        Expr::Loop { initialization, condition, iteration, body } => initialization@ + opt_seq(*condition)
            + opt_seq(*iteration) + opt_seq(*body),
        Expr::Switch { condition, cases } => seq![*condition] + cases_children(cases@),
        Expr::Condition { condition, then_branch, else_branch } => seq![*condition, *then_branch] + opt_seq(*else_branch),
        Expr::Control { operand, .. } => opt_seq(*operand),
        Expr::Call { callee, args } => seq![*callee] + args@,
        Expr::MethodCall { target, args, .. } => seq![*target] + args@,
        Expr::Decl(es) => es@,
        Expr::Binding { initializer, .. } => opt_seq(*initializer),
        Expr::Literal(Literal::Array(es)) => es@,
        Expr::Literal(_) => seq![],
    }
}

/// The body of a function: its expression arena, its root expression, its
/// identifiers and the bindings of its parameters.
#[derive(Debug)]
pub struct Body {
    pub exprs: Vec<Expr>,
    pub body_expr: Option<ExprId>,
    pub idents: Vec<Name>,
    pub params: Vec<(IdentId, ExprId)>,
    /// Block expressions in this body that may contain inner items.
    pub block_scopes: Vec<BlockId>,
}

impl Body {
    /// Well-formedness of the arena: an expression only refers to expressions
    /// allocated before it, identifiers are in range, and each parameter is a
    /// binding of its identifier.
    pub open spec fn wf(&self) -> bool {
        &&& forall|i: int, k: int|
            0 <= i < self.exprs.len() && 0 <= k < expr_children(&self.exprs@[i]).len() ==> #[trigger] expr_children(
                &self.exprs@[i],
            )[k] < i
        &&& forall|i: int|
            0 <= i < self.exprs.len() ==> match #[trigger] self.exprs@[i] {
                Expr::Binding { ident_id, .. } => ident_id < self.idents.len(),
                _ => true,
            }
        &&& forall|p: int|
            0 <= p < self.params.len() ==> {
                let (ident, expr) = #[trigger] self.params@[p];
                &&& ident < self.idents.len()
                &&& expr < self.exprs.len()
                &&& self.exprs@[expr as int] matches Expr::Binding { ident_id, .. } && ident_id == ident
            }
        &&& self.body_expr matches Some(b) ==> b < self.exprs.len()
    }
}

/// A literal as plain values.
pub enum LiteralView {
    String(Seq<char>),
    Char(char),
    Bool(bool),
    Int(i64),
    Null,
    Float(u64),
    Array(Seq<ExprId>),
}

/// An expression as plain values: names by their text, lists as sequences.
pub enum ExprView {
    Missing,
    Ident(Seq<char>),
    This,
    Block { id: Option<BlockId>, statements: Seq<ExprId> },
    CommaExpr(Seq<ExprId>),
    NamedArg { name: ExprId, value: ExprId },
    New { name: Seq<char>, args: Seq<ExprId> },
    DynamicArray { identifier: ExprId },
    ViewAs { operand: ExprId, type_ref: TypeRefView },
    FieldAccess { target: ExprId, name: Seq<char> },
    ScopeAccess { scope: ExprId, field: Seq<char> },
    ArrayIndexedAccess { array: ExprId, index: ExprId },
    UnaryOp { operand: ExprId, op: Option<NodeKind> },
    BinaryOp { lhs: ExprId, rhs: ExprId, op: Option<NodeKind> },
    TernaryOp { condition: ExprId, then_branch: ExprId, else_branch: ExprId },
    Loop { initialization: Seq<ExprId>, condition: Option<ExprId>, iteration: Option<ExprId>, body: Option<ExprId> },
    Switch { condition: ExprId, cases: Seq<(Seq<ExprId>, ExprId)> },
    Condition { condition: ExprId, then_branch: ExprId, else_branch: Option<ExprId> },
    Control { keyword: NodeKind, operand: Option<ExprId> },
    Call { callee: ExprId, args: Seq<ExprId> },
    MethodCall { target: ExprId, method_name: Seq<char>, args: Seq<ExprId> },
    Decl(Seq<ExprId>),
    Binding { ident_id: IdentId, type_ref: Option<TypeRefView>, initializer: Option<ExprId> },
    Literal(LiteralView),
}

pub open spec fn opt_type_ref_view(t: Option<TypeRef>) -> Option<TypeRefView> {
    match t {
        Some(t) => Some(t@),
        None => None,
    }
}

pub open spec fn cases_view(cases: Seq<SwitchCase>) -> Seq<(Seq<ExprId>, ExprId)> {
    cases.map_values(|c: SwitchCase| (c.spec_values(), c.spec_body()))
}

impl View for Expr {
    type V = ExprView;

    open spec fn view(&self) -> ExprView {
        match self {
            Expr::Missing => ExprView::Missing,
            Expr::Ident(n) => ExprView::Ident(n@),
            Expr::This => ExprView::This,
            Expr::Block { id, statements } => ExprView::Block { id: *id, statements: statements@ },
            Expr::CommaExpr(es) => ExprView::CommaExpr(es@),
            Expr::NamedArg { name, value } => ExprView::NamedArg { name: *name, value: *value },
            Expr::New { name, args } => ExprView::New { name: name@, args: args@ },
            Expr::DynamicArray { identifier } => ExprView::DynamicArray { identifier: *identifier },
            Expr::ViewAs { operand, type_ref } => ExprView::ViewAs { operand: *operand, type_ref: type_ref@ },
            Expr::FieldAccess { target, name } => ExprView::FieldAccess { target: *target, name: name@ },
            Expr::ScopeAccess { scope, field } => ExprView::ScopeAccess { scope: *scope, field: field@ },
            Expr::ArrayIndexedAccess { array, index } => ExprView::ArrayIndexedAccess { array: *array, index: *index },
            Expr::UnaryOp { operand, op } => ExprView::UnaryOp { operand: *operand, op: *op },
            Expr::BinaryOp { lhs, rhs, op } => ExprView::BinaryOp { lhs: *lhs, rhs: *rhs, op: *op },
            Expr::TernaryOp { condition, then_branch, else_branch } => ExprView::TernaryOp {
                condition: *condition,
                then_branch: *then_branch,
                else_branch: *else_branch,
            },
            Expr::Loop { initialization, condition, iteration, body } => ExprView::Loop {
                initialization: initialization@,
                condition: *condition,
                iteration: *iteration,
                body: *body,
            },
            Expr::Switch { condition, cases } => ExprView::Switch { condition: *condition, cases: cases_view(cases@) },
            Expr::Condition { condition, then_branch, else_branch } => ExprView::Condition {
                condition: *condition,
                then_branch: *then_branch,
                else_branch: *else_branch,
            },
            Expr::Control { keyword, operand } => ExprView::Control { keyword: *keyword, operand: *operand },
            Expr::Call { callee, args } => ExprView::Call { callee: *callee, args: args@ },
            Expr::MethodCall { target, method_name, args } => ExprView::MethodCall {
                target: *target,
                method_name: method_name@,
                args: args@,
            },
            Expr::Decl(es) => ExprView::Decl(es@),
            Expr::Binding { ident_id, type_ref, initializer } => ExprView::Binding {
                ident_id: *ident_id,
                type_ref: opt_type_ref_view(*type_ref),
                initializer: *initializer,
            },
            Expr::Literal(lit) => ExprView::Literal(
                match lit {
                    Literal::String(s) => LiteralView::String(s@),
                    Literal::Char(c) => LiteralView::Char(*c),
                    Literal::Bool(b) => LiteralView::Bool(*b),
                    Literal::Int(i) => LiteralView::Int(*i),
                    Literal::Null => LiteralView::Null,
                    Literal::Float(f) => LiteralView::Float(f.0),
                    Literal::Array(es) => LiteralView::Array(es@),
                },
            ),
        }
    }
}

/// The type that the type node `node` names.
pub open spec fn spec_type_from_node(node: SyntaxNode) -> TypeRefView {
    match node.kind {
        NodeKind::AnonInt => TypeRefView::Int,
        NodeKind::AnonBool => TypeRefView::Bool,
        NodeKind::AnonFloat => TypeRefView::Float,
        NodeKind::AnonChar => TypeRefView::Char,
        NodeKind::AnonVoid => TypeRefView::Void,
        NodeKind::AnyType => TypeRefView::Any,
        NodeKind::AnonOldString => TypeRefView::OldString,
        NodeKind::AnonOldFloat => TypeRefView::Float,
        NodeKind::OldType => TypeRefView::OldName(crate::text::trim_end_char_spec(node.text@, ':')),
        _ => TypeRefView::Name(node.text@),
    }
}

/// The type and the number of dimensions that the children `children`
/// filling field `field` give: the last child that is no dimension names the
/// type, each dimension adds one.
pub open spec fn spec_type_children(children: Seq<(Option<FieldName>, SyntaxNode)>, field: FieldName) -> (Option<TypeRefView>, nat)
    decreases children.len(),
{
    if children.len() == 0 {
        (None, 0)
    } else {
        let (t, size) = spec_type_children(children.drop_last(), field);
        let (f, c) = children.last();
        if f == Some(field) {
            if c.kind == NodeKind::Dimension || c.kind == NodeKind::FixedDimension {
                (t, size + 1)
            } else {
                (Some(spec_type_from_node(c)), size)
            }
        } else {
            (t, size)
        }
    }
}

/// The type that the children of `node` filling `field` give: an array of
/// the named type when there are dimensions.
pub open spec fn spec_returntype(node: SyntaxNode, field: FieldName) -> Option<TypeRefView> {
    let (t, size) = spec_type_children(node.children@, field);
    match t {
        Some(t) => if size > 0 {
            Some(TypeRefView::Array(Box::new(t), size))
        } else {
            Some(t)
        },
        None => None,
    }
}

impl TypeRef {
    /// The type that the type node `node` names.
    pub fn from_node(node: &SyntaxNode) -> (res: Self)
        ensures
            res@ == spec_type_from_node(*node),
    {
        match node.kind {
            NodeKind::AnonInt => TypeRef::Int,
            NodeKind::AnonBool => TypeRef::Bool,
            NodeKind::AnonFloat => TypeRef::Float,
            NodeKind::AnonChar => TypeRef::Char,
            NodeKind::AnonVoid => TypeRef::Void,
            NodeKind::AnyType => TypeRef::Any,
            NodeKind::AnonOldString => TypeRef::OldString,
            NodeKind::AnonOldFloat => TypeRef::Float,
            NodeKind::OldType => TypeRef::OldName(Name(crate::text::trim_end_char(node.text.as_str(), ':'))),
            _ => TypeRef::Name(Name(node.text.clone())),
        }
    }

    /// The type that the children of `node` filling `field_name` give, if any.
    pub fn from_returntype_node(node: &SyntaxNode, field_name: FieldName) -> (res: Option<Self>)
        ensures
            opt_type_ref_view(res) == spec_returntype(*node, field_name),
    {
        let mut type_ref: Option<TypeRef> = None;
        let mut size: usize = 0;
        let mut i: usize = 0;
        while i < node.children.len()
            invariant
                0 <= i <= node.children.len(),
                size <= i,
                (opt_type_ref_view(type_ref), size as nat) == spec_type_children(node.children@.take(i as int), field_name),
            decreases node.children.len() - i,
        {
            let ghost t = node.children@.take(i + 1);
            assert(t.drop_last() =~= node.children@.take(i as int));
            assert(t.last() == node.children@[i as int]);
            let (f, child) = (&node.children[i].0, &node.children[i].1);
            if *f == Some(field_name) {
                if child.kind == NodeKind::Dimension || child.kind == NodeKind::FixedDimension {
                    size = size + 1;
                } else {
                    type_ref = Some(TypeRef::from_node(child));
                }
            }
            i = i + 1;
        }
        assert(node.children@.take(node.children.len() as int) =~= node.children@);
        match type_ref {
            Some(t) => if size > 0 {
                Some(TypeRef::Array((Box::new(t), size)))
            } else {
                Some(t)
            },
            None => None,
        }
    }
}

} // verus!
