//! A plain-value model of the concrete syntax tree that the parser produces:
//! each node has a grammar kind, the text it covers, its position, and its
//! children, each child tagged with the grammar field it fills (if any).
use vstd::prelude::*;

verus! {

/// Grammar symbols of the SourcePawn grammar that the analysis inspects.
/// `Other` carries the numeric id of any other symbol (operators among them).
#[derive(Debug, Clone, Copy, PartialEq, Eq, Structural, Hash)]
pub enum NodeKind {
    SourceFile,
    Comment,
    Identifier,
    This,
    Null,
    IntLiteral,
    FloatLiteral,
    CharLiteral,
    StringLiteral,
    BoolLiteral,
    ArrayLiteral,
    SystemLibString,
    NamedArg,
    Block,
    VariableDeclarationStatement,
    VariableDeclaration,
    DynamicArrayDeclaration,
    OldVariableDeclarationStatement,
    OldForLoopVariableDeclarationStatement,
    OldVariableDeclaration,
    ForStatement,
    WhileStatement,
    DoWhileStatement,
    BreakStatement,
    ContinueStatement,
    ConditionStatement,
    SwitchStatement,
    SwitchCase,
    ReturnStatement,
    DeleteStatement,
    ExpressionStatement,
    AssignmentExpression,
    BinaryExpression,
    PreprocBinaryExpression,
    CallExpression,
    ArrayIndexedAccess,
    TernaryExpression,
    FieldAccess,
    ArrayScopeAccess,
    ScopeAccess,
    UnaryExpression,
    UpdateExpression,
    PreprocUnaryExpression,
    SizeofExpression,
    ViewAs,
    OldTypeCast,
    ParenthesizedExpression,
    PreprocParenthesizedExpression,
    NewExpression,
    DynamicArray,
    CommaExpression,
    ParameterDeclarations,
    ParameterDeclaration,
    MethodmapPropertyNative,
    MethodmapPropertyMethod,
    MethodmapPropertySetter,
    Typedef,
    TypedefExpression,
    FunctionDefinition,
    FunctionDeclaration,
    Enum,
    EnumEntry,
    EnumEntries,
    StructDeclaration,
    GlobalVariableDeclaration,
    OldGlobalVariableDeclaration,
    EnumStruct,
    EnumStructField,
    EnumStructMethod,
    Methodmap,
    MethodmapProperty,
    MethodmapPropertyAlias,
    MethodmapPropertyGetter,
    MethodmapMethod,
    MethodmapMethodConstructor,
    MethodmapMethodDestructor,
    MethodmapNative,
    MethodmapNativeConstructor,
    MethodmapNativeDestructor,
    Typeset,
    Functag,
    Funcenum,
    FuncenumMember,
    Struct,
    StructField,
    RestParameter,
    PreprocMacro,
    PreprocDefine,
    PreprocPragma,
    AnonStatic,
    AnonConst,
    AnonNullable,
    AnonForward,
    AnonNative,
    AnonPublic,
    AnonStock,
    Dimension,
    FixedDimension,
    Type,
    OldType,
    AnyType,
    PreprocInclude,
    PreprocTryinclude,
    AnonInt,
    AnonBool,
    AnonFloat,
    AnonChar,
    AnonVoid,
    AnonOldString,
    AnonOldFloat,
    AnonLBrace,
    AnonRBrace,
    AnonLBrack,
    AnonRBrack,
    AnonLParen,
    AnonRParen,
    AnonComma,
    AnonBreak,
    AnonContinue,
    AnonReturn,
    AnonDelete,
    PreprocUndefine,
    StructFieldValue,
    Other(u16),
}

/// Grammar fields by which a child is reached from its parent.
#[derive(Debug, Clone, Copy, PartialEq, Eq, Structural, Hash)]
pub enum FieldName {
    Name,
    Type,
    InitialValue,
    ArgName,
    Value,
    Initialization,
    Condition,
    Iteration,
    Body,
    TruePath,
    FalsePath,
    Expression,
    Free,
    Left,
    Right,
    Operator,
    Function,
    Arguments,
    Target,
    Field,
    Array,
    Index,
    Consequence,
    Alternative,
    Scope,
    Argument,
    Class,
    Path,
    ReturnType,
    Parameters,
    Parameter,
    Entries,
    Inherits,
    Kind,
    Visibility,
    DefaultValue,
    StorageClass,
}

/// A node of the concrete syntax tree.
#[derive(Debug)]
pub struct SyntaxNode {
    pub kind: NodeKind,
    /// The source text that the node covers.
    pub text: String,
    pub start_byte: usize,
    pub end_byte: usize,
    /// The zero-based row of the first byte.
    pub start_row: usize,
    /// The children in source order, each with the field it fills, if any.
    pub children: Vec<(Option<FieldName>, SyntaxNode)>,
}

/// Index of the first child, from `start` on, that fills `field`.
pub open spec fn field_index_from(children: Seq<(Option<FieldName>, SyntaxNode)>, field: FieldName, start: int) -> Option<int>
    decreases children.len() - start,
{
    if start < 0 || start >= children.len() {
        None
    } else if children[start].0 == Some(field) {
        Some(start)
    } else {
        field_index_from(children, field, start + 1)
    }
}

/// A lightweight reference to a syntax node: its kind and the bytes it covers.
#[derive(Debug, Clone, Copy, PartialEq, Eq, Structural, Hash)]
pub struct NodePtr {
    pub kind: NodeKind,
    pub start_byte: usize,
    pub end_byte: usize,
}

impl NodePtr {
    pub open spec fn spec_from(node: &SyntaxNode) -> NodePtr {
        NodePtr { kind: node.kind, start_byte: node.start_byte, end_byte: node.end_byte }
    }

    /// The pointer to `node`.
    pub fn from_node(node: &SyntaxNode) -> (res: NodePtr)
        ensures
            res == Self::spec_from(node),
    {
        NodePtr { kind: node.kind, start_byte: node.start_byte, end_byte: node.end_byte }
    }
}

impl SyntaxNode {
    /// Index of the first child that fills `field`.
    pub fn child_by_field_name(&self, field: FieldName) -> (res: Option<usize>)
        ensures
            match res {
                Some(i) => field_index_from(self.children@, field, 0) == Some(i as int),
                None => field_index_from(self.children@, field, 0) is None,
            },
            match res {
                Some(i) => i < self.children.len() && self.children@[i as int].0 == Some(field)
                    && forall|k: int| 0 <= k < i ==> self.children@[k].0 != Some(field),
                None => forall|k: int| 0 <= k < self.children.len() ==> self.children@[k].0 != Some(field),
            },
    {
        let mut i: usize = 0;
        while i < self.children.len()
            invariant
                0 <= i <= self.children.len(),
                forall|k: int| 0 <= k < i ==> self.children@[k].0 != Some(field),
                field_index_from(self.children@, field, 0) == field_index_from(self.children@, field, i as int),
            decreases self.children.len() - i,
        {
            if self.children[i].0 == Some(field) {
                return Some(i);
            }
            i = i + 1;
        }
        None
    }
}

/// Whether `node` is the child of `parent`, its parent if it has one, that
/// fills the grammar field `field`.
pub open spec fn fills_field(node: SyntaxNode, parent: Option<SyntaxNode>, field: FieldName) -> bool {
    match parent {
        Some(p) => match field_index_from(p.children@, field, 0) {
            Some(i) => NodePtr::spec_from(&p.children@[i].1) == NodePtr::spec_from(&node),
            None => false,
        },
        None => false,
    }
}

pub open spec fn opt_node(n: Option<&SyntaxNode>) -> Option<SyntaxNode> {
    match n {
        Some(n) => Some(*n),
        None => None,
    }
}

/// Whether `node` is the child of `parent` that fills `field`.
fn fills(node: &SyntaxNode, parent: Option<&SyntaxNode>, field: FieldName) -> (res: bool)
    ensures
        res == fills_field(*node, opt_node(parent), field),
{
    match parent {
        Some(p) => match p.child_by_field_name(field) {
            Some(i) => NodePtr::from_node(&p.children[i].1) == NodePtr::from_node(node),
            None => false,
        },
        None => false,
    }
}

/// Whether `node` is the name of `parent`, its parent: the child that fills
/// its `name` field.
pub fn is_name_node(node: &SyntaxNode, parent: Option<&SyntaxNode>) -> (res: bool)
    ensures
        res == fills_field(*node, opt_node(parent), FieldName::Name),
{
    fills(node, parent, FieldName::Name)
}

/// Whether `node` is the field of a field access `parent`, its parent: the
/// child that fills its `field` field.
pub fn is_field_receiver_node(node: &SyntaxNode, parent: Option<&SyntaxNode>) -> (res: bool)
    ensures
        res == fills_field(*node, opt_node(parent), FieldName::Field),
{
    fills(node, parent, FieldName::Field)
}

} // verus!
