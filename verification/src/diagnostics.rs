//! Diagnostics: what inference found in a body, placed on the syntax it was
//! found on, and the code, message and severity that the editor shows for each.
use vstd::prelude::*;
use crate::ast_id::{find_node, walk, AstIdMap};
use crate::data::{def_diag_view, es_methods_of, getters_setters_of, methods_of, DataDatabase, DefDiagnostic};
use crate::defs::{spec_def_with_body, DefWithBody, FileDef};
use crate::base_db::FileId;
use crate::ids::{DefWithBodyId, FunctionId, MethodmapId};
use crate::item_lower::ItemTreeDatabase;
use crate::item_tree::AstId;
use crate::lower::{child_node, child_node_spec, ptr_of};
use crate::syntax::FieldName;
use std::sync::Arc;
use crate::hir::{ExprId, Name};
use crate::ids::InFile;
use crate::infer::{InferenceDiagnostic, InferenceResult};
use crate::lower::BodySourceMap;
use crate::lsp::Range;
use crate::syntax::NodePtr;
use crate::text::{push_char, push_str};

verus! {

/// What kind of type a constructor was looked for in.
#[derive(Debug, Clone, Copy, PartialEq, Eq, Structural)]
pub enum ConstructorDiagnosticKind {
    Methodmap,
    EnumStruct,
}

#[derive(Debug)]
pub struct UnresolvedInclude {
    pub range: Range,
    pub path: String,
}

#[derive(Debug)]
pub struct UnresolvedField {
    pub expr: InFile<NodePtr>,
    pub receiver: Name,
    pub name: Name,
    pub method_with_same_name_exists: bool,
}

#[derive(Debug)]
pub struct UnresolvedMethodCall {
    pub expr: InFile<NodePtr>,
    pub receiver: Name,
    pub name: Name,
    pub field_with_same_name_exists: bool,
}

#[derive(Debug)]
pub struct UnresolvedConstructor {
    pub expr: InFile<NodePtr>,
    pub methodmap: Name,
    pub exists: Option<ConstructorDiagnosticKind>,
}

#[derive(Debug)]
pub struct InvalidUseOfThis {
    pub expr: InFile<NodePtr>,
}

#[derive(Debug)]
pub struct UnresolvedNamedArg {
    pub expr: InFile<NodePtr>,
    pub name: Name,
    pub callee: Name,
}

#[derive(Debug)]
pub struct IncorrectNumberOfArguments {
    pub expr: InFile<NodePtr>,
    pub name: Name,
    pub expected: usize,
    pub actual: usize,
}

#[derive(Debug)]
pub struct UnresolvedInherit {
    pub expr: InFile<NodePtr>,
    pub inherit: Name,
    pub exists: bool,
}

#[derive(Debug)]
pub struct PreprocessorEvaluationError {
    pub range: Range,
    pub text: String,
}

#[derive(Debug)]
pub struct UnresolvedMacro {
    pub range: Range,
    pub name: String,
}

#[derive(Debug)]
pub struct InactiveCode {
    pub range: Range,
}

/// Any diagnostic of the analysis.
#[derive(Debug)]
pub enum AnyDiagnostic {
    UnresolvedInclude(Box<UnresolvedInclude>),
    UnresolvedField(Box<UnresolvedField>),
    UnresolvedMethodCall(Box<UnresolvedMethodCall>),
    UnresolvedConstructor(Box<UnresolvedConstructor>),
    UnresolvedNamedArg(Box<UnresolvedNamedArg>),
    IncorrectNumberOfArguments(Box<IncorrectNumberOfArguments>),
    UnresolvedInherit(Box<UnresolvedInherit>),
    PreprocessorEvaluationError(Box<PreprocessorEvaluationError>),
    UnresolvedMacro(Box<UnresolvedMacro>),
    InactiveCode(Box<InactiveCode>),
    InvalidUseOfThis(Box<InvalidUseOfThis>),
}

/// The expression that an inference diagnostic is about.
pub open spec fn diag_expr(d: InferenceDiagnostic) -> ExprId {
    match d {
        InferenceDiagnostic::UnresolvedField { expr, .. } => expr,
        InferenceDiagnostic::UnresolvedMethodCall { expr, .. } => expr,
        InferenceDiagnostic::UnresolvedConstructor { expr, .. } => expr,
        InferenceDiagnostic::UnresolvedNamedArg { expr, .. } => expr,
        InferenceDiagnostic::IncorrectNumberOfArguments { expr, .. } => expr,
    }
}

/// Whether the source map records the node of expression `e`.
pub open spec fn has_source(source_map: &BodySourceMap, e: ExprId) -> bool {
    e < source_map.expr_map_back.len() && source_map.expr_map_back@[e as int] is Some
}

/// The node of expression `e`, as the source map records it.
pub open spec fn source_of(source_map: &BodySourceMap, e: ExprId) -> InFile<NodePtr> {
    source_map.expr_map_back@[e as int].unwrap()
}

pub open spec fn constructor_kind(k: Option<crate::infer::ConstructorDiagnosticKind>) -> Option<ConstructorDiagnosticKind> {
    match k {
        Some(crate::infer::ConstructorDiagnosticKind::Methodmap) => Some(ConstructorDiagnosticKind::Methodmap),
        Some(crate::infer::ConstructorDiagnosticKind::EnumStruct) => Some(ConstructorDiagnosticKind::EnumStruct),
        None => None,
    }
}

/// `a` is the diagnostic that `d` becomes, placed on the node of its expression.
pub open spec fn converts(d: InferenceDiagnostic, a: AnyDiagnostic, source_map: &BodySourceMap) -> bool {
    match (d, a) {
        (
            InferenceDiagnostic::UnresolvedField { expr, receiver, name, method_with_same_name_exists },
            AnyDiagnostic::UnresolvedField(b),
        ) => b.expr == source_of(source_map, expr) && b.receiver@ == receiver@ && b.name@ == name@
            && b.method_with_same_name_exists == method_with_same_name_exists,
        (
            InferenceDiagnostic::UnresolvedMethodCall { expr, receiver, name, field_with_same_name_exists },
            AnyDiagnostic::UnresolvedMethodCall(b),
        ) => b.expr == source_of(source_map, expr) && b.receiver@ == receiver@ && b.name@ == name@
            && b.field_with_same_name_exists == field_with_same_name_exists,
        (
            InferenceDiagnostic::UnresolvedConstructor { expr, methodmap, exists },
            AnyDiagnostic::UnresolvedConstructor(b),
        ) => b.expr == source_of(source_map, expr) && b.methodmap@ == methodmap@ && b.exists == constructor_kind(exists),
        (InferenceDiagnostic::UnresolvedNamedArg { expr, name, callee }, AnyDiagnostic::UnresolvedNamedArg(b)) => b.expr
            == source_of(source_map, expr) && b.name@ == name@ && b.callee@ == callee@,
        (
            InferenceDiagnostic::IncorrectNumberOfArguments { expr, name, expected, actual },
            AnyDiagnostic::IncorrectNumberOfArguments(b),
        ) => b.expr == source_of(source_map, expr) && b.name@ == name@ && b.expected == expected && b.actual == actual,
        _ => false,
    }
}

fn convert(d: &InferenceDiagnostic, source_map: &BodySourceMap) -> (res: AnyDiagnostic)
    requires
        has_source(source_map, diag_expr(*d)),
    ensures
        converts(*d, res, source_map),
{
    match d {
        InferenceDiagnostic::UnresolvedField { expr, receiver, name, method_with_same_name_exists } => {
            let expr = source_map.expr_source(*expr).unwrap();
            AnyDiagnostic::UnresolvedField(
                Box::new(
                    UnresolvedField {
                        expr,
                        name: name.clone(),
                        receiver: receiver.clone(),
                        method_with_same_name_exists: *method_with_same_name_exists,
                    },
                ),
            )
        },
        InferenceDiagnostic::UnresolvedMethodCall { expr, receiver, name, field_with_same_name_exists } => {
            let expr = source_map.expr_source(*expr).unwrap();
            AnyDiagnostic::UnresolvedMethodCall(
                Box::new(
                    UnresolvedMethodCall {
                        expr,
                        name: name.clone(),
                        receiver: receiver.clone(),
                        field_with_same_name_exists: *field_with_same_name_exists,
                    },
                ),
            )
        },
        InferenceDiagnostic::UnresolvedConstructor { expr, methodmap, exists } => {
            let exists = match exists {
                Some(crate::infer::ConstructorDiagnosticKind::Methodmap) => Some(ConstructorDiagnosticKind::Methodmap),
                Some(crate::infer::ConstructorDiagnosticKind::EnumStruct) => Some(ConstructorDiagnosticKind::EnumStruct),
                None => None,
            };
            let expr = source_map.expr_source(*expr).unwrap();
            AnyDiagnostic::UnresolvedConstructor(Box::new(UnresolvedConstructor { expr, methodmap: methodmap.clone(), exists }))
        },
        InferenceDiagnostic::UnresolvedNamedArg { expr, name, callee } => {
            let expr = source_map.expr_source(*expr).unwrap();
            AnyDiagnostic::UnresolvedNamedArg(Box::new(UnresolvedNamedArg { expr, name: name.clone(), callee: callee.clone() }))
        },
        InferenceDiagnostic::IncorrectNumberOfArguments { expr, name, expected, actual } => {
            let expr = source_map.expr_source(*expr).unwrap();
            AnyDiagnostic::IncorrectNumberOfArguments(
                Box::new(IncorrectNumberOfArguments { expr, name: name.clone(), expected: *expected, actual: *actual }),
            )
        },
    }
}

impl DefWithBody {
    /// Appends to `acc` the diagnostics that inference found in the body of
    /// the def, in their order, each placed on the node of its expression.
    pub fn diagnostics(self, infer: &InferenceResult, source_map: &BodySourceMap, acc: &mut Vec<AnyDiagnostic>)
        requires
            forall|i: int| 0 <= i < infer.diagnostics.len() ==> has_source(source_map, diag_expr(#[trigger] infer.diagnostics@[i])),
        ensures
            final(acc).len() == old(acc).len() + infer.diagnostics.len(),
            forall|j: int| 0 <= j < old(acc).len() ==> final(acc)@[j] == old(acc)@[j],
            forall|i: int|
                0 <= i < infer.diagnostics.len() ==> converts(
                    #[trigger] infer.diagnostics@[i],
                    final(acc)@[old(acc).len() + i],
                    source_map,
                ),
    {
        let ghost a0 = acc@;
        let mut i: usize = 0;
        while i < infer.diagnostics.len()
            invariant
                0 <= i <= infer.diagnostics.len(),
                forall|k: int| 0 <= k < infer.diagnostics.len() ==> has_source(source_map, diag_expr(#[trigger] infer.diagnostics@[k])),
                acc.len() == a0.len() + i,
                forall|j: int| 0 <= j < a0.len() ==> acc@[j] == a0[j],
                forall|k: int| 0 <= k < i ==> converts(#[trigger] infer.diagnostics@[k], acc@[a0.len() + k], source_map),
            decreases infer.diagnostics.len() - i,
        {
            let d = convert(&infer.diagnostics[i], source_map);
            acc.push(d);
            i = i + 1;
        }
    }
}

/// The queries that the diagnostics of definitions read: the inference of
/// each body with the source map of its lowering, and the problems found in
/// the data of each methodmap, as plain values.
pub trait HirDatabase: ItemTreeDatabase + DataDatabase {
    spec fn spec_infer(&self, def: DefWithBodyId) -> Arc<InferenceResult>;

    spec fn spec_source_map(&self, def: DefWithBodyId) -> Arc<BodySourceMap>;

    spec fn spec_methodmap_diagnostics(&self, id: MethodmapId) -> Seq<(AstId, Seq<char>, bool)>;

    fn infer(&self, def: DefWithBodyId) -> (res: Arc<InferenceResult>)
        ensures
            res == self.spec_infer(def),
    ;

    fn body_source_map(&self, def: DefWithBodyId) -> (res: Arc<BodySourceMap>)
        ensures
            res == self.spec_source_map(def),
    ;

    fn methodmap_diagnostics(&self, id: MethodmapId) -> (res: Vec<DefDiagnostic>)
        ensures
            res@.map_values(|d: DefDiagnostic| def_diag_view(d)) == self.spec_methodmap_diagnostics(id),
    ;
}

/// Where a diagnostic of a definition comes from: a diagnostic that
/// inference found in a body, or an unresolved inherit of a methodmap.
pub enum DiagOrigin {
    Inference(DefWithBodyId, int),
    Inherit(int),
}

/// The diagnostics that inference found in the body of `def`, in order.
pub open spec fn def_origins<D: HirDatabase>(db: &D, def: DefWithBodyId) -> Seq<DiagOrigin> {
    Seq::new(db.spec_infer(def).diagnostics.len() as nat, |i: int| DiagOrigin::Inference(def, i))
}

/// The diagnostics of the bodies of the functions `fns`, function after function.
pub open spec fn fns_origins<D: HirDatabase>(db: &D, fns: Seq<FunctionId>) -> Seq<DiagOrigin>
    decreases fns.len(),
{
    if fns.len() == 0 {
        seq![]
    } else {
        fns_origins(db, fns.drop_last()) + def_origins(db, DefWithBodyId::FunctionId(fns.last()))
    }
}

/// The node of the `inherits` clause of the methodmap of node index `ast_id`
/// in the file of the methodmap `id`, if the node is found and has one.
pub open spec fn inherit_ptr<D: HirDatabase>(db: &D, id: MethodmapId, ast_id: AstId) -> Option<NodePtr> {
    let tree = db.spec_parse(db.spec_lookup_methodmap(id).tree.file);
    match find_node(tree, walk(tree)[ast_id as int]) {
        Some(n) => match child_node_spec(n, FieldName::Inherits) {
            Some(i) => Some(ptr_of(i)),
            None => None,
        },
        None => None,
    }
}

/// The unresolved inherits among the first `n` diagnostics `diags` of the
/// methodmap `id` whose clause is found.
pub open spec fn inherit_origins<D: HirDatabase>(db: &D, id: MethodmapId, diags: Seq<(AstId, Seq<char>, bool)>, n: nat) -> Seq<
    DiagOrigin,
>
    decreases n,
{
    if n == 0 || n > diags.len() {
        seq![]
    } else {
        inherit_origins(db, id, diags, (n - 1) as nat) + if inherit_ptr(db, id, diags[n - 1].0) is Some {
            seq![DiagOrigin::Inherit(n - 1)]
        } else {
            seq![]
        }
    }
}

/// The diagnostics of the definition `def`: those of its body when it has
/// one; for a methodmap, those of its methods and accessors, then its
/// unresolved inherits; for an enum struct, those of its methods.
pub open spec fn file_def_origins<D: HirDatabase>(db: &D, def: FileDef) -> Seq<DiagOrigin> {
    match spec_def_with_body(def) {
        Some(d) => def_origins(db, d.spec_id()),
        None => match def {
            FileDef::Methodmap(id) => {
                let data = db.spec_methodmap_data(id);
                let diags = db.spec_methodmap_diagnostics(id);
                fns_origins(db, methods_of(data.items@) + getters_setters_of(data.items@)) + inherit_origins(
                    db,
                    id,
                    diags,
                    diags.len(),
                )
            },
            FileDef::EnumStruct(id) => fns_origins(db, es_methods_of(db.spec_enum_struct_data(id).items@)),
            _ => seq![],
        },
    }
}

/// `a` is the diagnostic that the origin `o` gives, for the methodmap `id`
/// where `o` is an inherit.
pub open spec fn origin_gives<D: HirDatabase>(db: &D, id: Option<MethodmapId>, o: DiagOrigin, a: AnyDiagnostic) -> bool {
    match o {
        DiagOrigin::Inference(def, i) => converts(db.spec_infer(def).diagnostics@[i], a, &*db.spec_source_map(def)),
        DiagOrigin::Inherit(i) => match (id, a) {
            (Some(m), AnyDiagnostic::UnresolvedInherit(b)) => {
                let d = db.spec_methodmap_diagnostics(m)[i];
                &&& b.expr == (InFile { file_id: db.spec_lookup_methodmap(m).tree.file, value: inherit_ptr(db, m, d.0).unwrap() })
                &&& b.inherit@ == d.1
                &&& b.exists == d.2
            },
            _ => false,
        },
    }
}

/// Inference only reports problems on expressions whose node is recorded.
pub open spec fn body_sourced<D: HirDatabase>(db: &D, def: DefWithBodyId) -> bool {
    forall|i: int|
        0 <= i < db.spec_infer(def).diagnostics.len() ==> has_source(
            &*db.spec_source_map(def),
            diag_expr(#[trigger] db.spec_infer(def).diagnostics@[i]),
        )
}

/// The definition `def` can report its diagnostics: every body it reaches
/// places its diagnostics, and each unresolved inherit names a node of the file.
pub open spec fn diagnostics_ready<D: HirDatabase>(db: &D, def: FileDef) -> bool {
    &&& forall|d: DefWithBodyId| body_sourced(db, d)
    &&& def matches FileDef::Methodmap(id) ==> forall|k: int|
        0 <= k < db.spec_methodmap_diagnostics(id).len() ==> (#[trigger] db.spec_methodmap_diagnostics(id)[k]).0 < walk(
            db.spec_parse(db.spec_lookup_methodmap(id).tree.file),
        ).len()
}

/// Appends the diagnostics of the bodies of the functions `fns`.
fn fns_diagnostics<D: HirDatabase>(db: &D, fns: &Vec<FunctionId>, acc: &mut Vec<AnyDiagnostic>)
    requires
        forall|d: DefWithBodyId| body_sourced(db, d),
    ensures
        final(acc).len() == old(acc).len() + fns_origins(db, fns@).len(),
        forall|j: int| 0 <= j < old(acc).len() ==> final(acc)@[j] == old(acc)@[j],
        forall|k: int|
            0 <= k < fns_origins(db, fns@).len() ==> origin_gives(db, None, #[trigger] fns_origins(db, fns@)[k], final(acc)@[old(acc).len() + k]),
{
    let ghost a0 = acc@;
    let mut i: usize = 0;
    while i < fns.len()
        invariant
            0 <= i <= fns.len(),
            forall|d: DefWithBodyId| body_sourced(db, d),
            acc.len() == a0.len() + fns_origins(db, fns@.take(i as int)).len(),
            forall|j: int| 0 <= j < a0.len() ==> acc@[j] == a0[j],
            forall|k: int|
                0 <= k < fns_origins(db, fns@.take(i as int)).len() ==> origin_gives(
                    db,
                    None,
                    #[trigger] fns_origins(db, fns@.take(i as int))[k],
                    acc@[a0.len() + k],
                ),
        decreases fns.len() - i,
    {
        let ghost before = acc@;
        let ghost prev = fns_origins(db, fns@.take(i as int));
        let def = DefWithBodyId::FunctionId(fns[i]);
        let infer = db.infer(def);
        let source_map = db.body_source_map(def);
        assert(body_sourced(db, def));
        DefWithBody::Function(fns[i]).diagnostics(&*infer, &*source_map, acc);
        proof {
            assert(fns@.take(i + 1).drop_last() =~= fns@.take(i as int));
            let cur = fns_origins(db, fns@.take(i + 1));
            assert(cur == prev + def_origins(db, def));
            assert forall|k: int| 0 <= k < cur.len() implies origin_gives(db, None, #[trigger] cur[k], acc@[a0.len() + k]) by {
                if k < prev.len() {
                    assert(cur[k] == prev[k]);
                    assert(acc@[a0.len() + k] == before[a0.len() + k]);
                } else {
                    let i2 = k - prev.len();
                    assert(cur[k] == DiagOrigin::Inference(def, i2));
                    assert(acc@[a0.len() + k] == acc@[before.len() + i2]);
                }
            }
        }
        i = i + 1;
    }
    assert(fns@.take(fns.len() as int) =~= fns@);
}

impl FileDef {
    /// The diagnostics of the definition: those of its body when it has one;
    /// for a methodmap, those of its methods and accessors, then its
    /// unresolved inherits placed on their `inherits` clause; for an enum
    /// struct, those of its methods.
    pub fn diagnostics<D: HirDatabase>(self, db: &D) -> (res: Vec<AnyDiagnostic>)
        requires
            diagnostics_ready(db, self),
        ensures
            res.len() == file_def_origins(db, self).len(),
            forall|k: int|
                0 <= k < res.len() ==> origin_gives(
                    db,
                    match self {
                        FileDef::Methodmap(id) => Some(id),
                        _ => None,
                    },
                    #[trigger] file_def_origins(db, self)[k],
                    res@[k],
                ),
    {
        let mut acc: Vec<AnyDiagnostic> = Vec::new();
        if let Some(def) = self.as_def_with_body() {
            let id = def.id();
            let infer = db.infer(id);
            let source_map = db.body_source_map(id);
            assert(body_sourced(db, id));
            def.diagnostics(&*infer, &*source_map, &mut acc);
            proof {
                assert forall|k: int| 0 <= k < acc.len() implies origin_gives(db, None, #[trigger] file_def_origins(db, self)[k], acc@[k]) by {
                    assert(file_def_origins(db, self)[k] == DiagOrigin::Inference(id, k));
                }
            }
            return acc;
        }
        match self {
            FileDef::Methodmap(id) => {
                let data = db.methodmap_data(id);
                let mut fns = data.methods();
                let mut accessors = data.getters_setters();
                fns.append(&mut accessors);
                fns_diagnostics(db, &fns, &mut acc);
                let ghost a1 = acc@;
                let ghost fo = fns_origins(db, fns@);
                let diags = db.methodmap_diagnostics(id);
                let ghost dv = db.spec_methodmap_diagnostics(id);
                let file_id = db.lookup_methodmap(id).tree.file;
                let tree = db.parse(file_id);
                let ast_id_map = AstIdMap::from_source(tree);
                let mut i: usize = 0;
                while i < diags.len()
                    invariant
                        0 <= i <= diags.len(),
                        dv == diags@.map_values(|d: DefDiagnostic| def_diag_view(d)),
                        dv == db.spec_methodmap_diagnostics(id),
                        file_id == db.spec_lookup_methodmap(id).tree.file,
                        *tree == db.spec_parse(file_id),
                        ast_id_map.arena@ == walk(*tree),
                        forall|k: int| 0 <= k < dv.len() ==> (#[trigger] dv[k]).0 < walk(*tree).len(),
                        acc.len() == a1.len() + inherit_origins(db, id, dv, i as nat).len(),
                        forall|j: int| 0 <= j < a1.len() ==> acc@[j] == a1[j],
                        forall|k: int|
                            0 <= k < inherit_origins(db, id, dv, i as nat).len() ==> origin_gives(
                                db,
                                Some(id),
                                #[trigger] inherit_origins(db, id, dv, i as nat)[k],
                                acc@[a1.len() + k],
                            ),
                    decreases diags.len() - i,
                {
                    let ghost before = acc@;
                    let ghost prev = inherit_origins(db, id, dv, i as nat);
                    let DefDiagnostic::UnresolvedInherit { methodmap_ast_id, inherit_name, exists } = &diags[i];
                    assert(dv[i as int] == def_diag_view(diags@[i as int]));
                    let ptr = ast_id_map.get_raw(*methodmap_ast_id);
                    let found = match ptr.to_node(tree) {
                        Some(node) => match child_node(node, FieldName::Inherits) {
                            Some(inherit_node) => Some(NodePtr::from_node(inherit_node)),
                            None => None,
                        },
                        None => None,
                    };
                    assert(found == inherit_ptr(db, id, dv[i as int].0));
                    if let Some(p) = found {
                        let d = AnyDiagnostic::UnresolvedInherit(
                            Box::new(UnresolvedInherit { expr: InFile::new(file_id, p), inherit: inherit_name.clone(), exists: *exists }),
                        );
                        acc.push(d);
                    }
                    proof {
                        let cur = inherit_origins(db, id, dv, (i + 1) as nat);
                        assert forall|k: int| 0 <= k < cur.len() implies origin_gives(db, Some(id), #[trigger] cur[k], acc@[a1.len() + k]) by {
                            if k < prev.len() {
                                assert(cur[k] == prev[k]);
                                assert(acc@[a1.len() + k] == before[a1.len() + k]);
                            }
                        }
                    }
                    i = i + 1;
                }
                proof {
                    let all = file_def_origins(db, self);
                    let io = inherit_origins(db, id, dv, dv.len());
                    assert(diags@.len() == dv.len());
                    assert(all == fo + io);
                    assert forall|k: int| 0 <= k < acc.len() implies origin_gives(db, Some(id), #[trigger] all[k], acc@[k]) by {
                        if k < fo.len() {
                            assert(all[k] == fo[k]);
                            assert(acc@[k] == a1[k]);
                            assert(origin_gives(db, None, fo[k], a1[k]));
                        } else {
                            assert(all[k] == io[k - fo.len()]);
                        }
                    }
                }
            },
            FileDef::EnumStruct(id) => {
                let data = db.enum_struct_data(id);
                let fns = data.methods();
                fns_diagnostics(db, &fns, &mut acc);
                proof {
                    assert forall|k: int| 0 <= k < acc.len() implies origin_gives(db, None, #[trigger] file_def_origins(db, self)[k], acc@[k]) by {
                        assert(file_def_origins(db, self)[k] == fns_origins(db, fns@)[k]);
                    }
                }
            },
            _ => {},
        }
        acc
    }
}

/// The problems that preprocessing a file found: expressions it could not
/// evaluate, includes it could not resolve, macros it could not find, and
/// the ranges of code it left out.
pub struct PreprocessErrors {
    pub evaluation_errors: Vec<(Range, String)>,
    pub unresolved_include_errors: Vec<(Range, String)>,
    pub macro_not_found_errors: Vec<(Range, String)>,
    pub inactive_ranges: Vec<Range>,
}

/// A source file.
#[derive(Debug, Clone, Copy, PartialEq, Eq, Structural)]
pub struct File {
    pub id: FileId,
}

pub open spec fn scope_of(def: FileDef) -> Option<MethodmapId> {
    match def {
        FileDef::Methodmap(id) => Some(id),
        _ => None,
    }
}

/// The diagnostics of the definitions `decls`, each with the methodmap it
/// belongs to, definition after definition.
pub open spec fn decls_origins<D: HirDatabase>(db: &D, decls: Seq<FileDef>) -> Seq<(Option<MethodmapId>, DiagOrigin)>
    decreases decls.len(),
{
    if decls.len() == 0 {
        seq![]
    } else {
        decls_origins(db, decls.drop_last()) + file_def_origins(db, decls.last()).map_values(
            |o: DiagOrigin| (scope_of(decls.last()), o),
        )
    }
}

/// `a` reports the range `r` as inactive code.
pub open spec fn reports_inactive(r: Range, a: AnyDiagnostic) -> bool {
    match a {
        AnyDiagnostic::InactiveCode(b) => b.range == r,
        _ => false,
    }
}

/// `a` reports the preprocessing problem `e` as `kind` says: an evaluation
/// error, an unresolved include or a missing macro.
pub open spec fn reports(kind: int, e: (Range, String), a: AnyDiagnostic) -> bool {
    match a {
        AnyDiagnostic::PreprocessorEvaluationError(b) => kind == 0 && b.range == e.0 && b.text@ == e.1@,
        AnyDiagnostic::UnresolvedInclude(b) => kind == 1 && b.range == e.0 && b.path@ == e.1@,
        AnyDiagnostic::UnresolvedMacro(b) => kind == 2 && b.range == e.0 && b.name@ == e.1@,
        _ => false,
    }
}

/// Appends the reports of the problems `errors` of kind `kind`.
fn report_errors(kind: u8, errors: &Vec<(Range, String)>, acc: &mut Vec<AnyDiagnostic>)
    requires
        kind < 3,
    ensures
        final(acc).len() == old(acc).len() + errors.len(),
        forall|j: int| 0 <= j < old(acc).len() ==> final(acc)@[j] == old(acc)@[j],
        forall|k: int| 0 <= k < errors.len() ==> reports(kind as int, #[trigger] errors@[k], final(acc)@[old(acc).len() + k]),
{
    let ghost a0 = acc@;
    let mut i: usize = 0;
    while i < errors.len()
        invariant
            0 <= i <= errors.len(),
            kind < 3,
            acc.len() == a0.len() + i,
            forall|j: int| 0 <= j < a0.len() ==> acc@[j] == a0[j],
            forall|k: int| 0 <= k < i ==> reports(kind as int, #[trigger] errors@[k], acc@[a0.len() + k]),
        decreases errors.len() - i,
    {
        let (range, text) = &errors[i];
        let d = if kind == 0 {
            AnyDiagnostic::PreprocessorEvaluationError(Box::new(PreprocessorEvaluationError { range: *range, text: text.clone() }))
        } else if kind == 1 {
            AnyDiagnostic::UnresolvedInclude(Box::new(UnresolvedInclude { range: *range, path: text.clone() }))
        } else {
            AnyDiagnostic::UnresolvedMacro(Box::new(UnresolvedMacro { range: *range, name: text.clone() }))
        };
        acc.push(d);
        i = i + 1;
    }
}

impl File {
    /// Appends the diagnostics of the file: its evaluation errors, unresolved
    /// includes and missing macros, its inactive ranges, then the diagnostics
    /// of each of its declarations `decls`.
    pub fn diagnostics<D: HirDatabase>(self, db: &D, errors: &PreprocessErrors, decls: &Vec<FileDef>, acc: &mut Vec<AnyDiagnostic>)
        requires
            forall|k: int| 0 <= k < decls.len() ==> diagnostics_ready(db, #[trigger] decls@[k]),
        ensures
            ({
                let n0 = old(acc).len();
                let n1 = n0 + errors.evaluation_errors.len();
                let n2 = n1 + errors.unresolved_include_errors.len();
                let n3 = n2 + errors.macro_not_found_errors.len();
                let n4 = n3 + errors.inactive_ranges.len();
                let os = decls_origins(db, decls@);
                &&& final(acc).len() == n4 + os.len()
                &&& forall|j: int| 0 <= j < n0 ==> final(acc)@[j] == old(acc)@[j]
                &&& forall|k: int|
                    0 <= k < errors.evaluation_errors.len() ==> reports(0, #[trigger] errors.evaluation_errors@[k], final(acc)@[n0 + k])
                &&& forall|k: int|
                    0 <= k < errors.unresolved_include_errors.len() ==> reports(
                        1,
                        #[trigger] errors.unresolved_include_errors@[k],
                        final(acc)@[n1 + k],
                    )
                &&& forall|k: int|
                    0 <= k < errors.macro_not_found_errors.len() ==> reports(
                        2,
                        #[trigger] errors.macro_not_found_errors@[k],
                        final(acc)@[n2 + k],
                    )
                &&& forall|k: int|
                    0 <= k < errors.inactive_ranges.len() ==> reports_inactive(#[trigger] errors.inactive_ranges@[k], final(acc)@[n3 + k])
                &&& forall|k: int| 0 <= k < os.len() ==> origin_gives(db, (#[trigger] os[k]).0, os[k].1, final(acc)@[n4 + k])
            }),
    {
        let ghost a0 = acc@;
        report_errors(0, &errors.evaluation_errors, acc);
        let ghost a1 = acc@;
        report_errors(1, &errors.unresolved_include_errors, acc);
        let ghost a2 = acc@;
        report_errors(2, &errors.macro_not_found_errors, acc);
        let ghost a3 = acc@;
        let mut i: usize = 0;
        while i < errors.inactive_ranges.len()
            invariant
                0 <= i <= errors.inactive_ranges.len(),
                acc.len() == a3.len() + i,
                forall|j: int| 0 <= j < a3.len() ==> acc@[j] == a3[j],
                forall|k: int|
                    0 <= k < i ==> reports_inactive(#[trigger] errors.inactive_ranges@[k], acc@[a3.len() + k]),
            decreases errors.inactive_ranges.len() - i,
        {
            let ghost before = acc@;
            acc.push(AnyDiagnostic::InactiveCode(Box::new(InactiveCode { range: errors.inactive_ranges[i] })));
            proof {
                assert forall|k: int| 0 <= k < i + 1 implies reports_inactive(#[trigger] errors.inactive_ranges@[k], acc@[a3.len() + k]) by {
                    if k < i {
                        assert(acc@[a3.len() + k] == before[a3.len() + k]);
                    }
                }
            }
            i = i + 1;
        }
        let ghost a4 = acc@;
        let mut d: usize = 0;
        while d < decls.len()
            invariant
                0 <= d <= decls.len(),
                forall|k: int| 0 <= k < decls.len() ==> diagnostics_ready(db, #[trigger] decls@[k]),
                acc.len() == a4.len() + decls_origins(db, decls@.take(d as int)).len(),
                forall|j: int| 0 <= j < a4.len() ==> acc@[j] == a4[j],
                forall|k: int|
                    0 <= k < decls_origins(db, decls@.take(d as int)).len() ==> origin_gives(
                        db,
                        (#[trigger] decls_origins(db, decls@.take(d as int))[k]).0,
                        decls_origins(db, decls@.take(d as int))[k].1,
                        acc@[a4.len() + k],
                    ),
            decreases decls.len() - d,
        {
            let ghost before = acc@;
            let ghost prev = decls_origins(db, decls@.take(d as int));
            let def = decls[d];
            assert(diagnostics_ready(db, decls@[d as int]));
            let mut ds = def.diagnostics(db);
            let ghost dsv = ds@;
            acc.append(&mut ds);
            proof {
                assert(decls@.take(d + 1).drop_last() =~= decls@.take(d as int));
                assert(decls@.take(d + 1).last() == def);
                let cur = decls_origins(db, decls@.take(d + 1));
                let fo = file_def_origins(db, def);
                assert(cur == prev + fo.map_values(|o: DiagOrigin| (scope_of(def), o)));
                assert forall|k: int| 0 <= k < cur.len() implies origin_gives(db, (#[trigger] cur[k]).0, cur[k].1, acc@[a4.len() + k]) by {
                    if k < prev.len() {
                        assert(cur[k] == prev[k]);
                        assert(acc@[a4.len() + k] == before[a4.len() + k]);
                    } else {
                        let i2 = k - prev.len();
                        assert(cur[k] == (scope_of(def), fo[i2]));
                        assert(acc@[a4.len() + k] == dsv[i2]);
                    }
                }
            }
            d = d + 1;
        }
        proof {
            assert(decls@.take(decls.len() as int) =~= decls@);
            let n0 = a0.len();
            let n1 = a1.len();
            let n2 = a2.len();
            let n3 = a3.len();
            assert forall|j: int| 0 <= j < n0 implies acc@[j] == a0[j] by {
                assert(acc@[j] == a4[j]);
                assert(a4[j] == a3[j]);
                assert(a3[j] == a2[j]);
                assert(a2[j] == a1[j]);
            }
            assert forall|k: int| 0 <= k < errors.inactive_ranges.len() implies reports_inactive(#[trigger] errors.inactive_ranges@[k], acc@[n3 + k]) by {
                assert(acc@[n3 + k] == a4[n3 + k]);
            }
            assert forall|k: int| 0 <= k < errors.evaluation_errors.len() implies reports(
                0,
                #[trigger] errors.evaluation_errors@[k],
                acc@[n0 + k],
            ) by {
                assert(acc@[n0 + k] == a4[n0 + k]);
                assert(a4[n0 + k] == a3[n0 + k]);
                assert(a3[n0 + k] == a2[n0 + k]);
                assert(a2[n0 + k] == a1[n0 + k]);
            }
            assert forall|k: int| 0 <= k < errors.unresolved_include_errors.len() implies reports(
                1,
                #[trigger] errors.unresolved_include_errors@[k],
                acc@[n1 + k],
            ) by {
                assert(acc@[n1 + k] == a4[n1 + k]);
                assert(a4[n1 + k] == a3[n1 + k]);
                assert(a3[n1 + k] == a2[n1 + k]);
            }
            assert forall|k: int| 0 <= k < errors.macro_not_found_errors.len() implies reports(
                2,
                #[trigger] errors.macro_not_found_errors@[k],
                acc@[n2 + k],
            ) by {
                assert(acc@[n2 + k] == a4[n2 + k]);
                assert(a4[n2 + k] == a3[n2 + k]);
            }
        }
    }
}

/// How serious a diagnostic is.
#[derive(Debug, Clone, Copy, PartialEq, Eq, Structural)]
pub enum Severity {
    Error,
    Warning,
    WeakWarning,
}

/// The code of a diagnostic: an error or a warning of the compiler, or a lint
/// of the given severity.
#[derive(Debug, Clone, Copy)]
pub enum DiagnosticCode {
    SpCompError(&'static str),
    SpCompWarning(&'static str),
    Lint(&'static str, Severity),
}

impl DiagnosticCode {
    pub open spec fn spec_as_str(&self) -> Seq<char> {
        match self {
            DiagnosticCode::SpCompError(r) => r@,
            DiagnosticCode::SpCompWarning(r) => r@,
            DiagnosticCode::Lint(r, _) => r@,
        }
    }

    /// The text of the code.
    pub fn as_str(&self) -> (res: &'static str)
        ensures
            res@ == self.spec_as_str(),
    {
        match self {
            DiagnosticCode::SpCompError(r) | DiagnosticCode::SpCompWarning(r) | DiagnosticCode::Lint(r, _) => r,
        }
    }

    /// The severity of a diagnostic with this code: compiler errors are
    /// errors, compiler warnings warnings, a lint has its own.
    pub open spec fn spec_severity(&self) -> Severity {
        match self {
            DiagnosticCode::SpCompError(_) => Severity::Error,
            DiagnosticCode::SpCompWarning(_) => Severity::Warning,
            DiagnosticCode::Lint(_, s) => *s,
        }
    }

    pub fn severity(&self) -> (res: Severity)
        ensures
            res == self.spec_severity(),
    {
        match self {
            DiagnosticCode::SpCompError(_) => Severity::Error,
            DiagnosticCode::SpCompWarning(_) => Severity::Warning,
            DiagnosticCode::Lint(_, s) => *s,
        }
    }
}

/// A diagnostic as the editor shows it.
#[derive(Debug)]
pub struct Diagnostic {
    pub code: DiagnosticCode,
    pub message: String,
    pub range: Range,
    pub severity: Severity,
    pub unused: bool,
    pub experimental: bool,
}

/// The digit `d` (below ten) as a character.
pub open spec fn digit_char(d: nat) -> char {
    "0123456789"@[d as int]
}

/// The decimal text of `n`.
pub open spec fn decimal(n: nat) -> Seq<char>
    decreases n,
{
    if n < 10 {
        seq![digit_char(n)]
    } else {
        decimal(n / 10).push(digit_char(n % 10))
    }
}

/// Appends the decimal text of `n` to `s`.
pub fn push_decimal(s: &mut String, n: usize)
    ensures
        final(s)@ == old(s)@ + decimal(n as nat),
    decreases n,
{
    proof {
        reveal_strlit("0123456789");
    }
    if n >= 10 {
        push_decimal(s, n / 10);
    }
    let ghost s1 = s@;
    let c = "0123456789".get_char(n % 10);
    push_char(s, c);
    proof {
        if n >= 10 {
            assert(s@ =~= old(s)@ + decimal(n as nat));
        } else {
            assert(s@ =~= old(s)@ + decimal(n as nat));
        }
    }
}

/// The code of the diagnostic `d`: inactive code is a weak lint, the rest
/// are compiler errors.
pub open spec fn code_text(d: &AnyDiagnostic) -> Seq<char> {
    match d {
        AnyDiagnostic::InactiveCode(_) => "inactive-code"@,
        _ => "E0000"@,
    }
}

pub open spec fn suffix_if(b: bool, s: Seq<char>) -> Seq<char> {
    if b {
        s
    } else {
        seq![]
    }
}

/// The message of the diagnostic `d`.
pub open spec fn message_of(d: &AnyDiagnostic) -> Seq<char> {
    match d {
        AnyDiagnostic::UnresolvedInclude(d) => "file `"@ + d.path@ + "` was not found"@,
        AnyDiagnostic::UnresolvedField(d) => "no field `"@ + d.name@ + "` on type `"@ + d.receiver@ + "`"@ + suffix_if(
            d.method_with_same_name_exists,
            ", but a method with a similar name exists"@,
        ),
        AnyDiagnostic::UnresolvedMethodCall(d) => "no method `"@ + d.name@ + "` on type `"@ + d.receiver@ + "`"@
            + suffix_if(d.field_with_same_name_exists, ", but a field with a similar name exists"@),
        AnyDiagnostic::UnresolvedConstructor(d) => match d.exists {
            Some(ConstructorDiagnosticKind::Methodmap) => "methodmap `"@ + d.methodmap@ + "` does not have a constructor"@,
            Some(ConstructorDiagnosticKind::EnumStruct) => "enum struct `"@ + d.methodmap@ + "` found, expected a methodmap"@,
            None => "methodmap `"@ + d.methodmap@ + "` does not exist"@,
        },
        AnyDiagnostic::UnresolvedNamedArg(d) => "no parameter `"@ + d.name@ + "` found"@,
        AnyDiagnostic::IncorrectNumberOfArguments(d) => (if d.expected > d.actual {
            "expected at least "@
        } else {
            "expected at most "@
        }) + decimal(d.expected as nat) + " arguments for `"@ + d.name@ + "` call, found "@ + decimal(d.actual as nat),
        AnyDiagnostic::UnresolvedInherit(d) => if d.exists {
            "methodmap `"@ + d.inherit@ + "` does not exist"@
        } else {
            "`"@ + d.inherit@ + "` is not a methodmap"@
        },
        AnyDiagnostic::PreprocessorEvaluationError(d) => d.text@,
        AnyDiagnostic::UnresolvedMacro(d) => "no macro `"@ + d.name@ + "` found"@,
        AnyDiagnostic::InactiveCode(_) => "code is inactive due to preprocessor directives"@,
        AnyDiagnostic::InvalidUseOfThis(_) => "`this` can only be used in methods"@,
    }
}

/// Appends `a`, `b` and `c` to `s`.
fn push3(s: &mut String, a: &str, b: &str, c: &str)
    ensures
        final(s)@ == old(s)@ + a@ + b@ + c@,
{
    push_str(s, a);
    push_str(s, b);
    push_str(s, c);
}

/// The message that the editor shows for `d`.
pub fn message(d: &AnyDiagnostic) -> (res: String)
    ensures
        res@ == message_of(d),
{
    let mut s = String::new();
    match d {
        AnyDiagnostic::UnresolvedInclude(d) => push3(&mut s, "file `", d.path.as_str(), "` was not found"),
        AnyDiagnostic::UnresolvedField(d) => {
            push3(&mut s, "no field `", d.name.0.as_str(), "` on type `");
            push_str(&mut s, d.receiver.0.as_str());
            push_str(&mut s, "`");
            if d.method_with_same_name_exists {
                push_str(&mut s, ", but a method with a similar name exists");
            }
        },
        AnyDiagnostic::UnresolvedMethodCall(d) => {
            push3(&mut s, "no method `", d.name.0.as_str(), "` on type `");
            push_str(&mut s, d.receiver.0.as_str());
            push_str(&mut s, "`");
            if d.field_with_same_name_exists {
                push_str(&mut s, ", but a field with a similar name exists");
            }
        },
        AnyDiagnostic::UnresolvedConstructor(d) => match d.exists {
            Some(ConstructorDiagnosticKind::Methodmap) => push3(
                &mut s,
                "methodmap `",
                d.methodmap.0.as_str(),
                "` does not have a constructor",
            ),
            Some(ConstructorDiagnosticKind::EnumStruct) => push3(
                &mut s,
                "enum struct `",
                d.methodmap.0.as_str(),
                "` found, expected a methodmap",
            ),
            None => push3(&mut s, "methodmap `", d.methodmap.0.as_str(), "` does not exist"),
        },
        AnyDiagnostic::UnresolvedNamedArg(d) => push3(&mut s, "no parameter `", d.name.0.as_str(), "` found"),
        AnyDiagnostic::IncorrectNumberOfArguments(d) => {
            if d.expected > d.actual {
                push_str(&mut s, "expected at least ");
            } else {
                push_str(&mut s, "expected at most ");
            }
            push_decimal(&mut s, d.expected);
            push3(&mut s, " arguments for `", d.name.0.as_str(), "` call, found ");
            push_decimal(&mut s, d.actual);
        },
        AnyDiagnostic::UnresolvedInherit(d) => {
            if d.exists {
                push3(&mut s, "methodmap `", d.inherit.0.as_str(), "` does not exist");
            } else {
                push3(&mut s, "`", d.inherit.0.as_str(), "` is not a methodmap");
            }
        },
        AnyDiagnostic::PreprocessorEvaluationError(d) => push_str(&mut s, d.text.as_str()),
        AnyDiagnostic::UnresolvedMacro(d) => push3(&mut s, "no macro `", d.name.as_str(), "` found"),
        AnyDiagnostic::InactiveCode(_) => push_str(&mut s, "code is inactive due to preprocessor directives"),
        AnyDiagnostic::InvalidUseOfThis(_) => push_str(&mut s, "`this` can only be used in methods"),
    }
    proof {
        assert(s@ =~= message_of(d));
    }
    s
}

/// The code of the diagnostic `d`.
pub fn code(d: &AnyDiagnostic) -> (res: DiagnosticCode)
    ensures
        res.spec_as_str() == code_text(d),
        match d {
            AnyDiagnostic::InactiveCode(_) => res matches DiagnosticCode::Lint(_, Severity::WeakWarning),
            _ => res is SpCompError,
        },
{
    match d {
        AnyDiagnostic::InactiveCode(_) => DiagnosticCode::Lint("inactive-code", Severity::WeakWarning),
        _ => DiagnosticCode::SpCompError("E0000"),
    }
}

/// The diagnostic that the editor shows for `d`, at `range`: its code,
/// message and severity; inactive code is shown as unused.
pub fn to_diagnostic(d: &AnyDiagnostic, range: Range) -> (res: Diagnostic)
    ensures
        res.code.spec_as_str() == code_text(d),
        res.message@ == message_of(d),
        res.range == range,
        res.severity == res.code.spec_severity(),
        res.severity == (if d is InactiveCode {
            Severity::WeakWarning
        } else {
            Severity::Error
        }),
        res.unused == d is InactiveCode,
        !res.experimental,
{
    let code = code(d);
    let severity = code.severity();
    let unused = match d {
        AnyDiagnostic::InactiveCode(_) => true,
        _ => false,
    };
    Diagnostic { code, message: message(d), range, severity, unused, experimental: false }
}


/// The decimal text of a number reads back as that number: the counts in a
/// message parse to the counts of the diagnostic.
pub proof fn law_decimal_parses(n: u32)
    ensures
        crate::pattern::parse_u32_spec(decimal(n as nat)) == Some(n),
{
    lemma_decimal_value(n as nat);
    let d = decimal(n as nat);
    assert(d[0] != '+');
    assert(crate::pattern::unsigned_digits(d) == d);
}

proof fn lemma_decimal_value(n: nat)
    ensures
        crate::pattern::is_ascii_digits(decimal(n)),
        crate::pattern::decimal_value(decimal(n)) == n,
        decimal(n).len() > 0,
        '0' <= decimal(n)[0] <= '9',
    decreases n,
{
    reveal_strlit("0123456789");
    let c = digit_char(n % 10);
    assert('0' <= c <= '9');
    assert(c as int - '0' as int == n % 10) by {
        let k = n % 10;
        assert(0 <= k < 10);
        if k == 0 { assert(c == '0'); } else if k == 1 { assert(c == '1'); } else if k == 2 { assert(c == '2'); }
        else if k == 3 { assert(c == '3'); } else if k == 4 { assert(c == '4'); } else if k == 5 { assert(c == '5'); }
        else if k == 6 { assert(c == '6'); } else if k == 7 { assert(c == '7'); } else if k == 8 { assert(c == '8'); }
        else { assert(c == '9'); }
    }
    if n >= 10 {
        lemma_decimal_value(n / 10);
        let p = decimal(n / 10);
        let d = p.push(c);
        assert(d.drop_last() =~= p);
        assert(d.last() == c);
        assert(crate::pattern::decimal_value(d) == crate::pattern::decimal_value(p) * 10 + (c as int - '0' as int));
        assert((n / 10) * 10 + n % 10 == n);
        assert forall|i: int| 0 <= i < d.len() implies '0' <= #[trigger] d[i] <= '9' by {
            if i < p.len() {
                assert(d[i] == p[i]);
            }
        }
        assert(d[0] == p[0]);
    } else {
        assert(n % 10 == n);
        let d = seq![c];
        assert(d.drop_last() =~= Seq::<char>::empty());
        assert(crate::pattern::decimal_value(d.drop_last()) == 0);
        assert(crate::pattern::decimal_value(d) == crate::pattern::decimal_value(d.drop_last()) * 10 + (c as int - '0' as int));
    }
}

/// The number of bytes of `c` in UTF-8.
pub open spec fn utf8_len(c: char) -> nat {
    if (c as u32) < 0x80 {
        1
    } else if (c as u32) < 0x800 {
        2
    } else if (c as u32) < 0x10000 {
        3
    } else {
        4
    }
}

/// The number of bytes of `c` in UTF-8.
fn char_utf8_len(c: char) -> (res: usize)
    ensures
        res == utf8_len(c),
{
    let u = c as u32;
    if u < 0x80 {
        1
    } else if u < 0x800 {
        2
    } else if u < 0x10000 {
        3
    } else {
        4
    }
}

/// The state of a scan of `s`: the bytes read, the row (counted from one),
/// the column, and the byte at which the current row starts.
pub open spec fn scan_text(s: Seq<char>) -> (nat, nat, nat, nat)
    decreases s.len(),
{
    if s.len() == 0 {
        (0, 1, 0, 0)
    } else {
        let (current, row, col, col_byte) = scan_text(s.drop_last());
        let c = s.last();
        if c == '\n' {
            (current + utf8_len(c), row + 1, 0, current + utf8_len(c))
        } else {
            (current + utf8_len(c), row, (current - col_byte + 1) as nat, col_byte)
        }
    }
}

proof fn lemma_scan_bounds(s: Seq<char>)
    ensures
        scan_text(s).0 <= 4 * s.len(),
        scan_text(s).1 <= s.len() + 1,
        scan_text(s).3 <= scan_text(s).0,
        scan_text(s).2 <= scan_text(s).0,
        scan_text(s).0 >= s.len(),
    decreases s.len(),
{
    if s.len() > 0 {
        lemma_scan_bounds(s.drop_last());
    }
}

/// The row and column of byte `byte_index` of `s`: those of the scan of the
/// first prefix of `s`, from the `k`-th on, that spans that many bytes;
/// `None` when no prefix does.
pub open spec fn row_col_from(s: Seq<char>, byte_index: nat, k: int) -> Option<(nat, nat)>
    decreases s.len() + 1 - k,
{
    if k < 0 || k > s.len() {
        None
    } else if scan_text(s.take(k)).0 == byte_index {
        Some((scan_text(s.take(k)).1, scan_text(s.take(k)).2))
    } else {
        row_col_from(s, byte_index, k + 1)
    }
}

/// The row and column of byte `byte_index` of `s`.
pub open spec fn spec_byte_to_row_col(s: Seq<char>, byte_index: nat) -> Option<(nat, nat)> {
    row_col_from(s, byte_index, 0)
}

/// The row (counted from one) and column of byte `byte_index` of `input`,
/// when a character starts there or it is the end of the text.
pub fn byte_to_row_col(input: &str, byte_index: usize) -> (res: Option<(usize, usize)>)
    requires
        4 * input@.len() < usize::MAX,
    ensures
        match res {
            Some((row, col)) => spec_byte_to_row_col(input@, byte_index as nat) == Some((row as nat, col as nat)),
            None => spec_byte_to_row_col(input@, byte_index as nat) is None,
        },
{
    let n = input.unicode_len();
    let mut current_byte: usize = 0;
    let mut row: usize = 1;
    let mut col: usize = 0;
    let mut col_byte: usize = 0;
    let mut i: usize = 0;
    assert(input@.take(0) =~= Seq::<char>::empty());
    while i < n
        invariant
            n == input@.len(),
            4 * n < usize::MAX,
            0 <= i <= n,
            (current_byte as nat, row as nat, col as nat, col_byte as nat) == scan_text(input@.take(i as int)),
            spec_byte_to_row_col(input@, byte_index as nat) == row_col_from(input@, byte_index as nat, i as int),
        decreases n - i,
    {
        proof {
            lemma_scan_bounds(input@.take(i as int));
            lemma_scan_bounds(input@.take(i + 1));
        }
        if current_byte == byte_index {
            return Some((row, col));
        }
        let c = input.get_char(i);
        let len = char_utf8_len(c);
        proof {
            let t = input@.take(i + 1);
            assert(t.drop_last() =~= input@.take(i as int));
            assert(t.last() == c);
        }
        if c == '\n' {
            row = row + 1;
            col = 0;
            col_byte = current_byte + len;
        } else {
            col = current_byte - col_byte + 1;
        }
        current_byte = current_byte + len;
        i = i + 1;
    }
    assert(input@.take(n as int) =~= input@);
    if current_byte == byte_index {
        return Some((row, col));
    }
    assert(row_col_from(input@, byte_index as nat, n + 1) is None);
    None
}

} // verus!
