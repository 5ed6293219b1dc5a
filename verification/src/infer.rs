//! Inference over the body of a definition: the type of each expression, the
//! field, property or method that each access resolves to, and the
//! diagnostics of what does not resolve.
use vstd::prelude::*;
use std::sync::Arc;
use crate::base_db::FileId;
use crate::data::{
    DataDatabase, count_mandatory, item_method, lemma_count_mandatory_bound, lemma_lookup_name_bound, opt_type_view,
    EnumStructData, EnumStructItemData, FunctionData, MethodmapData, MethodmapItemData,
};
use crate::hir::{lower_dim, Body, Expr, ExprId, Literal, Name, SwitchCase, TypeRef, TypeRefView, expr_children};
use crate::ids::{
    DefWithBodyId, EnumStructId, FuncenumId, FunctagId, FunctionId, GlobalId, InFile, MethodmapId, PropertyId,
    TypedefId, TypesetId,
};
use crate::resolver::{inner_scopes_of, opt_view, scope_wf, spec_resolve, Resolver, Scope, ValueNs, ValueNsView};
use crate::scope::ExprScopes;

verus! {

/// A field of an enum struct: the enum struct and the field's member index.
#[derive(Debug, Clone, Copy, PartialEq, Eq, Structural, Hash)]
pub struct FieldId {
    pub parent: EnumStructId,
    pub local_id: usize,
}

/// What a field or property access resolves to.
#[derive(Debug, Clone, Copy, PartialEq, Eq, Structural)]
pub enum AttributeId {
    FieldId(FieldId),
    PropertyId(PropertyId),
}

/// What kind of type a constructor was looked for in.
#[derive(Debug, Clone, Copy, PartialEq, Eq, Structural)]
pub enum ConstructorDiagnosticKind {
    EnumStruct,
    Methodmap,
}

/// A problem found by inference.
#[derive(Debug)]
pub enum InferenceDiagnostic {
    UnresolvedField { expr: ExprId, receiver: Name, name: Name, method_with_same_name_exists: bool },
    UnresolvedMethodCall { expr: ExprId, receiver: Name, name: Name, field_with_same_name_exists: bool },
    UnresolvedConstructor { expr: ExprId, methodmap: Name, exists: Option<ConstructorDiagnosticKind> },
    UnresolvedNamedArg { expr: ExprId, name: Name, callee: Name },
    IncorrectNumberOfArguments { expr: ExprId, name: Name, expected: usize, actual: usize },
}

/// A diagnostic with names by their text.
pub enum DiagnosticView {
    UnresolvedField { expr: ExprId, receiver: Seq<char>, name: Seq<char>, method_with_same_name_exists: bool },
    UnresolvedMethodCall { expr: ExprId, receiver: Seq<char>, name: Seq<char>, field_with_same_name_exists: bool },
    UnresolvedConstructor { expr: ExprId, methodmap: Seq<char>, exists: Option<ConstructorDiagnosticKind> },
    UnresolvedNamedArg { expr: ExprId, name: Seq<char>, callee: Seq<char> },
    IncorrectNumberOfArguments { expr: ExprId, name: Seq<char>, expected: usize, actual: usize },
}

impl View for InferenceDiagnostic {
    type V = DiagnosticView;

    open spec fn view(&self) -> DiagnosticView {
        match self {
            InferenceDiagnostic::UnresolvedField { expr, receiver, name, method_with_same_name_exists } =>
                DiagnosticView::UnresolvedField {
                expr: *expr,
                receiver: receiver@,
                name: name@,
                method_with_same_name_exists: *method_with_same_name_exists,
            },
            InferenceDiagnostic::UnresolvedMethodCall { expr, receiver, name, field_with_same_name_exists } =>
                DiagnosticView::UnresolvedMethodCall {
                expr: *expr,
                receiver: receiver@,
                name: name@,
                field_with_same_name_exists: *field_with_same_name_exists,
            },
            InferenceDiagnostic::UnresolvedConstructor { expr, methodmap, exists } =>
                DiagnosticView::UnresolvedConstructor { expr: *expr, methodmap: methodmap@, exists: *exists },
            InferenceDiagnostic::UnresolvedNamedArg { expr, name, callee } => DiagnosticView::UnresolvedNamedArg {
                expr: *expr,
                name: name@,
                callee: callee@,
            },
            InferenceDiagnostic::IncorrectNumberOfArguments { expr, name, expected, actual } =>
                DiagnosticView::IncorrectNumberOfArguments {
                expr: *expr,
                name: name@,
                expected: *expected,
                actual: *actual,
            },
        }
    }
}

pub open spec fn diags_view(v: Seq<InferenceDiagnostic>) -> Seq<DiagnosticView> {
    v.map_values(|d: InferenceDiagnostic| d@)
}

/// The value recorded last for key `k` in `entries`, if any.
pub open spec fn last_value<V>(entries: Seq<(ExprId, V)>, k: ExprId) -> Option<V>
    decreases entries.len(),
{
    if entries.len() == 0 {
        None
    } else if entries.last().0 == k {
        Some(entries.last().1)
    } else {
        last_value(entries.drop_last(), k)
    }
}

/// A map from expressions to values; a later insertion for a key replaces
/// the value of an earlier one.
#[derive(Debug)]
pub struct IdMap<V> {
    entries: Vec<(ExprId, V)>,
}

impl<V: Copy> IdMap<V> {
    /// The insertions so far, in order.
    pub closed spec fn spec_entries(&self) -> Seq<(ExprId, V)> {
        self.entries@
    }

    pub fn new() -> (res: Self)
        ensures
            res.spec_entries() == Seq::<(ExprId, V)>::empty(),
    {
        IdMap { entries: Vec::new() }
    }

    pub fn insert(&mut self, k: ExprId, v: V)
        ensures
            final(self).spec_entries() == old(self).spec_entries().push((k, v)),
    {
        self.entries.push((k, v));
    }

    /// The value of key `k`.
    pub fn get(&self, k: ExprId) -> (res: Option<V>)
        ensures
            res == last_value(self.spec_entries(), k),
    {
        let mut i: usize = self.entries.len();
        assert(self.entries@.take(i as int) =~= self.entries@);
        while i > 0
            invariant
                0 <= i <= self.entries.len(),
                last_value(self.entries@, k) == last_value(self.entries@.take(i as int), k),
            decreases i,
        {
            let ghost t = self.entries@.take(i as int);
            assert(t.last() == self.entries@[i - 1]);
            if self.entries[i - 1].0 == k {
                return Some(self.entries[i - 1].1);
            }
            assert(t.drop_last() =~= self.entries@.take(i - 1));
            i = i - 1;
        }
        None
    }
}

/// The result of inference: what each access resolved to, and the diagnostics.
#[derive(Debug)]
pub struct InferenceResult {
    /// For each field/property access expr, records the field/property it resolves to.
    pub attribute_resolutions: IdMap<AttributeId>,
    /// For each method call expr, records the function it resolves to.
    pub method_resolutions: IdMap<FunctionId>,
    /// For each named argument, records the local it resolves to.
    pub named_arg_resolutions: IdMap<(DefWithBodyId, ExprId)>,
    pub diagnostics: Vec<InferenceDiagnostic>,
}

impl InferenceResult {
    pub fn new() -> (res: Self)
        ensures
            res.attribute_resolutions.spec_entries().len() == 0,
            res.method_resolutions.spec_entries().len() == 0,
            res.named_arg_resolutions.spec_entries().len() == 0,
            res.diagnostics@.len() == 0,
    {
        InferenceResult {
            attribute_resolutions: IdMap::new(),
            method_resolutions: IdMap::new(),
            named_arg_resolutions: IdMap::new(),
            diagnostics: Vec::new(),
        }
    }

    pub fn attribute_resolution(&self, expr: ExprId) -> (res: Option<AttributeId>)
        ensures
            res == last_value(self.attribute_resolutions.spec_entries(), expr),
    {
        self.attribute_resolutions.get(expr)
    }

    pub fn method_resolution(&self, expr: ExprId) -> (res: Option<FunctionId>)
        ensures
            res == last_value(self.method_resolutions.spec_entries(), expr),
    {
        self.method_resolutions.get(expr)
    }

    pub fn named_arg_resolution(&self, expr: ExprId) -> (res: Option<(DefWithBodyId, ExprId)>)
        ensures
            res == last_value(self.named_arg_resolutions.spec_entries(), expr),
    {
        self.named_arg_resolutions.get(expr)
    }
}

/// The queries on definitions that inference makes, besides those on the
/// data of definitions. Each query is a function of its argument.
pub trait InferenceDatabase: DataDatabase {
    spec fn spec_global_type(&self, id: GlobalId) -> Option<TypeRefView>;

    spec fn spec_function_ret_type(&self, id: FunctionId) -> Option<TypeRefView>;

    spec fn spec_methodmap_name(&self, id: MethodmapId) -> Seq<char>;

    spec fn spec_enum_struct_name(&self, id: EnumStructId) -> Seq<char>;

    spec fn spec_typedef_name(&self, id: TypedefId) -> Option<Seq<char>>;

    spec fn spec_typeset_name(&self, id: TypesetId) -> Seq<char>;

    spec fn spec_functag_name(&self, id: FunctagId) -> Option<Seq<char>>;

    spec fn spec_funcenum_name(&self, id: FuncenumId) -> Seq<char>;

    spec fn spec_property_type(&self, id: PropertyId) -> TypeRefView;

    spec fn spec_expr_scopes(&self, owner: DefWithBodyId) -> Arc<ExprScopes>;

    spec fn spec_function_resolver(&self, id: FunctionId) -> Resolver;

    /// The declared type of a global variable.
    fn global_type(&self, id: GlobalId) -> (res: Option<TypeRef>)
        ensures
            opt_type_view(res) == self.spec_global_type(id),
    ;

    /// The declared return type of a function.
    fn function_ret_type(&self, id: FunctionId) -> (res: Option<TypeRef>)
        ensures
            opt_type_view(res) == self.spec_function_ret_type(id),
    ;

    fn methodmap_name(&self, id: MethodmapId) -> (res: Name)
        ensures
            res@ == self.spec_methodmap_name(id),
    ;

    fn enum_struct_name(&self, id: EnumStructId) -> (res: Name)
        ensures
            res@ == self.spec_enum_struct_name(id),
    ;

    fn typedef_name(&self, id: TypedefId) -> (res: Option<Name>)
        ensures
            match res {
                Some(n) => self.spec_typedef_name(id) == Some(n@),
                None => self.spec_typedef_name(id) is None,
            },
    ;

    fn typeset_name(&self, id: TypesetId) -> (res: Name)
        ensures
            res@ == self.spec_typeset_name(id),
    ;

    fn functag_name(&self, id: FunctagId) -> (res: Option<Name>)
        ensures
            match res {
                Some(n) => self.spec_functag_name(id) == Some(n@),
                None => self.spec_functag_name(id) is None,
            },
    ;

    fn funcenum_name(&self, id: FuncenumId) -> (res: Name)
        ensures
            res@ == self.spec_funcenum_name(id),
    ;

    /// The declared type of a property.
    fn property_type(&self, id: PropertyId) -> (res: TypeRef)
        ensures
            res@ == self.spec_property_type(id),
    ;

    /// The scopes of the body of `owner`.
    fn expr_scopes(&self, owner: DefWithBodyId) -> (res: Arc<ExprScopes>)
        ensures
            res == self.spec_expr_scopes(owner),
            res.wf(),
    ;

    /// The resolver of the body of function `id`.
    fn function_resolver(&self, id: FunctionId) -> (res: Resolver)
        ensures
            res == self.spec_function_resolver(id),
            res.wf(),
    ;
}

/// A call being inferred: its callee expression and what the callee resolved to.
pub struct Callee {
    pub expr: ExprId,
    pub id: Option<ValueNs>,
}

pub open spec fn calls_view(v: Seq<Callee>) -> Seq<(ExprId, Option<ValueNsView>)> {
    v.map_values(|c: Callee| (c.expr, opt_view(c.id)))
}

/// The state of inference as plain values: the resolver's scopes, the
/// resolutions and diagnostics recorded so far, and the calls being inferred.
pub struct InferState {
    pub scopes: Seq<Scope>,
    pub attrs: Seq<(ExprId, AttributeId)>,
    pub methods: Seq<(ExprId, FunctionId)>,
    pub named: Seq<(ExprId, (DefWithBodyId, ExprId))>,
    pub diags: Seq<DiagnosticView>,
    pub calls: Seq<(ExprId, Option<ValueNsView>)>,
}

pub open spec fn with_scopes(st: InferState, scopes: Seq<Scope>) -> InferState {
    InferState { scopes, ..st }
}

pub open spec fn with_diag(st: InferState, d: DiagnosticView) -> InferState {
    InferState { diags: st.diags.push(d), ..st }
}

pub open spec fn with_attr(st: InferState, e: ExprId, a: AttributeId) -> InferState {
    InferState { attrs: st.attrs.push((e, a)), ..st }
}

pub open spec fn with_method(st: InferState, e: ExprId, f: FunctionId) -> InferState {
    InferState { methods: st.methods.push((e, f)), ..st }
}

pub open spec fn with_named(st: InferState, e: ExprId, local: (DefWithBodyId, ExprId)) -> InferState {
    InferState { named: st.named.push((e, local)), ..st }
}

/// Starts inferring a call whose callee is `e`.
pub open spec fn push_call(st: InferState, e: ExprId) -> InferState {
    InferState { calls: st.calls.push((e, None)), ..st }
}

/// Ends the innermost call.
pub open spec fn pop_call(st: InferState) -> InferState {
    if st.calls.len() > 0 {
        InferState { calls: st.calls.drop_last(), ..st }
    } else {
        st
    }
}

/// Records what the callee of the innermost call resolves to, unless it is known.
pub open spec fn set_call_id(st: InferState, v: ValueNsView) -> InferState {
    if st.calls.len() > 0 && st.calls.last().1 is None {
        InferState { calls: st.calls.update(st.calls.len() - 1, (st.calls.last().0, Some(v))), ..st }
    } else {
        st
    }
}

/// The first function that the callee of the innermost call resolves to.
pub open spec fn call_fn(calls: Seq<(ExprId, Option<ValueNsView>)>) -> Option<FunctionId> {
    if calls.len() == 0 {
        None
    } else {
        match calls.last().1 {
            Some(ValueNsView::FunctionId(fns)) => if fns.len() > 0 {
                Some(fns[0].value)
            } else {
                None
            },
            _ => None,
        }
    }
}

/// The scopes after a reset to a guard taken at `start` scopes.
pub open spec fn reset_scopes(scopes: Seq<Scope>, start: nat) -> Seq<Scope> {
    if start < scopes.len() {
        scopes.take(start as int)
    } else {
        scopes
    }
}

/// The scopes of a resolver after it entered the outermost local scope of
/// `owner`, whose scopes are `es`.
pub open spec fn first_local_scopes(scopes: Seq<Scope>, es: Arc<ExprScopes>, owner: DefWithBodyId) -> Seq<Scope> {
    if es.scopes.len() > 0 {
        scopes.push(Scope::Expr(crate::resolver::ExprScope { owner, expr_scopes: es, scope_id: 0 }))
    } else {
        scopes
    }
}

/// The largest number of arguments of a function: none when it is variadic.
pub open spec fn max_params(data: FunctionData) -> Option<usize> {
    if exists|k: int| 0 <= k < data.params.len() && (#[trigger] data.params@[k]).is_rest {
        None
    } else {
        Some(data.params.len())
    }
}

/// The return type of the last of the functions `fns`.
pub open spec fn last_ret_type<D: InferenceDatabase>(db: &D, fns: Seq<InFile<FunctionId>>) -> Option<TypeRefView> {
    if fns.len() == 0 {
        None
    } else {
        db.spec_function_ret_type(fns.last().value)
    }
}

pub open spec fn opt_name_type(n: Option<Seq<char>>) -> Option<TypeRefView> {
    match n {
        Some(n) => Some(TypeRefView::Name(n)),
        None => None,
    }
}

/// Inference of an identifier `n`: the type of what it resolves to; a
/// function also becomes the callee of the innermost call.
pub open spec fn spec_infer_ident<D: InferenceDatabase>(db: &D, body: &Body, fid: FileId, st: InferState, n: Seq<char>) -> (
    InferState,
    Option<TypeRefView>,
) {
    match spec_resolve(st.scopes, fid, n) {
        None => (st, None),
        Some(v) => match v {
            ValueNsView::GlobalId(it) => (st, db.spec_global_type(it.value)),
            ValueNsView::LocalId(_, _, x) => (
                st,
                if x < body.exprs.len() {
                    match body.exprs@[x as int] {
                        Expr::Binding { type_ref, .. } => opt_type_view(type_ref),
                        _ => None,
                    }
                } else {
                    None
                },
            ),
            ValueNsView::MethodmapId(it) => (st, Some(TypeRefView::Name(db.spec_methodmap_name(it.value)))),
            ValueNsView::EnumStructId(it) => (st, Some(TypeRefView::Name(db.spec_enum_struct_name(it.value)))),
            ValueNsView::FunctionId(fns) => (set_call_id(st, v), last_ret_type(db, fns)),
            ValueNsView::TypedefId(it) => (st, opt_name_type(db.spec_typedef_name(it.value))),
            ValueNsView::TypesetId(it) => (st, Some(TypeRefView::Name(db.spec_typeset_name(it.value)))),
            ValueNsView::FunctagId(it) => (st, opt_name_type(db.spec_functag_name(it.value))),
            ValueNsView::FuncenumId(it) => (st, Some(TypeRefView::Name(db.spec_funcenum_name(it.value)))),
            ValueNsView::VariantId(_) | ValueNsView::EnumId(_) | ValueNsView::MacroId(_) | ValueNsView::StructId(_) => (st, None),
        },
    }
}

/// Inference of `new name(..)` at `e`: the methodmap's constructor, or a diagnostic.
pub open spec fn spec_infer_constructor<D: InferenceDatabase>(db: &D, fid: FileId, st: InferState, e: ExprId, name: Seq<char>) -> (
    InferState,
    Option<TypeRefView>,
) {
    let unresolved = |exists: Option<ConstructorDiagnosticKind>|
        with_diag(st, DiagnosticView::UnresolvedConstructor { expr: e, methodmap: name, exists });
    match spec_resolve(st.scopes, fid, name) {
        Some(ValueNsView::EnumStructId(_)) => (unresolved(Some(ConstructorDiagnosticKind::EnumStruct)), None),
        Some(ValueNsView::MethodmapId(it)) => {
            let data = db.spec_methodmap_data(it.value);
            let ctor = match data.constructor {
                Some(c) => item_method(data.items@[c as int]),
                None => None,
            };
            match ctor {
                Some(f) => (with_method(st, e, f), Some(TypeRefView::Name(name))),
                None => (unresolved(Some(ConstructorDiagnosticKind::Methodmap)), None),
            }
        },
        _ => (unresolved(None), None),
    }
}

/// Inference of the access of `name` on a target of type `target_ty`, at `e`:
/// the field or property it resolves to and its type, or a diagnostic.
pub open spec fn spec_field_access<D: InferenceDatabase>(
    db: &D,
    fid: FileId,
    st: InferState,
    e: ExprId,
    target_ty: Option<TypeRefView>,
    name: Seq<char>,
) -> (InferState, Option<TypeRefView>) {
    match target_ty {
        Some(TypeRefView::Name(tn)) => {
            let unresolved = |same: bool|
                with_diag(
                    st,
                    DiagnosticView::UnresolvedField { expr: e, receiver: tn, name, method_with_same_name_exists: same },
                );
            match spec_resolve(st.scopes, fid, tn) {
                None => (st, None),
                Some(ValueNsView::EnumStructId(it)) => {
                    let data = db.spec_enum_struct_data(it.value);
                    match data.items_map.spec_get(name) {
                        Some(i) => match data.items@[i as int] {
                            EnumStructItemData::Field(f) => (
                                with_attr(st, e, AttributeId::FieldId(FieldId { parent: it.value, local_id: i })),
                                Some(f.type_ref@),
                            ),
                            EnumStructItemData::Method(_) => (unresolved(true), None),
                        },
                        None => (unresolved(false), None),
                    }
                },
                Some(ValueNsView::MethodmapId(it)) => {
                    let data = db.spec_methodmap_data(it.value);
                    match data.items_map.spec_get(name) {
                        Some(i) => match data.items@[i as int] {
                            MethodmapItemData::Property(p) => (
                                with_attr(st, e, AttributeId::PropertyId(p.id)),
                                Some(db.spec_property_type(p.id)),
                            ),
                            _ => (unresolved(true), None),
                        },
                        None => (unresolved(false), None),
                    }
                },
                Some(_) => (unresolved(false), None),
            }
        },
        _ => (st, None),
    }
}

/// Inference of the call of method `name` on a target of type `target_ty`,
/// at `e`: the method it resolves to and its return type, or a diagnostic.
pub open spec fn spec_method_call<D: InferenceDatabase>(
    db: &D,
    fid: FileId,
    st: InferState,
    e: ExprId,
    target_ty: Option<TypeRefView>,
    name: Seq<char>,
) -> (InferState, Option<TypeRefView>) {
    match target_ty {
        Some(TypeRefView::Name(tn)) => {
            let unresolved = |same: bool|
                with_diag(
                    st,
                    DiagnosticView::UnresolvedMethodCall { expr: e, receiver: tn, name, field_with_same_name_exists: same },
                );
            match spec_resolve(st.scopes, fid, tn) {
                None => (st, None),
                Some(ValueNsView::EnumStructId(it)) => {
                    let data = db.spec_enum_struct_data(it.value);
                    match data.items_map.spec_get(name) {
                        Some(i) => match data.items@[i as int] {
                            EnumStructItemData::Field(_) => (unresolved(true), None),
                            EnumStructItemData::Method(m) => (
                                set_call_id(
                                    with_method(st, e, m),
                                    ValueNsView::FunctionId(seq![InFile { file_id: it.file_id, value: m }]),
                                ),
                                db.spec_function_ret_type(m),
                            ),
                        },
                        None => (unresolved(false), None),
                    }
                },
                Some(ValueNsView::MethodmapId(it)) => {
                    let data = db.spec_methodmap_data(it.value);
                    match data.items_map.spec_get(name) {
                        Some(i) => match item_method(data.items@[i as int]) {
                            None => (unresolved(true), None),
                            Some(m) => (with_method(st, e, m), db.spec_function_ret_type(m)),
                        },
                        None => (unresolved(false), None),
                    }
                },
                Some(_) => (unresolved(false), None),
            }
        },
        _ => (st, None),
    }
}

/// The check of the number of arguments `args` of the call at `e` against the
/// function the callee resolved to.
pub open spec fn spec_arity_check<D: InferenceDatabase>(db: &D, st: InferState, e: ExprId, args: Seq<ExprId>) -> InferState {
    match call_fn(st.calls) {
        Some(f) => {
            let data = *db.spec_function_data(f);
            let min = count_mandatory(data.params@);
            let max: usize = match max_params(data) {
                Some(m) => m,
                None => usize::MAX,
            };
            if args.len() < min || args.len() > max {
                with_diag(
                    st,
                    DiagnosticView::IncorrectNumberOfArguments {
                        expr: if args.len() > 0 {
                            args.last()
                        } else {
                            e
                        },
                        name: data.name@,
                        expected: if args.len() < min {
                            min as usize
                        } else {
                            max
                        },
                        actual: args.len() as usize,
                    },
                )
            } else {
                st
            }
        },
        None => st,
    }
}

/// The arity check of a call to function `f`: fewer arguments than `f` has
/// mandatory parameters adds one `IncorrectNumberOfArguments` diagnostic, on the
/// last argument (or the call), expecting that number; more arguments than `f`
/// has parameters, when it has no rest parameter, adds one expecting that
/// number; any count in between adds nothing. Nothing else of the state changes.
pub proof fn law_arity_check<D: InferenceDatabase>(db: &D, st: InferState, e: ExprId, args: Seq<ExprId>, f: FunctionId)
    requires
        call_fn(st.calls) == Some(f),
        args.len() <= usize::MAX,
    ensures
        args.len() < count_mandatory(db.spec_function_data(f).params@) ==> spec_arity_check(db, st, e, args) == (InferState {
            diags: st.diags.push(
                DiagnosticView::IncorrectNumberOfArguments {
                    expr: if args.len() > 0 { args.last() } else { e },
                    name: db.spec_function_data(f).name@,
                    expected: count_mandatory(db.spec_function_data(f).params@) as usize,
                    actual: args.len() as usize,
                },
            ),
            ..st
        }),
        count_mandatory(db.spec_function_data(f).params@) <= args.len() && (forall|k: int|
            0 <= k < db.spec_function_data(f).params.len() ==> !(#[trigger] db.spec_function_data(f).params@[k]).is_rest)
            && args.len() > db.spec_function_data(f).params.len() ==> spec_arity_check(db, st, e, args) == (InferState {
            diags: st.diags.push(
                DiagnosticView::IncorrectNumberOfArguments {
                    expr: args.last(),
                    name: db.spec_function_data(f).name@,
                    expected: db.spec_function_data(f).params.len(),
                    actual: args.len() as usize,
                },
            ),
            ..st
        }),
        count_mandatory(db.spec_function_data(f).params@) <= args.len() && ((exists|k: int|
            0 <= k < db.spec_function_data(f).params.len() && (#[trigger] db.spec_function_data(f).params@[k]).is_rest)
            || args.len() <= db.spec_function_data(f).params.len()) ==> spec_arity_check(db, st, e, args) == st,
{
}

/// Inference of the named argument `name = value` at `e`: the parameter of the
/// called function it names, or a diagnostic; then the value.
pub open spec fn spec_named_arg_target<D: InferenceDatabase>(db: &D, body: &Body, st: InferState, name: ExprId) -> Option<InferState> {
    match call_fn(st.calls) {
        None => None,
        Some(f) => {
            let r = db.spec_function_resolver(f);
            let owner = DefWithBodyId::FunctionId(f);
            let scopes = first_local_scopes(r.scopes@, db.spec_expr_scopes(owner), owner);
            if name < body.exprs.len() {
                match body.exprs@[name as int] {
                    Expr::Ident(n) => Some(
                        match spec_resolve(scopes, r.file_id, n@) {
                            Some(ValueNsView::LocalId(_, local, idx)) => with_named(st, name, (local, idx)),
                            _ => with_diag(
                                st,
                                DiagnosticView::UnresolvedNamedArg {
                                    expr: name,
                                    name: n@,
                                    callee: db.spec_function_data(f).name@,
                                },
                            ),
                        },
                    ),
                    _ => None,
                }
            } else {
                None
            }
        },
    }
}

/// Inference of child `c` of expression `parent`.
pub open spec fn spec_infer_child<D: InferenceDatabase>(
    db: &D,
    body: &Body,
    owner: DefWithBodyId,
    fid: FileId,
    st: InferState,
    parent: ExprId,
    c: ExprId,
) -> (InferState, Option<TypeRefView>)
    decreases parent, 1nat, 0nat,
{
    if c < parent {
        spec_infer(db, body, owner, fid, st, c)
    } else {
        (st, None)
    }
}

/// Inference of the children `ids` of `parent`, in order, with the type of the last.
pub open spec fn spec_infer_seq<D: InferenceDatabase>(
    db: &D,
    body: &Body,
    owner: DefWithBodyId,
    fid: FileId,
    st: InferState,
    parent: ExprId,
    ids: Seq<ExprId>,
) -> (InferState, Option<TypeRefView>)
    decreases parent, 2nat, ids.len(),
{
    if ids.len() == 0 {
        (st, None)
    } else {
        let st1 = spec_infer_seq(db, body, owner, fid, st, parent, ids.drop_last()).0;
        spec_infer_child(db, body, owner, fid, st1, parent, ids.last())
    }
}

/// Inference of the cases of the switch `parent`: the values, then the body, of each.
pub open spec fn spec_infer_cases<D: InferenceDatabase>(
    db: &D,
    body: &Body,
    owner: DefWithBodyId,
    fid: FileId,
    st: InferState,
    parent: ExprId,
    cases: Seq<SwitchCase>,
) -> InferState
    decreases parent, 3nat, cases.len(),
{
    if cases.len() == 0 {
        st
    } else {
        let st1 = spec_infer_cases(db, body, owner, fid, st, parent, cases.drop_last());
        let st2 = spec_infer_seq(db, body, owner, fid, st1, parent, cases.last().spec_values()).0;
        spec_infer_child(db, body, owner, fid, st2, parent, cases.last().spec_body()).0
    }
}

/// Inference of the optional child `c` of `parent`.
pub open spec fn spec_infer_opt<D: InferenceDatabase>(
    db: &D,
    body: &Body,
    owner: DefWithBodyId,
    fid: FileId,
    st: InferState,
    parent: ExprId,
    c: Option<ExprId>,
) -> InferState
    decreases parent, 1nat, 1nat,
{
    match c {
        Some(c) => spec_infer_child(db, body, owner, fid, st, parent, c).0,
        None => st,
    }
}

/// Inference of expression `e` of the body of `owner` in file `fid`, from
/// state `st`: the state after it and the type of the expression.
pub open spec fn spec_infer<D: InferenceDatabase>(
    db: &D,
    body: &Body,
    owner: DefWithBodyId,
    fid: FileId,
    st: InferState,
    e: ExprId,
) -> (InferState, Option<TypeRefView>)
    decreases e, 4nat, 0nat,
{
    if e >= body.exprs.len() {
        (st, None)
    } else {
        match body.exprs@[e as int] {
            Expr::Block { statements, .. } => {
                let start = st.scopes.len();
                let entered = with_scopes(
                    st,
                    st.scopes + inner_scopes_of(st.scopes, db.spec_expr_scopes(owner), owner, e),
                );
                let st1 = spec_infer_seq(db, body, owner, fid, entered, e, statements@).0;
                (with_scopes(st1, reset_scopes(st1.scopes, start)), None)
            },
            Expr::CommaExpr(es) => spec_infer_seq(db, body, owner, fid, st, e, es@),
            Expr::Loop { initialization, condition, iteration, body: loop_body } => {
                let st1 = spec_infer_seq(db, body, owner, fid, st, e, initialization@).0;
                let st2 = spec_infer_opt(db, body, owner, fid, st1, e, condition);
                let st3 = spec_infer_opt(db, body, owner, fid, st2, e, iteration);
                (spec_infer_opt(db, body, owner, fid, st3, e, loop_body), None)
            },
            Expr::Condition { condition, then_branch, else_branch } => {
                let st1 = spec_infer_child(db, body, owner, fid, st, e, condition).0;
                let st2 = spec_infer_child(db, body, owner, fid, st1, e, then_branch).0;
                (spec_infer_opt(db, body, owner, fid, st2, e, else_branch), None)
            },
            Expr::Switch { condition, cases } => {
                let st1 = spec_infer_child(db, body, owner, fid, st, e, condition).0;
                (spec_infer_cases(db, body, owner, fid, st1, e, cases@), None)
            },
            Expr::NamedArg { name, value } => match spec_named_arg_target(db, body, st, name) {
                Some(st1) => spec_infer_child(db, body, owner, fid, st1, e, value),
                None => (st, None),
            },
            Expr::New { name, args } => {
                let st1 = spec_infer_seq(db, body, owner, fid, st, e, args@).0;
                spec_infer_constructor(db, fid, st1, e, name@)
            },
            Expr::FieldAccess { target, name } => {
                let (st1, ty) = spec_infer_child(db, body, owner, fid, st, e, target);
                spec_field_access(db, fid, st1, e, ty, name@)
            },
            Expr::ScopeAccess { scope, field } => {
                let (st1, ty) = spec_infer_child(db, body, owner, fid, st, e, scope);
                spec_field_access(db, fid, st1, e, ty, field@)
            },
            Expr::UnaryOp { operand, .. } => spec_infer_child(db, body, owner, fid, st, e, operand),
            Expr::BinaryOp { lhs, rhs, .. } => {
                // The type of the left-hand side is taken to be that of the right-hand side.
                let st1 = spec_infer_child(db, body, owner, fid, st, e, lhs).0;
                spec_infer_child(db, body, owner, fid, st1, e, rhs)
            },
            Expr::TernaryOp { condition, then_branch, else_branch } => {
                let st1 = spec_infer_child(db, body, owner, fid, st, e, condition).0;
                let st2 = spec_infer_child(db, body, owner, fid, st1, e, then_branch).0;
                spec_infer_child(db, body, owner, fid, st2, e, else_branch)
            },
            Expr::ArrayIndexedAccess { array, index } => {
                let st1 = spec_infer_child(db, body, owner, fid, st, e, index).0;
                let (st2, ty) = spec_infer_child(db, body, owner, fid, st1, e, array);
                (
                    st2,
                    match ty {
                        Some(t) => Some(lower_dim(t)),
                        None => None,
                    },
                )
            },
            Expr::ViewAs { operand, type_ref } => {
                let st1 = spec_infer_child(db, body, owner, fid, st, e, operand).0;
                (st1, Some(type_ref@))
            },
            Expr::Literal(lit) => match lit {
                Literal::Int(_) => (st, Some(TypeRefView::Int)),
                Literal::Bool(_) => (st, Some(TypeRefView::Bool)),
                Literal::Float(_) => (st, Some(TypeRefView::Float)),
                Literal::Char(_) => (st, Some(TypeRefView::Char)),
                Literal::String(_) => (st, Some(TypeRefView::OldString)),
                Literal::Null => (st, Some(TypeRefView::Void)),
                Literal::Array(elements) => spec_infer_seq(db, body, owner, fid, st, e, elements@),
            },
            Expr::Control { operand, .. } => (spec_infer_opt(db, body, owner, fid, st, e, operand), None),
            Expr::Ident(n) => spec_infer_ident(db, body, fid, st, n@),
            Expr::MethodCall { target, method_name, args } => {
                let st1 = push_call(st, target);
                let (st2, tty) = spec_infer_child(db, body, owner, fid, st1, e, target);
                let (st3, ty) = spec_method_call(db, fid, st2, e, tty, method_name@);
                let st4 = spec_infer_seq(db, body, owner, fid, st3, e, args@).0;
                (pop_call(st4), ty)
            },
            Expr::Call { callee, args } => {
                let st1 = push_call(st, callee);
                let (st2, ty) = spec_infer_child(db, body, owner, fid, st1, e, callee);
                let st3 = spec_infer_seq(db, body, owner, fid, st2, e, args@).0;
                let st4 = spec_arity_check(db, st3, e, args@);
                (pop_call(st4), ty)
            },
            Expr::Decl(bindings) => (spec_infer_seq(db, body, owner, fid, st, e, bindings@).0, None),
            Expr::Binding { initializer, type_ref, .. } => (
                spec_infer_opt(db, body, owner, fid, st, e, initializer),
                opt_type_view(type_ref),
            ),
            Expr::DynamicArray { identifier } => (spec_infer_child(db, body, owner, fid, st, e, identifier).0, None),
            Expr::Missing | Expr::This => (st, None),
        }
    }
}

/// Every binding that the scope arena `es` records is an expression below `n`.
pub open spec fn entries_below(es: &ExprScopes, n: nat) -> bool {
    forall|x: int| 0 <= x < es.scope_entries.len() ==> (#[trigger] es.scope_entries@[x]) < n
}

/// Every local scope of `scopes` records bindings below `n` only.
pub open spec fn locals_below(scopes: Seq<Scope>, n: nat) -> bool {
    forall|k: int| 0 <= k < scopes.len() ==> (#[trigger] scopes[k] matches Scope::Expr(es) ==> entries_below(&*es.expr_scopes, n))
}

proof fn lemma_es_resolve_bound(es: &ExprScopes, s: usize, n: Seq<char>)
    requires
        es.wf(),
    ensures
        es.resolve(s, n) matches Some(x) ==> x < es.scope_entries.len(),
    decreases s,
{
    if s < es.scopes.len() {
        if crate::scope::declares(es.scopes@[s as int].entries@, n) {
            let i = choose|i: int|
                0 <= i < es.scopes@[s as int].entries.len() && (#[trigger] es.scopes@[s as int].entries@[i]).0@ == n;
            assert(es.scopes@[s as int].entries@[i].1 < es.scope_entries.len());
        } else {
            match es.scopes@[s as int].parent {
                crate::scope::ScopeParent::Block(p) => {
                    if p < s {
                        lemma_es_resolve_bound(es, p, n);
                    }
                },
                crate::scope::ScopeParent::File(_) => {},
            }
        }
    }
}

proof fn lemma_local_bound(scopes: Seq<Scope>, fid: FileId, n: Seq<char>, bound: nat)
    requires
        forall|k: int| 0 <= k < scopes.len() ==> scope_wf(#[trigger] scopes[k]),
        locals_below(scopes, bound),
    ensures
        spec_resolve(scopes, fid, n) matches Some(ValueNsView::LocalId(_, _, x)) ==> x < bound,
    decreases scopes.len(),
{
    if scopes.len() > 0 {
        let rest = scopes.drop_last();
        assert forall|k: int| 0 <= k < rest.len() implies scope_wf(#[trigger] rest[k]) by {
            assert(rest[k] == scopes[k]);
        }
        assert forall|k: int| 0 <= k < rest.len() implies (#[trigger] rest[k] matches Scope::Expr(es) ==> entries_below(
            &*es.expr_scopes,
            bound,
        )) by {
            assert(rest[k] == scopes[k]);
        }
        lemma_local_bound(rest, fid, n, bound);
        let last = scopes[scopes.len() - 1];
        assert(scope_wf(last));
        assert(last matches Scope::Expr(es) ==> entries_below(&*es.expr_scopes, bound));
        match last {
            Scope::Expr(es) => {
                lemma_es_resolve_bound(&*es.expr_scopes, es.scope_id, n);
            },
            _ => {},
        }
    }
}

proof fn lemma_inner_locals(scopes: Seq<Scope>, os: Arc<ExprScopes>, owner: DefWithBodyId, e: ExprId, bound: nat)
    requires
        locals_below(scopes, bound),
        entries_below(&*os, bound),
    ensures
        locals_below(scopes + inner_scopes_of(scopes, os, owner, e), bound),
{
    let inner = inner_scopes_of(scopes, os, owner, e);
    let all = scopes + inner;
    if scopes.len() > 0 && scopes.last() is Expr {
        assert(scopes[scopes.len() - 1] == scopes.last());
    }
    assert forall|k: int| 0 <= k < all.len() implies (#[trigger] all[k] matches Scope::Expr(es) ==> entries_below(
        &*es.expr_scopes,
        bound,
    )) by {
        if k < scopes.len() {
            assert(all[k] == scopes[k]);
        } else {
            assert(all[k] == inner[k - scopes.len()]);
        }
    }
}

proof fn lemma_take_keeps(scopes: Seq<Scope>, start: nat, bound: nat)
    requires
        locals_below(scopes, bound),
        forall|k: int| 0 <= k < scopes.len() ==> scope_wf(#[trigger] scopes[k]),
    ensures
        locals_below(reset_scopes(scopes, start), bound),
        forall|k: int| 0 <= k < reset_scopes(scopes, start).len() ==> scope_wf(#[trigger] reset_scopes(scopes, start)[k]),
{
    let r = reset_scopes(scopes, start);
    assert forall|k: int| 0 <= k < r.len() implies scope_wf(#[trigger] r[k]) && (r[k] matches Scope::Expr(es) ==> entries_below(
        &*es.expr_scopes,
        bound,
    )) by {
        assert(r[k] == scopes[k]);
    }
}

proof fn lemma_case_value_child(cases: Seq<SwitchCase>, j: int, k: int)
    requires
        0 <= j < cases.len(),
        0 <= k < cases[j].spec_values().len(),
    ensures
        cases_children_contains(cases, cases[j].spec_values()[k]),
    decreases cases.len(),
{
    let rest = cases.drop_last();
    let cc = crate::hir::cases_children(cases);
    if j == cases.len() - 1 {
        let pre = crate::hir::cases_children(rest);
        assert(cc[pre.len() + k] == cases.last().spec_values()[k]);
    } else {
        lemma_case_value_child(rest, j, k);
        assert(rest[j] == cases[j]);
        let i = choose|i: int| 0 <= i < crate::hir::cases_children(rest).len() && crate::hir::cases_children(rest)[i] == cases[j].spec_values()[k];
        assert(cc[i] == crate::hir::cases_children(rest)[i]);
    }
}

pub open spec fn cases_children_contains(cases: Seq<SwitchCase>, c: ExprId) -> bool {
    crate::hir::cases_children(cases).contains(c)
}

fn clone_opt_type(t: &Option<TypeRef>) -> (res: Option<TypeRef>)
    ensures
        opt_type_view(res) == opt_type_view(*t),
{
    match t {
        Some(t) => Some(t.clone()),
        None => None,
    }
}

/// The inference of a body: the database, the owner of the body, the body,
/// the result so far, the resolver, and the calls being inferred.
pub struct InferenceContext<'a, D: InferenceDatabase> {
    pub db: &'a D,
    pub owner: DefWithBodyId,
    pub body: &'a Body,
    pub result: InferenceResult,
    pub resolver: Resolver,
    pub call_stack: Vec<Callee>,
}

/// The resolutions and diagnostics of a result, as plain values.
pub open spec fn result_state(r: &InferenceResult, scopes: Seq<Scope>, calls: Seq<(ExprId, Option<ValueNsView>)>) -> InferState {
    InferState {
        scopes,
        attrs: r.attribute_resolutions.spec_entries(),
        methods: r.method_resolutions.spec_entries(),
        named: r.named_arg_resolutions.spec_entries(),
        diags: diags_view(r.diagnostics@),
        calls,
    }
}

/// The state that inference starts from, with the scopes of `scopes`.
pub open spec fn initial_state(scopes: Seq<Scope>) -> InferState {
    InferState {
        scopes,
        attrs: seq![],
        methods: seq![],
        named: seq![],
        diags: seq![],
        calls: seq![],
    }
}

impl<'a, D: InferenceDatabase> InferenceContext<'a, D> {
    pub open spec fn state(&self) -> InferState {
        result_state(&self.result, self.resolver.scopes@, calls_view(self.call_stack@))
    }

    pub open spec fn fid(&self) -> FileId {
        self.resolver.file_id
    }

    /// The resolver is well formed, the body too, and the local scopes, those
    /// of the resolver and those of the owner, record expressions of the body.
    pub open spec fn inv(&self) -> bool {
        &&& self.resolver.wf()
        &&& self.body.wf()
        &&& locals_below(self.resolver.scopes@, self.body.exprs.len() as nat)
        &&& entries_below(&*self.db.spec_expr_scopes(self.owner), self.body.exprs.len() as nat)
    }

    pub open spec fn same_ctx(&self, other: &Self) -> bool {
        &&& self.db == other.db
        &&& self.body == other.body
        &&& self.owner == other.owner
        &&& self.resolver.file_id == other.resolver.file_id
    }

    pub fn new(db: &'a D, owner: DefWithBodyId, body: &'a Body, resolver: Resolver) -> (res: Self)
        ensures
            res.db == db,
            res.owner == owner,
            res.body == body,
            res.resolver == resolver,
            res.state() == initial_state(resolver.scopes@),
    {
        let ctx = InferenceContext {
            result: InferenceResult::new(),
            db,
            owner,
            body,
            resolver,
            call_stack: Vec::new(),
        };
        assert(calls_view(ctx.call_stack@) =~= seq![]);
        assert(diags_view(ctx.result.diagnostics@) =~= seq![]);
        assert(ctx.result.attribute_resolutions.spec_entries() =~= seq![]);
        assert(ctx.result.method_resolutions.spec_entries() =~= seq![]);
        assert(ctx.result.named_arg_resolutions.spec_entries() =~= seq![]);
        ctx
    }

    fn push_call(&mut self, expr: ExprId)
        ensures
            final(self).state() == push_call(old(self).state(), expr),
            final(self).same_ctx(old(self)),
            final(self).resolver == old(self).resolver,
    {
        let ghost c0 = self.call_stack@;
        self.call_stack.push(Callee { expr, id: None });
        assert(calls_view(self.call_stack@) =~= calls_view(c0).push((expr, None)));
    }

    fn pop_call(&mut self)
        ensures
            final(self).state() == pop_call(old(self).state()),
            final(self).same_ctx(old(self)),
            final(self).resolver == old(self).resolver,
    {
        let ghost c0 = self.call_stack@;
        if self.call_stack.len() > 0 {
            let _ = self.call_stack.pop();
            assert(calls_view(self.call_stack@) =~= calls_view(c0).drop_last());
        }
    }

    /// Records what the callee of the innermost call resolves to, unless it is known.
    fn set_call_id(&mut self, v: &ValueNs)
        ensures
            final(self).state() == set_call_id(old(self).state(), v@),
            final(self).same_ctx(old(self)),
            final(self).resolver == old(self).resolver,
    {
        let n = self.call_stack.len();
        if n > 0 && self.call_stack[n - 1].id.is_none() {
            let ghost c0 = self.call_stack@;
            let expr = self.call_stack[n - 1].expr;
            self.call_stack.set(n - 1, Callee { expr, id: Some(v.duplicate()) });
            assert(calls_view(self.call_stack@) =~= calls_view(c0).update(n - 1, (expr, Some(v@))));
        }
    }

    /// The first function that the callee of the innermost call resolves to.
    fn current_call_fn(&self) -> (res: Option<FunctionId>)
        ensures
            res == call_fn(self.state().calls),
    {
        let n = self.call_stack.len();
        if n == 0 {
            return None;
        }
        assert(self.state().calls.last() == (self.call_stack@[n - 1].expr, opt_view(self.call_stack@[n - 1].id)));
        match &self.call_stack[n - 1].id {
            Some(ValueNs::FunctionId(fns)) => {
                if fns.len() > 0 {
                    Some(fns[0].value)
                } else {
                    None
                }
            },
            _ => None,
        }
    }

    fn push_diag(&mut self, d: InferenceDiagnostic)
        ensures
            final(self).state() == with_diag(old(self).state(), d@),
            final(self).same_ctx(old(self)),
            final(self).resolver == old(self).resolver,
    {
        let ghost d0 = self.result.diagnostics@;
        self.result.diagnostics.push(d);
        assert(diags_view(self.result.diagnostics@) =~= diags_view(d0).push(d@));
    }
}

proof fn lemma_children_below(body: &Body, expr: ExprId)
    requires
        body.wf(),
        expr < body.exprs.len(),
    ensures
        forall|k: int| 0 <= k < expr_children(&body.exprs@[expr as int]).len() ==> #[trigger] expr_children(&body.exprs@[expr as int])[k] < expr,
{
}

impl<'a, D: InferenceDatabase> InferenceContext<'a, D> {
    /// Infers the children `ids` of `parent` in order; the type of the last.
    fn infer_seq(&mut self, parent: ExprId, ids: &Vec<ExprId>) -> (res: Option<TypeRef>)
        requires
            old(self).inv(),
            parent < old(self).body.exprs.len(),
            forall|k: int| 0 <= k < ids.len() ==> ids@[k] < parent,
        ensures
            final(self).inv(),
            final(self).same_ctx(old(self)),
            (final(self).state(), opt_type_view(res)) == spec_infer_seq(
                old(self).db,
                old(self).body,
                old(self).owner,
                old(self).fid(),
                old(self).state(),
                parent,
                ids@,
            ),
        decreases parent, 2nat,
    {
        let ghost st0 = self.state();
        let ghost db0 = self.db;
        let ghost body0 = self.body;
        let ghost owner0 = self.owner;
        let ghost fid0 = self.fid();
        let mut ty: Option<TypeRef> = None;
        let mut i: usize = 0;
        assert(ids@.take(0) =~= Seq::<ExprId>::empty());
        while i < ids.len()
            invariant
                self.inv(),
                self.db == db0,
                self.body == body0,
                self.owner == owner0,
                self.fid() == fid0,
                0 <= i <= ids.len(),
                parent < self.body.exprs.len(),
                forall|k: int| 0 <= k < ids.len() ==> ids@[k] < parent,
                (self.state(), opt_type_view(ty)) == spec_infer_seq(db0, body0, owner0, fid0, st0, parent, ids@.take(i as int)),
            decreases ids.len() - i,
        {
            let ghost st_i = self.state();
            let ghost t = ids@.take(i + 1);
            assert(t.drop_last() =~= ids@.take(i as int));
            assert(t.last() == ids@[i as int]);
            ty = self.infer_expr(ids[i]);
            proof {
                assert(spec_infer_seq(db0, body0, owner0, fid0, st0, parent, t) == spec_infer_child(
                    db0,
                    body0,
                    owner0,
                    fid0,
                    spec_infer_seq(db0, body0, owner0, fid0, st0, parent, t.drop_last()).0,
                    parent,
                    t.last(),
                ));
                assert(spec_infer_child(db0, body0, owner0, fid0, st_i, parent, ids@[i as int]) == spec_infer(
                    db0,
                    body0,
                    owner0,
                    fid0,
                    st_i,
                    ids@[i as int],
                ));
            }
            i = i + 1;
        }
        assert(ids@.take(ids.len() as int) =~= ids@);
        ty
    }

    /// Infers the optional child `c` of `parent`.
    fn infer_opt(&mut self, parent: ExprId, c: Option<ExprId>)
        requires
            old(self).inv(),
            parent < old(self).body.exprs.len(),
            c matches Some(c) ==> c < parent,
        ensures
            final(self).inv(),
            final(self).same_ctx(old(self)),
            final(self).state() == spec_infer_opt(
                old(self).db,
                old(self).body,
                old(self).owner,
                old(self).fid(),
                old(self).state(),
                parent,
                c,
            ),
        decreases parent, 1nat,
    {
        if let Some(c) = c {
            let _ = self.infer_expr(c);
        }
    }

    /// Infers the cases of the switch `parent`: the values, then the body, of each.
    fn infer_cases(&mut self, parent: ExprId, cases: &Vec<SwitchCase>)
        requires
            old(self).inv(),
            parent < old(self).body.exprs.len(),
            forall|j: int, k: int|
                0 <= j < cases.len() && 0 <= k < cases@[j].spec_values().len() ==> #[trigger] cases@[j].spec_values()[k]
                    < parent,
            forall|j: int| 0 <= j < cases.len() ==> #[trigger] cases@[j].spec_body() < parent,
        ensures
            final(self).inv(),
            final(self).same_ctx(old(self)),
            final(self).state() == spec_infer_cases(
                old(self).db,
                old(self).body,
                old(self).owner,
                old(self).fid(),
                old(self).state(),
                parent,
                cases@,
            ),
        decreases parent, 3nat,
    {
        let ghost st0 = self.state();
        let ghost db0 = self.db;
        let ghost body0 = self.body;
        let ghost owner0 = self.owner;
        let ghost fid0 = self.fid();
        let mut i: usize = 0;
        assert(cases@.take(0) =~= Seq::<SwitchCase>::empty());
        while i < cases.len()
            invariant
                self.inv(),
                self.db == db0,
                self.body == body0,
                self.owner == owner0,
                self.fid() == fid0,
                0 <= i <= cases.len(),
                parent < self.body.exprs.len(),
                forall|j: int, k: int|
                    0 <= j < cases.len() && 0 <= k < cases@[j].spec_values().len() ==> #[trigger] cases@[j].spec_values()[k]
                        < parent,
                forall|j: int| 0 <= j < cases.len() ==> #[trigger] cases@[j].spec_body() < parent,
                self.state() == spec_infer_cases(db0, body0, owner0, fid0, st0, parent, cases@.take(i as int)),
            decreases cases.len() - i,
        {
            assert(cases@.take(i + 1).drop_last() =~= cases@.take(i as int));
            assert(cases@.take(i + 1).last() == cases@[i as int]);
            let case = &cases[i];
            let values = case.values();
            let mut vals: Vec<ExprId> = Vec::new();
            let mut k: usize = 0;
            while k < values.len()
                invariant
                    0 <= k <= values.len(),
                    values@ == case.spec_values(),
                    vals@ == values@.take(k as int),
                decreases values.len() - k,
            {
                vals.push(values[k]);
                assert(values@.take(k + 1) =~= values@.take(k as int).push(values@[k as int]));
                k = k + 1;
            }
            assert(values@.take(values.len() as int) =~= values@);
            assert forall|k: int| 0 <= k < vals.len() implies vals@[k] < parent by {
                assert(vals@[k] == cases@[i as int].spec_values()[k]);
            }
            let ghost st_i = self.state();
            assert(vals@ == cases@[i as int].spec_values());
            let _ = self.infer_seq(parent, &vals);
            let ghost st_v = self.state();
            let b = case.body();
            assert(b == cases@[i as int].spec_body());
            let _ = self.infer_expr(b);
            proof {
                let t = cases@.take(i + 1);
                assert(spec_infer_cases(db0, body0, owner0, fid0, st0, parent, t) == spec_infer_child(
                    db0,
                    body0,
                    owner0,
                    fid0,
                    spec_infer_seq(
                        db0,
                        body0,
                        owner0,
                        fid0,
                        spec_infer_cases(db0, body0, owner0, fid0, st0, parent, t.drop_last()),
                        parent,
                        t.last().spec_values(),
                    ).0,
                    parent,
                    t.last().spec_body(),
                ).0);
                assert(st_v == spec_infer_seq(db0, body0, owner0, fid0, st_i, parent, vals@).0);
                assert(spec_infer_child(db0, body0, owner0, fid0, st_v, parent, b) == spec_infer(
                    db0,
                    body0,
                    owner0,
                    fid0,
                    st_v,
                    b,
                ));
            }
            i = i + 1;
        }
        assert(cases@.take(cases.len() as int) =~= cases@);
    }

    /// Infers a block: its statements inside its scopes.
    fn infer_block(&mut self, expr: ExprId, statements: &Vec<ExprId>)
        requires
            old(self).inv(),
            expr < old(self).body.exprs.len(),
            old(self).body.exprs@[expr as int] matches Expr::Block { statements: s, .. } && s@ == statements@,
        ensures
            final(self).inv(),
            final(self).same_ctx(old(self)),
            (final(self).state(), None::<TypeRefView>) == spec_infer(
                old(self).db,
                old(self).body,
                old(self).owner,
                old(self).fid(),
                old(self).state(),
                expr,
            ),
        decreases expr, 9nat,
    {
        proof {
            lemma_children_below(self.body, expr);
            assert forall|k: int| 0 <= k < statements.len() implies statements@[k] < expr by {
                assert(expr_children(&self.body.exprs@[expr as int])[k] == statements@[k]);
            }
        }
        let ghost start = self.resolver.scopes.len();
        let scopes = self.db.expr_scopes(self.owner);
        let g = self.resolver.update_to_inner_scope(&scopes, self.owner, expr);
        proof {
            lemma_inner_locals(old(self).resolver.scopes@, scopes, self.owner, expr, self.body.exprs.len() as nat);
        }
        let _ = self.infer_seq(expr, statements);
        let ghost before_reset = self.resolver.scopes@;
        self.resolver.reset_to_guard(g);
        proof {
            lemma_take_keeps(before_reset, start as nat, self.body.exprs.len() as nat);
            assert(self.resolver.scopes@ == reset_scopes(before_reset, start as nat));
        }
    }

    /// Infers an identifier: the type of what it resolves to.
    fn infer_ident(&mut self, expr: ExprId, n: &Name) -> (res: Option<TypeRef>)
        requires
            old(self).inv(),
            expr < old(self).body.exprs.len(),
            old(self).body.exprs@[expr as int] matches Expr::Ident(m) && m@ == n@,
        ensures
            final(self).inv(),
            final(self).same_ctx(old(self)),
            (final(self).state(), opt_type_view(res)) == spec_infer(
                old(self).db,
                old(self).body,
                old(self).owner,
                old(self).fid(),
                old(self).state(),
                expr,
            ),
    {
        let body: &'a Body = self.body;
        let resolved = self.resolver.resolve_ident(n.as_str());
        proof {
            lemma_local_bound(self.resolver.scopes@, self.fid(), n@, body.exprs.len() as nat);
        }
        let v = match resolved {
            Some(v) => v,
            None => return None,
        };
        match &v {
            ValueNs::GlobalId(it) => self.db.global_type(it.value),
            ValueNs::LocalId((_, _, x)) => {
                match &body.exprs[*x] {
                    Expr::Binding { type_ref, .. } => clone_opt_type(type_ref),
                    _ => None,
                }
            },
            ValueNs::MethodmapId(it) => Some(TypeRef::Name(self.db.methodmap_name(it.value))),
            ValueNs::EnumStructId(it) => Some(TypeRef::Name(self.db.enum_struct_name(it.value))),
            ValueNs::FunctionId(fns) => {
                self.set_call_id(&v);
                let mut ret_type: Option<TypeRef> = None;
                let mut i: usize = 0;
                while i < fns.len()
                    invariant
                        0 <= i <= fns.len(),
                        opt_type_view(ret_type) == last_ret_type(self.db, fns@.take(i as int)),
                    decreases fns.len() - i,
                {
                    ret_type = self.db.function_ret_type(fns[i].value);
                    assert(fns@.take(i + 1).last() == fns@[i as int]);
                    i = i + 1;
                }
                assert(fns@.take(fns.len() as int) =~= fns@);
                ret_type
            },
            ValueNs::TypedefId(it) => match self.db.typedef_name(it.value) {
                Some(name) => Some(TypeRef::Name(name)),
                None => None,
            },
            ValueNs::TypesetId(it) => Some(TypeRef::Name(self.db.typeset_name(it.value))),
            ValueNs::FunctagId(it) => match self.db.functag_name(it.value) {
                Some(name) => Some(TypeRef::Name(name)),
                None => None,
            },
            ValueNs::FuncenumId(it) => Some(TypeRef::Name(self.db.funcenum_name(it.value))),
            ValueNs::VariantId(_) | ValueNs::EnumId(_) | ValueNs::MacroId(_) | ValueNs::StructId(_) => None,
        }
    }

    /// Infers `new name(..)` at `expr`, once its arguments are inferred.
    fn infer_constructor(&mut self, expr: ExprId, name: &Name) -> (res: Option<TypeRef>)
        requires
            old(self).inv(),
        ensures
            final(self).inv(),
            final(self).same_ctx(old(self)),
            (final(self).state(), opt_type_view(res)) == spec_infer_constructor(
                old(self).db,
                old(self).fid(),
                old(self).state(),
                expr,
                name@,
            ),
    {
        match self.resolver.resolve_ident(name.as_str()) {
            Some(ValueNs::EnumStructId(_)) => {
                self.push_diag(
                    InferenceDiagnostic::UnresolvedConstructor {
                        expr,
                        methodmap: name.clone(),
                        exists: Some(ConstructorDiagnosticKind::EnumStruct),
                    },
                );
                None
            },
            Some(ValueNs::MethodmapId(it)) => {
                let data = self.db.methodmap_data(it.value);
                if let Some(constructor_id) = data.constructor() {
                    self.result.method_resolutions.insert(expr, constructor_id);
                    Some(TypeRef::Name(name.clone()))
                } else {
                    self.push_diag(
                        InferenceDiagnostic::UnresolvedConstructor {
                            expr,
                            methodmap: name.clone(),
                            exists: Some(ConstructorDiagnosticKind::Methodmap),
                        },
                    );
                    None
                }
            },
            _ => {
                self.push_diag(InferenceDiagnostic::UnresolvedConstructor { expr, methodmap: name.clone(), exists: None });
                None
            },
        }
    }

    /// Infers the access of `name` on `target` at `receiver`.
    fn infer_field_access(&mut self, receiver: ExprId, target: ExprId, name: &Name) -> (res: Option<TypeRef>)
        requires
            old(self).inv(),
            receiver < old(self).body.exprs.len(),
            target < receiver,
        ensures
            final(self).inv(),
            final(self).same_ctx(old(self)),
            (final(self).state(), opt_type_view(res)) == ({
                let (st1, ty) = spec_infer_child(
                    old(self).db,
                    old(self).body,
                    old(self).owner,
                    old(self).fid(),
                    old(self).state(),
                    receiver,
                    target,
                );
                spec_field_access(old(self).db, old(self).fid(), st1, receiver, ty, name@)
            }),
        decreases receiver, 1nat,
    {
        let target_ty = self.infer_expr(target);
        let ty_name = match target_ty {
            Some(TypeRef::Name(n)) => n,
            _ => return None,
        };
        let resolved = match self.resolver.resolve_ident(ty_name.as_str()) {
            Some(v) => v,
            None => return None,
        };
        match resolved {
            ValueNs::EnumStructId(it) => {
                let data = self.db.enum_struct_data(it.value);
                if let Some(item) = data.items(name) {
                    match data.item(item) {
                        EnumStructItemData::Field(f) => {
                            let t = f.type_ref.clone();
                            self.result.attribute_resolutions.insert(
                                receiver,
                                AttributeId::FieldId(FieldId { parent: it.value, local_id: item }),
                            );
                            return Some(t);
                        },
                        EnumStructItemData::Method(_) => {
                            self.push_diag(
                                InferenceDiagnostic::UnresolvedField {
                                    expr: receiver,
                                    receiver: ty_name,
                                    name: name.clone(),
                                    method_with_same_name_exists: true,
                                },
                            );
                            return None;
                        },
                    }
                }
            },
            ValueNs::MethodmapId(it) => {
                let data = self.db.methodmap_data(it.value);
                if let Some(item) = data.items(name) {
                    match data.item(item) {
                        MethodmapItemData::Property(p) => {
                            let id = p.id;
                            self.result.attribute_resolutions.insert(receiver, AttributeId::PropertyId(id));
                            return Some(self.db.property_type(id));
                        },
                        _ => {
                            self.push_diag(
                                InferenceDiagnostic::UnresolvedField {
                                    expr: receiver,
                                    receiver: ty_name,
                                    name: name.clone(),
                                    method_with_same_name_exists: true,
                                },
                            );
                            return None;
                        },
                    }
                }
            },
            _ => {},
        }
        self.push_diag(
            InferenceDiagnostic::UnresolvedField {
                expr: receiver,
                receiver: ty_name,
                name: name.clone(),
                method_with_same_name_exists: false,
            },
        );
        None
    }

    /// Infers the call of method `method_name` on `target` at `receiver`,
    /// before its arguments.
    fn infer_method_call(&mut self, receiver: ExprId, target: ExprId, method_name: &Name) -> (res: Option<TypeRef>)
        requires
            old(self).inv(),
            receiver < old(self).body.exprs.len(),
            target < receiver,
        ensures
            final(self).inv(),
            final(self).same_ctx(old(self)),
            (final(self).state(), opt_type_view(res)) == ({
                let (st1, ty) = spec_infer_child(
                    old(self).db,
                    old(self).body,
                    old(self).owner,
                    old(self).fid(),
                    old(self).state(),
                    receiver,
                    target,
                );
                spec_method_call(old(self).db, old(self).fid(), st1, receiver, ty, method_name@)
            }),
        decreases receiver, 1nat,
    {
        let target_ty = self.infer_expr(target);
        let ty_name = match target_ty {
            Some(TypeRef::Name(n)) => n,
            _ => return None,
        };
        let resolved = match self.resolver.resolve_ident(ty_name.as_str()) {
            Some(v) => v,
            None => return None,
        };
        match resolved {
            ValueNs::EnumStructId(it) => {
                let data = self.db.enum_struct_data(it.value);
                if let Some(item) = data.items(method_name) {
                    match data.item(item) {
                        EnumStructItemData::Field(_) => {
                            self.push_diag(
                                InferenceDiagnostic::UnresolvedMethodCall {
                                    expr: receiver,
                                    receiver: ty_name,
                                    name: method_name.clone(),
                                    field_with_same_name_exists: true,
                                },
                            );
                            return None;
                        },
                        EnumStructItemData::Method(m) => {
                            let m = *m;
                            self.result.method_resolutions.insert(receiver, m);
                            let mut fns: Vec<InFile<FunctionId>> = Vec::new();
                            fns.push(InFile::new(it.file_id, m));
                            let v = ValueNs::FunctionId(fns);
                            assert(v@ == ValueNsView::FunctionId(seq![InFile { file_id: it.file_id, value: m }]));
                            self.set_call_id(&v);
                            return self.db.function_ret_type(m);
                        },
                    }
                }
            },
            ValueNs::MethodmapId(it) => {
                let data = self.db.methodmap_data(it.value);
                if let Some(item) = data.items(method_name) {
                    match data.method(item) {
                        None => {
                            self.push_diag(
                                InferenceDiagnostic::UnresolvedMethodCall {
                                    expr: receiver,
                                    receiver: ty_name,
                                    name: method_name.clone(),
                                    field_with_same_name_exists: true,
                                },
                            );
                            return None;
                        },
                        Some(m) => {
                            self.result.method_resolutions.insert(receiver, m);
                            return self.db.function_ret_type(m);
                        },
                    }
                }
            },
            _ => {},
        }
        self.push_diag(
            InferenceDiagnostic::UnresolvedMethodCall {
                expr: receiver,
                receiver: ty_name,
                name: method_name.clone(),
                field_with_same_name_exists: false,
            },
        );
        None
    }

    /// Checks the number of arguments of the call at `expr`.
    fn check_arity(&mut self, expr: ExprId, args: &Vec<ExprId>)
        requires
            old(self).inv(),
        ensures
            final(self).inv(),
            final(self).same_ctx(old(self)),
            final(self).state() == spec_arity_check(old(self).db, old(self).state(), expr, args@),
    {
        if let Some(f) = self.current_call_fn() {
            let data = self.db.function_data(f);
            let min = data.number_of_mandatory_parameters();
            let max = data.number_of_parameters();
            let maxv: usize = match max {
                Some(m) => m,
                None => usize::MAX,
            };
            assert(max == max_params(*data));
            if args.len() < min || args.len() > maxv {
                let e = if args.len() > 0 {
                    args[args.len() - 1]
                } else {
                    expr
                };
                let expected = if args.len() < min {
                    min
                } else {
                    maxv
                };
                self.push_diag(
                    InferenceDiagnostic::IncorrectNumberOfArguments { expr: e, name: data.name(), expected, actual: args.len() },
                );
            }
        }
    }

    /// Infers the named argument `name = value` at `expr`.
    fn infer_named_arg(&mut self, expr: ExprId, name: ExprId, value: ExprId) -> (res: Option<TypeRef>)
        requires
            old(self).inv(),
            expr < old(self).body.exprs.len(),
            old(self).body.exprs@[expr as int] == (Expr::NamedArg { name, value }),
        ensures
            final(self).inv(),
            final(self).same_ctx(old(self)),
            (final(self).state(), opt_type_view(res)) == spec_infer(
                old(self).db,
                old(self).body,
                old(self).owner,
                old(self).fid(),
                old(self).state(),
                expr,
            ),
        decreases expr, 9nat,
    {
        proof {
            lemma_children_below(self.body, expr);
            assert(expr_children(&self.body.exprs@[expr as int])[0] == name);
            assert(expr_children(&self.body.exprs@[expr as int])[1] == value);
        }
        let body: &'a Body = self.body;
        let f = match self.current_call_fn() {
            Some(f) => f,
            None => return None,
        };
        let mut resolver = self.db.function_resolver(f);
        let owner = DefWithBodyId::FunctionId(f);
        let es = self.db.expr_scopes(owner);
        resolver.update_to_first_local_scope(&es, owner);
        let n = match &body.exprs[name] {
            Expr::Ident(n) => n,
            _ => return None,
        };
        match resolver.resolve_ident(n.as_str()) {
            Some(ValueNs::LocalId((_, local, idx))) => {
                self.result.named_arg_resolutions.insert(name, (local, idx));
            },
            _ => {
                let data = self.db.function_data(f);
                self.push_diag(InferenceDiagnostic::UnresolvedNamedArg { expr: name, name: n.clone(), callee: data.name() });
            },
        }
        self.infer_expr(value)
    }

    /// Infers the type of expression `expr`, recording what its accesses and
    /// calls resolve to and the diagnostics of what does not resolve.
    pub fn infer_expr(&mut self, expr: ExprId) -> (res: Option<TypeRef>)
        requires
            old(self).inv(),
            expr < old(self).body.exprs.len(),
        ensures
            final(self).inv(),
            final(self).same_ctx(old(self)),
            (final(self).state(), opt_type_view(res)) == spec_infer(
                old(self).db,
                old(self).body,
                old(self).owner,
                old(self).fid(),
                old(self).state(),
                expr,
            ),
        decreases expr, 10nat,
    {
        let body: &'a Body = self.body;
        proof {
            lemma_children_below(body, expr);
        }
        let ghost ch = expr_children(&body.exprs@[expr as int]);
        match &body.exprs[expr] {
            Expr::Block { statements, .. } => {
                self.infer_block(expr, statements);
                None
            },
            Expr::CommaExpr(exprs) => {
                assert forall|k: int| 0 <= k < exprs.len() implies exprs@[k] < expr by {
                    assert(ch[k] == exprs@[k]);
                }
                self.infer_seq(expr, exprs)
            },
            Expr::Loop { initialization, condition, iteration, body: loop_body } => {
                assert forall|k: int| 0 <= k < initialization.len() implies initialization@[k] < expr by {
                    assert(ch[k] == initialization@[k]);
                }
                proof {
                    let n0 = initialization@.len();
                    if let Some(c) = condition {
                        assert(ch[n0 as int] == *c);
                    }
                    let n1 = n0 + crate::hir::opt_seq(*condition).len();
                    if let Some(c) = iteration {
                        assert(ch[n1 as int] == *c);
                    }
                    let n2 = n1 + crate::hir::opt_seq(*iteration).len();
                    if let Some(c) = loop_body {
                        assert(ch[n2 as int] == *c);
                    }
                }
                let _ = self.infer_seq(expr, initialization);
                self.infer_opt(expr, *condition);
                self.infer_opt(expr, *iteration);
                self.infer_opt(expr, *loop_body);
                None
            },
            Expr::Condition { condition, then_branch, else_branch } => {
                assert(ch[0] == *condition);
                assert(ch[1] == *then_branch);
                if let Some(c) = else_branch {
                    assert(ch[2] == *c);
                }
                let _ = self.infer_expr(*condition);
                let _ = self.infer_expr(*then_branch);
                self.infer_opt(expr, *else_branch);
                None
            },
            Expr::Switch { condition, cases } => {
                assert(ch[0] == *condition);
                proof {
                    assert forall|j: int, k: int|
                        0 <= j < cases.len() && 0 <= k < cases@[j].spec_values().len() implies #[trigger] cases@[j].spec_values()[k]
                            < expr by {
                        lemma_case_value_child(cases@, j, k);
                        let cc = crate::hir::cases_children(cases@);
                        let i = choose|i: int| 0 <= i < cc.len() && cc[i] == cases@[j].spec_values()[k];
                        assert(ch[i + 1] == cc[i]);
                    }
                    assert forall|j: int| 0 <= j < cases.len() implies #[trigger] cases@[j].spec_body() < expr by {
                        crate::scope::lemma_case_body_child(cases@, j);
                        let cc = crate::hir::cases_children(cases@);
                        let i = choose|i: int| 0 <= i < cc.len() && cc[i] == cases@[j].spec_body();
                        assert(ch[i + 1] == cc[i]);
                    }
                }
                let _ = self.infer_expr(*condition);
                self.infer_cases(expr, cases);
                None
            },
            Expr::NamedArg { name, value } => self.infer_named_arg(expr, *name, *value),
            Expr::New { name, args } => {
                assert forall|k: int| 0 <= k < args.len() implies args@[k] < expr by {
                    assert(ch[k] == args@[k]);
                }
                let _ = self.infer_seq(expr, args);
                self.infer_constructor(expr, name)
            },
            Expr::FieldAccess { target, name } => {
                assert(ch[0] == *target);
                self.infer_field_access(expr, *target, name)
            },
            Expr::ScopeAccess { scope, field } => {
                assert(ch[0] == *scope);
                self.infer_field_access(expr, *scope, field)
            },
            Expr::UnaryOp { operand, .. } => {
                assert(ch[0] == *operand);
                self.infer_expr(*operand)
            },
            Expr::BinaryOp { lhs, rhs, .. } => {
                assert(ch[0] == *lhs);
                assert(ch[1] == *rhs);
                let _ = self.infer_expr(*lhs);
                // The type of the left-hand side is taken to be that of the right-hand side.
                self.infer_expr(*rhs)
            },
            Expr::TernaryOp { condition, then_branch, else_branch } => {
                assert(ch[0] == *condition);
                assert(ch[1] == *then_branch);
                assert(ch[2] == *else_branch);
                let _ = self.infer_expr(*condition);
                let _ = self.infer_expr(*then_branch);
                // The type of the then branch is taken to be that of the else branch.
                self.infer_expr(*else_branch)
            },
            Expr::ArrayIndexedAccess { array, index } => {
                assert(ch[0] == *array);
                assert(ch[1] == *index);
                let _ = self.infer_expr(*index);
                match self.infer_expr(*array) {
                    Some(ty) => Some(ty.to_lower_dim()),
                    None => None,
                }
            },
            Expr::ViewAs { operand, type_ref } => {
                assert(ch[0] == *operand);
                let _ = self.infer_expr(*operand);
                Some(type_ref.clone())
            },
            Expr::Literal(lit) => match lit {
                Literal::Int(_) => Some(TypeRef::Int),
                Literal::Bool(_) => Some(TypeRef::Bool),
                Literal::Float(_) => Some(TypeRef::Float),
                Literal::Char(_) => Some(TypeRef::Char),
                Literal::String(_) => Some(TypeRef::OldString),
                Literal::Null => Some(TypeRef::Void),
                Literal::Array(elements) => {
                    assert forall|k: int| 0 <= k < elements.len() implies elements@[k] < expr by {
                        assert(ch[k] == elements@[k]);
                    }
                    self.infer_seq(expr, elements)
                },
            },
            Expr::Control { operand, .. } => {
                if let Some(c) = operand {
                    assert(ch[0] == *c);
                }
                self.infer_opt(expr, *operand);
                None
            },
            Expr::Ident(n) => self.infer_ident(expr, n),
            Expr::MethodCall { target, method_name, args } => {
                assert(ch[0] == *target);
                assert forall|k: int| 0 <= k < args.len() implies args@[k] < expr by {
                    assert(ch[k + 1] == args@[k]);
                }
                self.push_call(*target);
                let ty = self.infer_method_call(expr, *target, method_name);
                let _ = self.infer_seq(expr, args);
                self.pop_call();
                ty
            },
            Expr::Call { callee, args } => {
                assert(ch[0] == *callee);
                assert forall|k: int| 0 <= k < args.len() implies args@[k] < expr by {
                    assert(ch[k + 1] == args@[k]);
                }
                self.push_call(*callee);
                let ty = self.infer_expr(*callee);
                let _ = self.infer_seq(expr, args);
                self.check_arity(expr, args);
                self.pop_call();
                ty
            },
            Expr::Decl(bindings) => {
                assert forall|k: int| 0 <= k < bindings.len() implies bindings@[k] < expr by {
                    assert(ch[k] == bindings@[k]);
                }
                let _ = self.infer_seq(expr, bindings);
                None
            },
            Expr::Binding { initializer, type_ref, .. } => {
                if let Some(c) = initializer {
                    assert(ch[0] == *c);
                }
                self.infer_opt(expr, *initializer);
                clone_opt_type(type_ref)
            },
            Expr::DynamicArray { identifier } => {
                assert(ch[0] == *identifier);
                let _ = self.infer_expr(*identifier);
                None
            },
            Expr::Missing | Expr::This => None,
        }
    }
}

/// The resolutions and diagnostics of a body's inference as plain values.
pub open spec fn result_view(r: &InferenceResult) -> (
    Seq<(ExprId, AttributeId)>,
    Seq<(ExprId, FunctionId)>,
    Seq<(ExprId, (DefWithBodyId, ExprId))>,
    Seq<DiagnosticView>,
) {
    (
        r.attribute_resolutions.spec_entries(),
        r.method_resolutions.spec_entries(),
        r.named_arg_resolutions.spec_entries(),
        diags_view(r.diagnostics@),
    )
}

/// What inference records for the body of `def`, from the scopes of its resolver.
pub open spec fn spec_infer_query<D: InferenceDatabase>(db: &D, def: DefWithBodyId, body: &Body, resolver: Resolver) -> (
    Seq<(ExprId, AttributeId)>,
    Seq<(ExprId, FunctionId)>,
    Seq<(ExprId, (DefWithBodyId, ExprId))>,
    Seq<DiagnosticView>,
) {
    let st = match (def, body.body_expr) {
        (DefWithBodyId::FunctionId(_), Some(b)) => spec_infer(
            db,
            body,
            def,
            resolver.file_id,
            initial_state(resolver.scopes@),
            b,
        ).0,
        _ => initial_state(resolver.scopes@),
    };
    (st.attrs, st.methods, st.named, st.diags)
}

/// Infers the body of `def`: only a function's body is inferred.
pub fn infer_query<D: InferenceDatabase>(db: &D, def: DefWithBodyId, body: &Body, resolver: Resolver) -> (res: Arc<InferenceResult>)
    requires
        body.wf(),
        resolver.wf(),
        locals_below(resolver.scopes@, body.exprs.len() as nat),
        entries_below(&*db.spec_expr_scopes(def), body.exprs.len() as nat),
    ensures
        result_view(&*res) == spec_infer_query(db, def, body, resolver),
{
    let ghost r0 = resolver;
    let mut ctx = InferenceContext::new(db, def, body, resolver);
    match def {
        DefWithBodyId::FunctionId(_) => {
            if let Some(id) = body.body_expr {
                let _ = ctx.infer_expr(id);
            }
        },
        DefWithBodyId::TypedefId(_) | DefWithBodyId::FunctagId(_) => {},
    }
    Arc::new(ctx.result)
}


/// A read of an id map gives back what the last write for the key wrote;
/// a write leaves the other keys as they were.
pub proof fn law_id_map_read_after_write<V>(entries: Seq<(ExprId, V)>, k: ExprId, v: V, other: ExprId)
    ensures
        last_value(entries.push((k, v)), k) == Some(v),
        other != k ==> last_value(entries.push((k, v)), other) == last_value(entries, other),
{
    assert(entries.push((k, v)).drop_last() =~= entries);
}

} // verus!
