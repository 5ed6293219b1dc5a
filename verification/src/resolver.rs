//! Name resolution: a stack of scopes (the project's global definitions, `this`
//! of a method, local bindings) searched from the innermost outwards.
use vstd::prelude::*;
use std::sync::Arc;
use crate::base_db::FileId;
use crate::def_map::DefMap;
use crate::hir::{ExprId, Name};
use crate::ids::{
    AdtId, DefWithBodyId, EnumId, EnumStructId, FileDefId, FuncenumId, FunctagId, FunctionId, GlobalId, InFile,
    MacroId, MethodmapId, StructId, TypedefId, TypesetId, VariantId,
};
use crate::scope::{ExprScopes, ScopeEntry, ScopeId, ScopeParent};

verus! {

/// Calls `Arc::clone`, which std documents as making another pointer to the same allocation.
#[verifier::external_body]
fn arc_clone<T>(a: &Arc<T>) -> (res: Arc<T>)
    ensures
        res == *a,
{
    Arc::clone(a)
}

/// The local scope of a body.
#[derive(Debug)]
pub struct ExprScope {
    pub owner: DefWithBodyId,
    pub expr_scopes: Arc<ExprScopes>,
    pub scope_id: ScopeId,
}

/// A scope of a resolver.
#[derive(Debug)]
pub enum Scope {
    /// All the items and included names of a project.
    Global(Vec<Arc<DefMap>>),
    /// Brings `this` into scope.
    This(AdtId),
    /// Local bindings.
    Expr(ExprScope),
}

/// What a name resolves to.
#[derive(Debug)]
pub enum ValueNs {
    LocalId((Option<Name>, DefWithBodyId, ExprId)),
    GlobalId(InFile<GlobalId>),
    MacroId(InFile<MacroId>),
    FunctionId(Vec<InFile<FunctionId>>),
    EnumStructId(InFile<EnumStructId>),
    MethodmapId(InFile<MethodmapId>),
    EnumId(InFile<EnumId>),
    VariantId(InFile<VariantId>),
    TypedefId(InFile<TypedefId>),
    TypesetId(InFile<TypesetId>),
    FunctagId(InFile<FunctagId>),
    FuncenumId(InFile<FuncenumId>),
    StructId(InFile<StructId>),
}

/// The abstract value of a [`ValueNs`]: names by their text, lists as sequences.
pub enum ValueNsView {
    LocalId(Option<Seq<char>>, DefWithBodyId, ExprId),
    GlobalId(InFile<GlobalId>),
    MacroId(InFile<MacroId>),
    FunctionId(Seq<InFile<FunctionId>>),
    EnumStructId(InFile<EnumStructId>),
    MethodmapId(InFile<MethodmapId>),
    EnumId(InFile<EnumId>),
    VariantId(InFile<VariantId>),
    TypedefId(InFile<TypedefId>),
    TypesetId(InFile<TypesetId>),
    FunctagId(InFile<FunctagId>),
    FuncenumId(InFile<FuncenumId>),
    StructId(InFile<StructId>),
}

impl View for ValueNs {
    type V = ValueNsView;

    open spec fn view(&self) -> ValueNsView {
        match self {
            ValueNs::LocalId((n, o, e)) => ValueNsView::LocalId(
                match n {
                    Some(n) => Some(n@),
                    None => None,
                },
                *o,
                *e,
            ),
            ValueNs::GlobalId(it) => ValueNsView::GlobalId(*it),
            ValueNs::MacroId(it) => ValueNsView::MacroId(*it),
            ValueNs::FunctionId(v) => ValueNsView::FunctionId(v@),
            ValueNs::EnumStructId(it) => ValueNsView::EnumStructId(*it),
            ValueNs::MethodmapId(it) => ValueNsView::MethodmapId(*it),
            ValueNs::EnumId(it) => ValueNsView::EnumId(*it),
            ValueNs::VariantId(it) => ValueNsView::VariantId(*it),
            ValueNs::TypedefId(it) => ValueNsView::TypedefId(*it),
            ValueNs::TypesetId(it) => ValueNsView::TypesetId(*it),
            ValueNs::FunctagId(it) => ValueNsView::FunctagId(*it),
            ValueNs::FuncenumId(it) => ValueNsView::FuncenumId(*it),
            ValueNs::StructId(it) => ValueNsView::StructId(*it),
        }
    }
}

impl ValueNs {
    /// A copy of the value.
    pub fn duplicate(&self) -> (res: ValueNs)
        ensures
            res@ == self@,
    {
        match self {
            ValueNs::LocalId((n, o, e)) => ValueNs::LocalId(
                (
                    match n {
                        Some(n) => Some(n.clone()),
                        None => None,
                    },
                    *o,
                    *e,
                ),
            ),
            ValueNs::GlobalId(it) => ValueNs::GlobalId(*it),
            ValueNs::MacroId(it) => ValueNs::MacroId(*it),
            ValueNs::FunctionId(v) => {
                let mut w: Vec<InFile<FunctionId>> = Vec::new();
                let mut i: usize = 0;
                while i < v.len()
                    invariant
                        0 <= i <= v.len(),
                        w@ == v@.take(i as int),
                    decreases v.len() - i,
                {
                    w.push(v[i]);
                    assert(v@.take(i + 1) =~= v@.take(i as int).push(v@[i as int]));
                    i = i + 1;
                }
                assert(v@.take(v.len() as int) =~= v@);
                ValueNs::FunctionId(w)
            },
            ValueNs::EnumStructId(it) => ValueNs::EnumStructId(*it),
            ValueNs::MethodmapId(it) => ValueNs::MethodmapId(*it),
            ValueNs::EnumId(it) => ValueNs::EnumId(*it),
            ValueNs::VariantId(it) => ValueNs::VariantId(*it),
            ValueNs::TypedefId(it) => ValueNs::TypedefId(*it),
            ValueNs::TypesetId(it) => ValueNs::TypesetId(*it),
            ValueNs::FunctagId(it) => ValueNs::FunctagId(*it),
            ValueNs::FuncenumId(it) => ValueNs::FuncenumId(*it),
            ValueNs::StructId(it) => ValueNs::StructId(*it),
        }
    }
}

pub open spec fn opt_view(o: Option<ValueNs>) -> Option<ValueNsView> {
    match o {
        Some(v) => Some(v@),
        None => None,
    }
}

/// What a global definition `entry` of file `file_id` resolves to.
pub open spec fn valuens_of(entry: FileDefId, file_id: FileId) -> ValueNsView {
    match entry {
        FileDefId::FunctionId(it) => ValueNsView::FunctionId(seq![InFile { file_id, value: it }]),
        FileDefId::MacroId(it) => ValueNsView::MacroId(InFile { file_id, value: it }),
        FileDefId::GlobalId(it) => ValueNsView::GlobalId(InFile { file_id, value: it }),
        FileDefId::EnumStructId(it) => ValueNsView::EnumStructId(InFile { file_id, value: it }),
        FileDefId::MethodmapId(it) => ValueNsView::MethodmapId(InFile { file_id, value: it }),
        FileDefId::EnumId(it) => ValueNsView::EnumId(InFile { file_id, value: it }),
        FileDefId::VariantId(it) => ValueNsView::VariantId(InFile { file_id, value: it }),
        FileDefId::TypedefId(it) => ValueNsView::TypedefId(InFile { file_id, value: it }),
        FileDefId::TypesetId(it) => ValueNsView::TypesetId(InFile { file_id, value: it }),
        FileDefId::FunctagId(it) => ValueNsView::FunctagId(InFile { file_id, value: it }),
        FileDefId::FuncenumId(it) => ValueNsView::FuncenumId(InFile { file_id, value: it }),
        FileDefId::StructId(it) => ValueNsView::StructId(InFile { file_id, value: it }),
    }
}

/// The global definitions named `n` in `maps`, each with the file of its map, in map order.
pub open spec fn global_entries(maps: Seq<Arc<DefMap>>, n: Seq<char>) -> Seq<(FileDefId, FileId)>
    decreases maps.len(),
{
    if maps.len() == 0 {
        seq![]
    } else {
        global_entries(maps.drop_last(), n) + maps.last().defs_of(n).map_values(
            |d: FileDefId| (d, maps.last().spec_file_id()),
        )
    }
}

/// `s` without consecutive repetitions (the first of each run stays).
pub open spec fn dedup<T>(s: Seq<T>) -> Seq<T>
    decreases s.len(),
{
    if s.len() == 0 {
        seq![]
    } else {
        let r = dedup(s.drop_last());
        if r.len() > 0 && r.last() == s.last() {
            r
        } else {
            r.push(s.last())
        }
    }
}

/// The functions among `es`, in order.
pub open spec fn function_entries(es: Seq<(FileDefId, FileId)>) -> Seq<InFile<FunctionId>>
    decreases es.len(),
{
    if es.len() == 0 {
        seq![]
    } else {
        function_entries(es.drop_last()) + match es.last().0 {
            FileDefId::FunctionId(it) => seq![InFile { file_id: es.last().1, value: it }],
            _ => seq![],
        }
    }
}

pub open spec fn is_methodmap_entry(e: (FileDefId, FileId)) -> bool {
    e.0 is MethodmapId
}

/// What a name with several global definitions `es` resolves to: the first
/// methodmap among them if there is one, else all the functions among them.
pub open spec fn pick_global(es: Seq<(FileDefId, FileId)>) -> ValueNsView {
    if es.len() == 1 {
        valuens_of(es[0].0, es[0].1)
    } else if exists|i: int| 0 <= i < es.len() && #[trigger] is_methodmap_entry(es[i]) {
        let i = choose|i: int|
            0 <= i < es.len() && #[trigger] is_methodmap_entry(es[i]) && forall|k: int|
                0 <= k < i ==> !is_methodmap_entry(es[k]);
        match es[i].0 {
            FileDefId::MethodmapId(it) => ValueNsView::MethodmapId(InFile { file_id: es[i].1, value: it }),
            _ => ValueNsView::FunctionId(seq![]),
        }
    } else {
        ValueNsView::FunctionId(function_entries(es))
    }
}

/// The functions of `es` are exactly those that `function_entries` lists.
proof fn lemma_function_entries(es: Seq<(FileDefId, FileId)>)
    ensures
        forall|x: InFile<FunctionId>|
            function_entries(es).contains(x) <==> exists|k: int|
                0 <= k < es.len() && #[trigger] es[k] == (FileDefId::FunctionId(x.value), x.file_id),
    decreases es.len(),
{
    if es.len() > 0 {
        let r = es.drop_last();
        lemma_function_entries(r);
        let tail = match es.last().0 {
            FileDefId::FunctionId(it) => seq![InFile { file_id: es.last().1, value: it }],
            _ => seq![],
        };
        assert(function_entries(es) == function_entries(r) + tail);
        assert forall|x: InFile<FunctionId>|
            function_entries(es).contains(x) <==> exists|k: int|
                0 <= k < es.len() && #[trigger] es[k] == (FileDefId::FunctionId(x.value), x.file_id) by {
            let fe = function_entries(r);
            if function_entries(es).contains(x) {
                let j = choose|j: int| 0 <= j < function_entries(es).len() && function_entries(es)[j] == x;
                if j < fe.len() {
                    assert(fe[j] == x);
                    assert(fe.contains(x));
                    let k = choose|k: int| 0 <= k < r.len() && #[trigger] r[k] == (FileDefId::FunctionId(x.value), x.file_id);
                    assert(es[k] == r[k]);
                } else {
                    assert(es[es.len() - 1] == (FileDefId::FunctionId(x.value), x.file_id));
                }
            }
            if exists|k: int| 0 <= k < es.len() && #[trigger] es[k] == (FileDefId::FunctionId(x.value), x.file_id) {
                let k = choose|k: int| 0 <= k < es.len() && #[trigger] es[k] == (FileDefId::FunctionId(x.value), x.file_id);
                if k < es.len() - 1 {
                    assert(r[k] == es[k]);
                    assert(fe.contains(x));
                    let j = choose|j: int| 0 <= j < fe.len() && fe[j] == x;
                    assert(function_entries(es)[j] == x);
                } else {
                    assert(function_entries(es)[fe.len() as int] == x);
                }
            }
        }
    }
}

/// A name with several global definitions, one of them a methodmap, denotes the
/// first methodmap among them.
pub proof fn law_methodmap_wins(es: Seq<(FileDefId, FileId)>, i: int, m: MethodmapId)
    requires
        es.len() > 1,
        0 <= i < es.len(),
        es[i].0 == FileDefId::MethodmapId(m),
        forall|k: int| 0 <= k < i ==> !(es[k].0 is MethodmapId),
    ensures
        pick_global(es) == ValueNsView::MethodmapId(InFile { file_id: es[i].1, value: m }),
{
    assert(is_methodmap_entry(es[i]));
    let j = choose|j: int|
        0 <= j < es.len() && #[trigger] is_methodmap_entry(es[j]) && forall|k: int|
            0 <= k < j ==> !is_methodmap_entry(es[k]);
    if j < i {
        assert(!(es[j].0 is MethodmapId));
    } else if i < j {
        assert(!is_methodmap_entry(es[i]));
    }
}

/// A name with several global definitions and no methodmap among them denotes
/// the functions among them: exactly those.
pub proof fn law_functions_gathered(es: Seq<(FileDefId, FileId)>)
    requires
        es.len() > 1,
        forall|k: int| 0 <= k < es.len() ==> !(es[k].0 is MethodmapId),
    ensures
        pick_global(es) matches ValueNsView::FunctionId(fs) && forall|x: InFile<FunctionId>|
            fs.contains(x) <==> exists|k: int|
                0 <= k < es.len() && #[trigger] es[k] == (FileDefId::FunctionId(x.value), x.file_id),
{
    assert(!exists|i: int| 0 <= i < es.len() && #[trigger] is_methodmap_entry(es[i]));
    lemma_function_entries(es);
}

/// A name that only the global scope, the innermost one, gives a meaning, with
/// several definitions one of which is a methodmap, resolves to the first such
/// methodmap.
pub proof fn law_resolve_methodmap_wins(
    scopes: Seq<Scope>,
    file_id: FileId,
    n: Seq<char>,
    maps: Vec<Arc<DefMap>>,
    i: int,
    m: MethodmapId,
)
    requires
        scopes.len() > 0,
        scopes.last() == Scope::Global(maps),
        dedup(global_entries(maps@, n)).len() > 1,
        0 <= i < dedup(global_entries(maps@, n)).len(),
        dedup(global_entries(maps@, n))[i].0 == FileDefId::MethodmapId(m),
        forall|k: int| 0 <= k < i ==> !(dedup(global_entries(maps@, n))[k].0 is MethodmapId),
    ensures
        spec_resolve(scopes, file_id, n) == Some(
            ValueNsView::MethodmapId(InFile { file_id: dedup(global_entries(maps@, n))[i].1, value: m }),
        ),
{
    law_methodmap_wins(dedup(global_entries(maps@, n)), i, m);
}

/// A name with one global definition denotes it: a function as a list of that one
/// function, any other definition as itself, in the file of its map.
pub proof fn law_single_global(es: Seq<(FileDefId, FileId)>)
    requires
        es.len() == 1,
    ensures
        es[0].0 matches FileDefId::FunctionId(f) ==> pick_global(es) == ValueNsView::FunctionId(
            seq![InFile { file_id: es[0].1, value: f }],
        ),
        es[0].0 matches FileDefId::MethodmapId(m) ==> pick_global(es) == ValueNsView::MethodmapId(
            InFile { file_id: es[0].1, value: m },
        ),
        es[0].0 matches FileDefId::GlobalId(g) ==> pick_global(es) == ValueNsView::GlobalId(InFile { file_id: es[0].1, value: g }),
        es[0].0 matches FileDefId::EnumId(x) ==> pick_global(es) == ValueNsView::EnumId(InFile { file_id: es[0].1, value: x }),
        es[0].0 matches FileDefId::StructId(x) ==> pick_global(es) == ValueNsView::StructId(InFile { file_id: es[0].1, value: x }),
{
}

/// A local binding of the innermost scope hides every definition of the name in
/// the scopes around it.
pub proof fn law_local_shadows(scopes: Seq<Scope>, file_id: FileId, n: Seq<char>, es: ExprScope)
    requires
        scopes.len() > 0,
        scopes.last() == Scope::Expr(es),
        es.expr_scopes.resolve(es.scope_id, n) is Some,
    ensures
        spec_resolve(scopes, file_id, n) == Some(
            ValueNsView::LocalId(
                Some(n),
                es.owner,
                es.expr_scopes.scope_entries@[es.expr_scopes.resolve(es.scope_id, n)->Some_0 as int],
            ),
        ),
{
}

/// What name `n` resolves to in a stack of scopes whose innermost scope is last:
/// the first scope, from the innermost outwards, in which `n` means something.
pub open spec fn spec_resolve(scopes: Seq<Scope>, file_id: FileId, n: Seq<char>) -> Option<ValueNsView>
    decreases scopes.len(),
{
    if scopes.len() == 0 {
        None
    } else {
        let rest = spec_resolve(scopes.drop_last(), file_id, n);
        match scopes.last() {
            Scope::Expr(es) => match es.expr_scopes.resolve(es.scope_id, n) {
                Some(x) => Some(ValueNsView::LocalId(Some(n), es.owner, es.expr_scopes.scope_entries@[x as int])),
                None => rest,
            },
            Scope::This(adt) => if n == "this"@ {
                Some(
                    match adt {
                        AdtId::EnumStructId(it) => ValueNsView::EnumStructId(InFile { file_id, value: it }),
                        AdtId::MethodmapId(it) => ValueNsView::MethodmapId(InFile { file_id, value: it }),
                    },
                )
            } else {
                rest
            },
            Scope::Global(maps) => {
                let es = dedup(global_entries(maps@, n));
                if es.len() == 0 {
                    rest
                } else {
                    Some(pick_global(es))
                }
            },
        }
    }
}

/// Well-formedness of a scope: its scopes and maps are well-formed.
pub open spec fn scope_wf(s: Scope) -> bool {
    match s {
        Scope::Expr(es) => es.expr_scopes.wf(),
        Scope::Global(maps) => forall|k: int| 0 <= k < maps.len() ==> (#[trigger] maps@[k]).wf(),
        Scope::This(_) => true,
    }
}

/// Restores a resolver to the scopes it had before an update.
pub struct UpdateGuard(usize);

impl UpdateGuard {
    pub closed spec fn start(&self) -> usize {
        self.0
    }
}

/// A stack of scopes, the inner-most scope last.
#[derive(Debug)]
pub struct Resolver {
    pub scopes: Vec<Scope>,
    pub file_id: FileId,
}

/// What a global definition resolves to.
pub fn to_valuens(entry: FileDefId, file_id: FileId) -> (res: Option<ValueNs>)
    ensures
        res matches Some(v) && v@ == valuens_of(entry, file_id),
{
    let v = match entry {
        FileDefId::FunctionId(it) => {
            let mut fn_ids: Vec<InFile<FunctionId>> = Vec::new();
            fn_ids.push(InFile::new(file_id, it));
            ValueNs::FunctionId(fn_ids)
        },
        FileDefId::MacroId(it) => ValueNs::MacroId(InFile::new(file_id, it)),
        FileDefId::GlobalId(it) => ValueNs::GlobalId(InFile::new(file_id, it)),
        FileDefId::EnumStructId(it) => ValueNs::EnumStructId(InFile::new(file_id, it)),
        FileDefId::MethodmapId(it) => ValueNs::MethodmapId(InFile::new(file_id, it)),
        FileDefId::EnumId(it) => ValueNs::EnumId(InFile::new(file_id, it)),
        FileDefId::VariantId(it) => ValueNs::VariantId(InFile::new(file_id, it)),
        FileDefId::TypedefId(it) => ValueNs::TypedefId(InFile::new(file_id, it)),
        FileDefId::TypesetId(it) => ValueNs::TypesetId(InFile::new(file_id, it)),
        FileDefId::FunctagId(it) => ValueNs::FunctagId(InFile::new(file_id, it)),
        FileDefId::FuncenumId(it) => ValueNs::FuncenumId(InFile::new(file_id, it)),
        FileDefId::StructId(it) => ValueNs::StructId(InFile::new(file_id, it)),
    };
    Some(v)
}

/// The global definitions named `name` in `maps`, each with the file of its map.
fn collect_global_entries(maps: &Vec<Arc<DefMap>>, name: &Name) -> (res: Vec<(FileDefId, FileId)>)
    requires
        forall|k: int| 0 <= k < maps.len() ==> (#[trigger] maps@[k]).wf(),
    ensures
        res@ == global_entries(maps@, name@),
{
    let mut res: Vec<(FileDefId, FileId)> = Vec::new();
    let mut k: usize = 0;
    while k < maps.len()
        invariant
            forall|j: int| 0 <= j < maps.len() ==> (#[trigger] maps@[j]).wf(),
            0 <= k <= maps.len(),
            res@ == global_entries(maps@.take(k as int), name@),
        decreases maps.len() - k,
    {
        let def_map: &DefMap = &maps[k];
        let file_id = def_map.file_id();
        let ghost before = res@;
        proof {
            assert(maps@.take(k + 1).drop_last() == maps@.take(k as int));
            assert(maps@.take(k + 1).last() == maps@[k as int]);
        }
        if let Some(entry) = def_map.get(name) {
            let mut j: usize = 0;
            while j < entry.len()
                invariant
                    0 <= j <= entry.len(),
                    res@ == before + entry@.take(j as int).map_values(|d: FileDefId| (d, file_id)),
                decreases entry.len() - j,
            {
                res.push((entry[j], file_id));
                proof {
                    assert(entry@.take(j + 1).map_values(|d: FileDefId| (d, file_id)) == entry@.take(j as int).map_values(
                        |d: FileDefId| (d, file_id),
                    ).push((entry@[j as int], file_id)));
                }
                j = j + 1;
            }
            assert(entry@.take(entry.len() as int) == entry@);
        } else {
            assert(def_map.defs_of(name@).map_values(|d: FileDefId| (d, file_id)) == Seq::<(FileDefId, FileId)>::empty());
        }
        k = k + 1;
    }
    assert(maps@.take(maps.len() as int) == maps@);
    res
}

/// `s` without consecutive repetitions.
fn dedup_entries(s: &Vec<(FileDefId, FileId)>) -> (res: Vec<(FileDefId, FileId)>)
    ensures
        res@ == dedup(s@),
{
    let mut res: Vec<(FileDefId, FileId)> = Vec::new();
    let mut i: usize = 0;
    while i < s.len()
        invariant
            0 <= i <= s.len(),
            res@ == dedup(s@.take(i as int)),
        decreases s.len() - i,
    {
        proof {
            assert(s@.take(i + 1).drop_last() == s@.take(i as int));
            assert(s@.take(i + 1).last() == s@[i as int]);
        }
        let e = s[i];
        let n = res.len();
        if n > 0 && res[n - 1].0 == e.0 && res[n - 1].1 == e.1 {
        } else {
            res.push(e);
        }
        i = i + 1;
    }
    assert(s@.take(s.len() as int) == s@);
    res
}

/// What a name with the global definitions `es` (at least one) resolves to.
fn pick_global_exec(es: &Vec<(FileDefId, FileId)>) -> (res: ValueNs)
    requires
        es.len() >= 1,
    ensures
        res@ == pick_global(es@),
        forall|i: int|
            es.len() > 1 && 0 <= i < es.len() && (#[trigger] es@[i]).0 is MethodmapId && (forall|k: int|
                0 <= k < i ==> !(es@[k].0 is MethodmapId)) ==> res@ == ValueNsView::MethodmapId(
                InFile { file_id: es@[i].1, value: es@[i].0->MethodmapId_0 },
            ),
{
    if es.len() == 1 {
        return to_valuens(es[0].0, es[0].1).unwrap();
    }
    let mut i: usize = 0;
    while i < es.len()
        invariant
            0 <= i <= es.len(),
            forall|k: int| 0 <= k < i ==> !is_methodmap_entry(#[trigger] es@[k]),
        decreases es.len() - i,
    {
        if let FileDefId::MethodmapId(it) = es[i].0 {
            proof {
                assert(is_methodmap_entry(es@[i as int]));
                let j = choose|j: int|
                    0 <= j < es@.len() && #[trigger] is_methodmap_entry(es@[j]) && forall|k: int|
                        0 <= k < j ==> !is_methodmap_entry(es@[k]);
                if j < i {
                    assert(!is_methodmap_entry(es@[j]));
                } else if j > i {
                    assert(!is_methodmap_entry(es@[i as int]));
                }
            }
            return ValueNs::MethodmapId(InFile::new(es[i].1, it));
        }
        i = i + 1;
    }
    let mut fn_ids: Vec<InFile<FunctionId>> = Vec::new();
    let mut i: usize = 0;
    while i < es.len()
        invariant
            0 <= i <= es.len(),
            fn_ids@ == function_entries(es@.take(i as int)),
        decreases es.len() - i,
    {
        proof {
            assert(es@.take(i + 1).drop_last() == es@.take(i as int));
            assert(es@.take(i + 1).last() == es@[i as int]);
        }
        if let FileDefId::FunctionId(it) = es[i].0 {
            fn_ids.push(InFile::new(es[i].1, it));
        }
        i = i + 1;
    }
    assert(es@.take(es.len() as int) == es@);
    ValueNs::FunctionId(fn_ids)
}

impl ExprScope {
    /// The binding expression that `name` denotes in this scope.
    pub fn resolve_name_in_scope(&self, name: &Name) -> (res: Option<ExprId>)
        requires
            self.expr_scopes.wf(),
        ensures
            res == match self.expr_scopes.resolve(self.scope_id, name@) {
                Some(x) => Some(self.expr_scopes.scope_entries@[x as int]),
                None => None,
            },
    {
        match self.expr_scopes.resolve_name_in_scope(self.scope_id, name) {
            Some(entry) => Some(self.expr_scopes.entry(entry)),
            None => None,
        }
    }
}

impl Resolver {
    /// Every scope is well-formed.
    pub open spec fn wf(&self) -> bool {
        forall|k: int| 0 <= k < self.scopes.len() ==> scope_wf(#[trigger] self.scopes@[k])
    }

    /// What `name` denotes: a local binding, `this`, or global definitions,
    /// searching the scopes from the innermost outwards.
    pub fn resolve_ident(&self, name: &str) -> (res: Option<ValueNs>)
        requires
            self.wf(),
        ensures
            opt_view(res) == spec_resolve(self.scopes@, self.file_id, name@),
    {
        let ident = Name::from_str(name);
        let this = Name::from_str("this");
        let mut k = self.scopes.len();
        assert(self.scopes@.take(k as int) == self.scopes@);
        while k > 0
            invariant
                self.wf(),
                k <= self.scopes.len(),
                ident@ == name@,
                this@ == "this"@,
                spec_resolve(self.scopes@, self.file_id, name@) == spec_resolve(self.scopes@.take(k as int), self.file_id, name@),
            decreases k,
        {
            proof {
                assert(self.scopes@.take(k as int).drop_last() == self.scopes@.take(k - 1));
                assert(self.scopes@.take(k as int).last() == self.scopes@[k - 1]);
                assert(scope_wf(self.scopes@[k - 1]));
            }
            match &self.scopes[k - 1] {
                Scope::Expr(scope) => {
                    if let Some(entry) = scope.resolve_name_in_scope(&ident) {
                        let n = ident.clone();
                        return Some(ValueNs::LocalId((Some(n), scope.owner, entry)));
                    }
                },
                Scope::This(adt_id) => {
                    if ident.same_as(&this) {
                        match adt_id {
                            AdtId::EnumStructId(it) => {
                                return Some(ValueNs::EnumStructId(InFile::new(self.file_id, *it)));
                            },
                            AdtId::MethodmapId(it) => {
                                return Some(ValueNs::MethodmapId(InFile::new(self.file_id, *it)));
                            },
                        }
                    }
                },
                Scope::Global(def_maps) => {
                    let entries = collect_global_entries(def_maps, &ident);
                    let entries = dedup_entries(&entries);
                    if entries.len() > 0 {
                        return Some(pick_global_exec(&entries));
                    }
                },
            }
            k = k - 1;
        }
        assert(self.scopes@.take(0) == Seq::<Scope>::empty());
        None
    }
}

/// The prefix of `s` before the first occurrence of `x` (all of `s` if `x` does not occur).
pub open spec fn take_until(s: Seq<ScopeId>, x: ScopeId) -> Seq<ScopeId>
    decreases s.len(),
{
    if s.len() == 0 {
        s
    } else if s[0] == x {
        seq![]
    } else {
        seq![s[0]] + take_until(s.drop_first(), x)
    }
}

/// The scope of expression `e` in `es`, if any.
pub open spec fn scope_of(es: &ExprScopes, e: ExprId) -> Option<ScopeId> {
    if e < es.scope_by_expr.len() {
        es.scope_by_expr@[e as int]
    } else {
        None
    }
}

pub open spec fn chain_of(es: &ExprScopes, s: Option<ScopeId>) -> Seq<ScopeId> {
    match s {
        Some(s) => es.chain(s),
        None => seq![],
    }
}

/// Local scopes for the chain `ids` (innermost first), stacked so that the innermost is last.
pub open spec fn stacked(ids: Seq<ScopeId>, es: Arc<ExprScopes>, owner: DefWithBodyId) -> Seq<Scope> {
    Seq::new(ids.len(), |i: int| Scope::Expr(ExprScope { owner, expr_scopes: es, scope_id: ids[ids.len() - 1 - i] }))
}

/// The local scopes that entering expression `expr_id` of the body of `owner`
/// stacks on `scopes`: when the innermost scope is local, the scopes of
/// `expr_id` inside it (up to that scope); otherwise all the scopes of
/// `expr_id` in `owner_scopes`.
pub open spec fn inner_scopes_of(scopes: Seq<Scope>, owner_scopes: Arc<ExprScopes>, owner: DefWithBodyId, expr_id: ExprId) -> Seq<Scope> {
    if scopes.len() > 0 && scopes.last() is Expr {
        let es = scopes.last()->Expr_0;
        stacked(take_until(chain_of(&*es.expr_scopes, scope_of(&*es.expr_scopes, expr_id)), es.scope_id), es.expr_scopes, es.owner)
    } else {
        stacked(chain_of(&*owner_scopes, scope_of(&*owner_scopes, expr_id)), owner_scopes, owner)
    }
}

impl Resolver {
    /// The local scopes that `update_to_inner_scope` stacks for expression `expr_id`:
    /// when the innermost scope is local, the scopes of `expr_id` inside it (up to
    /// that scope); otherwise all the scopes of `expr_id` in `owner_scopes`.
    pub open spec fn inner_scopes(&self, owner_scopes: Arc<ExprScopes>, owner: DefWithBodyId, expr_id: ExprId) -> Seq<Scope> {
        inner_scopes_of(self.scopes@, owner_scopes, owner, expr_id)
    }

    /// Enters the scopes of expression `expr_id` of the body of `owner`, whose
    /// scopes are `owner_scopes`; the guard restores the resolver.
    pub fn update_to_inner_scope(&mut self, owner_scopes: &Arc<ExprScopes>, owner: DefWithBodyId, expr_id: ExprId) -> (guard: UpdateGuard)
        requires
            old(self).wf(),
            owner_scopes.wf(),
        ensures
            final(self).wf(),
            final(self).file_id == old(self).file_id,
            guard.start() == old(self).scopes.len(),
            final(self).scopes@ == old(self).scopes@ + old(self).inner_scopes(*owner_scopes, owner, expr_id),
    {
        let start = self.scopes.len();
        let ghost old_scopes = self.scopes@;
        let n = self.scopes.len();
        let (ids, es, own): (Vec<ScopeId>, Arc<ExprScopes>, DefWithBodyId) = if n > 0 && matches!(self.scopes[n - 1], Scope::Expr(_)) {
            match &self.scopes[n - 1] {
                Scope::Expr(inner) => {
                    proof {
                        assert(scope_wf(self.scopes@[n - 1]));
                    }
                    let chain = inner.expr_scopes.scope_chain(inner.expr_scopes.scope_for(expr_id));
                    let mut ids: Vec<ScopeId> = Vec::new();
                    let mut i: usize = 0;
                    assert(chain@.skip(0) == chain@);
                    assert(ids@ == chain@.take(0));
                    while i < chain.len() && chain[i] != inner.scope_id
                        invariant
                            0 <= i <= chain.len(),
                            ids@ == chain@.take(i as int),
                            forall|k: int| 0 <= k < i ==> chain@[k] != inner.scope_id,
                            take_until(chain@, inner.scope_id) == ids@ + take_until(chain@.skip(i as int), inner.scope_id),
                        decreases chain.len() - i,
                    {
                        proof {
                            assert(chain@.skip(i as int).drop_first() == chain@.skip(i + 1));
                            assert(chain@.take(i + 1) == chain@.take(i as int).push(chain@[i as int]));
                        }
                        ids.push(chain[i]);
                        i = i + 1;
                    }
                    proof {
                        if i < chain.len() {
                            assert(chain@.skip(i as int)[0] == inner.scope_id);
                        } else {
                            assert(chain@.skip(i as int).len() == 0);
                        }
                    }
                    (ids, arc_clone(&inner.expr_scopes), inner.owner)
                },
                _ => {
                    proof { assert(false); }
                    (Vec::new(), arc_clone(owner_scopes), owner)
                },
            }
        } else {
            let chain = owner_scopes.scope_chain(owner_scopes.scope_for(expr_id));
            (chain, arc_clone(owner_scopes), owner)
        };
        proof {
            assert(ids@ == if n > 0 && self.scopes@.last() is Expr {
                let inner = self.scopes@.last()->Expr_0;
                take_until(chain_of(&*inner.expr_scopes, scope_of(&*inner.expr_scopes, expr_id)), inner.scope_id)
            } else {
                chain_of(&*owner_scopes, scope_of(&*owner_scopes, expr_id))
            });
            assert(es.wf());
        }
        let mut j = ids.len();
        while j > 0
            invariant
                j <= ids.len(),
                es.wf(),
                self.file_id == old(self).file_id,
                self.scopes@ == old_scopes + stacked(ids@, es, own).take((ids.len() - j) as int),
                forall|k: int| 0 <= k < self.scopes.len() ==> scope_wf(#[trigger] self.scopes@[k]),
            decreases j,
        {
            let ghost before = self.scopes@;
            self.scopes.push(Scope::Expr(ExprScope { owner: own, expr_scopes: arc_clone(&es), scope_id: ids[j - 1] }));
            proof {
                let st = stacked(ids@, es, own);
                assert(st.take((ids.len() - j + 1) as int) == st.take((ids.len() - j) as int).push(st[(ids.len() - j) as int]));
                assert forall|k: int| 0 <= k < self.scopes.len() implies scope_wf(#[trigger] self.scopes@[k]) by {
                    if k < before.len() {
                        assert(self.scopes@[k] == before[k]);
                    }
                }
            }
            j = j - 1;
        }
        proof {
            assert(stacked(ids@, es, own).take(ids.len() as int) == stacked(ids@, es, own));
        }
        UpdateGuard(start)
    }

    /// Drops the scopes that an update added.
    pub fn reset_to_guard(&mut self, guard: UpdateGuard)
        ensures
            final(self).scopes@ == if guard.start() < old(self).scopes.len() {
                old(self).scopes@.take(guard.start() as int)
            } else {
                old(self).scopes@
            },
            final(self).file_id == old(self).file_id,
    {
        let UpdateGuard(start) = guard;
        self.scopes.truncate(start);
    }
}

/// `s` is a block scope (not the root scope of a file).
pub open spec fn is_block_scope(es: &ExprScopes, s: ScopeId) -> bool {
    s < es.scopes.len() && es.scopes@[s as int].parent is Block
}

impl Resolver {
    /// A resolver whose only scope is the global scope of `file_id`: the definition
    /// maps of the files of its project.
    pub fn global_resolver(file_id: FileId, def_maps: Vec<Arc<DefMap>>) -> (res: Resolver)
        ensures
            res.file_id == file_id,
            res.scopes@ == seq![Scope::Global(def_maps)],
    {
        let mut scopes: Vec<Scope> = Vec::new();
        scopes.push(Scope::Global(def_maps));
        Resolver { scopes, file_id }
    }

    /// Adds `scope` as the innermost scope.
    pub fn push_scope(self, scope: Scope) -> (res: Resolver)
        ensures
            res.scopes@ == self.scopes@.push(scope),
            res.file_id == self.file_id,
    {
        let mut r = self;
        r.scopes.push(scope);
        r
    }

    /// Brings `this` of the type `adt_id` into scope.
    pub fn push_this_scope(self, adt_id: AdtId) -> (res: Resolver)
        ensures
            res.scopes@ == self.scopes@.push(Scope::This(adt_id)),
            res.file_id == self.file_id,
    {
        self.push_scope(Scope::This(adt_id))
    }

    /// Brings the bindings of scope `scope_id` of the body of `owner` into scope.
    pub fn push_expr_scope(self, owner: DefWithBodyId, expr_scopes: Arc<ExprScopes>, scope_id: ScopeId) -> (res: Resolver)
        ensures
            res.scopes@ == self.scopes@.push(Scope::Expr(ExprScope { owner, expr_scopes, scope_id })),
            res.file_id == self.file_id,
    {
        self.push_scope(Scope::Expr(ExprScope { owner, expr_scopes, scope_id }))
    }

    /// Brings the outermost local scope of the body of `owner` into scope.
    pub fn update_to_first_local_scope(&mut self, expr_scopes: &Arc<ExprScopes>, owner: DefWithBodyId)
        requires
            old(self).wf(),
            expr_scopes.wf(),
        ensures
            final(self).wf(),
            final(self).file_id == old(self).file_id,
            final(self).scopes@ == if expr_scopes.scopes.len() > 0 {
                old(self).scopes@.push(Scope::Expr(ExprScope { owner, expr_scopes: *expr_scopes, scope_id: 0 }))
            } else {
                old(self).scopes@
            },
    {
        if let Some(scope_id) = expr_scopes.first_scope() {
            let ghost before = self.scopes@;
            self.scopes.push(Scope::Expr(ExprScope { owner, expr_scopes: arc_clone(expr_scopes), scope_id }));
            proof {
                assert forall|k: int| 0 <= k < self.scopes.len() implies scope_wf(#[trigger] self.scopes@[k]) by {
                    if k < before.len() {
                        assert(self.scopes@[k] == before[k]);
                    }
                }
            }
        }
    }

    /// The resolver of scope `scope_id` of the body of `owner`: the resolver of
    /// `owner` with the block scopes from the outermost to `scope_id`.
    pub fn resolver_for_scope(base: Resolver, scopes: Arc<ExprScopes>, owner: DefWithBodyId, scope_id: Option<ScopeId>) -> (res: Resolver)
        requires
            scopes.wf(),
        ensures
            res.file_id == base.file_id,
            res.scopes@ == base.scopes@ + stacked(
                chain_of(&*scopes, scope_id).filter(|s: ScopeId| is_block_scope(&*scopes, s)),
                scopes,
                owner,
            ),
    {
        let mut resolver = base;
        let chain = scopes.scope_chain(scope_id);
        let ghost blocks = chain@.filter(|s: ScopeId| is_block_scope(&*scopes, s));
        let ghost start = resolver.scopes@;
        proof {
            match scope_id {
                Some(s) => scopes.lemma_chain_valid(s),
                None => {},
            }
        }
        let mut j = chain.len();
        while j > 0
            invariant
                j <= chain.len(),
                scopes.wf(),
                chain@ == chain_of(&*scopes, scope_id),
                forall|k: int| 0 <= k < chain.len() ==> (#[trigger] chain@[k]) < scopes.scopes.len(),
                resolver.file_id == base.file_id,
                resolver.scopes@ == start + stacked(chain@.skip(j as int).filter(|s: ScopeId| is_block_scope(&*scopes, s)), scopes, owner),
            decreases j,
        {
            let s = chain[j - 1];
            let ghost tail = chain@.skip(j as int);
            let ghost tail2 = chain@.skip(j - 1);
            proof {
                assert(tail2 == seq![s] + tail);
                assert(tail2.filter(|x: ScopeId| is_block_scope(&*scopes, x)) == seq![s].filter(|x: ScopeId| is_block_scope(&*scopes, x)) + tail.filter(|x: ScopeId| is_block_scope(&*scopes, x))) by {
                    Seq::<ScopeId>::filter_distributes_over_add(seq![s], tail, |x: ScopeId| is_block_scope(&*scopes, x));
                }
                reveal_with_fuel(Seq::filter, 2);
            }
            if scopes.file_id(s).is_none() {
                proof {
                    assert(is_block_scope(&*scopes, s));
                }
                resolver = resolver.push_expr_scope(owner, arc_clone(&scopes), s);
                proof {
                    let f = tail.filter(|x: ScopeId| is_block_scope(&*scopes, x));
                    let f2 = tail2.filter(|x: ScopeId| is_block_scope(&*scopes, x));
                    assert(f2 == seq![s] + f);
                    assert(stacked(f2, scopes, owner) == stacked(f, scopes, owner).push(Scope::Expr(ExprScope { owner, expr_scopes: scopes, scope_id: s })));
                }
            } else {
                proof {
                    assert(!is_block_scope(&*scopes, s));
                    assert(tail2.filter(|x: ScopeId| is_block_scope(&*scopes, x)) == tail.filter(|x: ScopeId| is_block_scope(&*scopes, x)));
                }
            }
            j = j - 1;
        }
        proof {
            assert(chain@.skip(0) == chain@);
        }
        resolver
    }
}

/// Entering the scopes of an expression and then resetting to the guard that the
/// update returned gives back the resolver as it was.
pub proof fn law_reset_after_update(r: &Resolver, owner_scopes: Arc<ExprScopes>, owner: DefWithBodyId, expr_id: ExprId)
    ensures
        (r.scopes@ + r.inner_scopes(owner_scopes, owner, expr_id)).take(r.scopes.len() as int) == r.scopes@,
        r.scopes.len() <= (r.scopes@ + r.inner_scopes(owner_scopes, owner, expr_id)).len(),
{
    assert((r.scopes@ + r.inner_scopes(owner_scopes, owner, expr_id)).take(r.scopes.len() as int) =~= r.scopes@);
}

/// The views of a list of values.
pub open spec fn values_view(v: Seq<ValueNs>) -> Seq<ValueNsView> {
    v.map_values(|x: ValueNs| x@)
}

/// The declarations of `m`, as values.
pub open spec fn map_defs(m: DefMap) -> Seq<ValueNsView> {
    m.spec_declarations().map_values(|d: FileDefId| valuens_of(d, m.spec_file_id()))
}

/// The declarations of each map of `maps`, in order.
pub open spec fn maps_defs(maps: Seq<Arc<DefMap>>) -> Seq<ValueNsView>
    decreases maps.len(),
{
    if maps.len() == 0 {
        seq![]
    } else {
        maps_defs(maps.drop_last()) + map_defs(*maps.last())
    }
}

/// The bindings `entries` of a scope of the body of `owner`, as values.
pub open spec fn entries_defs(es: ExprScopes, owner: DefWithBodyId, entries: Seq<(Name, ScopeEntry)>) -> Seq<ValueNsView> {
    entries.map_values(|e: (Name, ScopeEntry)| ValueNsView::LocalId(Some(e.0@), owner, es.scope_entries@[e.1 as int]))
}

/// The bindings of each scope of `chain`, in order.
pub open spec fn chain_defs(es: ExprScopes, owner: DefWithBodyId, chain: Seq<ScopeId>) -> Seq<ValueNsView>
    decreases chain.len(),
{
    if chain.len() == 0 {
        seq![]
    } else {
        chain_defs(es, owner, chain.drop_last()) + entries_defs(es, owner, es.scopes@[chain.last() as int].entries@)
    }
}

/// The definitions that the scope `s` makes available: the declarations of
/// its maps, or the bindings of its chain of local scopes, innermost first.
pub open spec fn scope_defs(s: Scope) -> Seq<ValueNsView> {
    match s {
        Scope::Global(maps) => maps_defs(maps@),
        Scope::Expr(e) => chain_defs(*e.expr_scopes, e.owner, e.expr_scopes.chain(e.scope_id)),
        Scope::This(_) => seq![],
    }
}

/// The definitions of the scopes `scopes`, the innermost (last) scope first.
pub open spec fn spec_available_defs(scopes: Seq<Scope>) -> Seq<ValueNsView>
    decreases scopes.len(),
{
    if scopes.len() == 0 {
        seq![]
    } else {
        scope_defs(scopes.last()) + spec_available_defs(scopes.drop_last())
    }
}

/// Every scope of the chain from `s` lies among the scopes.
proof fn lemma_chain_in_bounds(es: &ExprScopes, s: ScopeId)
    ensures
        forall|k: int| 0 <= k < es.chain(s).len() ==> (#[trigger] es.chain(s)[k]) < es.scopes.len(),
    decreases s,
{
    if s < es.scopes.len() {
        match es.scopes@[s as int].parent {
            ScopeParent::Block(p) => if p < s {
                lemma_chain_in_bounds(es, p);
                assert(es.chain(s) == seq![s] + es.chain(p));
                assert forall|k: int| 0 <= k < es.chain(s).len() implies (#[trigger] es.chain(s)[k]) < es.scopes.len() by {
                    if k > 0 {
                        assert(es.chain(s)[k] == es.chain(p)[k - 1]);
                    }
                }
            } else {
                assert(es.chain(s) == seq![s]);
            },
            ScopeParent::File(_) => {
                assert(es.chain(s) == seq![s]);
            },
        }
    }
}

/// Appends the declarations of each map of `maps`.
fn push_global_defs(maps: &Vec<Arc<DefMap>>, res: &mut Vec<ValueNs>)
    ensures
        values_view(final(res)@) == values_view(old(res)@) + maps_defs(maps@),
{
    let mut k: usize = 0;
    assert(maps@.take(0) =~= Seq::<Arc<DefMap>>::empty());
    assert(values_view(res@) + seq![] =~= values_view(res@));
    while k < maps.len()
        invariant
            0 <= k <= maps.len(),
            values_view(res@) == values_view(old(res)@) + maps_defs(maps@.take(k as int)),
        decreases maps.len() - k,
    {
        let def_map: &DefMap = &maps[k];
        let file_id = def_map.file_id();
        let decls = def_map.declarations();
        let ghost before = values_view(res@);
        let mut j: usize = 0;
        while j < decls.len()
            invariant
                0 <= j <= decls@.len(),
                decls@ == def_map.spec_declarations(),
                file_id == def_map.spec_file_id(),
                values_view(res@) == before + decls@.take(j as int).map_values(|d: FileDefId| valuens_of(d, file_id)),
            decreases decls@.len() - j,
        {
            let v = to_valuens(decls[j], file_id).unwrap();
            let ghost prev = res@;
            res.push(v);
            proof {
                assert(res@ == prev.push(v));
                assert(decls@.take(j + 1).map_values(|d: FileDefId| valuens_of(d, file_id)) =~= decls@.take(j as int).map_values(
                    |d: FileDefId| valuens_of(d, file_id),
                ).push(valuens_of(decls@[j as int], file_id)));
                assert(values_view(res@) =~= values_view(prev).push(v@));
            }
            j = j + 1;
        }
        proof {
            assert(decls@.take(j as int) =~= decls@);
            assert(maps@.take(k + 1).drop_last() =~= maps@.take(k as int));
            assert(maps@.take(k + 1).last() == maps@[k as int]);
            assert(values_view(res@) =~= values_view(old(res)@) + maps_defs(maps@.take(k + 1)));
        }
        k = k + 1;
    }
    assert(maps@.take(k as int) =~= maps@);
}

/// Appends the bindings of the chain of local scopes of `scope`.
fn push_expr_defs(scope: &ExprScope, res: &mut Vec<ValueNs>)
    requires
        scope.expr_scopes.wf(),
    ensures
        values_view(final(res)@) == values_view(old(res)@) + scope_defs(Scope::Expr(*scope)),
{
    let es: &ExprScopes = &scope.expr_scopes;
    let chain = es.scope_chain(Some(scope.scope_id));
    proof {
        lemma_chain_in_bounds(es, scope.scope_id);
    }
    let mut k: usize = 0;
    assert(chain@.take(0) =~= Seq::<ScopeId>::empty());
    assert(values_view(res@) + seq![] =~= values_view(res@));
    while k < chain.len()
        invariant
            0 <= k <= chain.len(),
            es.wf(),
            chain@ == es.chain(scope.scope_id),
            forall|i: int| 0 <= i < chain@.len() ==> (#[trigger] chain@[i]) < es.scopes.len(),
            values_view(res@) == values_view(old(res)@) + chain_defs(*es, scope.owner, chain@.take(k as int)),
        decreases chain.len() - k,
    {
        let s = chain[k];
        assert(chain@[k as int] < es.scopes.len());
        let entries = &es.scopes[s].entries;
        let ghost before = values_view(res@);
        let mut j: usize = 0;
        while j < entries.len()
            invariant
                0 <= j <= entries.len(),
                es.wf(),
                s < es.scopes.len(),
                entries@ == es.scopes@[s as int].entries@,
                values_view(res@) == before + entries_defs(*es, scope.owner, entries@.take(j as int)),
            decreases entries.len() - j,
        {
            let (name, entry) = &entries[j];
            assert(es.scopes@[s as int].entries@[j as int].1 < es.scope_entries.len());
            let v = ValueNs::LocalId((Some(name.clone()), scope.owner, es.entry(*entry)));
            let ghost prev = res@;
            res.push(v);
            proof {
                assert(res@ == prev.push(v));
                assert(entries@.take(j + 1) =~= entries@.take(j as int).push(entries@[j as int]));
                assert(entries_defs(*es, scope.owner, entries@.take(j + 1)) =~= entries_defs(*es, scope.owner, entries@.take(j as int)).push(
                    v@,
                ));
                assert(values_view(res@) =~= values_view(prev).push(v@));
            }
            j = j + 1;
        }
        proof {
            assert(entries@.take(j as int) =~= entries@);
            assert(chain@.take(k + 1).drop_last() =~= chain@.take(k as int));
            assert(chain@.take(k + 1).last() == chain@[k as int]);
            assert(values_view(res@) =~= values_view(old(res)@) + chain_defs(*es, scope.owner, chain@.take(k + 1)));
        }
        k = k + 1;
    }
    assert(chain@.take(k as int) =~= chain@);
}

impl Resolver {
    /// Every definition that the scopes make available, from the innermost
    /// scope outwards: the bindings of local scopes, innermost first, and the
    /// declarations of the maps of global scopes.
    pub fn available_defs(&self) -> (res: Vec<ValueNs>)
        requires
            self.wf(),
        ensures
            values_view(res@) == spec_available_defs(self.scopes@),
    {
        let mut res: Vec<ValueNs> = Vec::new();
        let mut k: usize = self.scopes.len();
        assert(self.scopes@.take(k as int) =~= self.scopes@);
        assert(values_view(res@) =~= Seq::<ValueNsView>::empty());
        while k > 0
            invariant
                self.wf(),
                k <= self.scopes.len(),
                values_view(res@) + spec_available_defs(self.scopes@.take(k as int)) == spec_available_defs(self.scopes@),
            decreases k,
        {
            let ghost before = values_view(res@);
            proof {
                assert(self.scopes@.take(k as int).drop_last() =~= self.scopes@.take(k - 1));
                assert(self.scopes@.take(k as int).last() == self.scopes@[k - 1]);
                assert(scope_wf(self.scopes@[k - 1]));
            }
            match &self.scopes[k - 1] {
                Scope::Global(def_maps) => push_global_defs(def_maps, &mut res),
                Scope::Expr(scope) => push_expr_defs(scope, &mut res),
                Scope::This(_) => {
                    assert(values_view(res@) =~= before + seq![]);
                },
            }
            proof {
                let sd = scope_defs(self.scopes@[k - 1]);
                let rest = spec_available_defs(self.scopes@.take(k - 1));
                assert(values_view(res@) == before + sd);
                assert(before + sd + rest =~= before + (sd + rest));
            }
            k = k - 1;
        }
        assert(self.scopes@.take(0) =~= Seq::<Scope>::empty());
        assert(values_view(res@) + seq![] =~= values_view(res@));
        res
    }
}

} // verus!
