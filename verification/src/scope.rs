//! Lexical scopes of a body: which bindings each block declares, and which scope
//! each expression sits in.
use vstd::prelude::*;
use crate::base_db::FileId;
use crate::hir::{cases_children, expr_children, opt_seq, Body, Expr, ExprId, Name, SwitchCase};

verus! {

pub type ScopeId = usize;

/// Index of a binding in the entry arena of an [`ExprScopes`].
pub type ScopeEntry = usize;

/// The parent of a scope: an enclosing block scope, or the file for the root scope.
#[derive(Debug, Clone, Copy, PartialEq, Eq, Structural)]
pub enum ScopeParent {
    Block(ScopeId),
    File(FileId),
}

/// A scope: its parent and the names it declares.
#[derive(Debug)]
pub struct ScopeData {
    pub parent: ScopeParent,
    pub entries: Vec<(Name, ScopeEntry)>,
}

/// The scopes of a body.
#[derive(Debug)]
pub struct ExprScopes {
    pub scopes: Vec<ScopeData>,
    pub scope_entries: Vec<ExprId>,
    pub scope_by_expr: Vec<Option<ScopeId>>,
}

impl ScopeData {
    pub fn scope_parent(&self) -> (res: Option<ScopeId>)
        ensures
            res == match self.parent {
                ScopeParent::Block(b) => Some(b),
                ScopeParent::File(_) => None,
            },
    {
        match self.parent {
            ScopeParent::Block(block) => Some(block),
            ScopeParent::File(_) => None,
        }
    }
}

/// The names of `es` are pairwise distinct.
pub open spec fn unique_names(es: Seq<(Name, ScopeEntry)>) -> bool {
    forall|i: int, j: int| 0 <= i < j < es.len() ==> es[i].0@ != es[j].0@
}

/// Entry `v` is recorded under name `n` in `es`.
pub open spec fn has_entry(es: Seq<(Name, ScopeEntry)>, n: Seq<char>, v: ScopeEntry) -> bool {
    exists|i: int| 0 <= i < es.len() && (#[trigger] es[i]).0@ == n && es[i].1 == v
}

/// Some entry is recorded under name `n` in `es`.
pub open spec fn declares(es: Seq<(Name, ScopeEntry)>, n: Seq<char>) -> bool {
    exists|i: int| 0 <= i < es.len() && (#[trigger] es[i]).0@ == n
}

/// Records `v` under `name` in `es`, replacing the entry of that name if any (map insertion).
fn insert_name(es: &mut Vec<(Name, ScopeEntry)>, name: Name, v: ScopeEntry)
    requires
        unique_names(old(es)@),
    ensures
        unique_names(final(es)@),
        has_entry(final(es)@, name@, v),
        forall|n: Seq<char>, x: ScopeEntry| n != name@ ==> (has_entry(final(es)@, n, x) <==> has_entry(old(es)@, n, x)),
        forall|n: Seq<char>| declares(final(es)@, n) <==> (declares(old(es)@, n) || n == name@),
        forall|i: int| 0 <= i < final(es)@.len() ==> ((#[trigger] final(es)@[i]).1 == v || exists|j: int| 0 <= j < old(es)@.len() && old(es)@[j] == final(es)@[i]),
        forall|i: int| 0 <= i < final(es)@.len() ==> ((#[trigger] final(es)@[i]).0@ == name@ || exists|j: int| 0 <= j < old(es)@.len() && old(es)@[j] == final(es)@[i]),
{
    let ghost old_es = es@;
    let mut i: usize = 0;
    while i < es.len()
        invariant
            es@ == old_es,
            old_es == old(es)@,
            unique_names(old_es),
            0 <= i <= es.len(),
            forall|k: int| 0 <= k < i ==> es@[k].0@ != name@,
        decreases es.len() - i,
    {
        if es[i].0.same_as(&name) {
            let ghost nm = name@;
            es.set(i, (name, v));
            assert forall|a: int, b: int| 0 <= a < b < es@.len() implies es@[a].0@ != es@[b].0@ by {
                if a != i && b != i {
                    assert(old_es[a].0@ != old_es[b].0@);
                } else if a == i {
                    assert(old_es[a].0@ != old_es[b].0@);
                } else {
                    assert(old_es[a].0@ != old_es[b].0@);
                }
            }
            assert(es@[i as int].0@ == nm);
            assert forall|n: Seq<char>, x: ScopeEntry| n != nm implies (has_entry(es@, n, x) <==> has_entry(old_es, n, x)) by {
                if has_entry(es@, n, x) {
                    let k = choose|k: int| 0 <= k < es@.len() && (#[trigger] es@[k]).0@ == n && es@[k].1 == x;
                    assert(old_es[k] == es@[k]);
                }
                if has_entry(old_es, n, x) {
                    let k = choose|k: int| 0 <= k < old_es.len() && (#[trigger] old_es[k]).0@ == n && old_es[k].1 == x;
                    assert(old_es[k] == es@[k]);
                }
            }
            assert forall|n: Seq<char>| declares(es@, n) <==> (declares(old_es, n) || n == nm) by {
                if declares(es@, n) {
                    let k = choose|k: int| 0 <= k < es@.len() && (#[trigger] es@[k]).0@ == n;
                    if k != i {
                        assert(old_es[k] == es@[k]);
                    }
                }
                if declares(old_es, n) {
                    let k = choose|k: int| 0 <= k < old_es.len() && (#[trigger] old_es[k]).0@ == n;
                    if k != i {
                        assert(old_es[k] == es@[k]);
                    }
                }
            }
            assert forall|k: int| 0 <= k < es@.len() implies ((#[trigger] es@[k]).1 == v || exists|j: int| 0 <= j < old_es.len() && old_es[j] == es@[k]) by {
                if k != i {
                    assert(old_es[k] == es@[k]);
                }
            }
            assert forall|k: int| 0 <= k < es@.len() implies ((#[trigger] es@[k]).0@ == nm || exists|j: int| 0 <= j < old_es.len() && old_es[j] == es@[k]) by {
                if k != i {
                    assert(old_es[k] == es@[k]);
                }
            }
            return;
        }
        i = i + 1;
    }
    let ghost nm = name@;
    es.push((name, v));
    assert forall|a: int, b: int| 0 <= a < b < es@.len() implies es@[a].0@ != es@[b].0@ by {
        if b < old_es.len() {
            assert(old_es[a].0@ != old_es[b].0@);
        }
    }
    assert(es@[old_es.len() as int].0@ == nm);
    assert forall|n: Seq<char>, x: ScopeEntry| n != nm implies (has_entry(es@, n, x) <==> has_entry(old_es, n, x)) by {
        if has_entry(es@, n, x) {
            let k = choose|k: int| 0 <= k < es@.len() && (#[trigger] es@[k]).0@ == n && es@[k].1 == x;
            assert(old_es[k] == es@[k]);
        }
        if has_entry(old_es, n, x) {
            let k = choose|k: int| 0 <= k < old_es.len() && (#[trigger] old_es[k]).0@ == n && old_es[k].1 == x;
            assert(old_es[k] == es@[k]);
        }
    }
    assert forall|n: Seq<char>| declares(es@, n) <==> (declares(old_es, n) || n == nm) by {
        if declares(es@, n) {
            let k = choose|k: int| 0 <= k < es@.len() && (#[trigger] es@[k]).0@ == n;
            if k < old_es.len() {
                assert(old_es[k] == es@[k]);
            }
        }
        if declares(old_es, n) {
            let k = choose|k: int| 0 <= k < old_es.len() && (#[trigger] old_es[k]).0@ == n;
            assert(old_es[k] == es@[k]);
        }
    }
    assert forall|k: int| 0 <= k < es@.len() implies ((#[trigger] es@[k]).1 == v || exists|j: int| 0 <= j < old_es.len() && old_es[j] == es@[k]) by {
        if k < old_es.len() {
            assert(old_es[k] == es@[k]);
        }
    }
    assert forall|k: int| 0 <= k < es@.len() implies ((#[trigger] es@[k]).0@ == nm || exists|j: int| 0 <= j < old_es.len() && old_es[j] == es@[k]) by {
        if k < old_es.len() {
            assert(old_es[k] == es@[k]);
        }
    }
}

impl ExprScopes {
    pub open spec fn parent_of(&self, s: ScopeId) -> Option<ScopeId> {
        match self.scopes@[s as int].parent {
            ScopeParent::Block(p) => Some(p),
            ScopeParent::File(_) => None,
        }
    }

    /// Structural well-formedness: parents are allocated before their children,
    /// entries point into the entry arena, names are unique per scope, and
    /// expression scopes are valid scopes.
    pub open spec fn wf(&self) -> bool {
        &&& forall|s: int|
            0 <= s < self.scopes.len() ==> match (#[trigger] self.scopes@[s]).parent {
                ScopeParent::Block(p) => p < s,
                ScopeParent::File(_) => true,
            }
        &&& forall|s: int, i: int|
            0 <= s < self.scopes.len() && 0 <= i < self.scopes@[s].entries.len() ==> (#[trigger] self.scopes@[s].entries@[i]).1
                < self.scope_entries.len()
        &&& forall|s: int| 0 <= s < self.scopes.len() ==> unique_names((#[trigger] self.scopes@[s]).entries@)
        &&& forall|e: int|
            0 <= e < self.scope_by_expr.len() ==> match #[trigger] self.scope_by_expr@[e] {
                Some(s) => s < self.scopes.len(),
                None => true,
            }
    }

    /// Well-formedness relative to the body the scopes describe: every recorded
    /// name refers to a binding of that name, and every binding that was given a
    /// scope is declared in it.
    pub open spec fn wf_for(&self, body: &Body) -> bool {
        &&& self.wf()
        &&& self.scope_by_expr.len() == body.exprs.len()
        &&& forall|x: int|
            0 <= x < self.scope_entries.len() ==> (#[trigger] self.scope_entries@[x]) < body.exprs.len()
        &&& forall|s: int, i: int|
            0 <= s < self.scopes.len() && 0 <= i < self.scopes@[s].entries.len() ==> {
                let (n, x) = #[trigger] self.scopes@[s].entries@[i];
                body.exprs@[self.scope_entries@[x as int] as int] matches Expr::Binding { ident_id, .. }
                    && ident_id < body.idents.len() && body.idents@[ident_id as int]@ == n@
            }
        &&& forall|e: int|
            0 <= e < body.exprs.len() ==> match (#[trigger] self.scope_by_expr@[e], body.exprs@[e]) {
                (Some(s), Expr::Binding { ident_id, .. }) => declares(
                    self.scopes@[s as int].entries@,
                    body.idents@[ident_id as int]@,
                ),
                _ => true,
            }
    }

    /// `new` only adds to `self`: scopes keep their parents and declared names,
    /// the entry arena only grows, and expressions keep having a scope.
    pub open spec fn grows_to(&self, new: &ExprScopes) -> bool {
        &&& new.scopes.len() >= self.scopes.len()
        &&& forall|s: int| 0 <= s < self.scopes.len() ==> (#[trigger] new.scopes@[s]).parent == self.scopes@[s].parent
        &&& forall|s: int, n: Seq<char>|
            0 <= s < self.scopes.len() && declares(self.scopes@[s].entries@, n) ==> #[trigger] declares(
                new.scopes@[s].entries@,
                n,
            )
        &&& new.scope_entries.len() >= self.scope_entries.len()
        &&& forall|x: int| 0 <= x < self.scope_entries.len() ==> (#[trigger] new.scope_entries@[x]) == self.scope_entries@[x]
        &&& new.scope_by_expr.len() == self.scope_by_expr.len()
        &&& forall|e: int| 0 <= e < self.scope_by_expr.len() && (#[trigger] self.scope_by_expr@[e]) is Some ==> new.scope_by_expr@[e] is Some
    }

    fn root_scope(&mut self, file_id: FileId) -> (res: ScopeId)
        ensures
            res == old(self).scopes.len(),
            final(self).scopes@ == old(self).scopes@.push(ScopeData { parent: ScopeParent::File(file_id), entries: final(self).scopes@[res as int].entries }),
            final(self).scopes@[res as int].entries@.len() == 0,
            final(self).scope_entries@ == old(self).scope_entries@,
            final(self).scope_by_expr@ == old(self).scope_by_expr@,
    {
        let id = self.scopes.len();
        self.scopes.push(ScopeData { parent: ScopeParent::File(file_id), entries: Vec::new() });
        id
    }

    fn new_block_scope(&mut self, parent: ScopeId) -> (res: ScopeId)
        ensures
            res == old(self).scopes.len(),
            final(self).scopes@ == old(self).scopes@.push(ScopeData { parent: ScopeParent::Block(parent), entries: final(self).scopes@[res as int].entries }),
            final(self).scopes@[res as int].entries@.len() == 0,
            final(self).scope_entries@ == old(self).scope_entries@,
            final(self).scope_by_expr@ == old(self).scope_by_expr@,
    {
        let id = self.scopes.len();
        self.scopes.push(ScopeData { parent: ScopeParent::Block(parent), entries: Vec::new() });
        id
    }

    /// Sets a scope mapping for the given expression.
    fn set_scope(&mut self, node: ExprId, scope: ScopeId)
        requires
            node < old(self).scope_by_expr.len(),
        ensures
            final(self).scope_by_expr@ == old(self).scope_by_expr@.update(node as int, Some(scope)),
            final(self).scopes@ == old(self).scopes@,
            final(self).scope_entries@ == old(self).scope_entries@,
    {
        self.scope_by_expr.set(node, Some(scope));
    }

    /// Declares, in `scope`, the binding expression `binding_expr` under its name.
    fn bind(&mut self, scope: ScopeId, name: Name, binding_expr: ExprId, Ghost(body): Ghost<&Body>)
        requires
            old(self).wf_for(body),
            scope < old(self).scopes.len(),
            binding_expr < body.exprs.len(),
            body.exprs@[binding_expr as int] matches Expr::Binding { ident_id, .. } && ident_id
                < body.idents.len() && body.idents@[ident_id as int]@ == name@,
        ensures
            final(self).wf_for(body),
            old(self).grows_to(final(self)),
            declares(final(self).scopes@[scope as int].entries@, name@),
            final(self).scope_by_expr@ == old(self).scope_by_expr@,
    {
        let ghost old_self = *self;
        let ghost nm = name@;
        let binding = self.scope_entries.len();
        self.scope_entries.push(binding_expr);
        insert_name(&mut self.scopes[scope].entries, name, binding);
        proof {
            assert forall|s: int| 0 <= s < self.scopes.len() && s != scope implies #[trigger] self.scopes@[s] == old_self.scopes@[s] by {}
            assert forall|s: int, i: int|
                0 <= s < self.scopes.len() && 0 <= i < self.scopes@[s].entries.len() implies (#[trigger] self.scopes@[s].entries@[i]).1
                    < self.scope_entries.len() by {
                if s == scope {
                    let e = self.scopes@[s].entries@[i];
                    if e.1 != binding {
                        let j = choose|j: int| 0 <= j < old_self.scopes@[s].entries@.len() && old_self.scopes@[s].entries@[j] == e;
                        assert(old_self.scopes@[s].entries@[j].1 < old_self.scope_entries.len());
                    }
                } else {
                    assert(old_self.scopes@[s].entries@[i].1 < old_self.scope_entries.len());
                }
            }
            assert forall|s: int, i: int|
                0 <= s < self.scopes.len() && 0 <= i < self.scopes@[s].entries.len() implies {
                    let (n, x) = #[trigger] self.scopes@[s].entries@[i];
                    body.exprs@[self.scope_entries@[x as int] as int] matches Expr::Binding { ident_id, .. }
                        && ident_id < body.idents.len() && body.idents@[ident_id as int]@ == n@
                } by {
                let e = self.scopes@[s].entries@[i];
                if s == scope {
                    if e.1 == binding {
                        if e.0@ != nm {
                            let j = choose|j: int| 0 <= j < old_self.scopes@[s].entries@.len() && old_self.scopes@[s].entries@[j] == e;
                            assert(old_self.scopes@[s].entries@[j].1 < old_self.scope_entries.len());
                        }
                    } else {
                        let j = choose|j: int| 0 <= j < old_self.scopes@[s].entries@.len() && old_self.scopes@[s].entries@[j] == e;
                        assert(old_self.scopes@[s].entries@[j].1 < old_self.scope_entries.len());
                        assert(self.scope_entries@[e.1 as int] == old_self.scope_entries@[e.1 as int]);
                    }
                } else {
                    assert(old_self.scopes@[s].entries@[i] == e);
                    assert(old_self.scopes@[s].entries@[i].1 < old_self.scope_entries.len());
                    assert(self.scope_entries@[e.1 as int] == old_self.scope_entries@[e.1 as int]);
                }
            }
            assert forall|e: int|
                0 <= e < body.exprs.len() implies match (#[trigger] self.scope_by_expr@[e], body.exprs@[e]) {
                    (Some(s), Expr::Binding { ident_id, .. }) => declares(
                        self.scopes@[s as int].entries@,
                        body.idents@[ident_id as int]@,
                    ),
                    _ => true,
                } by {
                assert(self.scope_by_expr@[e] == old_self.scope_by_expr@[e]);
            }
            assert forall|s: int| 0 <= s < self.scopes.len() implies unique_names((#[trigger] self.scopes@[s]).entries@) by {
                if s != scope {
                    assert(self.scopes@[s] == old_self.scopes@[s]);
                }
            }
            assert forall|s: int, n: Seq<char>|
                0 <= s < old_self.scopes.len() && declares(old_self.scopes@[s].entries@, n) implies #[trigger] declares(
                    self.scopes@[s].entries@,
                    n,
                ) by {
                if s != scope {
                    assert(self.scopes@[s] == old_self.scopes@[s]);
                }
            }
        }
    }

    /// The scopes from `s` outwards to the root scope.
    pub open spec fn chain(&self, s: ScopeId) -> Seq<ScopeId>
        decreases s,
    {
        if s >= self.scopes.len() {
            seq![]
        } else {
            seq![s] + match self.scopes@[s as int].parent {
                ScopeParent::Block(p) => if p < s {
                    self.chain(p)
                } else {
                    seq![]
                },
                ScopeParent::File(_) => seq![],
            }
        }
    }

    /// The binding that name `n` denotes in scope `s`: the one of the innermost
    /// scope on the chain from `s` that declares `n`.
    pub open spec fn resolve(&self, s: ScopeId, n: Seq<char>) -> Option<ScopeEntry>
        decreases s,
    {
        if s >= self.scopes.len() {
            None
        } else if declares(self.scopes@[s as int].entries@, n) {
            let i = choose|i: int|
                0 <= i < self.scopes@[s as int].entries.len() && (#[trigger] self.scopes@[s as int].entries@[i]).0@
                    == n;
            Some(self.scopes@[s as int].entries@[i].1)
        } else {
            match self.scopes@[s as int].parent {
                ScopeParent::Block(p) => if p < s {
                    self.resolve(p, n)
                } else {
                    None
                },
                ScopeParent::File(_) => None,
            }
        }
    }

    /// Every scope on a chain is a valid scope, and the chain is never empty for a valid scope.
    pub proof fn lemma_chain_valid(&self, s: ScopeId)
        requires
            self.wf(),
        ensures
            forall|i: int| 0 <= i < self.chain(s).len() ==> (#[trigger] self.chain(s)[i]) < self.scopes.len(),
            s < self.scopes.len() ==> self.chain(s).len() >= 1 && self.chain(s)[0] == s,
        decreases s,
    {
        if s < self.scopes.len() {
            match self.scopes@[s as int].parent {
                ScopeParent::Block(p) => {
                    assert(p < s);
                    self.lemma_chain_valid(p);
                    assert forall|i: int| 0 <= i < self.chain(s).len() implies (#[trigger] self.chain(s)[i]) < self.scopes.len() by {
                        if i > 0 {
                            assert(self.chain(s)[i] == self.chain(p)[i - 1]);
                        }
                    }
                },
                ScopeParent::File(_) => {},
            }
        }
    }

    /// If `scope` refers to a file scope, returns the corresponding `FileId`.
    pub fn file_id(&self, scope: ScopeId) -> (res: Option<FileId>)
        requires
            scope < self.scopes.len(),
        ensures
            res == match self.scopes@[scope as int].parent {
                ScopeParent::File(f) => Some(f),
                _ => None,
            },
    {
        match self.scopes[scope].parent {
            ScopeParent::File(file_id) => Some(file_id),
            _ => None,
        }
    }

    /// Returns the scopes in ascending order.
    pub fn scope_chain(&self, scope: Option<ScopeId>) -> (res: Vec<ScopeId>)
        requires
            self.wf(),
        ensures
            res@ == match scope {
                Some(s) => self.chain(s),
                None => seq![],
            },
    {
        let mut res: Vec<ScopeId> = Vec::new();
        let mut cur = scope;
        while cur.is_some()
            invariant
                self.wf(),
                (res@ + match cur {
                    Some(s) => self.chain(s),
                    None => seq![],
                }) == match scope {
                    Some(s) => self.chain(s),
                    None => seq![],
                },
            decreases match cur {
                Some(s) => s + 1,
                None => 0,
            },
        {
            let s = cur.unwrap();
            if s >= self.scopes.len() {
                cur = None;
            } else {
                res.push(s);
                let next = self.scopes[s].scope_parent();
                proof {
                    assert(self.chain(s) == seq![s] + match next {
                        Some(p) => self.chain(p),
                        None => seq![],
                    });
                }
                cur = next;
            }
        }
        res
    }

    /// The binding that `name` denotes in `scope`.
    pub fn resolve_name_in_scope(&self, scope: ScopeId, name: &Name) -> (res: Option<ScopeEntry>)
        requires
            self.wf(),
        ensures
            res == self.resolve(scope, name@),
            res matches Some(x) ==> x < self.scope_entries.len(),
    {
        let mut cur = scope;
        loop
            invariant
                self.wf(),
                cur <= scope,
                self.resolve(scope, name@) == self.resolve(cur, name@),
            decreases cur,
        {
            if cur >= self.scopes.len() {
                return None;
            }
            let entries = &self.scopes[cur].entries;
            let mut i: usize = 0;
            while i < entries.len()
                invariant
                    self.wf(),
                    cur < self.scopes.len(),
                    self.resolve(scope, name@) == self.resolve(cur, name@),
                    entries@ == self.scopes@[cur as int].entries@,
                    0 <= i <= entries.len(),
                    forall|k: int| 0 <= k < i ==> entries@[k].0@ != name@,
                decreases entries.len() - i,
            {
                if entries[i].0.same_as(name) {
                    proof {
                        let j = choose|j: int|
                            0 <= j < self.scopes@[cur as int].entries.len() && (#[trigger] self.scopes@[cur as int].entries@[j]).0@
                                == name@;
                        if j != i {
                            if j < i {
                                assert(self.scopes@[cur as int].entries@[j].0@ != self.scopes@[cur as int].entries@[i as int].0@);
                            } else {
                                assert(self.scopes@[cur as int].entries@[i as int].0@ != self.scopes@[cur as int].entries@[j].0@);
                            }
                        }
                    }
                    assert(self.scopes@[cur as int].entries@[i as int].1 < self.scope_entries.len());
                    assert(declares(self.scopes@[cur as int].entries@, name@));
                    assert(self.resolve(cur, name@) == Some(self.scopes@[cur as int].entries@[i as int].1));
                    return Some(entries[i].1);
                }
                i = i + 1;
            }
            match self.scopes[cur].parent {
                ScopeParent::Block(p) => {
                    cur = p;
                },
                ScopeParent::File(_) => {
                    return None;
                },
            }
        }
    }

    /// The scope an expression sits in.
    pub fn scope_for(&self, expr: ExprId) -> (res: Option<ScopeId>)
        ensures
            res == if expr < self.scope_by_expr.len() {
                self.scope_by_expr@[expr as int]
            } else {
                None
            },
    {
        if expr < self.scope_by_expr.len() {
            self.scope_by_expr[expr]
        } else {
            None
        }
    }

    /// The binding expression of an entry.
    pub fn entry(&self, entry: ScopeEntry) -> (res: ExprId)
        requires
            entry < self.scope_entries.len(),
        ensures
            res == self.scope_entries@[entry as int],
    {
        self.scope_entries[entry]
    }

    /// The first (root) scope, if any.
    pub fn first_scope(&self) -> (res: Option<ScopeId>)
        ensures
            res == if self.scopes.len() > 0 {
                Some(0usize)
            } else {
                None
            },
    {
        if self.scopes.len() > 0 {
            Some(0)
        } else {
            None
        }
    }
}

impl ExprScopes {
    /// The scopes of `body`: a root scope for the file holding the parameters, and
    /// the scopes of the body's blocks.
    pub fn new(body: &Body, file_id: FileId) -> (res: ExprScopes)
        requires
            body.wf(),
        ensures
            res.wf_for(body),
            res.scopes.len() >= 1,
            res.scopes@[0].parent == ScopeParent::File(file_id),
            forall|p: int| 0 <= p < body.params.len() ==> #[trigger] declares(res.scopes@[0].entries@, body.idents@[body.params@[p].0 as int]@),
            body.body_expr matches Some(b) ==> res.scope_by_expr@[b as int] is Some,
            body.body_expr matches Some(b) ==> res.scoped_below(body, b),
    {
        let mut scope_by_expr: Vec<Option<ScopeId>> = Vec::new();
        let mut i: usize = 0;
        while i < body.exprs.len()
            invariant
                0 <= i <= body.exprs.len(),
                scope_by_expr.len() == i,
                forall|k: int| 0 <= k < i ==> (#[trigger] scope_by_expr@[k]) is None,
            decreases body.exprs.len() - i,
        {
            scope_by_expr.push(None);
            i = i + 1;
        }
        let mut scopes = ExprScopes { scopes: Vec::new(), scope_entries: Vec::new(), scope_by_expr };
        let mut root = scopes.root_scope(file_id);
        assert(scopes.wf_for(body));
        scopes.add_params_bindings(body, root);
        if let Some(id) = body.body_expr {
            let ghost before = scopes;
            compute_expr_scopes(id, body, &mut scopes, &mut root);
            proof {
                assert forall|p: int| 0 <= p < body.params.len() implies #[trigger] declares(scopes.scopes@[0].entries@, body.idents@[body.params@[p].0 as int]@) by {
                    assert(declares(before.scopes@[0].entries@, body.idents@[body.params@[p].0 as int]@));
                }
            }
        }
        scopes
    }

    fn add_params_bindings(&mut self, body: &Body, scope: ScopeId)
        requires
            body.wf(),
            old(self).wf_for(body),
            scope < old(self).scopes.len(),
        ensures
            final(self).wf_for(body),
            old(self).grows_to(final(self)),
            final(self).scope_by_expr@ == old(self).scope_by_expr@,
            forall|p: int| 0 <= p < body.params.len() ==> #[trigger] declares(final(self).scopes@[scope as int].entries@, body.idents@[body.params@[p].0 as int]@),
    {
        let ghost s0 = *self;
        let mut i: usize = 0;
        while i < body.params.len()
            invariant
                body.wf(),
                self.wf_for(body),
                s0.grows_to(self),
                self.scope_by_expr@ == s0.scope_by_expr@,
                scope < self.scopes.len(),
                0 <= i <= body.params.len(),
                forall|p: int| 0 <= p < i ==> #[trigger] declares(self.scopes@[scope as int].entries@, body.idents@[body.params@[p].0 as int]@),
            decreases body.params.len() - i,
        {
            let (ident_id, binding_id) = body.params[i];
            let name = body.idents[ident_id].clone();
            let ghost before = *self;
            self.bind(scope, name, binding_id, Ghost(body));
            proof {
                lemma_grows_trans(&s0, &before, self);
                assert forall|p: int| 0 <= p < i + 1 implies #[trigger] declares(self.scopes@[scope as int].entries@, body.idents@[body.params@[p].0 as int]@) by {
                    if p < i {
                        assert(declares(before.scopes@[scope as int].entries@, body.idents@[body.params@[p].0 as int]@));
                    }
                }
            }
            i = i + 1;
        }
    }

    /// The scopes of a body, shared.
    pub fn expr_scopes_query(body: &Body, file_id: FileId) -> (res: std::sync::Arc<ExprScopes>)
        requires
            body.wf(),
        ensures
            res.wf_for(body),
            res.scopes.len() >= 1,
            res.scopes@[0].parent == ScopeParent::File(file_id),
            body.body_expr matches Some(b) ==> res.scoped_below(body, b),
    {
        let scopes = ExprScopes::new(body, file_id);
        std::sync::Arc::new(scopes)
    }

    /// Every name visible in `scope`, with its binding, from the innermost scope outwards.
    #[verifier::loop_isolation(false)]
    pub fn entries(&self, scope: ScopeId) -> (res: Vec<(Name, ScopeEntry)>)
        requires
            self.wf(),
        ensures
            forall|i: int| #![trigger res@[i]] 0 <= i < res.len() ==> exists|k: int| #![trigger self.chain(scope)[k]] 0 <= k < self.chain(scope).len()
                && has_entry(self.scopes@[self.chain(scope)[k] as int].entries@, res@[i].0@, res@[i].1),
            forall|k: int, n: Seq<char>, x: ScopeEntry| 0 <= k < self.chain(scope).len()
                && #[trigger] has_entry(self.scopes@[self.chain(scope)[k] as int].entries@, n, x) ==> has_entry(res@, n, x),
    {
        let chain = self.scope_chain(Some(scope));
        proof {
            self.lemma_chain_valid(scope);
        }
        let mut res: Vec<(Name, ScopeEntry)> = Vec::new();
        let mut k: usize = 0;
        while k < chain.len()
            invariant
                self.wf(),
                chain@ == self.chain(scope),
                0 <= k <= chain.len(),
                forall|s: int| 0 <= s < chain.len() ==> (#[trigger] chain@[s]) < self.scopes.len(),
                forall|i: int| #![trigger res@[i]] 0 <= i < res.len() ==> exists|kk: int| #![trigger chain@[kk]] 0 <= kk < k
                    && has_entry(self.scopes@[chain@[kk] as int].entries@, res@[i].0@, res@[i].1),
                forall|kk: int, n: Seq<char>, x: ScopeEntry| 0 <= kk < k
                    && #[trigger] has_entry(self.scopes@[chain@[kk] as int].entries@, n, x) ==> has_entry(res@, n, x),
            decreases chain.len() - k,
        {
            let s = chain[k];
            let es = &self.scopes[s].entries;
            let mut j: usize = 0;
            let ghost res_k = res@;
            while j < es.len()
                invariant
                    self.wf(),
                    chain@ == self.chain(scope),
                    0 <= k < chain.len(),
                    s == chain@[k as int],
                    s < self.scopes.len(),
                    es@ == self.scopes@[s as int].entries@,
                    0 <= j <= es.len(),
                    res@.len() == res_k.len() + j,
                    forall|i: int| 0 <= i < res_k.len() ==> res@[i] == res_k[i],
                    forall|i: int| 0 <= i < j ==> res@[res_k.len() + i].0@ == es@[i].0@ && res@[res_k.len() + i].1 == es@[i].1,
                decreases es.len() - j,
            {
                let name = es[j].0.clone();
                res.push((name, es[j].1));
                j = j + 1;
            }
            proof {
                assert forall|i: int| #![trigger res@[i]] 0 <= i < res.len() implies exists|kk: int| #![trigger chain@[kk]] 0 <= kk < k + 1
                    && has_entry(self.scopes@[chain@[kk] as int].entries@, res@[i].0@, res@[i].1) by {
                    if i < res_k.len() {
                        assert(res@[i] == res_k[i]);
                    } else {
                        let jj = i - res_k.len();
                        assert(res@[i].0@ == es@[jj].0@ && res@[i].1 == es@[jj].1);
                        assert(has_entry(self.scopes@[chain@[k as int] as int].entries@, res@[i].0@, res@[i].1));
                    }
                }
                assert forall|kk: int, n: Seq<char>, x: ScopeEntry| 0 <= kk < k + 1
                    && #[trigger] has_entry(self.scopes@[chain@[kk] as int].entries@, n, x) implies has_entry(res@, n, x) by {
                    if kk < k {
                        assert(has_entry(res_k, n, x));
                        let i = choose|i: int| 0 <= i < res_k.len() && (#[trigger] res_k[i]).0@ == n && res_k[i].1 == x;
                        assert(res@[i] == res_k[i]);
                    } else {
                        let jj = choose|jj: int| 0 <= jj < es@.len() && (#[trigger] es@[jj]).0@ == n && es@[jj].1 == x;
                        assert(res@[res_k.len() + jj].0@ == es@[jj].0@ && res@[res_k.len() + jj].1 == es@[jj].1);
                    }
                }
            }
            k = k + 1;
        }
        res
    }
}

/// Growth of scopes is transitive.
pub proof fn lemma_grows_trans(a: &ExprScopes, b: &ExprScopes, c: &ExprScopes)
    requires
        a.grows_to(b),
        b.grows_to(c),
    ensures
        a.grows_to(c),
{
    assert forall|s: int, n: Seq<char>|
        0 <= s < a.scopes.len() && declares(a.scopes@[s].entries@, n) implies #[trigger] declares(c.scopes@[s].entries@, n) by {
        assert(declares(b.scopes@[s].entries@, n));
    }
    assert forall|e: int| 0 <= e < a.scope_by_expr.len() && (#[trigger] a.scope_by_expr@[e]) is Some implies c.scope_by_expr@[e] is Some by {
        assert(b.scope_by_expr@[e] is Some);
    }
    assert forall|s: int| 0 <= s < a.scopes.len() implies (#[trigger] c.scopes@[s]).parent == a.scopes@[s].parent by {
        assert(b.scopes@[s].parent == a.scopes@[s].parent);
    }
    assert forall|x: int| 0 <= x < a.scope_entries.len() implies (#[trigger] c.scope_entries@[x]) == a.scope_entries@[x] by {
        assert(b.scope_entries@[x] == a.scope_entries@[x]);
    }
}

impl ExprScopes {
    /// `e` has a scope, and so has, recursively, every expression below it that can
    /// declare names: the bindings of a declaration, the statements of a block, the
    /// initialisations and the body of a loop, the branches of a condition and the
    /// bodies of the cases of a switch. A binding among them is declared, under its
    /// name, in its scope.
    pub open spec fn scoped_below(&self, body: &Body, e: ExprId) -> bool
        decreases e,
    {
        &&& e < body.exprs.len()
        &&& e < self.scope_by_expr.len()
        &&& self.scope_by_expr@[e as int] matches Some(s) && s < self.scopes.len() && match body.exprs@[e as int] {
            Expr::Binding { ident_id, .. } => ident_id < body.idents.len() && declares(
                self.scopes@[s as int].entries@,
                body.idents@[ident_id as int]@,
            ),
            Expr::Decl(d) => forall|k: int| 0 <= k < d.len() ==> d@[k] < e && self.scoped_below(body, #[trigger] d@[k]),
            Expr::Block { statements, .. } => forall|k: int|
                0 <= k < statements.len() ==> statements@[k] < e && self.scoped_below(body, #[trigger] statements@[k]),
            Expr::Loop { initialization, body: lb, .. } => (forall|k: int|
                0 <= k < initialization.len() ==> initialization@[k] < e && self.scoped_below(
                    body,
                    #[trigger] initialization@[k],
                )) && (lb matches Some(b) ==> b < e && self.scoped_below(body, b)),
            Expr::Condition { then_branch, else_branch, .. } => then_branch < e && self.scoped_below(body, then_branch)
                && (else_branch matches Some(b) ==> b < e && self.scoped_below(body, b)),
            Expr::Switch { cases, .. } => forall|k: int|
                0 <= k < cases.len() ==> (#[trigger] cases@[k]).spec_body() < e && self.scoped_below(
                    body,
                    cases@[k].spec_body(),
                ),
            _ => true,
        }
    }
}

/// What has a scope keeps one as the scopes grow.
pub proof fn lemma_scoped_below_grows(a: &ExprScopes, b: &ExprScopes, body: &Body, e: ExprId)
    requires
        a.scoped_below(body, e),
        a.grows_to(b),
        b.wf_for(body),
    ensures
        b.scoped_below(body, e),
    decreases e,
{
    assert(a.scope_by_expr@[e as int] is Some);
    assert(b.scope_by_expr@[e as int] is Some);
    match body.exprs@[e as int] {
        Expr::Decl(d) => {
            assert forall|k: int| 0 <= k < d.len() implies d@[k] < e && b.scoped_below(body, #[trigger] d@[k]) by {
                lemma_scoped_below_grows(a, b, body, d@[k]);
            }
        },
        Expr::Block { statements, .. } => {
            assert forall|k: int| 0 <= k < statements.len() implies statements@[k] < e && b.scoped_below(
                body,
                #[trigger] statements@[k],
            ) by {
                lemma_scoped_below_grows(a, b, body, statements@[k]);
            }
        },
        Expr::Loop { initialization, body: lb, .. } => {
            assert forall|k: int| 0 <= k < initialization.len() implies initialization@[k] < e && b.scoped_below(
                body,
                #[trigger] initialization@[k],
            ) by {
                lemma_scoped_below_grows(a, b, body, initialization@[k]);
            }
            if let Some(x) = lb {
                lemma_scoped_below_grows(a, b, body, x);
            }
        },
        Expr::Condition { then_branch, else_branch, .. } => {
            lemma_scoped_below_grows(a, b, body, then_branch);
            if let Some(x) = else_branch {
                lemma_scoped_below_grows(a, b, body, x);
            }
        },
        Expr::Switch { cases, .. } => {
            assert forall|k: int| 0 <= k < cases.len() implies (#[trigger] cases@[k]).spec_body() < e && b.scoped_below(
                body,
                cases@[k].spec_body(),
            ) by {
                lemma_scoped_below_grows(a, b, body, cases@[k].spec_body());
            }
        },
        _ => {},
    }
}

/// The case bodies of a switch are among the ids it mentions.
pub proof fn lemma_case_body_child(cases: Seq<SwitchCase>, k: int)
    requires
        0 <= k < cases.len(),
    ensures
        cases_children(cases).contains(cases[k].spec_body()),
    decreases cases.len(),
{
    let rest = cases.drop_last();
    let cc = cases_children(cases);
    let prefix = cases_children(rest) + cases.last().spec_values();
    if k == cases.len() - 1 {
        assert(cc[prefix.len() as int] == cases.last().spec_body());
    } else {
        lemma_case_body_child(rest, k);
        assert(rest[k] == cases[k]);
        let j = choose|j: int| 0 <= j < cases_children(rest).len() && cases_children(rest)[j] == cases[k].spec_body();
        assert(cc[j] == cases_children(rest)[j]);
    }
}

/// Every id an expression of a well-formed body mentions is smaller than its own.
pub proof fn lemma_child_lt(body: &Body, expr: ExprId, c: ExprId)
    requires
        body.wf(),
        expr < body.exprs.len(),
        expr_children(&body.exprs@[expr as int]).contains(c),
    ensures
        c < expr,
{
    let k = choose|k: int| 0 <= k < expr_children(&body.exprs@[expr as int]).len() && expr_children(&body.exprs@[expr as int])[k] == c;
    assert(expr_children(&body.exprs@[expr as int])[k] < expr);
}

/// Computes the scopes of the expression `expr` and of its sub-expressions: each
/// block opens a scope inside the current one, and each binding is declared in
/// the scope it sits in.
fn compute_expr_scopes(expr: ExprId, body: &Body, scopes: &mut ExprScopes, scope: &mut ScopeId)
    requires
        body.wf(),
        old(scopes).wf_for(body),
        expr < body.exprs.len(),
        *old(scope) < old(scopes).scopes.len(),
    ensures
        final(scopes).wf_for(body),
        old(scopes).grows_to(final(scopes)),
        *final(scope) == *old(scope),
        final(scopes).scope_by_expr@[expr as int] is Some,
        final(scopes).scoped_below(body, expr),
    decreases expr,
{
    let ghost s0 = *scopes;
    if let Expr::Binding { ident_id, .. } = &body.exprs[expr] {
        let name = body.idents[*ident_id].clone();
        scopes.bind(*scope, name, expr, Ghost(body));
    }
    let ghost s1 = *scopes;
    scopes.set_scope(expr, *scope);
    proof {
        assert(s0.grows_to(&s1));
        assert forall|e: int|
            0 <= e < body.exprs.len() implies match (#[trigger] scopes.scope_by_expr@[e], body.exprs@[e]) {
                (Some(s), Expr::Binding { ident_id, .. }) => declares(
                    scopes.scopes@[s as int].entries@,
                    body.idents@[ident_id as int]@,
                ),
                _ => true,
            } by {
            if e != expr {
                assert(scopes.scope_by_expr@[e] == s1.scope_by_expr@[e]);
            }
        }
        assert forall|e: int| 0 <= e < scopes.scope_by_expr.len() implies match #[trigger] scopes.scope_by_expr@[e] {
            Some(s) => s < scopes.scopes.len(),
            None => true,
        } by {
            if e != expr {
                assert(scopes.scope_by_expr@[e] == s1.scope_by_expr@[e]);
            }
        }
        assert(scopes.wf_for(body));
        assert(s1.grows_to(scopes));
        lemma_grows_trans(&s0, &s1, scopes);
    }
    match &body.exprs[expr] {
        Expr::Decl(decl) => {
            let mut i: usize = 0;
            while i < decl.len()
                invariant
                    body.wf(),
                    expr < body.exprs.len(),
                    body.exprs@[expr as int] == Expr::Decl(*decl),
                    scopes.wf_for(body),
                    s0.grows_to(scopes),
                    *scope < scopes.scopes.len(),
                    *scope == *old(scope),
                    scopes.scope_by_expr@[expr as int] is Some,
                    0 <= i <= decl.len(),
                    forall|k: int| 0 <= k < i ==> decl@[k] < expr && scopes.scoped_below(body, #[trigger] decl@[k]),
                decreases decl.len() - i,
            {
                let binding = decl[i];
                proof {
                    assert(expr_children(&body.exprs@[expr as int])[i as int] == binding);
                    lemma_child_lt(body, expr, binding);
                }
                let ghost before = *scopes;
                compute_expr_scopes(binding, body, scopes, scope);
                proof {
                    lemma_grows_trans(&s0, &before, scopes);
                    assert forall|k: int| 0 <= k < i + 1 implies decl@[k] < expr && scopes.scoped_below(body, #[trigger] decl@[k]) by {
                        if k < i {
                            lemma_scoped_below_grows(&before, scopes, body, decl@[k]);
                        }
                    }
                }
                i = i + 1;
            }
            assert(scopes.scoped_below(body, expr));
        },
        Expr::Block { statements, .. } => {
            let ghost before_block = *scopes;
            let mut inner = scopes.new_block_scope(*scope);
            proof {
                assert forall|s: int| 0 <= s < scopes.scopes.len() implies match (#[trigger] scopes.scopes@[s]).parent {
                    ScopeParent::Block(p) => p < s,
                    ScopeParent::File(_) => true,
                } by {
                    if s < before_block.scopes.len() {
                        assert(scopes.scopes@[s] == before_block.scopes@[s]);
                    }
                }
                assert forall|s: int, i: int|
                    0 <= s < scopes.scopes.len() && 0 <= i < scopes.scopes@[s].entries.len() implies {
                        let (n, x) = #[trigger] scopes.scopes@[s].entries@[i];
                        body.exprs@[scopes.scope_entries@[x as int] as int] matches Expr::Binding { ident_id, .. }
                            && ident_id < body.idents.len() && body.idents@[ident_id as int]@ == n@
                    } by {
                    assert(scopes.scopes@[s] == before_block.scopes@[s]);
                }
                assert forall|s: int, i: int|
                    0 <= s < scopes.scopes.len() && 0 <= i < scopes.scopes@[s].entries.len() implies (#[trigger] scopes.scopes@[s].entries@[i]).1
                        < scopes.scope_entries.len() by {
                    assert(scopes.scopes@[s] == before_block.scopes@[s]);
                }
                assert forall|s: int| 0 <= s < scopes.scopes.len() implies unique_names((#[trigger] scopes.scopes@[s]).entries@) by {
                    if s < before_block.scopes.len() {
                        assert(scopes.scopes@[s] == before_block.scopes@[s]);
                    }
                }
                assert forall|e: int|
                    0 <= e < body.exprs.len() implies match (#[trigger] scopes.scope_by_expr@[e], body.exprs@[e]) {
                        (Some(s), Expr::Binding { ident_id, .. }) => declares(
                            scopes.scopes@[s as int].entries@,
                            body.idents@[ident_id as int]@,
                        ),
                        _ => true,
                    } by {
                    if let Some(s) = scopes.scope_by_expr@[e] {
                        assert(s < before_block.scopes.len());
                        assert(scopes.scopes@[s as int] == before_block.scopes@[s as int]);
                    }
                }
                assert(before_block.grows_to(scopes));
                lemma_grows_trans(&s0, &before_block, scopes);
            }
            let ghost before_set = *scopes;
            scopes.set_scope(expr, inner);
            proof {
                assert forall|e: int|
                    0 <= e < body.exprs.len() implies match (#[trigger] scopes.scope_by_expr@[e], body.exprs@[e]) {
                        (Some(s), Expr::Binding { ident_id, .. }) => declares(
                            scopes.scopes@[s as int].entries@,
                            body.idents@[ident_id as int]@,
                        ),
                        _ => true,
                    } by {
                    if e != expr {
                        assert(scopes.scope_by_expr@[e] == before_set.scope_by_expr@[e]);
                    }
                }
                assert forall|e: int| 0 <= e < scopes.scope_by_expr.len() implies match #[trigger] scopes.scope_by_expr@[e] {
                    Some(s) => s < scopes.scopes.len(),
                    None => true,
                } by {
                    if e != expr {
                        assert(scopes.scope_by_expr@[e] == before_set.scope_by_expr@[e]);
                    }
                }
                assert(before_set.grows_to(scopes));
                lemma_grows_trans(&s0, &before_set, scopes);
            }
            let mut i: usize = 0;
            while i < statements.len()
                invariant
                    body.wf(),
                    expr < body.exprs.len(),
                    body.exprs@[expr as int] matches Expr::Block { statements: st, .. } && st@ == statements@,
                    scopes.wf_for(body),
                    s0.grows_to(scopes),
                    inner < scopes.scopes.len(),
                    *scope == *old(scope),
                    scopes.scope_by_expr@[expr as int] is Some,
                    0 <= i <= statements.len(),
                    forall|k: int|
                        0 <= k < i ==> statements@[k] < expr && scopes.scoped_below(body, #[trigger] statements@[k]),
                decreases statements.len() - i,
            {
                let stmt = statements[i];
                proof {
                    assert(expr_children(&body.exprs@[expr as int])[i as int] == stmt);
                    lemma_child_lt(body, expr, stmt);
                }
                let ghost before = *scopes;
                compute_expr_scopes(stmt, body, scopes, &mut inner);
                proof {
                    lemma_grows_trans(&s0, &before, scopes);
                    assert forall|k: int| 0 <= k < i + 1 implies statements@[k] < expr && scopes.scoped_below(
                        body,
                        #[trigger] statements@[k],
                    ) by {
                        if k < i {
                            lemma_scoped_below_grows(&before, scopes, body, statements@[k]);
                        }
                    }
                }
                i = i + 1;
            }
            assert(scopes.scoped_below(body, expr));
        },
        Expr::Loop { initialization, body: loop_body, .. } => {
            let mut i: usize = 0;
            while i < initialization.len()
                invariant
                    body.wf(),
                    expr < body.exprs.len(),
                    body.exprs@[expr as int] matches Expr::Loop { initialization: it, .. } && it@ == initialization@,
                    scopes.wf_for(body),
                    s0.grows_to(scopes),
                    *scope < scopes.scopes.len(),
                    *scope == *old(scope),
                    scopes.scope_by_expr@[expr as int] is Some,
                    0 <= i <= initialization.len(),
                    forall|k: int|
                        0 <= k < i ==> initialization@[k] < expr && scopes.scoped_below(body, #[trigger] initialization@[k]),
                decreases initialization.len() - i,
            {
                let init = initialization[i];
                proof {
                    assert(expr_children(&body.exprs@[expr as int])[i as int] == init);
                    lemma_child_lt(body, expr, init);
                }
                let ghost before = *scopes;
                compute_expr_scopes(init, body, scopes, scope);
                proof {
                    lemma_grows_trans(&s0, &before, scopes);
                    assert forall|k: int| 0 <= k < i + 1 implies initialization@[k] < expr && scopes.scoped_below(
                        body,
                        #[trigger] initialization@[k],
                    ) by {
                        if k < i {
                            lemma_scoped_below_grows(&before, scopes, body, initialization@[k]);
                        }
                    }
                }
                i = i + 1;
            }
            if let Some(lb) = loop_body {
                proof {
                    let ch = expr_children(&body.exprs@[expr as int]);
                    assert(ch[ch.len() - 1] == *lb);
                    lemma_child_lt(body, expr, *lb);
                }
                let ghost before = *scopes;
                compute_expr_scopes(*lb, body, scopes, scope);
                proof {
                    lemma_grows_trans(&s0, &before, scopes);
                    assert forall|k: int| 0 <= k < initialization.len() implies initialization@[k] < expr
                        && scopes.scoped_below(body, #[trigger] initialization@[k]) by {
                        lemma_scoped_below_grows(&before, scopes, body, initialization@[k]);
                    }
                }
            }
            assert(scopes.scoped_below(body, expr));
        },
        Expr::Condition { then_branch, else_branch, .. } => {
            proof {
                assert(expr_children(&body.exprs@[expr as int])[1] == *then_branch);
                lemma_child_lt(body, expr, *then_branch);
            }
            let ghost before = *scopes;
            compute_expr_scopes(*then_branch, body, scopes, scope);
            proof { lemma_grows_trans(&s0, &before, scopes); }
            if let Some(eb) = else_branch {
                proof {
                    assert(expr_children(&body.exprs@[expr as int])[2] == *eb);
                    lemma_child_lt(body, expr, *eb);
                }
                let ghost before2 = *scopes;
                compute_expr_scopes(*eb, body, scopes, scope);
                proof {
                    lemma_grows_trans(&s0, &before2, scopes);
                    lemma_scoped_below_grows(&before2, scopes, body, *then_branch);
                }
            }
            assert(scopes.scoped_below(body, expr));
        },
        Expr::Switch { cases, .. } => {
            let mut i: usize = 0;
            while i < cases.len()
                invariant
                    body.wf(),
                    expr < body.exprs.len(),
                    body.exprs@[expr as int] matches Expr::Switch { cases: cs, .. } && cs@ == cases@,
                    scopes.wf_for(body),
                    s0.grows_to(scopes),
                    *scope < scopes.scopes.len(),
                    *scope == *old(scope),
                    scopes.scope_by_expr@[expr as int] is Some,
                    0 <= i <= cases.len(),
                    forall|k: int|
                        0 <= k < i ==> (#[trigger] cases@[k]).spec_body() < expr && scopes.scoped_below(
                            body,
                            cases@[k].spec_body(),
                        ),
                decreases cases.len() - i,
            {
                let case_body = cases[i].body();
                proof {
                    lemma_case_body_child(cases@, i as int);
                    let ch = expr_children(&body.exprs@[expr as int]);
                    let j = choose|j: int| 0 <= j < cases_children(cases@).len() && cases_children(cases@)[j] == case_body;
                    assert(ch[j + 1] == case_body);
                    lemma_child_lt(body, expr, case_body);
                }
                let ghost before = *scopes;
                compute_expr_scopes(case_body, body, scopes, scope);
                proof {
                    lemma_grows_trans(&s0, &before, scopes);
                    assert forall|k: int| 0 <= k < i + 1 implies (#[trigger] cases@[k]).spec_body() < expr
                        && scopes.scoped_below(body, cases@[k].spec_body()) by {
                        if k < i {
                            lemma_scoped_below_grows(&before, scopes, body, cases@[k].spec_body());
                        }
                    }
                }
                i = i + 1;
            }
            assert(scopes.scoped_below(body, expr));
        },
        // These expressions do not introduce any declarations.
        _ => {
            assert(scopes.scoped_below(body, expr));
        },
    }
}

} // verus!
