//! Scopes and liveness: which locals are declared where, and what the
//! closing of a scope tears down.

use vstd::prelude::*;
use crate::ast::{Mutability, NodeId, Pat};
use crate::build::model::{
    emit_drops, emit_exit, find_extent, find_in_decls, find_in_scopes, replace_decl, DropData,
    LoopScope,
};
use crate::build::wellformed::lemma_find_in_scopes_valid;
use crate::build::{scopes_view, Builder, Scope};
use crate::repr::{
    decl_scopes_view, Alias, BasicBlock, CodeExtent, DeclScope, LiveDecl, Local, LocalDecl,
    LocalDeclModel, SourceInfo, Statement, StatementKind, VisibilityScopeData,
};

verus! {

/// A copy of the records.
fn copy_decls(decls: &Vec<LiveDecl>) -> (r: Vec<LiveDecl>)
    ensures
        r@ == decls@,
{
    let mut r: Vec<LiveDecl> = Vec::new();
    let mut i: usize = 0;
    while i < decls.len()
        invariant
            0 <= i <= decls.len(),
            r@ == decls@.subrange(0, i as int),
        decreases decls.len() - i,
    {
        r.push(decls[i]);
        assert(r@ =~= decls@.subrange(0, i + 1));
        i += 1;
    }
    assert(decls@.subrange(0, i as int) =~= decls@);
    r
}

/// Turns every record `from` into `to`.
pub(crate) fn replace_in(decls: &mut Vec<LiveDecl>, from: LiveDecl, to: LiveDecl)
    ensures
        final(decls)@ == replace_decl(old(decls)@, from, to),
{
    let mut i: usize = 0;
    while i < decls.len()
        invariant
            0 <= i <= decls.len(),
            decls@.len() == old(decls)@.len(),
            forall|j: int| 0 <= j < i ==> decls@[j] == replace_decl(old(decls)@, from, to)[j],
            forall|j: int| i <= j < decls@.len() ==> decls@[j] == old(decls)@[j],
        decreases decls.len() - i,
    {
        if decls[i] == from {
            decls[i] = to;
        }
        i += 1;
    }
    assert(decls@ =~= replace_decl(old(decls)@, from, to));
}

/// Whether the local is recorded as active.
fn is_active(decls: &Vec<LiveDecl>, local: Local) -> (r: bool)
    ensures
        r == decls@.contains(LiveDecl::Active(local)),
{
    let mut i: usize = 0;
    while i < decls.len()
        invariant
            0 <= i <= decls.len(),
            forall|j: int| 0 <= j < i ==> decls@[j] != LiveDecl::Active(local),
        decreases decls.len() - i,
    {
        if decls[i] == LiveDecl::Active(local) {
            return true;
        }
        i += 1;
    }
    false
}

/// Appends the teardown that the closing of `scope` owes.
fn push_drops(statements: &mut Vec<Statement>, scope: &Scope)
    ensures
        final(statements)@ == emit_drops(old(statements)@, scope@, scope.drops@.len() as int),
{
    let mut n: usize = scope.drops.len();
    while n > 0
        invariant
            0 <= n <= scope.drops.len(),
            emit_drops(statements@, scope@, n as int) == emit_drops(
                old(statements)@,
                scope@,
                scope.drops@.len() as int,
            ),
        decreases n,
    {
        let drop = scope.drops[n - 1];
        if is_active(&scope.decls, drop.local) {
            statements.push(
                Statement {
                    source_info: SourceInfo { span: drop.span, scope: scope.visibility },
                    kind: StatementKind::Drop { local: drop.local, alias: drop.alias },
                },
            );
        }
        n -= 1;
    }
}

impl Builder {
    /// The records of the `depth` outermost scopes, as they stand now.
    pub fn find_live_decls(&self, depth: usize) -> (r: Vec<DeclScope>)
        requires
            depth <= self@.scopes.len(),
        ensures
            decl_scopes_view(r@) == self@.snapshot(depth as int),
    {
        let mut r: Vec<DeclScope> = Vec::new();
        let mut i: usize = 0;
        while i < depth
            invariant
                0 <= i <= depth <= self.scopes.len(),
                r@.len() == i,
                forall|j: int| 0 <= j < i ==> (#[trigger] r@[j])@ == self@.snapshot(depth as int)[j],
            decreases depth - i,
        {
            let scope = &self.scopes[i];
            r.push(DeclScope { extent: scope.extent, decls: copy_decls(&scope.decls) });
            i += 1;
        }
        assert(decl_scopes_view(r@) =~= self@.snapshot(depth as int));
        r
    }

    /// Opens a scope for `extent`.
    pub fn push_scope(&mut self, extent: CodeExtent, span: NodeId)
        ensures
            final(self)@ == old(self)@.push_scope(extent, span),
            old(self)@.graph_wf() && (old(self)@.scopes.len() > 0 || old(self)@.visibility_scopes.len() == 0) ==> final(self)@.graph_wf(),
    {
        proof {
            if self@.graph_wf() && (self@.scopes.len() > 0 || self@.visibility_scopes.len() == 0) {
                self@.lemma_push_scope(extent, span);
            }
        }
        let n = self.scopes.len();
        let parent_scope = if n > 0 {
            Some(self.scopes[n - 1].visibility)
        } else {
            None
        };
        let visibility = self.visibility_scopes.len();
        self.visibility_scopes.push(VisibilityScopeData { span, parent_scope });
        self.scopes.push(Scope { extent, visibility, decls: Vec::new(), drops: Vec::new() });
        assert(self@.scopes =~= old(self)@.push_scope(extent, span).scopes);
    }

    /// Closes the innermost scope, which must be the one opened for
    /// `extent`, and tears down at the end of `block` what it owes.
    pub fn pop_scope(&mut self, extent: CodeExtent, block: BasicBlock)
        requires
            old(self)@.scopes.len() > 0,
            old(self)@.scopes.last().extent == extent,
            block < old(self)@.blocks.len(),
        ensures
            final(self)@ == old(self)@.pop_scope(block),
            old(self)@.graph_wf() ==> final(self)@.graph_wf(),
    {
        proof {
            if self@.graph_wf() {
                self@.lemma_pop_scope(block);
            }
        }
        let scope = self.scopes.pop().unwrap();
        let data = self.cfg.block_data_mut(block);
        push_drops(&mut data.statements, &scope);
        assert(self@.scopes =~= old(self)@.scopes.drop_last());
        assert(self@.blocks =~= old(self)@.pop_scope(block).blocks);
    }

    /// Tears down at the end of `block` what the scopes from `depth` on
    /// owe, innermost first. The scopes stay open.
    #[verifier::loop_isolation(false)]
    pub fn exit_scopes(&mut self, depth: usize, block: BasicBlock)
        requires
            depth <= old(self)@.scopes.len(),
            block < old(self)@.blocks.len(),
        ensures
            final(self)@ == old(self)@.exit_scopes(depth as int, block),
            old(self)@.graph_wf() ==> final(self)@.graph_wf(),
    {
        proof {
            if self@.graph_wf() {
                self@.lemma_exit_scopes(depth as int, block);
            }
        }
        let data = self.cfg.block_data_mut(block);
        let mut n: usize = self.scopes.len();
        while n > depth
            invariant
                depth <= n <= self.scopes.len(),
                data.span == old(self).cfg.basic_blocks@[block as int].span,
                data.name == old(self).cfg.basic_blocks@[block as int].name,
                data.decls == old(self).cfg.basic_blocks@[block as int].decls,
                data.terminator == old(self).cfg.basic_blocks@[block as int].terminator,
                emit_exit(data.statements@, scopes_view(self.scopes@), n as int, depth as int)
                    == emit_exit(
                    old(self)@.blocks[block as int].statements,
                    scopes_view(self.scopes@),
                    self.scopes@.len() as int,
                    depth as int,
                ),
            decreases n,
        {
            push_drops(&mut data.statements, &self.scopes[n - 1]);
            n -= 1;
        }
        assert(self@.blocks =~= old(self)@.exit_scopes(depth as int, block).blocks);
    }

    /// The innermost declaration named `name` that is active or reserved.
    #[verifier::loop_isolation(false)]
    pub fn find_decl(&self, name: &String) -> (r: Option<Local>)
        ensures
            r == self@.find_decl(name@),
    {
        let mut n: usize = self.scopes.len();
        while n > 0
            invariant
                0 <= n <= self.scopes.len(),
                self@.find_decl(name@) == find_in_scopes(
                    self@.scopes,
                    self@.local_decls,
                    name@,
                    n as int,
                ),
            decreases n,
        {
            let scope = &self.scopes[n - 1];
            let mut m: usize = scope.decls.len();
            while m > 0
                invariant
                    0 <= m <= scope.decls.len(),
                    scope == self.scopes@[n - 1],
                    0 < n <= self.scopes.len(),
                    find_in_decls(
                        scope.decls@,
                        self@.local_decls,
                        name@,
                        scope.decls@.len() as int,
                    ) == find_in_decls(scope.decls@, self@.local_decls, name@, m as int),
                decreases m,
            {
                let decl = scope.decls[m - 1];
                let is_moved = match decl {
                    LiveDecl::Moved(_) => true,
                    _ => false,
                };
                let local = decl.local();
                if !is_moved && local < self.local_decls.len() {
                    if self.local_decls[local].ident == *name {
                        return Some(local);
                    }
                }
                m -= 1;
            }
            n -= 1;
        }
        None
    }

    /// Adds a local to the table and records it in the innermost scope.
    fn declare(
        &mut self,
        span: NodeId,
        mutability: Mutability,
        name: String,
        ty: Option<NodeId>,
        forward: bool,
    ) -> (local: Local)
        requires
            old(self)@.scopes.len() > 0,
        ensures
            local == old(self)@.next_local(),
            final(self)@ == old(self)@.declare(
                LocalDeclModel {
                    ident: name@,
                    mutability,
                    ty,
                    source_info: old(self)@.source_info(span),
                    shadowed_decl: old(self)@.find_decl(name@),
                },
                if forward {
                    LiveDecl::Forward(local)
                } else {
                    LiveDecl::Active(local)
                },
            ),
            local == old(self)@.local_decls.len(),
            old(self)@.graph_wf() ==> final(self)@.graph_wf(),
    {
        let shadowed_decl = self.find_decl(&name);
        let source_info = SourceInfo { span, scope: self.visibility() };
        let local = self.local_decls.len();
        proof {
            lemma_find_in_scopes_valid(
                self@.scopes,
                self@.local_decls,
                name@,
                self@.scopes.len() as int,
            );
            if self@.graph_wf() {
                let l = local;
                self@.lemma_declare(
                    LocalDeclModel {
                        ident: name@,
                        mutability,
                        ty,
                        source_info: self@.source_info(span),
                        shadowed_decl: self@.find_decl(name@),
                    },
                    if forward {
                        LiveDecl::Forward(l)
                    } else {
                        LiveDecl::Active(l)
                    },
                );
            }
        }
        self.local_decls.push(LocalDecl { ident: name, mutability, ty, source_info, shadowed_decl });
        let status = if forward {
            LiveDecl::Forward(local)
        } else {
            LiveDecl::Active(local)
        };
        let top = self.scopes.len() - 1;
        self.scopes[top].decls.push(status);
        proof {
            let decl = LocalDeclModel {
                ident: name@,
                mutability,
                ty,
                source_info: old(self)@.source_info(span),
                shadowed_decl: old(self)@.find_decl(name@),
            };
            assert(self@.local_decls =~= old(self)@.local_decls.push(decl));
            assert(self@.scopes =~= old(self)@.declare(decl, status).scopes);
        }
        local
    }

    /// Registers a local that holds a value in the innermost scope. It
    /// shadows the innermost declaration of the same name, if there is one.
    pub fn declare_binding(
        &mut self,
        span: NodeId,
        mutability: Mutability,
        name: String,
        ty: Option<NodeId>,
    ) -> (local: Local)
        requires
            old(self)@.scopes.len() > 0,
        ensures
            local == old(self)@.next_local(),
            final(self)@ == old(self)@.declare(
                LocalDeclModel {
                    ident: name@,
                    mutability,
                    ty,
                    source_info: old(self)@.source_info(span),
                    shadowed_decl: old(self)@.find_decl(name@),
                },
                LiveDecl::Active(local),
            ),
            local == old(self)@.local_decls.len(),
            old(self)@.graph_wf() ==> final(self)@.graph_wf(),
    {
        self.declare(span, mutability, name, ty, false)
    }

    /// Reserves a slot in the innermost scope for a local whose initializer
    /// has not run yet.
    pub fn reserve_binding(
        &mut self,
        span: NodeId,
        mutability: Mutability,
        name: String,
        ty: Option<NodeId>,
    ) -> (local: Local)
        requires
            old(self)@.scopes.len() > 0,
        ensures
            local == old(self)@.next_local(),
            final(self)@ == old(self)@.declare(
                LocalDeclModel {
                    ident: name@,
                    mutability,
                    ty,
                    source_info: old(self)@.source_info(span),
                    shadowed_decl: old(self)@.find_decl(name@),
                },
                LiveDecl::Forward(local),
            ),
            local == old(self)@.local_decls.len(),
            old(self)@.graph_wf() ==> final(self)@.graph_wf(),
    {
        self.declare(span, mutability, name, ty, true)
    }

    /// Declares the names that a pattern binds in the innermost scope,
    /// which owes their teardown from then on.
    pub fn declare_pattern(&mut self, extent: CodeExtent, pat: &Pat)
        requires
            old(self)@.wf(),
            old(self)@.in_extent(extent),
        ensures
            final(self)@ == old(self)@.declare_pattern(extent, pat, 0),
            old(self)@.declares(final(self)@),
    {
        let mut j: usize = 0;
        while j < pat.bindings.len()
            invariant
                0 <= j <= pat.bindings.len(),
                self@.in_extent(extent),
                old(self)@.declares(self@),
                old(self)@.declare_pattern(extent, pat, 0) == self@.declare_pattern(
                    extent,
                    pat,
                    j as int,
                ),
            decreases pat.bindings.len() - j,
        {
            let binding = &pat.bindings[j];
            let local = self.declare_binding(
                pat.id,
                binding.mutability,
                binding.ident.clone(),
                None,
            );
            self.schedule_drop(pat.id, extent, local, None);
            j += 1;
        }
    }

    /// Turns every record `from` in an open scope into `to`.
    fn replace_decl(&mut self, from: LiveDecl, to: LiveDecl)
        ensures
            final(self)@ == old(self)@.replace_decl(from, to),
            old(self)@.graph_wf() && to.spec_local() == from.spec_local() ==> final(self)@.graph_wf(),
    {
        proof {
            if self@.graph_wf() && to.spec_local() == from.spec_local() {
                self@.lemma_replace_decl(from, to);
            }
        }
        let mut i: usize = 0;
        while i < self.scopes.len()
            invariant
                0 <= i <= self.scopes.len(),
                self.scopes@.len() == old(self).scopes@.len(),
                self.cfg == old(self).cfg,
                self.state_machine_kind == old(self).state_machine_kind,
                self.fn_span == old(self).fn_span,
                self.loop_scopes == old(self).loop_scopes,
                self.extents == old(self).extents,
                self.local_decls == old(self).local_decls,
                self.visibility_scopes == old(self).visibility_scopes,
                self.cached_return_block == old(self).cached_return_block,
                forall|j: int|
                    0 <= j < i ==> (#[trigger] self.scopes@[j])@ == old(self)@.replace_decl(
                        from,
                        to,
                    ).scopes[j],
                forall|j: int| i <= j < self.scopes@.len() ==> self.scopes@[j] == old(self).scopes@[j],
            decreases self.scopes.len() - i,
        {
            replace_in(&mut self.scopes[i].decls, from, to);
            i += 1;
        }
        assert(self@.scopes =~= old(self)@.replace_decl(from, to).scopes);
    }

    /// The value of the local has been moved out: no open scope captures
    /// it or tears it down from here on.
    pub fn schedule_move(&mut self, local: Local)
        ensures
            final(self)@ == old(self)@.schedule_move(local),
            old(self)@.graph_wf() ==> final(self)@.graph_wf(),
    {
        self.replace_decl(LiveDecl::Active(local), LiveDecl::Moved(local));
    }

    /// The reserved local has received its value.
    pub fn initialize(&mut self, local: Local)
        ensures
            final(self)@ == old(self)@.initialize(local),
            old(self)@.graph_wf() ==> final(self)@.graph_wf(),
    {
        self.replace_decl(LiveDecl::Forward(local), LiveDecl::Active(local));
    }

    /// Records that the closing of the innermost scope opened for `extent`
    /// tears `local` down. With an alias, the shadowed local is bound to
    /// its own name again after that.
    pub fn schedule_drop(&mut self, span: NodeId, extent: CodeExtent, local: Local, alias: Option<Alias>)
        requires
            find_extent(old(self)@.scopes, extent, old(self)@.scopes.len() as int) is Some,
        ensures
            final(self)@ == old(self)@.schedule_drop(extent, DropData { span, local, alias }),
            old(self)@.graph_wf() ==> final(self)@.graph_wf(),
    {
        proof {
            if self@.graph_wf() {
                self@.lemma_schedule_drop(extent, DropData { span, local, alias });
            }
        }
        let mut n: usize = self.scopes.len();
        while n > 0
            invariant
                0 <= n <= self.scopes.len(),
                *self == *old(self),
                find_extent(self@.scopes, extent, self@.scopes.len() as int) == find_extent(
                    self@.scopes,
                    extent,
                    n as int,
                ),
            decreases n,
        {
            if self.scopes[n - 1].extent == extent {
                self.scopes[n - 1].drops.push(DropData { span, local, alias });
                assert(self@.scopes =~= old(self)@.schedule_drop(
                    extent,
                    DropData { span, local, alias },
                ).scopes);
                return ;
            }
            n -= 1;
        }
    }

    pub fn push_loop_scope(&mut self, loop_scope: LoopScope)
        ensures
            final(self)@ == old(self)@.push_loop_scope(loop_scope),
    {
        self.loop_scopes.push(loop_scope);
    }

    pub fn pop_loop_scope(&mut self)
        requires
            old(self)@.loop_scopes.len() > 0,
        ensures
            final(self)@ == old(self)@.pop_loop_scope(),
    {
        self.loop_scopes.pop();
    }
}

} // verus!
