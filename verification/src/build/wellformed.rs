//! The steps of a pass keep the graph well-formed.

use vstd::prelude::*;
use crate::ast::NodeId;
use crate::build::model::{
    emit_drops, emit_exit, find_extent, find_in_decls, find_in_scopes, replace_decl, BuilderModel,
    DropData, ScopeModel,
};
use crate::repr::{
    decls_valid, lemma_blocks_wf_grow, statements_valid, BasicBlock, BlockName, CodeExtent,
    LiveDecl, LocalDeclModel, Statement, TerminatorModel, RETURN_POINTER,
};

verus! {

/// Teardown adds statements of the closing scope only.
pub proof fn lemma_emit_drops_valid(statements: Seq<Statement>, scope: ScopeModel, n: int, scopes: nat)
    requires
        statements_valid(statements, scopes),
        scope.visibility < scopes,
    ensures
        statements_valid(emit_drops(statements, scope, n), scopes),
    decreases n,
{
    if 0 < n <= scope.drops.len() {
        let drop = scope.drops[n - 1];
        if scope.decls.contains(LiveDecl::Active(drop.local)) {
            lemma_emit_drops_valid(
                statements.push(crate::build::model::drop_statement(drop, scope.visibility)),
                scope,
                n - 1,
                scopes,
            );
        } else {
            lemma_emit_drops_valid(statements, scope, n - 1, scopes);
        }
    }
}

/// Leaving scopes adds statements of those scopes only.
pub proof fn lemma_emit_exit_valid(
    statements: Seq<Statement>,
    open: Seq<ScopeModel>,
    n: int,
    depth: int,
    scopes: nat,
)
    requires
        statements_valid(statements, scopes),
        forall|i: int| 0 <= i < open.len() ==> (#[trigger] open[i]).visibility < scopes,
    ensures
        statements_valid(emit_exit(statements, open, n, depth), scopes),
    decreases n,
{
    if 0 <= depth < n <= open.len() {
        lemma_emit_drops_valid(statements, open[n - 1], open[n - 1].drops.len() as int, scopes);
        lemma_emit_exit_valid(
            emit_drops(statements, open[n - 1], open[n - 1].drops.len() as int),
            open,
            n - 1,
            depth,
            scopes,
        );
    }
}

/// A declaration that is found is one of the table.
pub proof fn lemma_find_in_decls_valid(
    decls: Seq<LiveDecl>,
    local_decls: Seq<LocalDeclModel>,
    name: Seq<char>,
    n: int,
)
    ensures
        match find_in_decls(decls, local_decls, name, n) {
            Some(local) => local < local_decls.len(),
            None => true,
        },
    decreases n,
{
    if 0 < n <= decls.len() {
        lemma_find_in_decls_valid(decls, local_decls, name, n - 1);
    }
}

/// A declaration that is found is one of the table.
pub proof fn lemma_find_in_scopes_valid(
    scopes: Seq<ScopeModel>,
    local_decls: Seq<LocalDeclModel>,
    name: Seq<char>,
    n: int,
)
    ensures
        match find_in_scopes(scopes, local_decls, name, n) {
            Some(local) => local < local_decls.len(),
            None => true,
        },
    decreases n,
{
    if 0 < n <= scopes.len() {
        lemma_find_in_decls_valid(
            scopes[n - 1].decls,
            local_decls,
            name,
            scopes[n - 1].decls.len() as int,
        );
        lemma_find_in_scopes_valid(scopes, local_decls, name, n - 1);
    }
}

/// A scope that is found is one of the first `n`, and was opened for
/// `extent`.
pub proof fn lemma_find_extent_valid(scopes: Seq<ScopeModel>, extent: CodeExtent, n: int)
    ensures
        match find_extent(scopes, extent, n) {
            Some(i) => 0 <= i < n && i < scopes.len() && scopes[i].extent == extent,
            None => true,
        },
    decreases n,
{
    if 0 < n <= scopes.len() {
        lemma_find_extent_valid(scopes, extent, n - 1);
    }
}

impl BuilderModel {
    pub proof fn lemma_start_block(self, span: NodeId, name: Option<BlockName>, depth: int)
        requires
            self.graph_wf(),
            0 <= depth <= self.scopes.len(),
        ensures
            self.start_block(span, name, depth).graph_wf(),
    {
        let post = self.start_block(span, name, depth);
        lemma_blocks_wf_grow(
            self.blocks,
            self.local_decls.len(),
            self.visibility_scopes.len(),
            post.blocks.len(),
            self.local_decls.len(),
            self.visibility_scopes.len(),
        );
        assert forall|b: int| 0 <= b < post.blocks.len() implies (#[trigger] post.blocks[b]).wf(
            post.blocks.len(),
            post.local_decls.len(),
            post.visibility_scopes.len(),
        ) by {
            if b == self.blocks.len() {
                assert forall|s: int| 0 <= s < post.blocks[b].decls.len() implies decls_valid(
                    (#[trigger] post.blocks[b].decls[s]).decls,
                    post.local_decls.len(),
                ) by {
                    assert(post.blocks[b].decls[s].decls == self.scopes[s].decls);
                }
            } else {
                assert(post.blocks[b] == self.blocks[b]);
            }
        }
    }

    pub proof fn lemma_set_statements(self, block: BasicBlock, statements: Seq<Statement>)
        requires
            self.graph_wf(),
            block < self.blocks.len(),
            statements_valid(statements, self.visibility_scopes.len()),
        ensures
            self.set_statements(block, statements).graph_wf(),
    {
        let post = self.set_statements(block, statements);
        assert forall|b: int| 0 <= b < post.blocks.len() implies (#[trigger] post.blocks[b]).wf(
            post.blocks.len(),
            post.local_decls.len(),
            post.visibility_scopes.len(),
        ) by {
            assert(self.blocks[b].wf(
                self.blocks.len(),
                self.local_decls.len(),
                self.visibility_scopes.len(),
            ));
        }
    }

    pub proof fn lemma_push_statement(self, block: BasicBlock, statement: Statement)
        requires
            self.graph_wf(),
            block < self.blocks.len(),
            statement.source_info.scope < self.visibility_scopes.len(),
        ensures
            self.push_statement(block, statement).graph_wf(),
    {
        assert(self.blocks[block as int].wf(
            self.blocks.len(),
            self.local_decls.len(),
            self.visibility_scopes.len(),
        ));
        self.lemma_set_statements(block, self.blocks[block as int].statements.push(statement));
    }

    pub proof fn lemma_set_terminator(self, block: BasicBlock, terminator: TerminatorModel)
        requires
            self.graph_wf(),
            block < self.blocks.len(),
            terminator.wf(self.blocks.len(), self.visibility_scopes.len()),
        ensures
            self.set_terminator(block, terminator).graph_wf(),
    {
        let post = self.set_terminator(block, terminator);
        assert forall|b: int| 0 <= b < post.blocks.len() implies (#[trigger] post.blocks[b]).wf(
            post.blocks.len(),
            post.local_decls.len(),
            post.visibility_scopes.len(),
        ) by {
            assert(self.blocks[b].wf(
                self.blocks.len(),
                self.local_decls.len(),
                self.visibility_scopes.len(),
            ));
        }
    }

    pub proof fn lemma_push_scope(self, extent: CodeExtent, span: NodeId)
        requires
            self.graph_wf(),
            self.scopes.len() > 0 || self.visibility_scopes.len() == 0,
        ensures
            self.push_scope(extent, span).graph_wf(),
    {
        let post = self.push_scope(extent, span);
        lemma_blocks_wf_grow(
            self.blocks,
            self.local_decls.len(),
            self.visibility_scopes.len(),
            post.blocks.len(),
            post.local_decls.len(),
            post.visibility_scopes.len(),
        );
        assert forall|i: int| 0 <= i < post.scopes.len() implies decls_valid(
            (#[trigger] post.scopes[i]).decls,
            post.local_decls.len(),
        ) && post.scopes[i].visibility < post.visibility_scopes.len() by {
            if i < self.scopes.len() {
                assert(post.scopes[i] == self.scopes[i]);
            }
        }
        assert forall|v: int| 0 <= v < post.visibility_scopes.len() implies match (
        #[trigger] post.visibility_scopes[v]).parent_scope {
            Some(parent) => parent < v,
            None => v == 0,
        } by {
            if v < self.visibility_scopes.len() {
                assert(post.visibility_scopes[v] == self.visibility_scopes[v]);
            }
        }
    }

    pub proof fn lemma_pop_scope(self, block: BasicBlock)
        requires
            self.graph_wf(),
            self.scopes.len() > 0,
            block < self.blocks.len(),
        ensures
            self.pop_scope(block).graph_wf(),
    {
        let scope = self.scopes.last();
        assert(self.blocks[block as int].wf(
            self.blocks.len(),
            self.local_decls.len(),
            self.visibility_scopes.len(),
        ));
        lemma_emit_drops_valid(
            self.blocks[block as int].statements,
            scope,
            scope.drops.len() as int,
            self.visibility_scopes.len(),
        );
        let statements = emit_drops(
            self.blocks[block as int].statements,
            scope,
            scope.drops.len() as int,
        );
        self.lemma_set_statements(block, statements);
        let mid = self.set_statements(block, statements);
        let post = self.pop_scope(block);
        assert forall|i: int| 0 <= i < post.scopes.len() implies decls_valid(
            (#[trigger] post.scopes[i]).decls,
            post.local_decls.len(),
        ) && post.scopes[i].visibility < post.visibility_scopes.len() by {
            assert(post.scopes[i] == mid.scopes[i]);
        }
    }

    pub proof fn lemma_exit_scopes(self, depth: int, block: BasicBlock)
        requires
            self.graph_wf(),
            block < self.blocks.len(),
        ensures
            self.exit_scopes(depth, block).graph_wf(),
    {
        assert(self.blocks[block as int].wf(
            self.blocks.len(),
            self.local_decls.len(),
            self.visibility_scopes.len(),
        ));
        lemma_emit_exit_valid(
            self.blocks[block as int].statements,
            self.scopes,
            self.scopes.len() as int,
            depth,
            self.visibility_scopes.len(),
        );
        self.lemma_set_statements(
            block,
            emit_exit(
                self.blocks[block as int].statements,
                self.scopes,
                self.scopes.len() as int,
                depth,
            ),
        );
    }

    pub proof fn lemma_declare(self, decl: LocalDeclModel, status: LiveDecl)
        requires
            self.graph_wf(),
            self.scopes.len() > 0,
            status.spec_local() == self.local_decls.len(),
            match decl.shadowed_decl {
                Some(outer) => outer < self.local_decls.len(),
                None => true,
            },
        ensures
            self.declare(decl, status).graph_wf(),
    {
        let post = self.declare(decl, status);
        lemma_blocks_wf_grow(
            self.blocks,
            self.local_decls.len(),
            self.visibility_scopes.len(),
            post.blocks.len(),
            post.local_decls.len(),
            post.visibility_scopes.len(),
        );
        assert forall|i: int| 0 <= i < post.scopes.len() implies decls_valid(
            (#[trigger] post.scopes[i]).decls,
            post.local_decls.len(),
        ) && post.scopes[i].visibility < post.visibility_scopes.len() by {
            assert(decls_valid(self.scopes[i].decls, self.local_decls.len()));
        }
        assert forall|l: int| 0 <= l < post.local_decls.len() implies match (
        #[trigger] post.local_decls[l]).shadowed_decl {
            Some(outer) => outer < l,
            None => true,
        } by {
            if l < self.local_decls.len() {
                assert(post.local_decls[l] == self.local_decls[l]);
            }
        }
    }

    pub proof fn lemma_replace_decl(self, from: LiveDecl, to: LiveDecl)
        requires
            self.graph_wf(),
            to.spec_local() == from.spec_local(),
        ensures
            self.replace_decl(from, to).graph_wf(),
    {
        let post = self.replace_decl(from, to);
        assert forall|i: int| 0 <= i < post.scopes.len() implies decls_valid(
            (#[trigger] post.scopes[i]).decls,
            post.local_decls.len(),
        ) && post.scopes[i].visibility < post.visibility_scopes.len() by {
            assert(decls_valid(self.scopes[i].decls, self.local_decls.len()));
            assert forall|d: int| 0 <= d < post.scopes[i].decls.len() implies (
            #[trigger] post.scopes[i].decls[d]).spec_local() < post.local_decls.len() by {
                assert(self.scopes[i].decls[d].spec_local() < self.local_decls.len());
            }
        }
    }

    pub proof fn lemma_schedule_drop(self, extent: CodeExtent, drop: DropData)
        requires
            self.graph_wf(),
        ensures
            self.schedule_drop(extent, drop).graph_wf(),
    {
        let post = self.schedule_drop(extent, drop);
        lemma_find_extent_valid(self.scopes, extent, self.scopes.len() as int);
        assert forall|i: int| 0 <= i < post.scopes.len() implies decls_valid(
            (#[trigger] post.scopes[i]).decls,
            post.local_decls.len(),
        ) && post.scopes[i].visibility < post.visibility_scopes.len() by {
            assert(decls_valid(self.scopes[i].decls, self.local_decls.len()));
        }
    }

    pub proof fn lemma_with_return_block(self)
        requires
            self.graph_wf(),
            self.scopes.len() >= 1,
        ensures
            self.with_return_block().graph_wf(),
    {
        if self.cached_return_block is None {
            self.lemma_replace_decl(
                LiveDecl::Forward(RETURN_POINTER),
                LiveDecl::Active(RETURN_POINTER),
            );
            self.initialize(RETURN_POINTER).lemma_start_block(
                self.fn_span,
                Some(BlockName::End),
                1,
            );
        }
    }
}

} // verus!
