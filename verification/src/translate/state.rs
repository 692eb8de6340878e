//! The states of the machine: what each captures, and how it is named,
//! built and taken apart.

use vstd::prelude::*;
use std::collections::HashSet;
use vstd::string::StringExecFns;
use crate::ast::Mutability;
use crate::repr::{BasicBlock, LiveDecl, Local, LocalDeclModel, MarModel};
use crate::translate::names::{
    shadowed_ident_of, shadowed_name, state_id_of, state_name, STATE_TYPE,
};
use crate::translate::block::{handler_view, HandlerStmt};
use crate::translate::Builder;

verus! {

/// One value that a state captures: a local under its own name, or a
/// shadowed local under the name under which its value survives.
#[derive(Clone, Copy, Debug, PartialEq, Eq, Structural)]
pub struct Field {
    pub local: Local,
    pub shadowed: bool,
}

/// A captured value as a pattern binds it.
#[derive(Clone, Copy, Debug, PartialEq, Eq, Structural)]
pub struct PatField {
    pub field: Field,
    pub mutability: Mutability,
}

/// The expression that builds the state of a block from the values that
/// are in scope under the names of what the state captures.
#[derive(Debug)]
pub struct StateExpr {
    pub block: BasicBlock,
    pub scopes: Vec<Vec<Field>>,
}

/// What a [`StateExpr`] holds.
pub ghost struct StateExprModel {
    pub block: BasicBlock,
    pub scopes: Seq<Seq<Field>>,
}

impl View for StateExpr {
    type V = StateExprModel;

    open spec fn view(&self) -> StateExprModel {
        StateExprModel { block: self.block, scopes: groups_view(self.scopes@) }
    }
}

/// The variant of the state type for a block: one tuple for each captured
/// scope, in which each captured value has the type parameter of its
/// local.
#[derive(Debug)]
pub struct StateVariant {
    pub block: BasicBlock,
    pub scopes: Vec<Vec<Field>>,
}

/// The pattern that takes the state of a block apart, and binds each
/// captured value under its name with the mutability of its local.
#[derive(Debug)]
pub struct StatePat {
    pub block: BasicBlock,
    pub scopes: Vec<Vec<PatField>>,
}

/// The locals of the captured values, in order.
pub open spec fn group_params(fields: Seq<Field>) -> Seq<Local> {
    Seq::new(fields.len(), |i: int| fields[i].local)
}

/// The locals of the values captured by the first `n` groups, in order.
pub open spec fn params_of(groups: Seq<Seq<Field>>, n: int) -> Seq<Local>
    decreases n,
{
    if 0 < n <= groups.len() {
        params_of(groups, n - 1) + group_params(groups[n - 1])
    } else {
        Seq::empty()
    }
}

/// The captured values as a pattern binds them.
pub open spec fn group_pats(locals: Seq<LocalDeclModel>, fields: Seq<Field>) -> Seq<PatField> {
    Seq::new(
        fields.len(),
        |i: int| PatField { field: fields[i], mutability: locals[fields[i].local as int].mutability },
    )
}

/// The state type: its type parameters, and one variant for each block
/// that control can reach.
/// Beside these it has the variant of the state that must not be driven,
/// which is its default.
#[derive(Debug)]
pub struct StateEnum {
    pub ty_params: Vec<Local>,
    pub variants: Vec<StateVariant>,
}

/// The arm of the machine for one block: the pattern that takes the state
/// apart, and the handler.
#[derive(Debug)]
pub struct Arm {
    pub pat: StatePat,
    pub body: Vec<HandlerStmt>,
}

/// `acc`, followed by those of the locals of `s` from position `from` on
/// that occur neither in `acc` nor earlier in `s`.
pub open spec fn dedup_into(acc: Seq<Local>, s: Seq<Local>, from: int) -> Seq<Local>
    decreases s.len() - from,
{
    if 0 <= from < s.len() {
        dedup_into(
            if acc.contains(s[from]) {
                acc
            } else {
                acc.push(s[from])
            },
            s,
            from + 1,
        )
    } else {
        acc
    }
}

/// The locals that `local` shadows, innermost first.
pub open spec fn shadow_chain(locals: Seq<LocalDeclModel>, local: Local) -> Seq<Field>
    decreases local,
{
    if local < locals.len() {
        match locals[local as int].shadowed_decl {
            Some(outer) => if outer < local {
                seq![Field { local: outer, shadowed: true }] + shadow_chain(locals, outer)
            } else {
                Seq::empty()
            },
            None => Seq::empty(),
        }
    } else {
        Seq::empty()
    }
}

/// What a state captures on account of one record: an active local and
/// the locals it shadows; of a moved local only those it shadows; of a
/// reserved slot nothing.
pub open spec fn decl_fields(locals: Seq<LocalDeclModel>, decl: LiveDecl) -> Seq<Field> {
    match decl {
        LiveDecl::Active(local) => seq![Field { local, shadowed: false }] + shadow_chain(
            locals,
            local,
        ),
        LiveDecl::Moved(local) => shadow_chain(locals, local),
        LiveDecl::Forward(_) => Seq::empty(),
    }
}

/// What a state captures on account of the first `n` records of a scope,
/// in declaration order.
pub open spec fn scope_fields(locals: Seq<LocalDeclModel>, decls: Seq<LiveDecl>, n: int) -> Seq<Field>
    decreases n,
{
    if 0 < n <= decls.len() {
        scope_fields(locals, decls, n - 1) + decl_fields(locals, decls[n - 1])
    } else {
        Seq::empty()
    }
}

impl MarModel {
    /// What the state of `block` captures: one group for each scope that
    /// is open at the entry of the block, outermost first.
    pub open spec fn incoming(self, block: BasicBlock) -> Seq<Seq<Field>> {
        Seq::new(
            self.blocks[block as int].decls.len(),
            |s: int|
                scope_fields(
                    self.local_decls,
                    self.blocks[block as int].decls[s].decls,
                    self.blocks[block as int].decls[s].decls.len() as int,
                ),
        )
    }

    /// The state of `block`, built from what is in scope.
    pub open spec fn state_expr(self, block: BasicBlock) -> StateExprModel {
        StateExprModel { block, scopes: self.incoming(block) }
    }

    /// What the pattern of the state of `block` binds.
    pub open spec fn state_pat(self, block: BasicBlock) -> Seq<Seq<PatField>> {
        Seq::new(
            self.incoming(block).len(),
            |s: int| group_pats(self.local_decls, self.incoming(block)[s]),
        )
    }

    /// The type parameters that the variant of `block` uses, one for each
    /// captured value, in order.
    pub open spec fn variant_params(self, block: BasicBlock) -> Seq<Local> {
        params_of(self.incoming(block), self.incoming(block).len() as int)
    }

    /// The type parameters that the states of the first `n` blocks of a
    /// list need: one for each local that one of them captures, in the
    /// order of first use.
    pub open spec fn params_over(self, list: Seq<BasicBlock>, n: int) -> Seq<Local>
        decreases n,
    {
        if 0 < n <= list.len() {
            dedup_into(self.params_over(list, n - 1), self.variant_params(list[n - 1]), 0)
        } else {
            Seq::empty()
        }
    }

    /// The state of one of the first `n` blocks of a list captures the
    /// local.
    pub open spec fn captured_over(self, list: Seq<BasicBlock>, local: Local, n: int) -> bool {
        exists|i: int|
            0 <= i < n && i < list.len() && (#[trigger] self.variant_params(list[i])).contains(
                local,
            )
    }

    /// The name of a captured value.
    pub open spec fn field_name(self, field: Field) -> Seq<char> {
        if field.shadowed {
            shadowed_name(self.local_decls[field.local as int].ident, field.local as nat)
        } else {
            self.local_decls[field.local as int].ident
        }
    }

    /// Every captured value is a local of the table.
    pub open spec fn fields_valid(self, fields: Seq<Seq<Field>>) -> bool {
        forall|s: int| 0 <= s < fields.len() ==> fields_in(#[trigger] fields[s], self.local_decls.len())
    }
}

/// What a list of groups holds.
pub open spec fn groups_view<T>(groups: Seq<Vec<T>>) -> Seq<Seq<T>> {
    Seq::new(groups.len(), |i: int| groups[i]@)
}

/// Removing repetitions keeps each local once: no local occurs twice in
/// the outcome, and a local occurs in it exactly where it occurs in `acc`
/// or in `s` from position `from` on.
pub proof fn lemma_dedup_into(acc: Seq<Local>, s: Seq<Local>, from: int)
    requires
        acc.no_duplicates(),
        0 <= from <= s.len(),
    ensures
        dedup_into(acc, s, from).no_duplicates(),
        forall|x: Local|
            dedup_into(acc, s, from).contains(x) <==> (acc.contains(x) || s.subrange(
                from,
                s.len() as int,
            ).contains(x)),
    decreases s.len() - from,
{
    let rest = s.subrange(from, s.len() as int);
    if from < s.len() {
        let next = if acc.contains(s[from]) {
            acc
        } else {
            acc.push(s[from])
        };
        assert(next.no_duplicates()) by {
            if !acc.contains(s[from]) {
                assert forall|i: int, j: int|
                    0 <= i < next.len() && 0 <= j < next.len() && i != j implies next[i]
                    != next[j] by {
                    if i < acc.len() && j < acc.len() {
                    } else if i < acc.len() {
                        assert(acc[i] == next[i]);
                    } else {
                        assert(acc[j] == next[j]);
                    }
                }
            }
        }
        lemma_dedup_into(next, s, from + 1);
        let tail = s.subrange(from + 1, s.len() as int);
        assert(dedup_into(acc, s, from) == dedup_into(next, s, from + 1));
        assert forall|x: Local|
            dedup_into(acc, s, from).contains(x) <==> (acc.contains(x) || rest.contains(x)) by {
            assert(dedup_into(next, s, from + 1).contains(x) <==> (next.contains(x)
                || tail.contains(x)));
            assert(rest.contains(x) <==> (x == s[from] || tail.contains(x))) by {
                assert(rest[0] == s[from]);
                if tail.contains(x) {
                    let i = choose|i: int| 0 <= i < tail.len() && tail[i] == x;
                    assert(rest[i + 1] == x);
                }
                if rest.contains(x) {
                    let i = choose|i: int| 0 <= i < rest.len() && rest[i] == x;
                    if i > 0 {
                        assert(tail[i - 1] == x);
                    }
                }
            }
            assert(next.contains(x) <==> (acc.contains(x) || x == s[from])) by {
                if next.contains(x) && !acc.contains(x) {
                    let i = choose|i: int| 0 <= i < next.len() && next[i] == x;
                    if i < acc.len() {
                        assert(acc[i] == x);
                    }
                }
                if acc.contains(x) {
                    let i = choose|i: int| 0 <= i < acc.len() && acc[i] == x;
                    assert(next[i] == x);
                }
                if x == s[from] && !acc.contains(x) {
                    assert(next[acc.len() as int] == x);
                }
            }
        }
    } else {
        assert(rest =~= Seq::<Local>::empty());
    }
}

impl MarModel {
    /// A state type has one type parameter for each local that the state
    /// of a listed block captures, and no other: no parameter occurs twice,
    /// and a local has a parameter exactly where the state of a listed
    /// block captures it.
    pub proof fn lemma_params_over(self, list: Seq<BasicBlock>, n: int)
        requires
            0 <= n <= list.len(),
        ensures
            self.params_over(list, n).no_duplicates(),
            forall|x: Local| self.params_over(list, n).contains(x) <==> self.captured_over(list, x, n),
        decreases n,
    {
        if n > 0 {
            self.lemma_params_over(list, n - 1);
            let params = self.variant_params(list[n - 1]);
            lemma_dedup_into(self.params_over(list, n - 1), params, 0);
            assert(params.subrange(0, params.len() as int) =~= params);
            assert forall|x: Local|
                self.params_over(list, n).contains(x) <==> self.captured_over(list, x, n) by {
                if self.captured_over(list, x, n - 1) {
                    let i = choose|i: int|
                        0 <= i < n - 1 && i < list.len() && (#[trigger] self.variant_params(
                            list[i],
                        )).contains(x);
                    assert(self.captured_over(list, x, n));
                }
                if params.contains(x) {
                    assert(self.variant_params(list[n - 1]).contains(x));
                    assert(self.captured_over(list, x, n));
                }
                if self.captured_over(list, x, n) {
                    let i = choose|i: int|
                        0 <= i < n && i < list.len() && (#[trigger] self.variant_params(
                            list[i],
                        )).contains(x);
                    if i < n - 1 {
                        assert(self.captured_over(list, x, n - 1));
                    }
                }
            }
        }
    }
}

/// The set holds exactly the locals of the list.
pub open spec fn seen_all(seen: Set<Local>, list: Seq<Local>) -> bool {
    forall|x: Local| seen.contains(x) <==> list.contains(x)
}

/// Gives each local of `tp` a type parameter, unless it has one already:
/// `seen` holds the locals that have one.
pub(crate) fn add_ty_params(
    seen: &mut HashSet<Local>,
    ty_param_ids: &mut Vec<Local>,
    tp: &Vec<Local>,
)
    requires
        seen_all(old(seen)@, old(ty_param_ids)@),
    ensures
        seen_all(final(seen)@, final(ty_param_ids)@),
        final(ty_param_ids)@ == dedup_into(old(ty_param_ids)@, tp@, 0),
{
    let mut j: usize = 0;
    while j < tp.len()
        invariant
            0 <= j <= tp.len(),
            seen_all(seen@, ty_param_ids@),
            dedup_into(old(ty_param_ids)@, tp@, 0) == dedup_into(ty_param_ids@, tp@, j as int),
        decreases tp.len() - j,
    {
        let ty_param_id = tp[j];
        if !seen.contains(&ty_param_id) {
            let ghost before = ty_param_ids@;
            seen.insert(ty_param_id);
            ty_param_ids.push(ty_param_id);
            proof {
                assert forall|x: Local| seen@.contains(x) <==> ty_param_ids@.contains(x) by {
                    if before.contains(x) {
                        let i = choose|i: int| 0 <= i < before.len() && before[i] == x;
                        assert(ty_param_ids@[i] == x);
                    }
                    if x == ty_param_id {
                        assert(ty_param_ids@[before.len() as int] == x);
                    }
                    if ty_param_ids@.contains(x) && x != ty_param_id {
                        let i = choose|i: int| 0 <= i < ty_param_ids@.len() && ty_param_ids@[i] == x;
                        assert(before[i] == x);
                    }
                }
            }
        }
        j += 1;
    }
}

/// Every captured value is one of the first `bound` locals.
pub open spec fn fields_in(fields: Seq<Field>, bound: nat) -> bool {
    forall|i: int| 0 <= i < fields.len() ==> (#[trigger] fields[i]).local < bound
}

proof fn lemma_fields_in_concat(a: Seq<Field>, b: Seq<Field>, bound: nat)
    requires
        fields_in(a, bound),
        fields_in(b, bound),
    ensures
        fields_in(a + b, bound),
{
    assert forall|i: int| 0 <= i < (a + b).len() implies (#[trigger] (a + b)[i]).local < bound by {
        if i < a.len() {
            assert((a + b)[i] == a[i]);
        } else {
            assert((a + b)[i] == b[i - a.len()]);
        }
    }
}

/// The locals of a shadow chain are locals of the table.
pub proof fn lemma_shadow_chain_valid(locals: Seq<LocalDeclModel>, local: Local)
    ensures
        fields_in(shadow_chain(locals, local), locals.len()),
    decreases local,
{
    if local < locals.len() {
        match locals[local as int].shadowed_decl {
            Some(outer) => {
                if outer < local {
                    lemma_shadow_chain_valid(locals, outer);
                    lemma_fields_in_concat(
                        seq![Field { local: outer, shadowed: true }],
                        shadow_chain(locals, outer),
                        locals.len(),
                    );
                }
            },
            None => {},
        }
    }
}

/// What a scope of valid records captures are locals of the table.
pub proof fn lemma_scope_fields_valid(locals: Seq<LocalDeclModel>, decls: Seq<LiveDecl>, n: int)
    requires
        crate::repr::decls_valid(decls, locals.len()),
    ensures
        fields_in(scope_fields(locals, decls, n), locals.len()),
    decreases n,
{
    if 0 < n <= decls.len() {
        lemma_scope_fields_valid(locals, decls, n - 1);
        let local = decls[n - 1].spec_local();
        lemma_shadow_chain_valid(locals, local);
        assert(local < locals.len());
        lemma_fields_in_concat(
            seq![Field { local, shadowed: false }],
            shadow_chain(locals, local),
            locals.len(),
        );
        lemma_fields_in_concat(
            scope_fields(locals, decls, n - 1),
            decl_fields(locals, decls[n - 1]),
            locals.len(),
        );
    }
}

impl<'a> Builder<'a> {
    /// The name of the state of `block`.
    pub fn state_id(&self, block: BasicBlock) -> (r: String)
        requires
            block < self.mar@.blocks.len(),
        ensures
            r@ == state_name(block as nat, self.mar@.blocks[block as int].name),
    {
        state_id_of(block, self.mar.basic_blocks[block].name)
    }

    /// The path of the state of `block`: the state type, then the state.
    pub fn state_path(&self, block: BasicBlock) -> (r: Vec<String>)
        requires
            block < self.mar@.blocks.len(),
        ensures
            r@.len() == 2,
            r@[0]@ == "State"@,
            r@[1]@ == state_name(block as nat, self.mar@.blocks[block as int].name),
    {
        let mut r: Vec<String> = Vec::new();
        r.push(String::from_str(STATE_TYPE));
        r.push(self.state_id(block));
        r
    }

    /// The name under which the value of the shadowed local survives.
    pub fn shadowed_ident(&self, local: Local) -> (r: String)
        requires
            local < self.mar@.local_decls.len(),
        ensures
            r@ == shadowed_name(self.mar@.local_decls[local as int].ident, local as nat),
    {
        shadowed_ident_of(&self.mar.local_decls[local].ident, local)
    }

    /// The name of a captured value.
    pub fn field_ident(&self, field: Field) -> (r: String)
        requires
            field.local < self.mar@.local_decls.len(),
        ensures
            r@ == self.mar@.field_name(field),
    {
        if field.shadowed {
            self.shadowed_ident(field.local)
        } else {
            self.mar.local_decls[field.local].ident.clone()
        }
    }

    /// Appends the locals that `local` shadows, innermost first.
    pub fn get_shadowed_decls(&self, decls: &mut Vec<Field>, local: Local)
        ensures
            final(decls)@ == old(decls)@ + shadow_chain(self.mar@.local_decls, local),
        decreases local,
    {
        if local < self.mar.local_decls.len() {
            match self.mar.local_decls[local].shadowed_decl {
                Some(outer) => {
                    if outer < local {
                        decls.push(Field { local: outer, shadowed: true });
                        self.get_shadowed_decls(decls, outer);
                        assert(decls@ =~= old(decls)@ + shadow_chain(self.mar@.local_decls, local));
                        return ;
                    }
                },
                None => {},
            }
        }
        assert(decls@ =~= old(decls)@ + shadow_chain(self.mar@.local_decls, local));
    }

    /// What the state of `block` captures, scope by scope.
    pub fn get_incoming_decl_scopes(&self, block: BasicBlock) -> (r: Vec<Vec<Field>>)
        requires
            block < self.mar@.blocks.len(),
        ensures
            groups_view(r@) == self.mar@.incoming(block),
            self.mar@.wf() ==> self.mar@.fields_valid(groups_view(r@)),
    {
        let data = &self.mar.basic_blocks[block];
        let ghost locals = self.mar@.local_decls;
        let mut decl_scopes: Vec<Vec<Field>> = Vec::new();
        let mut s: usize = 0;
        while s < data.decls.len()
            invariant
                0 <= s <= data.decls.len(),
                locals == self.mar@.local_decls,
                block < self.mar@.blocks.len(),
                *data == self.mar.basic_blocks@[block as int],
                decl_scopes@.len() == s,
                forall|k: int|
                    0 <= k < s ==> (#[trigger] decl_scopes@[k])@ == self.mar@.incoming(block)[k],
            decreases data.decls.len() - s,
        {
            let scope = &data.decls[s];
            let mut decls: Vec<Field> = Vec::new();
            let mut d: usize = 0;
            while d < scope.decls.len()
                invariant
                    0 <= d <= scope.decls.len(),
                    locals == self.mar@.local_decls,
                    decls@ == scope_fields(locals, scope.decls@, d as int),
                decreases scope.decls.len() - d,
            {
                match scope.decls[d] {
                    LiveDecl::Active(local) => {
                        decls.push(Field { local, shadowed: false });
                        self.get_shadowed_decls(&mut decls, local);
                    },
                    LiveDecl::Moved(local) => {
                        self.get_shadowed_decls(&mut decls, local);
                    },
                    LiveDecl::Forward(_) => {},
                }
                assert(decls@ =~= scope_fields(locals, scope.decls@, d + 1));
                d += 1;
            }
            assert(self.mar@.blocks[block as int].decls[s as int].decls == scope.decls@);
            decl_scopes.push(decls);
            s += 1;
        }
        proof {
            assert(groups_view(decl_scopes@) =~= self.mar@.incoming(block));
            if self.mar@.wf() {
                let m = self.mar@;
                assert(m.blocks[block as int].wf(
                    m.blocks.len(),
                    m.local_decls.len(),
                    m.visibility_scopes.len(),
                ));
                assert forall|s: int| 0 <= s < m.incoming(block).len() implies fields_in(
                    #[trigger] m.incoming(block)[s],
                    m.local_decls.len(),
                ) by {
                    let decls = m.blocks[block as int].decls[s].decls;
                    lemma_scope_fields_valid(m.local_decls, decls, decls.len() as int);
                }
            }
        }
        decl_scopes
    }

    /// The expression that builds the state of `block`.
    pub fn state_expr(&self, block: BasicBlock) -> (r: StateExpr)
        requires
            block < self.mar@.blocks.len(),
        ensures
            r@ == self.mar@.state_expr(block),
    {
        StateExpr { block, scopes: self.get_incoming_decl_scopes(block) }
    }

    /// The variant of the state type for `block`, and the type parameters
    /// that it uses.
    pub fn state_variant(&self, block: BasicBlock) -> (r: (StateVariant, Vec<Local>))
        requires
            block < self.mar@.blocks.len(),
        ensures
            r.0.block == block,
            groups_view(r.0.scopes@) == self.mar@.incoming(block),
            r.1@ == self.mar@.variant_params(block),
    {
        let scopes = self.get_incoming_decl_scopes(block);
        let mut ty_param_ids: Vec<Local> = Vec::new();
        let mut s: usize = 0;
        while s < scopes.len()
            invariant
                0 <= s <= scopes.len(),
                ty_param_ids@ == params_of(groups_view(scopes@), s as int),
            decreases scopes.len() - s,
        {
            let scope = &scopes[s];
            let ghost before = ty_param_ids@;
            let mut i: usize = 0;
            while i < scope.len()
                invariant
                    0 <= i <= scope.len(),
                    ty_param_ids@ == before + group_params(scope@).subrange(0, i as int),
                decreases scope.len() - i,
            {
                ty_param_ids.push(scope[i].local);
                assert(ty_param_ids@ =~= before + group_params(scope@).subrange(0, i + 1));
                i += 1;
            }
            assert(group_params(scope@).subrange(0, i as int) =~= group_params(scope@));
            assert(groups_view(scopes@)[s as int] == scope@);
            s += 1;
        }
        (StateVariant { block, scopes }, ty_param_ids)
    }

    /// The pattern that takes the state of `block` apart.
    pub fn state_pat(&self, block: BasicBlock) -> (r: StatePat)
        requires
            self.mar@.wf(),
            block < self.mar@.blocks.len(),
        ensures
            r.block == block,
            groups_view(r.scopes@) == self.mar@.state_pat(block),
    {
        let incoming = self.get_incoming_decl_scopes(block);
        let mut scopes: Vec<Vec<PatField>> = Vec::new();
        let mut s: usize = 0;
        while s < incoming.len()
            invariant
                0 <= s <= incoming.len(),
                groups_view(incoming@) == self.mar@.incoming(block),
                self.mar@.fields_valid(groups_view(incoming@)),
                scopes@.len() == s,
                forall|k: int|
                    0 <= k < s ==> (#[trigger] scopes@[k])@ == self.mar@.state_pat(block)[k],
            decreases incoming.len() - s,
        {
            let scope = &incoming[s];
            assert(groups_view(incoming@)[s as int] == scope@);
            let mut pats: Vec<PatField> = Vec::new();
            let mut i: usize = 0;
            while i < scope.len()
                invariant
                    0 <= i <= scope.len(),
                    fields_in(scope@, self.mar@.local_decls.len()),
                    pats@ == group_pats(self.mar@.local_decls, scope@).subrange(0, i as int),
                decreases scope.len() - i,
            {
                let field = scope[i];
                pats.push(
                    PatField { field, mutability: self.mar.local_decls[field.local].mutability },
                );
                assert(pats@ =~= group_pats(self.mar@.local_decls, scope@).subrange(0, i + 1));
                i += 1;
            }
            assert(pats@ =~= group_pats(self.mar@.local_decls, scope@));
            scopes.push(pats);
            s += 1;
        }
        assert(groups_view(scopes@) =~= self.mar@.state_pat(block));
        StatePat { block, scopes }
    }

    /// The arm of the machine for `block`.
    pub fn state_arm(&self, block: BasicBlock) -> (r: Arm)
        requires
            self.mar@.wf(),
            block < self.mar@.blocks.len(),
        ensures
            r.pat.block == block,
            groups_view(r.pat.scopes@) == self.mar@.state_pat(block),
            handler_view(r.body@) == self.mar@.handler(block),
    {
        Arm { pat: self.state_pat(block), body: self.block(block) }
    }

    /// The state type and the arms of the machine: for each block that
    /// control can reach, in order, the variant of its state and its arm.
    /// The type has one type parameter for each local that some state
    /// captures, in the order of first use, and none for a local that no
    /// state captures.
    pub fn state_enum_default_and_arms(&self) -> (r: (StateEnum, Vec<Arm>))
        requires
            self.mar@.wf(),
            self.mar@.blocks.len() > 0,
        ensures
            ({
                let reach = self.mar@.reachable_blocks(self.mar@.blocks.len() as int);
                &&& r.0.ty_params@ == self.mar@.params_over(reach, reach.len() as int)
                &&& r.0.ty_params@.no_duplicates()
                &&& forall|local: Local|
                    r.0.ty_params@.contains(local) <==> self.mar@.captured_over(
                        reach,
                        local,
                        reach.len() as int,
                    )
                &&& r.0.variants@.len() == reach.len()
                &&& forall|i: int|
                    0 <= i < reach.len() ==> (#[trigger] r.0.variants@[i]).block == reach[i]
                        && groups_view(r.0.variants@[i].scopes@) == self.mar@.incoming(reach[i])
                &&& r.1@.len() == reach.len()
                &&& forall|i: int|
                    0 <= i < reach.len() ==> (#[trigger] r.1@[i]).pat.block == reach[i]
                        && groups_view(r.1@[i].pat.scopes@) == self.mar@.state_pat(reach[i])
                        && handler_view(r.1@[i].body@) == self.mar@.handler(reach[i])
            }),
    {
        let blocks = self.reachable_blocks();
        let ghost reach = blocks@;
        proof {
            self.mar@.lemma_reachable_blocks(self.mar@.blocks.len() as int);
        }
        let mut ty_param_ids: Vec<Local> = Vec::new();
        let mut seen_ty_param_ids: HashSet<Local> = HashSet::new();
        let mut state_variants: Vec<StateVariant> = Vec::new();
        let mut state_arms: Vec<Arm> = Vec::new();
        let mut i: usize = 0;
        while i < blocks.len()
            invariant
                0 <= i <= blocks.len(),
                reach == blocks@,
                self.mar@.wf(),
                forall|k: int| 0 <= k < reach.len() ==> (#[trigger] reach[k]) < self.mar@.blocks.len(),
                ty_param_ids@ == self.mar@.params_over(reach, i as int),
                seen_all(seen_ty_param_ids@, ty_param_ids@),
                state_variants@.len() == i,
                forall|k: int|
                    0 <= k < i ==> (#[trigger] state_variants@[k]).block == reach[k] && groups_view(
                        state_variants@[k].scopes@,
                    ) == self.mar@.incoming(reach[k]),
                state_arms@.len() == i,
                forall|k: int|
                    0 <= k < i ==> (#[trigger] state_arms@[k]).pat.block == reach[k] && groups_view(
                        state_arms@[k].pat.scopes@,
                    ) == self.mar@.state_pat(reach[k]) && handler_view(state_arms@[k].body@)
                        == self.mar@.handler(reach[k]),
            decreases blocks.len() - i,
        {
            let block = blocks[i];
            assert(reach[i as int] < self.mar@.blocks.len());
            let (variant, tp) = self.state_variant(block);
            // A local gets a type parameter only where a state captures
            // it, and then only once.
            add_ty_params(&mut seen_ty_param_ids, &mut ty_param_ids, &tp);
            state_variants.push(variant);
            state_arms.push(self.state_arm(block));
            i += 1;
        }
        proof {
            self.mar@.lemma_params_over(reach, reach.len() as int);
        }
        (StateEnum { ty_params: ty_param_ids, variants: state_variants }, state_arms)
    }
}

} // verus!
