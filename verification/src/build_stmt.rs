//! Building blocks and statements.
use crate::ast::{Block, Expression, Let, Macro, NodeKind, Statement};
use crate::context::{advanced, ParserCtx};
use crate::count::{
    block_ids, block_ok, expr_ids, init_ids, init_ok, is_use_stmt, stmt_ids, stmt_ok, stmts_ids,
    stmts_ok,
};
use crate::lists::lemma_stmts_prefix;
use crate::record::{block_log, init_log, stmt_log, stmts_log};
use crate::shape::{is_block, is_expr, is_opt_expr, is_stmt, is_stmts, let_name};
use crate::syntax::{
    stmts_view, SrcBlock, SrcInit, SrcItem, SrcLocal, SrcMacroStmt, SrcPat, SrcPatKind, SrcStmt,
};
use crate::text::without_spaces;
use std::rc::Rc;
use vstd::prelude::*;

verus! {

/// The block that a block statement holds.
pub(crate) fn block_of(stmt: Statement) -> (r: Rc<Block>)
    requires
        stmt is Block,
    ensures
        stmt == Statement::Block(r),
{
    match stmt {
        Statement::Block(block) => block,
        _ => vstd::pervasive::unreached(),
    }
}

/// The name that a `let` is known by.
fn name_of_let(pat: &SrcPat) -> (r: String)
    ensures
        r@ == let_name(pat@),
{
    proof {
        reveal_with_fuel(SrcPat::view, 3);
        reveal_with_fuel(SrcPatKind::view, 3);
    }
    match &pat.kind {
        SrcPatKind::Ident { ident, .. } => ident.clone(),
        SrcPatKind::Typed(inner) => match &inner.kind {
            SrcPatKind::Ident { ident, .. } => ident.clone(),
            _ => inner.text.clone(),
        },
        _ => pat.text.clone(),
    }
}

/// Whether a statement is a `use`.
fn is_use(stmt: &SrcStmt) -> (r: bool)
    ensures
        r == is_use_stmt(stmt@),
{
    match stmt {
        SrcStmt::Definition(SrcItem::Use(_)) => true,
        _ => false,
    }
}

impl ParserCtx {
    /// Builds a block; the `use` items in it are left out.
    pub fn build_block_statement(&mut self, block: &SrcBlock, parent_id: u32) -> (r: Statement)
        requires
            block_ok(block@),
            old(self).id + block_ids(block@) <= u32::MAX,
        ensures
            r matches Statement::Block(b) && is_block(block@, old(self).id as int, *b),
            advanced(
                *old(self),
                *final(self),
                block_ids(block@),
                block_log(block@, r->Block_0, parent_id),
            ),
        decreases block,
    {
        let id: u32 = self.get_node_id();
        let statements = self.build_statements(&block.stmts, id);
        let stmt = Statement::Block(Rc::new(Block { id, location: block.at, statements }));
        self.storage.add_node(NodeKind::Statement(stmt.clone()), parent_id);
        assert(self.storage@ =~= old(self).storage@ + block_log(block@, stmt->Block_0, parent_id));
        stmt
    }

    /// Builds the statements of a block.
    fn build_statements(&mut self, stmts: &Vec<SrcStmt>, id: u32) -> (r: Vec<Statement>)
        requires
            stmts_ok(stmts_view(stmts@)),
            old(self).id + stmts_ids(stmts_view(stmts@)) <= u32::MAX,
        ensures
            is_stmts(stmts_view(stmts@), old(self).id as int, r@),
            advanced(
                *old(self),
                *final(self),
                stmts_ids(stmts_view(stmts@)),
                stmts_log(stmts_view(stmts@), r@, id),
            ),
        decreases stmts,
    {
        let ghost s = stmts_view(stmts@);
        let mut r: Vec<Statement> = Vec::new();
        for i in 0..stmts.len()
            invariant
                s == stmts_view(stmts@),
                stmts_ok(s),
                old(self).id + stmts_ids(s) <= u32::MAX,
                is_stmts(s.take(i as int), old(self).id as int, r@),
                advanced(
                    *old(self),
                    *self,
                    stmts_ids(s.take(i as int)),
                    stmts_log(s.take(i as int), r@, id),
                ),
        {
            let ghost built = r@;
            proof {
                lemma_stmts_prefix(s, i + 1);
                assert(s.take(i + 1).drop_last() =~= s.take(i as int));
                assert(decreases_to!(stmts@ => stmts@[i as int]));
            }
            if !is_use(&stmts[i]) {
                let stmt = self.build_statement(&stmts[i], id);
                r.push(stmt);
                assert(r@.drop_last() =~= built);
            }
            assert(self.storage@ =~= old(self).storage@ + stmts_log(s.take(i + 1), r@, id));
        }
        assert(s.take(s.len() as int) =~= s);
        r
    }

    /// Builds a statement.
    pub fn build_statement(&mut self, stmt: &SrcStmt, parent_id: u32) -> (r: Statement)
        requires
            stmt_ok(stmt@),
            old(self).id + stmt_ids(stmt@) <= u32::MAX,
        ensures
            is_stmt(stmt@, old(self).id as int, r),
            advanced(*old(self), *final(self), stmt_ids(stmt@), stmt_log(stmt@, r, parent_id)),
        decreases stmt,
    {
        match stmt {
            SrcStmt::Expression { expr, semi } => Statement::Expression(
                self.build_expression(expr, !*semi, parent_id),
            ),
            SrcStmt::Local(x) => self.build_let_statement(x, parent_id),
            SrcStmt::Macro(x) => self.build_macro_statement(x, parent_id),
            SrcStmt::Definition(x) => Statement::Definition(self.build_definition(x, parent_id)),
        }
    }

    /// Builds a macro call that stands as a statement; its text is kept without spaces.
    pub fn build_macro_statement(&mut self, macro_stmt: &SrcMacroStmt, parent_id: u32) -> (r:
        Statement)
        requires
            old(self).id < u32::MAX,
        ensures
            is_stmt(macro_stmt@, old(self).id as int, r),
            advanced(
                *old(self),
                *final(self),
                stmt_ids(macro_stmt@),
                stmt_log(macro_stmt@, r, parent_id),
            ),
    {
        let id: u32 = self.get_node_id();
        let stmt = Statement::Macro(
            Rc::new(
                Macro {
                    id,
                    location: macro_stmt.at,
                    name: macro_stmt.name.clone(),
                    text: without_spaces(macro_stmt.text.as_str()),
                },
            ),
        );
        self.storage.add_node(NodeKind::Statement(stmt.clone()), parent_id);
        assert(self.storage@ =~= old(self).storage@ + stmt_log(macro_stmt@, stmt, parent_id));
        stmt
    }

    /// Builds a `let`: its pattern, its value and its `else` branch. The pattern draws its id before
    /// the statement does.
    pub fn build_let_statement(&mut self, stmt_let: &SrcLocal, parent_id: u32) -> (r: Statement)
        requires
            stmt_ok(stmt_let@),
            old(self).id + stmt_ids(stmt_let@) <= u32::MAX,
        ensures
            is_stmt(stmt_let@, old(self).id as int, r),
            advanced(
                *old(self),
                *final(self),
                stmt_ids(stmt_let@),
                stmt_log(stmt_let@, r, parent_id),
            ),
        decreases stmt_let,
    {
        let name = name_of_let(&stmt_let.pat);
        let pattern = self.build_pattern(&stmt_let.pat);
        let id: u32 = self.get_node_id();
        let mut initial_value = None;
        let mut initial_value_alternative = None;
        if let Some(init) = &stmt_let.init {
            let (value, alternative) = self.build_init(init, id);
            initial_value = Some(value);
            initial_value_alternative = alternative;
        }
        let stmt = Statement::Let(
            Rc::new(
                Let {
                    id,
                    location: stmt_let.at,
                    name,
                    pattern,
                    initial_value,
                    initial_value_alternative,
                },
            ),
        );
        self.storage.add_node(NodeKind::Statement(stmt.clone()), parent_id);
        assert(self.storage@ =~= old(self).storage@ + stmt_log(stmt_let@, stmt, parent_id));
        stmt
    }

    /// Builds the value and the `else` branch of a `let`.
    fn build_init(&mut self, init: &SrcInit, id: u32) -> (r: (Expression, Option<Expression>))
        requires
            init_ok(Some(init@)),
            old(self).id + init_ids(Some(init@)) <= u32::MAX,
        ensures
            is_expr(init@.expr, false, old(self).id as int, r.0),
            is_opt_expr(init@.diverge, old(self).id + expr_ids(init@.expr), r.1),
            advanced(*old(self), *final(self), init_ids(Some(init@)), init_log(init@, r.0, r.1, id)),
        decreases init,
    {
        let value = self.build_expression(&init.expr, false, id);
        self.store_expression(&value, id);
        let mut alternative = None;
        if let Some(diverge) = &init.diverge {
            let expr = self.build_expression(diverge, false, id);
            self.store_expression(&expr, id);
            alternative = Some(expr);
        }
        assert(self.storage@ =~= old(self).storage@ + init_log(init@, value, alternative, id));
        (value, alternative)
    }
}

} // verus!
