//! The state of a run: what is still to be read, and what has been built.
use crate::file_provider::FileProvider;
use crate::storage::{NodesStorage, StoredNode};
use crate::symbol_table::{ScopeRef, SymbolTable};
use vstd::prelude::*;

verus! {

/// Why a file was taken as empty.
#[derive(Debug, PartialEq)]
pub enum SkipReason {
    /// There is no text under its path.
    Unreadable,
    /// Its text is not the text of a source file, for the reason given.
    Unparseable(String),
}

/// What a `SkipReason` holds.
pub enum SkipReasonV {
    Unreadable,
    Unparseable(Seq<char>),
}

impl SkipReason {
    pub open spec fn view(&self) -> SkipReasonV {
        match self {
            SkipReason::Unreadable => SkipReasonV::Unreadable,
            SkipReason::Unparseable(e) => SkipReasonV::Unparseable(e@),
        }
    }
}

/// A file that was taken as empty.
#[derive(Debug, PartialEq)]
pub struct SkippedFile {
    pub path: String,
    pub reason: SkipReason,
}

/// The state of a run.
#[derive(Debug, PartialEq)]
pub struct ParserCtx {
    /// The next id to be drawn.
    pub id: u32,
    /// The source texts.
    pub file_provider: FileProvider,
    /// Files that are still to be read, each with the scope that its content belongs to.
    pub queue: Vec<(ScopeRef, String)>,
    /// The nodes built so far.
    pub storage: NodesStorage,
    /// The scopes made so far.
    pub table: SymbolTable,
    /// The files taken as empty so far.
    pub skipped: Vec<SkippedFile>,
}

/// Whether `after` differs from `before` only in that `n` ids were drawn and `log` was added to the
/// storage.
pub open spec fn advanced(
    before: ParserCtx,
    after: ParserCtx,
    n: nat,
    log: Seq<StoredNode>,
) -> bool {
    &&& after.id == before.id + n
    &&& after.storage@ == before.storage@ + log
    &&& after.file_provider == before.file_provider
    &&& after.queue == before.queue
    &&& after.table == before.table
    &&& after.skipped == before.skipped
}

impl ParserCtx {
    /// A run that begins with the file `root_path`, whose content belongs to `scope`.
    pub fn new(
        id: u32,
        file_provider: FileProvider,
        scope: ScopeRef,
        storage: NodesStorage,
        table: SymbolTable,
        root_path: String,
    ) -> (r: ParserCtx)
        ensures
            r.id == id,
            r.file_provider == file_provider,
            r.queue@ == seq![(scope, root_path)],
            r.storage == storage,
            r.table == table,
            r.skipped@.len() == 0,
    {
        let mut queue: Vec<(ScopeRef, String)> = Vec::new();
        queue.push((scope, root_path));
        ParserCtx { id, file_provider, queue, storage, table, skipped: Vec::new() }
    }

    /// Puts a file at the end of the queue.
    pub fn push(&mut self, scope: ScopeRef, file_path: String) -> (r: &mut ParserCtx)
        ensures
            r.queue@ == old(self).queue@.push((scope, file_path)),
            *r == (ParserCtx { queue: r.queue, ..*old(self) }),
            *final(self) == *final(r),
    {
        self.queue.push((scope, file_path));
        self
    }

    /// Takes the file at the end of the queue, which is the one that was put there last.
    pub fn pop(&mut self) -> (r: Option<(ScopeRef, String)>)
        ensures
            *final(self) == (ParserCtx { queue: final(self).queue, ..*old(self) }),
            match r {
                Some(next) => {
                    &&& old(self).queue@.len() > 0
                    &&& next == old(self).queue@.last()
                    &&& final(self).queue@ == old(self).queue@.drop_last()
                },
                None => old(self).queue@.len() == 0 && *final(self) == *old(self),
            },
    {
        if self.queue.len() == 0 {
            None
        } else {
            self.queue.pop()
        }
    }

    /// Draws the next id.
    pub fn get_node_id(&mut self) -> (r: u32)
        requires
            old(self).id < u32::MAX,
        ensures
            r == old(self).id,
            *final(self) == (ParserCtx { id: (old(self).id + 1) as u32, ..*old(self) }),
    {
        let id: u32 = self.id;
        self.id += 1;
        id
    }
}

} // verus!
