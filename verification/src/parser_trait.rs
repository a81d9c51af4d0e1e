//! The polymorphic parser contract: every per-program parser produces a
//! tagged result that knows how to fold itself into the shared change-set.

use vstd::prelude::*;

use crate::change_map::ChangeMap;
use crate::grouping::InstructionsByProgram;
use crate::queue_entry::QueueEntry;
use crate::relevance::SmartAccountRedisClient;
use crate::token_parser::TokenProgramParsingResult;

verus! {

/// An unexpected internal failure of a program parser; the orchestrator
/// aborts the transaction's processing when one is reported.
#[derive(Clone, Copy, Debug, PartialEq, Eq, Structural)]
pub struct ParseError {}

/// The tagged output of one program parser.
pub enum ParsingResult {
    Token(TokenProgramParsingResult),
}

/// A parser result that can fold itself into a queue entry's change
/// mapping: its own changes win on address collision, everything else in
/// the entry is untouched.
pub trait ExtendQueueEntry: Sized {
    /// The change mapping this result contributes.
    spec fn delta(&self) -> ChangeMap;

    fn extend_queue_entry(self, queue_entry: &mut QueueEntry)
        requires
            old(queue_entry).token_account_changes.wf(),
            self.delta().wf(),
        ensures
            final(queue_entry).token_account_changes.wf(),
            forall|k: Seq<u8>|
                #[trigger] final(queue_entry).token_account_changes.spec_get(k)
                    == match self.delta().spec_get(k) {
                    Some(c) => Some(c),
                    None => old(queue_entry).token_account_changes.spec_get(k),
                },
            final(queue_entry).signature == old(queue_entry).signature,
            final(queue_entry).network == old(queue_entry).network,
            final(queue_entry).transaction == old(queue_entry).transaction,
            final(queue_entry).slot == old(queue_entry).slot,
            final(queue_entry).block_time == old(queue_entry).block_time,
    ;
}

impl ExtendQueueEntry for ParsingResult {
    open spec fn delta(&self) -> ChangeMap {
        match self {
            ParsingResult::Token(result) => result.delta(),
        }
    }

    fn extend_queue_entry(self, queue_entry: &mut QueueEntry) {
        match self {
            ParsingResult::Token(result) => result.extend_queue_entry(queue_entry),
        }
    }
}

/// A per-program parser: reads one transaction's instruction buckets and
/// either contributes a tagged result, reports nothing relevant, or fails.
/// The concrete implementations carry the exact contracts.
pub trait ProgramParser {
    fn parse_transaction(
        &self,
        queue_entry: &QueueEntry,
        network: i32,
        redis_client: &SmartAccountRedisClient,
        instructions: &InstructionsByProgram,
    ) -> Result<Option<ParsingResult>, ParseError>;
}

} // verus!
