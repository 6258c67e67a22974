//! The commands that a front end understands.

use vstd::prelude::*;

verus! {

/// How many transactions are shown where no number is given.
pub const DEFAULT_SHOW_TRANSACTIONS_SIZE: usize = 10;

/// How many blocks are shown where no number is given.
pub const DEFAULT_SHOW_BLOCKS_SIZE: usize = 10;

/// What a line of input asks for.
#[derive(Debug, Clone, Copy, PartialEq, Eq)]
pub enum Command {
    /// `exit`: end the session.
    Exit,
    /// `help`: list the commands.
    Help,
    /// `create transaction`: schedule a new transaction.
    CreateTransaction,
    /// `show transactions`: list pending transactions.
    ShowTransactions,
    /// `confirm transactions`: run one mining cycle.
    ConfirmTransactions,
    /// `show blocks`: list sealed blocks.
    ShowBlocks,
    /// `mining block`: show the block that is being mined.
    MiningBlock,
    /// Anything else.
    Unrecognized,
}

/// The command that a text spells. The text must match letter for letter.
pub open spec fn command_of(text: Seq<char>) -> Command {
    if text == "exit"@ {
        Command::Exit
    } else if text == "help"@ {
        Command::Help
    } else if text == "create transaction"@ {
        Command::CreateTransaction
    } else if text == "show transactions"@ {
        Command::ShowTransactions
    } else if text == "confirm transactions"@ {
        Command::ConfirmTransactions
    } else if text == "show blocks"@ {
        Command::ShowBlocks
    } else if text == "mining block"@ {
        Command::MiningBlock
    } else {
        Command::Unrecognized
    }
}

/// Whether `text` and `word` spell the same.
fn spells(text: &String, word: &str) -> (same: bool)
    ensures
        same == (text@ == word@),
{
    let word: String = word.to_owned();
    *text == word
}

/// Recognizes a command.
pub fn parse_command(command: &str) -> (parsed: Command)
    ensures
        parsed == command_of(command@),
{
    let text: String = command.to_owned();
    if spells(&text, "exit") {
        Command::Exit
    } else if spells(&text, "help") {
        Command::Help
    } else if spells(&text, "create transaction") {
        Command::CreateTransaction
    } else if spells(&text, "show transactions") {
        Command::ShowTransactions
    } else if spells(&text, "confirm transactions") {
        Command::ConfirmTransactions
    } else if spells(&text, "show blocks") {
        Command::ShowBlocks
    } else if spells(&text, "mining block") {
        Command::MiningBlock
    } else {
        Command::Unrecognized
    }
}

} // verus!
