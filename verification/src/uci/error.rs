//! UCI protocol errors.

use vstd::prelude::*;

verus! {

/// Errors that can occur while parsing UCI commands.
#[derive(Debug, Clone, PartialEq, Eq)]
pub enum UciError {
    /// The `position` command is missing `startpos` or `fen` keyword.
    MalformedPosition,
    /// Failed to parse a FEN string.
    InvalidFen {
        /// The FEN string that failed to parse.
        fen: String,
    },
    /// A move string in the `position` command could not be parsed.
    InvalidMove {
        /// The UCI move string that failed to parse.
        uci_move: String,
    },
    /// A `go` parameter is missing its required value.
    MissingGoValue {
        /// The parameter name (e.g., "wtime", "depth").
        param: String,
    },
    /// A `go` parameter value could not be parsed.
    InvalidGoValue {
        /// The parameter name.
        param: String,
        /// The value string that failed to parse.
        value: String,
    },
}

/// The mathematical content of a [`UciError`]: the same variants, with the
/// text fields as character sequences.
pub enum UciErrorModel {
    MalformedPosition,
    InvalidFen { fen: Seq<char> },
    InvalidMove { uci_move: Seq<char> },
    MissingGoValue { param: Seq<char> },
    InvalidGoValue { param: Seq<char>, value: Seq<char> },
}

impl View for UciError {
    type V = UciErrorModel;

    open spec fn view(&self) -> UciErrorModel {
        match self {
            UciError::MalformedPosition => UciErrorModel::MalformedPosition,
            UciError::InvalidFen { fen } => UciErrorModel::InvalidFen { fen: fen@ },
            UciError::InvalidMove { uci_move } => UciErrorModel::InvalidMove { uci_move: uci_move@ },
            UciError::MissingGoValue { param } => UciErrorModel::MissingGoValue { param: param@ },
            UciError::InvalidGoValue { param, value } => UciErrorModel::InvalidGoValue { param: param@, value: value@ },
        }
    }
}

} // verus!
