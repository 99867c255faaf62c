//! The command surface of the tool, as plain data.
//!
//! The command-line front end parses its arguments into these types and
//! hands them on; the library itself never touches the terminal.

use vstd::prelude::*;

verus! {

/// A parsed invocation: exactly one command.
pub struct Cli {
    pub command: Commands,
}

/// The four commands the tool offers.
pub enum Commands {
    /// Append a chunk holding a message to a file.
    Encode(EncodeArgs),
    /// Look up the first chunk of a type and show its payload.
    Decode(DecodeArgs),
    /// Remove the first chunk of a type and rewrite the file.
    Remove(RemoveArgs),
    /// Show every chunk of a file.
    Print(PrintArgs),
}

/// What `encode` needs: the file, the chunk type, and the message.
pub struct EncodeArgs {
    pub file_path: String,
    pub chunk_type: String,
    pub message: String,
}

/// What `decode` needs: the file and the chunk type to look up.
pub struct DecodeArgs {
    pub file_path: String,
    pub chunk_type: String,
}

/// What `remove` needs: the file and the chunk type to drop.
pub struct RemoveArgs {
    pub file_path: String,
    pub chunk_type: String,
}

/// What `print` needs: the file alone.
pub struct PrintArgs {
    pub file_path: String,
}

} // verus!
