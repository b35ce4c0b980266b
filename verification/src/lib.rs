//! The logic of a small interactive shell: the builtins, the command
//! history with its browsing, the line editor behind the prompt, the
//! decoding of raw terminal keys and the cache of executables found on the
//! search path.

pub mod bins;
pub mod builtins;
pub mod editor;
pub mod history;
pub mod keys;
pub mod shell;
pub mod text;

pub use bins::BinCache;
pub use builtins::{BuiltinAction, BuiltinCmd, CommandParsingError};
pub use editor::{EditOutcome, LineEditor};
pub use history::History;
pub use keys::{KbKey, KeyStart, OffByOneError};
pub use shell::LinePlan;
