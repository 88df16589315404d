//! Adapter for a child program that streams one JSON event per line: it
//! classifies each event, caps what it keeps of both output streams, and
//! settles a single outcome once the child has exited or run out of time.
pub mod classify;
pub mod invocation;
pub mod record;
pub mod stream;
pub mod text;
