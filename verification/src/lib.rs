//! Discovery, wrapper generation, and result ingestion for Python test
//! functions: a suite is built from parsed source, a deterministic runner
//! script is generated from it, and the captured output of that script is
//! folded back into per-test pass/fail statuses.
pub mod discovery;
pub mod ingest;
pub mod parse;
pub mod runner;
pub mod suite;
pub mod text;

pub use parse::ParseFailure;
pub use runner::push_python_line;

pub use suite::PyError;
pub use suite::Pytest;
pub use suite::TestStatus;
pub use suite::TestSuite;
pub use suite::Traceback;
