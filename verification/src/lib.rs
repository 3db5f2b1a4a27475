//! Batch removal of embedded OCR text layers from PDF files.
//!
//! The verified core of the tool: content sniffing that recognises a PDF by
//! its leading bytes, derivation of the output location for a processed
//! file, and the batch state machine that sequences probing, scanning,
//! transforming and optional deletion of originals. The surrounding binary
//! performs the filesystem reads, the tree walk and the subprocess call,
//! and feeds their results to the state machine as events.

pub mod batch;
pub mod laws;
pub mod paths;
pub mod sniff;
