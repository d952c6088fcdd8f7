//! OTLP trace ingest: spans that follow the GenAI conventions become events, and every span of an
//! export is answered for.
pub mod export;
pub mod linkage;
pub mod proto;
pub mod semconv;
