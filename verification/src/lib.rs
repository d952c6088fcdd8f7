//! The decision core of an LLM telemetry service: what each request is allowed to do, what is
//! stored, what is refused and why. Nothing here performs I/O; callers hand in what a store, a clock
//! or a socket produced and carry out what is decided.
pub mod actions;
pub mod admission;
pub mod auth;
pub mod boot;
pub mod boundary;
pub mod canary;
pub mod clock;
pub mod datasets;
pub mod dates;
pub mod devices;
pub mod error;
pub mod event;
pub mod figure;
pub mod forecast;
pub mod forecast_alerts;
pub mod forecast_plan;
pub mod gate;
pub mod guardrails;
pub mod guards;
pub mod health;
pub mod hook;
pub mod ingest;
pub mod jobs;
pub mod json;
pub mod judges;
pub mod keys;
pub mod labels;
pub mod limit;
pub mod limits;
pub mod logging;
pub mod order;
pub mod otlp;
pub mod outbound;
pub mod posture;
pub mod prices;
pub mod projects;
pub mod prompts;
pub mod proximity;
pub mod quality;
pub mod query;
pub mod redact;
pub mod rejection_history;
pub mod rejections;
pub mod relay;
pub mod scrub;
pub mod seen;
pub mod seqs;
pub mod sweep;
pub mod text;
pub mod usage;
pub mod validate;
pub mod wire;
