//! The decisions of a knowledge base that people and a model keep together:
//! what an extraction may say, when a pair of records may be merged without a
//! person, how names and vectors are asked for, and what a chat turn does next.

pub mod adjudication;
pub mod adjudication_laws;
pub mod adjudication_run;
pub mod adjudication_run_laws;
pub mod adjudication_step_laws;
pub mod chars;
pub mod chat_policy;
pub mod chat_policy_laws;
pub mod description_laws;
pub mod error;
pub mod extraction;
pub mod fact_laws;
pub mod governance;
pub mod governance_laws;
pub mod governor;
pub mod governor_laws;
pub mod governor_run;
pub mod ids;
pub mod index_laws;
pub mod jobs;
pub mod json;
pub mod moment;
pub mod moment_laws;
pub mod names;
pub mod normalize;
pub mod normalize_again_laws;
pub mod normalize_laws;
pub mod precedent_laws;
pub mod query_engine;
pub mod query_laws;
pub mod review;
pub mod review_laws;
pub mod settings;
pub mod settings_laws;
pub mod settlement_laws;
pub mod single;
pub mod strings;
pub mod strings_laws;
pub mod text;
pub mod vector_index;
