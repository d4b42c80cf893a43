//! Verified core of a document-style short-video production studio.
pub mod text;
pub mod json;
pub mod json_text;
pub mod stage;
pub mod error;
pub mod contract;
pub mod state;
pub mod lexicon;
pub mod order;
pub mod prose;
pub mod quality;
pub mod quality_report;
pub mod rubric;
pub mod schema;
pub mod cards;
pub mod assembly;
pub mod assembly_laws;
pub mod assemble;
pub mod fragment;
pub mod declaration;
pub mod capability;
pub mod rollout;
pub mod e2e;
pub mod comfy;
pub mod assets;
pub mod exec_report;
pub mod config_toml;
pub mod doctor;
pub mod env_config;
pub mod skills;
pub mod bundle;
