use vstd::prelude::*;

pub mod text;
pub mod supervisor;
pub mod strmap;
pub mod ids;
pub mod jobs;
pub mod paths;
pub mod env_file;
pub mod features;
pub mod config;
pub mod connector;
pub mod service;
pub mod local_tools;
pub mod telegram;
pub mod config_store;
pub mod provider_catalog;
pub mod reset;
pub mod yaml_edit;
pub mod llm_router;

verus! {
}
