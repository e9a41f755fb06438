//! Decision logic for running upstream images under an installed pipelines operator.

pub mod deploy;
pub mod deploy_laws;
pub mod env;
pub mod env_laws;
pub mod error;
pub mod installation;
pub mod installer_sets;
pub mod json;
pub mod labels;
pub mod model;
pub mod model_laws;
pub mod patch_laws;
pub mod pods;
pub mod rbac;
pub mod registry;
pub mod restart;
pub mod restart_laws;
pub mod search;
pub mod search_laws;
pub mod text;
pub mod text_laws;
