//! The Lekko sidecar: local evaluation of dynamic configs, kept up to date
//! from Lekko or from a config repository on disk.

pub mod number;
pub mod status;
pub mod text;
pub mod value;

pub mod evaluator;
pub mod functions;
pub mod rules;
pub mod rules_v1beta1;
pub mod rules_v3;

pub mod backend;
pub mod bootstrap;
pub mod fallback;
pub mod remote_store;
pub mod repo_dir;
pub mod store;

pub mod config_service;
pub mod distro_service;
pub mod proxy;
pub mod service;
pub mod types;

pub mod logging;
pub mod metrics;
pub mod state;

pub mod laws;
