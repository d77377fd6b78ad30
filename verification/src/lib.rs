pub mod text;
pub mod frontmatter;
pub mod discovery;
pub mod skill;
pub mod prompt_fragment;
pub mod paths;
pub mod package_store;
pub mod package_discovery;
pub mod resource;
pub mod sorting;
pub mod theme_discovery;
pub mod policy;
pub mod doctor;
pub mod diagnostic_bridge;
pub mod runner;
pub mod session_cli;
pub mod rpc;
pub mod config;
pub mod auth;
pub mod session_coordinator;
pub mod package_resolver;
pub mod cli;
pub mod package_cli;
pub mod harness;
pub mod image;
pub mod model_listing;
pub mod adapter_protocol;
pub mod adapter_host;
pub mod adapter_extension;
pub mod interactive;
pub mod picker;
pub mod prompt;
pub mod tui_state;
