pub mod codec;
pub mod config;
pub mod data_prompts;
pub mod error;
pub mod ignore;
pub mod pathutil;
pub mod plan;
pub mod post_generator;
pub mod project_template;
pub mod resolve;
pub mod search;
pub mod strutil;
pub mod template_engine;
pub mod tree;
pub mod types;
pub mod utils;
pub mod value;
pub mod var_subs;
