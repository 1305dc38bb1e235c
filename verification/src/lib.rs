pub mod ai;
pub mod cli;
pub mod client;
pub mod clock;
pub mod conf;
pub mod count;
pub mod filter;
pub mod markdown;
pub mod pager;
pub mod service;
pub mod summary;
pub mod text;
pub mod thing;
pub mod view;
