pub mod archive;
pub mod digest;
pub mod feishu;
pub mod json;
pub mod library;
pub mod models;
pub mod settings;
pub mod patterns;
pub mod store;
pub mod text;
pub mod versions;
pub mod web;
pub mod wechat;
