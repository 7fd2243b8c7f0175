pub mod text;
pub mod bencode;
pub mod num;
pub mod models;
pub mod filter;
pub mod notifier;
pub mod pattern;
pub mod parser;
pub mod rss;
pub mod scheduler;
pub mod answer;
pub mod timing;
pub mod commands;
pub mod replies;
pub mod panels;
pub mod conversation;
pub mod guide;
pub mod config;
pub mod tmdb;
pub mod laws;
