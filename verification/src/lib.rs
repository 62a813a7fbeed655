//! The decision logic of a daemon supervisor's front ends.
pub mod app;
pub mod batch;
pub mod cli;
pub mod client;
pub mod config;
pub mod configure;
pub mod daemon;
pub mod editor;
pub mod form;
pub mod fuzzy;
pub mod idmap;
pub mod jobs;
pub mod lists;
pub mod logger;
pub mod network;
pub mod order;
pub mod paths;
pub mod ports;
pub mod start;
pub mod stats;
pub mod stop;
pub mod text;
pub mod tui;
pub mod web;
