//! A chat bot core for a live-streaming chat protocol: a line codec, a command
//! resolver, a moderation decision engine, a per-channel connection state
//! machine and a registry of running bots.

pub mod bot;
pub mod codec;
pub mod commands;
pub mod connection;
pub mod error;
pub mod message;
pub mod moderation;
pub mod service;
pub mod storage;
pub mod text;
