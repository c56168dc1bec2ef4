pub mod text;
pub mod error;
pub mod audio;
pub mod asr;
pub mod hexcodec;
pub mod crypto;
pub mod ops;
pub mod worker;
pub mod access;
pub mod notes;
pub mod structured;
pub mod keys;
pub mod capture;
pub mod llm;
pub mod generate;
pub mod retrieval;
pub mod recipe;
pub mod calendar;
pub mod oauth;
pub mod calendar_events;
pub mod asr_session;
pub mod account;
pub mod detection;
pub mod config;
pub mod auth;
pub mod folders;
