//! Verified core of a Linux controller for the PCPanel Pro USB audio mixer.
pub mod audio;
pub mod backoff;
pub mod clock;
pub mod config;
pub mod controller;
pub mod device;
pub mod display;
pub mod icons;
pub mod keys;
pub mod led;
pub mod mappings;
pub mod obs;
pub mod osd;
pub mod paint;
pub mod panel;
pub mod persist;
pub mod poller;
pub mod rounds;
pub mod runtime;
pub mod search;
pub mod service;
pub mod session;
pub mod settings;
pub mod single;
pub mod startup;
pub mod table;
pub mod text;
pub mod wait;
