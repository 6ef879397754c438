//! A three-band stereo crossover: the decisions, the parsing and the data
//! movement of an audio server that reads stereo samples from a pipe, splits
//! them into low, mid and high bands and plays them on six channels.

pub mod config;
pub mod crossover;
pub mod device;
pub mod dsp;
pub mod history;
pub mod laws;
pub mod metadata;
pub mod ring;
pub mod server;
pub mod text;
pub mod tui;
pub mod view;
