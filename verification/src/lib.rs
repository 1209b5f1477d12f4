//! The verified core of an arcade piano trainer.
//!
//! Times are whole nanoseconds and audio samples are the bit patterns of
//! 32-bit floats, so that every rule here is exact integer logic.
pub mod arith;
pub mod chance;
pub mod effects;
pub mod engrave;
pub mod favourites;
pub mod freeplay;
pub mod hud;
pub mod keyboard;
pub mod menu;
pub mod microphone;
pub mod midi_file;
pub mod midi_player;
pub mod names;
pub mod order;
pub mod play_along;
pub mod playing;
pub mod preview;
pub mod recorder;
pub mod results;
pub mod ring;
pub mod sample;
pub mod scene;
pub mod score;
pub mod sfx;
pub mod sheet;
pub mod smf;
pub mod song;
pub mod spectrum;
pub mod take;
pub mod text;
pub mod tracks;
