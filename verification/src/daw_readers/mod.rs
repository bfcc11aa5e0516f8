//! Readers of the project files of digital audio workstations.
pub mod reaper;
pub mod reaper_laws;
pub mod logicpro;
pub mod logicpro_laws;
pub mod ableton;
pub mod ableton_laws;
pub mod dawproject;
pub mod dawproject_laws;
