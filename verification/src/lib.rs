//! The verified core of the Celesta video tools: exact timeline time and
//! frames, export planning and the order an export runs in, what an
//! evaluation of the timeline picks, frame readback layout and the texture
//! cache, the audio cache format, timecodes, editing history, and the
//! editor's track, keyframe and component operations.

pub mod animation;
pub mod animation_laws;
pub mod characters;
pub mod characters_laws;
pub mod clock;
pub mod clock_laws;
pub mod encoding;
pub mod evaluation;
pub mod evaluation_laws;
pub mod export;
pub mod export_laws;
pub mod exporter;
pub mod exporter_laws;
pub mod frame;
pub mod gcd;
pub mod history;
pub mod keyframes;
pub mod layer_tree;
pub mod layer_tree_laws;
pub mod keyframes_laws;
pub mod model;
pub mod naming;
pub mod pcm_cache;
pub mod readback;
pub mod summary;
pub mod texture_cache;
pub mod texture_cache_laws;
mod text;
pub mod time;
pub mod time_laws;
pub mod timecode;
pub mod timeline;
pub mod timeline_laws;
pub mod tracks;
pub mod tracks_laws;
pub mod workers;
pub mod workers_laws;
