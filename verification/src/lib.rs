//! Orchestration layer for building an animated WebP container from a
//! sequence of still images: per-frame configuration cascading, sequence
//! transformations (reverse, ping-pong), the incremental encoder state
//! machine, and a byte-level loop-count rewriter.

mod args;
mod config;
mod encoder;
mod mux;
mod numparse;
mod sequence;

pub use config::EncoderOptions;
pub use config::FrameConfig;
pub use config::FrameJob;
pub use config::JobView;
pub use config::RawImage;
pub use encoder::AnimationEncoder;
pub use encoder::Error;
pub use sequence::apply_transform;
pub use sequence::transform_spec;
pub use sequence::lemma_reverse_transform;
pub use sequence::lemma_ping_pong_transform;
pub use args::Globals;
pub use args::GlobalsView;
pub use args::CascadeView;
pub use args::Plan;
pub use args::EncodePlan;
pub use args::plan;
pub use args::parse_globals;
pub use args::collect_jobs;
pub use args::pass1_from;
pub use args::pass2_from;
pub use args::init_globals;
pub use args::init_cascade;
pub use args::first_meta;
pub use args::strs_view;
pub use args::lemma_cascade_jobs_frozen;
pub use mux::set_loop_count;
pub use mux::valid_container;
pub use mux::find_loop_off;
pub use mux::rewrite_spec;
pub use mux::chunks_ok;
pub use mux::le32_at;
pub use mux::is_anim_at;
pub use mux::lemma_rewrite_round_trip;
pub use numparse::parse_i32_or;
pub use numparse::parse_centi_or;
pub use numparse::spec_parse_i32_or;
pub use numparse::spec_parse_centi_or;
pub use config::jobs_view;
