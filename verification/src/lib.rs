//! A generator for the Rec. ITU-R BT.2111 HDR colour-bar test pattern,
//! producing 10-bit 4:2:0 frames and their Y4M encoding.
//!
//! Only integer multiples of 1920x1080 are drawn natively; every sample of a
//! generated frame is proved to equal the pattern of `pattern::pattern_2k`
//! at the position scaled down to 1920x1080.
pub mod cli;
pub mod color;
pub mod frame;
pub mod generator;
pub mod laws;
pub mod layout;
pub mod levels;
pub mod pattern;
pub mod y4m;

pub use cli::{next_value, parse_args, parse_resolution, parse_transfer, parse_usize, Args, Command};
pub use color::{grey, ycbcr_from_rgb, RgbCode, Ycbcr, CHROMA_NEUTRAL, LIMITED_BLACK, LIMITED_WHITE};
pub use frame::Frame;
pub use generator::{generate_frame, validate_options, GeneratorOptions};
pub use layout::{BASE_HEIGHT, BASE_WIDTH};
pub use levels::{Transfer, GREY_40_CODE, HLG_MAIN_BAR_CODE, PQ_MAIN_BAR_CODE, RAMP_MAX_CODE, RAMP_MIN_CODE};
pub use y4m::write_y4m;
