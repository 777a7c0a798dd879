use vstd::prelude::*;

pub mod banners;
pub mod colors;
pub mod effects;
pub mod formatting;
pub mod system;
pub mod text;

pub use banners::{create_banner, Banner, Position};
pub use colors::{
    black, blue, cyan, fade_color, green, hsv_to_color, magenta, random_pleasing_color, red, white,
    yellow, Color, RESET,
};
pub use effects::{
    effect_end, loading_bar_frame, matrix_frame, matrix_line, rainbow_frame, spinner_frame,
    typewriter_step, wiggle_frame, wiggle_line, EffectSettings,
};
pub use formatting::{
    box_text, center_text, center_text_in, colored, create_table, fade_text, terminal_width,
    DEFAULT_WIDTH,
};
pub use system::{
    clear_screen_sequence, hide_cursor_sequence, set_title_sequence, show_cursor_sequence,
};

verus! {

} // verus!
