//! The fields a clip is made of.

mod password;
mod shortcode;

pub use password::Password;
pub use shortcode::is_shortcode_char;
pub use shortcode::ShortCode;
pub use shortcode::SHORTCODE_LEN;
