pub mod chars;
pub mod filter;
pub mod laws;
pub mod reserved;
pub mod rules;
pub mod sanitize;
pub mod trailing;
pub mod truncate;
pub mod validate;

pub use sanitize::Options;
pub use sanitize::sanitize;
pub use sanitize::sanitize_with_options;
pub use validate::OptionsForCheck;
pub use validate::is_sanitized;
pub use validate::is_sanitized_with_options;
