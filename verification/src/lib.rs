//! Styling for terminal text: a small named-rule declaration language and a
//! box-model renderer that turns a style record plus text into escape-coded
//! output, sized under East-Asian display-width rules.

mod border;
mod chars;
mod color;
mod decoration;
mod style;
mod styled_text;
mod termio;
mod width;

pub use border::BorderStyle;
pub use color::Color;
pub use decoration::Decoration;
pub use style::Style;
pub use styled_text::{StyledString, StyledText};
pub use termio::{ParseError, Termio};
