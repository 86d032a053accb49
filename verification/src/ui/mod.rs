pub mod app;
pub mod console;
pub mod editor;
pub mod keyboard;
pub mod layout;
pub mod mouse;
pub mod view;

pub use app::App;
pub use console::Console;
