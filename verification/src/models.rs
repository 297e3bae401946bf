pub mod player;
pub mod tabs;

pub use player::Player;
pub use tabs::Tabs;
