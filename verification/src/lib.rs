pub mod assets;
pub mod pipeline;
pub mod bytes;
pub mod compose;
pub mod date;
pub mod experiments;
pub mod external;
pub mod front_matter;
pub mod index;
pub mod json;
pub mod loader;
pub mod output;
pub mod post;
pub mod watch;
