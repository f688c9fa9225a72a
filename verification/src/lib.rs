pub mod cookie;
pub mod formats;
pub mod locate;
pub mod paths;
pub mod pattern;
pub mod progress;
pub mod resolver;
pub mod tasks;
pub mod text;
pub mod ytdlp;
