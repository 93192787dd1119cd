pub mod archive;
pub mod cli;
pub mod html;
pub mod logger;
pub mod serve;
