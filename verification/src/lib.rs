pub mod text;
pub mod preview;
pub mod titles;
pub mod handles;
pub mod workspace;
pub mod ids;
pub mod generation;
pub mod prompts;
pub mod snapshot;
pub mod storm;
pub mod tools;
pub mod session;
pub mod crypto;
pub mod time;
pub mod provider;
pub mod html;
pub mod identity;
pub mod scaffold;
pub mod assets;
pub mod archive;
pub mod order;
