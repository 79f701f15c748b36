//! Data-acquisition run engine and device framework.

pub mod bundler;
pub mod ca;
pub mod checkpoint_store;
pub mod client;
pub mod codec;
pub mod compose;
pub mod derive;
pub mod detector;
pub mod device;
pub mod documents;
pub mod engine;
pub mod envelope;
pub mod error;
pub mod kind;
pub mod lua_bp;
pub mod lua_bpp;
pub mod lua_bps;
pub mod lua_bridge;
pub mod lua_device;
pub mod lua_engine;
pub mod lua_msg;
pub mod lua_plan;
pub mod lua_value;
pub mod manager;
pub mod manager_lua;
pub mod mock;
pub mod msg;
pub mod pva;
pub mod reading;
pub mod repl;
mod share;
pub mod signal;
pub mod sinks;
pub mod soft;
pub mod soft_detector;
pub mod status;
pub mod strmap;
pub mod text;
pub mod tiled;
pub mod value;
