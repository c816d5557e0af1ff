pub mod models;
pub mod ports;

pub use models::{CaffeineConfig, JiggleConfig, SessionInfo};
pub use ports::{PowerGuard, PowerManager, StatusRepository};
