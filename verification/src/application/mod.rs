pub mod service;

pub use service::CaffeineService;
