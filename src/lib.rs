//! Keeps the brightness of external displays in step with sunrise and
//! sunset: identity decoding, device matching, solar scheduling, the
//! alarm's arming rules, brightness conversion and the update cycle.

pub mod edid;
pub mod matcher;
pub mod config;
pub mod brightness;
pub mod displays;
pub mod solar;
pub mod alarm;
pub mod retry;
pub mod types;
pub mod logging;
pub mod cycle;
