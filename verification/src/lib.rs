//! Metric collection logic of the status-core agent: parsing of the kernel's
//! sysfs files, disk selection, PM2 process listing and the small decisions of
//! the agent's start-up and retention.

pub mod text;
pub mod sysfs;
pub mod disks;
pub mod json;
pub mod pm2;
pub mod retention;
pub mod api;
pub mod startup;
