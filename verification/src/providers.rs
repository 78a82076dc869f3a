//! What a server is asked and told, and how its answers are read.
pub mod dashboard;
pub mod processes;
pub mod cron_jobs;
pub mod packages;
pub mod ports;
pub mod accounts;
pub mod services;
pub mod docker;
pub mod runtimes;
pub mod logs;
pub mod files;
pub mod transfers;
pub mod transfer_runs;
