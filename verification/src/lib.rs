pub mod text;
pub mod num;
pub mod calendar;
pub mod hosts;
pub mod i18n;
pub mod config;
pub mod scheduler;
pub mod blocker;
pub mod launchd;
pub mod paths;
pub mod doctor;
pub mod install;
pub mod preferences;
pub mod streak;
pub mod attempts;
pub mod journal;
pub mod ipc;
pub mod clock;
pub mod habits;
pub mod witness;
pub mod report;
pub mod dashboard;
