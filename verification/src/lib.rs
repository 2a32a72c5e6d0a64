//! A GUI that hands background work to an executor without ever waiting for
//! it, and the small server it talks to.
//!
//! [`tasks`] holds the two ends of the bridge between the render loop and
//! the executor, [`app`] the tasks, the events and the UI's state, and
//! [`bridge`] what holds of the two ends together. [`site`] and [`config`]
//! decide what the server serves.

pub mod app;
pub mod bridge;
pub mod config;
pub mod site;
pub mod tasks;
