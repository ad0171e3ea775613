pub mod commands;
pub mod twitch;
