pub mod irc;
