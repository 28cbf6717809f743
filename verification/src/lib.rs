pub mod automode;
pub mod command;
pub mod dispatch;
pub mod echo;
pub mod hp;
pub mod irc;
pub mod text;
pub mod util;
