//! The bot's settings, as read from its configuration file.
use vstd::prelude::*;
use crate::profanity::ProfanityConfig;
use crate::slap::SlapConfig;
use crate::love::LoveConfig;
use crate::hug::HugConfig;
use crate::remind::RemindConfig;
use crate::time::TimeConfig;

verus! {

/// Where the database is.
#[derive(Clone, Debug)]
pub struct DBConfig {
    pub connection_string: String,
}

/// All settings.
#[derive(Clone, Debug)]
pub struct Config {
    pub profanity: ProfanityConfig,
    pub slap: SlapConfig,
    pub love: LoveConfig,
    pub hug: HugConfig,
    pub remind: RemindConfig,
    pub time: TimeConfig,
    pub db: DBConfig,
}

} // verus!
