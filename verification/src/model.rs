//! The commands, their options and the choices of an option.

use crate::localization::LocalizationMap;
use crate::number::Number;
use crate::registry::{
    DiscordInteractionChannelType,
    DiscordInteractionOptionType,
    DiscordInteractionType,
};
use vstd::prelude::*;

verus! {

/// The value that a choice stands for.
#[derive(Clone, Debug, PartialEq)]
pub enum ChoiceValue {
    Str(String),
    Int(i32),
    Float(Number),
}

/// One of the values that the user may pick for an option.
#[derive(Clone, Debug, PartialEq)]
pub struct DiscordInteractionChoice {
    pub name: String,
    pub value: ChoiceValue,
}

/// An option of a command: one of its parameters, or a sub-command or group
/// of sub-commands that holds options of its own.
#[derive(Debug, PartialEq)]
pub struct DiscordInteractionOption {
    /// Type of option.
    pub option_type: DiscordInteractionOptionType,
    /// 1-32 character name.
    pub name: String,
    /// Localization dictionary for the name field.
    pub name_localizations: Option<LocalizationMap>,
    /// 1-100 character description.
    pub description: String,
    /// Localization dictionary for the description field.
    pub description_localizations: Option<LocalizationMap>,
    /// Whether the parameter is required.
    pub required: Option<bool>,
    /// What the user may pick from, for the string, integer and number types.
    pub choices: Option<Vec<DiscordInteractionChoice>>,
    /// The nested options of a sub-command or a group.
    pub options: Option<Vec<DiscordInteractionOption>>,
    /// The channel types that a channel option offers.
    pub channel_types: Option<Vec<DiscordInteractionChannelType>>,
    /// The least value permitted, for the integer and number types.
    pub min_value: Option<Number>,
    /// The greatest value permitted, for the integer and number types.
    pub max_value: Option<Number>,
    /// The least length permitted, for the string type.
    pub min_length: Option<u32>,
    /// The greatest length permitted, for the string type.
    pub max_length: Option<u32>,
    /// Whether the option is completed as the user types.
    pub autocomplete: Option<bool>,
}

/// An argument that a user gave for an option.
#[derive(Clone, Debug, PartialEq)]
pub enum InteractionArgument {
    SubCommand(String),
    SubCommandGroup(String),
    String(String),
    Integer(i64),
    Boolean(bool),
    User(String),
    Channel(String),
    Role(String),
    Mentionable(String),
    Number(Number),
}

/// An application command.
#[derive(Debug, PartialEq)]
pub struct DiscordInteraction {
    /// 1-32 character name.
    pub name: String,
    /// Localization dictionary for the name field.
    pub name_localizations: Option<LocalizationMap>,
    /// 1-100 character description, for a chat-input command; a command in a
    /// context menu has none.
    pub description: Option<String>,
    /// Localization dictionary for the description field.
    pub description_localizations: Option<LocalizationMap>,
    /// The parameters of a chat-input command, in the order in which they
    /// are shown.
    pub options: Option<Vec<DiscordInteractionOption>>,
    /// The permissions that a member needs, as a bit set in decimal.
    pub default_member_permissions: Option<String>,
    /// Whether the command is available in direct messages.
    pub dm_permission: Option<bool>,
    /// Whether the command is enabled by default. Always written.
    pub default_permission: bool,
    /// The kind of command; a chat-input command where it is absent.
    pub interaction_type: Option<DiscordInteractionType>,
    /// Whether the command is age-restricted. Always written.
    pub nsfw: bool,
}

} // verus!
