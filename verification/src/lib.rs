//! Definitions of Discord application commands: the typed model, the rules a
//! definition has to meet, and its JSON form for the registration endpoint.

pub mod encode;
pub mod error;
pub mod localization;
pub mod model;
pub mod number;
pub mod registry;
pub mod serialize;
pub mod text;
pub mod validate;

pub use error::{
    ChoiceKind, Field, OwnerType, SerializationError, ValidationError, ValidationErrorKind,
};
pub use localization::LocalizationMap;
pub use model::{
    ChoiceValue, DiscordInteraction, DiscordInteractionChoice, DiscordInteractionOption,
    InteractionArgument,
};
pub use number::Number;
pub use registry::{
    DiscordInteractionChannelType, DiscordInteractionOptionType, DiscordInteractionType,
};
pub use serialize::base_command_to_json;
