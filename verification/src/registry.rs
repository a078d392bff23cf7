//! The wire codes of the enumerated types.
//!
//! Every variant has one integer code, fixed for good. The tables below are the
//! only place where a code is written down; `code` and `from_code` are proved
//! to be each other's inverse.

use vstd::prelude::*;

verus! {

/// The type of an option (a parameter) of a command.
#[derive(Copy, Clone, Debug, PartialEq, Eq, Structural)]
pub enum DiscordInteractionOptionType {
    SubCommand,
    SubCommandGroup,
    String,
    Integer,
    Boolean,
    User,
    Channel,
    Role,
    Mentionable,
    Number,
}

impl DiscordInteractionOptionType {
    /// The wire code of each variant.
    pub open spec fn spec_code(self) -> u8 {
        match self {
            DiscordInteractionOptionType::SubCommand => 1,
            DiscordInteractionOptionType::SubCommandGroup => 2,
            DiscordInteractionOptionType::String => 3,
            DiscordInteractionOptionType::Integer => 4,
            DiscordInteractionOptionType::Boolean => 5,
            DiscordInteractionOptionType::User => 6,
            DiscordInteractionOptionType::Channel => 7,
            DiscordInteractionOptionType::Role => 8,
            DiscordInteractionOptionType::Mentionable => 9,
            DiscordInteractionOptionType::Number => 10,
        }
    }

    /// The variant that a code stands for, if any.
    pub open spec fn spec_from_code(code: u8) -> Option<Self> {
        match code {
            1 => Some(DiscordInteractionOptionType::SubCommand),
            2 => Some(DiscordInteractionOptionType::SubCommandGroup),
            3 => Some(DiscordInteractionOptionType::String),
            4 => Some(DiscordInteractionOptionType::Integer),
            5 => Some(DiscordInteractionOptionType::Boolean),
            6 => Some(DiscordInteractionOptionType::User),
            7 => Some(DiscordInteractionOptionType::Channel),
            8 => Some(DiscordInteractionOptionType::Role),
            9 => Some(DiscordInteractionOptionType::Mentionable),
            10 => Some(DiscordInteractionOptionType::Number),
            _ => None,
        }
    }

    /// Sub-commands and sub-command groups: the types that hold nested options.
    pub open spec fn spec_is_container(self) -> bool {
        self == DiscordInteractionOptionType::SubCommand || self
            == DiscordInteractionOptionType::SubCommandGroup
    }

    /// The types whose value the user may pick from a list of choices, or
    /// complete as they type.
    pub open spec fn spec_takes_choices(self) -> bool {
        self == DiscordInteractionOptionType::String || self
            == DiscordInteractionOptionType::Integer || self
            == DiscordInteractionOptionType::Number
    }

    /// The types that take a numeric lower and upper bound.
    pub open spec fn spec_is_numeric(self) -> bool {
        self == DiscordInteractionOptionType::Integer || self
            == DiscordInteractionOptionType::Number
    }

    /// The wire code of this variant.
    pub fn code(self) -> (c: u8)
        ensures
            c == self.spec_code(),
    {
        match self {
            DiscordInteractionOptionType::SubCommand => 1,
            DiscordInteractionOptionType::SubCommandGroup => 2,
            DiscordInteractionOptionType::String => 3,
            DiscordInteractionOptionType::Integer => 4,
            DiscordInteractionOptionType::Boolean => 5,
            DiscordInteractionOptionType::User => 6,
            DiscordInteractionOptionType::Channel => 7,
            DiscordInteractionOptionType::Role => 8,
            DiscordInteractionOptionType::Mentionable => 9,
            DiscordInteractionOptionType::Number => 10,
        }
    }

    /// The variant with this wire code; `None` where no variant has it.
    pub fn from_code(code: u8) -> (r: Option<Self>)
        ensures
            r == Self::spec_from_code(code),
    {
        match code {
            1 => Some(DiscordInteractionOptionType::SubCommand),
            2 => Some(DiscordInteractionOptionType::SubCommandGroup),
            3 => Some(DiscordInteractionOptionType::String),
            4 => Some(DiscordInteractionOptionType::Integer),
            5 => Some(DiscordInteractionOptionType::Boolean),
            6 => Some(DiscordInteractionOptionType::User),
            7 => Some(DiscordInteractionOptionType::Channel),
            8 => Some(DiscordInteractionOptionType::Role),
            9 => Some(DiscordInteractionOptionType::Mentionable),
            10 => Some(DiscordInteractionOptionType::Number),
            _ => None,
        }
    }

    /// Whether this is the string type, which alone takes length bounds.
    pub fn is_string(self) -> (b: bool)
        ensures
            b == (self == DiscordInteractionOptionType::String),
    {
        match self {
            DiscordInteractionOptionType::String => true,
            _ => false,
        }
    }

    /// Whether this is the channel type, which alone takes channel types.
    pub fn is_channel(self) -> (b: bool)
        ensures
            b == (self == DiscordInteractionOptionType::Channel),
    {
        match self {
            DiscordInteractionOptionType::Channel => true,
            _ => false,
        }
    }

    /// Whether options of this type hold nested options.
    pub fn is_container(self) -> (b: bool)
        ensures
            b == self.spec_is_container(),
    {
        match self {
            DiscordInteractionOptionType::SubCommand => true,
            DiscordInteractionOptionType::SubCommandGroup => true,
            _ => false,
        }
    }

    /// Whether options of this type take choices and autocompletion.
    pub fn takes_choices(self) -> (b: bool)
        ensures
            b == self.spec_takes_choices(),
    {
        match self {
            DiscordInteractionOptionType::String => true,
            DiscordInteractionOptionType::Integer => true,
            DiscordInteractionOptionType::Number => true,
            _ => false,
        }
    }

    /// Whether options of this type take bounds on their value.
    pub fn is_numeric(self) -> (b: bool)
        ensures
            b == self.spec_is_numeric(),
    {
        match self {
            DiscordInteractionOptionType::Integer => true,
            DiscordInteractionOptionType::Number => true,
            _ => false,
        }
    }

    /// Decoding the code of a variant gives that variant back.
    pub proof fn lemma_round_trip(v: Self)
        ensures
            Self::spec_from_code(v.spec_code()) == Some(v),
    {
    }

    /// A code decodes only to the variant that encodes to it, so no two
    /// variants share a code and no code outside the table decodes.
    pub proof fn lemma_decode_is_inverse(code: u8, v: Self)
        ensures
            Self::spec_from_code(code) == Some(v) <==> v.spec_code() == code,
    {
    }
}

/// The type of a channel, by which a channel option narrows what it offers.
#[derive(Copy, Clone, Debug, PartialEq, Eq, Structural)]
pub enum DiscordInteractionChannelType {
    GuildText,
    DM,
    GuildVoice,
    GroupDM,
    GuildCategory,
    GuildAnnouncement,
    AnnouncementThread,
    PublicThread,
    PrivateThread,
    GuildStageVoice,
    GuildDirectory,
    GuildForum,
}

impl DiscordInteractionChannelType {
    /// The wire code of each variant.
    pub open spec fn spec_code(self) -> u8 {
        match self {
            DiscordInteractionChannelType::GuildText => 0,
            DiscordInteractionChannelType::DM => 1,
            DiscordInteractionChannelType::GuildVoice => 2,
            DiscordInteractionChannelType::GroupDM => 3,
            DiscordInteractionChannelType::GuildCategory => 4,
            DiscordInteractionChannelType::GuildAnnouncement => 5,
            DiscordInteractionChannelType::AnnouncementThread => 10,
            DiscordInteractionChannelType::PublicThread => 11,
            DiscordInteractionChannelType::PrivateThread => 12,
            DiscordInteractionChannelType::GuildStageVoice => 13,
            DiscordInteractionChannelType::GuildDirectory => 14,
            DiscordInteractionChannelType::GuildForum => 15,
        }
    }

    /// The variant that a code stands for, if any.
    pub open spec fn spec_from_code(code: u8) -> Option<Self> {
        match code {
            0 => Some(DiscordInteractionChannelType::GuildText),
            1 => Some(DiscordInteractionChannelType::DM),
            2 => Some(DiscordInteractionChannelType::GuildVoice),
            3 => Some(DiscordInteractionChannelType::GroupDM),
            4 => Some(DiscordInteractionChannelType::GuildCategory),
            5 => Some(DiscordInteractionChannelType::GuildAnnouncement),
            10 => Some(DiscordInteractionChannelType::AnnouncementThread),
            11 => Some(DiscordInteractionChannelType::PublicThread),
            12 => Some(DiscordInteractionChannelType::PrivateThread),
            13 => Some(DiscordInteractionChannelType::GuildStageVoice),
            14 => Some(DiscordInteractionChannelType::GuildDirectory),
            15 => Some(DiscordInteractionChannelType::GuildForum),
            _ => None,
        }
    }

    /// The wire code of this variant.
    pub fn code(self) -> (c: u8)
        ensures
            c == self.spec_code(),
    {
        match self {
            DiscordInteractionChannelType::GuildText => 0,
            DiscordInteractionChannelType::DM => 1,
            DiscordInteractionChannelType::GuildVoice => 2,
            DiscordInteractionChannelType::GroupDM => 3,
            DiscordInteractionChannelType::GuildCategory => 4,
            DiscordInteractionChannelType::GuildAnnouncement => 5,
            DiscordInteractionChannelType::AnnouncementThread => 10,
            DiscordInteractionChannelType::PublicThread => 11,
            DiscordInteractionChannelType::PrivateThread => 12,
            DiscordInteractionChannelType::GuildStageVoice => 13,
            DiscordInteractionChannelType::GuildDirectory => 14,
            DiscordInteractionChannelType::GuildForum => 15,
        }
    }

    /// The variant with this wire code; `None` where no variant has it.
    pub fn from_code(code: u8) -> (r: Option<Self>)
        ensures
            r == Self::spec_from_code(code),
    {
        match code {
            0 => Some(DiscordInteractionChannelType::GuildText),
            1 => Some(DiscordInteractionChannelType::DM),
            2 => Some(DiscordInteractionChannelType::GuildVoice),
            3 => Some(DiscordInteractionChannelType::GroupDM),
            4 => Some(DiscordInteractionChannelType::GuildCategory),
            5 => Some(DiscordInteractionChannelType::GuildAnnouncement),
            10 => Some(DiscordInteractionChannelType::AnnouncementThread),
            11 => Some(DiscordInteractionChannelType::PublicThread),
            12 => Some(DiscordInteractionChannelType::PrivateThread),
            13 => Some(DiscordInteractionChannelType::GuildStageVoice),
            14 => Some(DiscordInteractionChannelType::GuildDirectory),
            15 => Some(DiscordInteractionChannelType::GuildForum),
            _ => None,
        }
    }

    /// Decoding the code of a variant gives that variant back.
    pub proof fn lemma_round_trip(v: Self)
        ensures
            Self::spec_from_code(v.spec_code()) == Some(v),
    {
    }

    /// A code decodes only to the variant that encodes to it, so no two
    /// variants share a code and no code outside the table decodes.
    pub proof fn lemma_decode_is_inverse(code: u8, v: Self)
        ensures
            Self::spec_from_code(code) == Some(v) <==> v.spec_code() == code,
    {
    }
}

/// The kind of an application command.
#[derive(Copy, Clone, Debug, PartialEq, Eq, Structural)]
pub enum DiscordInteractionType {
    /// A slash command: text-based, shown when a user types `/`.
    ChatInput,
    /// A command in the context menu of a user.
    User,
    /// A command in the context menu of a message.
    Message,
}

impl DiscordInteractionType {
    /// The wire code of each variant.
    pub open spec fn spec_code(self) -> u8 {
        match self {
            DiscordInteractionType::ChatInput => 1,
            DiscordInteractionType::User => 2,
            DiscordInteractionType::Message => 3,
        }
    }

    /// The variant that a code stands for, if any.
    pub open spec fn spec_from_code(code: u8) -> Option<Self> {
        match code {
            1 => Some(DiscordInteractionType::ChatInput),
            2 => Some(DiscordInteractionType::User),
            3 => Some(DiscordInteractionType::Message),
            _ => None,
        }
    }

    /// The wire code of this variant.
    pub fn code(self) -> (c: u8)
        ensures
            c == self.spec_code(),
    {
        match self {
            DiscordInteractionType::ChatInput => 1,
            DiscordInteractionType::User => 2,
            DiscordInteractionType::Message => 3,
        }
    }

    /// The variant with this wire code; `None` where no variant has it.
    pub fn from_code(code: u8) -> (r: Option<Self>)
        ensures
            r == Self::spec_from_code(code),
    {
        match code {
            1 => Some(DiscordInteractionType::ChatInput),
            2 => Some(DiscordInteractionType::User),
            3 => Some(DiscordInteractionType::Message),
            _ => None,
        }
    }

    /// Decoding the code of a variant gives that variant back.
    pub proof fn lemma_round_trip(v: Self)
        ensures
            Self::spec_from_code(v.spec_code()) == Some(v),
    {
    }

    /// A code decodes only to the variant that encodes to it, so no two
    /// variants share a code and no code outside the table decodes.
    pub proof fn lemma_decode_is_inverse(code: u8, v: Self)
        ensures
            Self::spec_from_code(code) == Some(v) <==> v.spec_code() == code,
    {
    }
}

} // verus!
