use discord_commands::{
    DiscordInteractionChannelType, DiscordInteractionOptionType, DiscordInteractionType,
};

fn option_types() -> Vec<(DiscordInteractionOptionType, u8)> {
    vec![
        (DiscordInteractionOptionType::SubCommand, 1),
        (DiscordInteractionOptionType::SubCommandGroup, 2),
        (DiscordInteractionOptionType::String, 3),
        (DiscordInteractionOptionType::Integer, 4),
        (DiscordInteractionOptionType::Boolean, 5),
        (DiscordInteractionOptionType::User, 6),
        (DiscordInteractionOptionType::Channel, 7),
        (DiscordInteractionOptionType::Role, 8),
        (DiscordInteractionOptionType::Mentionable, 9),
        (DiscordInteractionOptionType::Number, 10),
    ]
}

fn channel_types() -> Vec<(DiscordInteractionChannelType, u8)> {
    vec![
        (DiscordInteractionChannelType::GuildText, 0),
        (DiscordInteractionChannelType::DM, 1),
        (DiscordInteractionChannelType::GuildVoice, 2),
        (DiscordInteractionChannelType::GroupDM, 3),
        (DiscordInteractionChannelType::GuildCategory, 4),
        (DiscordInteractionChannelType::GuildAnnouncement, 5),
        (DiscordInteractionChannelType::AnnouncementThread, 10),
        (DiscordInteractionChannelType::PublicThread, 11),
        (DiscordInteractionChannelType::PrivateThread, 12),
        (DiscordInteractionChannelType::GuildStageVoice, 13),
        (DiscordInteractionChannelType::GuildDirectory, 14),
        (DiscordInteractionChannelType::GuildForum, 15),
    ]
}

fn interaction_types() -> Vec<(DiscordInteractionType, u8)> {
    vec![
        (DiscordInteractionType::ChatInput, 1),
        (DiscordInteractionType::User, 2),
        (DiscordInteractionType::Message, 3),
    ]
}

#[test]
fn option_type_codes_are_the_documented_ones() {
    for (variant, code) in option_types() {
        assert_eq!(variant.code(), code);
    }
}

#[test]
fn option_type_round_trip() {
    for (variant, code) in option_types() {
        assert_eq!(DiscordInteractionOptionType::from_code(variant.code()), Some(variant));
        assert_eq!(DiscordInteractionOptionType::from_code(code), Some(variant));
    }
}

#[test]
fn option_type_unknown_codes_do_not_decode() {
    assert_eq!(DiscordInteractionOptionType::from_code(0), None);
    for code in 11..=255u8 {
        assert_eq!(DiscordInteractionOptionType::from_code(code), None);
    }
}

#[test]
fn channel_type_codes_are_the_documented_ones() {
    for (variant, code) in channel_types() {
        assert_eq!(variant.code(), code);
    }
}

#[test]
fn channel_type_round_trip() {
    for (variant, code) in channel_types() {
        assert_eq!(DiscordInteractionChannelType::from_code(variant.code()), Some(variant));
        assert_eq!(DiscordInteractionChannelType::from_code(code), Some(variant));
    }
}

#[test]
fn channel_type_unknown_codes_do_not_decode() {
    for code in 6..=9u8 {
        assert_eq!(DiscordInteractionChannelType::from_code(code), None);
    }
    for code in 16..=255u8 {
        assert_eq!(DiscordInteractionChannelType::from_code(code), None);
    }
}

#[test]
fn interaction_type_codes_are_the_documented_ones() {
    for (variant, code) in interaction_types() {
        assert_eq!(variant.code(), code);
    }
}

#[test]
fn interaction_type_round_trip() {
    for (variant, code) in interaction_types() {
        assert_eq!(DiscordInteractionType::from_code(variant.code()), Some(variant));
        assert_eq!(DiscordInteractionType::from_code(code), Some(variant));
    }
}

#[test]
fn interaction_type_unknown_codes_do_not_decode() {
    assert_eq!(DiscordInteractionType::from_code(0), None);
    for code in 4..=255u8 {
        assert_eq!(DiscordInteractionType::from_code(code), None);
    }
}

#[test]
fn every_code_decodes_to_the_variant_that_encodes_to_it() {
    for code in 0..=255u8 {
        if let Some(v) = DiscordInteractionOptionType::from_code(code) {
            assert_eq!(v.code(), code);
        }
        if let Some(v) = DiscordInteractionChannelType::from_code(code) {
            assert_eq!(v.code(), code);
        }
        if let Some(v) = DiscordInteractionType::from_code(code) {
            assert_eq!(v.code(), code);
        }
    }
}

#[test]
fn option_type_classes() {
    for (variant, code) in option_types() {
        assert_eq!(variant.is_container(), code == 1 || code == 2);
        assert_eq!(variant.takes_choices(), code == 3 || code == 4 || code == 10);
        assert_eq!(variant.is_numeric(), code == 4 || code == 10);
        assert_eq!(variant.is_string(), code == 3);
        assert_eq!(variant.is_channel(), code == 7);
    }
}
