use discord_commands::{
    ChoiceKind, ChoiceValue, DiscordInteraction, DiscordInteractionChannelType,
    DiscordInteractionChoice, DiscordInteractionOption, DiscordInteractionOptionType,
    DiscordInteractionType, Field, Number, OwnerType, ValidationError, ValidationErrorKind,
};

fn number(x: f64) -> Number {
    Number::new(serde_json::to_string(&x).unwrap()).unwrap()
}

fn option(option_type: DiscordInteractionOptionType, name: &str) -> DiscordInteractionOption {
    DiscordInteractionOption {
        option_type,
        name: name.to_string(),
        name_localizations: None,
        description: "An option".to_string(),
        description_localizations: None,
        required: None,
        choices: None,
        options: None,
        channel_types: None,
        min_value: None,
        max_value: None,
        min_length: None,
        max_length: None,
        autocomplete: None,
    }
}

fn command(name: &str) -> DiscordInteraction {
    DiscordInteraction {
        name: name.to_string(),
        name_localizations: None,
        description: Some("A command".to_string()),
        description_localizations: None,
        options: None,
        default_member_permissions: None,
        dm_permission: None,
        default_permission: true,
        interaction_type: None,
        nsfw: false,
    }
}

fn choice(name: &str, value: ChoiceValue) -> DiscordInteractionChoice {
    DiscordInteractionChoice { name: name.to_string(), value }
}

fn error(path: &str, kind: ValidationErrorKind) -> Result<(), ValidationError> {
    Err(ValidationError { path: path.to_string(), kind })
}

fn not_applicable(field: Field, t: DiscordInteractionOptionType) -> ValidationErrorKind {
    ValidationErrorKind::FieldNotApplicableForType { field, owner: OwnerType::Option(t) }
}

fn length(field: Field, actual: usize, min: usize, max: usize) -> ValidationErrorKind {
    ValidationErrorKind::LengthOutOfRange { field, actual, min, max }
}

#[test]
fn ping_command_is_valid() {
    let mut c = command("ping");
    c.description = Some("Replies with pong".to_string());
    assert_eq!(c.validate(), Ok(()));
}

#[test]
fn command_name_length_bounds() {
    assert_eq!(command("").validate(), error("name", length(Field::Name, 0, 1, 32)));
    assert_eq!(command("a").validate(), Ok(()));
    assert_eq!(command(&"a".repeat(32)).validate(), Ok(()));
    assert_eq!(
        command(&"a".repeat(33)).validate(),
        error("name", length(Field::Name, 33, 1, 32))
    );
}

#[test]
fn lengths_count_characters_not_bytes() {
    assert_eq!(command(&"\u{e9}".repeat(32)).validate(), Ok(()));
    assert_eq!(
        command(&"\u{e9}".repeat(33)).validate(),
        error("name", length(Field::Name, 33, 1, 32))
    );
}

#[test]
fn chat_input_command_needs_a_description() {
    let mut c = command("ping");
    c.description = None;
    assert_eq!(c.validate(), error("description", length(Field::Description, 0, 1, 100)));
    c.description = Some(String::new());
    assert_eq!(c.validate(), error("description", length(Field::Description, 0, 1, 100)));
    c.description = Some("d".repeat(100));
    assert_eq!(c.validate(), Ok(()));
    c.description = Some("d".repeat(101));
    assert_eq!(c.validate(), error("description", length(Field::Description, 101, 1, 100)));
    c.interaction_type = Some(DiscordInteractionType::ChatInput);
    assert_eq!(c.validate(), error("description", length(Field::Description, 101, 1, 100)));
}

#[test]
fn context_menu_command_takes_no_description() {
    for kind in [DiscordInteractionType::User, DiscordInteractionType::Message] {
        let mut c = command("Report");
        c.interaction_type = Some(kind);
        assert_eq!(
            c.validate(),
            error(
                "description",
                ValidationErrorKind::FieldNotApplicableForType {
                    field: Field::Description,
                    owner: OwnerType::Command(kind),
                }
            )
        );
        c.description = None;
        assert_eq!(c.validate(), Ok(()));
        c.description = Some(String::new());
        assert_eq!(c.validate(), Ok(()));
    }
}

#[test]
fn context_menu_command_takes_no_options() {
    let mut c = command("Report");
    c.interaction_type = Some(DiscordInteractionType::Message);
    c.description = None;
    c.options = Some(vec![option(DiscordInteractionOptionType::String, "reason")]);
    assert_eq!(
        c.validate(),
        error(
            "options",
            ValidationErrorKind::FieldNotApplicableForType {
                field: Field::Options,
                owner: OwnerType::Command(DiscordInteractionType::Message),
            }
        )
    );
    c.options = Some(vec![]);
    assert_eq!(c.validate(), Ok(()));
}

#[test]
fn the_first_violation_is_reported() {
    let mut c = command("");
    c.description = None;
    c.options = Some(vec![option(DiscordInteractionOptionType::String, "")]);
    assert_eq!(c.validate(), error("name", length(Field::Name, 0, 1, 32)));
    c.name = "ok".to_string();
    assert_eq!(c.validate(), error("description", length(Field::Description, 0, 1, 100)));
    c.description = Some("fine".to_string());
    assert_eq!(c.validate(), error("options[0].name", length(Field::Name, 0, 1, 32)));
}

#[test]
fn option_name_and_description_length_bounds() {
    let t = DiscordInteractionOptionType::Boolean;
    assert_eq!(option(t, "flag").validate(), Ok(()));
    assert_eq!(option(t, "").validate(), error("name", length(Field::Name, 0, 1, 32)));
    assert_eq!(
        option(t, &"n".repeat(33)).validate(),
        error("name", length(Field::Name, 33, 1, 32))
    );
    let mut o = option(t, "flag");
    o.description = String::new();
    assert_eq!(o.validate(), error("description", length(Field::Description, 0, 1, 100)));
    o.description = "d".repeat(101);
    assert_eq!(o.validate(), error("description", length(Field::Description, 101, 1, 100)));
    o.description = "d".repeat(100);
    assert_eq!(o.validate(), Ok(()));
}

#[test]
fn required_is_not_for_sub_commands() {
    for t in [DiscordInteractionOptionType::SubCommand, DiscordInteractionOptionType::SubCommandGroup]
    {
        let mut o = option(t, "sub");
        o.required = Some(false);
        assert_eq!(o.validate(), error("required", not_applicable(Field::Required, t)));
    }
    let mut o = option(DiscordInteractionOptionType::User, "who");
    o.required = Some(true);
    assert_eq!(o.validate(), Ok(()));
}

#[test]
fn choices_are_for_strings_integers_and_numbers() {
    let mut o = option(DiscordInteractionOptionType::Boolean, "flag");
    o.choices = Some(vec![]);
    assert_eq!(
        o.validate(),
        error("choices", not_applicable(Field::Choices, DiscordInteractionOptionType::Boolean))
    );
    let mut s = option(DiscordInteractionOptionType::String, "color");
    s.choices = Some(vec![choice("Red", ChoiceValue::Str("red".to_string()))]);
    assert_eq!(s.validate(), Ok(()));
    let mut i = option(DiscordInteractionOptionType::Integer, "count");
    i.choices = Some(vec![choice("One", ChoiceValue::Int(1)), choice("Two", ChoiceValue::Int(2))]);
    assert_eq!(i.validate(), Ok(()));
    let mut n = option(DiscordInteractionOptionType::Number, "ratio");
    n.choices = Some(vec![choice("Half", ChoiceValue::Float(number(0.5)))]);
    assert_eq!(n.validate(), Ok(()));
}

#[test]
fn at_most_twenty_five_choices() {
    let mut o = option(DiscordInteractionOptionType::Integer, "count");
    o.choices = Some((0..25).map(|i| choice("c", ChoiceValue::Int(i))).collect());
    assert_eq!(o.validate(), Ok(()));
    o.choices = Some((0..26).map(|i| choice("c", ChoiceValue::Int(i))).collect());
    assert_eq!(
        o.validate(),
        error("choices", ValidationErrorKind::TooManyChoices { actual: 26, max: 25 })
    );
}

#[test]
fn float_choice_on_string_option_is_a_mismatch() {
    let mut o = option(DiscordInteractionOptionType::String, "color");
    o.choices = Some(vec![choice("Pi", ChoiceValue::Float(number(3.14)))]);
    assert_eq!(
        o.validate(),
        error(
            "choices[0].value",
            ValidationErrorKind::ChoiceValueTypeMismatch {
                expected: DiscordInteractionOptionType::String,
                actual: ChoiceKind::Float,
            }
        )
    );
}

#[test]
fn choice_kinds_match_option_types() {
    let kinds = [
        (ChoiceValue::Str("a".to_string()), ChoiceKind::Str, DiscordInteractionOptionType::String),
        (ChoiceValue::Int(7), ChoiceKind::Int, DiscordInteractionOptionType::Integer),
        (ChoiceValue::Float(number(1.5)), ChoiceKind::Float, DiscordInteractionOptionType::Number),
    ];
    let types = [
        DiscordInteractionOptionType::String,
        DiscordInteractionOptionType::Integer,
        DiscordInteractionOptionType::Number,
        DiscordInteractionOptionType::Boolean,
        DiscordInteractionOptionType::SubCommand,
    ];
    for (value, kind, fitting) in kinds {
        assert_eq!(value.kind(), kind);
        let c = choice("c", value);
        for t in types {
            if t == fitting {
                assert_eq!(c.validate(t), Ok(()));
            } else {
                assert_eq!(
                    c.validate(t),
                    error(
                        "value",
                        ValidationErrorKind::ChoiceValueTypeMismatch { expected: t, actual: kind }
                    )
                );
            }
        }
    }
}

#[test]
fn the_first_mismatching_choice_is_reported() {
    let mut o = option(DiscordInteractionOptionType::Integer, "count");
    o.choices = Some(vec![
        choice("One", ChoiceValue::Int(1)),
        choice("Two", ChoiceValue::Str("2".to_string())),
        choice("Three", ChoiceValue::Float(number(3.0))),
    ]);
    assert_eq!(
        o.validate(),
        error(
            "choices[1].value",
            ValidationErrorKind::ChoiceValueTypeMismatch {
                expected: DiscordInteractionOptionType::Integer,
                actual: ChoiceKind::Str,
            }
        )
    );
}

#[test]
fn choices_and_autocomplete_exclude_each_other() {
    let mut o = option(DiscordInteractionOptionType::String, "color");
    o.choices = Some(vec![choice("Red", ChoiceValue::Str("red".to_string()))]);
    o.autocomplete = Some(true);
    assert_eq!(
        o.validate(),
        error(
            "choices",
            ValidationErrorKind::MutuallyExclusiveFields {
                first: Field::Choices,
                second: Field::Autocomplete,
            }
        )
    );
    o.autocomplete = Some(false);
    assert_eq!(o.validate(), Ok(()));
    o.autocomplete = Some(true);
    o.choices = Some(vec![]);
    assert_eq!(o.validate(), Ok(()));
    o.choices = None;
    assert_eq!(o.validate(), Ok(()));
}

#[test]
fn exclusion_is_reported_whatever_else_is_wrong() {
    let mut o = option(DiscordInteractionOptionType::String, "");
    o.description = String::new();
    o.choices = Some(vec![choice("Pi", ChoiceValue::Float(number(3.14)))]);
    o.autocomplete = Some(true);
    o.min_value = Some(number(1.0));
    assert_eq!(
        o.validate_at(5),
        error(
            "choices",
            ValidationErrorKind::MutuallyExclusiveFields {
                first: Field::Choices,
                second: Field::Autocomplete,
            }
        )
    );
}

#[test]
fn autocomplete_is_for_strings_integers_and_numbers() {
    let mut o = option(DiscordInteractionOptionType::Role, "role");
    o.autocomplete = Some(false);
    assert_eq!(
        o.validate(),
        error("autocomplete", not_applicable(Field::Autocomplete, DiscordInteractionOptionType::Role))
    );
    for t in [
        DiscordInteractionOptionType::String,
        DiscordInteractionOptionType::Integer,
        DiscordInteractionOptionType::Number,
    ] {
        let mut o = option(t, "x");
        o.autocomplete = Some(true);
        assert_eq!(o.validate(), Ok(()));
    }
}

#[test]
fn nested_options_are_for_sub_commands_and_groups() {
    let mut o = option(DiscordInteractionOptionType::String, "text");
    o.options = Some(vec![]);
    assert_eq!(
        o.validate(),
        error("options", not_applicable(Field::Options, DiscordInteractionOptionType::String))
    );
    let mut sub = option(DiscordInteractionOptionType::SubCommand, "add");
    sub.options = Some(vec![option(DiscordInteractionOptionType::String, "text")]);
    assert_eq!(sub.validate(), Ok(()));
}

#[test]
fn group_in_group_is_illegal_nesting() {
    let mut outer = option(DiscordInteractionOptionType::SubCommandGroup, "outer");
    outer.options = Some(vec![
        option(DiscordInteractionOptionType::SubCommand, "fine"),
        option(DiscordInteractionOptionType::SubCommandGroup, "inner"),
    ]);
    assert_eq!(
        outer.validate(),
        error("options[1].type", ValidationErrorKind::IllegalNesting { depth: 1 })
    );
}

#[test]
fn group_in_group_is_reported_whatever_else_is_wrong() {
    let mut outer = option(DiscordInteractionOptionType::SubCommandGroup, "");
    outer.required = Some(true);
    outer.autocomplete = Some(true);
    outer.choices = Some(vec![choice("x", ChoiceValue::Int(1))]);
    outer.options = Some(vec![
        option(DiscordInteractionOptionType::SubCommand, ""),
        option(DiscordInteractionOptionType::SubCommandGroup, "inner"),
    ]);
    assert_eq!(
        outer.validate(),
        error("options[1].type", ValidationErrorKind::IllegalNesting { depth: 1 })
    );
    assert_eq!(
        outer.validate_at(7),
        error("type", ValidationErrorKind::IllegalNesting { depth: 7 })
    );
}

#[test]
fn a_group_holds_sub_commands_only() {
    let mut group = option(DiscordInteractionOptionType::SubCommandGroup, "group");
    group.options = Some(vec![option(DiscordInteractionOptionType::String, "text")]);
    assert_eq!(
        group.validate(),
        error("options[0].type", ValidationErrorKind::IllegalNesting { depth: 1 })
    );
    group.options = Some(vec![]);
    assert_eq!(group.validate(), Ok(()));
}

#[test]
fn group_of_sub_commands_with_parameters_is_valid() {
    let mut add = option(DiscordInteractionOptionType::SubCommand, "add");
    let mut who = option(DiscordInteractionOptionType::User, "who");
    who.required = Some(true);
    add.options = Some(vec![who, option(DiscordInteractionOptionType::String, "why")]);
    let remove = option(DiscordInteractionOptionType::SubCommand, "remove");
    let mut group = option(DiscordInteractionOptionType::SubCommandGroup, "member");
    group.options = Some(vec![add, remove]);
    let mut c = command("team");
    c.options = Some(vec![group]);
    assert_eq!(c.validate(), Ok(()));
}

#[test]
fn sub_commands_nest_two_levels_at_most() {
    let mut level1 = option(DiscordInteractionOptionType::SubCommand, "b");
    level1.options = Some(vec![option(DiscordInteractionOptionType::SubCommand, "c")]);
    let mut level0 = option(DiscordInteractionOptionType::SubCommand, "a");
    level0.options = Some(vec![level1]);
    assert_eq!(
        level0.validate(),
        error("options[0].options[0].type", ValidationErrorKind::IllegalNesting { depth: 2 })
    );
    let mut c = command("deep");
    c.options = Some(vec![option(DiscordInteractionOptionType::Boolean, "flag"), level0]);
    assert_eq!(
        c.validate(),
        error("options[1].options[0].options[0].type", ValidationErrorKind::IllegalNesting { depth: 2 })
    );
}

#[test]
fn depth_is_counted_from_where_validation_starts() {
    let sub = option(DiscordInteractionOptionType::SubCommand, "sub");
    assert_eq!(sub.validate_at(0), Ok(()));
    assert_eq!(sub.validate_at(1), Ok(()));
    assert_eq!(sub.validate_at(2), error("type", ValidationErrorKind::IllegalNesting { depth: 2 }));
    let text = option(DiscordInteractionOptionType::String, "text");
    assert_eq!(text.validate_at(2), Ok(()));
}

#[test]
fn channel_types_are_for_channel_options() {
    let mut o = option(DiscordInteractionOptionType::String, "text");
    o.channel_types = Some(vec![DiscordInteractionChannelType::GuildText]);
    assert_eq!(
        o.validate(),
        error(
            "channel_types",
            not_applicable(Field::ChannelTypes, DiscordInteractionOptionType::String)
        )
    );
    let mut ch = option(DiscordInteractionOptionType::Channel, "where");
    ch.channel_types = Some(vec![
        DiscordInteractionChannelType::GuildText,
        DiscordInteractionChannelType::GuildForum,
    ]);
    assert_eq!(ch.validate(), Ok(()));
}

#[test]
fn value_bounds_are_for_integers_and_numbers() {
    let mut o = option(DiscordInteractionOptionType::String, "text");
    o.min_value = Some(number(1.0));
    assert_eq!(
        o.validate(),
        error("min_value", not_applicable(Field::MinValue, DiscordInteractionOptionType::String))
    );
    o.min_value = None;
    o.max_value = Some(number(1.0));
    assert_eq!(
        o.validate(),
        error("max_value", not_applicable(Field::MaxValue, DiscordInteractionOptionType::String))
    );
    for t in [DiscordInteractionOptionType::Integer, DiscordInteractionOptionType::Number] {
        let mut o = option(t, "n");
        o.min_value = Some(number(-1.5));
        o.max_value = Some(number(1.5));
        assert_eq!(o.validate(), Ok(()));
    }
}

#[test]
fn inverted_value_range_on_integer_option() {
    let mut o = option(DiscordInteractionOptionType::Integer, "count");
    o.min_value = Some(number(5.0));
    o.max_value = Some(number(1.0));
    let r = o.validate();
    assert_eq!(
        r,
        error(
            "min_value",
            ValidationErrorKind::NumericRangeInverted { min: number(5.0), max: number(1.0) }
        )
    );
    match r {
        Err(ValidationError { kind: ValidationErrorKind::NumericRangeInverted { min, max }, .. }) => {
            assert_eq!(min.text().parse::<f64>(), Ok(5.0));
            assert_eq!(max.text().parse::<f64>(), Ok(1.0));
        }
        _ => panic!("an inverted range was expected"),
    }
}

#[test]
fn value_range_edges() {
    let mut o = option(DiscordInteractionOptionType::Number, "n");
    o.min_value = Some(number(2.0));
    o.max_value = Some(number(2.0));
    assert_eq!(o.validate(), Ok(()));
    o.min_value = Some(number(0.0));
    o.max_value = Some(number(-0.0));
    assert_eq!(o.validate(), Ok(()));
    o.min_value = Some(number(-1.0));
    o.max_value = Some(number(-2.0));
    assert_eq!(
        o.validate(),
        error(
            "min_value",
            ValidationErrorKind::NumericRangeInverted { min: number(-1.0), max: number(-2.0) }
        )
    );
    o.max_value = None;
    assert_eq!(o.validate(), Ok(()));
}

#[test]
fn length_bounds_are_for_strings() {
    let mut o = option(DiscordInteractionOptionType::Integer, "n");
    o.min_length = Some(1);
    assert_eq!(
        o.validate(),
        error("min_length", not_applicable(Field::MinLength, DiscordInteractionOptionType::Integer))
    );
    o.min_length = None;
    o.max_length = Some(1);
    assert_eq!(
        o.validate(),
        error("max_length", not_applicable(Field::MaxLength, DiscordInteractionOptionType::Integer))
    );
}

#[test]
fn length_bounds_ranges() {
    let mut o = option(DiscordInteractionOptionType::String, "text");
    o.min_length = Some(0);
    o.max_length = Some(6000);
    assert_eq!(o.validate(), Ok(()));
    o.min_length = Some(6000);
    assert_eq!(o.validate(), Ok(()));
    o.min_length = Some(6001);
    assert_eq!(o.validate(), error("min_length", length(Field::MinLength, 6001, 0, 6000)));
    o.min_length = None;
    o.max_length = Some(0);
    assert_eq!(o.validate(), error("max_length", length(Field::MaxLength, 0, 1, 6000)));
    o.max_length = Some(6001);
    assert_eq!(o.validate(), error("max_length", length(Field::MaxLength, 6001, 1, 6000)));
    o.max_length = Some(1);
    assert_eq!(o.validate(), Ok(()));
    o.min_length = Some(10);
    o.max_length = Some(5);
    assert_eq!(o.validate(), error("min_length", length(Field::MinLength, 10, 0, 5)));
    o.min_length = Some(5);
    assert_eq!(o.validate(), Ok(()));
}

#[test]
fn paths_lead_through_lists_by_position() {
    let mut options: Vec<DiscordInteractionOption> = (0..12)
        .map(|i| option(DiscordInteractionOptionType::Boolean, &format!("flag{}", i)))
        .collect();
    options[11].name = String::new();
    let mut c = command("many");
    c.options = Some(options);
    assert_eq!(c.validate(), error("options[11].name", length(Field::Name, 0, 1, 32)));

    let mut color = option(DiscordInteractionOptionType::String, "color");
    color.choices = Some(vec![
        choice("Red", ChoiceValue::Str("red".to_string())),
        choice("One", ChoiceValue::Int(1)),
    ]);
    let mut sub = option(DiscordInteractionOptionType::SubCommand, "paint");
    sub.options = Some(vec![option(DiscordInteractionOptionType::Boolean, "now"), color]);
    let mut c = command("art");
    c.options = Some(vec![
        option(DiscordInteractionOptionType::Boolean, "a"),
        option(DiscordInteractionOptionType::Boolean, "b"),
        sub,
    ]);
    assert_eq!(
        c.validate(),
        error(
            "options[2].options[1].choices[1].value",
            ValidationErrorKind::ChoiceValueTypeMismatch {
                expected: DiscordInteractionOptionType::String,
                actual: ChoiceKind::Int,
            }
        )
    );
}

#[test]
fn validation_does_not_change_its_input() {
    let mut o = option(DiscordInteractionOptionType::Integer, "count");
    o.min_value = Some(number(5.0));
    o.max_value = Some(number(1.0));
    let mut c = command("keep");
    c.options = Some(vec![o]);
    let before = format!("{:?}", c);
    assert!(c.validate().is_err());
    assert_eq!(format!("{:?}", c), before);
}

#[test]
fn command_kind_defaults_to_chat_input() {
    let mut c = command("ping");
    assert_eq!(c.kind(), DiscordInteractionType::ChatInput);
    c.interaction_type = Some(DiscordInteractionType::User);
    assert_eq!(c.kind(), DiscordInteractionType::User);
}
