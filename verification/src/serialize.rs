//! The JSON form of a command.
//!
//! `json` says, field by field, what text stands for a value: the members of
//! an object come in the order of the fields, an absent field gives no member,
//! an enumerated value gives its code, a list gives an array in its own order.
//! `base_command_to_json` writes exactly that text. It does not validate.

use crate::encode::{encode_string, json_string};
use crate::error::SerializationError;
use crate::localization::LocalizationMap;
use crate::model::{
    ChoiceValue,
    DiscordInteraction,
    DiscordInteractionChoice,
    DiscordInteractionOption,
};
use crate::number::Number;
use crate::registry::{DiscordInteractionChannelType, DiscordInteractionType};
use crate::text::{
    array_string,
    bool_string,
    decimal,
    decimal_string,
    json_array,
    json_bool,
    json_member,
    json_object,
    member_string,
    object_string,
    signed_decimal,
    signed_decimal_string,
    views,
};
use vstd::prelude::*;

verus! {

/// One entry of a dictionary: the key and the text, both as string literals.
pub open spec fn json_entry(key: Seq<char>, text: Seq<char>) -> Seq<char> {
    json_string(key) + seq![':'] + json_string(text)
}

/// A dictionary as an object, its entries in their order.
pub open spec fn localization_json(map: LocalizationMap) -> Seq<char> {
    json_object(
        Seq::new(
            map.spec_entries().len(),
            |i: int| json_entry(map.spec_entries()[i].0, map.spec_entries()[i].1),
        ),
    )
}

/// The value of a choice: a string literal, an integer in decimal, or a
/// number by its spelling.
pub open spec fn choice_value_json(value: ChoiceValue) -> Seq<char> {
    match value {
        ChoiceValue::Str(s) => json_string(s@),
        ChoiceValue::Int(i) => signed_decimal(i as int),
        ChoiceValue::Float(n) => n.spec_text(),
    }
}

/// A choice as an object of its name and its value.
pub open spec fn choice_json(choice: DiscordInteractionChoice) -> Seq<char> {
    json_object(
        seq![
            json_member("name"@, json_string(choice.name@)),
            json_member("value"@, choice_value_json(choice.value)),
        ],
    )
}

/// Choices as an array.
pub open spec fn choices_json(choices: Seq<DiscordInteractionChoice>) -> Seq<char> {
    json_array(Seq::new(choices.len(), |j: int| choice_json(choices[j])))
}

/// Channel types as an array of their codes.
pub open spec fn channel_types_json(types: Seq<DiscordInteractionChannelType>) -> Seq<char> {
    json_array(Seq::new(types.len(), |i: int| decimal(types[i].spec_code() as nat)))
}

/// The member for an optional dictionary: none where it is absent.
pub open spec fn localization_member(key: Seq<char>, map: Option<LocalizationMap>) -> Seq<
    Seq<char>,
> {
    match map {
        Some(m) => seq![json_member(key, localization_json(m))],
        None => Seq::empty(),
    }
}

/// The member for an optional string: none where it is absent.
pub open spec fn string_member(key: Seq<char>, value: Option<String>) -> Seq<Seq<char>> {
    match value {
        Some(s) => seq![json_member(key, json_string(s@))],
        None => Seq::empty(),
    }
}

/// The member for an optional boolean: none where it is absent.
pub open spec fn bool_member(key: Seq<char>, value: Option<bool>) -> Seq<Seq<char>> {
    match value {
        Some(b) => seq![json_member(key, json_bool(b))],
        None => Seq::empty(),
    }
}

/// The member for an optional number: none where it is absent.
pub open spec fn number_member(key: Seq<char>, value: Option<Number>) -> Seq<Seq<char>> {
    match value {
        Some(n) => seq![json_member(key, n.spec_text())],
        None => Seq::empty(),
    }
}

/// The member for an optional length: none where it is absent.
pub open spec fn length_member(key: Seq<char>, value: Option<u32>) -> Seq<Seq<char>> {
    match value {
        Some(n) => seq![json_member(key, decimal(n as nat))],
        None => Seq::empty(),
    }
}

/// The member for an optional list of choices: none where it is absent.
pub open spec fn choices_member(value: Option<Vec<DiscordInteractionChoice>>) -> Seq<Seq<char>> {
    match value {
        Some(choices) => seq![json_member("choices"@, choices_json(choices@))],
        None => Seq::empty(),
    }
}

/// The member for an optional list of channel types: none where it is absent.
pub open spec fn channel_types_member(value: Option<Vec<DiscordInteractionChannelType>>) -> Seq<
    Seq<char>,
> {
    match value {
        Some(types) => seq![json_member("channel_types"@, channel_types_json(types@))],
        None => Seq::empty(),
    }
}

/// The member for the kind of a command: none where it is absent.
pub open spec fn kind_member(value: Option<DiscordInteractionType>) -> Seq<Seq<char>> {
    match value {
        Some(kind) => seq![json_member("type"@, decimal(kind.spec_code() as nat))],
        None => Seq::empty(),
    }
}

/// The JSON forms of options, in order.
pub open spec fn option_texts(options: Vec<DiscordInteractionOption>) -> Seq<Seq<char>>
    decreases options, 0nat,
{
    Seq::new(
        options.len() as nat,
        |i: int|
            if 0 <= i < options.len() {
                options[i].json()
            } else {
                Seq::empty()
            },
    )
}

/// Options as an array.
pub open spec fn options_json(options: Vec<DiscordInteractionOption>) -> Seq<char>
    decreases options, 1nat,
{
    json_array(option_texts(options))
}

/// The member for an optional list of options: none where it is absent.
pub open spec fn options_member(value: Option<Vec<DiscordInteractionOption>>) -> Seq<Seq<char>>
    decreases value, 2nat,
{
    match value {
        Some(options) => seq![json_member("options"@, options_json(options))],
        None => Seq::empty(),
    }
}

impl DiscordInteractionOption {
    /// The members of the option's object.
    pub open spec fn members(self) -> Seq<Seq<char>>
        decreases self, 0nat,
    {
        Seq::<Seq<char>>::empty() + seq![
            json_member("type"@, decimal(self.option_type.spec_code() as nat)),
        ] + seq![json_member("name"@, json_string(self.name@))] + localization_member(
            "name_localizations"@,
            self.name_localizations,
        ) + seq![json_member("description"@, json_string(self.description@))]
            + localization_member("description_localizations"@, self.description_localizations)
            + bool_member("required"@, self.required) + choices_member(self.choices)
            + options_member(self.options) + channel_types_member(self.channel_types)
            + number_member("min_value"@, self.min_value) + number_member(
            "max_value"@,
            self.max_value,
        ) + length_member("min_length"@, self.min_length) + length_member(
            "max_length"@,
            self.max_length,
        ) + bool_member("autocomplete"@, self.autocomplete)
    }

    /// The JSON form of the option.
    pub open spec fn json(self) -> Seq<char>
        decreases self, 1nat,
    {
        json_object(self.members())
    }
}

impl DiscordInteraction {
    /// The members of the command's object.
    pub open spec fn members(self) -> Seq<Seq<char>> {
        Seq::<Seq<char>>::empty() + seq![json_member("name"@, json_string(self.name@))]
            + localization_member("name_localizations"@, self.name_localizations) + string_member(
            "description"@,
            self.description,
        ) + localization_member("description_localizations"@, self.description_localizations)
            + options_member(self.options) + string_member(
            "default_member_permissions"@,
            self.default_member_permissions,
        ) + bool_member("dm_permission"@, self.dm_permission) + seq![
            json_member("default_permission"@, json_bool(self.default_permission)),
        ] + kind_member(self.interaction_type) + seq![
            json_member("nsfw"@, json_bool(self.nsfw)),
        ]
    }

    /// The JSON form of the command.
    pub open spec fn json(self) -> Seq<char> {
        json_object(self.members())
    }
}

/// An option with none of its optional fields set is written as an object of
/// its type, name and description, and nothing else.
pub proof fn lemma_bare_option_json(option: DiscordInteractionOption)
    requires
        option.name_localizations is None,
        option.description_localizations is None,
        option.required is None,
        option.choices is None,
        option.options is None,
        option.channel_types is None,
        option.min_value is None,
        option.max_value is None,
        option.min_length is None,
        option.max_length is None,
        option.autocomplete is None,
    ensures
        option.json() == json_object(
            seq![
                json_member("type"@, decimal(option.option_type.spec_code() as nat)),
                json_member("name"@, json_string(option.name@)),
                json_member("description"@, json_string(option.description@)),
            ],
        ),
{
    assert(option.members() =~= seq![
        json_member("type"@, decimal(option.option_type.spec_code() as nat)),
        json_member("name"@, json_string(option.name@)),
        json_member("description"@, json_string(option.description@)),
    ]);
}

/// A command with none of its optional fields set is written as an object of
/// its name and the two flags that are always there, and nothing else.
pub proof fn lemma_bare_command_json(command: DiscordInteraction)
    requires
        command.name_localizations is None,
        command.description is None,
        command.description_localizations is None,
        command.options is None,
        command.default_member_permissions is None,
        command.dm_permission is None,
        command.interaction_type is None,
    ensures
        command.json() == json_object(
            seq![
                json_member("name"@, json_string(command.name@)),
                json_member("default_permission"@, json_bool(command.default_permission)),
                json_member("nsfw"@, json_bool(command.nsfw)),
            ],
        ),
{
    assert(command.members() =~= seq![
        json_member("name"@, json_string(command.name@)),
        json_member("default_permission"@, json_bool(command.default_permission)),
        json_member("nsfw"@, json_bool(command.nsfw)),
    ]);
}

/// Writes a string literal.
fn string_literal(s: &str) -> (r: Result<String, SerializationError>)
    ensures
        r is Ok,
        r->Ok_0@ == json_string(s@),
{
    match encode_string(s) {
        Ok(text) => Ok(text),
        Err(e) => Err(SerializationError::from_encoder(e)),
    }
}

/// Adds a member to the members of an object.
fn push_member(members: &mut Vec<String>, key: &str, value: &str)
    ensures
        views(final(members)@) == views(old(members)@) + seq![json_member(key@, value@)],
{
    members.push(member_string(key, value));
    assert(views(members@) =~= views(old(members)@) + seq![json_member(key@, value@)]);
}

/// Notes that an absent field adds nothing.
proof fn lemma_nothing_added(members: Seq<Seq<char>>)
    ensures
        members + Seq::<Seq<char>>::empty() == members,
{
    assert(members + Seq::<Seq<char>>::empty() =~= members);
}

fn localization_string(map: &LocalizationMap) -> (r: Result<String, SerializationError>)
    ensures
        r is Ok,
        r->Ok_0@ == localization_json(*map),
{
    let mut entries: Vec<String> = Vec::new();
    let mut i: usize = 0;
    let n: usize = map.len();
    while i < n
        invariant
            0 <= i <= n,
            n == map.spec_entries().len(),
            entries@.len() == i,
            forall|k: int|
                0 <= k < i ==> (#[trigger] entries@[k])@ == json_entry(
                    map.spec_entries()[k].0,
                    map.spec_entries()[k].1,
                ),
        decreases n - i,
    {
        let key = string_literal(map.locale(i))?;
        let text = string_literal(map.text(i))?;
        proof {
            reveal_strlit(":");
        }
        let entry = key.concat(":").concat(text.as_str());
        assert(entry@ =~= json_entry(map.spec_entries()[i as int].0, map.spec_entries()[i as int].1));
        entries.push(entry);
        i = i + 1;
    }
    let r = object_string(&entries);
    proof {
        assert(views(entries@) =~= Seq::new(
            map.spec_entries().len(),
            |i: int| json_entry(map.spec_entries()[i].0, map.spec_entries()[i].1),
        ));
    }
    Ok(r)
}

fn choice_string(choice: &DiscordInteractionChoice) -> (r: Result<String, SerializationError>)
    ensures
        r is Ok,
        r->Ok_0@ == choice_json(*choice),
{
    let name = string_literal(choice.name.as_str())?;
    let value = match &choice.value {
        ChoiceValue::Str(s) => string_literal(s.as_str())?,
        ChoiceValue::Int(i) => signed_decimal_string(*i as i64),
        ChoiceValue::Float(n) => String::from_str(n.text()),
    };
    let mut members: Vec<String> = Vec::new();
    members.push(member_string("name", name.as_str()));
    members.push(member_string("value", value.as_str()));
    let r = object_string(&members);
    proof {
        assert(views(members@) =~= seq![
            json_member("name"@, json_string(choice.name@)),
            json_member("value"@, choice_value_json(choice.value)),
        ]);
    }
    Ok(r)
}

fn choices_string(choices: &Vec<DiscordInteractionChoice>) -> (r: Result<
    String,
    SerializationError,
>)
    ensures
        r is Ok,
        r->Ok_0@ == choices_json(choices@),
{
    let mut elements: Vec<String> = Vec::new();
    let mut j: usize = 0;
    while j < choices.len()
        invariant
            0 <= j <= choices.len(),
            elements@.len() == j,
            forall|k: int| 0 <= k < j ==> (#[trigger] elements@[k])@ == choice_json(choices@[k]),
        decreases choices.len() - j,
    {
        let element = choice_string(&choices[j])?;
        elements.push(element);
        j = j + 1;
    }
    let r = array_string(&elements);
    proof {
        assert(views(elements@) =~= Seq::new(choices@.len(), |j: int| choice_json(choices@[j])));
    }
    Ok(r)
}

fn channel_types_string(types: &Vec<DiscordInteractionChannelType>) -> (r: String)
    ensures
        r@ == channel_types_json(types@),
{
    let mut elements: Vec<String> = Vec::new();
    let mut i: usize = 0;
    while i < types.len()
        invariant
            0 <= i <= types.len(),
            elements@.len() == i,
            forall|k: int|
                0 <= k < i ==> (#[trigger] elements@[k])@ == decimal(
                    types@[k].spec_code() as nat,
                ),
        decreases types.len() - i,
    {
        elements.push(decimal_string(types[i].code() as u64));
        i = i + 1;
    }
    let r = array_string(&elements);
    proof {
        assert(views(elements@) =~= Seq::new(
            types@.len(),
            |i: int| decimal(types@[i].spec_code() as nat),
        ));
    }
    r
}

fn push_localization(members: &mut Vec<String>, key: &str, map: &Option<LocalizationMap>) -> (r:
    Result<(), SerializationError>)
    ensures
        r is Ok,
        views(final(members)@) == views(old(members)@) + localization_member(key@, *map),
{
    match map {
        Some(m) => {
            let value = localization_string(m)?;
            push_member(members, key, value.as_str());
        },
        None => {
            proof {
                lemma_nothing_added(views(members@));
            }
        },
    }
    Ok(())
}

fn push_string(members: &mut Vec<String>, key: &str, value: &Option<String>) -> (r: Result<
    (),
    SerializationError,
>)
    ensures
        r is Ok,
        views(final(members)@) == views(old(members)@) + string_member(key@, *value),
{
    match value {
        Some(s) => {
            let value = string_literal(s.as_str())?;
            push_member(members, key, value.as_str());
        },
        None => {
            proof {
                lemma_nothing_added(views(members@));
            }
        },
    }
    Ok(())
}

fn push_bool(members: &mut Vec<String>, key: &str, value: &Option<bool>)
    ensures
        views(final(members)@) == views(old(members)@) + bool_member(key@, *value),
{
    match value {
        Some(b) => {
            push_member(members, key, bool_string(*b).as_str());
        },
        None => {
            proof {
                lemma_nothing_added(views(members@));
            }
        },
    }
}

fn push_number(members: &mut Vec<String>, key: &str, value: &Option<Number>)
    ensures
        views(final(members)@) == views(old(members)@) + number_member(key@, *value),
{
    match value {
        Some(n) => {
            push_member(members, key, n.text());
        },
        None => {
            proof {
                lemma_nothing_added(views(members@));
            }
        },
    }
}

fn push_length(members: &mut Vec<String>, key: &str, value: &Option<u32>)
    ensures
        views(final(members)@) == views(old(members)@) + length_member(key@, *value),
{
    match value {
        Some(n) => {
            push_member(members, key, decimal_string(*n as u64).as_str());
        },
        None => {
            proof {
                lemma_nothing_added(views(members@));
            }
        },
    }
}

fn push_choices(members: &mut Vec<String>, value: &Option<Vec<DiscordInteractionChoice>>) -> (r:
    Result<(), SerializationError>)
    ensures
        r is Ok,
        views(final(members)@) == views(old(members)@) + choices_member(*value),
{
    match value {
        Some(choices) => {
            let text = choices_string(choices)?;
            push_member(members, "choices", text.as_str());
        },
        None => {
            proof {
                lemma_nothing_added(views(members@));
            }
        },
    }
    Ok(())
}

fn push_channel_types(
    members: &mut Vec<String>,
    value: &Option<Vec<DiscordInteractionChannelType>>,
)
    ensures
        views(final(members)@) == views(old(members)@) + channel_types_member(*value),
{
    match value {
        Some(types) => {
            push_member(members, "channel_types", channel_types_string(types).as_str());
        },
        None => {
            proof {
                lemma_nothing_added(views(members@));
            }
        },
    }
}

fn push_kind(members: &mut Vec<String>, value: &Option<DiscordInteractionType>)
    ensures
        views(final(members)@) == views(old(members)@) + kind_member(*value),
{
    match value {
        Some(kind) => {
            push_member(members, "type", decimal_string(kind.code() as u64).as_str());
        },
        None => {
            proof {
                lemma_nothing_added(views(members@));
            }
        },
    }
}

fn options_string(options: &Vec<DiscordInteractionOption>) -> (r: Result<
    String,
    SerializationError,
>)
    ensures
        r is Ok,
        r->Ok_0@ == options_json(*options),
    decreases options, 0nat,
{
    let mut elements: Vec<String> = Vec::new();
    let mut i: usize = 0;
    while i < options.len()
        invariant
            0 <= i <= options.len(),
            elements@.len() == i,
            forall|k: int| 0 <= k < i ==> (#[trigger] elements@[k])@ == options[k].json(),
        decreases options.len() - i,
    {
        let element = options[i].to_json()?;
        elements.push(element);
        i = i + 1;
    }
    let r = array_string(&elements);
    proof {
        assert(views(elements@) =~= option_texts(*options));
    }
    Ok(r)
}

fn push_options(members: &mut Vec<String>, value: &Option<Vec<DiscordInteractionOption>>) -> (r:
    Result<(), SerializationError>)
    ensures
        r is Ok,
        views(final(members)@) == views(old(members)@) + options_member(*value),
    decreases value, 1nat,
{
    match value {
        Some(options) => {
            let text = options_string(options)?;
            push_member(members, "options", text.as_str());
        },
        None => {
            proof {
                lemma_nothing_added(views(members@));
            }
        },
    }
    Ok(())
}

impl DiscordInteractionOption {
    /// Writes the option as JSON.
    pub fn to_json(&self) -> (r: Result<String, SerializationError>)
        ensures
            r is Ok,
            r->Ok_0@ == self.json(),
        decreases self, 2nat,
    {
        let mut members: Vec<String> = Vec::new();
        assert(views(members@) =~= Seq::<Seq<char>>::empty());
        push_member(
            &mut members,
            "type",
            decimal_string(self.option_type.code() as u64).as_str(),
        );
        push_member(&mut members, "name", string_literal(self.name.as_str())?.as_str());
        push_localization(&mut members, "name_localizations", &self.name_localizations)?;
        push_member(
            &mut members,
            "description",
            string_literal(self.description.as_str())?.as_str(),
        );
        push_localization(
            &mut members,
            "description_localizations",
            &self.description_localizations,
        )?;
        push_bool(&mut members, "required", &self.required);
        push_choices(&mut members, &self.choices)?;
        push_options(&mut members, &self.options)?;
        push_channel_types(&mut members, &self.channel_types);
        push_number(&mut members, "min_value", &self.min_value);
        push_number(&mut members, "max_value", &self.max_value);
        push_length(&mut members, "min_length", &self.min_length);
        push_length(&mut members, "max_length", &self.max_length);
        push_bool(&mut members, "autocomplete", &self.autocomplete);
        Ok(object_string(&members))
    }
}

/// Writes a command as JSON, for the registration endpoint: the text that
/// `json` states, whether or not the command is valid.
pub fn base_command_to_json(base_command: &DiscordInteraction) -> (r: Result<
    String,
    SerializationError,
>)
    ensures
        r is Ok,
        r->Ok_0@ == base_command.json(),
{
    let mut members: Vec<String> = Vec::new();
    assert(views(members@) =~= Seq::<Seq<char>>::empty());
    push_member(&mut members, "name", string_literal(base_command.name.as_str())?.as_str());
    push_localization(&mut members, "name_localizations", &base_command.name_localizations)?;
    push_string(&mut members, "description", &base_command.description)?;
    push_localization(
        &mut members,
        "description_localizations",
        &base_command.description_localizations,
    )?;
    push_options(&mut members, &base_command.options)?;
    push_string(
        &mut members,
        "default_member_permissions",
        &base_command.default_member_permissions,
    )?;
    push_bool(&mut members, "dm_permission", &base_command.dm_permission);
    push_member(
        &mut members,
        "default_permission",
        bool_string(base_command.default_permission).as_str(),
    );
    push_kind(&mut members, &base_command.interaction_type);
    push_member(&mut members, "nsfw", bool_string(base_command.nsfw).as_str());
    Ok(object_string(&members))
}

} // verus!
