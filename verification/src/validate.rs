//! The rules that a command definition has to meet.
//!
//! Each type states its rules twice: as a predicate (`is_valid`), which says
//! what a well-formed value is, and as an ordered list of findings, of which
//! `validate` reports the first. The two are proved to agree.
//!
//! Depth counts the options around an option: 0 for an option of the command
//! itself. Sub-commands and groups may stand at depth 0 and 1 only, which caps
//! the nesting at two levels below the command.

use crate::error::{
    lemma_first_some_at,
    lemma_first_some_is_finding,
    lemma_first_some_none,
    first_some,
    nested_finding,
    reports,
    ChoiceKind,
    Field,
    OwnerType,
    ValidationError,
    ValidationErrorKind,
    Violation,
};
use crate::model::{
    ChoiceValue,
    DiscordInteraction,
    DiscordInteractionChoice,
    DiscordInteractionOption,
};
use crate::registry::{DiscordInteractionOptionType, DiscordInteractionType};
use vstd::prelude::*;
use vstd::string::*;

verus! {

/// The greatest length of a name, in characters.
pub const MAX_NAME_LENGTH: usize = 32;

/// The greatest length of a description, in characters.
pub const MAX_DESCRIPTION_LENGTH: usize = 100;

/// The greatest number of choices of one option.
pub const MAX_CHOICES: usize = 25;

/// The greatest length that a string option can ask for or allow.
pub const MAX_STRING_LENGTH: usize = 6000;

/// The depth from which on no sub-command or group may stand.
pub const MAX_CONTAINER_DEPTH: usize = 2;

/// The finding of a length rule: none where `min <= actual <= max`.
pub open spec fn length_finding(field: Field, actual: nat, min: nat, max: nat) -> Option<
    Violation,
> {
    if min <= actual <= max {
        None
    } else {
        Some(
            Violation::at(
                field,
                ValidationErrorKind::LengthOutOfRange {
                    field,
                    actual: actual as usize,
                    min: min as usize,
                    max: max as usize,
                },
            ),
        )
    }
}

/// The finding of a rule that keeps a field to some types: none where the
/// field is absent or the owner's type has it.
pub open spec fn applicability_finding(
    field: Field,
    present: bool,
    applicable: bool,
    owner: OwnerType,
) -> Option<Violation> {
    if present && !applicable {
        Some(Violation::at(field, ValidationErrorKind::FieldNotApplicableForType { field, owner }))
    } else {
        None
    }
}

/// The violation of an option that stands where its type may not: it lies at
/// the option's `type`.
pub open spec fn nesting_violation(depth: nat) -> Violation {
    Violation { path: "type"@, kind: ValidationErrorKind::IllegalNesting { depth: depth as usize } }
}

fn check_length(field: Field, actual: usize, min: usize, max: usize) -> (r: Result<
    (),
    ValidationError,
>)
    ensures
        reports(r, length_finding(field, actual as nat, min as nat, max as nat)),
{
    if min <= actual && actual <= max {
        Ok(())
    } else {
        Err(
            ValidationError::at(
                field,
                ValidationErrorKind::LengthOutOfRange { field, actual, min, max },
            ),
        )
    }
}

fn check_applicable(field: Field, present: bool, applicable: bool, owner: OwnerType) -> (r: Result<
    (),
    ValidationError,
>)
    ensures
        reports(r, applicability_finding(field, present, applicable, owner)),
{
    if present && !applicable {
        Err(
            ValidationError::at(
                field,
                ValidationErrorKind::FieldNotApplicableForType { field, owner },
            ),
        )
    } else {
        Ok(())
    }
}

fn nesting_error(depth: usize) -> (r: ValidationError)
    ensures
        r@ == nesting_violation(depth as nat),
{
    ValidationError {
        path: String::from_str("type"),
        kind: ValidationErrorKind::IllegalNesting { depth },
    }
}

impl ChoiceValue {
    /// Which of the three kinds of value this is.
    pub open spec fn spec_kind(self) -> ChoiceKind {
        match self {
            ChoiceValue::Str(_) => ChoiceKind::Str,
            ChoiceValue::Int(_) => ChoiceKind::Int,
            ChoiceValue::Float(_) => ChoiceKind::Float,
        }
    }

    /// Which of the three kinds of value this is.
    pub fn kind(&self) -> (k: ChoiceKind)
        ensures
            k == self.spec_kind(),
    {
        match self {
            ChoiceValue::Str(_) => ChoiceKind::Str,
            ChoiceValue::Int(_) => ChoiceKind::Int,
            ChoiceValue::Float(_) => ChoiceKind::Float,
        }
    }
}

impl ChoiceKind {
    /// Whether an option of type `option_type` takes values of this kind:
    /// strings for a string option, integers for an integer option, floats
    /// for a number option, and nothing else.
    pub open spec fn spec_fits(self, option_type: DiscordInteractionOptionType) -> bool {
        match option_type {
            DiscordInteractionOptionType::String => self == ChoiceKind::Str,
            DiscordInteractionOptionType::Integer => self == ChoiceKind::Int,
            DiscordInteractionOptionType::Number => self == ChoiceKind::Float,
            _ => false,
        }
    }

    /// Whether an option of type `option_type` takes values of this kind.
    pub fn fits(self, option_type: DiscordInteractionOptionType) -> (b: bool)
        ensures
            b == self.spec_fits(option_type),
    {
        match option_type {
            DiscordInteractionOptionType::String => self == ChoiceKind::Str,
            DiscordInteractionOptionType::Integer => self == ChoiceKind::Int,
            DiscordInteractionOptionType::Number => self == ChoiceKind::Float,
            _ => false,
        }
    }
}

impl DiscordInteractionChoice {
    /// A choice is valid for an option whose type takes its kind of value.
    pub open spec fn is_valid(self, option_type: DiscordInteractionOptionType) -> bool {
        self.value.spec_kind().spec_fits(option_type)
    }

    /// What is wrong with this choice of an option of type `option_type`, if
    /// anything: it lies at the choice's `value`.
    pub open spec fn first_violation(self, option_type: DiscordInteractionOptionType) -> Option<
        Violation,
    > {
        if self.is_valid(option_type) {
            None
        } else {
            Some(
                Violation {
                    path: "value"@,
                    kind: ValidationErrorKind::ChoiceValueTypeMismatch {
                        expected: option_type,
                        actual: self.value.spec_kind(),
                    },
                },
            )
        }
    }

    /// Checks this choice against the type of the option that owns it.
    pub fn validate(&self, option_type: DiscordInteractionOptionType) -> (r: Result<
        (),
        ValidationError,
    >)
        ensures
            r is Ok <==> self.is_valid(option_type),
            reports(r, self.first_violation(option_type)),
    {
        let actual = self.value.kind();
        if actual.fits(option_type) {
            Ok(())
        } else {
            Err(
                ValidationError {
                    path: String::from_str("value"),
                    kind: ValidationErrorKind::ChoiceValueTypeMismatch {
                        expected: option_type,
                        actual,
                    },
                },
            )
        }
    }
}

impl DiscordInteractionOption {
    /// The option's type, as the owner of its fields.
    pub open spec fn owner(self) -> OwnerType {
        OwnerType::Option(self.option_type)
    }

    /// The number of choices; 0 where the field is absent.
    pub open spec fn choice_count(self) -> nat {
        match self.choices {
            Some(choices) => choices.len() as nat,
            None => 0,
        }
    }

    /// The number of nested options; 0 where the field is absent.
    pub open spec fn option_count(self) -> nat {
        match self.options {
            Some(options) => options.len() as nat,
            None => 0,
        }
    }

    /// The rules on this option alone, whatever holds of the options in it.
    pub open spec fn rules_hold(self, depth: nat) -> bool {
        let t = self.option_type;
        &&& t.spec_is_container() ==> depth < MAX_CONTAINER_DEPTH
        &&& t == DiscordInteractionOptionType::SubCommandGroup ==> forall|i: int|
            0 <= i < self.option_count() ==> (#[trigger] self.options->0[i]).option_type
                == DiscordInteractionOptionType::SubCommand
        &&& !(self.choice_count() > 0 && self.autocomplete == Some(true))
        &&& 1 <= self.name@.len() <= MAX_NAME_LENGTH
        &&& 1 <= self.description@.len() <= MAX_DESCRIPTION_LENGTH
        &&& self.required is Some ==> !t.spec_is_container()
        &&& self.choices is Some ==> t.spec_takes_choices()
        &&& self.choice_count() <= MAX_CHOICES
        &&& forall|j: int|
            0 <= j < self.choice_count() ==> (#[trigger] self.choices->0[j]).is_valid(t)
        &&& self.options is Some ==> t.spec_is_container()
        &&& self.channel_types is Some ==> t == DiscordInteractionOptionType::Channel
        &&& self.min_value is Some ==> t.spec_is_numeric()
        &&& self.max_value is Some ==> t.spec_is_numeric()
        &&& self.min_value is Some && self.max_value is Some ==> self.min_value->0.spec_le(
            self.max_value->0,
        )
        &&& self.min_length is Some ==> t == DiscordInteractionOptionType::String
        &&& self.max_length is Some ==> t == DiscordInteractionOptionType::String
        &&& self.min_length is Some ==> self.min_length->0 <= MAX_STRING_LENGTH
        &&& self.max_length is Some ==> 1 <= self.max_length->0 <= MAX_STRING_LENGTH
        &&& self.min_length is Some && self.max_length is Some ==> self.min_length->0
            <= self.max_length->0
        &&& self.autocomplete is Some ==> t.spec_takes_choices()
    }

    /// An option at depth `depth` is valid where its own rules hold and every
    /// option in it is valid one level further down.
    pub open spec fn is_valid_at(self, depth: nat) -> bool
        decreases self,
    {
        &&& self.rules_hold(depth)
        &&& forall|i: int|
            0 <= i < self.option_count() ==> (#[trigger] self.options->0[i]).is_valid_at(depth + 1)
    }

    /// An option of the command itself is valid where it is valid at depth 0.
    pub open spec fn is_valid(self) -> bool {
        self.is_valid_at(0)
    }

    /// What a group finds in its member at `i`: anything but a sub-command
    /// stands there unlawfully.
    pub open spec fn member_finding(self, depth: nat, i: int) -> Option<Violation> {
        if self.option_type == DiscordInteractionOptionType::SubCommandGroup && 0 <= i
            < self.option_count() && self.options->0[i].option_type
            != DiscordInteractionOptionType::SubCommand {
            Some(nesting_violation(depth + 1).nested(Field::Options, i as nat))
        } else {
            None
        }
    }

    /// What a group finds in its members, one finding for each.
    pub open spec fn member_findings(self, depth: nat) -> Seq<Option<Violation>> {
        Seq::new(self.option_count(), |i: int| self.member_finding(depth, i))
    }

    /// What the choices have to report, each finding seen from the option.
    pub open spec fn choice_findings(self) -> Seq<Option<Violation>> {
        Seq::new(
            self.choice_count(),
            |j: int|
                nested_finding(
                    self.choices->0[j].first_violation(self.option_type),
                    Field::Choices,
                    j as nat,
                ),
        )
    }

    /// Sub-commands and groups may not stand at depth 2 or below.
    pub open spec fn depth_finding(self, depth: nat) -> Option<Violation> {
        if self.option_type.spec_is_container() && depth >= MAX_CONTAINER_DEPTH {
            Some(nesting_violation(depth))
        } else {
            None
        }
    }

    /// Choices and autocompletion exclude each other.
    pub open spec fn exclusive_finding(self) -> Option<Violation> {
        if self.choice_count() > 0 && self.autocomplete == Some(true) {
            Some(
                Violation::at(
                    Field::Choices,
                    ValidationErrorKind::MutuallyExclusiveFields {
                        first: Field::Choices,
                        second: Field::Autocomplete,
                    },
                ),
            )
        } else {
            None
        }
    }

    /// An option offers 25 choices at most.
    pub open spec fn choice_count_finding(self) -> Option<Violation> {
        if self.choice_count() > MAX_CHOICES {
            Some(
                Violation::at(
                    Field::Choices,
                    ValidationErrorKind::TooManyChoices {
                        actual: self.choice_count() as usize,
                        max: MAX_CHOICES,
                    },
                ),
            )
        } else {
            None
        }
    }

    /// Where both bounds on the value are set, the lower is at or below the
    /// upper.
    pub open spec fn value_range_finding(self) -> Option<Violation> {
        if self.min_value is Some && self.max_value is Some && !self.min_value->0.spec_le(
            self.max_value->0,
        ) {
            Some(
                Violation::at(
                    Field::MinValue,
                    ValidationErrorKind::NumericRangeInverted {
                        min: self.min_value->0,
                        max: self.max_value->0,
                    },
                ),
            )
        } else {
            None
        }
    }

    /// The least length is 6000 at most.
    pub open spec fn min_length_finding(self) -> Option<Violation> {
        match self.min_length {
            Some(min) => length_finding(Field::MinLength, min as nat, 0, MAX_STRING_LENGTH as nat),
            None => None,
        }
    }

    /// The greatest length is 1 at least and 6000 at most.
    pub open spec fn max_length_finding(self) -> Option<Violation> {
        match self.max_length {
            Some(max) => length_finding(Field::MaxLength, max as nat, 1, MAX_STRING_LENGTH as nat),
            None => None,
        }
    }

    /// Where both bounds on the length are set, the least is at or below the
    /// greatest.
    pub open spec fn length_order_finding(self) -> Option<Violation> {
        match (self.min_length, self.max_length) {
            (Some(min), Some(max)) => length_finding(Field::MinLength, min as nat, 0, max as nat),
            _ => None,
        }
    }

    /// The findings of the rules on this option alone, in the order in which
    /// they are looked for: its place in the nesting first, then the clash of
    /// choices with autocompletion, then the fields from `name` on.
    pub open spec fn own_findings(self, depth: nat) -> Seq<Option<Violation>> {
        let t = self.option_type;
        seq![
            self.depth_finding(depth),
            first_some(self.member_findings(depth)),
            self.exclusive_finding(),
            length_finding(Field::Name, self.name@.len(), 1, MAX_NAME_LENGTH as nat),
            length_finding(
                Field::Description,
                self.description@.len(),
                1,
                MAX_DESCRIPTION_LENGTH as nat,
            ),
            applicability_finding(
                Field::Required,
                self.required is Some,
                !t.spec_is_container(),
                self.owner(),
            ),
            applicability_finding(
                Field::Choices,
                self.choices is Some,
                t.spec_takes_choices(),
                self.owner(),
            ),
            self.choice_count_finding(),
            first_some(self.choice_findings()),
            applicability_finding(
                Field::Options,
                self.options is Some,
                t.spec_is_container(),
                self.owner(),
            ),
            applicability_finding(
                Field::ChannelTypes,
                self.channel_types is Some,
                t == DiscordInteractionOptionType::Channel,
                self.owner(),
            ),
            applicability_finding(
                Field::MinValue,
                self.min_value is Some,
                t.spec_is_numeric(),
                self.owner(),
            ),
            applicability_finding(
                Field::MaxValue,
                self.max_value is Some,
                t.spec_is_numeric(),
                self.owner(),
            ),
            self.value_range_finding(),
            applicability_finding(
                Field::MinLength,
                self.min_length is Some,
                t == DiscordInteractionOptionType::String,
                self.owner(),
            ),
            applicability_finding(
                Field::MaxLength,
                self.max_length is Some,
                t == DiscordInteractionOptionType::String,
                self.owner(),
            ),
            self.min_length_finding(),
            self.max_length_finding(),
            self.length_order_finding(),
            applicability_finding(
                Field::Autocomplete,
                self.autocomplete is Some,
                t.spec_takes_choices(),
                self.owner(),
            ),
        ]
    }

    /// What the options in this one have to report, each finding seen from
    /// here.
    pub open spec fn nested_findings(self, depth: nat) -> Seq<Option<Violation>>
        decreases self, 0nat,
    {
        Seq::new(
            self.option_count(),
            |i: int|
                if 0 <= i < self.option_count() {
                    nested_finding(
                        self.options->0[i].first_violation(depth + 1),
                        Field::Options,
                        i as nat,
                    )
                } else {
                    None
                },
        )
    }

    /// The violation that validation reports: the first finding on this
    /// option itself, or else the first in the options in it, taken in order.
    pub open spec fn first_violation(self, depth: nat) -> Option<Violation>
        decreases self, 1nat,
    {
        let own = first_some(self.own_findings(depth));
        if own is Some {
            own
        } else {
            first_some(self.nested_findings(depth))
        }
    }

    /// The own rules hold exactly where none of them has a finding.
    pub proof fn lemma_rules_hold_iff_no_finding(self, depth: nat)
        ensures
            first_some(self.own_findings(depth)) is None <==> self.rules_hold(depth),
    {
        let findings = self.own_findings(depth);
        lemma_first_some_none(findings);
        lemma_first_some_none(self.member_findings(depth));
        lemma_first_some_none(self.choice_findings());
        if self.rules_hold(depth) {
            assert forall|i: int| 0 <= i < self.option_count() implies self.member_findings(
                depth,
            )[i] is None by {
                assert(self.member_finding(depth, i) is None);
            }
            assert forall|j: int| 0 <= j < self.choice_count() implies self.choice_findings()[j]
                is None by {
                assert(self.choices->0[j].is_valid(self.option_type));
            }
        }
        if first_some(findings) is None {
            assert forall|i: int| 0 <= i < self.option_count() && self.option_type
                == DiscordInteractionOptionType::SubCommandGroup implies (
            #[trigger] self.options->0[i]).option_type
                == DiscordInteractionOptionType::SubCommand by {
                assert(self.member_findings(depth)[i] is None);
            }
            assert forall|j: int| 0 <= j < self.choice_count() implies (
            #[trigger] self.choices->0[j]).is_valid(self.option_type) by {
                assert(self.choice_findings()[j] is None);
            }
        }
    }

    /// Validation finds nothing exactly in the valid options: an option is
    /// accepted if and only if every rule holds of it and of all that it
    /// holds.
    pub proof fn lemma_valid_iff_no_violation(self, depth: nat)
        ensures
            self.first_violation(depth) is None <==> self.is_valid_at(depth),
        decreases self,
    {
        self.lemma_rules_hold_iff_no_finding(depth);
        lemma_first_some_none(self.nested_findings(depth));
        assert forall|i: int| 0 <= i < self.option_count() implies (self.nested_findings(depth)[i]
            is None <==> (#[trigger] self.options->0[i]).is_valid_at(depth + 1)) by {
            self.options->0[i].lemma_valid_iff_no_violation(depth + 1);
        }
    }

    fn check_members(&self, depth: usize) -> (r: Result<(), ValidationError>)
        requires
            depth < MAX_CONTAINER_DEPTH,
        ensures
            reports(r, first_some(self.member_findings(depth as nat))),
    {
        let ghost findings = self.member_findings(depth as nat);
        if let DiscordInteractionOptionType::SubCommandGroup = self.option_type {
            if let Some(options) = &self.options {
                let mut i: usize = 0;
                while i < options.len()
                    invariant
                        0 <= i <= options.len(),
                        depth < MAX_CONTAINER_DEPTH,
                        self.option_type == DiscordInteractionOptionType::SubCommandGroup,
                        self.options == Some(*options),
                        findings == self.member_findings(depth as nat),
                        forall|j: int| 0 <= j < i ==> findings[j] is None,
                    decreases options.len() - i,
                {
                    match options[i].option_type {
                        DiscordInteractionOptionType::SubCommand => {},
                        _ => {
                            proof {
                                lemma_first_some_at(findings, i as int);
                            }
                            return Err(nesting_error(depth + 1).nested(Field::Options, i));
                        },
                    }
                    i = i + 1;
                }
            }
        }
        proof {
            lemma_first_some_none(findings);
        }
        Ok(())
    }

    fn check_choices(&self) -> (r: Result<(), ValidationError>)
        ensures
            reports(r, first_some(self.choice_findings())),
    {
        let ghost findings = self.choice_findings();
        if let Some(choices) = &self.choices {
            let mut j: usize = 0;
            while j < choices.len()
                invariant
                    0 <= j <= choices.len(),
                    self.choices == Some(*choices),
                    findings == self.choice_findings(),
                    forall|k: int| 0 <= k < j ==> findings[k] is None,
                decreases choices.len() - j,
            {
                match choices[j].validate(self.option_type) {
                    Ok(_) => {},
                    Err(e) => {
                        proof {
                            lemma_first_some_at(findings, j as int);
                        }
                        return Err(e.nested(Field::Choices, j));
                    },
                }
                j = j + 1;
            }
        }
        proof {
            lemma_first_some_none(findings);
        }
        Ok(())
    }

    fn check_exclusive(&self) -> (r: Result<(), ValidationError>)
        ensures
            reports(r, self.exclusive_finding()),
    {
        let has_choices = match &self.choices {
            Some(choices) => choices.len() > 0,
            None => false,
        };
        let completes = match self.autocomplete {
            Some(b) => b,
            None => false,
        };
        if has_choices && completes {
            Err(
                ValidationError::at(
                    Field::Choices,
                    ValidationErrorKind::MutuallyExclusiveFields {
                        first: Field::Choices,
                        second: Field::Autocomplete,
                    },
                ),
            )
        } else {
            Ok(())
        }
    }

    fn check_choice_count(&self) -> (r: Result<(), ValidationError>)
        ensures
            reports(r, self.choice_count_finding()),
    {
        let actual: usize = match &self.choices {
            Some(choices) => choices.len(),
            None => 0,
        };
        if actual > MAX_CHOICES {
            Err(
                ValidationError::at(
                    Field::Choices,
                    ValidationErrorKind::TooManyChoices { actual, max: MAX_CHOICES },
                ),
            )
        } else {
            Ok(())
        }
    }

    fn check_value_range(&self) -> (r: Result<(), ValidationError>)
        ensures
            reports(r, self.value_range_finding()),
    {
        match (&self.min_value, &self.max_value) {
            (Some(min), Some(max)) => {
                if min.le(max) {
                    Ok(())
                } else {
                    Err(
                        ValidationError::at(
                            Field::MinValue,
                            ValidationErrorKind::NumericRangeInverted {
                                min: min.clone(),
                                max: max.clone(),
                            },
                        ),
                    )
                }
            },
            _ => Ok(()),
        }
    }

    fn check_min_length(&self) -> (r: Result<(), ValidationError>)
        ensures
            reports(r, self.min_length_finding()),
    {
        match self.min_length {
            Some(min) => check_length(Field::MinLength, min as usize, 0, MAX_STRING_LENGTH),
            None => Ok(()),
        }
    }

    fn check_max_length(&self) -> (r: Result<(), ValidationError>)
        ensures
            reports(r, self.max_length_finding()),
    {
        match self.max_length {
            Some(max) => check_length(Field::MaxLength, max as usize, 1, MAX_STRING_LENGTH),
            None => Ok(()),
        }
    }

    fn check_length_order(&self) -> (r: Result<(), ValidationError>)
        ensures
            reports(r, self.length_order_finding()),
    {
        match (self.min_length, self.max_length) {
            (Some(min), Some(max)) => check_length(Field::MinLength, min as usize, 0, max as usize),
            _ => Ok(()),
        }
    }

    /// The check that stands at `rule` in the list of this option's own
    /// rules.
    fn check_rule(&self, depth: usize, rule: usize) -> (r: Result<(), ValidationError>)
        requires
            rule < 20,
            rule == 1 ==> self.depth_finding(depth as nat) is None,
        ensures
            reports(r, self.own_findings(depth as nat)[rule as int]),
    {
        let t = self.option_type;
        let owner = OwnerType::Option(t);
        if rule == 0 {
            if t.is_container() && depth >= MAX_CONTAINER_DEPTH {
                Err(nesting_error(depth))
            } else {
                Ok(())
            }
        } else if rule == 1 {
            if t.is_container() {
                self.check_members(depth)
            } else {
                proof {
                    lemma_first_some_none(self.member_findings(depth as nat));
                }
                Ok(())
            }
        } else if rule == 2 {
            self.check_exclusive()
        } else if rule == 3 {
            check_length(Field::Name, self.name.as_str().unicode_len(), 1, MAX_NAME_LENGTH)
        } else if rule == 4 {
            check_length(
                Field::Description,
                self.description.as_str().unicode_len(),
                1,
                MAX_DESCRIPTION_LENGTH,
            )
        } else if rule == 5 {
            check_applicable(Field::Required, self.required.is_some(), !t.is_container(), owner)
        } else if rule == 6 {
            check_applicable(Field::Choices, self.choices.is_some(), t.takes_choices(), owner)
        } else if rule == 7 {
            self.check_choice_count()
        } else if rule == 8 {
            self.check_choices()
        } else if rule == 9 {
            check_applicable(Field::Options, self.options.is_some(), t.is_container(), owner)
        } else if rule == 10 {
            check_applicable(
                Field::ChannelTypes,
                self.channel_types.is_some(),
                t.is_channel(),
                owner,
            )
        } else if rule == 11 {
            check_applicable(Field::MinValue, self.min_value.is_some(), t.is_numeric(), owner)
        } else if rule == 12 {
            check_applicable(Field::MaxValue, self.max_value.is_some(), t.is_numeric(), owner)
        } else if rule == 13 {
            self.check_value_range()
        } else if rule == 14 {
            check_applicable(Field::MinLength, self.min_length.is_some(), t.is_string(), owner)
        } else if rule == 15 {
            check_applicable(Field::MaxLength, self.max_length.is_some(), t.is_string(), owner)
        } else if rule == 16 {
            self.check_min_length()
        } else if rule == 17 {
            self.check_max_length()
        } else if rule == 18 {
            self.check_length_order()
        } else {
            check_applicable(
                Field::Autocomplete,
                self.autocomplete.is_some(),
                t.takes_choices(),
                owner,
            )
        }
    }

    /// Looks for the first finding among this option's own rules.
    fn check_own(&self, depth: usize) -> (r: Result<(), ValidationError>)
        ensures
            reports(r, first_some(self.own_findings(depth as nat))),
    {
        let ghost findings = self.own_findings(depth as nat);
        let mut rule: usize = 0;
        while rule < 20
            invariant
                0 <= rule <= 20,
                findings == self.own_findings(depth as nat),
                findings.len() == 20,
                forall|k: int| 0 <= k < rule ==> findings[k] is None,
            decreases 20 - rule,
        {
            proof {
                if rule == 1 {
                        }
            }
            match self.check_rule(depth, rule) {
                Ok(_) => {},
                Err(e) => {
                    proof {
                        lemma_first_some_at(findings, rule as int);
                    }
                    return Err(e);
                },
            }
            rule = rule + 1;
        }
        proof {
            lemma_first_some_none(findings);
        }
        Ok(())
    }

    /// Checks this option as one that stands `depth` options deep, and all
    /// that it holds.
    pub fn validate_at(&self, depth: usize) -> (r: Result<(), ValidationError>)
        ensures
            r is Ok <==> self.is_valid_at(depth as nat),
            reports(r, self.first_violation(depth as nat)),
        decreases self,
    {
        proof {
            self.lemma_valid_iff_no_violation(depth as nat);
            self.lemma_rules_hold_iff_no_finding(depth as nat);
        }
        match self.check_own(depth) {
            Ok(_) => {},
            Err(e) => {
                return Err(e);
            },
        }
        let ghost findings = self.nested_findings(depth as nat);
        if let Some(options) = &self.options {
            let mut i: usize = 0;
            while i < options.len()
                invariant
                    0 <= i <= options.len(),
                    depth < MAX_CONTAINER_DEPTH,
                    self.options == Some(*options),
                    findings == self.nested_findings(depth as nat),
                    first_some(self.own_findings(depth as nat)) is None,
                    forall|k: int| 0 <= k < i ==> findings[k] is None,
                decreases options.len() - i,
            {
                match options[i].validate_at(depth + 1) {
                    Ok(_) => {},
                    Err(e) => {
                        proof {
                            lemma_first_some_at(findings, i as int);
                        }
                        return Err(e.nested(Field::Options, i));
                    },
                }
                i = i + 1;
            }
        }
        proof {
            lemma_first_some_none(findings);
        }
        Ok(())
    }

    /// Checks this option as an option of a command, and all that it holds.
    pub fn validate(&self) -> (r: Result<(), ValidationError>)
        ensures
            r is Ok <==> self.is_valid(),
            reports(r, self.first_violation(0)),
    {
        self.validate_at(0)
    }

    /// A string option that offers choices and is completed as the user types
    /// is rejected, and for that reason, wherever it stands and whatever else
    /// is wrong with it.
    pub proof fn lemma_choices_exclude_autocomplete(self, depth: nat)
        requires
            self.option_type == DiscordInteractionOptionType::String,
            self.choice_count() > 0,
            self.autocomplete == Some(true),
        ensures
            !self.is_valid_at(depth),
            self.first_violation(depth) == Some(
                Violation::at(
                    Field::Choices,
                    ValidationErrorKind::MutuallyExclusiveFields {
                        first: Field::Choices,
                        second: Field::Autocomplete,
                    },
                ),
            ),
    {
        let findings = self.own_findings(depth);
        lemma_first_some_none(self.member_findings(depth));
        lemma_first_some_at(findings, 2);
    }

    /// A group that holds a group is rejected, and for its nesting, wherever
    /// it stands and whatever else is wrong with it. The depth reported is
    /// that of the group itself where it stands too deep, and otherwise that
    /// of its members.
    pub proof fn lemma_group_in_group(self, depth: nat, i: int)
        requires
            self.option_type == DiscordInteractionOptionType::SubCommandGroup,
            0 <= i < self.option_count(),
            self.options->0[i].option_type == DiscordInteractionOptionType::SubCommandGroup,
        ensures
            !self.is_valid_at(depth),
            self.first_violation(depth) matches Some(v) && v.kind
                == (ValidationErrorKind::IllegalNesting {
                depth: (if depth >= MAX_CONTAINER_DEPTH {
                    depth
                } else {
                    depth + 1
                }) as usize,
            }),
    {
        let findings = self.own_findings(depth);
        if depth >= MAX_CONTAINER_DEPTH {
            lemma_first_some_at(findings, 0);
        } else {
            let members = self.member_findings(depth);
            assert(members[i] is Some);
            lemma_first_some_none(members);
            let k = lemma_first_some_is_finding(members);
            assert(members[k] == self.member_finding(depth, k));
            lemma_first_some_at(findings, 1);
        }
    }
}

impl DiscordInteraction {
    /// The kind of command: a chat-input command where none is given.
    pub open spec fn spec_kind(self) -> DiscordInteractionType {
        match self.interaction_type {
            Some(kind) => kind,
            None => DiscordInteractionType::ChatInput,
        }
    }

    /// The command's kind, as the owner of its fields.
    pub open spec fn owner(self) -> OwnerType {
        OwnerType::Command(self.spec_kind())
    }

    /// The length of the description; 0 where the field is absent.
    pub open spec fn description_length(self) -> nat {
        match self.description {
            Some(description) => description@.len(),
            None => 0,
        }
    }

    /// The number of options; 0 where the field is absent.
    pub open spec fn option_count(self) -> nat {
        match self.options {
            Some(options) => options.len() as nat,
            None => 0,
        }
    }

    /// A chat-input command has a name, a description, and valid options. A
    /// command in a context menu has a name, and neither a description nor
    /// options: absent or empty.
    pub open spec fn is_valid(self) -> bool {
        &&& 1 <= self.name@.len() <= MAX_NAME_LENGTH
        &&& if self.spec_kind() == DiscordInteractionType::ChatInput {
            &&& 1 <= self.description_length() <= MAX_DESCRIPTION_LENGTH
            &&& forall|i: int|
                0 <= i < self.option_count() ==> (#[trigger] self.options->0[i]).is_valid_at(0)
        } else {
            &&& self.description_length() == 0
            &&& self.option_count() == 0
        }
    }

    /// The findings of the rules on the command itself, in the order in which
    /// they are looked for.
    pub open spec fn own_findings(self) -> Seq<Option<Violation>> {
        let chat_input = self.spec_kind() == DiscordInteractionType::ChatInput;
        seq![
            length_finding(Field::Name, self.name@.len(), 1, MAX_NAME_LENGTH as nat),
            if chat_input {
                length_finding(
                    Field::Description,
                    self.description_length(),
                    1,
                    MAX_DESCRIPTION_LENGTH as nat,
                )
            } else {
                applicability_finding(
                    Field::Description,
                    self.description_length() > 0,
                    false,
                    self.owner(),
                )
            },
            applicability_finding(
                Field::Options,
                self.option_count() > 0,
                chat_input,
                self.owner(),
            ),
        ]
    }

    /// What the options have to report, each finding seen from the command.
    pub open spec fn nested_findings(self) -> Seq<Option<Violation>> {
        Seq::new(
            self.option_count(),
            |i: int|
                nested_finding(self.options->0[i].first_violation(0), Field::Options, i as nat),
        )
    }

    /// The violation that validation reports: the first finding on the
    /// command itself, or else the first in its options, taken in order.
    pub open spec fn first_violation(self) -> Option<Violation> {
        let own = first_some(self.own_findings());
        if own is Some {
            own
        } else {
            first_some(self.nested_findings())
        }
    }

    /// Validation finds nothing exactly in the valid commands.
    pub proof fn lemma_valid_iff_no_violation(self)
        ensures
            self.first_violation() is None <==> self.is_valid(),
    {
        let findings = self.own_findings();
        lemma_first_some_none(findings);
        lemma_first_some_none(self.nested_findings());
        assert forall|i: int| 0 <= i < self.option_count() implies (self.nested_findings()[i]
            is None <==> (#[trigger] self.options->0[i]).is_valid_at(0)) by {
            self.options->0[i].lemma_valid_iff_no_violation(0);
        }
        if first_some(findings) is None {
        }
    }

    /// The kind of command: a chat-input command where none is given.
    pub fn kind(&self) -> (k: DiscordInteractionType)
        ensures
            k == self.spec_kind(),
    {
        match self.interaction_type {
            Some(kind) => kind,
            None => DiscordInteractionType::ChatInput,
        }
    }

    fn check_own(&self) -> (r: Result<(), ValidationError>)
        ensures
            reports(r, first_some(self.own_findings())),
    {
        let ghost findings = self.own_findings();
        let kind = self.kind();
        let owner = OwnerType::Command(kind);
        let chat_input = match kind {
            DiscordInteractionType::ChatInput => true,
            _ => false,
        };
        let description_length: usize = match &self.description {
            Some(description) => description.as_str().unicode_len(),
            None => 0,
        };
        let option_count: usize = match &self.options {
            Some(options) => options.len(),
            None => 0,
        };
        match check_length(Field::Name, self.name.as_str().unicode_len(), 1, MAX_NAME_LENGTH) {
            Ok(_) => {},
            Err(e) => {
                proof {
                    lemma_first_some_at(findings, 0);
                }
                return Err(e);
            },
        }
        let described = if chat_input {
            check_length(Field::Description, description_length, 1, MAX_DESCRIPTION_LENGTH)
        } else {
            check_applicable(Field::Description, description_length > 0, false, owner)
        };
        match described {
            Ok(_) => {},
            Err(e) => {
                proof {
                    lemma_first_some_at(findings, 1);
                }
                return Err(e);
            },
        }
        match check_applicable(Field::Options, option_count > 0, chat_input, owner) {
            Ok(_) => {},
            Err(e) => {
                proof {
                    lemma_first_some_at(findings, 2);
                }
                return Err(e);
            },
        }
        proof {
            lemma_first_some_none(findings);
        }
        Ok(())
    }

    /// Checks the command and all that it holds. `Ok` exactly for a valid
    /// command; otherwise the first violation, by the order of the rules and
    /// of the options.
    pub fn validate(&self) -> (r: Result<(), ValidationError>)
        ensures
            r is Ok <==> self.is_valid(),
            reports(r, self.first_violation()),
    {
        proof {
            self.lemma_valid_iff_no_violation();
        }
        match self.check_own() {
            Ok(_) => {},
            Err(e) => {
                return Err(e);
            },
        }
        let ghost findings = self.nested_findings();
        if let Some(options) = &self.options {
            let mut i: usize = 0;
            while i < options.len()
                invariant
                    0 <= i <= options.len(),
                    self.options == Some(*options),
                    findings == self.nested_findings(),
                    first_some(self.own_findings()) is None,
                    forall|k: int| 0 <= k < i ==> findings[k] is None,
                decreases options.len() - i,
            {
                match options[i].validate_at(0) {
                    Ok(_) => {},
                    Err(e) => {
                        proof {
                            lemma_first_some_at(findings, i as int);
                        }
                        return Err(e.nested(Field::Options, i));
                    },
                }
                i = i + 1;
            }
        }
        proof {
            lemma_first_some_none(findings);
        }
        Ok(())
    }
}

} // verus!
