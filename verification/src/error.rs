//! The failures that validation and serialization report.

use crate::number::Number;
use crate::registry::{DiscordInteractionOptionType, DiscordInteractionType};
use crate::text::{decimal, decimal_string};
use vstd::prelude::*;

verus! {

/// The fields that a rule can speak of.
#[derive(Copy, Clone, Debug, PartialEq, Eq, Structural)]
pub enum Field {
    Name,
    Description,
    Required,
    Choices,
    Options,
    ChannelTypes,
    MinValue,
    MaxValue,
    MinLength,
    MaxLength,
    Autocomplete,
}

impl Field {
    /// The field's name on the wire, which is also its name in a path.
    pub open spec fn spec_name(self) -> Seq<char> {
        match self {
            Field::Name => "name"@,
            Field::Description => "description"@,
            Field::Required => "required"@,
            Field::Choices => "choices"@,
            Field::Options => "options"@,
            Field::ChannelTypes => "channel_types"@,
            Field::MinValue => "min_value"@,
            Field::MaxValue => "max_value"@,
            Field::MinLength => "min_length"@,
            Field::MaxLength => "max_length"@,
            Field::Autocomplete => "autocomplete"@,
        }
    }

    /// The field's name on the wire.
    pub fn name(self) -> (r: &'static str)
        ensures
            r@ == self.spec_name(),
    {
        match self {
            Field::Name => "name",
            Field::Description => "description",
            Field::Required => "required",
            Field::Choices => "choices",
            Field::Options => "options",
            Field::ChannelTypes => "channel_types",
            Field::MinValue => "min_value",
            Field::MaxValue => "max_value",
            Field::MinLength => "min_length",
            Field::MaxLength => "max_length",
            Field::Autocomplete => "autocomplete",
        }
    }
}

/// The three kinds of value that a choice can hold.
#[derive(Copy, Clone, Debug, PartialEq, Eq, Structural)]
pub enum ChoiceKind {
    Str,
    Int,
    Float,
}

/// The type of whatever owns a field: a command or an option.
#[derive(Copy, Clone, Debug, PartialEq, Eq, Structural)]
pub enum OwnerType {
    Command(DiscordInteractionType),
    Option(DiscordInteractionOptionType),
}

/// The rule that a definition breaks.
#[allow(inconsistent_fields)]
#[derive(Clone, Debug, PartialEq)]
pub enum ValidationErrorKind {
    /// A text or a length bound has `actual` characters where `min` to `max`
    /// are allowed.
    LengthOutOfRange { field: Field, actual: usize, min: usize, max: usize },
    /// An option offers `actual` choices where at most `max` are allowed.
    TooManyChoices { actual: usize, max: usize },
    /// A sub-command or group stands `depth` options deep where none may
    /// stand, or something other than a sub-command stands in a group.
    IllegalNesting { depth: usize },
    /// A field is set on a command or option whose type has no such field.
    FieldNotApplicableForType { field: Field, owner: OwnerType },
    /// Two fields are set of which at most one may be.
    MutuallyExclusiveFields { first: Field, second: Field },
    /// A choice holds a value of kind `actual`, which an option of type
    /// `expected` does not take.
    ChoiceValueTypeMismatch { expected: DiscordInteractionOptionType, actual: ChoiceKind },
    /// The lower bound of a numeric option is not at or below the upper.
    NumericRangeInverted { min: Number, max: Number },
}

/// A broken rule and the place where it is broken, as contracts speak of it.
pub struct Violation {
    pub path: Seq<char>,
    pub kind: ValidationErrorKind,
}

/// A broken rule and the path of the field that breaks it, such as
/// `options[2].choices`: field names joined by dots, list positions in
/// brackets, counted from 0.
#[derive(Clone, Debug, PartialEq)]
pub struct ValidationError {
    pub path: String,
    pub kind: ValidationErrorKind,
}

impl View for ValidationError {
    type V = Violation;

    open spec fn view(&self) -> Violation {
        Violation { path: self.path@, kind: self.kind }
    }
}

/// The path of what lies at `rest` inside the element at `index` of the list
/// in the field `list`.
pub open spec fn element_path(list: Field, index: nat, rest: Seq<char>) -> Seq<char> {
    list.spec_name() + "["@ + decimal(index) + "]."@ + rest
}

impl Violation {
    /// A violation at the field of that name.
    pub open spec fn at(field: Field, kind: ValidationErrorKind) -> Violation {
        Violation { path: field.spec_name(), kind }
    }

    /// The same violation, seen from the owner of the list `list`, in whose
    /// element at `index` it lies.
    pub open spec fn nested(self, list: Field, index: nat) -> Violation {
        Violation { path: element_path(list, index, self.path), kind: self.kind }
    }
}

/// A finding inside an element of a list, seen from the owner of the list.
pub open spec fn nested_finding(finding: Option<Violation>, list: Field, index: nat) -> Option<
    Violation,
> {
    match finding {
        Some(v) => Some(v.nested(list, index)),
        None => None,
    }
}

/// Whether a result reports a finding: `Ok` for none, and the very violation
/// otherwise.
pub open spec fn reports(r: Result<(), ValidationError>, finding: Option<Violation>) -> bool {
    match r {
        Ok(_) => finding is None,
        Err(e) => finding == Some(e@),
    }
}

impl ValidationError {
    /// An error at the field of that name.
    pub fn at(field: Field, kind: ValidationErrorKind) -> (r: ValidationError)
        ensures
            r@ == Violation::at(field, kind),
    {
        ValidationError { path: String::from_str(field.name()), kind }
    }

    /// The same error, seen from the owner of the list `list`, in whose
    /// element at `index` it lies.
    pub fn nested(self, list: Field, index: usize) -> (r: ValidationError)
        ensures
            r@ == self@.nested(list, index as nat),
    {
        let path = String::from_str(list.name()).concat("[").concat(
            decimal_string(index as u64).as_str(),
        ).concat("].").concat(self.path.as_str());
        ValidationError { path, kind: self.kind }
    }
}

/// The first violation in a list of findings, if any.
pub open spec fn first_some(findings: Seq<Option<Violation>>) -> Option<Violation>
    decreases findings.len(),
{
    if findings.len() == 0 {
        None
    } else if findings[0] is Some {
        findings[0]
    } else {
        first_some(findings.drop_first())
    }
}

/// Where nothing is found before `i`, the first violation is the first from
/// `i` on.
pub proof fn lemma_first_some_skip(findings: Seq<Option<Violation>>, i: int)
    requires
        0 <= i <= findings.len(),
        forall|j: int| 0 <= j < i ==> findings[j] is None,
    ensures
        first_some(findings) == first_some(findings.skip(i)),
    decreases i,
{
    if i == 0 {
        assert(findings.skip(0) =~= findings);
    } else {
        lemma_first_some_skip(findings.drop_first(), i - 1);
        assert(findings.drop_first().skip(i - 1) =~= findings.skip(i));
    }
}

/// Where nothing is found before `i` and something at `i`, that is the first
/// violation.
pub proof fn lemma_first_some_at(findings: Seq<Option<Violation>>, i: int)
    requires
        0 <= i < findings.len(),
        forall|j: int| 0 <= j < i ==> findings[j] is None,
        findings[i] is Some,
    ensures
        first_some(findings) == findings[i],
{
    lemma_first_some_skip(findings, i);
}

/// The first violation is one of the findings, and nothing is found before
/// it.
pub proof fn lemma_first_some_is_finding(findings: Seq<Option<Violation>>) -> (i: int)
    requires
        first_some(findings) is Some,
    ensures
        0 <= i < findings.len(),
        findings[i] == first_some(findings),
        forall|j: int| 0 <= j < i ==> findings[j] is None,
    decreases findings.len(),
{
    if findings[0] is Some {
        0
    } else {
        let rest = findings.drop_first();
        let i = lemma_first_some_is_finding(rest);
        assert forall|j: int| 0 <= j < i + 1 implies findings[j] is None by {
            if j > 0 {
                assert(rest[j - 1] == findings[j]);
            }
        }
        i + 1
    }
}

/// There is a first violation exactly where something is found.
pub proof fn lemma_first_some_none(findings: Seq<Option<Violation>>)
    ensures
        first_some(findings) is None <==> forall|j: int|
            0 <= j < findings.len() ==> findings[j] is None,
    decreases findings.len(),
{
    if findings.len() > 0 {
        lemma_first_some_none(findings.drop_first());
        let rest = findings.drop_first();
        if first_some(findings) is None {
            assert forall|j: int| 0 <= j < findings.len() implies findings[j] is None by {
                if j > 0 {
                    assert(rest[j - 1] == findings[j]);
                }
            }
        } else if findings[0] is None {
            let j = choose|j: int| 0 <= j < rest.len() && !(rest[j] is None);
            assert(findings[j + 1] == rest[j]);
        }
    }
}

/// The encoder failed.
#[derive(Debug)]
pub struct SerializationError {
    /// What the encoder said.
    pub message: String,
}

impl SerializationError {
    /// The library's error for a failure of the encoder.
    pub(crate) fn from_encoder(error: serde_json::Error) -> (r: SerializationError) {
        SerializationError { message: crate::encode::error_text(&error) }
    }
}

} // verus!
