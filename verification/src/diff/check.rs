use vstd::prelude::*;
use crate::diff::internal::Derive;
use crate::diff::internal::Style;

verus! {

/// What the rules need to know of a field: whether its type is
/// `PhantomData`, and whether it is left out when values are compared.
#[derive(Clone, Copy, Debug, PartialEq, Eq, Structural)]
pub struct Field {
    pub phantom: bool,
    pub skip_diff: bool,
}

/// What the rules need to know of the body of a type.
#[derive(Debug)]
pub enum Data {
    /// An enum.
    Enum,
    /// A struct of some shape with its fields.
    Struct(Style, Vec<Field>),
}

/// What the rules need to know of a type that `Diff` is derived for: the
/// attributes on it, and its body.
#[derive(Debug)]
pub struct Container {
    /// `transparent` was given.
    pub transparent: bool,
    /// `from = "..."` was given.
    pub type_from: bool,
    /// `try_from = "..."` was given.
    pub type_try_from: bool,
    /// `into = "..."` was given.
    pub type_into: bool,
    /// The body of the type.
    pub data: Data,
}

/// What the rules object to.
#[derive(Clone, Copy, Debug, PartialEq, Eq, Structural)]
pub enum Complaint {
    TransparentWithFrom,
    TransparentWithTryFrom,
    TransparentWithInto,
    TransparentEnum,
    TransparentUnitStruct,
    TransparentManyFields,
    TransparentNoField,
    FromWithTryFrom,
}

/// What the rules make of a type: what they object to, in order, and the
/// field that stands for the whole of a transparent struct.
#[derive(Debug)]
pub struct Report {
    pub complaints: Vec<Complaint>,
    pub transparent_field: Option<usize>,
}

/// Whether a field can stand for the whole of a transparent struct: its
/// type is not `PhantomData`, and it is not left out of the comparison.
pub open spec fn spec_allow_transparent(field: Field, derive: Derive) -> bool {
    !field.phantom && !field.skip_diff
}

/// The number of fields that can stand for the whole struct.
pub open spec fn spec_allowed(fields: Seq<Field>, derive: Derive) -> nat
    decreases fields.len(),
{
    if fields.len() == 0 {
        0
    } else {
        spec_allowed(fields.drop_last(), derive) + if spec_allow_transparent(
            fields.last(),
            derive,
        ) {
            1nat
        } else {
            0nat
        }
    }
}

/// The place of the first field that can stand for the whole struct.
pub open spec fn spec_first_allowed(fields: Seq<Field>, derive: Derive) -> Option<int>
    decreases fields.len(),
{
    if fields.len() == 0 {
        None
    } else {
        match spec_first_allowed(fields.drop_last(), derive) {
            Some(found) => Some(found),
            None => if spec_allow_transparent(fields.last(), derive) {
                Some(fields.len() - 1)
            } else {
                None
            },
        }
    }
}

/// `complaint` where `given` holds, nothing otherwise.
pub open spec fn spec_when(given: bool, complaint: Complaint) -> Seq<Complaint> {
    if given {
        seq![complaint]
    } else {
        Seq::<Complaint>::empty()
    }
}

/// What the rules on `transparent` make of a type that carries it. It does
/// not go together with `from`, `try_from` or `into`, nor with an enum or a
/// unit struct; and exactly one field must be able to stand for the whole
/// struct, which is then the transparent field.
pub open spec fn spec_check_transparent(container: Container, derive: Derive) -> (
    Seq<Complaint>,
    Option<int>,
) {
    let early = spec_when(container.type_from, Complaint::TransparentWithFrom) + spec_when(
        container.type_try_from,
        Complaint::TransparentWithTryFrom,
    ) + spec_when(container.type_into, Complaint::TransparentWithInto);
    match container.data {
        Data::Enum => (early.push(Complaint::TransparentEnum), None),
        Data::Struct(Style::Unit, _) => (early.push(Complaint::TransparentUnitStruct), None),
        Data::Struct(_, fields) => {
            let allowed = spec_allowed(fields@, derive);
            if allowed == 0 {
                (early.push(Complaint::TransparentNoField), None)
            } else if allowed == 1 {
                (early, spec_first_allowed(fields@, derive))
            } else {
                (early.push(Complaint::TransparentManyFields), None)
            }
        },
    }
}

/// What the rules make of a type: the rules on `transparent`, where it was
/// given, and then the rule that `from` and `try_from` exclude each other.
pub open spec fn spec_check(container: Container, derive: Derive) -> (Seq<Complaint>, Option<int>) {
    let (complaints, field) = if container.transparent {
        spec_check_transparent(container, derive)
    } else {
        (Seq::<Complaint>::empty(), None)
    };
    (
        complaints + spec_when(
            container.type_from && container.type_try_from,
            Complaint::FromWithTryFrom,
        ),
        field,
    )
}

/// The shape that a variant is treated as: a variant with one field that
/// is left out of the comparison counts as one without fields.
pub open spec fn spec_effective_style(style: Style, fields: Seq<Field>) -> Style {
    if style == Style::Newtype && fields.len() > 0 && fields[0].skip_diff {
        Style::Unit
    } else {
        style
    }
}

impl Complaint {
    /// The complaint in words.
    pub fn message(&self) -> (text: &'static str)
        ensures
            text@ == self.spec_message(),
    {
        match self {
            Complaint::TransparentWithFrom => {
                "#[patch(transparent)] is not allowed with #[patch(from = \"...\")]"
            },
            Complaint::TransparentWithTryFrom => {
                "#[patch(transparent)] is not allowed with #[patch(try_from = \"...\")]"
            },
            Complaint::TransparentWithInto => {
                "#[patch(transparent)] is not allowed with #[patch(into = \"...\")]"
            },
            Complaint::TransparentEnum => "#[patch(transparent)] is not allowed on an enum",
            Complaint::TransparentUnitStruct => {
                "#[patch(transparent)] is not allowed on a unit struct"
            },
            Complaint::TransparentManyFields => {
                "#[patch(transparent)] requires struct to have at most one transparent field"
            },
            Complaint::TransparentNoField => {
                "#[patch(transparent)] requires at least one field that is not skipped"
            },
            Complaint::FromWithTryFrom => {
                "#[patch(from = \"...\")] and #[patch(try_from = \"...\")] conflict with each other"
            },
        }
    }

    /// The words of each complaint: which attribute is refused, and next to
    /// what.
    pub open spec fn spec_message(self) -> Seq<char> {
        match self {
            Complaint::TransparentWithFrom => {
                "#[patch(transparent)] is not allowed with #[patch(from = \"...\")]"@
            },
            Complaint::TransparentWithTryFrom => {
                "#[patch(transparent)] is not allowed with #[patch(try_from = \"...\")]"@
            },
            Complaint::TransparentWithInto => {
                "#[patch(transparent)] is not allowed with #[patch(into = \"...\")]"@
            },
            Complaint::TransparentEnum => "#[patch(transparent)] is not allowed on an enum"@,
            Complaint::TransparentUnitStruct => {
                "#[patch(transparent)] is not allowed on a unit struct"@
            },
            Complaint::TransparentManyFields => {
                "#[patch(transparent)] requires struct to have at most one transparent field"@
            },
            Complaint::TransparentNoField => {
                "#[patch(transparent)] requires at least one field that is not skipped"@
            },
            Complaint::FromWithTryFrom => {
                "#[patch(from = \"...\")] and #[patch(try_from = \"...\")] conflict with each other"@
            },
        }
    }
}

/// Whether a field can stand for the whole of a transparent struct.
pub fn allow_transparent(field: &Field, derive: Derive) -> (yes: bool)
    ensures
        yes == spec_allow_transparent(*field, derive),
{
    if field.phantom {
        return false;
    }
    match derive {
        Derive::Diff => !field.skip_diff,
    }
}

/// The shape that a variant of shape `style` with the fields `fields` is
/// treated as.
pub fn effective_style(style: Style, fields: &[Field]) -> (out: Style)
    ensures
        out == spec_effective_style(style, fields@),
{
    match style {
        Style::Newtype => if fields.len() > 0 && fields[0].skip_diff {
            Style::Unit
        } else {
            style
        },
        _ => style,
    }
}

/// Adds a complaint to those made so far.
fn complain(complaints: &mut Vec<Complaint>, complaint: Complaint)
    ensures
        final(complaints)@ == old(complaints)@.push(complaint),
{
    complaints.push(complaint);
}

/// The rules on `transparent`.
#[verifier::loop_isolation(false)]
fn check_transparent(container: &Container, derive: Derive, complaints: &mut Vec<Complaint>) -> (out:
    Option<usize>)
    requires
        old(complaints)@.len() == 0,
    ensures
        container.transparent ==> final(complaints)@ == spec_check_transparent(
            *container,
            derive,
        ).0,
        container.transparent ==> match spec_check_transparent(*container, derive).1 {
            Some(place) => out == Some(place as usize),
            None => out is None,
        },
        !container.transparent ==> final(complaints)@.len() == 0 && out is None,
{
    if !container.transparent {
        return None;
    }
    if container.type_from {
        complain(complaints, Complaint::TransparentWithFrom);
    }
    if container.type_try_from {
        complain(complaints, Complaint::TransparentWithTryFrom);
    }
    if container.type_into {
        complain(complaints, Complaint::TransparentWithInto);
    }
    let ghost early = complaints@;
    assert(early =~= spec_when(container.type_from, Complaint::TransparentWithFrom) + spec_when(
        container.type_try_from,
        Complaint::TransparentWithTryFrom,
    ) + spec_when(container.type_into, Complaint::TransparentWithInto));
    let fields: &Vec<Field> = match &container.data {
        Data::Enum => {
            complain(complaints, Complaint::TransparentEnum);
            return None;
        },
        Data::Struct(Style::Unit, _) => {
            complain(complaints, Complaint::TransparentUnitStruct);
            return None;
        },
        Data::Struct(_, fields) => fields,
    };
    let mut target: Option<usize> = None;
    let mut i: usize = 0;
    assert(fields@.take(0) =~= Seq::<Field>::empty());
    while i < fields.len()
        invariant
            i <= fields@.len(),
            complaints@ == early,
            spec_allowed(fields@.take(i as int), derive) <= 1,
            target is Some <==> spec_allowed(fields@.take(i as int), derive) == 1,
            match spec_first_allowed(fields@.take(i as int), derive) {
                Some(place) => target == Some(place as usize),
                None => target is None,
            },
        decreases fields@.len() - i,
    {
        assert(fields@.take(i + 1).drop_last() =~= fields@.take(i as int));
        assert(fields@.take(i + 1).last() == fields@[i as int]);
        if allow_transparent(&fields[i], derive) {
            if target.is_some() {
                proof {
                    lemma_allowed_grows(fields@, derive, i + 1);
                }
                complain(complaints, Complaint::TransparentManyFields);
                return None;
            }
            target = Some(i);
        }
        i = i + 1;
    }
    assert(fields@.take(i as int) =~= fields@);
    match target {
        Some(place) => Some(place),
        None => {
            match derive {
                Derive::Diff => {
                    complain(complaints, Complaint::TransparentNoField);
                },
            }
            None
        },
    }
}

/// Counting over more fields counts no fewer.
pub proof fn lemma_allowed_grows(fields: Seq<Field>, derive: Derive, count: int)
    requires
        0 <= count <= fields.len(),
    ensures
        spec_allowed(fields.take(count), derive) <= spec_allowed(fields, derive),
    decreases fields.len() - count,
{
    if count < fields.len() {
        assert(fields.take(count + 1).drop_last() =~= fields.take(count));
        lemma_allowed_grows(fields, derive, count + 1);
    } else {
        assert(fields.take(count) =~= fields);
    }
}

/// The rule that `from` and `try_from` exclude each other.
fn check_from_and_try_from(container: &Container, complaints: &mut Vec<Complaint>)
    ensures
        final(complaints)@ == old(complaints)@ + spec_when(
            container.type_from && container.type_try_from,
            Complaint::FromWithTryFrom,
        ),
{
    if container.type_from && container.type_try_from {
        complain(complaints, Complaint::FromWithTryFrom);
        assert(complaints@ =~= old(complaints)@ + seq![Complaint::FromWithTryFrom]);
    } else {
        assert(complaints@ =~= old(complaints)@ + Seq::<Complaint>::empty());
    }
}

/// Holds a type against the rules that look at more than one attribute at
/// a time.
pub fn check(container: &Container, derive: Derive) -> (report: Report)
    ensures
        report.complaints@ == spec_check(*container, derive).0,
        match spec_check(*container, derive).1 {
            Some(place) => report.transparent_field == Some(place as usize),
            None => report.transparent_field is None,
        },
{
    let mut complaints: Vec<Complaint> = Vec::new();
    let transparent_field = check_transparent(container, derive, &mut complaints);
    check_from_and_try_from(container, &mut complaints);
    Report { complaints, transparent_field }
}

} // verus!
