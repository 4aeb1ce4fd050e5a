//! The reader: Protoform → File.
//!
//! The reader asks structural questions of protoforms: is it bare, headed,
//! braced, bracketed? Each section is read in order and the first structure
//! that does not read faults: at its path inside what was read (the index
//! of each list element, `0` for a head's body, then the index inside the
//! body), with the form or the separator that was expected there.

use vstd::prelude::*;
use crate::fault::Form;
use crate::protoform::{Enclosure, HeadModel, ProtoformModel, Separator};
use crate::concept::{
    AssociatedConstantModel, AssociatedTypeModel, AssociationModel, CapabilityModel, FileModel,
    ImportModel, KindDeclarationModel, ProblemModel, Receiver, TypeDeclarationModel,
    TypeExpressionModel, VariantModel,
};

verus! {

// ===========================================================================
// Specification: what a protoform reads as
// ===========================================================================

/// Where a reading failed, inside what was read, and the problem there.
pub type Fail = (Seq<i64>, ProblemModel);

/// A failure at what is being read itself.
pub open spec fn fail<T>(p: ProblemModel) -> Result<T, Fail> {
    Err((Seq::empty(), p))
}

/// A reading of the part at index `i`, its failure placed under `i`.
pub open spec fn under<T>(i: int, r: Result<T, Fail>) -> Result<T, Fail> {
    match r {
        Ok(x) => Ok(x),
        Err((path, p)) => Err((seq![i as i64] + path, p)),
    }
}

/// The symbol of a bare, unqualified head.
pub open spec fn bare_symbol(p: ProtoformModel) -> Option<Seq<char>> {
    match p {
        ProtoformModel::Bare(HeadModel::Bare(s)) => Some(s),
        _ => None,
    }
}

pub open spec fn head_symbol(h: HeadModel) -> Seq<char> {
    match h {
        HeadModel::Bare(s) => s,
        HeadModel::Qualified(s, _) => s,
    }
}

/// The head symbol, separator and body of a headed protoform.
pub open spec fn headed(p: ProtoformModel) -> Option<(Seq<char>, Separator, ProtoformModel)> {
    match p {
        ProtoformModel::Headed(h, s, b) => Some((head_symbol(h), s, *b)),
        _ => None,
    }
}

/// The qualifiers of a headed protoform whose head is qualified.
pub open spec fn head_qualifiers(p: ProtoformModel) -> Option<Seq<ProtoformModel>> {
    match p {
        ProtoformModel::Headed(HeadModel::Qualified(_, q), _, _) => Some(q),
        _ => None,
    }
}

/// The children of a protoform enclosed by the given enclosure.
pub open spec fn enclosed(p: ProtoformModel, e: Enclosure) -> Option<Seq<ProtoformModel>> {
    match p {
        ProtoformModel::Enclosed(f, c) => if f == e {
            Some(c)
        } else {
            None
        },
        _ => None,
    }
}

/// The symbols of a list of bare symbols; none if one of them is not bare.
pub open spec fn bare_symbols(pfs: Seq<ProtoformModel>) -> Option<Seq<Seq<char>>>
    decreases pfs.len(),
{
    if pfs.len() == 0 {
        Some(Seq::empty())
    } else {
        match (bare_symbols(pfs.drop_last()), bare_symbol(pfs.last())) {
            (Some(v), Some(s)) => Some(v.push(s)),
            _ => None,
        }
    }
}

/// Read every protoform of a list in order; the first that faults, faults the list.
pub open spec fn read_each<T>(
    pfs: Seq<ProtoformModel>,
    read: spec_fn(ProtoformModel) -> Result<T, Fail>,
) -> Result<Seq<T>, Fail>
    decreases pfs.len(),
{
    if pfs.len() == 0 {
        Ok(Seq::empty())
    } else {
        match read_each(pfs.drop_last(), read) {
            Err(e) => Err(e),
            Ok(v) => match under(pfs.len() - 1, read(pfs.last())) {
                Err(e) => Err(e),
                Ok(x) => Ok(v.push(x)),
            },
        }
    }
}

/// The protoform after position `i`, when there is one.
pub open spec fn following(pfs: Seq<ProtoformModel>, i: int) -> Option<ProtoformModel> {
    if 0 <= i + 1 < pfs.len() {
        Some(pfs[i + 1])
    } else {
        None
    }
}

/// How many protoforms a reading took: one, or two when it consumed the following one.
pub open spec fn step(consumed: bool) -> int {
    if consumed {
        2
    } else {
        1
    }
}

/// A list read so far, followed by the reading of the rest.
pub open spec fn prepend<T>(v: Seq<T>, rest: Result<Seq<T>, Fail>) -> Result<Seq<T>, Fail> {
    match rest {
        Ok(r) => Ok(v + r),
        Err(e) => Err(e),
    }
}

/// The type expression at position `i`, and whether it consumed the angled protoform after it.
///
/// A qualified head `C<A B>` is an application; a bare `Self` is the self type;
/// a bare name followed by an angled list is an application of that name;
/// any other bare name is a named type.
pub open spec fn expression_at(pfs: Seq<ProtoformModel>, i: int) -> Result<
    (TypeExpressionModel, bool),
    Fail,
>
    decreases pfs, 0int,
{
    if 0 <= i < pfs.len() {
        match pfs[i] {
            ProtoformModel::Bare(HeadModel::Qualified(c, args)) => {
                match expressions_from(args, 0) {
                    Ok(a) => Ok((TypeExpressionModel::Applied(c, a), false)),
                    Err(e) => Err(e),
                }
            },
            ProtoformModel::Bare(HeadModel::Bare(n)) => {
                if n == "Self"@ {
                    Ok((TypeExpressionModel::SelfType, false))
                } else if i + 1 < pfs.len() && pfs[i + 1] is Enclosed && pfs[i + 1]->Enclosed_0
                    == Enclosure::Angled {
                    match expressions_from(pfs[i + 1]->Enclosed_1, 0) {
                        Ok(a) => Ok((TypeExpressionModel::Applied(n, a), true)),
                        Err(e) => Err(e),
                    }
                } else {
                    Ok((TypeExpressionModel::Named(n), false))
                }
            },
            _ => fail(ProblemModel::Expected(Form::Reference)),
        }
    } else {
        fail(ProblemModel::Expected(Form::Reference))
    }
}

/// The type expressions of a list from position `i` on.
pub open spec fn expressions_from(pfs: Seq<ProtoformModel>, i: int) -> Result<
    Seq<TypeExpressionModel>,
    Fail,
>
    decreases pfs, pfs.len() + 2 - i,
{
    if 0 <= i < pfs.len() {
        match under(i, expression_at(pfs, i)) {
            Err(e) => Err(e),
            Ok((x, consumed)) => prepend(seq![x], expressions_from(pfs, i + step(consumed))),
        }
    } else {
        Ok(Seq::empty())
    }
}

/// A type expression read from `pf`, with the protoform that follows it.
pub open spec fn expression_with_following(
    pf: ProtoformModel,
    next: Option<ProtoformModel>,
) -> Result<(TypeExpressionModel, bool), Fail> {
    match next {
        Some(n) => expression_at(seq![pf, n], 0),
        None => expression_at(seq![pf], 0),
    }
}

/// A list holding exactly one type expression.
pub open spec fn single_expression(pfs: Seq<ProtoformModel>) -> Result<
    TypeExpressionModel,
    Fail,
> {
    if pfs.len() == 0 {
        fail(ProblemModel::Expected(Form::Reference))
    } else {
        match expression_at(pfs, 0) {
            Err(e) => Err(e),
            Ok((x, consumed)) => if pfs.len() == step(consumed) {
                Ok(x)
            } else {
                fail(ProblemModel::Expected(Form::Reference))
            },
        }
    }
}

/// The variant at position `i`, and whether it consumed the protoform after it.
pub open spec fn variant_at(pfs: Seq<ProtoformModel>, i: int) -> Result<
    (VariantModel, bool),
    Fail,
>
    decreases pfs, 0int,
{
    if 0 <= i < pfs.len() {
        match pfs[i] {
            ProtoformModel::Headed(h, sep, b) => {
                let name = head_symbol(h);
                if sep != Separator::Period {
                    fail(ProblemModel::Separator(sep))
                } else {
                    match *b {
                        ProtoformModel::Enclosed(Enclosure::Braced, fields) => {
                            match under(0, expressions_from(fields, 0)) {
                                Ok(f) => Ok((VariantModel::InlineStruct(name, f), false)),
                                Err(e) => Err(e),
                            }
                        },
                        ProtoformModel::Enclosed(Enclosure::Bracketed, inner) => {
                            match under(0, variants_from(inner, 0)) {
                                Ok(v) => Ok((VariantModel::InlineEnum(name, v), false)),
                                Err(e) => Err(e),
                            }
                        },
                        _ => match under(0, expression_with_following(*b, following(pfs, i))) {
                            Ok((t, consumed)) => Ok((VariantModel::Typed(name, t), consumed)),
                            Err(e) => Err(e),
                        },
                    }
                }
            },
            _ => match bare_symbol(pfs[i]) {
                Some(n) => Ok((VariantModel::Unit(n), false)),
                None => fail(ProblemModel::Expected(Form::Variant)),
            },
        }
    } else {
        fail(ProblemModel::Expected(Form::Declaration))
    }
}

/// The variants of a list from position `i` on.
pub open spec fn variants_from(pfs: Seq<ProtoformModel>, i: int) -> Result<
    Seq<VariantModel>,
    Fail,
>
    decreases pfs, pfs.len() + 2 - i,
{
    if 0 <= i < pfs.len() {
        match under(i, variant_at(pfs, i)) {
            Err(e) => Err(e),
            Ok((x, consumed)) => prepend(seq![x], variants_from(pfs, i + step(consumed))),
        }
    } else {
        Ok(Seq::empty())
    }
}

/// The variants of a bracketed section.
pub open spec fn read_variant_list(pf: ProtoformModel) -> Result<Seq<VariantModel>, Fail> {
    match enclosed(pf, Enclosure::Bracketed) {
        Some(c) => variants_from(c, 0),
        None => fail(ProblemModel::Expected(Form::Declaration)),
    }
}

/// The type declaration at position `i`, and whether it consumed the protoform after it.
///
/// `Name.{ … }` declares a struct, `Name.[ … ]` an enum, `Name.Type` an
/// alias; anything else is not a declaration, and another separator than
/// `.` is refused as such.
pub open spec fn declaration_at(pfs: Seq<ProtoformModel>, i: int) -> Result<
    (TypeDeclarationModel, bool),
    Fail,
> {
    if 0 <= i < pfs.len() {
        match headed(pfs[i]) {
            None => fail(ProblemModel::Expected(Form::Declaration)),
            Some((name, sep, body)) => if sep != Separator::Period {
                fail(ProblemModel::Separator(sep))
            } else {
                    match body {
                        ProtoformModel::Enclosed(Enclosure::Braced, fields) => {
                            match under(0, expressions_from(fields, 0)) {
                                Ok(f) => Ok((TypeDeclarationModel::Struct(name, f), false)),
                                Err(e) => Err(e),
                            }
                        },
                        ProtoformModel::Enclosed(Enclosure::Bracketed, vs) => {
                            match under(0, variants_from(vs, 0)) {
                                Ok(v) => Ok((TypeDeclarationModel::Enum(name, v), false)),
                                Err(e) => Err(e),
                            }
                        },
                        _ => match under(0, expression_with_following(body, following(pfs, i))) {
                            Ok((t, consumed)) => Ok((TypeDeclarationModel::Alias(name, t), consumed)),
                            Err(e) => Err(e),
                        },
                    }
            },
        }
    } else {
        fail(ProblemModel::Expected(Form::Declaration))
    }
}

/// The type declarations of a list from position `i` on.
pub open spec fn declarations_from(pfs: Seq<ProtoformModel>, i: int) -> Result<
    Seq<TypeDeclarationModel>,
    Fail,
>
    decreases pfs.len() + 2 - i,
{
    if 0 <= i < pfs.len() {
        match under(i, declaration_at(pfs, i)) {
            Err(e) => Err(e),
            Ok((x, consumed)) => prepend(seq![x], declarations_from(pfs, i + step(consumed))),
        }
    } else {
        Ok(Seq::empty())
    }
}

/// The type declarations of a bracketed section.
pub open spec fn read_type_declarations(pf: ProtoformModel) -> Result<
    Seq<TypeDeclarationModel>,
    Fail,
> {
    match enclosed(pf, Enclosure::Bracketed) {
        Some(c) => declarations_from(c, 0),
        None => fail(ProblemModel::Expected(Form::Declaration)),
    }
}

/// `source:Name`, `source:[ A B ]`, or `source:Name.Emitted`: the source's
/// `Emitted` known in the file as `Name`.
pub open spec fn read_import(pf: ProtoformModel) -> Result<ImportModel, Fail> {
    match headed(pf) {
        None => fail(ProblemModel::Expected(Form::Import)),
        Some((source, sep, body)) => if sep != Separator::Colon {
            fail(ProblemModel::Separator(sep))
        } else {
            match enclosed(body, Enclosure::Bracketed) {
                Some(names) => match bare_symbols(names) {
                    Some(n) => Ok(ImportModel::Multiple(source, n)),
                    None => under(0, fail(ProblemModel::Expected(Form::Import))),
                },
                None => match bare_symbol(body) {
                    Some(n) => Ok(ImportModel::Single(source, n)),
                    None => match body {
                        ProtoformModel::Headed(HeadModel::Bare(n), Separator::Period, e) => match bare_symbol(*e) {
                            Some(emitted) => Ok(ImportModel::Renamed(source, n, emitted)),
                            None => under(0, fail(ProblemModel::Expected(Form::Import))),
                        },
                        _ => under(0, fail(ProblemModel::Expected(Form::Import))),
                    },
                },
            }
        },
    }
}

/// The imports of a bracketed section.
pub open spec fn read_imports(pf: ProtoformModel) -> Result<Seq<ImportModel>, Fail> {
    match enclosed(pf, Enclosure::Bracketed) {
        Some(c) => read_each(c, import_reader()),
        None => fail(ProblemModel::Expected(Form::Import)),
    }
}

/// `Type.[ Kind … ]`.
pub open spec fn read_association(pf: ProtoformModel) -> Result<AssociationModel, Fail> {
    match headed(pf) {
        None => fail(ProblemModel::Expected(Form::Association)),
        Some((ty, sep, body)) => if sep != Separator::Period {
            fail(ProblemModel::Separator(sep))
        } else {
            match enclosed(body, Enclosure::Bracketed) {
                None => under(0, fail(ProblemModel::Expected(Form::Association))),
                Some(k) => match bare_symbols(k) {
                    Some(kinds) => Ok(AssociationModel { ty, kinds }),
                    None => under(0, fail(ProblemModel::Expected(Form::Association))),
                },
            }
        },
    }
}

/// The associations of a bracketed section.
pub open spec fn read_associations(pf: ProtoformModel) -> Result<Seq<AssociationModel>, Fail> {
    match enclosed(pf, Enclosure::Bracketed) {
        Some(c) => read_each(c, association_reader()),
        None => fail(ProblemModel::Expected(Form::Association)),
    }
}

/// The receiver a capability's separator gives it.
pub open spec fn receiver_of(sep: Separator) -> Receiver {
    match sep {
        Separator::Period => Receiver::Shared,
        Separator::Exclamation => Receiver::Mutable,
        Separator::Colon => Receiver::Static,
    }
}

/// What a capability yields: exactly one type expression. An empty list
/// yields nothing; a longer one gives one type too many.
pub open spec fn read_yield(c: Seq<ProtoformModel>) -> Result<TypeExpressionModel, Fail> {
    if c.len() == 0 {
        fail(ProblemModel::Yield)
    } else {
        match expressions_from(c, 0) {
            Err(e) => Err(e),
            Ok(v) => if v.len() == 1 {
                Ok(v[0])
            } else {
                fail(ProblemModel::Arity(1, v.len() as i64))
            },
        }
    }
}

/// `name.[ Yield ]` or `name.{ [ Inputs ] [ Yield ] }`, with `.`, `!` or `:`.
pub open spec fn read_capability(pf: ProtoformModel) -> Result<CapabilityModel, Fail> {
    match headed(pf) {
        None => fail(ProblemModel::Expected(Form::Capability)),
        Some((name, sep, body)) => {
            let receiver = receiver_of(sep);
            match body {
                ProtoformModel::Enclosed(Enclosure::Bracketed, c) => match under(0, read_yield(c)) {
                    Ok(y) => Ok(
                        CapabilityModel { name, receiver, inputs: Seq::empty(), yield_type: y },
                    ),
                    Err(e) => Err(e),
                },
                ProtoformModel::Enclosed(Enclosure::Braced, c) => if c.len() != 2 {
                    under(0, fail(ProblemModel::Arity(2, c.len() as i64)))
                } else {
                    match enclosed(c[0], Enclosure::Bracketed) {
                        None => under(0, under(0, fail(ProblemModel::Expected(Form::Capability)))),
                        Some(ic) => match under(0, under(0, expressions_from(ic, 0))) {
                            Err(e) => Err(e),
                            Ok(inputs) => match enclosed(c[1], Enclosure::Bracketed) {
                                None => under(
                                    0,
                                    under(1, fail(ProblemModel::Expected(Form::Capability))),
                                ),
                                Some(yc) => match under(0, under(1, read_yield(yc))) {
                                    Ok(y) => Ok(
                                        CapabilityModel { name, receiver, inputs, yield_type: y },
                                    ),
                                    Err(e) => Err(e),
                                },
                            },
                        },
                    }
                },
                _ => under(0, fail(ProblemModel::Expected(Form::Capability))),
            }
        },
    }
}

/// One kind constraint: a bare bound, or a bracketed list of bounds.
pub open spec fn read_kind_constraint(pf: ProtoformModel) -> Result<Seq<Seq<char>>, Fail> {
    match enclosed(pf, Enclosure::Bracketed) {
        Some(c) => match bare_symbols(c) {
            Some(b) => Ok(b),
            None => fail(ProblemModel::Expected(Form::Kind)),
        },
        None => match bare_symbol(pf) {
            Some(b) => Ok(seq![b]),
            None => fail(ProblemModel::Expected(Form::Kind)),
        },
    }
}

/// A bracketed list of bare names (the superkinds).
pub open spec fn read_bare_list(pf: ProtoformModel) -> Result<Seq<Seq<char>>, Fail> {
    match enclosed(pf, Enclosure::Bracketed) {
        None => fail(ProblemModel::Expected(Form::Constraint)),
        Some(c) => match bare_symbols(c) {
            Some(b) => Ok(b),
            None => fail(ProblemModel::Expected(Form::Constraint)),
        },
    }
}

/// `Name` or `Name<Bound …>`.
pub open spec fn read_associated_type(pf: ProtoformModel) -> Result<AssociatedTypeModel, Fail> {
    match pf {
        ProtoformModel::Bare(HeadModel::Qualified(name, quals)) => match bare_symbols(quals) {
            Some(constraints) => Ok(AssociatedTypeModel { name, constraints }),
            None => fail(ProblemModel::Expected(Form::Kind)),
        },
        _ => match bare_symbol(pf) {
            Some(name) => Ok(AssociatedTypeModel { name, constraints: Seq::empty() }),
            None => fail(ProblemModel::Expected(Form::Kind)),
        },
    }
}

/// `NAME.Type`.
pub open spec fn read_associated_constant(pf: ProtoformModel) -> Result<
    AssociatedConstantModel,
    Fail,
> {
    match headed(pf) {
        None => fail(ProblemModel::Expected(Form::Constant)),
        Some((name, sep, body)) => if sep != Separator::Period {
            fail(ProblemModel::Separator(sep))
        } else {
            match under(0, expression_with_following(body, None)) {
                Ok((ty, _)) => Ok(AssociatedConstantModel { name, ty }),
                Err(e) => Err(e),
            }
        },
    }
}

/// `Name.[ capabilities ]` (simple) or
/// `Name.{ [superkinds] [associated types] [constants] [capabilities] }` (complex);
/// a qualified head carries the kind's constraints. Another separator than
/// `.` is refused as such.
pub open spec fn read_kind(pf: ProtoformModel) -> Result<KindDeclarationModel, Fail> {
    match headed(pf) {
        None => fail(ProblemModel::Expected(Form::Kind)),
        Some((name, sep, body)) => if sep != Separator::Period {
            fail(ProblemModel::Separator(sep))
        } else {
            let constraints = match head_qualifiers(pf) {
                Some(q) => read_each(q, kind_constraint_reader()),
                None => Ok(Seq::empty()),
            };
            match constraints {
                Err(e) => Err(e),
                Ok(constraints) => match body {
                    ProtoformModel::Enclosed(Enclosure::Bracketed, c) => match under(
                        0,
                        read_each(c, capability_reader()),
                    ) {
                        Ok(capabilities) => Ok(
                            KindDeclarationModel::Simple { name, constraints, capabilities },
                        ),
                        Err(e) => Err(e),
                    },
                    ProtoformModel::Enclosed(Enclosure::Braced, c) => if c.len() != 4 {
                        under(0, fail(ProblemModel::Arity(4, c.len() as i64)))
                    } else {
                        match under(0, under(0, read_bare_list(c[0]))) {
                            Err(e) => Err(e),
                            Ok(superkinds) => match enclosed(c[1], Enclosure::Bracketed) {
                                None => under(0, under(1, fail(ProblemModel::Expected(Form::Kind)))),
                                Some(tc) => match under(
                                    0,
                                    under(1, read_each(tc, associated_type_reader())),
                                ) {
                                    Err(e) => Err(e),
                                    Ok(associated_types) => match enclosed(
                                        c[2],
                                        Enclosure::Bracketed,
                                    ) {
                                        None => under(
                                            0,
                                            under(2, fail(ProblemModel::Expected(Form::Constant))),
                                        ),
                                        Some(kc) => match under(
                                            0,
                                            under(2, read_each(kc, associated_constant_reader())),
                                        ) {
                                            Err(e) => Err(e),
                                            Ok(associated_constants) => match enclosed(
                                                c[3],
                                                Enclosure::Bracketed,
                                            ) {
                                                None => under(
                                                    0,
                                                    under(
                                                        3,
                                                        fail(ProblemModel::Expected(Form::Capability)),
                                                    ),
                                                ),
                                                Some(cc) => match under(
                                                    0,
                                                    under(3, read_each(cc, capability_reader())),
                                                ) {
                                                    Err(e) => Err(e),
                                                    Ok(capabilities) => Ok(
                                                        KindDeclarationModel::Complex {
                                                            name,
                                                            constraints,
                                                            superkinds,
                                                            associated_types,
                                                            associated_constants,
                                                            capabilities,
                                                        },
                                                    ),
                                                },
                                            },
                                        },
                                    },
                                },
                            },
                        }
                    },
                    _ => under(0, fail(ProblemModel::Expected(Form::Kind))),
                },
            }
        },
    }
}

/// The kind declarations of a bracketed section.
pub open spec fn read_kinds(pf: ProtoformModel) -> Result<Seq<KindDeclarationModel>, Fail> {
    match enclosed(pf, Enclosure::Bracketed) {
        Some(c) => read_each(c, kind_reader()),
        None => fail(ProblemModel::Expected(Form::Kind)),
    }
}

/// The sections of a file variant, read in order.
pub open spec fn read_sections(head: Seq<char>, s: Seq<ProtoformModel>) -> Result<
    FileModel,
    Fail,
> {
    if head == "Types"@ {
        if s.len() != 3 {
            fail(ProblemModel::Arity(3, s.len() as i64))
        } else {
            match under(0, read_imports(s[0])) {
                Err(e) => Err(e),
                Ok(imports) => match under(1, read_type_declarations(s[1])) {
                    Err(e) => Err(e),
                    Ok(types) => match under(2, read_associations(s[2])) {
                        Err(e) => Err(e),
                        Ok(associations) => Ok(FileModel::Types { imports, types, associations }),
                    },
                },
            }
        }
    } else if head == "Kinds"@ {
        if s.len() != 2 {
            fail(ProblemModel::Arity(2, s.len() as i64))
        } else {
            match under(0, read_imports(s[0])) {
                Err(e) => Err(e),
                Ok(imports) => match under(1, read_kinds(s[1])) {
                    Err(e) => Err(e),
                    Ok(kinds) => Ok(FileModel::Kinds { imports, kinds }),
                },
            }
        }
    } else if head == "Signal"@ {
        if s.len() != 4 {
            fail(ProblemModel::Arity(4, s.len() as i64))
        } else {
            match under(0, read_imports(s[0])) {
                Err(e) => Err(e),
                Ok(imports) => match under(1, read_variant_list(s[1])) {
                    Err(e) => Err(e),
                    Ok(requests) => match under(2, read_variant_list(s[2])) {
                        Err(e) => Err(e),
                        Ok(responses) => match under(3, read_type_declarations(s[3])) {
                            Err(e) => Err(e),
                            Ok(types) => Ok(
                                FileModel::Signal { imports, requests, responses, types },
                            ),
                        },
                    },
                },
            }
        }
    } else if head == "Sema"@ {
        if s.len() != 2 {
            fail(ProblemModel::Arity(2, s.len() as i64))
        } else {
            match under(0, read_imports(s[0])) {
                Err(e) => Err(e),
                Ok(imports) => match under(1, read_type_declarations(s[1])) {
                    Err(e) => Err(e),
                    Ok(types) => Ok(FileModel::Sema { imports, types }),
                },
            }
        }
    } else {
        fail(ProblemModel::Root)
    }
}

/// A file: exactly one protoform, `Root.{ sections }`, under one of the four
/// roots; a root head joined to its body by any separator but `.` is refused
/// as such.
pub open spec fn read_file(d: Seq<ProtoformModel>) -> Result<FileModel, Fail> {
    if d.len() != 1 {
        fail(ProblemModel::Root)
    } else {
        match headed(d[0]) {
            None => fail(ProblemModel::Root),
            Some((head, sep, body)) => if sep != Separator::Period {
                fail(ProblemModel::Separator(sep))
            } else {
                match enclosed(body, Enclosure::Braced) {
                    None => fail(ProblemModel::Root),
                    Some(sections) => read_sections(head, sections),
                }
            },
        }
    }
}

/// The four roots.
pub open spec fn root_name(h: Seq<char>) -> bool {
    h == "Types"@ || h == "Kinds"@ || h == "Signal"@ || h == "Sema"@
}

/// The file one protoform carries: `Root.{ sections }`, with a bare root
/// head among the four joined by `.`. Faults of the root itself are at the
/// empty path, those of its body under `0`: a body that is not braced is
/// not the file's, and a section that does not read faults the body.
pub open spec fn root_reading(pf: ProtoformModel) -> Result<FileModel, (Seq<i64>, ProblemModel)> {
    match pf {
        ProtoformModel::Headed(HeadModel::Bare(head), sep, body) => if sep != Separator::Period {
            Err((Seq::empty(), ProblemModel::Separator(sep)))
        } else if !root_name(head) {
            Err((Seq::empty(), ProblemModel::Root))
        } else {
            match enclosed(*body, Enclosure::Braced) {
                None => Err((seq![0i64], ProblemModel::Expected(Form::File))),
                Some(sections) => under(0, read_sections(head, sections)),
            }
        },
        _ => Err((Seq::empty(), ProblemModel::Root)),
    }
}

// The readers of one element, as values, for `read_each`.

pub open spec fn import_reader() -> spec_fn(ProtoformModel) -> Result<ImportModel, Fail> {
    |p: ProtoformModel| read_import(p)
}

pub open spec fn association_reader() -> spec_fn(ProtoformModel) -> Result<
    AssociationModel,
    Fail,
> {
    |p: ProtoformModel| read_association(p)
}

pub open spec fn kind_constraint_reader() -> spec_fn(ProtoformModel) -> Result<
    Seq<Seq<char>>,
    Fail,
> {
    |p: ProtoformModel| read_kind_constraint(p)
}

pub open spec fn capability_reader() -> spec_fn(ProtoformModel) -> Result<
    CapabilityModel,
    Fail,
> {
    |p: ProtoformModel| read_capability(p)
}

pub open spec fn associated_type_reader() -> spec_fn(ProtoformModel) -> Result<
    AssociatedTypeModel,
    Fail,
> {
    |p: ProtoformModel| read_associated_type(p)
}

pub open spec fn associated_constant_reader() -> spec_fn(ProtoformModel) -> Result<
    AssociatedConstantModel,
    Fail,
> {
    |p: ProtoformModel| read_associated_constant(p)
}

pub open spec fn kind_reader() -> spec_fn(ProtoformModel) -> Result<KindDeclarationModel, Fail> {
    |p: ProtoformModel| read_kind(p)
}

/// A capability's separator decides its receiver: `name.…` reads shared,
/// `name!…` mutable and `name:…` static.
pub proof fn lemma_capability_receiver(pf: ProtoformModel)
    requires
        read_capability(pf) is Ok,
    ensures
        pf matches ProtoformModel::Headed(_, sep, _) && read_capability(pf)->Ok_0.receiver == (
        match sep {
            Separator::Period => Receiver::Shared,
            Separator::Exclamation => Receiver::Mutable,
            Separator::Colon => Receiver::Static,
        }),
{
}

/// `name<sep>[ Type ]` reads as the capability `name` yielding `Type`, with
/// the receiver its separator gives: `.` shared, `!` mutable, `:` static.
pub proof fn lemma_capability_reads(name: Seq<char>, sep: Separator, ty: Seq<char>)
    requires
        ty != "Self"@,
    ensures
        read_capability(
            ProtoformModel::Headed(
                HeadModel::Bare(name),
                sep,
                Box::new(
                    ProtoformModel::Enclosed(
                        Enclosure::Bracketed,
                        seq![ProtoformModel::Bare(HeadModel::Bare(ty))],
                    ),
                ),
            ),
        ) == Ok::<CapabilityModel, Fail>(
            CapabilityModel {
                name,
                receiver: match sep {
                    Separator::Period => Receiver::Shared,
                    Separator::Exclamation => Receiver::Mutable,
                    Separator::Colon => Receiver::Static,
                },
                inputs: Seq::empty(),
                yield_type: TypeExpressionModel::Named(ty),
            },
        ),
{
    let c = seq![ProtoformModel::Bare(HeadModel::Bare(ty))];
    assert(expressions_from(c, 1) == Ok::<Seq<TypeExpressionModel>, Fail>(Seq::empty()));
    assert(c[0] == ProtoformModel::Bare(HeadModel::Bare(ty)));
    assert(expression_at(c, 0) == Ok::<(TypeExpressionModel, bool), Fail>(
        (TypeExpressionModel::Named(ty), false),
    ));
    assert(under(0, expression_at(c, 0)) == Ok::<(TypeExpressionModel, bool), Fail>(
        (TypeExpressionModel::Named(ty), false),
    ));
    assert(expressions_from(c, 0) == Ok::<Seq<TypeExpressionModel>, Fail>(
        seq![TypeExpressionModel::Named(ty)],
    )) by {
        assert(seq![TypeExpressionModel::Named(ty)] + Seq::<TypeExpressionModel>::empty() =~= seq![
            TypeExpressionModel::Named(ty),
        ]);
    }
}

} // verus!


