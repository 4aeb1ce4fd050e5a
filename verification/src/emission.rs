//! What the emitter writes: the Rust token text of a file, and where it halts.
//!
//! The emitted text is the token stream of the generated module written out
//! token by token, each token followed by one space (`::`, `->` and `=>` are
//! written joined). Emission halts in two ways, in the order the emitter
//! meets them: a generation fault (a container applied to the wrong number of
//! arguments) or a name that is not a Rust identifier, on which the
//! identifier constructor panics.

use vstd::prelude::*;
use crate::concept::{
    AssociationModel, CapabilityModel, FileModel, ImportModel, KindDeclarationModel, Receiver,
    TypeDeclarationModel, TypeExpressionModel, VariantModel, AssociatedTypeModel,
    AssociatedConstantModel,
};

verus! {

// ===========================================================================
// Outside names
// ===========================================================================

/// `unicode_ident::is_xid_start`: the Unicode `XID_Start` property.
pub uninterp spec fn xid_start(c: char) -> bool;

/// `unicode_ident::is_xid_continue`: the Unicode `XID_Continue` property.
pub uninterp spec fn xid_continue(c: char) -> bool;

/// `str::to_lowercase`: the Unicode lowercase mapping of a text.
pub uninterp spec fn lowercase(s: Seq<char>) -> Seq<char>;

/// Calls `unicode_ident::is_xid_start`; its result is named [`xid_start`].
#[verifier::external_body]
pub(crate) fn is_xid_start(c: char) -> (r: bool)
    ensures
        r == xid_start(c),
{
    unicode_ident::is_xid_start(c)
}

/// Calls `unicode_ident::is_xid_continue`; its result is named [`xid_continue`].
#[verifier::external_body]
pub(crate) fn is_xid_continue(c: char) -> (r: bool)
    ensures
        r == xid_continue(c),
{
    unicode_ident::is_xid_continue(c)
}

/// Calls `str::to_lowercase`; its result is named [`lowercase`].
#[verifier::external_body]
pub(crate) fn to_lowercase(s: &String) -> (r: String)
    ensures
        r@ == lowercase(s@),
{
    s.to_lowercase()
}

// ===========================================================================
// Halts
// ===========================================================================

/// How emission stops short of a text.
#[derive(Clone, Copy, Debug, PartialEq, Eq, Structural)]
pub enum Halt {
    /// A generation fault.
    Fault,
    /// A name the identifier constructor refuses by panicking.
    Panic,
}

/// The first of two halts, in the order they are met.
pub open spec fn first(a: Option<Halt>, b: Option<Halt>) -> Option<Halt> {
    match a {
        Some(h) => Some(h),
        None => b,
    }
}

/// A name the identifier constructor accepts: not empty, not a number, an
/// identifier start (or `_`) followed by identifier continuations.
pub open spec fn plain_ident_ok(s: Seq<char>) -> bool {
    &&& s.len() > 0
    &&& !(forall|i: int| 0 <= i < s.len() ==> '0' <= #[trigger] s[i] <= '9')
    &&& (s[0] == '_' || xid_start(s[0]))
    &&& forall|i: int| 1 <= i < s.len() ==> xid_continue(#[trigger] s[i])
}

/// The names that cannot be raw identifiers.
pub open spec fn reserved_raw(s: Seq<char>) -> bool {
    s == "_"@ || s == "super"@ || s == "self"@ || s == "Self"@ || s == "crate"@
}

/// A raw identifier: `r#` before a plain identifier that may be raw.
pub open spec fn raw_ident_ok(s: Seq<char>) -> bool {
    &&& s.len() >= 2
    &&& s[0] == 'r'
    &&& s[1] == '#'
    &&& plain_ident_ok(s.subrange(2, s.len() as int))
    &&& !reserved_raw(s.subrange(2, s.len() as int))
}

/// What the identifier constructor accepts: a plain identifier, or a raw one.
pub open spec fn rust_ident_ok(s: Seq<char>) -> bool {
    plain_ident_ok(s) || raw_ident_ok(s)
}

/// Making an identifier of `n`.
pub open spec fn ih(n: Seq<char>) -> Option<Halt> {
    if rust_ident_ok(n) {
        None
    } else {
        Some(Halt::Panic)
    }
}

/// An emission into `out` went as specified: on no halt it appended the text,
/// otherwise it stopped with the halt.
pub open spec fn emitted(
    r: Result<(), Halt>,
    before: Seq<char>,
    after: Seq<char>,
    h: Option<Halt>,
    text: Seq<char>,
) -> bool {
    match h {
        None => r == Ok::<(), Halt>(()) && after == before + text,
        Some(x) => r == Err::<(), Halt>(x),
    }
}

// ===========================================================================
// Names
// ===========================================================================

pub open spec fn sp(n: Seq<char>) -> Seq<char> {
    n + seq![' ']
}

/// The names that stand for themselves under `protos`.
pub open spec fn scalar_name(n: Seq<char>) -> bool {
    n == "Text"@ || n == "Integer"@ || n == "Decimal"@ || n == "Boolean"@ || n == "Symbol"@
}

/// The intrinsic names: a declaration of one as an alias of itself emits nothing.
pub open spec fn intrinsic_name(n: Seq<char>) -> bool {
    scalar_name(n) || n == "Meaning"@ || n == "Vector"@ || n == "Option"@ || n == "Result"@ || n
        == "Self"@
}

/// Where the imports bring a name from: the last import that names it, with
/// its source and the name the source gives it (another where it renames).
pub open spec fn import_origin(imports: Seq<ImportModel>, name: Seq<char>) -> Option<
    (Seq<char>, Seq<char>),
>
    decreases imports.len(),
{
    if imports.len() == 0 {
        None
    } else {
        match imports.last() {
            ImportModel::Single(s, n) => if n == name {
                Some((s, n))
            } else {
                import_origin(imports.drop_last(), name)
            },
            ImportModel::Multiple(s, ns) => if ns.contains(name) {
                Some((s, name))
            } else {
                import_origin(imports.drop_last(), name)
            },
            ImportModel::Renamed(s, n, e) => if n == name {
                Some((s, e))
            } else {
                import_origin(imports.drop_last(), name)
            },
        }
    }
}

/// A name in a type position: intrinsics under their crate, imports under their source.
pub open spec fn name_text(n: Seq<char>, imports: Seq<ImportModel>) -> Seq<char> {
    if scalar_name(n) {
        "protos :: "@ + sp(n)
    } else if n == "Meaning"@ {
        "datomic :: Meaning "@
    } else {
        match import_origin(imports, n) {
            Some((m, e)) => sp(m) + ":: "@ + sp(e),
            None => sp(n),
        }
    }
}

pub open spec fn name_halt(n: Seq<char>, imports: Seq<ImportModel>) -> Option<Halt> {
    if scalar_name(n) {
        ih(n)
    } else if n == "Meaning"@ {
        None
    } else {
        match import_origin(imports, n) {
            Some((m, e)) => first(ih(m), ih(e)),
            None => ih(n),
        }
    }
}

// ===========================================================================
// Type expressions
// ===========================================================================

/// The containers that Rust spells itself, and how many arguments each takes.
pub open spec fn container_arity(c: Seq<char>) -> Option<nat> {
    if c == "Vector"@ || c == "Option"@ || c == "Box"@ {
        Some(1)
    } else if c == "Result"@ {
        Some(2)
    } else {
        None
    }
}

pub open spec fn constructor_text(c: Seq<char>, imports: Seq<ImportModel>) -> Seq<char> {
    if c == "Vector"@ {
        "Vec "@
    } else if container_arity(c) is Some {
        sp(c)
    } else {
        bound_text(c, imports)
    }
}

/// A name that an import may bring: under its source when one does.
pub open spec fn bound_text(n: Seq<char>, imports: Seq<ImportModel>) -> Seq<char> {
    match import_origin(imports, n) {
        Some((m, e)) => sp(m) + ":: "@ + sp(e),
        None => sp(n),
    }
}

pub open spec fn constructor_halt(c: Seq<char>, imports: Seq<ImportModel>) -> Option<Halt> {
    match import_origin(imports, c) {
        Some((m, e)) => first(ih(m), ih(e)),
        None => ih(c),
    }
}

pub open spec fn expr_text(t: TypeExpressionModel, imports: Seq<ImportModel>) -> Seq<char>
    decreases t, 0int,
{
    match t {
        TypeExpressionModel::Named(n) => name_text(n, imports),
        TypeExpressionModel::Applied(c, args) => constructor_text(c, imports) + "< "@ + args_text(
            args,
            imports,
            0,
        ) + "> "@,
        TypeExpressionModel::SelfType => "Self "@,
    }
}

/// The arguments from position `i` on, separated by commas.
pub open spec fn args_text(args: Seq<TypeExpressionModel>, imports: Seq<ImportModel>, i: int) -> Seq<
    char,
>
    decreases args, args.len() + 1 - i,
{
    if 0 <= i < args.len() {
        expr_text(args[i], imports) + (if i + 1 < args.len() {
            ", "@
        } else {
            Seq::empty()
        }) + args_text(args, imports, i + 1)
    } else {
        Seq::empty()
    }
}

pub open spec fn expr_halt(t: TypeExpressionModel, imports: Seq<ImportModel>) -> Option<Halt>
    decreases t, 0int,
{
    match t {
        TypeExpressionModel::Named(n) => name_halt(n, imports),
        TypeExpressionModel::Applied(c, args) => first(
            args_halt(args, imports, 0),
            match container_arity(c) {
                Some(k) => if args.len() == k {
                    None
                } else {
                    Some(Halt::Fault)
                },
                None => constructor_halt(c, imports),
            },
        ),
        TypeExpressionModel::SelfType => None,
    }
}

pub open spec fn args_halt(args: Seq<TypeExpressionModel>, imports: Seq<ImportModel>, i: int) -> Option<
    Halt,
>
    decreases args, args.len() + 1 - i,
{
    if 0 <= i < args.len() {
        first(expr_halt(args[i], imports), args_halt(args, imports, i + 1))
    } else {
        None
    }
}

/// The type, boxed where it reaches the enclosing type.
pub open spec fn boxed_text(
    t: TypeExpressionModel,
    imports: Seq<ImportModel>,
    boxing: Option<Seq<char>>,
) -> Seq<char> {
    if boxing is Some && reaches(t, boxing->0) {
        "Box < "@ + expr_text(t, imports) + "> "@
    } else {
        expr_text(t, imports)
    }
}

/// Positional fields from `i` on: `pub T ,` each.
pub open spec fn fields_text(
    fields: Seq<TypeExpressionModel>,
    imports: Seq<ImportModel>,
    boxing: Option<Seq<char>>,
    i: int,
) -> Seq<char>
    decreases fields.len() - i,
{
    if 0 <= i < fields.len() {
        "pub "@ + boxed_text(fields[i], imports, boxing) + ", "@ + fields_text(
            fields,
            imports,
            boxing,
            i + 1,
        )
    } else {
        Seq::empty()
    }
}

/// The halts of a list of types from `i` on, in order.
pub open spec fn types_halt(fields: Seq<TypeExpressionModel>, imports: Seq<ImportModel>, i: int) -> Option<
    Halt,
>
    decreases fields.len() - i,
{
    if 0 <= i < fields.len() {
        first(expr_halt(fields[i], imports), types_halt(fields, imports, i + 1))
    } else {
        None
    }
}

// ===========================================================================
// Recursion and derives
// ===========================================================================

/// Whether a position reaches the enclosing type: it names it, or is an
/// application (other than a vector, which holds its elements on the heap)
/// of it or of something that reaches it.
pub open spec fn reaches(t: TypeExpressionModel, enclosing: Seq<char>) -> bool
    decreases t, 0int,
{
    match t {
        TypeExpressionModel::Named(n) => n == enclosing,
        TypeExpressionModel::Applied(c, args) => c != "Vector"@ && (c == enclosing || args_reach(
            args,
            enclosing,
            0,
        )),
        TypeExpressionModel::SelfType => false,
    }
}

/// Whether some argument from `i` on reaches the enclosing type.
pub open spec fn args_reach(args: Seq<TypeExpressionModel>, enclosing: Seq<char>, i: int) -> bool
    decreases args, args.len() - i,
{
    if 0 <= i < args.len() {
        reaches(args[i], enclosing) || args_reach(args, enclosing, i + 1)
    } else {
        false
    }
}

/// Some field reaches the enclosing type.
pub open spec fn fields_recursive(f: Seq<TypeExpressionModel>, enclosing: Seq<char>) -> bool {
    exists|j: int| 0 <= j < f.len() && reaches(#[trigger] f[j], enclosing)
}

/// Some variant reaches the enclosing type, at any depth of inline enums.
pub open spec fn variants_recursive(vs: Seq<VariantModel>, enclosing: Seq<char>) -> bool {
    variants_recursive_from(vs, enclosing, 0)
}

/// Some variant from position `i` on reaches the enclosing type.
pub open spec fn variants_recursive_from(vs: Seq<VariantModel>, enclosing: Seq<char>, i: int) -> bool
    decreases vs, vs.len() + 1 - i,
{
    if 0 <= i < vs.len() {
        variant_recursive(vs[i], enclosing) || variants_recursive_from(vs, enclosing, i + 1)
    } else {
        false
    }
}

pub open spec fn variant_recursive(v: VariantModel, enclosing: Seq<char>) -> bool
    decreases v, 0int,
{
    match v {
        VariantModel::Unit(_) => false,
        VariantModel::Typed(_, t) => reaches(t, enclosing),
        VariantModel::InlineStruct(_, f) => fields_recursive(f, enclosing),
        VariantModel::InlineEnum(_, inner) => variants_recursive_from(inner, enclosing, 0),
    }
}

pub open spec fn all_unit(vs: Seq<VariantModel>) -> bool {
    vs.len() > 0 && forall|i: int| 0 <= i < vs.len() ==> #[trigger] vs[i] is Unit
}

pub open spec fn struct_derive() -> Seq<char> {
    "# [ derive ( Clone , Debug , PartialEq , Eq ) ] "@
}

pub open spec fn enum_derive_text(unit_only: bool) -> Seq<char> {
    if unit_only {
        "# [ derive ( Clone , Copy , Debug , PartialEq , Eq ) ] "@
    } else {
        struct_derive()
    }
}

// ===========================================================================
// Variant declarations
// ===========================================================================

pub open spec fn variant_name(v: VariantModel) -> Seq<char> {
    match v {
        VariantModel::Unit(n) => n,
        VariantModel::Typed(n, _) => n,
        VariantModel::InlineStruct(n, _) => n,
        VariantModel::InlineEnum(n, _) => n,
    }
}

/// A variant inside its enum, without the comma after it.
pub open spec fn variant_token(
    parent: Seq<char>,
    v: VariantModel,
    imports: Seq<ImportModel>,
    boxing: Option<Seq<char>>,
) -> Seq<char> {
    match v {
        VariantModel::Unit(n) => sp(n),
        VariantModel::Typed(n, t) => sp(n) + "( "@ + boxed_text(t, imports, boxing) + ") "@,
        VariantModel::InlineStruct(n, f) => sp(n) + "( "@ + tuple_fields_text(f, imports, boxing, 0)
            + ") "@,
        VariantModel::InlineEnum(n, _) => sp(n) + "( "@ + sp(parent + n) + ") "@,
    }
}

/// The fields of a tuple variant from `i` on: `T ,` each, boxed where they
/// reach the enclosing type.
pub open spec fn tuple_fields_text(
    fields: Seq<TypeExpressionModel>,
    imports: Seq<ImportModel>,
    boxing: Option<Seq<char>>,
    i: int,
) -> Seq<char>
    decreases fields.len() - i,
{
    if 0 <= i < fields.len() {
        boxed_text(fields[i], imports, boxing) + ", "@ + tuple_fields_text(
            fields,
            imports,
            boxing,
            i + 1,
        )
    } else {
        Seq::empty()
    }
}

/// The variants from `i` on, each followed by a comma.
pub open spec fn variant_tokens(
    parent: Seq<char>,
    vs: Seq<VariantModel>,
    imports: Seq<ImportModel>,
    boxing: Option<Seq<char>>,
    i: int,
) -> Seq<char>
    decreases vs.len() - i,
{
    if 0 <= i < vs.len() {
        variant_token(parent, vs[i], imports, boxing) + ", "@ + variant_tokens(
            parent,
            vs,
            imports,
            boxing,
            i + 1,
        )
    } else {
        Seq::empty()
    }
}

/// The types an inline variant declares before its enum.
pub open spec fn inline_type(
    parent: Seq<char>,
    v: VariantModel,
    imports: Seq<ImportModel>,
    boxing: Option<Seq<char>>,
    wire: bool,
) -> Seq<char>
    decreases v, 0int,
{
    match v {
        VariantModel::InlineEnum(n, inner) => inline_types(parent + n, inner, imports, boxing, wire, 0)
            + wire_derive(wire) + enum_derive_text(all_unit(inner)) + "pub enum "@ + sp(parent + n) + "{ "@
            + variant_tokens(parent + n, inner, imports, boxing, 0) + "} "@,
        _ => Seq::empty(),
    }
}

pub open spec fn inline_types(
    parent: Seq<char>,
    vs: Seq<VariantModel>,
    imports: Seq<ImportModel>,
    boxing: Option<Seq<char>>,
    wire: bool,
    i: int,
) -> Seq<char>
    decreases vs, vs.len() + 1 - i,
{
    if 0 <= i < vs.len() {
        inline_type(parent, vs[i], imports, boxing, wire) + inline_types(
            parent,
            vs,
            imports,
            boxing,
            wire,
            i + 1,
        )
    } else {
        Seq::empty()
    }
}

pub open spec fn variant_decl_halt(
    parent: Seq<char>,
    v: VariantModel,
    imports: Seq<ImportModel>,
) -> Option<Halt>
    decreases v, 0int,
{
    match v {
        VariantModel::Unit(n) => ih(n),
        VariantModel::Typed(n, t) => first(ih(n), expr_halt(t, imports)),
        VariantModel::InlineStruct(n, f) => first(ih(n), types_halt(f, imports, 0)),
        VariantModel::InlineEnum(n, inner) => first(
            ih(n),
            first(ih(parent + n), variant_decls_halt(parent + n, inner, imports, 0)),
        ),
    }
}

pub open spec fn variant_decls_halt(
    parent: Seq<char>,
    vs: Seq<VariantModel>,
    imports: Seq<ImportModel>,
    i: int,
) -> Option<Halt>
    decreases vs, vs.len() + 1 - i,
{
    if 0 <= i < vs.len() {
        first(variant_decl_halt(parent, vs[i], imports), variant_decls_halt(parent, vs, imports, i + 1))
    } else {
        None
    }
}

// ===========================================================================
// Type declarations
// ===========================================================================

/// The boxing context of an enum's own variants: itself, where it recurs.
pub open spec fn enum_boxing(name: Seq<char>, vs: Seq<VariantModel>) -> Option<Seq<char>> {
    if variants_recursive(vs, name) {
        Some(name)
    } else {
        None
    }
}

/// The boxing context of a struct's own fields: itself, where it recurs.
pub open spec fn struct_boxing(name: Seq<char>, f: Seq<TypeExpressionModel>) -> Option<Seq<char>> {
    if fields_recursive(f, name) {
        Some(name)
    } else {
        None
    }
}

/// The derive of a wire type: what the signal sends is archived with rkyv.
pub open spec fn wire_derive(wire: bool) -> Seq<char> {
    if wire {
        "# [ derive ( rkyv :: Archive , rkyv :: Serialize , rkyv :: Deserialize ) ] "@
    } else {
        Seq::empty()
    }
}

/// A type declaration as Rust; a wire type also derives rkyv's traits.
pub open spec fn declaration_text(
    d: TypeDeclarationModel,
    imports: Seq<ImportModel>,
    wire: bool,
) -> Seq<char> {
    match d {
        TypeDeclarationModel::Struct(n, f) => wire_derive(wire) + struct_derive() + "pub struct "@ + sp(n) + "( "@
            + fields_text(f, imports, struct_boxing(n, f), 0) + ") ; "@,
        TypeDeclarationModel::Enum(n, vs) => {
            let boxing = enum_boxing(n, vs);
            inline_types(n, vs, imports, boxing, wire, 0) + wire_derive(wire) + enum_derive_text(
                all_unit(vs),
            ) + "pub enum "@
                + sp(n) + "{ "@ + variant_tokens(n, vs, imports, boxing, 0) + "} "@ + if boxing is Some {
                "datomic :: impl_datomic_box ! ( "@ + sp(n) + ") ; "@
            } else {
                Seq::empty()
            }
        },
        TypeDeclarationModel::Alias(n, t) => if t == TypeExpressionModel::Named(n) && intrinsic_name(
            n,
        ) {
            Seq::empty()
        } else {
            "pub type "@ + sp(n) + "= "@ + expr_text(t, imports) + "; "@
        },
    }
}

pub open spec fn declaration_halt(d: TypeDeclarationModel, imports: Seq<ImportModel>) -> Option<
    Halt,
> {
    match d {
        TypeDeclarationModel::Struct(n, f) => first(ih(n), types_halt(f, imports, 0)),
        TypeDeclarationModel::Enum(n, vs) => first(ih(n), variant_decls_halt(n, vs, imports, 0)),
        TypeDeclarationModel::Alias(n, t) => first(expr_halt(t, imports), ih(n)),
    }
}

// ===========================================================================
// Datom impls
// ===========================================================================

/// The decimal digits of a number.
pub open spec fn dec(n: nat) -> Seq<char>
    decreases n,
{
    if n < 10 {
        seq![((48 + n) as u8) as char]
    } else {
        dec(n / 10).push(((48 + n % 10) as u8) as char)
    }
}

pub open spec fn conceivable_head(n: Seq<char>) -> Seq<char> {
    "impl protos :: Conceivable < datomic :: Datom > for "@ + sp(n)
        + "{ type Fault = std :: convert :: Infallible ; fn conceive ( & self ) -> std :: result :: Result < datomic :: Datom , std :: convert :: Infallible > { "@
}

pub open spec fn datomic_head(n: Seq<char>) -> Seq<char> {
    "impl datomic :: Datomic for "@ + sp(n)
        + "{ fn incorporate_from ( datom : datomic :: Datom ) -> std :: result :: Result < Self , datomic :: Fault > { match datom { "@
}

pub open spec fn incorporable(n: Seq<char>) -> Seq<char> {
    "impl protos :: Incorporable < "@ + sp(n)
        + "> for datomic :: Datom { type Fault = datomic :: Fault ; fn incorporate ( self ) -> std :: result :: Result < "@
        + sp(n) + ", datomic :: Fault > { < "@ + sp(n)
        + "as datomic :: Datomic > :: incorporate_from ( self ) } } "@
}

/// Whether a position is boxed under the boxing context.
pub open spec fn boxes(t: TypeExpressionModel, boxing: Option<Seq<char>>) -> bool {
    boxing is Some && reaches(t, boxing->0)
}

/// One datom conceived from what `of` names (a boxed one seen through its box).
pub open spec fn datom_of(of: Seq<char>, boxed: bool) -> Seq<char> {
    "protos :: Conceivable :: < datomic :: Datom > :: conceive ( "@ + (if boxed {
        "& * "@
    } else {
        Seq::empty()
    }) + of + ") . unwrap_or_else ( | e | match e { } ) , "@
}

/// Each field's datom, from position `i` on.
pub open spec fn field_conceives(
    fields: Seq<TypeExpressionModel>,
    boxing: Option<Seq<char>>,
    i: int,
) -> Seq<char>
    decreases fields.len() - i,
{
    if 0 <= i < fields.len() {
        datom_of("& self . "@ + sp(dec(i as nat)), boxes(fields[i], boxing)) + field_conceives(
            fields,
            boxing,
            i + 1,
        )
    } else {
        Seq::empty()
    }
}

/// The name a tuple variant's `i`-th field is bound to.
pub open spec fn binder(i: nat) -> Seq<char> {
    "f"@ + dec(i)
}

/// The binders of a tuple variant's fields from `i` on, `fI ,` each.
pub open spec fn binders(n: nat, i: nat) -> Seq<char>
    decreases n - i,
{
    if i < n {
        sp(binder(i)) + ", "@ + binders(n, i + 1)
    } else {
        Seq::empty()
    }
}

/// Each bound field's datom, from position `i` on.
pub open spec fn binder_conceives(
    fields: Seq<TypeExpressionModel>,
    boxing: Option<Seq<char>>,
    i: int,
) -> Seq<char>
    decreases fields.len() - i,
{
    if 0 <= i < fields.len() {
        datom_of(
            (if boxes(fields[i], boxing) {
                "* "@
            } else {
                Seq::empty()
            }) + sp(binder(i as nat)),
            boxes(fields[i], boxing),
        ) + binder_conceives(fields, boxing, i + 1)
    } else {
        Seq::empty()
    }
}

/// Each field incorporated from the next datom, from `i` on.
pub open spec fn field_incorporates(
    fields: Seq<TypeExpressionModel>,
    imports: Seq<ImportModel>,
    boxing: Option<Seq<char>>,
    i: int,
) -> Seq<char>
    decreases fields.len() - i,
{
    if 0 <= i < fields.len() {
        (if boxes(fields[i], boxing) {
            "Box :: new ( < "@ + expr_text(fields[i], imports)
                + "as datomic :: Datomic > :: incorporate_from ( iter . next ( ) . unwrap ( ) ) ? ) , "@
        } else {
            "< "@ + expr_text(fields[i], imports)
                + "as datomic :: Datomic > :: incorporate_from ( iter . next ( ) . unwrap ( ) ) ? , "@
        }) + field_incorporates(fields, imports, boxing, i + 1)
    } else {
        Seq::empty()
    }
}

pub open spec fn struct_datomic_text(
    n: Seq<char>,
    fields: Seq<TypeExpressionModel>,
    imports: Seq<ImportModel>,
    boxing: Option<Seq<char>>,
) -> Seq<char> {
    conceivable_head(n) + "Ok ( datomic :: Datom :: Struct ( vec ! [ "@ + field_conceives(
        fields,
        boxing,
        0,
    ) + "] ) ) } } "@ + datomic_head(n)
        + "datomic :: Datom :: Struct ( fields ) if fields . len ( ) == "@ + dec(fields.len())
        + "usize => { let mut iter = fields . into_iter ( ) ; Ok ( Self ( "@ + field_incorporates(
        fields,
        imports,
        boxing,
        0,
    ) + ") ) } datomic :: Datom :: Struct ( fields ) => { Err ( datomic :: Fault :: Corporate ( vec ! [ ] , datomic :: Problem :: Arity ( "@
        + dec(fields.len())
        + "i64 , fields . len ( ) as protos :: Integer ) ) ) } other => Err ( datomic :: Fault :: Corporate ( vec ! [ ] , datomic :: Problem :: Shape ( datomic :: Expected :: Struct , other ) ) ) , } } } "@
        + incorporable(n)
}

pub open spec fn struct_datomic_halt(
    n: Seq<char>,
    fields: Seq<TypeExpressionModel>,
    imports: Seq<ImportModel>,
) -> Option<Halt> {
    first(
        ih(n),
        first(
            types_halt(fields, imports, 0),
            if fields.len() >= 0xffff_ffff {
                Some(Halt::Panic)
            } else {
                None
            },
        ),
    )
}

pub open spec fn variant_arm_head(m: Seq<char>) -> Seq<char> {
    "datomic :: Datom :: Variant ( ref head , protos :: Separator :: Period , Some ( body ) ) if head == stringify ! ( "@
        + sp(m) + ") => { Ok ( Self :: "@ + sp(m) + "( "@
}

/// The arm that incorporates one variant from its datom.
pub open spec fn incorporate_arm(
    parent: Seq<char>,
    v: VariantModel,
    imports: Seq<ImportModel>,
    boxing: Option<Seq<char>>,
) -> Seq<char> {
    match v {
        VariantModel::Unit(m) => "datomic :: Datom :: Bare ( ref s ) if s == stringify ! ( "@ + sp(
            m,
        ) + ") => Ok ( Self :: "@ + sp(m) + ") , "@,
        VariantModel::Typed(m, t) => if boxing is Some && reaches(t, boxing->0) {
            variant_arm_head(m) + "Box :: new ( < "@ + expr_text(t, imports)
                + "as datomic :: Datomic > :: incorporate_from ( * body ) ? ) ) ) } "@
        } else {
            variant_arm_head(m) + "< "@ + expr_text(t, imports)
                + "as datomic :: Datomic > :: incorporate_from ( * body ) ? ) ) } "@
        },
        VariantModel::InlineStruct(m, f) => tuple_arm(m, f, imports, boxing),
        VariantModel::InlineEnum(m, _) => variant_arm_head(m) + "< "@ + sp(parent + m)
            + "as datomic :: Datomic > :: incorporate_from ( * body ) ? ) ) } "@,
    }
}

/// The arm that incorporates a tuple variant from the struct datom it carries.
pub open spec fn tuple_arm(
    m: Seq<char>,
    f: Seq<TypeExpressionModel>,
    imports: Seq<ImportModel>,
    boxing: Option<Seq<char>>,
) -> Seq<char> {
    "datomic :: Datom :: Variant ( ref head , protos :: Separator :: Period , Some ( body ) ) if head == stringify ! ( "@
        + sp(m)
        + ") => { match * body { datomic :: Datom :: Struct ( fields ) if fields . len ( ) == "@
        + dec(f.len()) + "usize => { let mut iter = fields . into_iter ( ) ; Ok ( Self :: "@ + sp(m)
        + "( "@ + field_incorporates(f, imports, boxing, 0)
        + ") ) } other => Err ( datomic :: Fault :: Corporate ( vec ! [ ] , datomic :: Problem :: Shape ( datomic :: Expected :: Struct , other ) ) ) , } } "@
}

pub open spec fn incorporate_arm_halt(
    parent: Seq<char>,
    v: VariantModel,
    imports: Seq<ImportModel>,
) -> Option<Halt> {
    match v {
        VariantModel::Unit(m) => ih(m),
        VariantModel::Typed(m, t) => first(ih(m), expr_halt(t, imports)),
        VariantModel::InlineStruct(m, f) => first(ih(m), types_halt(f, imports, 0)),
        VariantModel::InlineEnum(m, _) => first(ih(m), ih(parent + m)),
    }
}

/// The arm that conceives one variant as a datom: a tuple variant as the
/// struct datom of its fields, a boxed payload seen through its box.
pub open spec fn conceive_arm(v: VariantModel, boxing: Option<Seq<char>>) -> Seq<char> {
    match v {
        VariantModel::Unit(m) => "Self :: "@ + sp(m)
            + "=> datomic :: Datom :: Bare ( stringify ! ( "@ + sp(m) + ") . to_owned ( ) ) , "@,
        VariantModel::InlineStruct(m, f) => "Self :: "@ + sp(m) + "( "@ + binders(f.len(), 0)
            + ") => datomic :: Datom :: Variant ( stringify ! ( "@ + sp(m)
            + ") . to_owned ( ) , protos :: Separator :: Period , Some ( Box :: new ( datomic :: Datom :: Struct ( vec ! [ "@
            + binder_conceives(f, boxing, 0) + "] ) ) ) , ) , "@,
        VariantModel::Typed(m, t) => "Self :: "@ + sp(m)
            + "( value ) => datomic :: Datom :: Variant ( stringify ! ( "@ + sp(m)
            + ") . to_owned ( ) , protos :: Separator :: Period , Some ( Box :: new ( "@ + datom_of(
            (if boxes(t, boxing) {
                "* "@
            } else {
                Seq::empty()
            }) + "value "@,
            boxes(t, boxing),
        ) + ") ) , ) , "@,
        VariantModel::InlineEnum(m, _) => "Self :: "@ + sp(m)
            + "( value ) => datomic :: Datom :: Variant ( stringify ! ( "@ + sp(m)
            + ") . to_owned ( ) , protos :: Separator :: Period , Some ( Box :: new ( "@ + datom_of(
            "value "@,
            false,
        ) + ") ) , ) , "@,
    }
}

pub open spec fn incorporate_arms(
    parent: Seq<char>,
    vs: Seq<VariantModel>,
    imports: Seq<ImportModel>,
    boxing: Option<Seq<char>>,
    i: int,
) -> Seq<char>
    decreases vs.len() - i,
{
    if 0 <= i < vs.len() {
        incorporate_arm(parent, vs[i], imports, boxing) + incorporate_arms(
            parent,
            vs,
            imports,
            boxing,
            i + 1,
        )
    } else {
        Seq::empty()
    }
}

pub open spec fn incorporate_arms_halt(
    parent: Seq<char>,
    vs: Seq<VariantModel>,
    imports: Seq<ImportModel>,
    i: int,
) -> Option<Halt>
    decreases vs.len() - i,
{
    if 0 <= i < vs.len() {
        first(
            incorporate_arm_halt(parent, vs[i], imports),
            incorporate_arms_halt(parent, vs, imports, i + 1),
        )
    } else {
        None
    }
}

pub open spec fn conceive_arms(vs: Seq<VariantModel>, boxing: Option<Seq<char>>, i: int) -> Seq<
    char,
>
    decreases vs.len() - i,
{
    if 0 <= i < vs.len() {
        conceive_arm(vs[i], boxing) + conceive_arms(vs, boxing, i + 1)
    } else {
        Seq::empty()
    }
}

pub open spec fn conceive_arms_halt(vs: Seq<VariantModel>, i: int) -> Option<Halt>
    decreases vs.len() - i,
{
    if 0 <= i < vs.len() {
        first(ih(variant_name(vs[i])), conceive_arms_halt(vs, i + 1))
    } else {
        None
    }
}

/// The impls of an enum, with the variants boxed under `boxing`.
pub open spec fn enum_impls_text(
    n: Seq<char>,
    vs: Seq<VariantModel>,
    imports: Seq<ImportModel>,
    boxing: Option<Seq<char>>,
) -> Seq<char>
    decreases vs, 2int, 0int,
{
    conceivable_head(n) + "Ok ( match self { "@ + conceive_arms(vs, boxing, 0) + "} ) } } "@
        + datomic_head(n) + incorporate_arms(n, vs, imports, boxing, 0)
        + "other => Err ( datomic :: Fault :: Corporate ( vec ! [ ] , datomic :: Problem :: Shape ( datomic :: Expected :: Variant , other ) ) ) , } } } "@
        + incorporable(n) + nested_impls(n, vs, imports, boxing, 0)
}

pub open spec fn enum_impls_halt(
    n: Seq<char>,
    vs: Seq<VariantModel>,
    imports: Seq<ImportModel>,
    boxing: Option<Seq<char>>,
) -> Option<Halt>
    decreases vs, 2int, 0int,
{
    first(
        incorporate_arms_halt(n, vs, imports, 0),
        first(conceive_arms_halt(vs, 0), nested_impls_halt(n, vs, imports, boxing, 0)),
    )
}

/// The impls of the types an inline variant declares.
pub open spec fn nested_impl(
    parent: Seq<char>,
    v: VariantModel,
    imports: Seq<ImportModel>,
    boxing: Option<Seq<char>>,
) -> Seq<char>
    decreases v, 0int, 0int,
{
    match v {

        VariantModel::InlineEnum(m, inner) => enum_datomic_text(parent + m, inner, imports, boxing),
        _ => Seq::empty(),
    }
}

pub open spec fn nested_impl_halt(
    parent: Seq<char>,
    v: VariantModel,
    imports: Seq<ImportModel>,
    boxing: Option<Seq<char>>,
) -> Option<Halt>
    decreases v, 0int, 0int,
{
    match v {

        VariantModel::InlineEnum(m, inner) => enum_datomic_halt(parent + m, inner, imports, boxing),
        _ => None,
    }
}

pub open spec fn nested_impls(
    parent: Seq<char>,
    vs: Seq<VariantModel>,
    imports: Seq<ImportModel>,
    boxing: Option<Seq<char>>,
    i: int,
) -> Seq<char>
    decreases vs, 1int, vs.len() - i,
{
    if 0 <= i < vs.len() {
        nested_impl(parent, vs[i], imports, boxing) + nested_impls(parent, vs, imports, boxing, i + 1)
    } else {
        Seq::empty()
    }
}

pub open spec fn nested_impls_halt(
    parent: Seq<char>,
    vs: Seq<VariantModel>,
    imports: Seq<ImportModel>,
    boxing: Option<Seq<char>>,
    i: int,
) -> Option<Halt>
    decreases vs, 1int, vs.len() - i,
{
    if 0 <= i < vs.len() {
        first(
            nested_impl_halt(parent, vs[i], imports, boxing),
            nested_impls_halt(parent, vs, imports, boxing, i + 1),
        )
    } else {
        None
    }
}

/// The impls of an enum declared under `boxing`: its own variants box the
/// enum itself where it recurs, otherwise the enclosing boxing holds.
pub open spec fn enum_datomic_text(
    n: Seq<char>,
    vs: Seq<VariantModel>,
    imports: Seq<ImportModel>,
    boxing: Option<Seq<char>>,
) -> Seq<char>
    decreases vs, 3int, 0int,
{
    enum_impls_text(
        n,
        vs,
        imports,
        if variants_recursive(vs, n) {
            Some(n)
        } else {
            boxing
        },
    )
}

pub open spec fn enum_datomic_halt(
    n: Seq<char>,
    vs: Seq<VariantModel>,
    imports: Seq<ImportModel>,
    boxing: Option<Seq<char>>,
) -> Option<Halt>
    decreases vs, 3int, 0int,
{
    first(
        ih(n),
        enum_impls_halt(
            n,
            vs,
            imports,
            if variants_recursive(vs, n) {
                Some(n)
            } else {
                boxing
            },
        ),
    )
}

/// The datom impls of a declaration: none for an alias.
pub open spec fn declaration_datomic_text(d: TypeDeclarationModel, imports: Seq<ImportModel>) -> Seq<
    char,
> {
    match d {
        TypeDeclarationModel::Struct(n, f) => struct_datomic_text(n, f, imports, struct_boxing(n, f)),
        TypeDeclarationModel::Enum(n, vs) => enum_datomic_text(n, vs, imports, None),
        TypeDeclarationModel::Alias(_, _) => Seq::empty(),
    }
}

pub open spec fn declaration_datomic_halt(d: TypeDeclarationModel, imports: Seq<ImportModel>) -> Option<
    Halt,
> {
    match d {
        TypeDeclarationModel::Struct(n, f) => struct_datomic_halt(n, f, imports),
        TypeDeclarationModel::Enum(n, vs) => enum_datomic_halt(n, vs, imports, None),
        TypeDeclarationModel::Alias(_, _) => None,
    }
}


// ===========================================================================
// Kind declarations
// ===========================================================================

/// Kind names from `i` on, each under its source where an import brings it,
/// joined by `+`.
pub open spec fn plus_joined(names: Seq<Seq<char>>, imports: Seq<ImportModel>, i: int) -> Seq<char>
    decreases names.len() - i,
{
    if 0 <= i < names.len() {
        bound_text(names[i], imports) + (if i + 1 < names.len() {
            "+ "@
        } else {
            Seq::empty()
        }) + plus_joined(names, imports, i + 1)
    } else {
        Seq::empty()
    }
}

/// The halts of making identifiers of each kind name from `i` on (and of
/// its source, where an import brings it).
pub open spec fn names_halt(names: Seq<Seq<char>>, imports: Seq<ImportModel>, i: int) -> Option<Halt>
    decreases names.len() - i,
{
    if 0 <= i < names.len() {
        first(constructor_halt(names[i], imports), names_halt(names, imports, i + 1))
    } else {
        None
    }
}

/// The name of the `i`-th generic parameter: `A`, `B`, …
pub open spec fn letter(i: int) -> Seq<char> {
    seq![((65 + i) as u8) as char]
}

pub open spec fn generic_params(
    constraints: Seq<Seq<Seq<char>>>,
    imports: Seq<ImportModel>,
    i: int,
) -> Seq<char>
    decreases constraints.len() - i,
{
    if 0 <= i < constraints.len() {
        sp(letter(i)) + (if constraints[i].len() == 0 {
            Seq::empty()
        } else {
            ": "@ + plus_joined(constraints[i], imports, 0)
        }) + (if i + 1 < constraints.len() {
            ", "@
        } else {
            Seq::empty()
        }) + generic_params(constraints, imports, i + 1)
    } else {
        Seq::empty()
    }
}

/// A parameter past `Z` would be named by a character that is no identifier.
pub open spec fn generic_params_halt(
    constraints: Seq<Seq<Seq<char>>>,
    imports: Seq<ImportModel>,
    i: int,
) -> Option<Halt>
    decreases constraints.len() - i,
{
    if 0 <= i < constraints.len() {
        first(
            if i < 26 {
                ih(letter(i))
            } else {
                Some(Halt::Panic)
            },
            first(
                names_halt(constraints[i], imports, 0),
                generic_params_halt(constraints, imports, i + 1),
            ),
        )
    } else {
        None
    }
}

pub open spec fn generics_text(constraints: Seq<Seq<Seq<char>>>, imports: Seq<ImportModel>) -> Seq<
    char,
> {
    if constraints.len() == 0 {
        Seq::empty()
    } else {
        "< "@ + generic_params(constraints, imports, 0) + "> "@
    }
}

pub open spec fn supertraits_text(superkinds: Seq<Seq<char>>, imports: Seq<ImportModel>) -> Seq<char> {
    if superkinds.len() == 0 {
        Seq::empty()
    } else {
        ": "@ + plus_joined(superkinds, imports, 0)
    }
}

pub open spec fn associated_type_text(a: AssociatedTypeModel, imports: Seq<ImportModel>) -> Seq<
    char,
> {
    "type "@ + sp(a.name) + if a.constraints.len() == 0 {
        "; "@
    } else {
        ": "@ + plus_joined(a.constraints, imports, 0) + "; "@
    }
}

pub open spec fn associated_types_text(
    s: Seq<AssociatedTypeModel>,
    imports: Seq<ImportModel>,
    i: int,
) -> Seq<char>
    decreases s.len() - i,
{
    if 0 <= i < s.len() {
        associated_type_text(s[i], imports) + associated_types_text(s, imports, i + 1)
    } else {
        Seq::empty()
    }
}

pub open spec fn associated_types_halt(
    s: Seq<AssociatedTypeModel>,
    imports: Seq<ImportModel>,
    i: int,
) -> Option<Halt>
    decreases s.len() - i,
{
    if 0 <= i < s.len() {
        first(
            first(ih(s[i].name), names_halt(s[i].constraints, imports, 0)),
            associated_types_halt(s, imports, i + 1),
        )
    } else {
        None
    }
}

pub open spec fn constants_text(
    s: Seq<AssociatedConstantModel>,
    imports: Seq<ImportModel>,
    i: int,
) -> Seq<char>
    decreases s.len() - i,
{
    if 0 <= i < s.len() {
        "const "@ + sp(s[i].name) + ": "@ + expr_text(s[i].ty, imports) + "; "@ + constants_text(
            s,
            imports,
            i + 1,
        )
    } else {
        Seq::empty()
    }
}

pub open spec fn constants_halt(
    s: Seq<AssociatedConstantModel>,
    imports: Seq<ImportModel>,
    i: int,
) -> Option<Halt>
    decreases s.len() - i,
{
    if 0 <= i < s.len() {
        first(first(ih(s[i].name), expr_halt(s[i].ty, imports)), constants_halt(s, imports, i + 1))
    } else {
        None
    }
}

pub open spec fn receiver_text(r: Receiver) -> Seq<char> {
    match r {
        Receiver::Shared => "& self "@,
        Receiver::Mutable => "& mut self "@,
        Receiver::Static => Seq::empty(),
    }
}

/// The name of the `i`-th of several inputs.
pub open spec fn input_name(i: int) -> Seq<char> {
    "input_"@ + dec(i as nat)
}

/// The input parameters from `i` on: `input` alone, or `input_0`, `input_1`, ….
pub open spec fn input_params(
    inputs: Seq<TypeExpressionModel>,
    imports: Seq<ImportModel>,
    i: int,
) -> Seq<char>
    decreases inputs.len() - i,
{
    if 0 <= i < inputs.len() {
        (if inputs.len() == 1 {
            "input "@
        } else {
            sp(input_name(i))
        }) + ": "@ + expr_text(inputs[i], imports) + (if i + 1 < inputs.len() {
            ", "@
        } else {
            Seq::empty()
        }) + input_params(inputs, imports, i + 1)
    } else {
        Seq::empty()
    }
}

pub open spec fn input_params_halt(
    inputs: Seq<TypeExpressionModel>,
    imports: Seq<ImportModel>,
    i: int,
) -> Option<Halt>
    decreases inputs.len() - i,
{
    if 0 <= i < inputs.len() {
        first(
            if inputs.len() == 1 {
                expr_halt(inputs[i], imports)
            } else {
                first(ih(input_name(i)), expr_halt(inputs[i], imports))
            },
            input_params_halt(inputs, imports, i + 1),
        )
    } else {
        None
    }
}

pub open spec fn method_params(c: CapabilityModel, imports: Seq<ImportModel>) -> Seq<char> {
    if c.receiver == Receiver::Static {
        input_params(c.inputs, imports, 0)
    } else if c.inputs.len() == 0 {
        receiver_text(c.receiver)
    } else {
        receiver_text(c.receiver) + ", "@ + input_params(c.inputs, imports, 0)
    }
}

/// A capability as a trait method: `fn name ( receiver , inputs ) -> Yield ;`.
pub open spec fn capability_text(c: CapabilityModel, imports: Seq<ImportModel>) -> Seq<char> {
    "fn "@ + sp(c.name) + "( "@ + method_params(c, imports) + ") -> "@ + expr_text(
        c.yield_type,
        imports,
    ) + "; "@
}

pub open spec fn capability_halt(c: CapabilityModel, imports: Seq<ImportModel>) -> Option<Halt> {
    first(
        ih(c.name),
        first(expr_halt(c.yield_type, imports), input_params_halt(c.inputs, imports, 0)),
    )
}

pub open spec fn capabilities_text(s: Seq<CapabilityModel>, imports: Seq<ImportModel>, i: int) -> Seq<
    char,
>
    decreases s.len() - i,
{
    if 0 <= i < s.len() {
        capability_text(s[i], imports) + capabilities_text(s, imports, i + 1)
    } else {
        Seq::empty()
    }
}

pub open spec fn capabilities_halt(s: Seq<CapabilityModel>, imports: Seq<ImportModel>, i: int) -> Option<
    Halt,
>
    decreases s.len() - i,
{
    if 0 <= i < s.len() {
        first(capability_halt(s[i], imports), capabilities_halt(s, imports, i + 1))
    } else {
        None
    }
}

pub open spec fn kind_name(k: KindDeclarationModel) -> Seq<char> {
    match k {
        KindDeclarationModel::Simple { name, .. } => name,
        KindDeclarationModel::Complex { name, .. } => name,
    }
}

pub open spec fn kind_constraints(k: KindDeclarationModel) -> Seq<Seq<Seq<char>>> {
    match k {
        KindDeclarationModel::Simple { constraints, .. } => constraints,
        KindDeclarationModel::Complex { constraints, .. } => constraints,
    }
}

pub open spec fn kind_capabilities(k: KindDeclarationModel) -> Seq<CapabilityModel> {
    match k {
        KindDeclarationModel::Simple { capabilities, .. } => capabilities,
        KindDeclarationModel::Complex { capabilities, .. } => capabilities,
    }
}

pub open spec fn kind_superkinds(k: KindDeclarationModel) -> Seq<Seq<char>> {
    match k {
        KindDeclarationModel::Simple { .. } => Seq::empty(),
        KindDeclarationModel::Complex { superkinds, .. } => superkinds,
    }
}

pub open spec fn kind_associated_types(k: KindDeclarationModel) -> Seq<AssociatedTypeModel> {
    match k {
        KindDeclarationModel::Simple { .. } => Seq::empty(),
        KindDeclarationModel::Complex { associated_types, .. } => associated_types,
    }
}

pub open spec fn kind_associated_constants(k: KindDeclarationModel) -> Seq<AssociatedConstantModel> {
    match k {
        KindDeclarationModel::Simple { .. } => Seq::empty(),
        KindDeclarationModel::Complex { associated_constants, .. } => associated_constants,
    }
}

/// The head of a trait: `pub trait Name < params > : supertraits`.
pub open spec fn trait_head_text(
    name: Seq<char>,
    constraints: Seq<Seq<Seq<char>>>,
    superkinds: Seq<Seq<char>>,
    imports: Seq<ImportModel>,
) -> Seq<char> {
    "pub trait "@ + sp(name) + generics_text(constraints, imports) + supertraits_text(
        superkinds,
        imports,
    )
}

pub open spec fn trait_head_halt(
    name: Seq<char>,
    constraints: Seq<Seq<Seq<char>>>,
    superkinds: Seq<Seq<char>>,
    imports: Seq<ImportModel>,
) -> Option<Halt> {
    first(
        ih(name),
        first(
            generic_params_halt(constraints, imports, 0),
            names_halt(superkinds, imports, 0),
        ),
    )
}

/// The items of a trait: associated types, constants, then methods.
pub open spec fn trait_items_text(
    associated_types: Seq<AssociatedTypeModel>,
    associated_constants: Seq<AssociatedConstantModel>,
    capabilities: Seq<CapabilityModel>,
    imports: Seq<ImportModel>,
) -> Seq<char> {
    associated_types_text(associated_types, imports, 0) + constants_text(
        associated_constants,
        imports,
        0,
    )
        + capabilities_text(capabilities, imports, 0)
}

pub open spec fn trait_items_halt(
    associated_types: Seq<AssociatedTypeModel>,
    associated_constants: Seq<AssociatedConstantModel>,
    capabilities: Seq<CapabilityModel>,
    imports: Seq<ImportModel>,
) -> Option<Halt> {
    first(
        associated_types_halt(associated_types, imports, 0),
        first(
            constants_halt(associated_constants, imports, 0),
            capabilities_halt(capabilities, imports, 0),
        ),
    )
}

/// A kind as a trait.
pub open spec fn kind_text(k: KindDeclarationModel, imports: Seq<ImportModel>) -> Seq<char> {
    trait_head_text(kind_name(k), kind_constraints(k), kind_superkinds(k), imports) + "{ "@
        + trait_items_text(
        kind_associated_types(k),
        kind_associated_constants(k),
        kind_capabilities(k),
        imports,
    ) + "} "@
}

pub open spec fn kind_halt(k: KindDeclarationModel, imports: Seq<ImportModel>) -> Option<Halt> {
    first(
        trait_head_halt(kind_name(k), kind_constraints(k), kind_superkinds(k), imports),
        trait_items_halt(
            kind_associated_types(k),
            kind_associated_constants(k),
            kind_capabilities(k),
            imports,
        ),
    )
}

// ===========================================================================
// Associations, signal enums, files
// ===========================================================================

pub open spec fn assertion_name(ty: Seq<char>, kind: Seq<char>) -> Seq<char> {
    "assert_"@ + lowercase(ty) + "_"@ + lowercase(kind)
}

pub open spec fn assertions_text(ty: Seq<char>, kinds: Seq<Seq<char>>, i: int) -> Seq<char>
    decreases kinds.len() - i,
{
    if 0 <= i < kinds.len() {
        "fn "@ + sp(assertion_name(ty, kinds[i])) + "< T : "@ + sp(kinds[i]) + "> ( ) { } let _ = "@
            + sp(assertion_name(ty, kinds[i])) + ":: < "@ + sp(ty) + "> ; "@ + assertions_text(
            ty,
            kinds,
            i + 1,
        )
    } else {
        Seq::empty()
    }
}

pub open spec fn assertions_halt(ty: Seq<char>, kinds: Seq<Seq<char>>, i: int) -> Option<Halt>
    decreases kinds.len() - i,
{
    if 0 <= i < kinds.len() {
        first(
            first(ih(assertion_name(ty, kinds[i])), ih(kinds[i])),
            assertions_halt(ty, kinds, i + 1),
        )
    } else {
        None
    }
}

/// An association as compile-time assertions that the type has each kind.
pub open spec fn association_text(a: AssociationModel) -> Seq<char> {
    "const _ : ( ) = { "@ + assertions_text(a.ty, a.kinds, 0) + "} ; "@
}

pub open spec fn association_halt(a: AssociationModel) -> Option<Halt> {
    first(ih(a.ty), assertions_halt(a.ty, a.kinds, 0))
}

/// The `Request` or `Response` enum of a signal, with its impls; nothing when empty.
pub open spec fn signal_enum_text(
    name: Seq<char>,
    vs: Seq<VariantModel>,
    imports: Seq<ImportModel>,
) -> Seq<char> {
    if vs.len() == 0 {
        Seq::empty()
    } else {
        inline_types(name, vs, imports, None, true, 0) + wire_derive(true) + enum_derive_text(
            all_unit(vs),
        ) + "pub enum "@
            + sp(name) + "{ "@ + variant_tokens(name, vs, imports, None, 0) + "} "@
            + enum_impls_text(name, vs, imports, None)
    }
}

pub open spec fn signal_enum_halt(
    name: Seq<char>,
    vs: Seq<VariantModel>,
    imports: Seq<ImportModel>,
) -> Option<Halt> {
    if vs.len() == 0 {
        None
    } else {
        first(
            ih(name),
            first(variant_decls_halt(name, vs, imports, 0), enum_impls_halt(name, vs, imports, None)),
        )
    }
}

/// Each declaration followed by its datom impls, from `i` on.
pub open spec fn declarations_text(
    types: Seq<TypeDeclarationModel>,
    imports: Seq<ImportModel>,
    wire: bool,
    i: int,
) -> Seq<char>
    decreases types.len() - i,
{
    if 0 <= i < types.len() {
        declaration_text(types[i], imports, wire) + declaration_datomic_text(types[i], imports)
            + declarations_text(types, imports, wire, i + 1)
    } else {
        Seq::empty()
    }
}

pub open spec fn declarations_halt(
    types: Seq<TypeDeclarationModel>,
    imports: Seq<ImportModel>,
    i: int,
) -> Option<Halt>
    decreases types.len() - i,
{
    if 0 <= i < types.len() {
        first(
            first(declaration_halt(types[i], imports), declaration_datomic_halt(types[i], imports)),
            declarations_halt(types, imports, i + 1),
        )
    } else {
        None
    }
}

pub open spec fn associations_text(s: Seq<AssociationModel>, i: int) -> Seq<char>
    decreases s.len() - i,
{
    if 0 <= i < s.len() {
        association_text(s[i]) + associations_text(s, i + 1)
    } else {
        Seq::empty()
    }
}

pub open spec fn associations_halt(s: Seq<AssociationModel>, i: int) -> Option<Halt>
    decreases s.len() - i,
{
    if 0 <= i < s.len() {
        first(association_halt(s[i]), associations_halt(s, i + 1))
    } else {
        None
    }
}

pub open spec fn kinds_text(s: Seq<KindDeclarationModel>, imports: Seq<ImportModel>, i: int) -> Seq<
    char,
>
    decreases s.len() - i,
{
    if 0 <= i < s.len() {
        kind_text(s[i], imports) + kinds_text(s, imports, i + 1)
    } else {
        Seq::empty()
    }
}

pub open spec fn kinds_halt(s: Seq<KindDeclarationModel>, imports: Seq<ImportModel>, i: int) -> Option<
    Halt,
>
    decreases s.len() - i,
{
    if 0 <= i < s.len() {
        first(kind_halt(s[i], imports), kinds_halt(s, imports, i + 1))
    } else {
        None
    }
}

pub open spec fn module_header() -> Seq<char> {
    "# ! [ allow ( dead_code ) ] "@
}

/// The Rust token text that a file emits.
pub open spec fn file_text(f: FileModel) -> Seq<char> {
    module_header() + match f {
        FileModel::Types { imports, types, associations } => declarations_text(
            types,
            imports,
            false,
            0,
        )
            + associations_text(associations, 0),
        FileModel::Kinds { imports, kinds } => kinds_text(kinds, imports, 0),
        FileModel::Signal { imports, requests, responses, types } => declarations_text(
            types,
            imports,
            true,
            0,
        ) + signal_enum_text("Request"@, requests, imports) + signal_enum_text(
            "Response"@,
            responses,
            imports,
        ) + wire_envelope(),
        FileModel::Sema { imports, types } => declarations_text(types, imports, false, 0),
    }
}

/// The wire envelope of a signal: its version, the refusal of a frame it
/// cannot take, the body of a frame (a request, a reply, or a refusal), and
/// the frame itself, each deriving rkyv's traits.
pub open spec fn wire_envelope() -> Seq<char> {
    wire_derive(true) + "# [ derive ( Clone , Copy , Debug , PartialEq , Eq ) ] "@
        + "pub struct Version ( pub u16 , pub u16 , pub u16 ) ; "@ + wire_derive(true)
        + struct_derive() + "pub enum Refusal { VersionMismatch ( Version , Version ) , Unreadable , } "@
        + wire_derive(true) + struct_derive()
        + "pub enum Body { Request ( Request ) , Reply ( Response ) , Refusal ( Refusal ) , } "@
        + wire_derive(true) + struct_derive() + "pub struct Frame ( pub Version , pub Body ) ; "@
}

/// Where the emission of a file halts, if it does.
pub open spec fn file_halt(f: FileModel) -> Option<Halt> {
    match f {
        FileModel::Types { imports, types, associations } => first(
            declarations_halt(types, imports, 0),
            associations_halt(associations, 0),
        ),
        FileModel::Kinds { imports, kinds } => kinds_halt(kinds, imports, 0),
        FileModel::Signal { imports, requests, responses, types } => first(
            declarations_halt(types, imports, 0),
            first(
                signal_enum_halt("Request"@, requests, imports),
                signal_enum_halt("Response"@, responses, imports),
            ),
        ),
        FileModel::Sema { imports, types } => declarations_halt(types, imports, 0),
    }
}

/// An alias of a name that an import brings is emitted under that import's
/// source, with the name the source gives it: the generated alias points
/// where the import does, as a field of that type would.
pub proof fn lemma_alias_of_imported_name(
    n: Seq<char>,
    x: Seq<char>,
    imports: Seq<ImportModel>,
    wire: bool,
    source: Seq<char>,
    given: Seq<char>,
)
    requires
        !scalar_name(x),
        x != "Meaning"@,
        x != n,
        import_origin(imports, x) == Some((source, given)),
    ensures
        declaration_text(
            TypeDeclarationModel::Alias(n, TypeExpressionModel::Named(x)),
            imports,
            wire,
        ) == "pub type "@ + (n + seq![' ']) + "= "@ + (source + seq![' ']) + ":: "@ + (given + seq![
            ' ',
        ]) + "; "@,
{
}

/// An alias names the very type a struct field of that type spells: its
/// target is resolved through the same imports, to the same text.
pub proof fn lemma_alias_target_is_field_text(
    n: Seq<char>,
    t: TypeExpressionModel,
    imports: Seq<ImportModel>,
    wire: bool,
)
    requires
        !(t == TypeExpressionModel::Named(n) && intrinsic_name(n)),
    ensures
        exists|x: Seq<char>|
            declaration_text(TypeDeclarationModel::Alias(n, t), imports, wire) == "pub type "@ + (n
                + seq![' ']) + "= "@ + x + "; "@ && #[trigger] fields_text(seq![t], imports, None, 0)
                == "pub "@ + x + ", "@,
{
    let x = expr_text(t, imports);
    assert(fields_text(seq![t], imports, None, 1) == Seq::<char>::empty());
    assert(boxed_text(seq![t][0], imports, None) == x);
    assert(fields_text(seq![t], imports, None, 0) =~= "pub "@ + x + ", "@);
}

} // verus!


