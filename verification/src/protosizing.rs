//! Protosization: File → Protoform (the ascent; it cannot fault).
//!
//! Every concept yields the protoform that carries it, in the form the reader
//! reads back: `Head.{ sections }` for a file, bracketed lists for sections,
//! `Name.body` for declarations.

use vstd::prelude::*;
use crate::protoform::{
    Delineation, Enclosure, Head, HeadModel, Protoform, ProtoformModel, Separator,
    lemma_protoform_models, protoform_model, protoform_models,
};
use crate::concept::{
    AssociatedConstant, AssociatedConstantModel, AssociatedType, AssociatedTypeModel, Association,
    AssociationModel, Capability, CapabilityModel, File, FileModel, Import, ImportModel,
    KindConstraint, KindDeclaration, KindDeclarationModel, Receiver, TypeDeclaration,
    TypeDeclarationModel, TypeExpression, TypeExpressionModel, Variant, VariantModel,
    capability_models, declaration_models, import_models, kind_constraint_models, lemma_type_expression_models, lemma_variant_models, texts,
    type_expression_models, variant_models,
};
use crate::text::copy_text;
use crate::reading::{
    read_kinds, enclosed, headed, read_sections, kind_reader, read_file, associated_constant_reader, associated_type_reader, capability_reader, kind_constraint_reader,
    read_capability, read_kind, read_kind_constraint, association_reader, import_reader, read_associations, read_imports, read_type_declarations,
    read_variant_list, bare_symbols, declaration_at, declarations_from, expression_at, expression_with_following,
    expressions_from, read_each, single_expression, variant_at, variants_from,
};
use crate::reading::Fail;

verus! {

// ===========================================================================
// Specification: the protoform of each concept
// ===========================================================================

/// `name` as a bare symbol.
pub open spec fn bare_pf(name: Seq<char>) -> ProtoformModel {
    ProtoformModel::Bare(HeadModel::Bare(name))
}

/// `name.body`.
pub open spec fn headed_pf(name: Seq<char>, body: ProtoformModel) -> ProtoformModel {
    ProtoformModel::Headed(HeadModel::Bare(name), Separator::Period, Box::new(body))
}

pub open spec fn bracketed_pf(children: Seq<ProtoformModel>) -> ProtoformModel {
    ProtoformModel::Enclosed(Enclosure::Bracketed, children)
}

pub open spec fn braced_pf(children: Seq<ProtoformModel>) -> ProtoformModel {
    ProtoformModel::Enclosed(Enclosure::Braced, children)
}

pub open spec fn bare_pfs(names: Seq<Seq<char>>) -> Seq<ProtoformModel> {
    names.map_values(|n: Seq<char>| bare_pf(n))
}

/// `Name`, `C<A B>` or `Self`.
pub open spec fn expression_pf(t: TypeExpressionModel) -> ProtoformModel
    decreases t, 0int,
{
    match t {
        TypeExpressionModel::Named(n) => bare_pf(n),
        TypeExpressionModel::Applied(c, a) => ProtoformModel::Bare(
            HeadModel::Qualified(c, expression_pfs(a)),
        ),
        TypeExpressionModel::SelfType => bare_pf("Self"@),
    }
}

pub open spec fn expression_pfs(s: Seq<TypeExpressionModel>) -> Seq<ProtoformModel>
    decreases s, 1int,
{
    if s.len() == 0 {
        Seq::empty()
    } else {
        expression_pfs(s.drop_last()).push(expression_pf(s.last()))
    }
}

/// `Name`, `Name.Type`, `Name.{ … }` or `Name.[ … ]`.
pub open spec fn variant_pf(v: VariantModel) -> ProtoformModel
    decreases v, 0int,
{
    match v {
        VariantModel::Unit(n) => bare_pf(n),
        VariantModel::Typed(n, t) => headed_pf(n, expression_pf(t)),
        VariantModel::InlineStruct(n, f) => headed_pf(n, braced_pf(expression_pfs(f))),
        VariantModel::InlineEnum(n, vs) => headed_pf(n, bracketed_pf(variant_pfs(vs))),
    }
}

pub open spec fn variant_pfs(s: Seq<VariantModel>) -> Seq<ProtoformModel>
    decreases s, 1int,
{
    if s.len() == 0 {
        Seq::empty()
    } else {
        variant_pfs(s.drop_last()).push(variant_pf(s.last()))
    }
}

pub open spec fn declaration_pf(d: TypeDeclarationModel) -> ProtoformModel {
    match d {
        TypeDeclarationModel::Struct(n, f) => headed_pf(n, braced_pf(expression_pfs(f))),
        TypeDeclarationModel::Enum(n, v) => headed_pf(n, bracketed_pf(variant_pfs(v))),
        TypeDeclarationModel::Alias(n, t) => headed_pf(n, expression_pf(t)),
    }
}

pub open spec fn declaration_pfs(s: Seq<TypeDeclarationModel>) -> Seq<ProtoformModel> {
    s.map_values(|d: TypeDeclarationModel| declaration_pf(d))
}

/// `source:Name`, `source:[ A B ]` or `source:Name.Emitted`.
pub open spec fn import_pf(i: ImportModel) -> ProtoformModel {
    match i {
        ImportModel::Single(s, n) => ProtoformModel::Headed(
            HeadModel::Bare(s),
            Separator::Colon,
            Box::new(bare_pf(n)),
        ),
        ImportModel::Multiple(s, ns) => ProtoformModel::Headed(
            HeadModel::Bare(s),
            Separator::Colon,
            Box::new(bracketed_pf(bare_pfs(ns))),
        ),
        ImportModel::Renamed(s, n, e) => ProtoformModel::Headed(
            HeadModel::Bare(s),
            Separator::Colon,
            Box::new(
                ProtoformModel::Headed(HeadModel::Bare(n), Separator::Period, Box::new(bare_pf(e))),
            ),
        ),
    }
}

pub open spec fn import_pfs(s: Seq<ImportModel>) -> Seq<ProtoformModel> {
    s.map_values(|i: ImportModel| import_pf(i))
}

/// A single bound as a bare name; none or several as a bracketed list.
pub open spec fn kind_constraint_pf(bounds: Seq<Seq<char>>) -> ProtoformModel {
    if bounds.len() == 1 {
        bare_pf(bounds[0])
    } else {
        bracketed_pf(bare_pfs(bounds))
    }
}

pub open spec fn separator_of(r: Receiver) -> Separator {
    match r {
        Receiver::Shared => Separator::Period,
        Receiver::Mutable => Separator::Exclamation,
        Receiver::Static => Separator::Colon,
    }
}

/// `name.[ Yield ]` without inputs, `name.{ [ Inputs ] [ Yield ] }` with them.
pub open spec fn capability_pf(c: CapabilityModel) -> ProtoformModel {
    let body = if c.inputs.len() == 0 {
        bracketed_pf(seq![expression_pf(c.yield_type)])
    } else {
        braced_pf(
            seq![
                bracketed_pf(expression_pfs(c.inputs)),
                bracketed_pf(seq![expression_pf(c.yield_type)]),
            ],
        )
    };
    ProtoformModel::Headed(HeadModel::Bare(c.name), separator_of(c.receiver), Box::new(body))
}

pub open spec fn capability_pfs(s: Seq<CapabilityModel>) -> Seq<ProtoformModel> {
    s.map_values(|c: CapabilityModel| capability_pf(c))
}

pub open spec fn associated_type_pf(a: AssociatedTypeModel) -> ProtoformModel {
    if a.constraints.len() == 0 {
        bare_pf(a.name)
    } else {
        ProtoformModel::Bare(HeadModel::Qualified(a.name, bare_pfs(a.constraints)))
    }
}

pub open spec fn associated_constant_pf(a: AssociatedConstantModel) -> ProtoformModel {
    headed_pf(a.name, expression_pf(a.ty))
}

/// The head of a kind: its name, qualified by its constraints when it has some.
pub open spec fn kind_head(name: Seq<char>, constraints: Seq<Seq<Seq<char>>>) -> HeadModel {
    if constraints.len() == 0 {
        HeadModel::Bare(name)
    } else {
        HeadModel::Qualified(
            name,
            constraints.map_values(|b: Seq<Seq<char>>| kind_constraint_pf(b)),
        )
    }
}

pub open spec fn kind_pf(k: KindDeclarationModel) -> ProtoformModel {
    match k {
        KindDeclarationModel::Simple { name, constraints, capabilities } => ProtoformModel::Headed(
            kind_head(name, constraints),
            Separator::Period,
            Box::new(bracketed_pf(capability_pfs(capabilities))),
        ),
        KindDeclarationModel::Complex {
            name,
            constraints,
            superkinds,
            associated_types,
            associated_constants,
            capabilities,
        } => ProtoformModel::Headed(
            kind_head(name, constraints),
            Separator::Period,
            Box::new(
                braced_pf(
                    seq![
                        bracketed_pf(bare_pfs(superkinds)),
                        bracketed_pf(
                            associated_types.map_values(
                                |a: AssociatedTypeModel| associated_type_pf(a),
                            ),
                        ),
                        bracketed_pf(
                            associated_constants.map_values(
                                |a: AssociatedConstantModel| associated_constant_pf(a),
                            ),
                        ),
                        bracketed_pf(capability_pfs(capabilities)),
                    ],
                ),
            ),
        ),
    }
}

pub open spec fn association_pf(a: AssociationModel) -> ProtoformModel {
    headed_pf(a.ty, bracketed_pf(bare_pfs(a.kinds)))
}

/// The root symbol of each file variant.
pub open spec fn root_of(f: FileModel) -> Seq<char> {
    match f {
        FileModel::Types { .. } => "Types"@,
        FileModel::Kinds { .. } => "Kinds"@,
        FileModel::Signal { .. } => "Signal"@,
        FileModel::Sema { .. } => "Sema"@,
    }
}

/// The sections of each file variant, each a bracketed list.
pub open spec fn sections_pf(f: FileModel) -> Seq<ProtoformModel> {
    match f {
        FileModel::Types { imports, types, associations } => seq![
            bracketed_pf(import_pfs(imports)),
            bracketed_pf(declaration_pfs(types)),
            bracketed_pf(associations.map_values(|a: AssociationModel| association_pf(a))),
        ],
        FileModel::Kinds { imports, kinds } => seq![
            bracketed_pf(import_pfs(imports)),
            bracketed_pf(kinds.map_values(|k: KindDeclarationModel| kind_pf(k))),
        ],
        FileModel::Signal { imports, requests, responses, types } => seq![
            bracketed_pf(import_pfs(imports)),
            bracketed_pf(variant_pfs(requests)),
            bracketed_pf(variant_pfs(responses)),
            bracketed_pf(declaration_pfs(types)),
        ],
        FileModel::Sema { imports, types } => seq![
            bracketed_pf(import_pfs(imports)),
            bracketed_pf(declaration_pfs(types)),
        ],
    }
}

/// `Root.{ sections }`.
pub open spec fn file_pf(f: FileModel) -> ProtoformModel {
    headed_pf(root_of(f), braced_pf(sections_pf(f)))
}


// ===========================================================================
// Reading back what protosization wrote
// ===========================================================================

/// No named type in the expression is spelled `Self`: the reader reads a bare
/// `Self` as the self type, so such a name would not read back as itself.
pub open spec fn self_free(t: TypeExpressionModel) -> bool
    decreases t, 0int,
{
    match t {
        TypeExpressionModel::Named(n) => n != "Self"@,
        TypeExpressionModel::Applied(_, a) => self_free_all(a),
        TypeExpressionModel::SelfType => true,
    }
}

pub open spec fn self_free_all(s: Seq<TypeExpressionModel>) -> bool
    decreases s, 1int,
{
    if s.len() == 0 {
        true
    } else {
        self_free_all(s.drop_last()) && self_free(s.last())
    }
}

pub open spec fn variant_self_free(v: VariantModel) -> bool
    decreases v, 0int,
{
    match v {
        VariantModel::Unit(_) => true,
        VariantModel::Typed(_, t) => self_free(t),
        VariantModel::InlineStruct(_, f) => self_free_all(f),
        VariantModel::InlineEnum(_, vs) => variants_self_free(vs),
    }
}

pub open spec fn variants_self_free(s: Seq<VariantModel>) -> bool
    decreases s, 1int,
{
    if s.len() == 0 {
        true
    } else {
        variants_self_free(s.drop_last()) && variant_self_free(s.last())
    }
}

pub open spec fn declaration_self_free(d: TypeDeclarationModel) -> bool {
    match d {
        TypeDeclarationModel::Struct(_, f) => self_free_all(f),
        TypeDeclarationModel::Enum(_, v) => variants_self_free(v),
        TypeDeclarationModel::Alias(_, t) => self_free(t),
    }
}

pub open spec fn declarations_self_free(s: Seq<TypeDeclarationModel>) -> bool {
    forall|i: int| 0 <= i < s.len() ==> #[trigger] declaration_self_free(s[i])
}

pub open spec fn capability_self_free(c: CapabilityModel) -> bool {
    self_free_all(c.inputs) && self_free(c.yield_type)
}

pub open spec fn capabilities_self_free(s: Seq<CapabilityModel>) -> bool {
    forall|i: int| 0 <= i < s.len() ==> #[trigger] capability_self_free(s[i])
}

pub open spec fn kind_self_free(k: KindDeclarationModel) -> bool {
    match k {
        KindDeclarationModel::Simple { capabilities, .. } => capabilities_self_free(capabilities),
        KindDeclarationModel::Complex { associated_constants, capabilities, .. } => {
            &&& capabilities_self_free(capabilities)
            &&& forall|i: int|
                0 <= i < associated_constants.len() ==> #[trigger] self_free(
                    associated_constants[i].ty,
                )
        },
    }
}

/// No named type anywhere in the file is spelled `Self`.
pub open spec fn file_self_free(f: FileModel) -> bool {
    match f {
        FileModel::Types { types, .. } => declarations_self_free(types),
        FileModel::Kinds { kinds, .. } => forall|i: int|
            0 <= i < kinds.len() ==> #[trigger] kind_self_free(kinds[i]),
        FileModel::Signal { requests, responses, types, .. } => {
            &&& variants_self_free(requests)
            &&& variants_self_free(responses)
            &&& declarations_self_free(types)
        },
        FileModel::Sema { types, .. } => declarations_self_free(types),
    }
}

pub proof fn lemma_expression_pfs(s: Seq<TypeExpressionModel>)
    ensures
        expression_pfs(s).len() == s.len(),
        forall|i: int| 0 <= i < s.len() ==> #[trigger] expression_pfs(s)[i] == expression_pf(s[i]),
        self_free_all(s) <==> forall|i: int| 0 <= i < s.len() ==> #[trigger] self_free(s[i]),
    decreases s.len(),
{
    if s.len() > 0 {
        let d = s.drop_last();
        lemma_expression_pfs(d);
        assert(s.last() == s[s.len() - 1]);
        if self_free_all(s) {
            assert forall|i: int| 0 <= i < s.len() implies #[trigger] self_free(s[i]) by {
                if i < s.len() - 1 {
                    assert(d[i] == s[i]);
                    assert(self_free(d[i]));
                }
            }
        }
        if forall|i: int| 0 <= i < s.len() ==> #[trigger] self_free(s[i]) {
            assert forall|i: int| 0 <= i < d.len() implies #[trigger] self_free(d[i]) by {
                assert(d[i] == s[i]);
                assert(self_free(s[i]));
            }
            assert(self_free(s[s.len() - 1]));
        }
    }
}

pub proof fn lemma_variant_pfs(s: Seq<VariantModel>)
    ensures
        variant_pfs(s).len() == s.len(),
        forall|i: int| 0 <= i < s.len() ==> #[trigger] variant_pfs(s)[i] == variant_pf(s[i]),
        variants_self_free(s) <==> forall|i: int|
            0 <= i < s.len() ==> #[trigger] variant_self_free(s[i]),
    decreases s.len(),
{
    if s.len() > 0 {
        let d = s.drop_last();
        lemma_variant_pfs(d);
        assert(s.last() == s[s.len() - 1]);
        if variants_self_free(s) {
            assert forall|i: int| 0 <= i < s.len() implies #[trigger] variant_self_free(s[i]) by {
                if i < s.len() - 1 {
                    assert(d[i] == s[i]);
                    assert(variant_self_free(d[i]));
                }
            }
        }
        if forall|i: int| 0 <= i < s.len() ==> #[trigger] variant_self_free(s[i]) {
            assert forall|i: int| 0 <= i < d.len() implies #[trigger] variant_self_free(d[i]) by {
                assert(d[i] == s[i]);
                assert(variant_self_free(s[i]));
            }
            assert(variant_self_free(s[s.len() - 1]));
        }
    }
}

/// Bare names read back as themselves.
pub proof fn lemma_bare_symbols(names: Seq<Seq<char>>)
    ensures
        bare_symbols(bare_pfs(names)) == Some(names),
    decreases names.len(),
{
    if names.len() > 0 {
        lemma_bare_symbols(names.drop_last());
        assert(bare_pfs(names).drop_last() =~= bare_pfs(names.drop_last()));
        assert(names.drop_last().push(names.last()) =~= names);
    } else {
        assert(bare_pfs(names) =~= Seq::<ProtoformModel>::empty());
    }
}

/// A list whose every protoform reads as the matching value reads as the list of them.
pub proof fn lemma_read_each_all<T>(
    pfs: Seq<ProtoformModel>,
    s: Seq<T>,
    read: spec_fn(ProtoformModel) -> Result<T, Fail>,
)
    requires
        pfs.len() == s.len(),
        forall|i: int| 0 <= i < s.len() ==> #[trigger] read(pfs[i]) == Ok::<T, Fail>(s[i]),
    ensures
        read_each(pfs, read) == Ok::<Seq<T>, Fail>(s),
    decreases s.len(),
{
    if s.len() > 0 {
        assert forall|i: int| 0 <= i < s.drop_last().len() implies #[trigger] read(
            pfs.drop_last()[i],
        ) == Ok::<T, Fail>(s.drop_last()[i]) by {
            assert(read(pfs[i]) == Ok::<T, Fail>(s[i]));
        }
        lemma_read_each_all(pfs.drop_last(), s.drop_last(), read);
        assert(read(pfs[s.len() - 1]) == Ok::<T, Fail>(s[s.len() - 1]));
        assert(s.drop_last().push(s.last()) =~= s);
    } else {
        assert(s =~= Seq::<T>::empty());
    }
}

/// An expression written at position `i` reads back, consuming nothing after it.
pub proof fn lemma_read_expression_at(pfs: Seq<ProtoformModel>, i: int, t: TypeExpressionModel)
    requires
        0 <= i < pfs.len(),
        pfs[i] == expression_pf(t),
        self_free(t),
        !(i + 1 < pfs.len() && pfs[i + 1] is Enclosed),
    ensures
        expression_at(pfs, i) == Ok::<(TypeExpressionModel, bool), Fail>((t, false)),
    decreases t, 0int,
{
    reveal_strlit("Self");
    match t {
        TypeExpressionModel::Applied(c, a) => {
            lemma_expression_pfs(a);
            lemma_read_expressions_from(a, 0);
            assert(a.subrange(0, a.len() as int) =~= a);
        },
        _ => {},
    }
}

/// A list of expressions reads back from any position on.
pub proof fn lemma_read_expressions_from(s: Seq<TypeExpressionModel>, i: int)
    requires
        0 <= i <= s.len(),
        self_free_all(s),
    ensures
        expressions_from(expression_pfs(s), i) == Ok::<Seq<TypeExpressionModel>, Fail>(
            s.subrange(i, s.len() as int),
        ),
    decreases s, s.len() - i + 1,
{
    lemma_expression_pfs(s);
    if i < s.len() {
        assert(decreases_to!(s => s[i]));
        lemma_read_expression_at(expression_pfs(s), i, s[i]);
        lemma_read_expressions_from(s, i + 1);
        assert(seq![s[i]] + s.subrange(i + 1, s.len() as int) =~= s.subrange(i, s.len() as int));
    } else {
        assert(s.subrange(i, s.len() as int) =~= Seq::<TypeExpressionModel>::empty());
    }
}


/// A variant written at position `i` reads back, consuming nothing after it.
pub proof fn lemma_read_variant_at(pfs: Seq<ProtoformModel>, i: int, v: VariantModel)
    requires
        0 <= i < pfs.len(),
        pfs[i] == variant_pf(v),
        variant_self_free(v),
        !(i + 1 < pfs.len() && pfs[i + 1] is Enclosed),
    ensures
        variant_at(pfs, i) == Ok::<(VariantModel, bool), Fail>((v, false)),
    decreases v, 0int,
{
    match v {
        VariantModel::Unit(n) => {},
        VariantModel::Typed(n, t) => {
            if i + 1 < pfs.len() {
                let two = seq![expression_pf(t), pfs[i + 1]];
                lemma_read_expression_at(two, 0, t);
            } else {
                lemma_read_expression_at(seq![expression_pf(t)], 0, t);
            }
        },
        VariantModel::InlineStruct(n, f) => {
            lemma_read_expressions_from(f, 0);
            assert(f.subrange(0, f.len() as int) =~= f);
        },
        VariantModel::InlineEnum(n, vs) => {
            lemma_read_variants_from(vs, 0);
            assert(vs.subrange(0, vs.len() as int) =~= vs);
        },
    }
}

/// A list of variants reads back from any position on.
pub proof fn lemma_read_variants_from(s: Seq<VariantModel>, i: int)
    requires
        0 <= i <= s.len(),
        variants_self_free(s),
    ensures
        variants_from(variant_pfs(s), i) == Ok::<Seq<VariantModel>, Fail>(
            s.subrange(i, s.len() as int),
        ),
    decreases s, s.len() - i + 1,
{
    lemma_variant_pfs(s);
    if i < s.len() {
        assert(decreases_to!(s => s[i]));
        assert(variant_self_free(s[i]));
        if i + 1 < s.len() {
            assert(variant_pfs(s)[i + 1] == variant_pf(s[i + 1]));
        }
        lemma_read_variant_at(variant_pfs(s), i, s[i]);
        lemma_read_variants_from(s, i + 1);
        assert(seq![s[i]] + s.subrange(i + 1, s.len() as int) =~= s.subrange(i, s.len() as int));
    } else {
        assert(s.subrange(i, s.len() as int) =~= Seq::<VariantModel>::empty());
    }
}


/// A declaration written at position `i` reads back, consuming nothing after it.
pub proof fn lemma_read_declaration_at(pfs: Seq<ProtoformModel>, i: int, d: TypeDeclarationModel)
    requires
        0 <= i < pfs.len(),
        pfs[i] == declaration_pf(d),
        declaration_self_free(d),
        !(i + 1 < pfs.len() && pfs[i + 1] is Enclosed),
    ensures
        declaration_at(pfs, i) == Ok::<(TypeDeclarationModel, bool), Fail>((d, false)),
{
    match d {
        TypeDeclarationModel::Struct(n, f) => {
            lemma_read_expressions_from(f, 0);
            assert(f.subrange(0, f.len() as int) =~= f);
        },
        TypeDeclarationModel::Enum(n, v) => {
            lemma_read_variants_from(v, 0);
            assert(v.subrange(0, v.len() as int) =~= v);
        },
        TypeDeclarationModel::Alias(n, t) => {
            if i + 1 < pfs.len() {
                lemma_read_expression_at(seq![expression_pf(t), pfs[i + 1]], 0, t);
            } else {
                lemma_read_expression_at(seq![expression_pf(t)], 0, t);
            }
        },
    }
}

/// A list of declarations reads back from any position on.
pub proof fn lemma_read_declarations_from(s: Seq<TypeDeclarationModel>, i: int)
    requires
        0 <= i <= s.len(),
        declarations_self_free(s),
    ensures
        declarations_from(declaration_pfs(s), i) == Ok::<Seq<TypeDeclarationModel>, Fail>(
            s.subrange(i, s.len() as int),
        ),
    decreases s.len() - i,
{
    let pfs = declaration_pfs(s);
    if i < s.len() {
        assert(declaration_self_free(s[i]));
        lemma_read_declaration_at(pfs, i, s[i]);
        lemma_read_declarations_from(s, i + 1);
        assert(seq![s[i]] + s.subrange(i + 1, s.len() as int) =~= s.subrange(i, s.len() as int));
    } else {
        assert(s.subrange(i, s.len() as int) =~= Seq::<TypeDeclarationModel>::empty());
    }
}

/// A section of declarations reads back.
pub proof fn lemma_read_type_declarations(s: Seq<TypeDeclarationModel>)
    requires
        declarations_self_free(s),
    ensures
        read_type_declarations(bracketed_pf(declaration_pfs(s))) == Ok::<
            Seq<TypeDeclarationModel>,
            Fail,
        >(s),
{
    lemma_read_declarations_from(s, 0);
    assert(s.subrange(0, s.len() as int) =~= s);
}

/// A section of variants reads back.
pub proof fn lemma_read_variant_list(s: Seq<VariantModel>)
    requires
        variants_self_free(s),
    ensures
        read_variant_list(bracketed_pf(variant_pfs(s))) == Ok::<Seq<VariantModel>, Fail>(s),
{
    lemma_read_variants_from(s, 0);
    assert(s.subrange(0, s.len() as int) =~= s);
}

/// Imports read back.
pub proof fn lemma_read_imports(s: Seq<ImportModel>)
    ensures
        read_imports(bracketed_pf(import_pfs(s))) == Ok::<Seq<ImportModel>, Fail>(s),
{
    assert forall|i: int| 0 <= i < s.len() implies #[trigger] import_reader()(import_pfs(s)[i])
        == Ok::<ImportModel, Fail>(s[i]) by {
        match s[i] {
            ImportModel::Single(src, n) => {},
            ImportModel::Multiple(src, ns) => {
                lemma_bare_symbols(ns);
            },
            ImportModel::Renamed(src, n, e) => {},
        }
    }
    lemma_read_each_all(import_pfs(s), s, import_reader());
}

/// Associations read back.
pub proof fn lemma_read_associations(s: Seq<AssociationModel>)
    ensures
        read_associations(
            bracketed_pf(s.map_values(|a: AssociationModel| association_pf(a))),
        ) == Ok::<Seq<AssociationModel>, Fail>(s),
{
    let pfs = s.map_values(|a: AssociationModel| association_pf(a));
    assert forall|i: int| 0 <= i < s.len() implies #[trigger] association_reader()(pfs[i])
        == Ok::<AssociationModel, Fail>(s[i]) by {
        lemma_bare_symbols(s[i].kinds);
    }
    lemma_read_each_all(pfs, s, association_reader());
}


/// A capability reads back.
pub proof fn lemma_read_capability(c: CapabilityModel)
    requires
        capability_self_free(c),
    ensures
        read_capability(capability_pf(c)) == Ok::<CapabilityModel, Fail>(c),
{
    let one = seq![expression_pf(c.yield_type)];
    lemma_read_expression_at(one, 0, c.yield_type);
    assert(expressions_from(one, 1) == Ok::<Seq<TypeExpressionModel>, Fail>(
        Seq::empty(),
    ));
    assert(seq![c.yield_type] + Seq::<TypeExpressionModel>::empty() =~= seq![c.yield_type]);
    if c.inputs.len() == 0 {
        assert(c.inputs =~= Seq::<TypeExpressionModel>::empty());
    } else {
        lemma_read_expressions_from(c.inputs, 0);
        assert(c.inputs.subrange(0, c.inputs.len() as int) =~= c.inputs);
    }
}

/// Capabilities read back.
pub proof fn lemma_read_capabilities(s: Seq<CapabilityModel>)
    requires
        capabilities_self_free(s),
    ensures
        read_each(capability_pfs(s), capability_reader()) == Ok::<Seq<CapabilityModel>, Fail>(
            s,
        ),
{
    assert forall|i: int| 0 <= i < s.len() implies #[trigger] capability_reader()(
        capability_pfs(s)[i],
    ) == Ok::<CapabilityModel, Fail>(s[i]) by {
        assert(capability_self_free(s[i]));
        lemma_read_capability(s[i]);
    }
    lemma_read_each_all(capability_pfs(s), s, capability_reader());
}

/// A kind constraint reads back.
pub proof fn lemma_read_kind_constraint(b: Seq<Seq<char>>)
    ensures
        read_kind_constraint(kind_constraint_pf(b)) == Ok::<Seq<Seq<char>>, Fail>(b),
{
    if b.len() == 1 {
        assert(seq![b[0]] =~= b);
    } else {
        lemma_bare_symbols(b);
    }
}

/// A kind reads back.
pub proof fn lemma_read_kind(k: KindDeclarationModel)
    requires
        kind_self_free(k),
    ensures
        read_kind(kind_pf(k)) == Ok::<KindDeclarationModel, Fail>(k),
{
    let (name, constraints) = match k {
        KindDeclarationModel::Simple { name, constraints, .. } => (name, constraints),
        KindDeclarationModel::Complex { name, constraints, .. } => (name, constraints),
    };
    let qs = constraints.map_values(|b: Seq<Seq<char>>| kind_constraint_pf(b));
    assert forall|i: int| 0 <= i < constraints.len() implies #[trigger] kind_constraint_reader()(
        qs[i],
    ) == Ok::<Seq<Seq<char>>, Fail>(constraints[i]) by {
        lemma_read_kind_constraint(constraints[i]);
    }
    lemma_read_each_all(qs, constraints, kind_constraint_reader());
    if constraints.len() == 0 {
        assert(constraints =~= Seq::<Seq<Seq<char>>>::empty());
    }
    match k {
        KindDeclarationModel::Simple { capabilities, .. } => {
            lemma_read_capabilities(capabilities);
        },
        KindDeclarationModel::Complex {
            superkinds,
            associated_types,
            associated_constants,
            capabilities,
            ..
        } => {
            lemma_read_capabilities(capabilities);
            lemma_bare_symbols(superkinds);
            let tps = associated_types.map_values(|a: AssociatedTypeModel| associated_type_pf(a));
            assert forall|i: int| 0 <= i < associated_types.len() implies #[trigger]
                associated_type_reader()(tps[i]) == Ok::<AssociatedTypeModel, Fail>(
                associated_types[i],
            ) by {
                let a = associated_types[i];
                if a.constraints.len() == 0 {
                    assert(a.constraints =~= Seq::<Seq<char>>::empty());
                } else {
                    lemma_bare_symbols(a.constraints);
                }
            }
            lemma_read_each_all(tps, associated_types, associated_type_reader());
            let cps = associated_constants.map_values(
                |a: AssociatedConstantModel| associated_constant_pf(a),
            );
            assert forall|i: int| 0 <= i < associated_constants.len() implies #[trigger]
                associated_constant_reader()(cps[i]) == Ok::<AssociatedConstantModel, Fail>(
                associated_constants[i],
            ) by {
                let a = associated_constants[i];
                assert(self_free(a.ty));
                lemma_read_expression_at(seq![expression_pf(a.ty)], 0, a.ty);
            }
            lemma_read_each_all(cps, associated_constants, associated_constant_reader());
        },
    }
}


/// The sections of each file variant read back.
proof fn lemma_read_sections(f: FileModel)
    requires
        file_self_free(f),
    ensures
        read_sections(root_of(f), sections_pf(f)) == Ok::<FileModel, Fail>(f),
{
    reveal_strlit("Types");
    reveal_strlit("Kinds");
    reveal_strlit("Signal");
    reveal_strlit("Sema");
    assert("Kinds"@[0] != "Types"@[0]);
    assert("Signal"@[0] != "Types"@[0] && "Signal"@[0] != "Kinds"@[0]);
    assert("Sema"@[0] != "Types"@[0] && "Sema"@[0] != "Kinds"@[0] && "Sema"@[1] != "Signal"@[1]);
    match f {
        FileModel::Types { imports, types, associations } => {
            lemma_read_imports(imports);
            lemma_read_type_declarations(types);
            lemma_read_associations(associations);
        },
        FileModel::Kinds { imports, kinds } => {
            lemma_read_imports(imports);
            let kps = kinds.map_values(|k: KindDeclarationModel| kind_pf(k));
            assert forall|i: int| 0 <= i < kinds.len() implies #[trigger] kind_reader()(kps[i])
                == Ok::<KindDeclarationModel, Fail>(kinds[i]) by {
                assert(kind_self_free(kinds[i]));
                lemma_read_kind(kinds[i]);
            }
            lemma_read_each_all(kps, kinds, kind_reader());
            assert(read_kinds(bracketed_pf(kps)) == Ok::<Seq<KindDeclarationModel>, Fail>(kinds));
        },
        FileModel::Signal { imports, requests, responses, types } => {
            lemma_read_imports(imports);
            lemma_read_variant_list(requests);
            lemma_read_variant_list(responses);
            lemma_read_type_declarations(types);
        },
        FileModel::Sema { imports, types } => {
            lemma_read_imports(imports);
            lemma_read_type_declarations(types);
        },
    }
}

/// Reading what protosization wrote gives the file back: for every file in which
/// no named type is spelled `Self`, `read_file([protosize(f)]) == Ok(f)`.
pub proof fn lemma_read_protosized(f: FileModel)
    requires
        file_self_free(f),
    ensures
        read_file(seq![file_pf(f)]) == Ok::<FileModel, Fail>(f),
{
    lemma_read_sections(f);
}


// ===========================================================================
// Executable protosization
// ===========================================================================

fn bare_protoform(name: &String) -> (r: Protoform)
    ensures
        r@ == bare_pf(name@),
{
    proof {
        reveal_with_fuel(crate::protoform::protoform_model, 2);
    }
    Protoform::Bare(Head::Bare(copy_text(name)))
}

fn headed_protoform(name: String, body: Protoform) -> (r: Protoform)
    ensures
        r@ == headed_pf(name@, body@),
{
    proof {
        reveal_with_fuel(crate::protoform::protoform_model, 2);
    }
    Protoform::Headed(Head::Bare(name), Separator::Period, Box::new(body))
}

fn bracketed(children: Vec<Protoform>) -> (r: Protoform)
    ensures
        r@ == bracketed_pf(protoform_models(children@)),
{
    Protoform::Enclosed(Enclosure::Bracketed, children)
}

fn braced(children: Vec<Protoform>) -> (r: Protoform)
    ensures
        r@ == braced_pf(protoform_models(children@)),
{
    Protoform::Enclosed(Enclosure::Braced, children)
}

/// Each name as a bare symbol.
fn bare_list(names: &Vec<String>) -> (r: Vec<Protoform>)
    ensures
        protoform_models(r@) == bare_pfs(texts(names@)),
{
    let mut out: Vec<Protoform> = Vec::new();
    let mut i: usize = 0;
    while i < names.len()
        invariant
            i <= names@.len(),
            out@.len() == i,
            forall|j: int| 0 <= j < i ==> protoform_model(#[trigger] out@[j]) == bare_pf(names@[j]@),
        decreases names@.len() - i,
    {
        out.push(bare_protoform(&names[i]));
        i += 1;
    }
    proof {
        lemma_protoform_models(out@);
        assert(protoform_models(out@) =~= bare_pfs(texts(names@)));
    }
    out
}

fn protosize_expression(e: &TypeExpression) -> (r: Protoform)
    ensures
        r@ == expression_pf(e@),
    decreases e, 0int,
{
    proof {
        reveal_with_fuel(crate::protoform::protoform_model, 2);
        reveal_with_fuel(crate::concept::type_expression_model, 2);
    }
    match e {
        TypeExpression::Named(n) => bare_protoform(n),
        TypeExpression::Applied(c, args) => {
            let a = protosize_expressions(args);
            Protoform::Bare(Head::Qualified(copy_text(c), a))
        },
        TypeExpression::SelfType => Protoform::Bare(Head::Bare(String::from_str("Self"))),
    }
}

fn protosize_expressions(v: &Vec<TypeExpression>) -> (r: Vec<Protoform>)
    ensures
        protoform_models(r@) == expression_pfs(type_expression_models(v@)),
    decreases v@, 1int,
{
    let mut out: Vec<Protoform> = Vec::new();
    let mut i: usize = 0;
    while i < v.len()
        invariant
            i <= v@.len(),
            out@.len() == i,
            forall|j: int| 0 <= j < i ==> protoform_model(#[trigger] out@[j]) == expression_pf(v@[j]@),
        decreases v@.len() - i,
    {
        proof {
            assert(decreases_to!(v@ => v@[i as int]));
        }
        let p = protosize_expression(&v[i]);
        out.push(p);
        i += 1;
    }
    proof {
        lemma_protoform_models(out@);
        lemma_type_expression_models(v@);
        lemma_expression_pfs(type_expression_models(v@));
        assert(protoform_models(out@) =~= expression_pfs(type_expression_models(v@)));
    }
    out
}

fn protosize_variant(v: &Variant) -> (r: Protoform)
    ensures
        r@ == variant_pf(v@),
    decreases v, 0int,
{
    match v {
        Variant::Unit(n) => bare_protoform(n),
        Variant::Typed(n, t) => headed_protoform(copy_text(n), protosize_expression(t)),
        Variant::InlineStruct(n, f) => headed_protoform(
            copy_text(n),
            braced(protosize_expressions(f)),
        ),
        Variant::InlineEnum(n, vs) => headed_protoform(
            copy_text(n),
            bracketed(protosize_variants(vs)),
        ),
    }
}

fn protosize_variants(v: &Vec<Variant>) -> (r: Vec<Protoform>)
    ensures
        protoform_models(r@) == variant_pfs(variant_models(v@)),
    decreases v@, 1int,
{
    let mut out: Vec<Protoform> = Vec::new();
    let mut i: usize = 0;
    while i < v.len()
        invariant
            i <= v@.len(),
            out@.len() == i,
            forall|j: int| 0 <= j < i ==> protoform_model(#[trigger] out@[j]) == variant_pf(v@[j]@),
        decreases v@.len() - i,
    {
        proof {
            assert(decreases_to!(v@ => v@[i as int]));
        }
        let p = protosize_variant(&v[i]);
        out.push(p);
        i += 1;
    }
    proof {
        lemma_protoform_models(out@);
        lemma_variant_models(v@);
        lemma_variant_pfs(variant_models(v@));
        assert(protoform_models(out@) =~= variant_pfs(variant_models(v@)));
    }
    out
}

fn protosize_declaration(d: &TypeDeclaration) -> (r: Protoform)
    ensures
        r@ == declaration_pf(d@),
{
    match d {
        TypeDeclaration::Struct(n, f) => headed_protoform(
            copy_text(n),
            braced(protosize_expressions(f)),
        ),
        TypeDeclaration::Enum(n, v) => headed_protoform(
            copy_text(n),
            bracketed(protosize_variants(v)),
        ),
        TypeDeclaration::Alias(n, t) => headed_protoform(copy_text(n), protosize_expression(t)),
    }
}

fn protosize_declarations(v: &Vec<TypeDeclaration>) -> (r: Protoform)
    ensures
        r@ == bracketed_pf(declaration_pfs(declaration_models(v@))),
{
    let mut out: Vec<Protoform> = Vec::new();
    let mut i: usize = 0;
    while i < v.len()
        invariant
            i <= v@.len(),
            out@.len() == i,
            forall|j: int| 0 <= j < i ==> protoform_model(#[trigger] out@[j]) == declaration_pf(v@[j]@),
        decreases v@.len() - i,
    {
        out.push(protosize_declaration(&v[i]));
        i += 1;
    }
    proof {
        lemma_protoform_models(out@);
        assert(protoform_models(out@) =~= declaration_pfs(declaration_models(v@)));
    }
    bracketed(out)
}

fn protosize_import(i: &Import) -> (r: Protoform)
    ensures
        r@ == import_pf(i@),
{
    proof {
        reveal_with_fuel(crate::protoform::protoform_model, 3);
    }
    match i {
        Import::Single(source, name) => Protoform::Headed(
            Head::Bare(copy_text(source)),
            Separator::Colon,
            Box::new(bare_protoform(name)),
        ),
        Import::Multiple(source, names) => Protoform::Headed(
            Head::Bare(copy_text(source)),
            Separator::Colon,
            Box::new(bracketed(bare_list(names))),
        ),
        Import::Renamed(source, name, emitted) => Protoform::Headed(
            Head::Bare(copy_text(source)),
            Separator::Colon,
            Box::new(
                Protoform::Headed(
                    Head::Bare(copy_text(name)),
                    Separator::Period,
                    Box::new(bare_protoform(emitted)),
                ),
            ),
        ),
    }
}

fn protosize_imports(v: &Vec<Import>) -> (r: Protoform)
    ensures
        r@ == bracketed_pf(import_pfs(import_models(v@))),
{
    let mut out: Vec<Protoform> = Vec::new();
    let mut i: usize = 0;
    while i < v.len()
        invariant
            i <= v@.len(),
            out@.len() == i,
            forall|j: int| 0 <= j < i ==> protoform_model(#[trigger] out@[j]) == import_pf(v@[j]@),
        decreases v@.len() - i,
    {
        out.push(protosize_import(&v[i]));
        i += 1;
    }
    proof {
        lemma_protoform_models(out@);
        assert(protoform_models(out@) =~= import_pfs(import_models(v@)));
    }
    bracketed(out)
}


fn protosize_kind_constraint(k: &KindConstraint) -> (r: Protoform)
    ensures
        r@ == kind_constraint_pf(k@),
{
    if k.bounds.len() == 1 {
        bare_protoform(&k.bounds[0])
    } else {
        bracketed(bare_list(&k.bounds))
    }
}

fn protosize_capability(c: &Capability) -> (r: Protoform)
    ensures
        r@ == capability_pf(c@),
{
    proof {
        reveal_with_fuel(crate::protoform::protoform_model, 2);
        lemma_type_expression_models(c.inputs@);
    }
    let sep = match c.receiver {
        Receiver::Shared => Separator::Period,
        Receiver::Mutable => Separator::Exclamation,
        Receiver::Static => Separator::Colon,
    };
    let body = if c.inputs.len() == 0 {
        let y = protosize_expression(&c.yield_type);
        let ghost ym = y@;
        let v = vec![y];
        proof {
            lemma_protoform_models(v@);
            assert(protoform_models(v@) =~= seq![ym]);
        }
        bracketed(v)
    } else {
        let inputs = bracketed(protosize_expressions(&c.inputs));
        let y = protosize_expression(&c.yield_type);
        let ghost ym = y@;
        let yv = vec![y];
        proof {
            lemma_protoform_models(yv@);
            assert(protoform_models(yv@) =~= seq![ym]);
        }
        let yields = bracketed(yv);
        let ghost im = inputs@;
        let ghost ydm = yields@;
        let v = vec![inputs, yields];
        proof {
            lemma_protoform_models(v@);
            assert(protoform_models(v@) =~= seq![im, ydm]);
        }
        braced(v)
    };
    Protoform::Headed(Head::Bare(copy_text(&c.name)), sep, Box::new(body))
}

fn protosize_capabilities(v: &Vec<Capability>) -> (r: Protoform)
    ensures
        r@ == bracketed_pf(capability_pfs(capability_models(v@))),
{
    let mut out: Vec<Protoform> = Vec::new();
    let mut i: usize = 0;
    while i < v.len()
        invariant
            i <= v@.len(),
            out@.len() == i,
            forall|j: int| 0 <= j < i ==> protoform_model(#[trigger] out@[j]) == capability_pf(v@[j]@),
        decreases v@.len() - i,
    {
        out.push(protosize_capability(&v[i]));
        i += 1;
    }
    proof {
        lemma_protoform_models(out@);
        assert(protoform_models(out@) =~= capability_pfs(capability_models(v@)));
    }
    bracketed(out)
}

fn protosize_associated_type(a: &AssociatedType) -> (r: Protoform)
    ensures
        r@ == associated_type_pf(a@),
{
    proof {
        reveal_with_fuel(crate::protoform::protoform_model, 2);
    }
    if a.constraints.len() == 0 {
        bare_protoform(&a.name)
    } else {
        Protoform::Bare(Head::Qualified(copy_text(&a.name), bare_list(&a.constraints)))
    }
}

fn protosize_associated_constant(a: &AssociatedConstant) -> (r: Protoform)
    ensures
        r@ == associated_constant_pf(a@),
{
    headed_protoform(copy_text(&a.name), protosize_expression(&a.ty))
}

fn protosize_kind(k: &KindDeclaration) -> (r: Protoform)
    ensures
        r@ == kind_pf(k@),
{
    proof {
        reveal_with_fuel(crate::protoform::protoform_model, 2);
    }
    let (name, constraints) = match k {
        KindDeclaration::Simple { name, constraints, .. } => (name, constraints),
        KindDeclaration::Complex { name, constraints, .. } => (name, constraints),
    };
    let head = if constraints.len() == 0 {
        Head::Bare(copy_text(name))
    } else {
        let mut qs: Vec<Protoform> = Vec::new();
        let mut i: usize = 0;
        while i < constraints.len()
            invariant
                i <= constraints@.len(),
                qs@.len() == i,
                forall|j: int|
                    0 <= j < i ==> protoform_model(#[trigger] qs@[j]) == kind_constraint_pf(
                        constraints@[j]@,
                    ),
            decreases constraints@.len() - i,
        {
            qs.push(protosize_kind_constraint(&constraints[i]));
            i += 1;
        }
        proof {
            lemma_protoform_models(qs@);
            assert(protoform_models(qs@) =~= kind_constraint_models(constraints@).map_values(
                |b: Seq<Seq<char>>| kind_constraint_pf(b),
            ));
        }
        Head::Qualified(copy_text(name), qs)
    };
    match k {
        KindDeclaration::Simple { capabilities, .. } => Protoform::Headed(
            head,
            Separator::Period,
            Box::new(protosize_capabilities(capabilities)),
        ),
        KindDeclaration::Complex {
            superkinds,
            associated_types,
            associated_constants,
            capabilities,
            ..
        } => {
            let supers = bracketed(bare_list(superkinds));
            let mut tps: Vec<Protoform> = Vec::new();
            let mut i: usize = 0;
            while i < associated_types.len()
                invariant
                    i <= associated_types@.len(),
                    tps@.len() == i,
                    forall|j: int|
                        0 <= j < i ==> protoform_model(#[trigger] tps@[j]) == associated_type_pf(
                            associated_types@[j]@,
                        ),
                decreases associated_types@.len() - i,
            {
                tps.push(protosize_associated_type(&associated_types[i]));
                i += 1;
            }
            let mut cps: Vec<Protoform> = Vec::new();
            let mut i: usize = 0;
            while i < associated_constants.len()
                invariant
                    i <= associated_constants@.len(),
                    cps@.len() == i,
                    forall|j: int|
                        0 <= j < i ==> protoform_model(#[trigger] cps@[j])
                            == associated_constant_pf(associated_constants@[j]@),
                decreases associated_constants@.len() - i,
            {
                cps.push(protosize_associated_constant(&associated_constants[i]));
                i += 1;
            }
            proof {
                lemma_protoform_models(tps@);
                lemma_protoform_models(cps@);
                assert(protoform_models(tps@) =~= associated_types@.map_values(
                    |a: AssociatedType| a@,
                ).map_values(|a: AssociatedTypeModel| associated_type_pf(a)));
                assert(protoform_models(cps@) =~= associated_constants@.map_values(
                    |a: AssociatedConstant| a@,
                ).map_values(|a: AssociatedConstantModel| associated_constant_pf(a)));
            }
            let types_pf = bracketed(tps);
            let constants_pf = bracketed(cps);
            let caps_pf = protosize_capabilities(capabilities);
            let ghost m = seq![supers@, types_pf@, constants_pf@, caps_pf@];
            let sections = vec![supers, types_pf, constants_pf, caps_pf];
            proof {
                lemma_protoform_models(sections@);
                assert(protoform_models(sections@) =~= m);
            }
            Protoform::Headed(head, Separator::Period, Box::new(braced(sections)))
        },
    }
}

fn protosize_association(a: &Association) -> (r: Protoform)
    ensures
        r@ == association_pf(a@),
{
    headed_protoform(copy_text(&a.ty), bracketed(bare_list(&a.kinds)))
}


fn protosize_kinds(v: &Vec<KindDeclaration>) -> (r: Protoform)
    ensures
        r@ == bracketed_pf(
            v@.map_values(|d: KindDeclaration| d@).map_values(
                |k: KindDeclarationModel| kind_pf(k),
            ),
        ),
{
    let mut out: Vec<Protoform> = Vec::new();
    let mut i: usize = 0;
    while i < v.len()
        invariant
            i <= v@.len(),
            out@.len() == i,
            forall|j: int| 0 <= j < i ==> protoform_model(#[trigger] out@[j]) == kind_pf(v@[j]@),
        decreases v@.len() - i,
    {
        out.push(protosize_kind(&v[i]));
        i += 1;
    }
    proof {
        lemma_protoform_models(out@);
        assert(protoform_models(out@) =~= v@.map_values(|d: KindDeclaration| d@).map_values(
            |k: KindDeclarationModel| kind_pf(k),
        ));
    }
    bracketed(out)
}

fn protosize_associations(v: &Vec<Association>) -> (r: Protoform)
    ensures
        r@ == bracketed_pf(
            v@.map_values(|a: Association| a@).map_values(|a: AssociationModel| association_pf(a)),
        ),
{
    let mut out: Vec<Protoform> = Vec::new();
    let mut i: usize = 0;
    while i < v.len()
        invariant
            i <= v@.len(),
            out@.len() == i,
            forall|j: int|
                0 <= j < i ==> protoform_model(#[trigger] out@[j]) == association_pf(v@[j]@),
        decreases v@.len() - i,
    {
        out.push(protosize_association(&v[i]));
        i += 1;
    }
    proof {
        lemma_protoform_models(out@);
        assert(protoform_models(out@) =~= v@.map_values(|a: Association| a@).map_values(
            |a: AssociationModel| association_pf(a),
        ));
    }
    bracketed(out)
}

/// The sections of a file, as a list.
fn protosize_sections(f: &File) -> (r: Vec<Protoform>)
    ensures
        protoform_models(r@) == sections_pf(f@),
{
    let ghost m;
    let v = match f {
        File::Types(t) => {
            let a = protosize_imports(&t.imports);
            let b = protosize_declarations(&t.types);
            let c = protosize_associations(&t.associations);
            proof {
                m = seq![a@, b@, c@];
            }
            vec![a, b, c]
        },
        File::Kinds(k) => {
            let a = protosize_imports(&k.imports);
            let b = protosize_kinds(&k.kinds);
            proof {
                m = seq![a@, b@];
            }
            vec![a, b]
        },
        File::Signal(s) => {
            let a = protosize_imports(&s.imports);
            let b = bracketed(protosize_variants(&s.requests));
            let c = bracketed(protosize_variants(&s.responses));
            let d = protosize_declarations(&s.types);
            proof {
                m = seq![a@, b@, c@, d@];
            }
            vec![a, b, c, d]
        },
        File::Sema(s) => {
            let a = protosize_imports(&s.imports);
            let b = protosize_declarations(&s.types);
            proof {
                m = seq![a@, b@];
            }
            vec![a, b]
        },
    };
    proof {
        lemma_protoform_models(v@);
        assert(protoform_models(v@) =~= m);
    }
    v
}

/// The root symbol of a file.
fn root_name(f: &File) -> (r: String)
    ensures
        r@ == root_of(f@),
{
    match f {
        File::Types(_) => String::from_str("Types"),
        File::Kinds(_) => String::from_str("Kinds"),
        File::Signal(_) => String::from_str("Signal"),
        File::Sema(_) => String::from_str("Sema"),
    }
}

impl File {
    /// The protoform that carries this file, `Root.{ sections }`, as the one
    /// protoform of a delineation. Protosization cannot fault.
    pub fn protosize(&self) -> (r: Delineation)
        ensures
            r@ == seq![file_pf(self@)],
    {
        let sections = protosize_sections(self);
        let pf = headed_protoform(root_name(self), braced(sections));
        let ghost pm = pf@;
        let protoforms = vec![pf];
        proof {
            lemma_protoform_models(protoforms@);
            assert(protoform_models(protoforms@) =~= seq![pm]);
        }
        Delineation { protoforms }
    }
}

} // verus!
