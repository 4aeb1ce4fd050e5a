//! Generation: File → Rust text (the emitter).
//!
//! The emitter writes the file's Rust token text (see [`crate::emission`]),
//! then the Rust parser reads it as a module and prints it back.

use vstd::prelude::*;
use crate::concept::{
    AssociatedConstant, AssociatedType, Association, Capability, Fault, File, Import,
    KindConstraint, KindDeclaration, Problem, ProblemModel, Receiver, TypeDeclaration, TypeDeclarationModel, TypeExpression, Variant,
    capability_models, declaration_models, import_models, kind_constraint_models,
    lemma_type_expression_models, lemma_variant_models, texts, type_expression_models,
    variant_models,
};
use crate::emission::{
    xid_start, xid_continue, lowercase, is_xid_start, is_xid_continue, to_lowercase, Halt,
    first, rust_ident_ok, plain_ident_ok, ih, emitted, sp, scalar_name, intrinsic_name, import_origin,
    name_text, name_halt, container_arity, constructor_text, constructor_halt, expr_text,
    args_text, expr_halt, args_halt, boxed_text, fields_text, types_halt, reaches, args_reach, boxes, tuple_fields_text, struct_boxing, datom_of, binder, binders, binder_conceives, tuple_arm,
    fields_recursive, variants_recursive, variants_recursive_from, variant_recursive, all_unit, struct_derive, enum_derive_text,
    variant_name, variant_token, variant_tokens, inline_type, inline_types, variant_decl_halt,
    variant_decls_halt, enum_boxing, declaration_text, declaration_halt, dec,
    conceivable_head, datomic_head, incorporable, field_conceives, field_incorporates,
    struct_datomic_text, struct_datomic_halt, variant_arm_head, incorporate_arm,
    incorporate_arm_halt, conceive_arm, incorporate_arms, incorporate_arms_halt,
    conceive_arms, conceive_arms_halt, enum_impls_text, enum_impls_halt, nested_impl,
    nested_impl_halt, nested_impls, nested_impls_halt, enum_datomic_text, enum_datomic_halt,
    declaration_datomic_text, declaration_datomic_halt, wire_derive, wire_envelope, plus_joined, names_halt, letter, bound_text,
    generic_params, generic_params_halt, generics_text, supertraits_text,
    associated_type_text, associated_types_text, associated_types_halt, constants_text,
    constants_halt, receiver_text, input_name, input_params, input_params_halt, method_params,
    capability_text, capability_halt, capabilities_text, capabilities_halt, trait_head_text, trait_head_halt, trait_items_text, trait_items_halt,
    kind_name,
    kind_constraints, kind_capabilities, kind_superkinds, kind_associated_types,
    kind_associated_constants, kind_text, kind_halt, assertion_name, assertions_text,
    assertions_halt, association_text, association_halt, signal_enum_text, signal_enum_halt,
    declarations_text, declarations_halt, associations_text, associations_halt, kinds_text,
    kinds_halt, module_header, file_text, file_halt,
};
use crate::canonical::{chars_of, push_char};
use crate::text::{copy_text, same_text};
use crate::reader::faults_with;

verus! {

// ===========================================================================
// Writing text
// ===========================================================================

pub(crate) fn put(out: &mut String, s: &str)
    ensures
        final(out)@ == old(out)@ + s@,
{
    out.append(s);
}

pub(crate) fn put_text(out: &mut String, s: &String)
    ensures
        final(out)@ == old(out)@ + s@,
{
    out.append(s.as_str());
}

/// A name followed by the space that ends its token.
fn put_name(out: &mut String, n: &String)
    ensures
        final(out)@ == old(out)@ + sp(n@),
{
    out.append(n.as_str());
    push_char(out, ' ');
}

/// The decimal digits of a number.
pub(crate) fn decimal(n: usize) -> (r: String)
    ensures
        r@ == dec(n as nat),
    decreases n,
{
    if n < 10 {
        let mut s = String::new();
        push_char(&mut s, ((48 + n) as u8) as char);
        proof {
            assert(s@ =~= dec(n as nat));
        }
        s
    } else {
        let mut s = decimal(n / 10);
        push_char(&mut s, ((48 + n % 10) as u8) as char);
        s
    }
}

/// Two names joined: the name of an inline type, its parent's name then its own.
fn joined(a: &String, b: &String) -> (r: String)
    ensures
        r@ == a@ + b@,
{
    let mut s = copy_text(a);
    put_text(&mut s, b);
    s
}

// ===========================================================================
// Identifiers
// ===========================================================================

/// Whether the characters of `s` from `from` on make a plain identifier.
#[verifier::rlimit(40)]
#[verifier::spinoff_prover]
fn plain_ident_from(s: &Vec<char>, from: usize) -> (r: bool)
    requires
        from <= s@.len(),
    ensures
        r == plain_ident_ok(s@.subrange(from as int, s@.len() as int)),
{
    let ghost t = s@.subrange(from as int, s@.len() as int);
    if from >= s.len() {
        return false;
    }
    let mut all_digits = true;
    let mut i: usize = from;
    while i < s.len()
        invariant
            from <= i <= s@.len(),
            t == s@.subrange(from as int, s@.len() as int),
            all_digits == (forall|j: int| 0 <= j < i - from ==> '0' <= #[trigger] t[j] <= '9'),
        decreases s@.len() - i,
    {
        proof {
            assert(t[i - from] == s@[i as int]);
        }
        all_digits = all_digits && '0' <= s[i] && s[i] <= '9';
        i += 1;
    }
    if all_digits {
        return false;
    }
    proof {
        assert(t[0] == s@[from as int]);
    }
    if !(s[from] == '_' || is_xid_start(s[from])) {
        return false;
    }
    let mut k: usize = from + 1;
    while k < s.len()
        invariant
            from + 1 <= k <= s@.len(),
            t == s@.subrange(from as int, s@.len() as int),
            forall|j: int| 1 <= j < k - from ==> xid_continue(#[trigger] t[j]),
        decreases s@.len() - k,
    {
        proof {
            assert(t[k - from] == s@[k as int]);
        }
        if !is_xid_continue(s[k]) {
            return false;
        }
        k += 1;
    }
    true
}

/// Whether the identifier constructor accepts `n`: a plain identifier, or
/// `r#` before one that may be raw.
pub fn is_rust_ident(n: &String) -> (r: bool)
    ensures
        r == rust_ident_ok(n@),
{
    let s = chars_of(n.as_str());
    proof {
        assert(s@.subrange(0, s@.len() as int) =~= s@);
    }
    if plain_ident_from(&s, 0) {
        return true;
    }
    if s.len() < 2 || s[0] != 'r' || s[1] != '#' {
        return false;
    }
    if !plain_ident_from(&s, 2) {
        return false;
    }
    let mut rest = String::new();
    let mut i: usize = 2;
    while i < s.len()
        invariant
            2 <= i <= s@.len(),
            rest@ == s@.subrange(2, i as int),
        decreases s@.len() - i,
    {
        push_char(&mut rest, s[i]);
        proof {
            assert(s@.subrange(2, i + 1) =~= s@.subrange(2, i as int).push(s@[i as int]));
        }
        i += 1;
    }
    !(same_text(&rest, "_") || same_text(&rest, "super") || same_text(&rest, "self") || same_text(
        &rest,
        "Self",
    ) || same_text(&rest, "crate"))
}

/// Make an identifier of `n`: refused when the identifier constructor would refuse it.
fn check_ident(n: &String) -> (r: Result<(), Halt>)
    ensures
        r == match ih(n@) {
            None => Ok::<(), Halt>(()),
            Some(h) => Err(h),
        },
{
    if is_rust_ident(n) {
        Ok(())
    } else {
        Err(Halt::Panic)
    }
}

// ===========================================================================
// Names and type expressions
// ===========================================================================

/// Whether one of the names is `name`.
fn names_contain(names: &Vec<String>, name: &String) -> (r: bool)
    ensures
        r == texts(names@).contains(name@),
{
    let mut k: usize = 0;
    while k < names.len()
        invariant
            k <= names@.len(),
            forall|j: int| 0 <= j < k ==> names@[j]@ != name@,
        decreases names@.len() - k,
    {
        if names[k] == *name {
            proof {
                assert(texts(names@)[k as int] == name@);
            }
            return true;
        }
        k += 1;
    }
    proof {
        if texts(names@).contains(name@) {
            let j = choose|j: int| 0 <= j < texts(names@).len() && texts(names@)[j] == name@;
            assert(names@[j]@ == name@);
        }
    }
    false
}

/// Where the imports bring `name` from: the last import that names it, its
/// source and the name the source gives it.
#[verifier::rlimit(40)]
#[verifier::spinoff_prover]
fn import_origin_of<'a>(imports: &'a Vec<Import>, name: &'a String) -> (r: Option<(&'a String, &'a String)>)
    ensures
        match import_origin(import_models(imports@), name@) {
            Some((m, e)) => r matches Some((a, b)) && a@ == m && b@ == e,
            None => r is None,
        },
{
    let ghost im = import_models(imports@);
    let mut i = imports.len();
    proof {
        assert(im.take(i as int) =~= im);
    }
    while i > 0
        invariant
            i <= imports@.len(),
            im == import_models(imports@),
            import_origin(im, name@) == import_origin(im.take(i as int), name@),
        decreases i,
    {
        i -= 1;
        proof {
            assert(im.take(i + 1).drop_last() =~= im.take(i as int));
            assert(im.take(i + 1).last() == imports@[i as int]@);
        }
        match &imports[i] {
            Import::Single(source, n) => {
                if *n == *name {
                    proof {
                        assert(im.take(i + 1).last() == crate::concept::ImportModel::Single(
                            source@,
                            n@,
                        ));
                    }
                    return Some((source, n));
                }
            },
            Import::Multiple(source, names) => {
                if names_contain(names, name) {
                    proof {
                        assert(im.take(i + 1).last() == crate::concept::ImportModel::Multiple(
                            source@,
                            texts(names@),
                        ));
                    }
                    return Some((source, name));
                }
            },
            Import::Renamed(source, n, e) => {
                if *n == *name {
                    proof {
                        assert(im.take(i + 1).last() == crate::concept::ImportModel::Renamed(
                            source@,
                            n@,
                            e@,
                        ));
                    }
                    return Some((source, e));
                }
            },
        }
    }
    None
}

/// Whether the name is one of the scalars that live under `protos`.
fn is_scalar(name: &String) -> (r: bool)
    ensures
        r == scalar_name(name@),
{
    same_text(name, "Text") || same_text(name, "Integer") || same_text(name, "Decimal")
        || same_text(name, "Boolean") || same_text(name, "Symbol")
}

/// Whether a declaration of the name as an alias of itself emits nothing.
pub fn is_intrinsic(name: &String) -> (r: bool)
    ensures
        r == intrinsic_name(name@),
{
    is_scalar(name) || same_text(name, "Meaning") || same_text(name, "Vector") || same_text(
        name,
        "Option",
    ) || same_text(name, "Result") || same_text(name, "Self")
}

/// A name in a type position.
#[verifier::rlimit(40)]
#[verifier::spinoff_prover]
fn resolve_type_name(name: &String, imports: &Vec<Import>, out: &mut String) -> (r: Result<
    (),
    Halt,
>)
    ensures
        emitted(
            r,
            old(out)@,
            final(out)@,
            name_halt(name@, import_models(imports@)),
            name_text(name@, import_models(imports@)),
        ),
{
    let ghost im = import_models(imports@);
    let ghost before = out@;
    if is_scalar(name) {
        if let Err(h) = check_ident(name) {
            return Err(h);
        }
        put(out, "protos :: ");
        put_name(out, name);
        assert(out@ =~= before + name_text(name@, im));
        Ok(())
    } else if same_text(name, "Meaning") {
        put(out, "datomic :: Meaning ");
        Ok(())
    } else {
        match import_origin_of(imports, name) {
            Some((m, e)) => {
                if let Err(h) = check_ident(m) {
                    return Err(h);
                }
                if let Err(h) = check_ident(e) {
                    return Err(h);
                }
                put_name(out, m);
                put(out, ":: ");
                put_name(out, e);
                assert(out@ =~= before + name_text(name@, im));
                Ok(())
            },
            None => {
                if let Err(h) = check_ident(name) {
                    return Err(h);
                }
                put_name(out, name);
                Ok(())
            },
        }
    }
}

/// A constructor outside the containers Rust spells itself.
fn resolve_constructor(c: &String, imports: &Vec<Import>, out: &mut String) -> (r: Result<
    (),
    Halt,
>)
    requires
        container_arity(c@) is None,
    ensures
        emitted(
            r,
            old(out)@,
            final(out)@,
            constructor_halt(c@, import_models(imports@)),
            constructor_text(c@, import_models(imports@)),
        ),
{
    put_bound(c, imports, out)
}

/// A name that an import may bring, under its source when one does.
fn put_bound(c: &String, imports: &Vec<Import>, out: &mut String) -> (r: Result<(), Halt>)
    ensures
        emitted(
            r,
            old(out)@,
            final(out)@,
            constructor_halt(c@, import_models(imports@)),
            bound_text(c@, import_models(imports@)),
        ),
{
    let ghost before = out@;
    match import_origin_of(imports, c) {
        Some((m, e)) => {
            if let Err(h) = check_ident(m) {
                return Err(h);
            }
            if let Err(h) = check_ident(e) {
                return Err(h);
            }
            put_name(out, m);
            put(out, ":: ");
            put_name(out, e);
            assert(out@ =~= before + bound_text(c@, import_models(imports@)));
            Ok(())
        },
        None => {
            if let Err(h) = check_ident(c) {
                return Err(h);
            }
            put_name(out, c);
            Ok(())
        },
    }
}

/// A type expression as Rust.
#[verifier::rlimit(40)]
#[verifier::spinoff_prover]
fn type_expression_rust(t: &TypeExpression, imports: &Vec<Import>, out: &mut String) -> (r: Result<
    (),
    Halt,
>)
    ensures
        emitted(
            r,
            old(out)@,
            final(out)@,
            expr_halt(t@, import_models(imports@)),
            expr_text(t@, import_models(imports@)),
        ),
    decreases t, 0int,
{
    proof {
        reveal_with_fuel(crate::concept::type_expression_model, 2);
    }
    let ghost im = import_models(imports@);
    match t {
        TypeExpression::Named(n) => resolve_type_name(n, imports, out),
        TypeExpression::SelfType => {
            put(out, "Self ");
            Ok(())
        },
        TypeExpression::Applied(c, args) => {
            let mut a = String::new();
            if let Err(h) = type_arguments(args, imports, &mut a) {
                return Err(h);
            }
            let ghost before = out@;
            proof {
                lemma_type_expression_models(args@);
            }
            let n = args.len();
            if same_text(c, "Vector") {
                if n != 1 {
                    return Err(Halt::Fault);
                }
                put(out, "Vec ");
            } else if same_text(c, "Option") || same_text(c, "Box") {
                if n != 1 {
                    return Err(Halt::Fault);
                }
                put_name(out, c);
            } else if same_text(c, "Result") {
                if n != 2 {
                    return Err(Halt::Fault);
                }
                put_name(out, c);
            } else {
                if let Err(h) = resolve_constructor(c, imports, out) {
                    return Err(h);
                }
            }
            proof {
                lemma_type_expression_models(args@);
            }
            put(out, "< ");
            put_text(out, &a);
            put(out, "> ");
            proof {
                assert(out@ =~= before + expr_text(t@, im));
            }
            Ok(())
        },
    }
}

/// The arguments of an applied type, separated by commas.
#[verifier::rlimit(40)]
#[verifier::spinoff_prover]
fn type_arguments(args: &Vec<TypeExpression>, imports: &Vec<Import>, out: &mut String) -> (r: Result<
    (),
    Halt,
>)
    ensures
        emitted(
            r,
            old(out)@,
            final(out)@,
            args_halt(type_expression_models(args@), import_models(imports@), 0),
            args_text(type_expression_models(args@), import_models(imports@), 0),
        ),
    decreases args@, 1int,
{
    let ghost im = import_models(imports@);
    let ghost m = type_expression_models(args@);
    let ghost start = out@;
    proof {
        lemma_type_expression_models(args@);
    }
    let mut i: usize = 0;
    while i < args.len()
        invariant
            i <= args@.len(),
            m == type_expression_models(args@),
            m.len() == args@.len(),
            forall|j: int| 0 <= j < m.len() ==> #[trigger] m[j] == args@[j]@,
            im == import_models(imports@),
            args_halt(m, im, 0) == args_halt(m, im, i as int),
            args_text(m, im, 0) == (out@.subrange(start.len() as int, out@.len() as int)) + args_text(
                m,
                im,
                i as int,
            ),
            out@.len() >= start.len(),
            out@.subrange(0, start.len() as int) == start,
        decreases args@.len() - i,
    {
        proof {
            assert(decreases_to!(args@ => args@[i as int]));
        }
        let ghost before = out@;
        match type_expression_rust(&args[i], imports, out) {
            Ok(()) => {},
            Err(h) => {
                return Err(h);
            },
        }
        if i + 1 < args.len() {
            put(out, ", ");
        }
        proof {
            assert(out@.subrange(0, start.len() as int) =~= start) by {
                assert(out@.subrange(0, start.len() as int) =~= before.subrange(0, start.len() as int));
            }
            assert(out@.subrange(start.len() as int, out@.len() as int) =~= before.subrange(
                start.len() as int,
                before.len() as int,
            ) + expr_text(m[i as int], im) + (if i + 1 < m.len() {
                ", "@
            } else {
                Seq::empty()
            }));
        }
        i += 1;
    }
    proof {
        assert(out@ =~= start + args_text(m, im, 0));
    }
    Ok(())
}


/// The boxing context as text.
pub open spec fn boxing_of(b: Option<&String>) -> Option<Seq<char>> {
    match b {
        Some(s) => Some(s@),
        None => None,
    }
}

/// Whether the type reaches the enclosing type (see [`reaches`]).
fn is_reaching(t: &TypeExpression, enclosing: &String) -> (r: bool)
    ensures
        r == reaches(t@, enclosing@),
    decreases t, 0int,
{
    proof {
        reveal_with_fuel(crate::concept::type_expression_model, 2);
    }
    match t {
        TypeExpression::Named(n) => *n == *enclosing,
        TypeExpression::SelfType => false,
        TypeExpression::Applied(c, args) => {
            if same_text(c, "Vector") {
                return false;
            }
            if *c == *enclosing {
                return true;
            }
            args_reaching(args, enclosing)
        },
    }
}

/// Whether some argument reaches the enclosing type.
fn args_reaching(args: &Vec<TypeExpression>, enclosing: &String) -> (r: bool)
    ensures
        r == args_reach(type_expression_models(args@), enclosing@, 0),
    decreases args@, 1int,
{
    let ghost m = type_expression_models(args@);
    proof {
        lemma_type_expression_models(args@);
    }
    let mut i: usize = 0;
    while i < args.len()
        invariant
            i <= args@.len(),
            m == type_expression_models(args@),
            m.len() == args@.len(),
            forall|j: int| 0 <= j < m.len() ==> #[trigger] m[j] == args@[j]@,
            args_reach(m, enclosing@, 0) == args_reach(m, enclosing@, i as int),
        decreases args@.len() - i,
    {
        proof {
            assert(decreases_to!(args@ => args@[i as int]));
        }
        if is_reaching(&args[i], enclosing) {
            return true;
        }
        i += 1;
    }
    false
}

/// Whether a position is boxed under the boxing context.
fn boxed_at(t: &TypeExpression, boxing: Option<&String>) -> (r: bool)
    ensures
        r == boxes(t@, boxing_of(boxing)),
{
    match boxing {
        Some(b) => is_reaching(t, b),
        None => false,
    }
}

/// A type, boxed where it names the enclosing type directly.
fn type_expression_rust_boxed(
    t: &TypeExpression,
    imports: &Vec<Import>,
    boxing: Option<&String>,
    out: &mut String,
) -> (r: Result<(), Halt>)
    ensures
        emitted(
            r,
            old(out)@,
            final(out)@,
            expr_halt(t@, import_models(imports@)),
            boxed_text(t@, import_models(imports@), boxing_of(boxing)),
        ),
{
    let ghost before = out@;
    let boxed = match boxing {
        Some(b) => is_reaching(t, b),
        None => false,
    };
    if boxed {
        let mut inner = String::new();
        if let Err(h) = type_expression_rust(t, imports, &mut inner) {
            return Err(h);
        }
        put(out, "Box < ");
        put_text(out, &inner);
        put(out, "> ");
        assert(out@ =~= before + boxed_text(t@, import_models(imports@), boxing_of(boxing)));
        Ok(())
    } else {
        type_expression_rust(t, imports, out)
    }
}

/// Positional fields: `pub T ,` each.
#[verifier::rlimit(40)]
#[verifier::spinoff_prover]
fn field_tokens(
    fields: &Vec<TypeExpression>,
    imports: &Vec<Import>,
    boxing: Option<&String>,
    out: &mut String,
) -> (r: Result<(), Halt>)
    ensures
        emitted(
            r,
            old(out)@,
            final(out)@,
            types_halt(type_expression_models(fields@), import_models(imports@), 0),
            fields_text(type_expression_models(fields@), import_models(imports@), boxing_of(boxing), 0),
        ),
{
    let ghost im = import_models(imports@);
    let ghost m = type_expression_models(fields@);
    let ghost b = boxing_of(boxing);
    let ghost start = out@;
    let ghost mut done = Seq::<char>::empty();
    proof {
        lemma_type_expression_models(fields@);
    }
    let mut i: usize = 0;
    while i < fields.len()
        invariant
            i <= fields@.len(),
            m == type_expression_models(fields@),
            m.len() == fields@.len(),
            forall|j: int| 0 <= j < m.len() ==> #[trigger] m[j] == fields@[j]@,
            im == import_models(imports@),
            b == boxing_of(boxing),
            types_halt(m, im, 0) == types_halt(m, im, i as int),
            fields_text(m, im, b, 0) == done + fields_text(m, im, b, i as int),
            out@ == start + done,
        decreases fields@.len() - i,
    {
        let ghost before = out@;
        put(out, "pub ");
        if let Err(h) = type_expression_rust_boxed(&fields[i], imports, boxing, out) {
            return Err(h);
        }
        put(out, ", ");
        proof {
            let piece = "pub "@ + boxed_text(m[i as int], im, b) + ", "@;
            assert(out@ =~= before + piece);
            assert(fields_text(m, im, b, i as int) == piece + fields_text(m, im, b, i + 1));
            assert(done + piece + fields_text(m, im, b, i + 1) =~= done + (piece + fields_text(
                m,
                im,
                b,
                i + 1,
            )));
            done = done + piece;
        }
        i += 1;
    }
    Ok(())
}

/// The fields of a tuple variant: `T ,` each, boxed where they reach the
/// enclosing type.
#[verifier::rlimit(40)]
#[verifier::spinoff_prover]
fn tuple_field_tokens(
    fields: &Vec<TypeExpression>,
    imports: &Vec<Import>,
    boxing: Option<&String>,
    out: &mut String,
) -> (r: Result<(), Halt>)
    ensures
        emitted(
            r,
            old(out)@,
            final(out)@,
            types_halt(type_expression_models(fields@), import_models(imports@), 0),
            tuple_fields_text(
                type_expression_models(fields@),
                import_models(imports@),
                boxing_of(boxing),
                0,
            ),
        ),
{
    let ghost im = import_models(imports@);
    let ghost m = type_expression_models(fields@);
    let ghost b = boxing_of(boxing);
    let ghost start = out@;
    let ghost mut done = Seq::<char>::empty();
    proof {
        lemma_type_expression_models(fields@);
    }
    let mut i: usize = 0;
    while i < fields.len()
        invariant
            i <= fields@.len(),
            m == type_expression_models(fields@),
            m.len() == fields@.len(),
            forall|j: int| 0 <= j < m.len() ==> #[trigger] m[j] == fields@[j]@,
            im == import_models(imports@),
            b == boxing_of(boxing),
            types_halt(m, im, 0) == types_halt(m, im, i as int),
            tuple_fields_text(m, im, b, 0) == done + tuple_fields_text(m, im, b, i as int),
            out@ == start + done,
        decreases fields@.len() - i,
    {
        let ghost before = out@;
        if let Err(h) = type_expression_rust_boxed(&fields[i], imports, boxing, out) {
            return Err(h);
        }
        put(out, ", ");
        proof {
            let piece = boxed_text(m[i as int], im, b) + ", "@;
            assert(out@ =~= before + piece);
            assert(done + piece + tuple_fields_text(m, im, b, i + 1) =~= done + (piece
                + tuple_fields_text(m, im, b, i + 1)));
            done = done + piece;
        }
        i += 1;
    }
    Ok(())
}

/// Whether some field reaches the enclosing type.
fn fields_have_recursive_ref(fields: &Vec<TypeExpression>, enclosing: &String) -> (r: bool)
    ensures
        r == fields_recursive(type_expression_models(fields@), enclosing@),
{
    proof {
        lemma_type_expression_models(fields@);
    }
    let mut i: usize = 0;
    while i < fields.len()
        invariant
            i <= fields@.len(),
            type_expression_models(fields@).len() == fields@.len(),
            forall|j: int|
                0 <= j < fields@.len() ==> #[trigger] type_expression_models(fields@)[j]
                    == fields@[j]@,
            forall|j: int|
                0 <= j < i ==> !reaches(
                    #[trigger] type_expression_models(fields@)[j],
                    enclosing@,
                ),
        decreases fields@.len() - i,
    {
        if is_reaching(&fields[i], enclosing) {
            proof {
                assert(reaches(type_expression_models(fields@)[i as int], enclosing@));
            }
            return true;
        }
        i += 1;
    }
    false
}

/// Whether a variant refers to the enclosing type directly, at any depth.
fn variant_has_recursive_ref(v: &Variant, enclosing: &String) -> (r: bool)
    ensures
        r == variant_recursive(v@, enclosing@),
    decreases v, 0int,
{
    proof {
        reveal_with_fuel(crate::concept::variant_model, 2);
    }
    match v {
        Variant::Unit(_) => false,
        Variant::Typed(_, t) => is_reaching(t, enclosing),
        Variant::InlineStruct(_, f) => {
            proof {
                lemma_type_expression_models(f@);
            }
            let r = fields_have_recursive_ref(f, enclosing);
            assert(r == variant_recursive(v@, enclosing@));
            r
        },
        Variant::InlineEnum(_, inner) => {
            let r = variants_have_recursive_ref(inner, enclosing);
            assert(v@ == crate::concept::VariantModel::InlineEnum(
                v@->InlineEnum_0,
                variant_models(inner@),
            ));
            assert(r == variant_recursive(v@, enclosing@));
            r
        },
    }
}

/// Whether some variant refers to the enclosing type directly, at any depth.
fn variants_have_recursive_ref(vs: &Vec<Variant>, enclosing: &String) -> (r: bool)
    ensures
        r == variants_recursive(variant_models(vs@), enclosing@),
    decreases vs@, 1int,
{
    let ghost m = variant_models(vs@);
    proof {
        lemma_variant_models(vs@);
    }
    let mut i: usize = 0;
    while i < vs.len()
        invariant
            i <= vs@.len(),
            m == variant_models(vs@),
            m.len() == vs@.len(),
            forall|j: int| 0 <= j < m.len() ==> #[trigger] m[j] == vs@[j]@,
            variants_recursive_from(m, enclosing@, 0) == variants_recursive_from(
                m,
                enclosing@,
                i as int,
            ),
        decreases vs@.len() - i,
    {
        proof {
            assert(decreases_to!(vs@ => vs@[i as int]));
        }
        if variant_has_recursive_ref(&vs[i], enclosing) {
            return true;
        }
        i += 1;
    }
    false
}

/// Whether every variant is a unit, and there is one.
fn all_variants_unit(vs: &Vec<Variant>) -> (r: bool)
    ensures
        r == all_unit(variant_models(vs@)),
{
    proof {
        lemma_variant_models(vs@);
        reveal_with_fuel(crate::concept::variant_model, 2);
    }
    if vs.len() == 0 {
        return false;
    }
    let mut i: usize = 0;
    while i < vs.len()
        invariant
            i <= vs@.len(),
            variant_models(vs@).len() == vs@.len(),
            forall|j: int| 0 <= j < vs@.len() ==> #[trigger] variant_models(vs@)[j] == vs@[j]@,
            forall|j: int| 0 <= j < i ==> #[trigger] variant_models(vs@)[j] is Unit,
        decreases vs@.len() - i,
    {
        match &vs[i] {
            Variant::Unit(_) => {},
            _ => {
                proof {
                    assert(!(variant_models(vs@)[i as int] is Unit));
                }
                return false;
            },
        }
        i += 1;
    }
    true
}

fn put_wire_derive(out: &mut String, wire: bool)
    ensures
        final(out)@ == old(out)@ + wire_derive(wire),
{
    if wire {
        put(out, "# [ derive ( rkyv :: Archive , rkyv :: Serialize , rkyv :: Deserialize ) ] ");
    } else {
        assert(old(out)@ + wire_derive(wire) =~= old(out)@);
    }
}

fn put_enum_derive(out: &mut String, unit_only: bool)
    ensures
        final(out)@ == old(out)@ + enum_derive_text(unit_only),
{
    if unit_only {
        put(out, "# [ derive ( Clone , Copy , Debug , PartialEq , Eq ) ] ");
    } else {
        put(out, "# [ derive ( Clone , Debug , PartialEq , Eq ) ] ");
    }
}


/// An emission into two texts, the variants and the inline types before them.
pub open spec fn emitted_two(
    r: Result<(), Halt>,
    vt0: Seq<char>,
    vt1: Seq<char>,
    it0: Seq<char>,
    it1: Seq<char>,
    h: Option<Halt>,
    vtext: Seq<char>,
    itext: Seq<char>,
) -> bool {
    match h {
        None => r == Ok::<(), Halt>(()) && vt1 == vt0 + vtext && it1 == it0 + itext,
        Some(x) => r == Err::<(), Halt>(x),
    }
}

/// One variant of an enum: its token, and the inline type it declares.
#[verifier::rlimit(40)]
#[verifier::spinoff_prover]
fn emit_variant_decl(
    parent: &String,
    v: &Variant,
    imports: &Vec<Import>,
    boxing: Option<&String>,
    wire: bool,
    vt: &mut String,
    it: &mut String,
) -> (r: Result<(), Halt>)
    ensures
        emitted_two(
            r,
            old(vt)@,
            final(vt)@,
            old(it)@,
            final(it)@,
            variant_decl_halt(parent@, v@, import_models(imports@)),
            variant_token(parent@, v@, import_models(imports@), boxing_of(boxing)),
            inline_type(parent@, v@, import_models(imports@), boxing_of(boxing), wire),
        ),
    decreases v, 0int,
{
    proof {
        reveal_with_fuel(crate::concept::variant_model, 2);
    }
    let ghost im = import_models(imports@);
    let ghost b = boxing_of(boxing);
    let ghost vt0 = vt@;
    let ghost it0 = it@;
    match v {
        Variant::Unit(n) => {
            if let Err(h) = check_ident(n) {
                return Err(h);
            }
            put_name(vt, n);
            assert(it@ =~= it0 + inline_type(parent@, v@, im, b, wire));
            Ok(())
        },
        Variant::Typed(n, t) => {
            if let Err(h) = check_ident(n) {
                return Err(h);
            }
            put_name(vt, n);
            put(vt, "( ");
            if let Err(h) = type_expression_rust_boxed(t, imports, boxing, vt) {
                return Err(h);
            }
            put(vt, ") ");
            assert(vt@ =~= vt0 + variant_token(parent@, v@, im, b));
            assert(it@ =~= it0 + inline_type(parent@, v@, im, b, wire));
            Ok(())
        },
        Variant::InlineStruct(n, f) => {
            if let Err(h) = check_ident(n) {
                return Err(h);
            }
            let mut fields = String::new();
            if let Err(h) = tuple_field_tokens(f, imports, boxing, &mut fields) {
                return Err(h);
            }
            put_name(vt, n);
            put(vt, "( ");
            put_text(vt, &fields);
            put(vt, ") ");
            assert(vt@ =~= vt0 + variant_token(parent@, v@, im, b));
            assert(it@ =~= it0 + inline_type(parent@, v@, im, b, wire));
            Ok(())
        },
        Variant::InlineEnum(n, inner) => {
            if let Err(h) = check_ident(n) {
                return Err(h);
            }
            let inline = joined(parent, n);
            if let Err(h) = check_ident(&inline) {
                return Err(h);
            }
            let mut inner_tokens = String::new();
            if let Err(h) = emit_variant_decl_tokens(
                &inline,
                inner,
                imports,
                boxing,
                wire,
                &mut inner_tokens,
                it,
            ) {
                return Err(h);
            }
            let unit_only = all_variants_unit(inner);
            put_wire_derive(it, wire);
            put_enum_derive(it, unit_only);
            put(it, "pub enum ");
            put_name(it, &inline);
            put(it, "{ ");
            put_text(it, &inner_tokens);
            put(it, "} ");
            put_name(vt, n);
            put(vt, "( ");
            put_name(vt, &inline);
            put(vt, ") ");
            assert(vt@ =~= vt0 + variant_token(parent@, v@, im, b));
            assert(it@ =~= it0 + inline_type(parent@, v@, im, b, wire));
            Ok(())
        },
    }
}

/// The variants of an enum, each followed by a comma, and the inline types
/// they declare.
#[verifier::rlimit(40)]
#[verifier::spinoff_prover]
fn emit_variant_decl_tokens(
    parent: &String,
    vs: &Vec<Variant>,
    imports: &Vec<Import>,
    boxing: Option<&String>,
    wire: bool,
    vt: &mut String,
    it: &mut String,
) -> (r: Result<(), Halt>)
    ensures
        emitted_two(
            r,
            old(vt)@,
            final(vt)@,
            old(it)@,
            final(it)@,
            variant_decls_halt(parent@, variant_models(vs@), import_models(imports@), 0),
            variant_tokens(parent@, variant_models(vs@), import_models(imports@), boxing_of(boxing), 0),
            inline_types(
                parent@,
                variant_models(vs@),
                import_models(imports@),
                boxing_of(boxing),
                wire,
                0,
            ),
        ),
    decreases vs@, 1int,
{
    let ghost im = import_models(imports@);
    let ghost m = variant_models(vs@);
    let ghost b = boxing_of(boxing);
    let ghost vt_start = vt@;
    let ghost it_start = it@;
    let ghost mut vdone = Seq::<char>::empty();
    let ghost mut idone = Seq::<char>::empty();
    proof {
        lemma_variant_models(vs@);
    }
    let mut i: usize = 0;
    while i < vs.len()
        invariant
            i <= vs@.len(),
            m == variant_models(vs@),
            m.len() == vs@.len(),
            forall|j: int| 0 <= j < m.len() ==> #[trigger] m[j] == vs@[j]@,
            im == import_models(imports@),
            b == boxing_of(boxing),
            variant_decls_halt(parent@, m, im, 0) == variant_decls_halt(parent@, m, im, i as int),
            variant_tokens(parent@, m, im, b, 0) == vdone + variant_tokens(
                parent@,
                m,
                im,
                b,
                i as int,
            ),
            inline_types(parent@, m, im, b, wire, 0) == idone + inline_types(
                parent@,
                m,
                im,
                b,
                wire,
                i as int,
            ),
            vt@ == vt_start + vdone,
            it@ == it_start + idone,
        decreases vs@.len() - i,
    {
        proof {
            assert(decreases_to!(vs@ => vs@[i as int]));
        }
        let ghost vb = vt@;
        let ghost ib = it@;
        if let Err(h) = emit_variant_decl(parent, &vs[i], imports, boxing, wire, vt, it) {
            return Err(h);
        }
        put(vt, ", ");
        proof {
            let vp = variant_token(parent@, m[i as int], im, b) + ", "@;
            let ip = inline_type(parent@, m[i as int], im, b, wire);
            assert(vt@ =~= vb + vp);
            assert(vdone + vp + variant_tokens(parent@, m, im, b, i + 1) =~= vdone + (vp
                + variant_tokens(parent@, m, im, b, i + 1)));
            assert(idone + ip + inline_types(parent@, m, im, b, wire, i + 1) =~= idone + (ip
                + inline_types(parent@, m, im, b, wire, i + 1)));
            vdone = vdone + vp;
            idone = idone + ip;
        }
        i += 1;
    }
    Ok(())
}


/// An enum declaration as Rust: its inline types, derives, variants and boxing.
#[verifier::rlimit(40)]
#[verifier::spinoff_prover]
fn enum_declaration_tokens(
    n: &String,
    vs: &Vec<Variant>,
    imports: &Vec<Import>,
    wire: bool,
    out: &mut String,
) -> (r: Result<(), Halt>)
    ensures
        emitted(
            r,
            old(out)@,
            final(out)@,
            declaration_halt(TypeDeclarationModel::Enum(n@, variant_models(vs@)), import_models(imports@)),
            declaration_text(TypeDeclarationModel::Enum(n@, variant_models(vs@)), import_models(imports@), wire),
        ),
{
    let ghost im = import_models(imports@);
    let ghost before = out@;
    if let Err(h) = check_ident(n) {
        return Err(h);
    }
    let recursive = variants_have_recursive_ref(vs, n);
    let boxing = if recursive {
        Some(n)
    } else {
        None
    };
    let mut variants = String::new();
    let mut inline = String::new();
    if let Err(h) = emit_variant_decl_tokens(
        n,
        vs,
        imports,
        boxing,
        wire,
        &mut variants,
        &mut inline,
    ) {
        return Err(h);
    }
    let unit_only = all_variants_unit(vs);
    put_text(out, &inline);
    put_wire_derive(out, wire);
    put_enum_derive(out, unit_only);
    put(out, "pub enum ");
    put_name(out, n);
    put(out, "{ ");
    put_text(out, &variants);
    put(out, "} ");
    if recursive {
        put(out, "datomic :: impl_datomic_box ! ( ");
        put_name(out, n);
        put(out, ") ; ");
    }
    assert(out@ =~= before + declaration_text(TypeDeclarationModel::Enum(n@, variant_models(vs@)), im, wire));
    Ok(())
}

/// A type declaration as Rust.
#[verifier::rlimit(40)]
#[verifier::spinoff_prover]
fn type_declaration_tokens(
    d: &TypeDeclaration,
    imports: &Vec<Import>,
    wire: bool,
    out: &mut String,
) -> (r: Result<(), Halt>)
    ensures
        emitted(
            r,
            old(out)@,
            final(out)@,
            declaration_halt(d@, import_models(imports@)),
            declaration_text(d@, import_models(imports@), wire),
        ),
{
    proof {
        reveal_with_fuel(crate::concept::type_expression_model, 2);
    }
    let ghost im = import_models(imports@);
    let ghost before = out@;
    match d {
        TypeDeclaration::Struct(n, f) => {
            if let Err(h) = check_ident(n) {
                return Err(h);
            }
            let boxing = if fields_have_recursive_ref(f, n) {
                Some(n)
            } else {
                None
            };
            let mut fields = String::new();
            if let Err(h) = field_tokens(f, imports, boxing, &mut fields) {
                return Err(h);
            }
            put_wire_derive(out, wire);
            put(out, "# [ derive ( Clone , Debug , PartialEq , Eq ) ] ");
            put(out, "pub struct ");
            put_name(out, n);
            put(out, "( ");
            put_text(out, &fields);
            put(out, ") ; ");
            assert(out@ =~= before + declaration_text(d@, im, wire));
            Ok(())
        },
        TypeDeclaration::Enum(n, vs) => enum_declaration_tokens(n, vs, imports, wire, out),
        TypeDeclaration::Alias(n, t) => {
            let mut target = String::new();
            if let Err(h) = type_expression_rust(t, imports, &mut target) {
                return Err(h);
            }
            if let Err(h) = check_ident(n) {
                return Err(h);
            }
            let self_alias = match t {
                TypeExpression::Named(tn) => *tn == *n && is_intrinsic(n),
                _ => false,
            };
            if self_alias {
                assert(out@ =~= before + declaration_text(d@, im, wire));
                return Ok(());
            }
            put(out, "pub type ");
            put_name(out, n);
            put(out, "= ");
            put_text(out, &target);
            put(out, "; ");
            assert(out@ =~= before + declaration_text(d@, im, wire));
            Ok(())
        },
    }
}

// ---------------------------------------------------------------------------
// Datom impls
// ---------------------------------------------------------------------------

fn put_conceivable_head(out: &mut String, n: &String)
    ensures
        final(out)@ == old(out)@ + conceivable_head(n@),
{
    let ghost before = out@;
    put(out, "impl protos :: Conceivable < datomic :: Datom > for ");
    put_name(out, n);
    put(
        out,
        "{ type Fault = std :: convert :: Infallible ; fn conceive ( & self ) -> std :: result :: Result < datomic :: Datom , std :: convert :: Infallible > { ",
    );
    assert(out@ =~= before + conceivable_head(n@));
}

fn put_datomic_head(out: &mut String, n: &String)
    ensures
        final(out)@ == old(out)@ + datomic_head(n@),
{
    let ghost before = out@;
    put(out, "impl datomic :: Datomic for ");
    put_name(out, n);
    put(
        out,
        "{ fn incorporate_from ( datom : datomic :: Datom ) -> std :: result :: Result < Self , datomic :: Fault > { match datom { ",
    );
    assert(out@ =~= before + datomic_head(n@));
}

fn put_incorporable(out: &mut String, n: &String)
    ensures
        final(out)@ == old(out)@ + incorporable(n@),
{
    let ghost before = out@;
    put(out, "impl protos :: Incorporable < ");
    put_name(out, n);
    put(
        out,
        "> for datomic :: Datom { type Fault = datomic :: Fault ; fn incorporate ( self ) -> std :: result :: Result < ",
    );
    put_name(out, n);
    put(out, ", datomic :: Fault > { < ");
    put_name(out, n);
    put(out, "as datomic :: Datomic > :: incorporate_from ( self ) } } ");
    assert(out@ =~= before + incorporable(n@));
}

/// Each field incorporated from the next datom.
#[verifier::rlimit(40)]
#[verifier::spinoff_prover]
fn field_incorporate_tokens(
    fields: &Vec<TypeExpression>,
    imports: &Vec<Import>,
    boxing: Option<&String>,
    out: &mut String,
) -> (r: Result<(), Halt>)
    ensures
        emitted(
            r,
            old(out)@,
            final(out)@,
            types_halt(type_expression_models(fields@), import_models(imports@), 0),
            field_incorporates(
                type_expression_models(fields@),
                import_models(imports@),
                boxing_of(boxing),
                0,
            ),
        ),
{
    let ghost im = import_models(imports@);
    let ghost m = type_expression_models(fields@);
    let ghost b = boxing_of(boxing);
    let ghost start = out@;
    let ghost mut done = Seq::<char>::empty();
    proof {
        lemma_type_expression_models(fields@);
    }
    let mut i: usize = 0;
    while i < fields.len()
        invariant
            i <= fields@.len(),
            m == type_expression_models(fields@),
            m.len() == fields@.len(),
            forall|j: int| 0 <= j < m.len() ==> #[trigger] m[j] == fields@[j]@,
            im == import_models(imports@),
            b == boxing_of(boxing),
            types_halt(m, im, 0) == types_halt(m, im, i as int),
            field_incorporates(m, im, b, 0) == done + field_incorporates(m, im, b, i as int),
            out@ == start + done,
        decreases fields@.len() - i,
    {
        let ghost before = out@;
        let boxed = boxed_at(&fields[i], boxing);
        if boxed {
            put(out, "Box :: new ( < ");
        } else {
            put(out, "< ");
        }
        if let Err(h) = type_expression_rust(&fields[i], imports, out) {
            return Err(h);
        }
        if boxed {
            put(
                out,
                "as datomic :: Datomic > :: incorporate_from ( iter . next ( ) . unwrap ( ) ) ? ) , ",
            );
        } else {
            put(
                out,
                "as datomic :: Datomic > :: incorporate_from ( iter . next ( ) . unwrap ( ) ) ? , ",
            );
        }
        proof {
            let piece = if boxes(m[i as int], b) {
                "Box :: new ( < "@ + expr_text(m[i as int], im)
                    + "as datomic :: Datomic > :: incorporate_from ( iter . next ( ) . unwrap ( ) ) ? ) , "@
            } else {
                "< "@ + expr_text(m[i as int], im)
                    + "as datomic :: Datomic > :: incorporate_from ( iter . next ( ) . unwrap ( ) ) ? , "@
            };
            assert(out@ =~= before + piece);
            assert(done + piece + field_incorporates(m, im, b, i + 1) =~= done + (piece
                + field_incorporates(m, im, b, i + 1)));
            done = done + piece;
        }
        i += 1;
    }
    Ok(())
}

/// One datom conceived from what `of` names (see [`datom_of`]).
fn put_datom_of(out: &mut String, of: &String, boxed: bool)
    ensures
        final(out)@ == old(out)@ + datom_of(of@, boxed),
{
    put(out, "protos :: Conceivable :: < datomic :: Datom > :: conceive ( ");
    if boxed {
        put(out, "& * ");
    }
    put_text(out, of);
    put(out, ") . unwrap_or_else ( | e | match e { } ) , ");
}

/// Each field's datom, in order.
fn field_conceive_tokens(fields: &Vec<TypeExpression>, boxing: Option<&String>, out: &mut String)
    ensures
        final(out)@ == old(out)@ + field_conceives(
            type_expression_models(fields@),
            boxing_of(boxing),
            0,
        ),
{
    let ghost m = type_expression_models(fields@);
    let ghost b = boxing_of(boxing);
    let ghost start = out@;
    let ghost mut done = Seq::<char>::empty();
    proof {
        lemma_type_expression_models(fields@);
    }
    let mut i: usize = 0;
    while i < fields.len()
        invariant
            i <= fields@.len(),
            m == type_expression_models(fields@),
            m.len() == fields@.len(),
            forall|j: int| 0 <= j < m.len() ==> #[trigger] m[j] == fields@[j]@,
            b == boxing_of(boxing),
            field_conceives(m, b, 0) == done + field_conceives(m, b, i as int),
            out@ == start + done,
        decreases fields@.len() - i,
    {
        let ghost before = out@;
        let mut of = String::from_str("& self . ");
        let d = decimal(i);
        put_name(&mut of, &d);
        let boxed = boxed_at(&fields[i], boxing);
        put_datom_of(out, &of, boxed);
        proof {
            let piece = datom_of("& self . "@ + sp(dec(i as nat)), boxes(m[i as int], b));
            assert(of@ =~= "& self . "@ + sp(dec(i as nat)));
            assert(out@ =~= before + piece);
            assert(done + piece + field_conceives(m, b, i + 1) =~= done + (piece + field_conceives(
                m,
                b,
                i + 1,
            )));
            done = done + piece;
        }
        i += 1;
    }
}

/// The datom impls of a struct.
#[verifier::rlimit(40)]
#[verifier::spinoff_prover]
fn struct_datomic_tokens(
    n: &String,
    fields: &Vec<TypeExpression>,
    imports: &Vec<Import>,
    boxing: Option<&String>,
    out: &mut String,
) -> (r: Result<(), Halt>)
    ensures
        emitted(
            r,
            old(out)@,
            final(out)@,
            struct_datomic_halt(n@, type_expression_models(fields@), import_models(imports@)),
            struct_datomic_text(
                n@,
                type_expression_models(fields@),
                import_models(imports@),
                boxing_of(boxing),
            ),
        ),
{
    let ghost im = import_models(imports@);
    let ghost m = type_expression_models(fields@);
    let ghost before = out@;
    proof {
        lemma_type_expression_models(fields@);
    }
    if let Err(h) = check_ident(n) {
        return Err(h);
    }
    let mut incorporates = String::new();
    if let Err(h) = field_incorporate_tokens(fields, imports, boxing, &mut incorporates) {
        return Err(h);
    }
    if fields.len() >= 0xffff_ffff {
        return Err(Halt::Panic);
    }
    let arity = decimal(fields.len());
    put_conceivable_head(out, n);
    put(out, "Ok ( datomic :: Datom :: Struct ( vec ! [ ");
    field_conceive_tokens(fields, boxing, out);
    put(out, "] ) ) } } ");
    put_datomic_head(out, n);
    put(out, "datomic :: Datom :: Struct ( fields ) if fields . len ( ) == ");
    put_text(out, &arity);
    put(out, "usize => { let mut iter = fields . into_iter ( ) ; Ok ( Self ( ");
    put_text(out, &incorporates);
    put(
        out,
        ") ) } datomic :: Datom :: Struct ( fields ) => { Err ( datomic :: Fault :: Corporate ( vec ! [ ] , datomic :: Problem :: Arity ( ",
    );
    put_text(out, &arity);
    put(
        out,
        "i64 , fields . len ( ) as protos :: Integer ) ) ) } other => Err ( datomic :: Fault :: Corporate ( vec ! [ ] , datomic :: Problem :: Shape ( datomic :: Expected :: Struct , other ) ) ) , } } } ",
    );
    put_incorporable(out, n);
    assert(out@ =~= before + struct_datomic_text(n@, m, im, boxing_of(boxing)));
    Ok(())
}


fn put_variant_arm_head(out: &mut String, m: &String)
    ensures
        final(out)@ == old(out)@ + variant_arm_head(m@),
{
    let ghost before = out@;
    put(
        out,
        "datomic :: Datom :: Variant ( ref head , protos :: Separator :: Period , Some ( body ) ) if head == stringify ! ( ",
    );
    put_name(out, m);
    put(out, ") => { Ok ( Self :: ");
    put_name(out, m);
    put(out, "( ");
    assert(out@ =~= before + variant_arm_head(m@));
}

/// The arm that incorporates one variant from its datom.
#[verifier::rlimit(40)]
#[verifier::spinoff_prover]
fn variant_incorporate_arm(
    parent: &String,
    v: &Variant,
    imports: &Vec<Import>,
    boxing: Option<&String>,
    out: &mut String,
) -> (r: Result<(), Halt>)
    ensures
        emitted(
            r,
            old(out)@,
            final(out)@,
            incorporate_arm_halt(parent@, v@, import_models(imports@)),
            incorporate_arm(parent@, v@, import_models(imports@), boxing_of(boxing)),
        ),
{
    proof {
        reveal_with_fuel(crate::concept::variant_model, 2);
    }
    let ghost im = import_models(imports@);
    let ghost before = out@;
    match v {
        Variant::Unit(m) => {
            if let Err(h) = check_ident(m) {
                return Err(h);
            }
            put(out, "datomic :: Datom :: Bare ( ref s ) if s == stringify ! ( ");
            put_name(out, m);
            put(out, ") => Ok ( Self :: ");
            put_name(out, m);
            put(out, ") , ");
            assert(out@ =~= before + incorporate_arm(parent@, v@, im, boxing_of(boxing)));
            Ok(())
        },
        Variant::Typed(m, t) => {
            if let Err(h) = check_ident(m) {
                return Err(h);
            }
            let recursive = match boxing {
                Some(b) => is_reaching(t, b),
                None => false,
            };
            let mut inner = String::new();
            if let Err(h) = type_expression_rust(t, imports, &mut inner) {
                return Err(h);
            }
            put_variant_arm_head(out, m);
            if recursive {
                put(out, "Box :: new ( < ");
                put_text(out, &inner);
                put(out, "as datomic :: Datomic > :: incorporate_from ( * body ) ? ) ) ) } ");
            } else {
                put(out, "< ");
                put_text(out, &inner);
                put(out, "as datomic :: Datomic > :: incorporate_from ( * body ) ? ) ) } ");
            }
            assert(out@ =~= before + incorporate_arm(parent@, v@, im, boxing_of(boxing)));
            Ok(())
        },
        Variant::InlineStruct(m, f) => {
            if let Err(h) = check_ident(m) {
                return Err(h);
            }
            proof {
                lemma_type_expression_models(f@);
            }
            let mut incorporates = String::new();
            if let Err(h) = field_incorporate_tokens(f, imports, boxing, &mut incorporates) {
                return Err(h);
            }
            let arity = decimal(f.len());
            put(
                out,
                "datomic :: Datom :: Variant ( ref head , protos :: Separator :: Period , Some ( body ) ) if head == stringify ! ( ",
            );
            put_name(out, m);
            put(
                out,
                ") => { match * body { datomic :: Datom :: Struct ( fields ) if fields . len ( ) == ",
            );
            put_text(out, &arity);
            put(out, "usize => { let mut iter = fields . into_iter ( ) ; Ok ( Self :: ");
            put_name(out, m);
            put(out, "( ");
            put_text(out, &incorporates);
            put(
                out,
                ") ) } other => Err ( datomic :: Fault :: Corporate ( vec ! [ ] , datomic :: Problem :: Shape ( datomic :: Expected :: Struct , other ) ) ) , } } ",
            );
            assert(out@ =~= before + incorporate_arm(parent@, v@, im, boxing_of(boxing)));
            Ok(())
        },
        Variant::InlineEnum(m, _) => {
            if let Err(h) = check_ident(m) {
                return Err(h);
            }
            let inline = joined(parent, m);
            if let Err(h) = check_ident(&inline) {
                return Err(h);
            }
            put_variant_arm_head(out, m);
            put(out, "< ");
            put_name(out, &inline);
            put(out, "as datomic :: Datomic > :: incorporate_from ( * body ) ? ) ) } ");
            assert(out@ =~= before + incorporate_arm(parent@, v@, im, boxing_of(boxing)));
            Ok(())
        },
    }
}

/// The binders of a tuple variant's fields: `fI ,` each.
fn binder_tokens(n: usize, out: &mut String)
    ensures
        final(out)@ == old(out)@ + binders(n as nat, 0),
{
    let ghost start = out@;
    let ghost mut done = Seq::<char>::empty();
    let mut i: usize = 0;
    while i < n
        invariant
            i <= n,
            binders(n as nat, 0) == done + binders(n as nat, i as nat),
            out@ == start + done,
        decreases n - i,
    {
        let ghost before = out@;
        let name = binder_name(i);
        put_name(out, &name);
        put(out, ", ");
        proof {
            let piece = sp(binder(i as nat)) + ", "@;
            assert(out@ =~= before + piece);
            assert(done + piece + binders(n as nat, (i + 1) as nat) =~= done + (piece + binders(
                n as nat,
                (i + 1) as nat,
            )));
            done = done + piece;
        }
        i += 1;
    }
}

/// The name a tuple variant's `i`-th field is bound to.
fn binder_name(i: usize) -> (r: String)
    ensures
        r@ == binder(i as nat),
{
    let mut name = String::from_str("f");
    let d = decimal(i);
    put_text(&mut name, &d);
    name
}

/// Each bound field's datom, in order.
fn binder_conceive_tokens(fields: &Vec<TypeExpression>, boxing: Option<&String>, out: &mut String)
    ensures
        final(out)@ == old(out)@ + binder_conceives(
            type_expression_models(fields@),
            boxing_of(boxing),
            0,
        ),
{
    let ghost m = type_expression_models(fields@);
    let ghost b = boxing_of(boxing);
    let ghost start = out@;
    let ghost mut done = Seq::<char>::empty();
    proof {
        lemma_type_expression_models(fields@);
    }
    let mut i: usize = 0;
    while i < fields.len()
        invariant
            i <= fields@.len(),
            m == type_expression_models(fields@),
            m.len() == fields@.len(),
            forall|j: int| 0 <= j < m.len() ==> #[trigger] m[j] == fields@[j]@,
            b == boxing_of(boxing),
            binder_conceives(m, b, 0) == done + binder_conceives(m, b, i as int),
            out@ == start + done,
        decreases fields@.len() - i,
    {
        let ghost before = out@;
        let boxed = boxed_at(&fields[i], boxing);
        let mut of = String::new();
        if boxed {
            put(&mut of, "* ");
        }
        let name = binder_name(i);
        put_name(&mut of, &name);
        put_datom_of(out, &of, boxed);
        proof {
            let pre = if boxes(m[i as int], b) {
                "* "@
            } else {
                Seq::<char>::empty()
            };
            assert(of@ =~= pre + sp(binder(i as nat)));
            let piece = datom_of(pre + sp(binder(i as nat)), boxes(m[i as int], b));
            assert(out@ =~= before + piece);
            assert(done + piece + binder_conceives(m, b, i + 1) =~= done + (piece
                + binder_conceives(m, b, i + 1)));
            done = done + piece;
        }
        i += 1;
    }
}

/// The arm that conceives one variant as a datom.
fn variant_conceive_arm(v: &Variant, boxing: Option<&String>, out: &mut String) -> (r: Result<
    (),
    Halt,
>)
    ensures
        emitted(
            r,
            old(out)@,
            final(out)@,
            ih(variant_name(v@)),
            conceive_arm(v@, boxing_of(boxing)),
        ),
{
    proof {
        reveal_with_fuel(crate::concept::variant_model, 2);
    }
    let ghost before = out@;
    match v {
        Variant::Unit(m) => {
            if let Err(h) = check_ident(m) {
                return Err(h);
            }
            put(out, "Self :: ");
            put_name(out, m);
            put(out, "=> datomic :: Datom :: Bare ( stringify ! ( ");
            put_name(out, m);
            put(out, ") . to_owned ( ) ) , ");
            assert(out@ =~= before + conceive_arm(v@, boxing_of(boxing)));
            Ok(())
        },
        Variant::InlineStruct(m, f) => {
            if let Err(h) = check_ident(m) {
                return Err(h);
            }
            proof {
                lemma_type_expression_models(f@);
            }
            put(out, "Self :: ");
            put_name(out, m);
            put(out, "( ");
            binder_tokens(f.len(), out);
            put(out, ") => datomic :: Datom :: Variant ( stringify ! ( ");
            put_name(out, m);
            put(
                out,
                ") . to_owned ( ) , protos :: Separator :: Period , Some ( Box :: new ( datomic :: Datom :: Struct ( vec ! [ ",
            );
            binder_conceive_tokens(f, boxing, out);
            put(out, "] ) ) ) , ) , ");
            assert(out@ =~= before + conceive_arm(v@, boxing_of(boxing)));
            Ok(())
        },
        Variant::Typed(m, t) => {
            if let Err(h) = check_ident(m) {
                return Err(h);
            }
            let boxed = boxed_at(t, boxing);
            let mut of = String::new();
            if boxed {
                put(&mut of, "* ");
            }
            put(&mut of, "value ");
            put(out, "Self :: ");
            put_name(out, m);
            put(out, "( value ) => datomic :: Datom :: Variant ( stringify ! ( ");
            put_name(out, m);
            put(
                out,
                ") . to_owned ( ) , protos :: Separator :: Period , Some ( Box :: new ( ",
            );
            put_datom_of(out, &of, boxed);
            put(out, ") ) , ) , ");
            proof {
                reveal_strlit("* ");
                reveal_strlit("value ");
                if boxed {
                    assert(of@ =~= "* "@ + "value "@);
                } else {
                    assert(of@ =~= Seq::<char>::empty() + "value "@);
                }
            }
            assert(out@ =~= before + conceive_arm(v@, boxing_of(boxing)));
            Ok(())
        },
        Variant::InlineEnum(m, _) => {
            if let Err(h) = check_ident(m) {
                return Err(h);
            }
            let of = String::from_str("value ");
            put(out, "Self :: ");
            put_name(out, m);
            put(out, "( value ) => datomic :: Datom :: Variant ( stringify ! ( ");
            put_name(out, m);
            put(
                out,
                ") . to_owned ( ) , protos :: Separator :: Period , Some ( Box :: new ( ",
            );
            put_datom_of(out, &of, false);
            put(out, ") ) , ) , ");
            assert(out@ =~= before + conceive_arm(v@, boxing_of(boxing)));
            Ok(())
        },
    }
}

/// The incorporate arms of every variant.
#[verifier::rlimit(40)]
#[verifier::spinoff_prover]
fn incorporate_arm_tokens(
    parent: &String,
    vs: &Vec<Variant>,
    imports: &Vec<Import>,
    boxing: Option<&String>,
    out: &mut String,
) -> (r: Result<(), Halt>)
    ensures
        emitted(
            r,
            old(out)@,
            final(out)@,
            incorporate_arms_halt(parent@, variant_models(vs@), import_models(imports@), 0),
            incorporate_arms(
                parent@,
                variant_models(vs@),
                import_models(imports@),
                boxing_of(boxing),
                0,
            ),
        ),
{
    let ghost im = import_models(imports@);
    let ghost m = variant_models(vs@);
    let ghost b = boxing_of(boxing);
    let ghost start = out@;
    let ghost mut done = Seq::<char>::empty();
    proof {
        lemma_variant_models(vs@);
    }
    let mut i: usize = 0;
    while i < vs.len()
        invariant
            i <= vs@.len(),
            m == variant_models(vs@),
            m.len() == vs@.len(),
            forall|j: int| 0 <= j < m.len() ==> #[trigger] m[j] == vs@[j]@,
            im == import_models(imports@),
            b == boxing_of(boxing),
            incorporate_arms_halt(parent@, m, im, 0) == incorporate_arms_halt(
                parent@,
                m,
                im,
                i as int,
            ),
            incorporate_arms(parent@, m, im, b, 0) == done + incorporate_arms(
                parent@,
                m,
                im,
                b,
                i as int,
            ),
            out@ == start + done,
        decreases vs@.len() - i,
    {
        let ghost before = out@;
        if let Err(h) = variant_incorporate_arm(parent, &vs[i], imports, boxing, out) {
            return Err(h);
        }
        proof {
            let piece = incorporate_arm(parent@, m[i as int], im, b);
            assert(done + piece + incorporate_arms(parent@, m, im, b, i + 1) =~= done + (piece
                + incorporate_arms(parent@, m, im, b, i + 1)));
            done = done + piece;
        }
        i += 1;
    }
    Ok(())
}

/// The conceive arms of every variant.
#[verifier::rlimit(40)]
#[verifier::spinoff_prover]
fn conceive_arm_tokens(vs: &Vec<Variant>, boxing: Option<&String>, out: &mut String) -> (r: Result<
    (),
    Halt,
>)
    ensures
        emitted(
            r,
            old(out)@,
            final(out)@,
            conceive_arms_halt(variant_models(vs@), 0),
            conceive_arms(variant_models(vs@), boxing_of(boxing), 0),
        ),
{
    let ghost b = boxing_of(boxing);
    let ghost m = variant_models(vs@);
    let ghost start = out@;
    let ghost mut done = Seq::<char>::empty();
    proof {
        lemma_variant_models(vs@);
    }
    let mut i: usize = 0;
    while i < vs.len()
        invariant
            i <= vs@.len(),
            m == variant_models(vs@),
            m.len() == vs@.len(),
            forall|j: int| 0 <= j < m.len() ==> #[trigger] m[j] == vs@[j]@,
            b == boxing_of(boxing),
            conceive_arms_halt(m, 0) == conceive_arms_halt(m, i as int),
            conceive_arms(m, b, 0) == done + conceive_arms(m, b, i as int),
            out@ == start + done,
        decreases vs@.len() - i,
    {
        if let Err(h) = variant_conceive_arm(&vs[i], boxing, out) {
            return Err(h);
        }
        proof {
            let piece = conceive_arm(m[i as int], b);
            assert(done + piece + conceive_arms(m, b, i + 1) =~= done + (piece + conceive_arms(
                m,
                b,
                i + 1,
            )));
            done = done + piece;
        }
        i += 1;
    }
    Ok(())
}

/// The impls of the type an inline variant declares.
fn nested_datomic_impl(
    parent_name: &String,
    v: &Variant,
    imports: &Vec<Import>,
    boxing: Option<&String>,
    out: &mut String,
) -> (r: Result<(), Halt>)
    ensures
        emitted(
            r,
            old(out)@,
            final(out)@,
            nested_impl_halt(parent_name@, v@, import_models(imports@), boxing_of(boxing)),
            nested_impl(parent_name@, v@, import_models(imports@), boxing_of(boxing)),
        ),
    decreases v, 0int, 0int,
{
    proof {
        reveal_with_fuel(crate::concept::variant_model, 2);
    }
    let ghost before = out@;
    match v {
        Variant::InlineEnum(m, inner) => {
            let inline = joined(parent_name, m);
            enum_datomic_tokens(&inline, inner, imports, boxing, out)
        },
        _ => {
            assert(out@ =~= before + nested_impl(
                parent_name@,
                v@,
                import_models(imports@),
                boxing_of(boxing),
            ));
            Ok(())
        },
    }
}

/// The impls of the types every inline variant declares.
#[verifier::rlimit(40)]
#[verifier::spinoff_prover]
fn nested_datomic_impls(
    parent_name: &String,
    vs: &Vec<Variant>,
    imports: &Vec<Import>,
    boxing: Option<&String>,
    out: &mut String,
) -> (r: Result<(), Halt>)
    ensures
        emitted(
            r,
            old(out)@,
            final(out)@,
            nested_impls_halt(parent_name@, variant_models(vs@), import_models(imports@), boxing_of(boxing), 0),
            nested_impls(parent_name@, variant_models(vs@), import_models(imports@), boxing_of(boxing), 0),
        ),
    decreases vs@, 1int, 0int,
{
    let ghost im = import_models(imports@);
    let ghost m = variant_models(vs@);
    let ghost b = boxing_of(boxing);
    let ghost start = out@;
    let ghost mut done = Seq::<char>::empty();
    proof {
        lemma_variant_models(vs@);
    }
    let mut i: usize = 0;
    while i < vs.len()
        invariant
            i <= vs@.len(),
            m == variant_models(vs@),
            m.len() == vs@.len(),
            forall|j: int| 0 <= j < m.len() ==> #[trigger] m[j] == vs@[j]@,
            im == import_models(imports@),
            b == boxing_of(boxing),
            nested_impls_halt(parent_name@, m, im, b, 0) == nested_impls_halt(
                parent_name@,
                m,
                im,
                b,
                i as int,
            ),
            nested_impls(parent_name@, m, im, b, 0) == done + nested_impls(
                parent_name@,
                m,
                im,
                b,
                i as int,
            ),
            out@ == start + done,
        decreases vs@.len() - i,
    {
        proof {
            assert(decreases_to!(vs@ => vs@[i as int]));
        }
        if let Err(h) = nested_datomic_impl(parent_name, &vs[i], imports, boxing, out) {
            return Err(h);
        }
        proof {
            let piece = nested_impl(parent_name@, m[i as int], im, b);
            assert(done + piece + nested_impls(parent_name@, m, im, b, i + 1) =~= done + (piece
                + nested_impls(parent_name@, m, im, b, i + 1)));
            done = done + piece;
        }
        i += 1;
    }
    Ok(())
}

/// The impls of an enum whose variants box under `boxing`.
#[verifier::rlimit(40)]
#[verifier::spinoff_prover]
fn enum_impl_tokens(
    n: &String,
    vs: &Vec<Variant>,
    imports: &Vec<Import>,
    boxing: Option<&String>,
    out: &mut String,
) -> (r: Result<(), Halt>)
    ensures
        emitted(
            r,
            old(out)@,
            final(out)@,
            enum_impls_halt(n@, variant_models(vs@), import_models(imports@), boxing_of(boxing)),
            enum_impls_text(n@, variant_models(vs@), import_models(imports@), boxing_of(boxing)),
        ),
    decreases vs@, 2int, 0int,
{
    let ghost before = out@;
    let mut arms = String::new();
    if let Err(h) = incorporate_arm_tokens(n, vs, imports, boxing, &mut arms) {
        return Err(h);
    }
    let mut conceives = String::new();
    if let Err(h) = conceive_arm_tokens(vs, boxing, &mut conceives) {
        return Err(h);
    }
    let mut nested = String::new();
    if let Err(h) = nested_datomic_impls(n, vs, imports, boxing, &mut nested) {
        return Err(h);
    }
    put_conceivable_head(out, n);
    put(out, "Ok ( match self { ");
    put_text(out, &conceives);
    put(out, "} ) } } ");
    put_datomic_head(out, n);
    put_text(out, &arms);
    put(
        out,
        "other => Err ( datomic :: Fault :: Corporate ( vec ! [ ] , datomic :: Problem :: Shape ( datomic :: Expected :: Variant , other ) ) ) , } } } ",
    );
    put_incorporable(out, n);
    put_text(out, &nested);
    assert(out@ =~= before + enum_impls_text(
        n@,
        variant_models(vs@),
        import_models(imports@),
        boxing_of(boxing),
    ));
    Ok(())
}

/// The impls of an enum declared under `boxing`; the enum boxes itself where it recurs.
fn enum_datomic_tokens(
    n: &String,
    vs: &Vec<Variant>,
    imports: &Vec<Import>,
    boxing: Option<&String>,
    out: &mut String,
) -> (r: Result<(), Halt>)
    ensures
        emitted(
            r,
            old(out)@,
            final(out)@,
            enum_datomic_halt(n@, variant_models(vs@), import_models(imports@), boxing_of(boxing)),
            enum_datomic_text(n@, variant_models(vs@), import_models(imports@), boxing_of(boxing)),
        ),
    decreases vs@, 3int, 0int,
{
    if let Err(h) = check_ident(n) {
        return Err(h);
    }
    let recursive = variants_have_recursive_ref(vs, n);
    let own = if recursive {
        Some(n)
    } else {
        boxing
    };
    enum_impl_tokens(n, vs, imports, own, out)
}

/// The datom impls of a declaration: none for an alias.
fn datomic_impl_tokens(d: &TypeDeclaration, imports: &Vec<Import>, out: &mut String) -> (r: Result<
    (),
    Halt,
>)
    ensures
        emitted(
            r,
            old(out)@,
            final(out)@,
            declaration_datomic_halt(d@, import_models(imports@)),
            declaration_datomic_text(d@, import_models(imports@)),
        ),
{
    let ghost before = out@;
    match d {
        TypeDeclaration::Struct(n, f) => {
            let boxing = if fields_have_recursive_ref(f, n) {
                Some(n)
            } else {
                None
            };
            struct_datomic_tokens(n, f, imports, boxing, out)
        },
        TypeDeclaration::Enum(n, vs) => enum_datomic_tokens(n, vs, imports, None, out),
        TypeDeclaration::Alias(_, _) => {
            assert(out@ =~= before + declaration_datomic_text(d@, import_models(imports@)));
            Ok(())
        },
    }
}


// ---------------------------------------------------------------------------
// Kinds
// ---------------------------------------------------------------------------

/// Kind names joined by `+`, each under its source where an import brings it.
#[verifier::rlimit(40)]
#[verifier::spinoff_prover]
fn plus_joined_tokens(names: &Vec<String>, imports: &Vec<Import>, out: &mut String) -> (r: Result<
    (),
    Halt,
>)
    ensures
        emitted(
            r,
            old(out)@,
            final(out)@,
            names_halt(texts(names@), import_models(imports@), 0),
            plus_joined(texts(names@), import_models(imports@), 0),
        ),
{
    let ghost im = import_models(imports@);
    let ghost t = texts(names@);
    let ghost start = out@;
    let ghost mut done = Seq::<char>::empty();
    let mut i: usize = 0;
    while i < names.len()
        invariant
            i <= names@.len(),
            t == texts(names@),
            im == import_models(imports@),
            t.len() == names@.len(),
            names_halt(t, im, 0) == names_halt(t, im, i as int),
            plus_joined(t, im, 0) == done + plus_joined(t, im, i as int),
            out@ == start + done,
        decreases names@.len() - i,
    {
        let ghost before = out@;
        if let Err(h) = put_bound(&names[i], imports, out) {
            return Err(h);
        }
        if i + 1 < names.len() {
            put(out, "+ ");
        }
        proof {
            let piece = bound_text(t[i as int], im) + (if i + 1 < t.len() {
                "+ "@
            } else {
                Seq::<char>::empty()
            });
            assert(out@ =~= before + piece);
            assert(done + piece + plus_joined(t, im, i + 1) =~= done + (piece + plus_joined(
                t,
                im,
                i + 1,
            )));
            done = done + piece;
        }
        i += 1;
    }
    Ok(())
}

/// The generic parameters of a kind, one per constraint: `A : Bound + …`.
#[verifier::rlimit(40)]
#[verifier::spinoff_prover]
fn generic_param_tokens(
    constraints: &Vec<KindConstraint>,
    imports: &Vec<Import>,
    out: &mut String,
) -> (r: Result<(), Halt>)
    ensures
        emitted(
            r,
            old(out)@,
            final(out)@,
            generic_params_halt(kind_constraint_models(constraints@), import_models(imports@), 0),
            generic_params(kind_constraint_models(constraints@), import_models(imports@), 0),
        ),
{
    let ghost im = import_models(imports@);
    let ghost c = kind_constraint_models(constraints@);
    let ghost start = out@;
    let ghost mut done = Seq::<char>::empty();
    let mut i: usize = 0;
    while i < constraints.len()
        invariant
            i <= constraints@.len(),
            c == kind_constraint_models(constraints@),
            im == import_models(imports@),
            c.len() == constraints@.len(),
            generic_params_halt(c, im, 0) == generic_params_halt(c, im, i as int),
            generic_params(c, im, 0) == done + generic_params(c, im, i as int),
            out@ == start + done,
        decreases constraints@.len() - i,
    {
        let ghost before = out@;
        if i >= 26 {
            return Err(Halt::Panic);
        }
        let mut letter_text = String::new();
        push_char(&mut letter_text, ((65 + i) as u8) as char);
        proof {
            assert(letter_text@ =~= letter(i as int));
        }
        if let Err(h) = check_ident(&letter_text) {
            return Err(h);
        }
        put_name(out, &letter_text);
        let bounds = &constraints[i].bounds;
        if bounds.len() != 0 {
            put(out, ": ");
            if let Err(h) = plus_joined_tokens(bounds, imports, out) {
                return Err(h);
            }
        } else {
            proof {
                assert(names_halt(texts(bounds@), im, 0) is None);
            }
        }
        if i + 1 < constraints.len() {
            put(out, ", ");
        }
        proof {
            let ci = c[i as int];
            assert(ci == texts(bounds@));
            let piece = sp(letter(i as int)) + (if ci.len() == 0 {
                Seq::<char>::empty()
            } else {
                ": "@ + plus_joined(ci, im, 0)
            }) + (if i + 1 < c.len() {
                ", "@
            } else {
                Seq::<char>::empty()
            });
            assert(out@ =~= before + piece);
            assert(done + piece + generic_params(c, im, i + 1) =~= done + (piece + generic_params(
                c,
                im,
                i + 1,
            )));
            done = done + piece;
        }
        i += 1;
    }
    Ok(())
}

/// The input parameters of a capability: `input` alone, or `input_0`, `input_1`, ….
#[verifier::rlimit(40)]
#[verifier::spinoff_prover]
fn input_param_tokens(inputs: &Vec<TypeExpression>, imports: &Vec<Import>, out: &mut String) -> (r:
    Result<(), Halt>)
    ensures
        emitted(
            r,
            old(out)@,
            final(out)@,
            input_params_halt(type_expression_models(inputs@), import_models(imports@), 0),
            input_params(type_expression_models(inputs@), import_models(imports@), 0),
        ),
{
    let ghost im = import_models(imports@);
    let ghost m = type_expression_models(inputs@);
    let ghost start = out@;
    let ghost mut done = Seq::<char>::empty();
    proof {
        lemma_type_expression_models(inputs@);
    }
    let single = inputs.len() == 1;
    let mut i: usize = 0;
    while i < inputs.len()
        invariant
            i <= inputs@.len(),
            m == type_expression_models(inputs@),
            m.len() == inputs@.len(),
            forall|j: int| 0 <= j < m.len() ==> #[trigger] m[j] == inputs@[j]@,
            im == import_models(imports@),
            single == (inputs@.len() == 1),
            input_params_halt(m, im, 0) == input_params_halt(m, im, i as int),
            input_params(m, im, 0) == done + input_params(m, im, i as int),
            out@ == start + done,
        decreases inputs@.len() - i,
    {
        let ghost before = out@;
        if single {
            put(out, "input ");
        } else {
            let mut name = String::new();
            put(&mut name, "input_");
            let d = decimal(i);
            put_text(&mut name, &d);
            proof {
                assert(name@ =~= input_name(i as int));
            }
            if let Err(h) = check_ident(&name) {
                return Err(h);
            }
            put_name(out, &name);
        }
        put(out, ": ");
        if let Err(h) = type_expression_rust(&inputs[i], imports, out) {
            return Err(h);
        }
        if i + 1 < inputs.len() {
            put(out, ", ");
        }
        proof {
            let piece = (if m.len() == 1 {
                "input "@
            } else {
                sp(input_name(i as int))
            }) + ": "@ + expr_text(m[i as int], im) + (if i + 1 < m.len() {
                ", "@
            } else {
                Seq::<char>::empty()
            });
            assert(out@ =~= before + piece);
            assert(done + piece + input_params(m, im, i + 1) =~= done + (piece + input_params(
                m,
                im,
                i + 1,
            )));
            done = done + piece;
        }
        i += 1;
    }
    Ok(())
}

/// A capability as a trait method.
#[verifier::rlimit(50)]
#[verifier::spinoff_prover]
fn capability_method_tokens(c: &Capability, imports: &Vec<Import>, out: &mut String) -> (r: Result<
    (),
    Halt,
>)
    ensures
        emitted(
            r,
            old(out)@,
            final(out)@,
            capability_halt(c@, import_models(imports@)),
            capability_text(c@, import_models(imports@)),
        ),
{
    let ghost im = import_models(imports@);
    let ghost before = out@;
    if let Err(h) = check_ident(&c.name) {
        return Err(h);
    }
    let mut ret = String::new();
    if let Err(h) = type_expression_rust(&c.yield_type, imports, &mut ret) {
        return Err(h);
    }
    let mut inputs = String::new();
    if let Err(h) = input_param_tokens(&c.inputs, imports, &mut inputs) {
        return Err(h);
    }
    proof {
        lemma_type_expression_models(c.inputs@);
    }
    put(out, "fn ");
    put_name(out, &c.name);
    put(out, "( ");
    match c.receiver {
        Receiver::Static => {
            put_text(out, &inputs);
        },
        Receiver::Shared => {
            put(out, "& self ");
            if c.inputs.len() != 0 {
                put(out, ", ");
                put_text(out, &inputs);
            }
        },
        Receiver::Mutable => {
            put(out, "& mut self ");
            if c.inputs.len() != 0 {
                put(out, ", ");
                put_text(out, &inputs);
            }
        },
    }
    put(out, ") -> ");
    put_text(out, &ret);
    put(out, "; ");
    assert(out@ =~= before + capability_text(c@, im));
    Ok(())
}

/// The associated types of a kind.
#[verifier::rlimit(40)]
#[verifier::spinoff_prover]
fn associated_type_tokens(
    associated_types: &Vec<AssociatedType>,
    imports: &Vec<Import>,
    out: &mut String,
) -> (r: Result<(), Halt>)
    ensures
        emitted(
            r,
            old(out)@,
            final(out)@,
            associated_types_halt(
                associated_types@.map_values(|a: AssociatedType| a@),
                import_models(imports@),
                0,
            ),
            associated_types_text(
                associated_types@.map_values(|a: AssociatedType| a@),
                import_models(imports@),
                0,
            ),
        ),
{
    let ghost im = import_models(imports@);
    let ghost ats = associated_types@.map_values(|a: AssociatedType| a@);
    let ghost mid = out@;
    let ghost mut done = Seq::<char>::empty();
    let mut i: usize = 0;
    while i < associated_types.len()
        invariant
            i <= associated_types@.len(),
            ats == associated_types@.map_values(|a: AssociatedType| a@),
            im == import_models(imports@),
            associated_types_halt(ats, im, 0) == associated_types_halt(ats, im, i as int),
            associated_types_text(ats, im, 0) == done + associated_types_text(ats, im, i as int),
            out@ == mid + done,
        decreases associated_types@.len() - i,
    {
        let ghost b = out@;
        let a = &associated_types[i];
        if let Err(h) = check_ident(&a.name) {
            return Err(h);
        }
        put(out, "type ");
        put_name(out, &a.name);
        if a.constraints.len() == 0 {
            put(out, "; ");
        } else {
            put(out, ": ");
            if let Err(h) = plus_joined_tokens(&a.constraints, imports, out) {
                return Err(h);
            }
            put(out, "; ");
        }
        proof {
            let piece = associated_type_text(ats[i as int], im);
            assert(ats[i as int] == a@);
            if a.constraints.len() == 0 {
                assert(names_halt(texts(a.constraints@), im, 0) is None);
            }
            assert(out@ =~= b + piece);
            assert(done + piece + associated_types_text(ats, im, i + 1) =~= done + (piece
                + associated_types_text(ats, im, i + 1)));
            done = done + piece;
        }
        i += 1;
    }
    Ok(())
}

/// The associated constants of a kind.
#[verifier::rlimit(40)]
#[verifier::spinoff_prover]
fn constant_tokens(
    associated_constants: &Vec<AssociatedConstant>,
    imports: &Vec<Import>,
    out: &mut String,
) -> (r: Result<(), Halt>)
    ensures
        emitted(
            r,
            old(out)@,
            final(out)@,
            constants_halt(
                associated_constants@.map_values(|a: AssociatedConstant| a@),
                import_models(imports@),
                0,
            ),
            constants_text(
                associated_constants@.map_values(|a: AssociatedConstant| a@),
                import_models(imports@),
                0,
            ),
        ),
{
    let ghost im = import_models(imports@);
    let ghost cts = associated_constants@.map_values(|a: AssociatedConstant| a@);
    let ghost mid2 = out@;
    let ghost mut done2 = Seq::<char>::empty();
    let mut i: usize = 0;
    while i < associated_constants.len()
        invariant
            i <= associated_constants@.len(),
            cts == associated_constants@.map_values(|a: AssociatedConstant| a@),
            im == import_models(imports@),
            constants_halt(cts, im, 0) == constants_halt(cts, im, i as int),
            constants_text(cts, im, 0) == done2 + constants_text(cts, im, i as int),
            out@ == mid2 + done2,
        decreases associated_constants@.len() - i,
    {
        let ghost b = out@;
        let a = &associated_constants[i];
        if let Err(h) = check_ident(&a.name) {
            return Err(h);
        }
        put(out, "const ");
        put_name(out, &a.name);
        put(out, ": ");
        if let Err(h) = type_expression_rust(&a.ty, imports, out) {
            return Err(h);
        }
        put(out, "; ");
        proof {
            assert(cts[i as int] == a@);
            let piece = "const "@ + sp(cts[i as int].name) + ": "@ + expr_text(cts[i as int].ty, im)
                + "; "@;
            assert(out@ =~= b + piece);
            assert(done2 + piece + constants_text(cts, im, i + 1) =~= done2 + (piece
                + constants_text(cts, im, i + 1)));
            done2 = done2 + piece;
        }
        i += 1;
    }
    Ok(())
}

/// The capabilities of a kind, as trait methods.
fn capability_list_tokens(capabilities: &Vec<Capability>, imports: &Vec<Import>, out: &mut String) -> (r:
    Result<(), Halt>)
    ensures
        emitted(
            r,
            old(out)@,
            final(out)@,
            capabilities_halt(capability_models(capabilities@), import_models(imports@), 0),
            capabilities_text(capability_models(capabilities@), import_models(imports@), 0),
        ),
{
    let ghost im = import_models(imports@);
    let ghost cps = capability_models(capabilities@);
    let ghost mid3 = out@;
    let ghost mut done3 = Seq::<char>::empty();
    let mut i: usize = 0;
    while i < capabilities.len()
        invariant
            i <= capabilities@.len(),
            cps == capability_models(capabilities@),
            im == import_models(imports@),
            capabilities_halt(cps, im, 0) == capabilities_halt(cps, im, i as int),
            capabilities_text(cps, im, 0) == done3 + capabilities_text(cps, im, i as int),
            out@ == mid3 + done3,
        decreases capabilities@.len() - i,
    {
        if let Err(h) = capability_method_tokens(&capabilities[i], imports, out) {
            return Err(h);
        }
        proof {
            let piece = capability_text(cps[i as int], im);
            assert(done3 + piece + capabilities_text(cps, im, i + 1) =~= done3 + (piece
                + capabilities_text(cps, im, i + 1)));
            done3 = done3 + piece;
        }
        i += 1;
    }
    Ok(())
}

/// The head of a trait.
#[verifier::rlimit(40)]
#[verifier::spinoff_prover]
fn trait_head_tokens(
    name: &String,
    constraints: &Vec<KindConstraint>,
    superkinds: &Vec<String>,
    imports: &Vec<Import>,
    out: &mut String,
) -> (r: Result<(), Halt>)
    ensures
        emitted(
            r,
            old(out)@,
            final(out)@,
            trait_head_halt(
                name@,
                kind_constraint_models(constraints@),
                texts(superkinds@),
                import_models(imports@),
            ),
            trait_head_text(
                name@,
                kind_constraint_models(constraints@),
                texts(superkinds@),
                import_models(imports@),
            ),
        ),
{
    let ghost before = out@;
    if let Err(h) = check_ident(name) {
        return Err(h);
    }
    put(out, "pub trait ");
    put_name(out, name);
    let ghost g0 = out@;
    if constraints.len() != 0 {
        put(out, "< ");
        if let Err(h) = generic_param_tokens(constraints, imports, out) {
            return Err(h);
        }
        put(out, "> ");
    }
    let ghost g1 = out@;
    proof {
        assert(g1 =~= g0 + generics_text(kind_constraint_models(constraints@), import_models(imports@)));
    }
    if superkinds.len() != 0 {
        put(out, ": ");
        if let Err(h) = plus_joined_tokens(superkinds, imports, out) {
            return Err(h);
        }
    }
    proof {
        assert(out@ =~= g1 + supertraits_text(texts(superkinds@), import_models(imports@)));
        assert(out@ =~= before + trait_head_text(
            name@,
            kind_constraint_models(constraints@),
            texts(superkinds@),
            import_models(imports@),
        ));
    }
    Ok(())
}

/// The items of a trait.
#[verifier::rlimit(40)]
#[verifier::spinoff_prover]
fn trait_item_tokens(
    associated_types: &Vec<AssociatedType>,
    associated_constants: &Vec<AssociatedConstant>,
    capabilities: &Vec<Capability>,
    imports: &Vec<Import>,
    out: &mut String,
) -> (r: Result<(), Halt>)
    ensures
        emitted(
            r,
            old(out)@,
            final(out)@,
            trait_items_halt(
                associated_types@.map_values(|a: AssociatedType| a@),
                associated_constants@.map_values(|a: AssociatedConstant| a@),
                capability_models(capabilities@),
                import_models(imports@),
            ),
            trait_items_text(
                associated_types@.map_values(|a: AssociatedType| a@),
                associated_constants@.map_values(|a: AssociatedConstant| a@),
                capability_models(capabilities@),
                import_models(imports@),
            ),
        ),
{
    let ghost before = out@;
    if let Err(h) = associated_type_tokens(associated_types, imports, out) {
        return Err(h);
    }
    if let Err(h) = constant_tokens(associated_constants, imports, out) {
        return Err(h);
    }
    if let Err(h) = capability_list_tokens(capabilities, imports, out) {
        return Err(h);
    }
    proof {
        assert(out@ =~= before + trait_items_text(
            associated_types@.map_values(|a: AssociatedType| a@),
            associated_constants@.map_values(|a: AssociatedConstant| a@),
            capability_models(capabilities@),
            import_models(imports@),
        ));
    }
    Ok(())
}

/// A kind as a trait.
#[verifier::rlimit(40)]
#[verifier::spinoff_prover]
fn kind_declaration_tokens(k: &KindDeclaration, imports: &Vec<Import>, out: &mut String) -> (r:
    Result<(), Halt>)
    ensures
        emitted(
            r,
            old(out)@,
            final(out)@,
            kind_halt(k@, import_models(imports@)),
            kind_text(k@, import_models(imports@)),
        ),
{
    let ghost before = out@;
    let empty_names: Vec<String> = Vec::new();
    let empty_types: Vec<AssociatedType> = Vec::new();
    let empty_constants: Vec<AssociatedConstant> = Vec::new();
    proof {
        assert(texts(empty_names@) =~= Seq::<Seq<char>>::empty());
        assert(empty_types@.map_values(|a: AssociatedType| a@) =~= Seq::<
            crate::concept::AssociatedTypeModel,
        >::empty());
        assert(empty_constants@.map_values(|a: AssociatedConstant| a@) =~= Seq::<
            crate::concept::AssociatedConstantModel,
        >::empty());
    }
    let (name, constraints, superkinds, associated_types, associated_constants, capabilities) =
        match k {
        KindDeclaration::Simple { name, constraints, capabilities } => (
            name,
            constraints,
            &empty_names,
            &empty_types,
            &empty_constants,
            capabilities,
        ),
        KindDeclaration::Complex {
            name,
            constraints,
            superkinds,
            associated_types,
            associated_constants,
            capabilities,
        } => (name, constraints, superkinds, associated_types, associated_constants, capabilities),
    };
    if let Err(h) = trait_head_tokens(name, constraints, superkinds, imports, out) {
        return Err(h);
    }
    put(out, "{ ");
    if let Err(h) = trait_item_tokens(
        associated_types,
        associated_constants,
        capabilities,
        imports,
        out,
    ) {
        return Err(h);
    }
    put(out, "} ");
    proof {
        assert(out@ =~= before + kind_text(k@, import_models(imports@)));
    }
    Ok(())
}


// ---------------------------------------------------------------------------
// Associations and signal enums
// ---------------------------------------------------------------------------

/// An association as compile-time assertions that the type has each kind.
#[verifier::rlimit(40)]
#[verifier::spinoff_prover]
fn association_assertion_tokens(a: &Association, out: &mut String) -> (r: Result<(), Halt>)
    ensures
        emitted(r, old(out)@, final(out)@, association_halt(a@), association_text(a@)),
{
    let ghost before = out@;
    let ghost ks = texts(a.kinds@);
    if let Err(h) = check_ident(&a.ty) {
        return Err(h);
    }
    let mut body = String::new();
    let ghost mut done = Seq::<char>::empty();
    let mut i: usize = 0;
    while i < a.kinds.len()
        invariant
            i <= a.kinds@.len(),
            ks == texts(a.kinds@),
            ks.len() == a.kinds@.len(),
            assertions_halt(a.ty@, ks, 0) == assertions_halt(a.ty@, ks, i as int),
            assertions_text(a.ty@, ks, 0) == done + assertions_text(a.ty@, ks, i as int),
            body@ == done,
        decreases a.kinds@.len() - i,
    {
        let ghost b = body@;
        let kind = &a.kinds[i];
        let mut name = String::new();
        put(&mut name, "assert_");
        let lt = to_lowercase(&a.ty);
        put_text(&mut name, &lt);
        put(&mut name, "_");
        let lk = to_lowercase(kind);
        put_text(&mut name, &lk);
        proof {
            assert(name@ =~= assertion_name(a.ty@, kind@));
        }
        if let Err(h) = check_ident(&name) {
            return Err(h);
        }
        if let Err(h) = check_ident(kind) {
            return Err(h);
        }
        put(&mut body, "fn ");
        put_name(&mut body, &name);
        put(&mut body, "< T : ");
        put_name(&mut body, kind);
        put(&mut body, "> ( ) { } let _ = ");
        put_name(&mut body, &name);
        put(&mut body, ":: < ");
        put_name(&mut body, &a.ty);
        put(&mut body, "> ; ");
        proof {
            let piece = "fn "@ + sp(assertion_name(a.ty@, ks[i as int])) + "< T : "@ + sp(
                ks[i as int],
            ) + "> ( ) { } let _ = "@ + sp(assertion_name(a.ty@, ks[i as int])) + ":: < "@ + sp(
                a.ty@,
            ) + "> ; "@;
            assert(body@ =~= b + piece);
            assert(done + piece + assertions_text(a.ty@, ks, i + 1) =~= done + (piece
                + assertions_text(a.ty@, ks, i + 1)));
            done = done + piece;
        }
        i += 1;
    }
    put(out, "const _ : ( ) = { ");
    put_text(out, &body);
    put(out, "} ; ");
    assert(out@ =~= before + association_text(a@));
    Ok(())
}

/// The `Request` or `Response` enum of a signal, with its impls; nothing when empty.
#[verifier::rlimit(40)]
#[verifier::spinoff_prover]
fn signal_enum_tokens(name: &str, vs: &Vec<Variant>, imports: &Vec<Import>, out: &mut String) -> (r:
    Result<(), Halt>)
    ensures
        emitted(
            r,
            old(out)@,
            final(out)@,
            signal_enum_halt(name@, variant_models(vs@), import_models(imports@)),
            signal_enum_text(name@, variant_models(vs@), import_models(imports@)),
        ),
{
    let ghost before = out@;
    if vs.len() == 0 {
        proof {
            lemma_variant_models(vs@);
            assert(out@ =~= before + signal_enum_text(
                name@,
                variant_models(vs@),
                import_models(imports@),
            ));
        }
        return Ok(());
    }
    proof {
        lemma_variant_models(vs@);
    }
    let n = String::from_str(name);
    if let Err(h) = check_ident(&n) {
        return Err(h);
    }
    let unit_only = all_variants_unit(vs);
    let mut variants = String::new();
    let mut inline = String::new();
    if let Err(h) = emit_variant_decl_tokens(&n, vs, imports, None, true, &mut variants, &mut inline) {
        return Err(h);
    }
    let mut impls = String::new();
    if let Err(h) = enum_impl_tokens(&n, vs, imports, None, &mut impls) {
        return Err(h);
    }
    put_text(out, &inline);
    put_wire_derive(out, true);
    put_enum_derive(out, unit_only);
    put(out, "pub enum ");
    put_name(out, &n);
    put(out, "{ ");
    put_text(out, &variants);
    put(out, "} ");
    put_text(out, &impls);
    assert(out@ =~= before + signal_enum_text(name@, variant_models(vs@), import_models(imports@)));
    Ok(())
}

// ---------------------------------------------------------------------------
// Files
// ---------------------------------------------------------------------------

/// The wire envelope of a signal (see [`wire_envelope`]).
fn put_wire_envelope(out: &mut String)
    ensures
        final(out)@ == old(out)@ + wire_envelope(),
{
    let ghost before = out@;
    put_wire_derive(out, true);
    put(out, "# [ derive ( Clone , Copy , Debug , PartialEq , Eq ) ] ");
    put(out, "pub struct Version ( pub u16 , pub u16 , pub u16 ) ; ");
    put_wire_derive(out, true);
    put(out, "# [ derive ( Clone , Debug , PartialEq , Eq ) ] ");
    put(out, "pub enum Refusal { VersionMismatch ( Version , Version ) , Unreadable , } ");
    put_wire_derive(out, true);
    put(out, "# [ derive ( Clone , Debug , PartialEq , Eq ) ] ");
    put(out, "pub enum Body { Request ( Request ) , Reply ( Response ) , Refusal ( Refusal ) , } ");
    put_wire_derive(out, true);
    put(out, "# [ derive ( Clone , Debug , PartialEq , Eq ) ] ");
    put(out, "pub struct Frame ( pub Version , pub Body ) ; ");
    assert(out@ =~= before + wire_envelope());
}

/// Each declaration followed by its datom impls.
#[verifier::rlimit(40)]
#[verifier::spinoff_prover]
fn declaration_list_tokens(
    types: &Vec<TypeDeclaration>,
    imports: &Vec<Import>,
    wire: bool,
    out: &mut String,
) -> (r: Result<(), Halt>)
    ensures
        emitted(
            r,
            old(out)@,
            final(out)@,
            declarations_halt(declaration_models(types@), import_models(imports@), 0),
            declarations_text(declaration_models(types@), import_models(imports@), wire, 0),
        ),
{
    let ghost im = import_models(imports@);
    let ghost m = declaration_models(types@);
    let ghost start = out@;
    let ghost mut done = Seq::<char>::empty();
    let mut i: usize = 0;
    while i < types.len()
        invariant
            i <= types@.len(),
            m == declaration_models(types@),
            m.len() == types@.len(),
            im == import_models(imports@),
            declarations_halt(m, im, 0) == declarations_halt(m, im, i as int),
            declarations_text(m, im, wire, 0) == done + declarations_text(m, im, wire, i as int),
            out@ == start + done,
        decreases types@.len() - i,
    {
        let ghost b = out@;
        if let Err(h) = type_declaration_tokens(&types[i], imports, wire, out) {
            return Err(h);
        }
        if let Err(h) = datomic_impl_tokens(&types[i], imports, out) {
            return Err(h);
        }
        proof {
            let piece = declaration_text(m[i as int], im, wire) + declaration_datomic_text(
                m[i as int],
                im,
            );
            assert(out@ =~= b + piece);
            assert(done + piece + declarations_text(m, im, wire, i + 1) =~= done + (piece
                + declarations_text(m, im, wire, i + 1)));
            done = done + piece;
        }
        i += 1;
    }
    Ok(())
}

fn association_list_tokens(associations: &Vec<Association>, out: &mut String) -> (r: Result<
    (),
    Halt,
>)
    ensures
        emitted(
            r,
            old(out)@,
            final(out)@,
            associations_halt(associations@.map_values(|a: Association| a@), 0),
            associations_text(associations@.map_values(|a: Association| a@), 0),
        ),
{
    let ghost m = associations@.map_values(|a: Association| a@);
    let ghost start = out@;
    let ghost mut done = Seq::<char>::empty();
    let mut i: usize = 0;
    while i < associations.len()
        invariant
            i <= associations@.len(),
            m == associations@.map_values(|a: Association| a@),
            associations_halt(m, 0) == associations_halt(m, i as int),
            associations_text(m, 0) == done + associations_text(m, i as int),
            out@ == start + done,
        decreases associations@.len() - i,
    {
        if let Err(h) = association_assertion_tokens(&associations[i], out) {
            return Err(h);
        }
        proof {
            let piece = association_text(m[i as int]);
            assert(done + piece + associations_text(m, i + 1) =~= done + (piece
                + associations_text(m, i + 1)));
            done = done + piece;
        }
        i += 1;
    }
    Ok(())
}

#[verifier::rlimit(40)]
#[verifier::spinoff_prover]
fn kind_list_tokens(kinds: &Vec<KindDeclaration>, imports: &Vec<Import>, out: &mut String) -> (r:
    Result<(), Halt>)
    ensures
        emitted(
            r,
            old(out)@,
            final(out)@,
            kinds_halt(kinds@.map_values(|d: KindDeclaration| d@), import_models(imports@), 0),
            kinds_text(kinds@.map_values(|d: KindDeclaration| d@), import_models(imports@), 0),
        ),
{
    let ghost im = import_models(imports@);
    let ghost m = kinds@.map_values(|d: KindDeclaration| d@);
    let ghost start = out@;
    let ghost mut done = Seq::<char>::empty();
    let mut i: usize = 0;
    while i < kinds.len()
        invariant
            i <= kinds@.len(),
            m == kinds@.map_values(|d: KindDeclaration| d@),
            im == import_models(imports@),
            kinds_halt(m, im, 0) == kinds_halt(m, im, i as int),
            kinds_text(m, im, 0) == done + kinds_text(m, im, i as int),
            out@ == start + done,
        decreases kinds@.len() - i,
    {
        if let Err(h) = kind_declaration_tokens(&kinds[i], imports, out) {
            return Err(h);
        }
        proof {
            let piece = kind_text(m[i as int], im);
            assert(done + piece + kinds_text(m, im, i + 1) =~= done + (piece + kinds_text(
                m,
                im,
                i + 1,
            )));
            done = done + piece;
        }
        i += 1;
    }
    Ok(())
}

/// The Rust token text of a file, or where its emission halts.
pub fn emit_tokens(f: &File) -> (r: Result<String, Halt>)
    ensures
        match file_halt(f@) {
            None => r is Ok && r->Ok_0@ == file_text(f@),
            Some(h) => r == Err::<String, Halt>(h),
        },
{
    let mut out = String::new();
    put(&mut out, "# ! [ allow ( dead_code ) ] ");
    let ghost head = out@;
    let r = match f {
        File::Types(t) => {
            if let Err(h) = declaration_list_tokens(&t.types, &t.imports, false, &mut out) {
                return Err(h);
            }
            association_list_tokens(&t.associations, &mut out)
        },
        File::Kinds(k) => kind_list_tokens(&k.kinds, &k.imports, &mut out),
        File::Signal(s) => {
            if let Err(h) = declaration_list_tokens(&s.types, &s.imports, true, &mut out) {
                return Err(h);
            }
            if let Err(h) = signal_enum_tokens("Request", &s.requests, &s.imports, &mut out) {
                return Err(h);
            }
            if let Err(h) = signal_enum_tokens("Response", &s.responses, &s.imports, &mut out) {
                return Err(h);
            }
            put_wire_envelope(&mut out);
            Ok(())
        },
        File::Sema(s) => declaration_list_tokens(&s.types, &s.imports, false, &mut out),
    };
    match r {
        Ok(()) => {
            proof {
                assert(out@ =~= file_text(f@));
            }
            Ok(out)
        },
        Err(h) => Err(h),
    }
}


// ---------------------------------------------------------------------------
// Parsing the emitted text as a Rust module
// ---------------------------------------------------------------------------

/// `syn::Error`, the error of the Rust parser.
#[verifier::external_type_specification]
#[verifier::external_body]
pub struct ExSynError(syn::Error);

/// The Rust module that a token text parses as, printed back as text; none
/// when the text is not a module.
pub uninterp spec fn rust_source(text: Seq<char>) -> Option<Seq<char>>;

/// Calls `syn::parse_str::<syn::File>` on the text and, when it parses, prints
/// the module back (`ToTokens::into_token_stream`, then `to_string`). The
/// printed text is named [`rust_source`]; whether the text parses is what
/// `rust_source` being some says. Nothing more of the parser is claimed.
#[verifier::external_body]
fn parse_and_print(text: &String) -> (r: Result<String, syn::Error>)
    ensures
        match r {
            Ok(s) => rust_source(text@) == Some(s@),
            Err(_) => rust_source(text@) is None,
        },
{
    match syn::parse_str::<syn::File>(text) {
        Ok(file) => Ok(quote::ToTokens::into_token_stream(file).to_string()),
        Err(e) => Err(e),
    }
}

fn generation_fault() -> (f: Fault)
    ensures
        faults_with(f, ProblemModel::Generation),
{
    Fault { path: Vec::new(), problem: Problem::Generation }
}

/// What the parser gave back, as the outcome of generation: the printed
/// module, or a generation fault when the text did not parse.
pub fn generation_outcome(printed: Result<String, syn::Error>) -> (r: Result<String, Fault>)
    ensures
        match printed {
            Ok(s) => r is Ok && r->Ok_0@ == s@,
            Err(_) => r matches Err(f) && faults_with(f, ProblemModel::Generation),
        },
{
    match printed {
        Ok(s) => Ok(s),
        Err(_) => Err(generation_fault()),
    }
}

/// What generating a file gives: a generation fault where emission faults or
/// the text does not parse, otherwise the printed module.
pub open spec fn generated(f: crate::concept::FileModel, r: Result<String, Fault>) -> bool {
    match file_halt(f) {
        Some(_) => r matches Err(e) && faults_with(e, ProblemModel::Generation),
        None => match rust_source(file_text(f)) {
            Some(s) => r is Ok && r->Ok_0@ == s,
            None => r matches Err(e) && faults_with(e, ProblemModel::Generation),
        },
    }
}

/// Generating: a file emits Rust source.
pub trait Generating {
    type Fault;

    /// Generation of this value does not meet a name that is no identifier.
    spec fn generable(&self) -> bool;

    fn generate(&self) -> Result<String, Self::Fault>
        requires
            self.generable(),
    ;
}

impl Generating for File {
    type Fault = Fault;

    open spec fn generable(&self) -> bool {
        file_halt(self@) != Some(Halt::Panic)
    }

    /// The Rust module of this file, printed.
    fn generate(&self) -> (r: Result<String, Fault>)
        ensures
            generated(self@, r),
    {
        match emit_tokens(self) {
            Ok(text) => generation_outcome(parse_and_print(&text)),
            Err(_) => Err(generation_fault()),
        }
    }
}

impl File {
    /// Generate, where no name in the file is refused as an identifier
    /// before a fault is met; none otherwise.
    pub fn generate_checked(&self) -> (r: Option<Result<String, Fault>>)
        ensures
            match r {
                None => file_halt(self@) == Some(Halt::Panic),
                Some(g) => file_halt(self@) != Some(Halt::Panic) && generated(self@, g),
            },
    {
        match emit_tokens(self) {
            Ok(text) => Some(generation_outcome(parse_and_print(&text))),
            Err(Halt::Fault) => Some(Err(generation_fault())),
            Err(Halt::Panic) => None,
        }
    }
}

} // verus!
