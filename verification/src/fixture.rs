//! The small Interface dialect of the realization fixture.
//!
//! An Interface has a version header, an optional channel binding, an import
//! section, and five sections (inputs, outputs, refusals, streams, types).
//! Each section has its own carrier. The dialect reads the blocks that
//! delineation gives it, checks the whole Interface, and projects it to Rust.

use vstd::prelude::*;
use crate::canonical::{chars_of, push_char};
use crate::text::{copy_text, same_text};
use crate::concept::texts;
use crate::generation::{decimal, put, put_text};
use crate::emission::dec;

verus! {

// ===========================================================================
// Carriers
// ===========================================================================

/// The version carried by an Interface header.
#[derive(Clone, Copy, Debug, PartialEq, Eq, Structural)]
pub struct Version {
    pub major: u16,
    pub minor: u16,
    pub patch: u16,
}

/// The source-owned identity and fixed wire binding of an emitted Signal channel.
#[derive(Debug)]
pub struct Channel {
    pub name: String,
    pub contract_id: u32,
    pub wire_revision: u16,
}

/// One named import path and its imported symbols.
#[derive(Debug)]
pub struct Import {
    pub path: String,
    pub symbols: Vec<String>,
}

/// The import section.
#[derive(Debug)]
pub struct Imports(pub Vec<Import>);

/// One Input operation and its named payload type.
#[derive(Debug)]
pub struct InputElement {
    pub operation: String,
    pub payload: String,
}

/// The Input section.
#[derive(Debug)]
pub struct Inputs(pub Vec<InputElement>);

/// One Output operation and its named payload type.
#[derive(Debug)]
pub struct OutputElement {
    pub operation: String,
    pub payload: String,
}

/// The Output section.
#[derive(Debug)]
pub struct Outputs(pub Vec<OutputElement>);

/// One Refusal operation and its named payload type.
#[derive(Debug)]
pub struct RefusalElement {
    pub operation: String,
    pub payload: String,
}

/// The Refusal section.
#[derive(Debug)]
pub struct Refusals(pub Vec<RefusalElement>);

/// One Stream operation and its named payload type.
#[derive(Debug)]
pub struct StreamElement {
    pub operation: String,
    pub payload: String,
}

/// The Stream section.
#[derive(Debug)]
pub struct Streams(pub Vec<StreamElement>);

/// A named typedef declaration such as `Description.String`.
#[derive(Debug)]
pub struct NamedTypedef {
    pub name: String,
    pub target: String,
}

/// A named struct declaration such as `Entry.{Layer Description}`.
#[derive(Debug)]
pub struct NamedStruct {
    pub name: String,
    pub fields: Vec<String>,
}

/// One enum body's element.
#[derive(Debug)]
pub enum EnumVariantElement {
    Data { variant: String, payload: String },
    Unit { variant: String },
}

/// A named enum declaration such as `Layer.[Spirit Intent Vision]`.
#[derive(Debug)]
pub struct NamedEnum {
    pub name: String,
    pub variants: Vec<EnumVariantElement>,
}

/// One named typedef, struct, or enum declaration.
#[derive(Debug)]
pub enum TypeElement {
    Typedef(NamedTypedef),
    Struct(NamedStruct),
    Enum(NamedEnum),
}

/// The Types section.
#[derive(Debug)]
pub struct Types(pub Vec<TypeElement>);

/// A complete five-section Interface.
#[derive(Debug)]
pub struct Interface {
    pub version: Version,
    pub channel: Option<Channel>,
    pub imports: Imports,
    pub inputs: Inputs,
    pub outputs: Outputs,
    pub refusals: Refusals,
    pub streams: Streams,
    pub types: Types,
}

/// A dialect failure.
#[derive(Clone, Copy, Debug, PartialEq, Eq, Structural)]
pub enum InterfaceFault {
    Shape,
    Head,
    Position,
    MissingPosition,
    ExtraPosition,
    Version,
    Binding,
    Symbol,
    Member,
    Duplicate,
    UnknownType,
}

// ===========================================================================
// Shapes
// ===========================================================================

/// The structural shape of a delineated block.
#[derive(Clone, Copy, Debug, PartialEq, Eq, Structural)]
pub enum Shape {
    /// `Value`
    Bare,
    /// `{ … }`
    Braced,
    /// `[ … ]`
    SquareBracketed,
    /// `Head.{ … }`
    DottedBraced,
    /// `Head.[ … ]`
    DottedSquareBracketed,
}

/// How a Types-section block declares its type.
#[derive(Clone, Copy, Debug, PartialEq, Eq, Structural)]
pub enum TypeSelection {
    Typedef,
    Struct,
    Enum,
}

/// A delineated block: its shape, its head where it has one, its scalar body
/// text, and the blocks inside it.
#[derive(Debug)]
pub struct Block {
    pub shape: Shape,
    pub head: Option<String>,
    pub body: String,
    pub children: Vec<Block>,
}

pub open spec fn head_is(head: Option<&String>, name: Seq<char>) -> bool {
    match head {
        Some(h) => h@ == name,
        None => false,
    }
}

impl Interface {
    /// The header shape: `Interface.{ … }`.
    pub fn select(shape: Shape, head: Option<&String>) -> (r: Option<()>)
        ensures
            r is Some <==> (shape == Shape::DottedBraced && head_is(head, "Interface"@)),
    {
        match head {
            Some(h) => if shape == Shape::DottedBraced && same_text(h, "Interface") {
                Some(())
            } else {
                None
            },
            None => None,
        }
    }
}

impl Channel {
    /// The channel shape: `Channel.{ … }`.
    pub fn select(shape: Shape, head: Option<&String>) -> (r: Option<()>)
        ensures
            r is Some <==> (shape == Shape::DottedBraced && head_is(head, "Channel"@)),
    {
        match head {
            Some(h) => if shape == Shape::DottedBraced && same_text(h, "Channel") {
                Some(())
            } else {
                None
            },
            None => None,
        }
    }
}

impl Import {
    /// An import: `path.[ symbols ]`.
    pub fn select(shape: Shape, head: Option<&String>) -> (r: Option<()>)
        ensures
            r is Some <==> (shape == Shape::DottedSquareBracketed && head is Some),
    {
        if shape == Shape::DottedSquareBracketed && head.is_some() {
            Some(())
        } else {
            None
        }
    }
}

/// A section: a headless square-bracketed list.
pub fn select_section(shape: Shape, head: Option<&String>) -> (r: Option<()>)
    ensures
        r is Some <==> (shape == Shape::SquareBracketed && head is None),
{
    if shape == Shape::SquareBracketed && head.is_none() {
        Some(())
    } else {
        None
    }
}

/// An element: a headless bare value.
pub fn select_bare(shape: Shape, head: Option<&String>) -> (r: Option<()>)
    ensures
        r is Some <==> (shape == Shape::Bare && head is None),
{
    if shape == Shape::Bare && head.is_none() {
        Some(())
    } else {
        None
    }
}

/// The five sections: a headless braced list.
pub fn select_sections(shape: Shape, head: Option<&String>) -> (r: Option<()>)
    ensures
        r is Some <==> (shape == Shape::Braced && head is None),
{
    if shape == Shape::Braced && head.is_none() {
        Some(())
    } else {
        None
    }
}

pub open spec fn type_selection(shape: Shape, has_head: bool) -> Option<TypeSelection> {
    match shape {
        Shape::Bare => if !has_head {
            Some(TypeSelection::Typedef)
        } else {
            None
        },
        Shape::DottedBraced => if has_head {
            Some(TypeSelection::Struct)
        } else {
            None
        },
        Shape::DottedSquareBracketed => if has_head {
            Some(TypeSelection::Enum)
        } else {
            None
        },
        _ => None,
    }
}

impl TypeElement {
    /// A typedef is bare; a struct is `Name.{ … }`; an enum is `Name.[ … ]`.
    pub fn select(shape: Shape, head: Option<&String>) -> (r: Option<TypeSelection>)
        ensures
            r == type_selection(shape, head is Some),
    {
        match (shape, head) {
            (Shape::Bare, None) => Some(TypeSelection::Typedef),
            (Shape::DottedBraced, Some(_)) => Some(TypeSelection::Struct),
            (Shape::DottedSquareBracketed, Some(_)) => Some(TypeSelection::Enum),
            _ => None,
        }
    }
}

// ===========================================================================
// Symbols and type references
// ===========================================================================

pub open spec fn ascii_upper(c: char) -> bool {
    'A' <= c <= 'Z'
}

pub open spec fn ascii_lower(c: char) -> bool {
    'a' <= c <= 'z'
}

pub open spec fn ascii_alphanumeric(c: char) -> bool {
    ascii_upper(c) || ascii_lower(c) || ('0' <= c <= '9')
}

/// A symbol: an ASCII capital, then ASCII letters, digits and underscores.
pub open spec fn symbol_ok(s: Seq<char>) -> bool {
    &&& s.len() > 0
    &&& ascii_upper(s[0])
    &&& forall|i: int| 0 <= i < s.len() ==> ascii_alphanumeric(#[trigger] s[i]) || s[i] == '_'
}

/// Check a symbol.
pub fn symbol(value: &String) -> (r: Result<String, InterfaceFault>)
    ensures
        match r {
            Ok(s) => symbol_ok(value@) && s@ == value@,
            Err(e) => !symbol_ok(value@) && e == InterfaceFault::Symbol,
        },
{
    let s = chars_of(value.as_str());
    assert(s@ == value@);
    if s.len() == 0 || !('A' <= s[0] && s[0] <= 'Z') {
        return Err(InterfaceFault::Symbol);
    }
    let mut i: usize = 0;
    while i < s.len()
        invariant
            i <= s@.len(),
            s@ == value@,
            forall|j: int| 0 <= j < i ==> ascii_alphanumeric(#[trigger] s@[j]) || s@[j] == '_',
        decreases s@.len() - i,
    {
        let c = s[i];
        if !(('A' <= c && c <= 'Z') || ('a' <= c && c <= 'z') || ('0' <= c && c <= '9') || c
            == '_') {
            proof {
                assert(!(ascii_alphanumeric(s@[i as int]) || s@[i as int] == '_'));
            }
            return Err(InterfaceFault::Symbol);
        }
        i += 1;
    }
    Ok(copy_text(value))
}

/// The inside of `Vector<…>`, when the text is one.
pub open spec fn vector_inner(s: Seq<char>) -> Option<Seq<char>> {
    if s.len() >= 8 && s.subrange(0, 7) == "Vector<"@ && s[s.len() - 1] == '>' {
        Some(s.subrange(7, s.len() - 1))
    } else {
        None
    }
}

/// A type reference: a symbol, or `Vector<…>` of a non-empty type reference.
pub open spec fn type_reference_check(s: Seq<char>) -> Result<(), InterfaceFault>
    decreases s.len(),
{
    match vector_inner(s) {
        Some(inner) => if inner.len() == 0 {
            Err(InterfaceFault::Member)
        } else {
            type_reference_check(inner)
        },
        None => if symbol_ok(s) {
            Ok(())
        } else {
            Err(InterfaceFault::Symbol)
        },
    }
}

/// Whether a text starts with `Vector<` and ends with `>`.
pub(crate) fn vector_parts(s: &Vec<char>) -> (r: bool)
    ensures
        r == (vector_inner(s@) is Some),
{
    proof {
        reveal_strlit("Vector<");
    }
    if s.len() < 8 {
        return false;
    }
    let ok = s[0] == 'V' && s[1] == 'e' && s[2] == 'c' && s[3] == 't' && s[4] == 'o' && s[5]
        == 'r' && s[6] == '<' && s[s.len() - 1] == '>';
    proof {
        if ok {
            assert(s@.subrange(0, 7) =~= "Vector<"@);
        } else if s@.subrange(0, 7) == "Vector<"@ {
            assert(s@.subrange(0, 7)[0] == 'V');
            assert(s@.subrange(0, 7)[1] == 'e');
            assert(s@.subrange(0, 7)[2] == 'c');
            assert(s@.subrange(0, 7)[3] == 't');
            assert(s@.subrange(0, 7)[4] == 'o');
            assert(s@.subrange(0, 7)[5] == 'r');
            assert(s@.subrange(0, 7)[6] == '<');
        }
    }
    ok
}

/// The characters `from..to` of a text, as a text.
pub(crate) fn text_of_range(s: &Vec<char>, from: usize, to: usize) -> (r: String)
    requires
        from <= to <= s@.len(),
    ensures
        r@ == s@.subrange(from as int, to as int),
{
    let mut out = String::new();
    let mut j = from;
    while j < to
        invariant
            from <= j <= to <= s@.len(),
            out@ == s@.subrange(from as int, j as int),
        decreases to - j,
    {
        push_char(&mut out, s[j]);
        proof {
            assert(s@.subrange(from as int, j + 1) =~= s@.subrange(from as int, j as int).push(
                s@[j as int],
            ));
        }
        j += 1;
    }
    out
}

/// Check a type reference; it reads back as itself.
pub fn type_reference(value: &String) -> (r: Result<String, InterfaceFault>)
    ensures
        match r {
            Ok(s) => type_reference_check(value@) == Ok::<(), InterfaceFault>(()) && s@ == value@,
            Err(e) => type_reference_check(value@) == Err::<(), InterfaceFault>(e),
        },
    decreases value@.len(),
{
    let s = chars_of(value.as_str());
    if vector_parts(&s) {
        if s.len() - 1 == 7 {
            return Err(InterfaceFault::Member);
        }
        let inner = text_of_range(&s, 7, s.len() - 1);
        match type_reference(&inner) {
            Ok(_) => Ok(copy_text(value)),
            Err(e) => Err(e),
        }
    } else {
        match symbol(value) {
            Ok(s) => Ok(s),
            Err(e) => Err(e),
        }
    }
}

/// A type is known: `String`, `Integer`, a declared name, or `Vector<…>` of a known type.
pub open spec fn knows_type(names: Seq<Seq<char>>, value: Seq<char>) -> bool
    decreases value.len(),
{
    ||| value == "String"@
    ||| value == "Integer"@
    ||| names.contains(value)
    ||| match vector_inner(value) {
        Some(inner) => inner.len() > 0 && knows_type(names, inner),
        None => false,
    }
}


/// Whether a type is known (see [`knows_type`]).
pub fn known_type(names: &Vec<String>, value: &String) -> (r: bool)
    ensures
        r == knows_type(texts(names@), value@),
    decreases value@.len(),
{
    proof {
        reveal_strlit("String");
        reveal_strlit("Integer");
    }
    if same_text(value, "String") || same_text(value, "Integer") || contains_text(names, value) {
        return true;
    }
    let s = chars_of(value.as_str());
    if vector_parts(&s) && s.len() - 1 != 7 {
        let inner = text_of_range(&s, 7, s.len() - 1);
        known_type(names, &inner)
    } else {
        false
    }
}

/// Whether one of the texts is `value`.
pub fn contains_text(names: &Vec<String>, value: &String) -> (r: bool)
    ensures
        r == texts(names@).contains(value@),
{
    let mut k: usize = 0;
    while k < names.len()
        invariant
            k <= names@.len(),
            forall|j: int| 0 <= j < k ==> names@[j]@ != value@,
        decreases names@.len() - k,
    {
        if names[k] == *value {
            proof {
                assert(texts(names@)[k as int] == value@);
            }
            return true;
        }
        k += 1;
    }
    proof {
        if texts(names@).contains(value@) {
            let j = choose|j: int| 0 <= j < texts(names@).len() && texts(names@)[j] == value@;
            assert(names@[j]@ == value@);
        }
    }
    false
}

// ===========================================================================
// Checking the whole Interface
// ===========================================================================

pub open spec fn then(a: Result<(), InterfaceFault>, b: Result<(), InterfaceFault>) -> Result<
    (),
    InterfaceFault,
> {
    match a {
        Err(e) => Err(e),
        Ok(()) => b,
    }
}

/// Names from `i` on: each a symbol, none twice.
pub open spec fn names_check(ns: Seq<Seq<char>>, i: int) -> Result<(), InterfaceFault>
    decreases ns.len() - i,
{
    if 0 <= i < ns.len() {
        if !symbol_ok(ns[i]) {
            Err(InterfaceFault::Symbol)
        } else if ns.take(i).contains(ns[i]) {
            Err(InterfaceFault::Duplicate)
        } else {
            names_check(ns, i + 1)
        }
    } else {
        Ok(())
    }
}

/// Operations from `i` on: each named by a symbol, none twice, each payload declared.
pub open spec fn operations_check(
    ops: Seq<Seq<char>>,
    payloads: Seq<Seq<char>>,
    names: Seq<Seq<char>>,
    i: int,
) -> Result<(), InterfaceFault>
    decreases ops.len() - i,
{
    if 0 <= i < ops.len() {
        if !symbol_ok(ops[i]) {
            Err(InterfaceFault::Symbol)
        } else if ops.take(i).contains(ops[i]) {
            Err(InterfaceFault::Duplicate)
        } else if !names.contains(payloads[i]) {
            Err(InterfaceFault::UnknownType)
        } else {
            operations_check(ops, payloads, names, i + 1)
        }
    } else {
        Ok(())
    }
}

pub open spec fn declaration_name(t: TypeElement) -> Seq<char> {
    match t {
        TypeElement::Typedef(v) => v.name@,
        TypeElement::Struct(v) => v.name@,
        TypeElement::Enum(v) => v.name@,
    }
}

pub open spec fn variant_element_name(v: EnumVariantElement) -> Seq<char> {
    match v {
        EnumVariantElement::Data { variant, .. } => variant@,
        EnumVariantElement::Unit { variant } => variant@,
    }
}

pub open spec fn input_operations(s: Seq<InputElement>) -> Seq<Seq<char>> {
    s.map_values(|e: InputElement| e.operation@)
}

pub open spec fn input_payloads(s: Seq<InputElement>) -> Seq<Seq<char>> {
    s.map_values(|e: InputElement| e.payload@)
}

pub open spec fn output_operations(s: Seq<OutputElement>) -> Seq<Seq<char>> {
    s.map_values(|e: OutputElement| e.operation@)
}

pub open spec fn output_payloads(s: Seq<OutputElement>) -> Seq<Seq<char>> {
    s.map_values(|e: OutputElement| e.payload@)
}

pub open spec fn refusal_operations(s: Seq<RefusalElement>) -> Seq<Seq<char>> {
    s.map_values(|e: RefusalElement| e.operation@)
}

pub open spec fn refusal_payloads(s: Seq<RefusalElement>) -> Seq<Seq<char>> {
    s.map_values(|e: RefusalElement| e.payload@)
}

pub open spec fn stream_operations(s: Seq<StreamElement>) -> Seq<Seq<char>> {
    s.map_values(|e: StreamElement| e.operation@)
}

pub open spec fn stream_payloads(s: Seq<StreamElement>) -> Seq<Seq<char>> {
    s.map_values(|e: StreamElement| e.payload@)
}

pub open spec fn variant_element_names(s: Seq<EnumVariantElement>) -> Seq<Seq<char>> {
    s.map_values(|e: EnumVariantElement| variant_element_name(e))
}

/// Every type a declaration refers to is known, and its own names are symbols, none twice.
pub open spec fn declaration_check(t: TypeElement, names: Seq<Seq<char>>) -> Result<
    (),
    InterfaceFault,
> {
    match t {
        TypeElement::Typedef(v) => if !knows_type(names, v.target@) {
            Err(InterfaceFault::UnknownType)
        } else {
            type_reference_check(v.target@)
        },
        TypeElement::Struct(v) => if exists|j: int|
            0 <= j < v.fields@.len() && !knows_type(names, #[trigger] v.fields@[j]@) {
            Err(InterfaceFault::UnknownType)
        } else {
            names_check(texts(v.fields@), 0)
        },
        TypeElement::Enum(v) => if exists|j: int|
            0 <= j < v.variants@.len() && (#[trigger] v.variants@[j] matches EnumVariantElement::Data {
                payload,
                ..
            } && !knows_type(names, payload@)) {
            Err(InterfaceFault::UnknownType)
        } else {
            names_check(variant_element_names(v.variants@), 0)
        },
    }
}

pub open spec fn declarations_check(ts: Seq<TypeElement>, names: Seq<Seq<char>>, i: int) -> Result<
    (),
    InterfaceFault,
>
    decreases ts.len() - i,
{
    if 0 <= i < ts.len() {
        then(declaration_check(ts[i], names), declarations_check(ts, names, i + 1))
    } else {
        Ok(())
    }
}

pub open spec fn declared_names(i: Interface) -> Seq<Seq<char>> {
    i.types.0@.map_values(|t: TypeElement| declaration_name(t))
}

/// The whole Interface checked, in order: declared names, then the operations
/// of each section, then the declarations' references.
pub open spec fn validation(i: Interface) -> Result<(), InterfaceFault> {
    let names = declared_names(i);
    then(
        names_check(names, 0),
        then(
            operations_check(
                input_operations(i.inputs.0@),
                input_payloads(i.inputs.0@),
                names,
                0,
            ),
            then(
                operations_check(
                    output_operations(i.outputs.0@),
                    output_payloads(i.outputs.0@),
                    names,
                    0,
                ),
                then(
                    operations_check(
                        refusal_operations(i.refusals.0@),
                        refusal_payloads(i.refusals.0@),
                        names,
                        0,
                    ),
                    then(
                        operations_check(
                            stream_operations(i.streams.0@),
                            stream_payloads(i.streams.0@),
                            names,
                            0,
                        ),
                        declarations_check(i.types.0@, names, 0),
                    ),
                ),
            ),
        ),
    )
}

/// Whether the `i`-th text occurs before it.
fn seen_before(ns: &Vec<String>, i: usize) -> (r: bool)
    requires
        i < ns@.len(),
    ensures
        r == texts(ns@).take(i as int).contains(texts(ns@)[i as int]),
{
    let ghost t = texts(ns@);
    let mut j: usize = 0;
    while j < i
        invariant
            j <= i < ns@.len(),
            t == texts(ns@),
            forall|k: int| 0 <= k < j ==> t[k] != t[i as int],
        decreases i - j,
    {
        if ns[j] == ns[i] {
            proof {
                assert(t.take(i as int)[j as int] == t[i as int]);
            }
            return true;
        }
        j += 1;
    }
    proof {
        if t.take(i as int).contains(t[i as int]) {
            let k = choose|k: int| 0 <= k < t.take(i as int).len() && t.take(i as int)[k] == t[i as int];
            assert(t[k] == t[i as int]);
        }
    }
    false
}

/// Names: each a symbol, none twice.
fn check_names(ns: &Vec<String>) -> (r: Result<(), InterfaceFault>)
    ensures
        r == names_check(texts(ns@), 0),
{
    let ghost t = texts(ns@);
    let mut i: usize = 0;
    while i < ns.len()
        invariant
            i <= ns@.len(),
            t == texts(ns@),
            t.len() == ns@.len(),
            names_check(t, 0) == names_check(t, i as int),
        decreases ns@.len() - i,
    {
        if let Err(e) = symbol(&ns[i]) {
            return Err(e);
        }
        if seen_before(ns, i) {
            return Err(InterfaceFault::Duplicate);
        }
        i += 1;
    }
    Ok(())
}

/// Operations: each named by a symbol, none twice, each payload declared.
fn check_operations(ops: &Vec<String>, payloads: &Vec<String>, names: &Vec<String>) -> (r: Result<
    (),
    InterfaceFault,
>)
    requires
        ops@.len() == payloads@.len(),
    ensures
        r == operations_check(texts(ops@), texts(payloads@), texts(names@), 0),
{
    let ghost t = texts(ops@);
    let ghost p = texts(payloads@);
    let ghost n = texts(names@);
    let mut i: usize = 0;
    while i < ops.len()
        invariant
            i <= ops@.len(),
            ops@.len() == payloads@.len(),
            t == texts(ops@),
            p == texts(payloads@),
            n == texts(names@),
            t.len() == ops@.len(),
            operations_check(t, p, n, 0) == operations_check(t, p, n, i as int),
        decreases ops@.len() - i,
    {
        if let Err(e) = symbol(&ops[i]) {
            return Err(e);
        }
        if seen_before(ops, i) {
            return Err(InterfaceFault::Duplicate);
        }
        if !contains_text(names, &payloads[i]) {
            return Err(InterfaceFault::UnknownType);
        }
        i += 1;
    }
    Ok(())
}

/// One declaration's references and own names.
#[verifier::loop_isolation(false)]
fn check_declaration(t: &TypeElement, names: &Vec<String>) -> (r: Result<(), InterfaceFault>)
    ensures
        r == declaration_check(*t, texts(names@)),
{
    match t {
        TypeElement::Typedef(v) => {
            if !known_type(names, &v.target) {
                return Err(InterfaceFault::UnknownType);
            }
            match type_reference(&v.target) {
                Ok(_) => Ok(()),
                Err(e) => Err(e),
            }
        },
        TypeElement::Struct(v) => {
            let mut j: usize = 0;
            while j < v.fields.len()
                invariant
                    j <= v.fields@.len(),
                    forall|k: int| 0 <= k < j ==> knows_type(texts(names@), #[trigger] v.fields@[k]@),
                decreases v.fields@.len() - j,
            {
                if !known_type(names, &v.fields[j]) {
                    proof {
                        assert(!knows_type(texts(names@), v.fields@[j as int]@));
                    }
                    return Err(InterfaceFault::UnknownType);
                }
                j += 1;
            }
            assert(!exists|j: int|
                0 <= j < v.fields@.len() && !knows_type(texts(names@), #[trigger] v.fields@[j]@));
            check_names(&v.fields)
        },
        TypeElement::Enum(v) => {
            let mut variant_names: Vec<String> = Vec::new();
            let mut j: usize = 0;
            while j < v.variants.len()
                invariant
                    j <= v.variants@.len(),
                    variant_names@.len() == j,
                    forall|k: int| 0 <= k < j ==> #[trigger] variant_names@[k]@ == variant_element_name(
                        v.variants@[k],
                    ),
                    forall|k: int|
                        0 <= k < j ==> !(#[trigger] v.variants@[k] matches EnumVariantElement::Data {
                            payload,
                            ..
                        } && !knows_type(texts(names@), payload@)),
                decreases v.variants@.len() - j,
            {
                match &v.variants[j] {
                    EnumVariantElement::Data { variant, payload } => {
                        if !known_type(names, payload) {
                            proof {
                                assert(v.variants@[j as int] matches EnumVariantElement::Data {
                                    payload,
                                    ..
                                } && !knows_type(texts(names@), payload@));
                            }
                            return Err(InterfaceFault::UnknownType);
                        }
                        variant_names.push(copy_text(variant));
                    },
                    EnumVariantElement::Unit { variant } => {
                        variant_names.push(copy_text(variant));
                    },
                }
                j += 1;
            }
            proof {
                assert(texts(variant_names@) =~= variant_element_names(v.variants@));
            }
            assert(!exists|j: int|
                0 <= j < v.variants@.len() && (#[trigger] v.variants@[j] matches EnumVariantElement::Data {
                    payload,
                    ..
                } && !knows_type(texts(names@), payload@)));
            check_names(&variant_names)
        },
    }
}

/// The operations and payloads of a section, as two lists.
pub(crate) fn input_parts(s: &Inputs) -> (r: (Vec<String>, Vec<String>))
    ensures
        r.0@.len() == r.1@.len(),
        texts(r.0@) == input_operations(s.0@),
        texts(r.1@) == input_payloads(s.0@),
{
    let mut ops: Vec<String> = Vec::new();
    let mut payloads: Vec<String> = Vec::new();
    let mut i: usize = 0;
    while i < s.0.len()
        invariant
            i <= s.0@.len(),
            ops@.len() == i,
            payloads@.len() == i,
            forall|k: int| 0 <= k < i ==> #[trigger] ops@[k]@ == s.0@[k].operation@,
            forall|k: int| 0 <= k < i ==> #[trigger] payloads@[k]@ == s.0@[k].payload@,
        decreases s.0@.len() - i,
    {
        ops.push(copy_text(&s.0[i].operation));
        payloads.push(copy_text(&s.0[i].payload));
        i += 1;
    }
    proof {
        assert(texts(ops@) =~= input_operations(s.0@));
        assert(texts(payloads@) =~= input_payloads(s.0@));
    }
    (ops, payloads)
}

pub(crate) fn output_parts(s: &Outputs) -> (r: (Vec<String>, Vec<String>))
    ensures
        r.0@.len() == r.1@.len(),
        texts(r.0@) == output_operations(s.0@),
        texts(r.1@) == output_payloads(s.0@),
{
    let mut ops: Vec<String> = Vec::new();
    let mut payloads: Vec<String> = Vec::new();
    let mut i: usize = 0;
    while i < s.0.len()
        invariant
            i <= s.0@.len(),
            ops@.len() == i,
            payloads@.len() == i,
            forall|k: int| 0 <= k < i ==> #[trigger] ops@[k]@ == s.0@[k].operation@,
            forall|k: int| 0 <= k < i ==> #[trigger] payloads@[k]@ == s.0@[k].payload@,
        decreases s.0@.len() - i,
    {
        ops.push(copy_text(&s.0[i].operation));
        payloads.push(copy_text(&s.0[i].payload));
        i += 1;
    }
    proof {
        assert(texts(ops@) =~= output_operations(s.0@));
        assert(texts(payloads@) =~= output_payloads(s.0@));
    }
    (ops, payloads)
}

pub(crate) fn refusal_parts(s: &Refusals) -> (r: (Vec<String>, Vec<String>))
    ensures
        r.0@.len() == r.1@.len(),
        texts(r.0@) == refusal_operations(s.0@),
        texts(r.1@) == refusal_payloads(s.0@),
{
    let mut ops: Vec<String> = Vec::new();
    let mut payloads: Vec<String> = Vec::new();
    let mut i: usize = 0;
    while i < s.0.len()
        invariant
            i <= s.0@.len(),
            ops@.len() == i,
            payloads@.len() == i,
            forall|k: int| 0 <= k < i ==> #[trigger] ops@[k]@ == s.0@[k].operation@,
            forall|k: int| 0 <= k < i ==> #[trigger] payloads@[k]@ == s.0@[k].payload@,
        decreases s.0@.len() - i,
    {
        ops.push(copy_text(&s.0[i].operation));
        payloads.push(copy_text(&s.0[i].payload));
        i += 1;
    }
    proof {
        assert(texts(ops@) =~= refusal_operations(s.0@));
        assert(texts(payloads@) =~= refusal_payloads(s.0@));
    }
    (ops, payloads)
}

pub(crate) fn stream_parts(s: &Streams) -> (r: (Vec<String>, Vec<String>))
    ensures
        r.0@.len() == r.1@.len(),
        texts(r.0@) == stream_operations(s.0@),
        texts(r.1@) == stream_payloads(s.0@),
{
    let mut ops: Vec<String> = Vec::new();
    let mut payloads: Vec<String> = Vec::new();
    let mut i: usize = 0;
    while i < s.0.len()
        invariant
            i <= s.0@.len(),
            ops@.len() == i,
            payloads@.len() == i,
            forall|k: int| 0 <= k < i ==> #[trigger] ops@[k]@ == s.0@[k].operation@,
            forall|k: int| 0 <= k < i ==> #[trigger] payloads@[k]@ == s.0@[k].payload@,
        decreases s.0@.len() - i,
    {
        ops.push(copy_text(&s.0[i].operation));
        payloads.push(copy_text(&s.0[i].payload));
        i += 1;
    }
    proof {
        assert(texts(ops@) =~= stream_operations(s.0@));
        assert(texts(payloads@) =~= stream_payloads(s.0@));
    }
    (ops, payloads)
}

impl Interface {
    /// Check the whole Interface (see [`validation`]).
    #[verifier::loop_isolation(false)]
    pub fn validate(&self) -> (r: Result<(), InterfaceFault>)
        ensures
            r == validation(*self),
    {
        let mut names: Vec<String> = Vec::new();
        let mut i: usize = 0;
        while i < self.types.0.len()
            invariant
                i <= self.types.0@.len(),
                names@.len() == i,
                forall|k: int| 0 <= k < i ==> #[trigger] names@[k]@ == declaration_name(
                    self.types.0@[k],
                ),
            decreases self.types.0@.len() - i,
        {
            let name = match &self.types.0[i] {
                TypeElement::Typedef(v) => copy_text(&v.name),
                TypeElement::Struct(v) => copy_text(&v.name),
                TypeElement::Enum(v) => copy_text(&v.name),
            };
            names.push(name);
            i += 1;
        }
        proof {
            assert(texts(names@) =~= declared_names(*self));
        }
        if let Err(e) = check_names(&names) {
            return Err(e);
        }
        let (ops, payloads) = input_parts(&self.inputs);
        if let Err(e) = check_operations(&ops, &payloads, &names) {
            return Err(e);
        }
        let (ops, payloads) = output_parts(&self.outputs);
        if let Err(e) = check_operations(&ops, &payloads, &names) {
            return Err(e);
        }
        let (ops, payloads) = refusal_parts(&self.refusals);
        if let Err(e) = check_operations(&ops, &payloads, &names) {
            return Err(e);
        }
        let (ops, payloads) = stream_parts(&self.streams);
        if let Err(e) = check_operations(&ops, &payloads, &names) {
            return Err(e);
        }
        let ghost n = texts(names@);
        let mut i: usize = 0;
        while i < self.types.0.len()
            invariant
                i <= self.types.0@.len(),
                n == texts(names@),
                declarations_check(self.types.0@, n, 0) == declarations_check(
                    self.types.0@,
                    n,
                    i as int,
                ),
            decreases self.types.0@.len() - i,
        {
            if let Err(e) = check_declaration(&self.types.0[i], &names) {
                return Err(e);
            }
            i += 1;
        }
        Ok(())
    }
}

/// Operations that pass their check from `i` on are symbols, each named once,
/// each carrying a declared payload.
proof fn lemma_operations_checked(
    ops: Seq<Seq<char>>,
    payloads: Seq<Seq<char>>,
    names: Seq<Seq<char>>,
    i: int,
)
    requires
        0 <= i,
        operations_check(ops, payloads, names, i) is Ok,
    ensures
        forall|k: int|
            i <= k < ops.len() ==> symbol_ok(#[trigger] ops[k]) && !ops.take(k).contains(ops[k])
                && names.contains(payloads[k]),
    decreases ops.len() - i,
{
    if i < ops.len() {
        lemma_operations_checked(ops, payloads, names, i + 1);
    }
}

/// A valid Interface's input operations are symbols, no two of them share a
/// name, and each one's payload is a type the Interface declares.
pub proof fn lemma_valid_inputs(i: Interface)
    requires
        validation(i) is Ok,
    ensures
        forall|k: int| 0 <= k < i.inputs.0@.len() ==> symbol_ok(#[trigger] i.inputs.0@[k].operation@),
        forall|j: int, k: int|
            0 <= j < k < i.inputs.0@.len() ==> #[trigger] i.inputs.0@[j].operation@
                != #[trigger] i.inputs.0@[k].operation@,
        forall|k: int|
            0 <= k < i.inputs.0@.len() ==> exists|d: int|
                0 <= d < i.types.0@.len() && declaration_name(#[trigger] i.types.0@[d])
                    == (#[trigger] i.inputs.0@[k]).payload@,
{
    let names = declared_names(i);
    let ops = input_operations(i.inputs.0@);
    let payloads = input_payloads(i.inputs.0@);
    assert(operations_check(ops, payloads, names, 0) is Ok);
    lemma_operations_checked(ops, payloads, names, 0);
    assert forall|k: int| 0 <= k < i.inputs.0@.len() implies symbol_ok(
        #[trigger] i.inputs.0@[k].operation@,
    ) by {
        assert(ops[k] == i.inputs.0@[k].operation@);
    }
    assert forall|j: int, k: int| 0 <= j < k < i.inputs.0@.len() implies #[trigger] i.inputs.0@[j].operation@
        != #[trigger] i.inputs.0@[k].operation@ by {
        assert(ops[j] == i.inputs.0@[j].operation@);
        assert(ops[k] == i.inputs.0@[k].operation@);
        assert(!ops.take(k).contains(ops[k]));
        if ops[j] == ops[k] {
            assert(ops.take(k)[j] == ops[k]);
        }
    }
    assert forall|k: int| 0 <= k < i.inputs.0@.len() implies exists|d: int|
        0 <= d < i.types.0@.len() && declaration_name(#[trigger] i.types.0@[d])
            == (#[trigger] i.inputs.0@[k]).payload@ by {
        assert(ops[k] == i.inputs.0@[k].operation@);
        assert(names.contains(payloads[k]));
        let d = choose|d: int| 0 <= d < names.len() && names[d] == payloads[k];
        assert(names[d] == declaration_name(i.types.0@[d]));
        assert(payloads[k] == i.inputs.0@[k].payload@);
    }
}

/// A valid Interface's output operations are symbols, no two of them share a
/// name, and each one's payload is a type the Interface declares.
pub proof fn lemma_valid_outputs(i: Interface)
    requires
        validation(i) is Ok,
    ensures
        forall|k: int| 0 <= k < i.outputs.0@.len() ==> symbol_ok(#[trigger] i.outputs.0@[k].operation@),
        forall|j: int, k: int|
            0 <= j < k < i.outputs.0@.len() ==> #[trigger] i.outputs.0@[j].operation@
                != #[trigger] i.outputs.0@[k].operation@,
        forall|k: int|
            0 <= k < i.outputs.0@.len() ==> exists|d: int|
                0 <= d < i.types.0@.len() && declaration_name(#[trigger] i.types.0@[d])
                    == (#[trigger] i.outputs.0@[k]).payload@,
{
    let names = declared_names(i);
    let ops = output_operations(i.outputs.0@);
    let payloads = output_payloads(i.outputs.0@);
    assert(operations_check(ops, payloads, names, 0) is Ok);
    lemma_operations_checked(ops, payloads, names, 0);
    assert forall|k: int| 0 <= k < i.outputs.0@.len() implies symbol_ok(
        #[trigger] i.outputs.0@[k].operation@,
    ) by {
        assert(ops[k] == i.outputs.0@[k].operation@);
    }
    assert forall|j: int, k: int| 0 <= j < k < i.outputs.0@.len() implies #[trigger] i.outputs.0@[j].operation@
        != #[trigger] i.outputs.0@[k].operation@ by {
        assert(ops[j] == i.outputs.0@[j].operation@);
        assert(ops[k] == i.outputs.0@[k].operation@);
        assert(!ops.take(k).contains(ops[k]));
        if ops[j] == ops[k] {
            assert(ops.take(k)[j] == ops[k]);
        }
    }
    assert forall|k: int| 0 <= k < i.outputs.0@.len() implies exists|d: int|
        0 <= d < i.types.0@.len() && declaration_name(#[trigger] i.types.0@[d])
            == (#[trigger] i.outputs.0@[k]).payload@ by {
        assert(ops[k] == i.outputs.0@[k].operation@);
        assert(names.contains(payloads[k]));
        let d = choose|d: int| 0 <= d < names.len() && names[d] == payloads[k];
        assert(names[d] == declaration_name(i.types.0@[d]));
        assert(payloads[k] == i.outputs.0@[k].payload@);
    }
}

/// A valid Interface's refusal operations are symbols, no two of them share a
/// name, and each one's payload is a type the Interface declares.
pub proof fn lemma_valid_refusals(i: Interface)
    requires
        validation(i) is Ok,
    ensures
        forall|k: int| 0 <= k < i.refusals.0@.len() ==> symbol_ok(#[trigger] i.refusals.0@[k].operation@),
        forall|j: int, k: int|
            0 <= j < k < i.refusals.0@.len() ==> #[trigger] i.refusals.0@[j].operation@
                != #[trigger] i.refusals.0@[k].operation@,
        forall|k: int|
            0 <= k < i.refusals.0@.len() ==> exists|d: int|
                0 <= d < i.types.0@.len() && declaration_name(#[trigger] i.types.0@[d])
                    == (#[trigger] i.refusals.0@[k]).payload@,
{
    let names = declared_names(i);
    let ops = refusal_operations(i.refusals.0@);
    let payloads = refusal_payloads(i.refusals.0@);
    assert(operations_check(ops, payloads, names, 0) is Ok);
    lemma_operations_checked(ops, payloads, names, 0);
    assert forall|k: int| 0 <= k < i.refusals.0@.len() implies symbol_ok(
        #[trigger] i.refusals.0@[k].operation@,
    ) by {
        assert(ops[k] == i.refusals.0@[k].operation@);
    }
    assert forall|j: int, k: int| 0 <= j < k < i.refusals.0@.len() implies #[trigger] i.refusals.0@[j].operation@
        != #[trigger] i.refusals.0@[k].operation@ by {
        assert(ops[j] == i.refusals.0@[j].operation@);
        assert(ops[k] == i.refusals.0@[k].operation@);
        assert(!ops.take(k).contains(ops[k]));
        if ops[j] == ops[k] {
            assert(ops.take(k)[j] == ops[k]);
        }
    }
    assert forall|k: int| 0 <= k < i.refusals.0@.len() implies exists|d: int|
        0 <= d < i.types.0@.len() && declaration_name(#[trigger] i.types.0@[d])
            == (#[trigger] i.refusals.0@[k]).payload@ by {
        assert(ops[k] == i.refusals.0@[k].operation@);
        assert(names.contains(payloads[k]));
        let d = choose|d: int| 0 <= d < names.len() && names[d] == payloads[k];
        assert(names[d] == declaration_name(i.types.0@[d]));
        assert(payloads[k] == i.refusals.0@[k].payload@);
    }
}

/// A valid Interface's stream operations are symbols, no two of them share a
/// name, and each one's payload is a type the Interface declares.
pub proof fn lemma_valid_streams(i: Interface)
    requires
        validation(i) is Ok,
    ensures
        forall|k: int| 0 <= k < i.streams.0@.len() ==> symbol_ok(#[trigger] i.streams.0@[k].operation@),
        forall|j: int, k: int|
            0 <= j < k < i.streams.0@.len() ==> #[trigger] i.streams.0@[j].operation@
                != #[trigger] i.streams.0@[k].operation@,
        forall|k: int|
            0 <= k < i.streams.0@.len() ==> exists|d: int|
                0 <= d < i.types.0@.len() && declaration_name(#[trigger] i.types.0@[d])
                    == (#[trigger] i.streams.0@[k]).payload@,
{
    let names = declared_names(i);
    let ops = stream_operations(i.streams.0@);
    let payloads = stream_payloads(i.streams.0@);
    assert(operations_check(ops, payloads, names, 0) is Ok);
    lemma_operations_checked(ops, payloads, names, 0);
    assert forall|k: int| 0 <= k < i.streams.0@.len() implies symbol_ok(
        #[trigger] i.streams.0@[k].operation@,
    ) by {
        assert(ops[k] == i.streams.0@[k].operation@);
    }
    assert forall|j: int, k: int| 0 <= j < k < i.streams.0@.len() implies #[trigger] i.streams.0@[j].operation@
        != #[trigger] i.streams.0@[k].operation@ by {
        assert(ops[j] == i.streams.0@[j].operation@);
        assert(ops[k] == i.streams.0@[k].operation@);
        assert(!ops.take(k).contains(ops[k]));
        if ops[j] == ops[k] {
            assert(ops.take(k)[j] == ops[k]);
        }
    }
    assert forall|k: int| 0 <= k < i.streams.0@.len() implies exists|d: int|
        0 <= d < i.types.0@.len() && declaration_name(#[trigger] i.types.0@[d])
            == (#[trigger] i.streams.0@[k]).payload@ by {
        assert(ops[k] == i.streams.0@[k].operation@);
        assert(names.contains(payloads[k]));
        let d = choose|d: int| 0 <= d < names.len() && names[d] == payloads[k];
        assert(names[d] == declaration_name(i.types.0@[d]));
        assert(payloads[k] == i.streams.0@[k].payload@);
    }
}

} // verus!

