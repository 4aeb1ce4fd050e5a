//! Projection of a checked Interface to Rust: the fixture's Rust artifact,
//! and, for an Interface with a channel, a complete Signal module.

use vstd::prelude::*;
use crate::canonical::{chars_of, push_char};
use crate::text::copy_text;
use crate::concept::texts;
use crate::generation::{decimal, put, put_text};
use crate::emission::dec;
use crate::artifact::GeneratedArtifact;
use crate::fixture::{
    ascii_lower, ascii_upper, EnumVariantElement, InputElement, Interface, InterfaceFault,
    NamedEnum, NamedStruct, NamedTypedef, OutputElement, RefusalElement, StreamElement,
    TypeElement, input_operations, input_payloads, output_operations, output_payloads,
    refusal_operations, refusal_payloads, stream_operations, stream_payloads, validation,
    vector_inner, input_parts, output_parts, refusal_parts, stream_parts, text_of_range,
    vector_parts, Shape,
};

verus! {

// ===========================================================================
// Rust names
// ===========================================================================

/// The Rust type a type reference names: `String`, `i64` for `Integer`,
/// `Vec<…>` for `Vector<…>`, any other name as itself.
pub open spec fn rust_type_text(s: Seq<char>) -> Seq<char>
    decreases s.len(),
{
    if s == "String"@ {
        "String"@
    } else if s == "Integer"@ {
        "i64"@
    } else {
        match vector_inner(s) {
            Some(inner) => "Vec<"@ + rust_type_text(inner) + ">"@,
            None => s,
        }
    }
}

/// The snake-case field name of a type name, read from position `i` on with
/// `out` written so far: an underscore is kept once, a capital that begins a
/// word is lowered after an underscore.
pub open spec fn field_name_from(s: Seq<char>, i: int, out: Seq<char>) -> Seq<char>
    decreases s.len() - i,
{
    if 0 <= i < s.len() {
        let c = s[i];
        if c == '_' {
            field_name_from(
                s,
                i + 1,
                if out.len() > 0 && out[out.len() - 1] == '_' {
                    out
                } else {
                    out.push('_')
                },
            )
        } else if ascii_upper(c) {
            let previous_lower = i > 0 && ascii_lower(s[i - 1]);
            let next_lower = i + 1 < s.len() && ascii_lower(s[i + 1]);
            let split = out.len() > 0 && out[out.len() - 1] != '_' && (previous_lower
                || next_lower);
            let out1 = if split {
                out.push('_')
            } else {
                out
            };
            field_name_from(s, i + 1, out1.push((((c as u32) + 32) as u8) as char))
        } else {
            field_name_from(s, i + 1, out.push(c))
        }
    } else {
        out
    }
}

pub open spec fn field_name_text(s: Seq<char>) -> Seq<char> {
    field_name_from(s, 0, Seq::empty())
}

/// A field name as the snake-casing leaves it: no capital, no two
/// underscores in a row.
pub open spec fn tidy(t: Seq<char>) -> bool {
    &&& forall|j: int| 0 <= j < t.len() ==> !ascii_upper(#[trigger] t[j])
    &&& forall|j: int| 0 < j < t.len() ==> !(t[j - 1] == '_' && #[trigger] t[j] == '_')
}

proof fn lemma_tidy_push(t: Seq<char>, c: char)
    requires
        tidy(t),
        !ascii_upper(c),
        c == '_' ==> !(t.len() > 0 && t[t.len() - 1] == '_'),
    ensures
        tidy(t.push(c)),
{
    let u = t.push(c);
    assert forall|j: int| 0 < j < u.len() implies !(u[j - 1] == '_' && #[trigger] u[j] == '_') by {
        if j < t.len() {
            assert(u[j - 1] == t[j - 1] && u[j] == t[j]);
        }
    }
    assert forall|j: int| 0 <= j < u.len() implies !ascii_upper(#[trigger] u[j]) by {
        if j < t.len() {
            assert(u[j] == t[j]);
        }
    }
}

/// Snake-casing onto a tidy start gives a tidy name.
proof fn lemma_field_name_tidy(s: Seq<char>, i: int, out: Seq<char>)
    requires
        0 <= i <= s.len(),
        tidy(out),
    ensures
        tidy(field_name_from(s, i, out)),
    decreases s.len() - i,
{
    if i < s.len() {
        let c = s[i];
        if c == '_' {
            if out.len() > 0 && out[out.len() - 1] == '_' {
                lemma_field_name_tidy(s, i + 1, out);
            } else {
                lemma_tidy_push(out, '_');
                lemma_field_name_tidy(s, i + 1, out.push('_'));
            }
        } else if ascii_upper(c) {
            let previous_lower = i > 0 && ascii_lower(s[i - 1]);
            let next_lower = i + 1 < s.len() && ascii_lower(s[i + 1]);
            let split = out.len() > 0 && out[out.len() - 1] != '_' && (previous_lower
                || next_lower);
            let out1 = if split {
                out.push('_')
            } else {
                out
            };
            if split {
                lemma_tidy_push(out, '_');
            }
            let lowered = (((c as u32) + 32) as u8) as char;
            assert(97 <= (c as u32) + 32 <= 122);
            assert(lowered as u32 == (c as u32) + 32);
            lemma_tidy_push(out1, lowered);
            lemma_field_name_tidy(s, i + 1, out1.push(lowered));
        } else {
            lemma_tidy_push(out, c);
            lemma_field_name_tidy(s, i + 1, out.push(c));
        }
    }
}

/// A tidy name read on from any point, with what precedes it written, is
/// written out unchanged.
proof fn lemma_field_name_of_tidy(t: Seq<char>, i: int)
    requires
        0 <= i <= t.len(),
        tidy(t),
    ensures
        field_name_from(t, i, t.take(i)) == t,
    decreases t.len() - i,
{
    if i < t.len() {
        let c = t[i];
        assert(!ascii_upper(c));
        assert(t.take(i).push(c) =~= t.take(i + 1));
        if c == '_' {
            if i > 0 {
                assert(!(t[i - 1] == '_' && t[i] == '_'));
                assert(t.take(i)[i - 1] == t[i - 1]);
            }
        }
        lemma_field_name_of_tidy(t, i + 1);
    } else {
        assert(t.take(i) =~= t);
    }
}

/// Snake-casing is a fixed point: the field name of a field name is itself.
pub proof fn lemma_field_name_fixed_point(s: Seq<char>)
    ensures
        field_name_text(field_name_text(s)) == field_name_text(s),
{
    let t = field_name_text(s);
    lemma_field_name_tidy(s, 0, Seq::empty());
    lemma_field_name_of_tidy(t, 0);
    assert(t.take(0) =~= Seq::<char>::empty());
}

/// The Rust type a type reference names (see [`rust_type_text`]).
#[verifier::rlimit(40)]
#[verifier::spinoff_prover]
pub fn rust_type_name(value: &String) -> (r: String)
    ensures
        r@ == rust_type_text(value@),
    decreases value@.len(),
{
    proof {
        reveal_strlit("String");
        reveal_strlit("Integer");
        reveal_strlit("i64");
        reveal_strlit("Vec<");
        reveal_strlit(">");
    }
    if crate::text::same_text(value, "String") {
        return String::from_str("String");
    }
    if crate::text::same_text(value, "Integer") {
        return String::from_str("i64");
    }
    let s = chars_of(value.as_str());
    if vector_parts(&s) {
        let inner = text_of_range(&s, 7, s.len() - 1);
        let mut out = String::from_str("Vec<");
        let t = rust_type_name(&inner);
        put_text(&mut out, &t);
        put(&mut out, ">");
        out
    } else {
        copy_text(value)
    }
}

/// The snake-case field name of a type name (see [`field_name_text`]).
#[verifier::rlimit(40)]
#[verifier::spinoff_prover]
pub fn rust_field_name(value: &String) -> (r: String)
    ensures
        r@ == field_name_text(value@),
{
    let s = chars_of(value.as_str());
    let mut out = String::new();
    let mut last: Option<char> = None;
    let mut i: usize = 0;
    while i < s.len()
        invariant
            i <= s@.len(),
            s@ == value@,
            field_name_from(s@, 0, Seq::empty()) == field_name_from(s@, i as int, out@),
            last == (if out@.len() > 0 {
                Some(out@[out@.len() - 1])
            } else {
                None
            }),
        decreases s@.len() - i,
    {
        let c = s[i];
        if c == '_' {
            if last != Some('_') {
                push_char(&mut out, '_');
                last = Some('_');
            }
        } else if 'A' <= c && c <= 'Z' {
            let previous_lower = i > 0 && 'a' <= s[i - 1] && s[i - 1] <= 'z';
            let next_lower = i + 1 < s.len() && 'a' <= s[i + 1] && s[i + 1] <= 'z';
            let split = match last {
                Some(l) => l != '_' && (previous_lower || next_lower),
                None => false,
            };
            if split {
                push_char(&mut out, '_');
            }
            let lower = (((c as u32) + 32) as u8) as char;
            push_char(&mut out, lower);
            last = Some(lower);
        } else {
            push_char(&mut out, c);
            last = Some(c);
        }
        i += 1;
    }
    out
}

/// One line per operation from `i` on: the lead, then `Operation(Payload),`.
pub open spec fn lines_with(lead: Seq<char>, ops: Seq<Seq<char>>, payloads: Seq<Seq<char>>, i: int) -> Seq<
    char,
>
    decreases ops.len() - i,
{
    if 0 <= i < ops.len() {
        lead + ops[i] + "("@ + payloads[i] + "),\n"@ + lines_with(lead, ops, payloads, i + 1)
    } else {
        Seq::empty()
    }
}

pub open spec fn operation_lines(ops: Seq<Seq<char>>, payloads: Seq<Seq<char>>, i: int) -> Seq<char> {
    lines_with("    "@, ops, payloads, i)
}

pub open spec fn struct_field_lines(fields: Seq<String>, i: int) -> Seq<char>
    decreases fields.len() - i,
{
    if 0 <= i < fields.len() {
        "    pub "@ + field_name_text(fields[i]@) + ": "@ + fields[i]@ + ",\n"@ + struct_field_lines(fields, i + 1)
    } else {
        Seq::empty()
    }
}

pub open spec fn enum_line(v: EnumVariantElement) -> Seq<char> {
    "    "@ + match v {
        EnumVariantElement::Data { variant, payload } => variant@ + "("@ + payload@ + "),\n"@,
        EnumVariantElement::Unit { variant } => variant@ + ",\n"@,
    }
}

pub open spec fn enum_lines(variants: Seq<EnumVariantElement>, i: int) -> Seq<char>
    decreases variants.len() - i,
{
    if 0 <= i < variants.len() {
        enum_line(variants[i]) + enum_lines(variants, i + 1)
    } else {
        Seq::empty()
    }
}

pub open spec fn typedef_rust(t: NamedTypedef) -> Seq<char> {
    "pub struct "@ + t.name@ + "(pub "@ + rust_type_text(t.target@) + ");\n\n"@
}

pub open spec fn struct_rust(s: NamedStruct) -> Seq<char> {
    "pub struct "@ + s.name@ + " {\n"@ + struct_field_lines(s.fields@, 0) + "}\n\n"@
}

pub open spec fn enum_rust(e: NamedEnum) -> Seq<char> {
    "pub enum "@ + e.name@ + " {\n"@ + enum_lines(e.variants@, 0) + "}\n\n"@
}

pub open spec fn declaration_rust(t: TypeElement) -> Seq<char> {
    match t {
        TypeElement::Typedef(v) => typedef_rust(v),
        TypeElement::Struct(v) => struct_rust(v),
        TypeElement::Enum(v) => enum_rust(v),
    }
}

pub open spec fn declarations_rust(ts: Seq<TypeElement>, i: int) -> Seq<char>
    decreases ts.len() - i,
{
    if 0 <= i < ts.len() {
        declaration_rust(ts[i]) + declarations_rust(ts, i + 1)
    } else {
        Seq::empty()
    }
}

pub open spec fn generated_header() -> Seq<char> {
    "// @generated by ethos-monolith from Ethos source\n\n"@
}

/// The fixture's Rust artifact before its last newline is dropped.
pub open spec fn rust_source_full(i: Interface) -> Seq<char> {
    generated_header() + "pub enum Input {\n"@ + operation_lines(
        input_operations(i.inputs.0@),
        input_payloads(i.inputs.0@),
        0,
    ) + "}\n\n"@ + "pub enum Output {\n"@ + operation_lines(
        output_operations(i.outputs.0@),
        output_payloads(i.outputs.0@),
        0,
    ) + "}\n\n"@ + "pub enum Refusal {\n"@ + operation_lines(
        refusal_operations(i.refusals.0@),
        refusal_payloads(i.refusals.0@),
        0,
    ) + "}\n\n"@ + "pub enum Stream {\n"@ + operation_lines(
        stream_operations(i.streams.0@),
        stream_payloads(i.streams.0@),
        0,
    ) + "}\n\n"@ + declarations_rust(i.types.0@, 0)
}

/// A text that ends in a blank line loses its last newline.
pub open spec fn trimmed(s: Seq<char>) -> Seq<char> {
    if s.len() >= 2 && s[s.len() - 1] == '\n' && s[s.len() - 2] == '\n' {
        s.drop_last()
    } else {
        s
    }
}

/// The fixture's Rust artifact.
pub open spec fn rust_source_text(i: Interface) -> Seq<char> {
    trimmed(rust_source_full(i))
}

// ===========================================================================
// Dotos impls and derives
// ===========================================================================

pub open spec fn typedef_dotos(t: NamedTypedef) -> Seq<char> {
    "impl ::dotos::DotosEncode for "@ + t.name@ + " {\n    fn to_dotos(&self) -> String {\n        format!(\""@ + t.name@ + ".{}\", <"@ + rust_type_text(t.target@) + " as ::dotos::DotosEncode>::to_dotos(&self.0))\n    }\n}\n\nimpl ::dotos::DotosDecode for "@ + t.name@ + " {\n    fn from_dotos_block(block: &::dotos::Block) -> Result<Self, ::dotos::DotosDecodeError> {\n        let (head, payload) = block.as_application().ok_or(::dotos::DotosDecodeError::ExpectedDelimited {\n            type_name: \""@ + t.name@ + "\",\n            delimiter: \"named dotted application\",\n        })?;\n        let head = head.demote_to_string().ok_or(::dotos::DotosDecodeError::ExpectedAtom { type_name: \"named type head\" })?;\n        if head != \""@ + t.name@ + "\" {\n            return Err(::dotos::DotosDecodeError::UnknownVariant { enum_name: \""@ + t.name@ + "\", variant: head.to_owned() });\n        }\n        Ok(Self(<"@ + rust_type_text(t.target@) + " as ::dotos::DotosDecode>::from_dotos_block(payload)?))\n    }\n}\n\nimpl ::dotos::DotosBodyEncode for "@ + t.name@ + " {\n    fn to_dotos_body(&self) -> ::dotos::DotosBodyEncoding {\n        ::dotos::DotosBodyEncoding::new(vec![::dotos::DotosEncode::to_dotos(self)])\n    }\n}\n\nimpl ::dotos::DotosBodyDecode for "@ + t.name@ + " {\n    fn from_dotos_body(body: &::dotos::DotosBody<'_>) -> Result<Self, ::dotos::DotosDecodeError> {\n        let fields = body.expect_fields(\""@ + t.name@ + "\", 1)?;\n        <Self as ::dotos::DotosDecode>::from_dotos_block(&fields[0])\n    }\n}\n\n"@
}

pub open spec fn struct_encode_lines(fields: Seq<String>, i: int) -> Seq<char>
    decreases fields.len() - i,
{
    if 0 <= i < fields.len() {
        "            ::dotos::DotosEncode::to_dotos(&self."@ + field_name_text(fields[i]@) + "),\n"@ + struct_encode_lines(fields, i + 1)
    } else {
        Seq::empty()
    }
}

pub open spec fn struct_decode_lines(fields: Seq<String>, i: int) -> Seq<char>
    decreases fields.len() - i,
{
    if 0 <= i < fields.len() {
        "            "@ + field_name_text(fields[i]@) + ": <"@ + rust_type_text(fields[i]@) + " as ::dotos::DotosDecode>::from_dotos_block(&fields["@ + dec(i as nat) + "])?,\n"@ + struct_decode_lines(fields, i + 1)
    } else {
        Seq::empty()
    }
}

pub open spec fn struct_dotos(s: NamedStruct) -> Seq<char> {
    "impl ::dotos::DotosBodyEncode for "@ + s.name@ + " {\n    fn to_dotos_body(&self) -> ::dotos::DotosBodyEncoding {\n        ::dotos::DotosBodyEncoding::new(vec![\n"@ + struct_encode_lines(s.fields@, 0) + "        ])\n    }\n}\n\nimpl ::dotos::DotosEncode for "@ + s.name@ + " {\n    fn to_dotos(&self) -> String {\n        format!(\""@ + s.name@ + ".{}\", <Self as ::dotos::DotosBodyEncode>::to_dotos_body(self).to_delimited_dotos(::dotos::Delimiter::Brace))\n    }\n}\n\nimpl ::dotos::DotosDecode for "@ + s.name@ + " {\n    fn from_dotos_block(block: &::dotos::Block) -> Result<Self, ::dotos::DotosDecodeError> {\n        let (head, payload) = block.as_application().ok_or(::dotos::DotosDecodeError::ExpectedDelimited {\n            type_name: \""@ + s.name@ + "\",\n            delimiter: \"named dotted application\",\n        })?;\n        let head = head.demote_to_string().ok_or(::dotos::DotosDecodeError::ExpectedAtom { type_name: \"named type head\" })?;\n        if head != \""@ + s.name@ + "\" {\n            return Err(::dotos::DotosDecodeError::UnknownVariant { enum_name: \""@ + s.name@ + "\", variant: head.to_owned() });\n        }\n        let body = ::dotos::DotosBlock::new(payload).expect_body(::dotos::Delimiter::Brace, \""@ + s.name@ + "\")?;\n        <Self as ::dotos::DotosBodyDecode>::from_dotos_body(&body)\n    }\n}\n\nimpl ::dotos::DotosBodyDecode for "@ + s.name@ + " {\n    fn from_dotos_body(body: &::dotos::DotosBody<'_>) -> Result<Self, ::dotos::DotosDecodeError> {\n        let fields = body.expect_fields(\""@ + s.name@ + "\", "@ + dec(s.fields@.len()) + ")?;\n        Ok(Self {\n"@ + struct_decode_lines(s.fields@, 0) + "        })\n    }\n}\n\n"@
}

pub open spec fn structural_derive() -> Seq<char> {
    "#[derive(Archive, RkyvSerialize, RkyvDeserialize, Debug, Clone, PartialEq, Eq)]\n"@
}

pub open spec fn dotos_derive() -> Seq<char> {
    "#[derive(Archive, RkyvSerialize, RkyvDeserialize, ::dotos::DotosEncode, ::dotos::DotosDecode, Debug, Clone, PartialEq, Eq)]\n"@
}

/// A declaration with its derives, and, for a typedef or struct, its dotos impls.
pub open spec fn declaration_derived(t: TypeElement) -> Seq<char> {
    match t {
        TypeElement::Typedef(v) => structural_derive() + typedef_rust(v) + typedef_dotos(v),
        TypeElement::Struct(v) => structural_derive() + struct_rust(v) + struct_dotos(v),
        TypeElement::Enum(v) => dotos_derive() + enum_rust(v),
    }
}

pub open spec fn declarations_derived(ts: Seq<TypeElement>, i: int) -> Seq<char>
    decreases ts.len() - i,
{
    if 0 <= i < ts.len() {
        declaration_derived(ts[i]) + declarations_derived(ts, i + 1)
    } else {
        Seq::empty()
    }
}

pub open spec fn channel_operations(ops: Seq<Seq<char>>, payloads: Seq<Seq<char>>, i: int) -> Seq<
    char,
> {
    lines_with("        operation "@, ops, payloads, i)
}

pub open spec fn reply_operations(ops: Seq<Seq<char>>, payloads: Seq<Seq<char>>, i: int) -> Seq<
    char,
> {
    lines_with("        "@, ops, payloads, i)
}

/// The Signal module of an Interface bound to a channel.
pub open spec fn signal_text(i: Interface, c: crate::fixture::Channel) -> Seq<char> {
    let wire = c.name@ + "Wire"@;
    let reply = c.name@ + "Reply"@;
    let request = c.name@ + "Request"@;
    generated_header() + "use core::num::{NonZeroU16, NonZeroU32};\nuse rkyv::{Archive, Deserialize as RkyvDeserialize, Serialize as RkyvSerialize};\nuse signal_frame::{signal_channel, ContractBinding, ContractId, WireContract, WireRevision};\n\n#[derive(Debug, Clone, Copy, PartialEq, Eq)]\npub enum "@ + wire + " {}\n\nimpl WireContract for "@ + wire + " {\n    const BINDING: ContractBinding = ContractBinding::new(\n        ContractId::new(NonZeroU32::new("@ + dec(c.contract_id as nat) + ").expect(\"Ethos Channel contract id is nonzero\")),\n        WireRevision::new(NonZeroU16::new("@ + dec(c.wire_revision as nat) + ").expect(\"Ethos Channel wire revision is nonzero\")),\n    );\n}\n\n"@ + declarations_derived(i.types.0@, 0) + (if i.refusals.0@.len() > 0 {
        "#[derive(Archive, RkyvSerialize, RkyvDeserialize, ::dotos::DotosEncode, ::dotos::DotosDecode, Debug, Clone, PartialEq, Eq)]\npub enum Refusal {\n"@ + operation_lines(refusal_operations(i.refusals.0@), refusal_payloads(i.refusals.0@), 0) + "}\n\n"@
    } else {
        Seq::empty()
    }) + (if i.streams.0@.len() > 0 {
        "#[derive(Archive, RkyvSerialize, RkyvDeserialize, ::dotos::DotosEncode, ::dotos::DotosDecode, Debug, Clone, PartialEq, Eq)]\npub enum Stream {\n"@ + operation_lines(stream_operations(i.streams.0@), stream_payloads(i.streams.0@), 0) + "}\n\n"@
    } else {
        Seq::empty()
    }) + "signal_channel! {\n    channel "@ + c.name@ + " contract "@ + wire + " {\n"@ + channel_operations(input_operations(i.inputs.0@), input_payloads(i.inputs.0@), 0) + "    }\n    reply "@ + reply + " {\n"@ + reply_operations(output_operations(i.outputs.0@), output_payloads(i.outputs.0@), 0) + "    }\n}\n\npub type "@ + request + " = Operation;\n"@
}


// ===========================================================================
// Writing Rust
// ===========================================================================

/// One line per operation: the lead, then `Operation(Payload),`.
#[verifier::rlimit(40)]
#[verifier::spinoff_prover]
fn write_lines(lead: &str, ops: &Vec<String>, payloads: &Vec<String>, out: &mut String)
    requires
        ops@.len() == payloads@.len(),
    ensures
        final(out)@ == old(out)@ + lines_with(lead@, texts(ops@), texts(payloads@), 0),
{
    let ghost o = texts(ops@);
    let ghost p = texts(payloads@);
    let ghost start = out@;
    let ghost mut done = Seq::<char>::empty();
    let mut i: usize = 0;
    while i < ops.len()
        invariant
            i <= ops@.len(),
            ops@.len() == payloads@.len(),
            o == texts(ops@),
            p == texts(payloads@),
            lines_with(lead@, o, p, 0) == done + lines_with(lead@, o, p, i as int),
            out@ == start + done,
        decreases ops@.len() - i,
    {
        let ghost b = out@;
        put(out, lead);
        put_text(out, &ops[i]);
        put(out, "(");
        put_text(out, &payloads[i]);
        put(out, "),\n");
        proof {
            let piece = lead@ + o[i as int] + "("@ + p[i as int] + "),\n"@;
            assert(out@ =~= b + piece);
            assert(done + piece + lines_with(lead@, o, p, i + 1) =~= done + (piece + lines_with(
                lead@,
                o,
                p,
                i + 1,
            )));
            done = done + piece;
        }
        i += 1;
    }
}

impl InputElement {
    pub fn write_rust(&self, output: &mut String) -> (r: Result<(), InterfaceFault>)
        ensures
            r is Ok,
            final(output)@ == old(output)@ + "    "@ + self.operation@ + "("@ + self.payload@ + "),\n"@,
    {
        put(output, "    ");
        put_text(output, &self.operation);
        put(output, "(");
        put_text(output, &self.payload);
        put(output, "),\n");
        Ok(())
    }
}

impl OutputElement {
    pub fn write_rust(&self, output: &mut String) -> (r: Result<(), InterfaceFault>)
        ensures
            r is Ok,
            final(output)@ == old(output)@ + "    "@ + self.operation@ + "("@ + self.payload@ + "),\n"@,
    {
        put(output, "    ");
        put_text(output, &self.operation);
        put(output, "(");
        put_text(output, &self.payload);
        put(output, "),\n");
        Ok(())
    }
}

impl RefusalElement {
    pub fn write_rust(&self, output: &mut String) -> (r: Result<(), InterfaceFault>)
        ensures
            r is Ok,
            final(output)@ == old(output)@ + "    "@ + self.operation@ + "("@ + self.payload@ + "),\n"@,
    {
        put(output, "    ");
        put_text(output, &self.operation);
        put(output, "(");
        put_text(output, &self.payload);
        put(output, "),\n");
        Ok(())
    }
}

impl StreamElement {
    pub fn write_rust(&self, output: &mut String) -> (r: Result<(), InterfaceFault>)
        ensures
            r is Ok,
            final(output)@ == old(output)@ + "    "@ + self.operation@ + "("@ + self.payload@ + "),\n"@,
    {
        put(output, "    ");
        put_text(output, &self.operation);
        put(output, "(");
        put_text(output, &self.payload);
        put(output, "),\n");
        Ok(())
    }
}

impl NamedTypedef {
    /// `pub struct Name(pub Target);`.
    pub fn write_rust(&self, output: &mut String) -> (r: Result<(), InterfaceFault>)
        ensures
            r is Ok,
            final(output)@ == old(output)@ + typedef_rust(*self),
    {
        let ghost before = output@;
        put(output, "pub struct ");
        put_text(output, &self.name);
        put(output, "(pub ");
        let t = rust_type_name(&self.target);
        put_text(output, &t);
        put(output, ");\n\n");
        assert(output@ =~= before + typedef_rust(*self));
        Ok(())
    }

    /// The dotos impls of a typedef.
    #[verifier::rlimit(40)]
    #[verifier::spinoff_prover]
    pub fn write_named_dotos_text(&self, output: &mut String) -> (r: Result<(), InterfaceFault>)
        ensures
            r is Ok,
            final(output)@ == old(output)@ + typedef_dotos(*self),
    {
        let ghost before = output@;
        let target = rust_type_name(&self.target);
        let out = output;
        put(out, "impl ::dotos::DotosEncode for ");
        put_text(out, &self.name);
        put(out, " {\n    fn to_dotos(&self) -> String {\n        format!(\"");
        put_text(out, &self.name);
        put(out, ".{}\", <");
        put_text(out, &target);
        put(out, " as ::dotos::DotosEncode>::to_dotos(&self.0))\n    }\n}\n\nimpl ::dotos::DotosDecode for ");
        put_text(out, &self.name);
        put(out, " {\n    fn from_dotos_block(block: &::dotos::Block) -> Result<Self, ::dotos::DotosDecodeError> {\n        let (head, payload) = block.as_application().ok_or(::dotos::DotosDecodeError::ExpectedDelimited {\n            type_name: \"");
        put_text(out, &self.name);
        put(out, "\",\n            delimiter: \"named dotted application\",\n        })?;\n        let head = head.demote_to_string().ok_or(::dotos::DotosDecodeError::ExpectedAtom { type_name: \"named type head\" })?;\n        if head != \"");
        put_text(out, &self.name);
        put(out, "\" {\n            return Err(::dotos::DotosDecodeError::UnknownVariant { enum_name: \"");
        put_text(out, &self.name);
        put(out, "\", variant: head.to_owned() });\n        }\n        Ok(Self(<");
        put_text(out, &target);
        put(out, " as ::dotos::DotosDecode>::from_dotos_block(payload)?))\n    }\n}\n\nimpl ::dotos::DotosBodyEncode for ");
        put_text(out, &self.name);
        put(out, " {\n    fn to_dotos_body(&self) -> ::dotos::DotosBodyEncoding {\n        ::dotos::DotosBodyEncoding::new(vec![::dotos::DotosEncode::to_dotos(self)])\n    }\n}\n\nimpl ::dotos::DotosBodyDecode for ");
        put_text(out, &self.name);
        put(out, " {\n    fn from_dotos_body(body: &::dotos::DotosBody<'_>) -> Result<Self, ::dotos::DotosDecodeError> {\n        let fields = body.expect_fields(\"");
        put_text(out, &self.name);
        put(out, "\", 1)?;\n        <Self as ::dotos::DotosDecode>::from_dotos_block(&fields[0])\n    }\n}\n\n");
        assert(out@ =~= before + typedef_dotos(*self));
        Ok(())
    }

    /// With its derives and its dotos impls.
    pub fn write_rust_derived(&self, output: &mut String) -> (r: Result<(), InterfaceFault>)
        ensures
            r is Ok,
            final(output)@ == old(output)@ + declaration_derived(TypeElement::Typedef(*self)),
    {
        let ghost before = output@;
        put(output, "#[derive(Archive, RkyvSerialize, RkyvDeserialize, Debug, Clone, PartialEq, Eq)]\n");
        let _ = self.write_rust(output);
        let _ = self.write_named_dotos_text(output);
        assert(output@ =~= before + declaration_derived(TypeElement::Typedef(*self)));
        Ok(())
    }
}

impl NamedStruct {
    /// `pub struct Name { pub field: Type, … }`.
    #[verifier::rlimit(40)]
    #[verifier::spinoff_prover]
    pub fn write_rust(&self, output: &mut String) -> (r: Result<(), InterfaceFault>)
        ensures
            r is Ok,
            final(output)@ == old(output)@ + struct_rust(*self),
    {
        let ghost before = output@;
        put(output, "pub struct ");
        put_text(output, &self.name);
        put(output, " {\n");
        let ghost mid = output@;
        let ghost mut done = Seq::<char>::empty();
        let mut i: usize = 0;
        while i < self.fields.len()
            invariant
                i <= self.fields@.len(),
                struct_field_lines(self.fields@, 0) == done + struct_field_lines(self.fields@, i as int),
                output@ == mid + done,
            decreases self.fields@.len() - i,
        {
            let ghost b = output@;
            put(output, "    pub ");
            let f = rust_field_name(&self.fields[i]);
            put_text(output, &f);
            put(output, ": ");
            put_text(output, &self.fields[i]);
            put(output, ",\n");
            proof {
                let piece = "    pub "@ + field_name_text(self.fields@[i as int]@) + ": "@
                    + self.fields@[i as int]@ + ",\n"@;
                assert(output@ =~= b + piece);
                assert(done + piece + struct_field_lines(self.fields@, i + 1) =~= done + (piece
                    + struct_field_lines(self.fields@, i + 1)));
                done = done + piece;
            }
            i += 1;
        }
        put(output, "}\n\n");
        assert(output@ =~= before + struct_rust(*self));
        Ok(())
    }

    /// The dotos impls of a struct.
    #[verifier::rlimit(40)]
    #[verifier::spinoff_prover]
    pub fn write_named_dotos_text(&self, output: &mut String) -> (r: Result<(), InterfaceFault>)
        ensures
            r is Ok,
            final(output)@ == old(output)@ + struct_dotos(*self),
    {
        let ghost before = output@;
        let ghost fields = self.fields@;
        let out = output;
        put(out, "impl ::dotos::DotosBodyEncode for ");
        put_text(out, &self.name);
        put(out, " {\n    fn to_dotos_body(&self) -> ::dotos::DotosBodyEncoding {\n        ::dotos::DotosBodyEncoding::new(vec![\n");
        let ghost mid = out@;
        let ghost mut done = Seq::<char>::empty();
        let mut i: usize = 0;
        while i < self.fields.len()
            invariant
                i <= self.fields@.len(),
                fields == self.fields@,
                struct_encode_lines(fields, 0) == done + struct_encode_lines(fields, i as int),
                out@ == mid + done,
            decreases self.fields@.len() - i,
        {
            let ghost b = out@;
            put(out, "            ::dotos::DotosEncode::to_dotos(&self.");
            put_text(out, &rust_field_name(&self.fields[i]));
            put(out, "),\n");
            proof {
                let piece = struct_encode_lines(fields, i as int).subrange(
                    0,
                    struct_encode_lines(fields, i as int).len() - struct_encode_lines(fields, i + 1).len(),
                );
                assert(struct_encode_lines(fields, i as int) =~= (out@.subrange(b.len() as int, out@.len() as int)) + struct_encode_lines(fields, i + 1));
                assert(done + (out@.subrange(b.len() as int, out@.len() as int)) + struct_encode_lines(fields, i + 1) =~= done + struct_encode_lines(fields, i as int));
                assert(out@ =~= mid + (done + out@.subrange(b.len() as int, out@.len() as int)));
                done = done + out@.subrange(b.len() as int, out@.len() as int);
            }
            i += 1;
        }
        put(out, "        ])\n    }\n}\n\nimpl ::dotos::DotosEncode for ");
        put_text(out, &self.name);
        put(out, " {\n    fn to_dotos(&self) -> String {\n        format!(\"");
        put_text(out, &self.name);
        put(out, ".{}\", <Self as ::dotos::DotosBodyEncode>::to_dotos_body(self).to_delimited_dotos(::dotos::Delimiter::Brace))\n    }\n}\n\nimpl ::dotos::DotosDecode for ");
        put_text(out, &self.name);
        put(out, " {\n    fn from_dotos_block(block: &::dotos::Block) -> Result<Self, ::dotos::DotosDecodeError> {\n        let (head, payload) = block.as_application().ok_or(::dotos::DotosDecodeError::ExpectedDelimited {\n            type_name: \"");
        put_text(out, &self.name);
        put(out, "\",\n            delimiter: \"named dotted application\",\n        })?;\n        let head = head.demote_to_string().ok_or(::dotos::DotosDecodeError::ExpectedAtom { type_name: \"named type head\" })?;\n        if head != \"");
        put_text(out, &self.name);
        put(out, "\" {\n            return Err(::dotos::DotosDecodeError::UnknownVariant { enum_name: \"");
        put_text(out, &self.name);
        put(out, "\", variant: head.to_owned() });\n        }\n        let body = ::dotos::DotosBlock::new(payload).expect_body(::dotos::Delimiter::Brace, \"");
        put_text(out, &self.name);
        put(out, "\")?;\n        <Self as ::dotos::DotosBodyDecode>::from_dotos_body(&body)\n    }\n}\n\nimpl ::dotos::DotosBodyDecode for ");
        put_text(out, &self.name);
        put(out, " {\n    fn from_dotos_body(body: &::dotos::DotosBody<'_>) -> Result<Self, ::dotos::DotosDecodeError> {\n        let fields = body.expect_fields(\"");
        put_text(out, &self.name);
        put(out, "\", ");
        put_text(out, &decimal(self.fields.len()));
        put(out, ")?;\n        Ok(Self {\n");
        let ghost mid2 = out@;
        let ghost mut done2 = Seq::<char>::empty();
        let mut i: usize = 0;
        while i < self.fields.len()
            invariant
                i <= self.fields@.len(),
                fields == self.fields@,
                struct_decode_lines(fields, 0) == done2 + struct_decode_lines(fields, i as int),
                out@ == mid2 + done2,
            decreases self.fields@.len() - i,
        {
            let ghost b = out@;
            put(out, "            ");
            put_text(out, &rust_field_name(&self.fields[i]));
            put(out, ": <");
            put_text(out, &rust_type_name(&self.fields[i]));
            put(out, " as ::dotos::DotosDecode>::from_dotos_block(&fields[");
            put_text(out, &decimal(i));
            put(out, "])?,\n");
            proof {
                assert(struct_decode_lines(fields, i as int) =~= (out@.subrange(b.len() as int, out@.len() as int)) + struct_decode_lines(fields, i + 1));
                assert(done2 + (out@.subrange(b.len() as int, out@.len() as int)) + struct_decode_lines(fields, i + 1) =~= done2 + struct_decode_lines(fields, i as int));
                assert(out@ =~= mid2 + (done2 + out@.subrange(b.len() as int, out@.len() as int)));
                done2 = done2 + out@.subrange(b.len() as int, out@.len() as int);
            }
            i += 1;
        }
        put(out, "        })\n    }\n}\n\n");
        assert(out@ =~= before + struct_dotos(*self));
        Ok(())
    }

    /// With its derives and its dotos impls.
    pub fn write_rust_derived(&self, output: &mut String) -> (r: Result<(), InterfaceFault>)
        ensures
            r is Ok,
            final(output)@ == old(output)@ + declaration_derived(TypeElement::Struct(*self)),
    {
        let ghost before = output@;
        put(output, "#[derive(Archive, RkyvSerialize, RkyvDeserialize, Debug, Clone, PartialEq, Eq)]\n");
        let _ = self.write_rust(output);
        let _ = self.write_named_dotos_text(output);
        assert(output@ =~= before + declaration_derived(TypeElement::Struct(*self)));
        Ok(())
    }
}

impl NamedEnum {
    /// `pub enum Name { Variant(Payload), Unit, … }`.
    #[verifier::rlimit(40)]
    #[verifier::spinoff_prover]
    pub fn write_rust(&self, output: &mut String) -> (r: Result<(), InterfaceFault>)
        ensures
            r is Ok,
            final(output)@ == old(output)@ + enum_rust(*self),
    {
        let ghost before = output@;
        put(output, "pub enum ");
        put_text(output, &self.name);
        put(output, " {\n");
        let ghost mid = output@;
        let ghost mut done = Seq::<char>::empty();
        let mut i: usize = 0;
        while i < self.variants.len()
            invariant
                i <= self.variants@.len(),
                enum_lines(self.variants@, 0) == done + enum_lines(self.variants@, i as int),
                output@ == mid + done,
            decreases self.variants@.len() - i,
        {
            let ghost b = output@;
            put(output, "    ");
            match &self.variants[i] {
                EnumVariantElement::Data { variant, payload } => {
                    put_text(output, variant);
                    put(output, "(");
                    put_text(output, payload);
                    put(output, "),\n");
                },
                EnumVariantElement::Unit { variant } => {
                    put_text(output, variant);
                    put(output, ",\n");
                },
            }
            proof {
                let piece = enum_line(self.variants@[i as int]);
                assert(output@ =~= b + piece);
                assert(done + piece + enum_lines(self.variants@, i + 1) =~= done + (piece
                    + enum_lines(self.variants@, i + 1)));
                done = done + piece;
            }
            i += 1;
        }
        put(output, "}\n\n");
        assert(output@ =~= before + enum_rust(*self));
        Ok(())
    }

    /// With its derives.
    pub fn write_rust_derived(&self, output: &mut String) -> (r: Result<(), InterfaceFault>)
        ensures
            r is Ok,
            final(output)@ == old(output)@ + declaration_derived(TypeElement::Enum(*self)),
    {
        let ghost before = output@;
        put(output, "#[derive(Archive, RkyvSerialize, RkyvDeserialize, ::dotos::DotosEncode, ::dotos::DotosDecode, Debug, Clone, PartialEq, Eq)]\n");
        let _ = self.write_rust(output);
        assert(output@ =~= before + declaration_derived(TypeElement::Enum(*self)));
        Ok(())
    }
}


/// Each declaration as Rust.
#[verifier::rlimit(40)]
#[verifier::spinoff_prover]
fn write_declarations(ts: &Vec<TypeElement>, output: &mut String)
    ensures
        final(output)@ == old(output)@ + declarations_rust(ts@, 0),
{
    let ghost start = output@;
    let ghost mut done = Seq::<char>::empty();
    let mut i: usize = 0;
    while i < ts.len()
        invariant
            i <= ts@.len(),
            declarations_rust(ts@, 0) == done + declarations_rust(ts@, i as int),
            output@ == start + done,
        decreases ts@.len() - i,
    {
        let ghost b = output@;
        let _ = match &ts[i] {
            TypeElement::Typedef(v) => v.write_rust(output),
            TypeElement::Struct(v) => v.write_rust(output),
            TypeElement::Enum(v) => v.write_rust(output),
        };
        proof {
            let piece = declaration_rust(ts@[i as int]);
            assert(output@ =~= b + piece);
            assert(done + piece + declarations_rust(ts@, i + 1) =~= done + (piece
                + declarations_rust(ts@, i + 1)));
            done = done + piece;
        }
        i += 1;
    }
}

/// Each declaration with its derives and impls.
#[verifier::rlimit(40)]
#[verifier::spinoff_prover]
fn write_declarations_derived(ts: &Vec<TypeElement>, output: &mut String)
    ensures
        final(output)@ == old(output)@ + declarations_derived(ts@, 0),
{
    let ghost start = output@;
    let ghost mut done = Seq::<char>::empty();
    let mut i: usize = 0;
    while i < ts.len()
        invariant
            i <= ts@.len(),
            declarations_derived(ts@, 0) == done + declarations_derived(ts@, i as int),
            output@ == start + done,
        decreases ts@.len() - i,
    {
        let ghost b = output@;
        let _ = match &ts[i] {
            TypeElement::Typedef(v) => v.write_rust_derived(output),
            TypeElement::Struct(v) => v.write_rust_derived(output),
            TypeElement::Enum(v) => v.write_rust_derived(output),
        };
        proof {
            let piece = declaration_derived(ts@[i as int]);
            assert(output@ =~= b + piece);
            assert(done + piece + declarations_derived(ts@, i + 1) =~= done + (piece
                + declarations_derived(ts@, i + 1)));
            done = done + piece;
        }
        i += 1;
    }
}

/// A text without its last newline, where it ends in a blank line.
fn trim_blank_line(full: &String) -> (r: String)
    ensures
        r@ == trimmed(full@),
{
    let s = chars_of(full.as_str());
    if s.len() >= 2 && s[s.len() - 1] == '\n' && s[s.len() - 2] == '\n' {
        let r = text_of_range(&s, 0, s.len() - 1);
        assert(r@ =~= trimmed(full@));
        r
    } else {
        copy_text(full)
    }
}

impl Interface {
    /// The fixture's Rust artifact, once the Interface checks.
    #[verifier::rlimit(40)]
    #[verifier::spinoff_prover]
    pub fn rust_source(&self) -> (r: Result<String, InterfaceFault>)
        ensures
            match validation(*self) {
                Err(e) => r == Err::<String, InterfaceFault>(e),
                Ok(()) => r is Ok && r->Ok_0@ == rust_source_text(*self),
            },
    {
        if let Err(e) = self.validate() {
            return Err(e);
        }
        let mut output = String::from_str("// @generated by ethos-monolith from Ethos source\n\n");
        let ghost before = output@;
        put(&mut output, "pub enum Input {\n");
        let (ops, payloads) = input_parts(&self.inputs);
        write_lines("    ", &ops, &payloads, &mut output);
        put(&mut output, "}\n\n");
        put(&mut output, "pub enum Output {\n");
        let (ops, payloads) = output_parts(&self.outputs);
        write_lines("    ", &ops, &payloads, &mut output);
        put(&mut output, "}\n\n");
        put(&mut output, "pub enum Refusal {\n");
        let (ops, payloads) = refusal_parts(&self.refusals);
        write_lines("    ", &ops, &payloads, &mut output);
        put(&mut output, "}\n\n");
        put(&mut output, "pub enum Stream {\n");
        let (ops, payloads) = stream_parts(&self.streams);
        write_lines("    ", &ops, &payloads, &mut output);
        put(&mut output, "}\n\n");
        write_declarations(&self.types.0, &mut output);
        assert(output@ =~= rust_source_full(*self));
        Ok(trim_blank_line(&output))
    }

    /// The Signal module of an Interface bound to a channel: it must check,
    /// import nothing, and carry a channel.
    #[verifier::rlimit(50)]
    #[verifier::spinoff_prover]
    pub fn signal_rust_source(&self) -> (r: Result<String, InterfaceFault>)
        ensures
            match validation(*self) {
                Err(e) => r == Err::<String, InterfaceFault>(e),
                Ok(()) => if self.imports.0@.len() > 0 {
                    r == Err::<String, InterfaceFault>(InterfaceFault::Shape)
                } else {
                    match self.channel {
                        None => r == Err::<String, InterfaceFault>(InterfaceFault::Binding),
                        Some(c) => r is Ok && r->Ok_0@ == signal_text(*self, c),
                    }
                },
            },
    {
        if let Err(e) = self.validate() {
            return Err(e);
        }
        if self.imports.0.len() != 0 {
            return Err(InterfaceFault::Shape);
        }
        let channel = match &self.channel {
            Some(c) => c,
            None => {
                return Err(InterfaceFault::Binding);
            },
        };
        let mut wire_name = copy_text(&channel.name);
        put(&mut wire_name, "Wire");
        let mut reply_name = copy_text(&channel.name);
        put(&mut reply_name, "Reply");
        let mut request_name = copy_text(&channel.name);
        put(&mut request_name, "Request");
        let mut output = String::from_str("// @generated by ethos-monolith from Ethos source\n\n");
        let out = &mut output;
        put(out, "use core::num::{NonZeroU16, NonZeroU32};\nuse rkyv::{Archive, Deserialize as RkyvDeserialize, Serialize as RkyvSerialize};\nuse signal_frame::{signal_channel, ContractBinding, ContractId, WireContract, WireRevision};\n\n#[derive(Debug, Clone, Copy, PartialEq, Eq)]\npub enum ");
        put_text(out, &wire_name);
        put(out, " {}\n\nimpl WireContract for ");
        put_text(out, &wire_name);
        put(out, " {\n    const BINDING: ContractBinding = ContractBinding::new(\n        ContractId::new(NonZeroU32::new(");
        put_text(out, &decimal(channel.contract_id as usize));
        put(out, ").expect(\"Ethos Channel contract id is nonzero\")),\n        WireRevision::new(NonZeroU16::new(");
        put_text(out, &decimal(channel.wire_revision as usize));
        put(out, ").expect(\"Ethos Channel wire revision is nonzero\")),\n    );\n}\n\n");
        write_declarations_derived(&self.types.0, out);
        if self.refusals.0.len() != 0 {
            put(out, "#[derive(Archive, RkyvSerialize, RkyvDeserialize, ::dotos::DotosEncode, ::dotos::DotosDecode, Debug, Clone, PartialEq, Eq)]\npub enum Refusal {\n");
            let (ops, payloads) = refusal_parts(&self.refusals);
            write_lines("    ", &ops, &payloads, out);
            put(out, "}\n\n");
        }
        if self.streams.0.len() != 0 {
            put(out, "#[derive(Archive, RkyvSerialize, RkyvDeserialize, ::dotos::DotosEncode, ::dotos::DotosDecode, Debug, Clone, PartialEq, Eq)]\npub enum Stream {\n");
            let (ops, payloads) = stream_parts(&self.streams);
            write_lines("    ", &ops, &payloads, out);
            put(out, "}\n\n");
        }
        put(out, "signal_channel! {\n    channel ");
        put_text(out, &channel.name);
        put(out, " contract ");
        put_text(out, &wire_name);
        put(out, " {\n");
        let (ops, payloads) = input_parts(&self.inputs);
        write_lines("        operation ", &ops, &payloads, out);
        put(out, "    }\n    reply ");
        put_text(out, &reply_name);
        put(out, " {\n");
        let (ops, payloads) = output_parts(&self.outputs);
        write_lines("        ", &ops, &payloads, out);
        put(out, "    }\n}\n\npub type ");
        put_text(out, &request_name);
        put(out, " = Operation;\n");
        assert(out@ =~= signal_text(*self, *channel));
        Ok(output)
    }
}


impl Interface {
    /// The Rust module of the Interface, bound to the path that must carry it.
    pub fn rust_artifact(&self, path: String) -> (r: Result<GeneratedArtifact, InterfaceFault>)
        ensures
            match validation(*self) {
                Err(e) => r == Err::<GeneratedArtifact, InterfaceFault>(e),
                Ok(()) => r matches Ok(a) && a.path@ == path@ && a.content@ == rust_source_text(
                    *self,
                ),
            },
    {
        match self.rust_source() {
            Ok(content) => Ok(GeneratedArtifact::new(path, content)),
            Err(e) => Err(e),
        }
    }

    /// The Signal module of the Interface, bound to the path that must carry
    /// it.
    pub fn signal_rust_artifact(&self, path: String) -> (r: Result<GeneratedArtifact, InterfaceFault>)
        ensures
            match validation(*self) {
                Err(e) => r == Err::<GeneratedArtifact, InterfaceFault>(e),
                Ok(()) => if self.imports.0@.len() > 0 {
                    r == Err::<GeneratedArtifact, InterfaceFault>(InterfaceFault::Shape)
                } else {
                    match self.channel {
                        None => r == Err::<GeneratedArtifact, InterfaceFault>(
                            InterfaceFault::Binding,
                        ),
                        Some(c) => r matches Ok(a) && a.path@ == path@ && a.content@
                            == signal_text(*self, c),
                    }
                },
            },
    {
        match self.signal_rust_source() {
            Ok(content) => Ok(GeneratedArtifact::new(path, content)),
            Err(e) => Err(e),
        }
    }
}

impl TypeElement {
    /// The shapes a declaration may take: bare, `Name.{ … }`, `Name.[ … ]`.
    pub fn shapes() -> (r: Vec<Shape>)
        ensures
            r@ == seq![Shape::Bare, Shape::DottedBraced, Shape::DottedSquareBracketed],
    {
        let mut r = Vec::new();
        r.push(Shape::Bare);
        r.push(Shape::DottedBraced);
        r.push(Shape::DottedSquareBracketed);
        proof {
            assert(r@ =~= seq![Shape::Bare, Shape::DottedBraced, Shape::DottedSquareBracketed]);
        }
        r
    }
}

} // verus!
