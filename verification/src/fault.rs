//! The forms a reading fault can expect, and their symbols in Datomic text.

use vstd::prelude::*;
use crate::text::same_text;

verus! {

/// The structure a fault expected where it found something else.
#[derive(Clone, Copy, Debug, PartialEq, Eq, Structural)]
pub enum Form {
    File,
    Section,
    Import,
    Name,
    Declaration,
    Variant,
    Reference,
    Constraint,
    Kind,
    Capability,
    Constant,
    Association,
}

/// The bare symbol a form is written as: its own name.
pub open spec fn form_symbol(f: Form) -> Seq<char> {
    match f {
        Form::File => "File"@,
        Form::Section => "Section"@,
        Form::Import => "Import"@,
        Form::Name => "Name"@,
        Form::Declaration => "Declaration"@,
        Form::Variant => "Variant"@,
        Form::Reference => "Reference"@,
        Form::Constraint => "Constraint"@,
        Form::Kind => "Kind"@,
        Form::Capability => "Capability"@,
        Form::Constant => "Constant"@,
        Form::Association => "Association"@,
    }
}

/// The form a bare symbol names, if any.
pub open spec fn form_of_symbol(s: Seq<char>) -> Option<Form> {
    if s == "File"@ {
        Some(Form::File)
    } else if s == "Section"@ {
        Some(Form::Section)
    } else if s == "Import"@ {
        Some(Form::Import)
    } else if s == "Name"@ {
        Some(Form::Name)
    } else if s == "Declaration"@ {
        Some(Form::Declaration)
    } else if s == "Variant"@ {
        Some(Form::Variant)
    } else if s == "Reference"@ {
        Some(Form::Reference)
    } else if s == "Constraint"@ {
        Some(Form::Constraint)
    } else if s == "Kind"@ {
        Some(Form::Kind)
    } else if s == "Capability"@ {
        Some(Form::Capability)
    } else if s == "Constant"@ {
        Some(Form::Constant)
    } else if s == "Association"@ {
        Some(Form::Association)
    } else {
        None
    }
}

/// Why a symbol is not a form.
#[derive(Debug)]
pub enum IncorporationFault {
    /// The symbol names no variant of the enum.
    UnknownVariant(String),
}

impl Form {
    /// The form's symbol.
    pub fn conceive(&self) -> (r: String)
        ensures
            r@ == form_symbol(*self),
    {
        let s = match self {
            Form::File => "File",
            Form::Section => "Section",
            Form::Import => "Import",
            Form::Name => "Name",
            Form::Declaration => "Declaration",
            Form::Variant => "Variant",
            Form::Reference => "Reference",
            Form::Constraint => "Constraint",
            Form::Kind => "Kind",
            Form::Capability => "Capability",
            Form::Constant => "Constant",
            Form::Association => "Association",
        };
        String::from_str(s)
    }

    /// The form a symbol names; an unknown symbol is refused with itself.
    pub fn incorporate_from(symbol: &String) -> (r: Result<Form, IncorporationFault>)
        ensures
            match form_of_symbol(symbol@) {
                Some(f) => r == Ok::<Form, IncorporationFault>(f),
                None => r matches Err(IncorporationFault::UnknownVariant(s)) && s@ == symbol@,
            },
    {
        if same_text(symbol, "File") {
            Ok(Form::File)
        } else if same_text(symbol, "Section") {
            Ok(Form::Section)
        } else if same_text(symbol, "Import") {
            Ok(Form::Import)
        } else if same_text(symbol, "Name") {
            Ok(Form::Name)
        } else if same_text(symbol, "Declaration") {
            Ok(Form::Declaration)
        } else if same_text(symbol, "Variant") {
            Ok(Form::Variant)
        } else if same_text(symbol, "Reference") {
            Ok(Form::Reference)
        } else if same_text(symbol, "Constraint") {
            Ok(Form::Constraint)
        } else if same_text(symbol, "Kind") {
            Ok(Form::Kind)
        } else if same_text(symbol, "Capability") {
            Ok(Form::Capability)
        } else if same_text(symbol, "Constant") {
            Ok(Form::Constant)
        } else if same_text(symbol, "Association") {
            Ok(Form::Association)
        } else {
            Err(IncorporationFault::UnknownVariant(symbol.clone()))
        }
    }
}

/// A form incorporated from its own symbol is the form itself.
pub proof fn lemma_form_round_trip(f: Form)
    ensures
        form_of_symbol(form_symbol(f)) == Some(f),
{
    let names: Seq<Seq<char>> = seq![
        "File"@,
        "Section"@,
        "Import"@,
        "Name"@,
        "Declaration"@,
        "Variant"@,
        "Reference"@,
        "Constraint"@,
        "Kind"@,
        "Capability"@,
        "Constant"@,
        "Association"@,
    ];
    reveal_strlit("File");
    reveal_strlit("Section");
    reveal_strlit("Import");
    reveal_strlit("Name");
    reveal_strlit("Declaration");
    reveal_strlit("Variant");
    reveal_strlit("Reference");
    reveal_strlit("Constraint");
    reveal_strlit("Kind");
    reveal_strlit("Capability");
    reveal_strlit("Constant");
    reveal_strlit("Association");
    assert forall|i: int, j: int| 0 <= i < j < 12 implies #[trigger] names[i] != #[trigger] names[j] by {
        if names[i].len() == names[j].len() {
            if names[i][0] == names[j][0] {
                assert(names[i][1] != names[j][1]);
            } else {
                assert(names[i][0] != names[j][0]);
            }
        }
    }
}

/// Every symbol that names a form is that form's own symbol.
pub proof fn lemma_symbol_round_trip(s: Seq<char>)
    requires
        form_of_symbol(s) is Some,
    ensures
        form_symbol(form_of_symbol(s)->0) == s,
{
}

} // verus!
