use ethos_zero::fault::{Form, IncorporationFault};

#[test]
fn every_form_reads_back_from_its_symbol() {
    for form in [
        Form::File,
        Form::Section,
        Form::Import,
        Form::Name,
        Form::Declaration,
        Form::Variant,
        Form::Reference,
        Form::Constraint,
        Form::Kind,
        Form::Capability,
        Form::Constant,
        Form::Association,
    ] {
        let symbol = form.conceive();
        assert_eq!(Form::incorporate_from(&symbol).ok(), Some(form));
    }
    assert_eq!(Form::Declaration.conceive(), "Declaration");
}

#[test]
fn an_unknown_symbol_is_refused_with_itself() {
    match Form::incorporate_from(&"Module".to_owned()) {
        Err(IncorporationFault::UnknownVariant(symbol)) => assert_eq!(symbol, "Module"),
        Ok(form) => panic!("read as {form:?}"),
    }
}
