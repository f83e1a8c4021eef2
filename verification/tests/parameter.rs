use autosar_data_abstraction::element::{CharacterData, Element, ElementName, ElementRef};
use autosar_data_abstraction::error::AutosarAbstractionError;
use autosar_data_abstraction::parameter::{
    EcucAddInfoParamValue, EcucNumericalParamValue, EcucParameterValue, EcucTextualParamValue,
};

fn def(kind: ElementName, name: &str) -> ElementRef {
    ElementRef {
        kind,
        path: format!("/def_package/ModuleDef/ContainerDef/{name}"),
    }
}

#[test]
fn test_parameter_values() {
    let add_info_param_def = def(ElementName::EcucAddInfoParamDef, "AddInfoParam");
    let int_param_def = def(ElementName::EcucIntegerParamDef, "IntParam");
    let float_param_def = def(ElementName::EcucFloatParamDef, "FloatParam");
    let bool_param_def = def(ElementName::EcucBooleanParamDef, "BoolParam");
    let string_param_def = def(ElementName::EcucStringParamDef, "StringParam");
    let fnc_param_def = def(ElementName::EcucFunctionNameDef, "FncParam");
    let link_param_def = def(ElementName::EcucLinkerSymbolDef, "LinkParam");
    let enum_param_def = def(ElementName::EcucEnumerationParamDef, "EnumParam");

    let add_info_param_value = EcucAddInfoParamValue::new(&add_info_param_def);

    let mut int_param_value = EcucNumericalParamValue::new(&int_param_def, "42");
    assert_eq!(int_param_value.value_int(), Some(42));
    int_param_value.set_value("43").unwrap();
    assert_eq!(int_param_value.value_int(), Some(43));
    int_param_value.set_index(Some(1)).unwrap();
    assert_eq!(int_param_value.index(), Some(1));
    int_param_value.set_is_auto_value(Some(true)).unwrap();
    assert_eq!(int_param_value.is_auto_value(), Some(true));
    assert_eq!(int_param_value.definition_ref(), Some(int_param_def.path.clone()));

    let mut float_param_value = EcucNumericalParamValue::new(&float_param_def, "3.45");
    assert_eq!(float_param_value.value().as_deref(), Some("3.45"));
    assert_eq!(float_param_value.value_float().map(f64::from_bits), Some(3.45));
    float_param_value.set_value("2.71").unwrap();
    assert_eq!(float_param_value.value_float().map(f64::from_bits), Some(2.71));
    float_param_value.set_index(Some(2)).unwrap();
    assert_eq!(float_param_value.index(), Some(2));
    float_param_value.set_is_auto_value(Some(false)).unwrap();
    assert_eq!(float_param_value.is_auto_value(), Some(false));
    assert_eq!(float_param_value.definition_ref(), Some(float_param_def.path.clone()));

    let mut bool_param_value = EcucNumericalParamValue::new(&bool_param_def, "true");
    assert_eq!(bool_param_value.value().as_deref(), Some("true"));
    assert_eq!(bool_param_value.value_bool(), Some(true));
    bool_param_value.set_value("false").unwrap();
    assert_eq!(bool_param_value.value_bool(), Some(false));
    bool_param_value.set_index(Some(3)).unwrap();
    assert_eq!(bool_param_value.index(), Some(3));
    bool_param_value.set_is_auto_value(None).unwrap();
    assert_eq!(bool_param_value.is_auto_value(), None);
    assert_eq!(bool_param_value.definition_ref(), Some(bool_param_def.path.clone()));

    let mut string_param_value = EcucTextualParamValue::new(&string_param_def, "Hello, World!");
    assert_eq!(string_param_value.value().as_deref(), Some("Hello, World!"));
    string_param_value.set_value("Goodbye, World!").unwrap();
    assert_eq!(string_param_value.value().as_deref(), Some("Goodbye, World!"));
    string_param_value.set_index(Some(4)).unwrap();
    assert_eq!(string_param_value.index(), Some(4));
    string_param_value.set_is_auto_value(Some(true)).unwrap();
    assert_eq!(string_param_value.is_auto_value(), Some(true));
    assert_eq!(string_param_value.definition_ref(), Some(string_param_def.path.clone()));

    let fnc_param_value = EcucTextualParamValue::new(&fnc_param_def, "function_name");
    let link_param_value = EcucTextualParamValue::new(&link_param_def, "linker_symbol");

    let mut enum_param_value = EcucTextualParamValue::new(&enum_param_def, "EnumLiteral_1");
    assert_eq!(enum_param_value.value().as_deref(), Some("EnumLiteral_1"));
    enum_param_value.set_value("EnumLiteral_2").unwrap();
    assert_eq!(enum_param_value.value().as_deref(), Some("EnumLiteral_2"));
    enum_param_value.set_index(Some(5)).unwrap();
    assert_eq!(enum_param_value.index(), Some(5));
    enum_param_value.set_is_auto_value(Some(false)).unwrap();
    assert_eq!(enum_param_value.is_auto_value(), Some(false));
    assert_eq!(enum_param_value.definition_ref(), Some(enum_param_def.path.clone()));

    // the definitions resolve, so they can be read
    assert_eq!(int_param_value.definition().unwrap(), int_param_def);
    assert_eq!(float_param_value.definition().unwrap(), float_param_def);
    assert_eq!(bool_param_value.definition().unwrap(), bool_param_def);
    assert_eq!(string_param_value.definition().unwrap(), string_param_def);
    assert_eq!(enum_param_value.definition().unwrap(), enum_param_def);

    // parameter values of each kind, taken from their elements
    let values = [
        add_info_param_value.element(),
        fnc_param_value.element(),
        link_param_value.element(),
    ];
    let kinds: Vec<_> = values
        .iter()
        .map(|e| match copy_element(e).and_then(|e| EcucParameterValue::try_from(e).ok()) {
            Some(EcucParameterValue::AddInfo(_)) => "add_info",
            Some(EcucParameterValue::Numerical(_)) => "numerical",
            Some(EcucParameterValue::Textual(_)) => "textual",
            None => "none",
        })
        .collect();
    assert_eq!(kinds, vec!["add_info", "textual", "textual"]);
}

/// a copy of an element that holds only text and references
fn copy_element(e: &Element) -> Option<Element> {
    let mut c = Element::new(e.name);
    if let Some(cd) = &e.character_data {
        c.set_character_data(cd.copy());
    }
    c.target_kind = e.target_kind;
    for s in &e.sub_elements {
        c.push_sub_element(copy_element(s)?);
    }
    Some(c)
}

// ---------------------------------------------------------------------------
// further cases

#[test]
fn definition_of_unresolved_reference_is_none() {
    // a reference that does not resolve: its path is there, the definition is not
    let mut e = Element::new(ElementName::EcucNumericalParamValue);
    let mut r = Element::new(ElementName::DefinitionRef);
    r.set_character_data(CharacterData::String("/def/IntParam".to_string()));
    e.push_sub_element(r);
    let p = match EcucParameterValue::try_from(e).unwrap() {
        EcucParameterValue::Numerical(p) => p,
        _ => panic!("not a numerical parameter"),
    };
    assert_eq!(p.definition_ref().as_deref(), Some("/def/IntParam"));
    assert!(p.definition().is_none());
    assert_eq!(p.value(), None);
    assert_eq!(p.index(), None);
}

#[test]
fn definition_of_another_kind_is_none() {
    let wrong = ElementRef {
        kind: ElementName::EcucIntegerParamDef,
        path: "/def/IntParam".to_string(),
    };
    let mut p = EcucNumericalParamValue::new(&wrong, "1");
    // the reference now resolves to something that is no parameter definition
    let mut e = Element::new(ElementName::EcucNumericalParamValue);
    let mut r = Element::new(ElementName::DefinitionRef);
    r.set_reference_target(&ElementRef {
        kind: ElementName::SystemSignal,
        path: "/sig".to_string(),
    });
    e.push_sub_element(r);
    if let Ok(EcucParameterValue::Numerical(q)) = EcucParameterValue::try_from(e) {
        assert!(q.definition().is_none());
        assert_eq!(q.definition_ref().as_deref(), Some("/sig"));
    } else {
        panic!("not a numerical parameter");
    }
    p.set_definition(&ElementRef {
        kind: ElementName::EcucFloatParamDef,
        path: "/def/FloatParam".to_string(),
    })
    .unwrap();
    assert_eq!(p.definition().unwrap().kind, ElementName::EcucFloatParamDef);
    assert_eq!(p.value().as_deref(), Some("1"));
}

#[test]
fn hexadecimal_integer_value() {
    let d = ElementRef {
        kind: ElementName::EcucIntegerParamDef,
        path: "/def/IntParam".to_string(),
    };
    let p = EcucNumericalParamValue::new(&d, "0x10");
    assert_eq!(p.value_int(), Some(16));
    let p = EcucNumericalParamValue::new(&d, "-5");
    assert_eq!(p.value_int(), Some(-5));
    let p = EcucNumericalParamValue::new(&d, "five");
    assert_eq!(p.value_int(), None);
    assert_eq!(p.value_bool(), None);
    assert_eq!(p.value_float(), None);
}

#[test]
fn boolean_values_one_and_zero() {
    let d = ElementRef {
        kind: ElementName::EcucBooleanParamDef,
        path: "/def/BoolParam".to_string(),
    };
    assert_eq!(EcucNumericalParamValue::new(&d, "1").value_bool(), Some(true));
    assert_eq!(EcucNumericalParamValue::new(&d, "0").value_bool(), Some(false));
    assert_eq!(EcucNumericalParamValue::new(&d, "yes").value_bool(), None);
}

#[test]
fn index_and_flag_can_be_removed() {
    let d = ElementRef {
        kind: ElementName::EcucStringParamDef,
        path: "/def/StringParam".to_string(),
    };
    let mut p = EcucTextualParamValue::new(&d, "x");
    assert_eq!(p.index(), None);
    assert_eq!(p.is_auto_value(), None);
    p.set_index(Some(7)).unwrap();
    p.set_is_auto_value(Some(true)).unwrap();
    p.set_index(Some(8)).unwrap();
    assert_eq!(p.index(), Some(8));
    p.set_index(None).unwrap();
    assert_eq!(p.index(), None);
    assert_eq!(p.is_auto_value(), Some(true));
    p.set_is_auto_value(None).unwrap();
    assert_eq!(p.is_auto_value(), None);
    assert_eq!(p.value().as_deref(), Some("x"));
}

#[test]
fn element_of_another_kind_is_no_parameter_value() {
    let e = Element::new(ElementName::SystemSignal);
    assert_eq!(
        EcucParameterValue::try_from(e).err(),
        Some(AutosarAbstractionError::ConversionError {
            element: ElementName::SystemSignal,
            dest: "EcucParameterValue".to_string(),
        })
    );
}

#[test]
fn index_written_as_text_is_parsed() {
    // an INDEX as it comes from a file: text in any of the integer notations
    let mut e = Element::new(ElementName::EcucTextualParamValue);
    let mut i = Element::new(ElementName::Index);
    i.set_character_data(CharacterData::String("0b101".to_string()));
    e.push_sub_element(i);
    let p = match EcucParameterValue::try_from(e).unwrap() {
        EcucParameterValue::Textual(p) => p,
        _ => panic!("not a textual parameter"),
    };
    assert_eq!(p.index(), Some(5));
}

#[test]
fn value_after_setting_keeps_the_other_entries() {
    let d = ElementRef {
        kind: ElementName::EcucIntegerParamDef,
        path: "/def/IntParam".to_string(),
    };
    let mut p = EcucNumericalParamValue::new(&d, "1");
    p.set_index(Some(3)).unwrap();
    p.set_is_auto_value(Some(false)).unwrap();
    p.set_value("0x20").unwrap();
    assert_eq!(p.value_int(), Some(32));
    assert_eq!(p.index(), Some(3));
    assert_eq!(p.is_auto_value(), Some(false));
    assert_eq!(p.definition(), Some(d));
}

#[test]
fn parameter_value_with_two_indexes_is_taken() {
    let mut e = Element::new(ElementName::EcucNumericalParamValue);
    for text in ["1", "2"] {
        let mut i = Element::new(ElementName::Index);
        i.set_character_data(CharacterData::String(text.to_string()));
        e.push_sub_element(i);
    }
    match EcucParameterValue::try_from(e).unwrap() {
        // the first INDEX is read
        EcucParameterValue::Numerical(p) => assert_eq!(p.index(), Some(1)),
        _ => panic!("not a numerical parameter"),
    }
}
