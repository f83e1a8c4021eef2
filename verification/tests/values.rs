use autosar_data_abstraction::element::{CharacterData, Element, ElementName, ElementRef, EnumItem};
use autosar_data_abstraction::error::AutosarAbstractionError;
use autosar_data_abstraction::values::{
    ApplicationArrayElement, ApplicationPrimitiveCategory, ApplicationRecordElement,
    ApplicationRuleBasedValueSpecification, ApplicationValueSpecification, ArgumentDataPrototype,
    ArrayValueSpecification, CompositeRuleBasedValueArgument, CompositeRuleBasedValueSpecification,
    CompositeValueSpecification, ConstantReference, ConstantSpecification, DataPrototype,
    NotAvailableValueSpecification, NumericalRuleBasedValueSpecification, NumericalValueSpecification,
    ParameterDataPrototype, RecordValueSpecification, ReferenceValueSpecification, RuleArgument,
    RuleBasedAxisCont, RuleBasedFillUntil, SchemaSupport, RuleBasedValueCont, RuleBasedValueSpecification, SwAxisCont,
    SwAxisContCategory, SwValue, SwValueCont, TextValueSpecification, Unit, ValueSpecification,
    VariableDataPrototype,
};

fn num(label: Option<&str>, value: f64) -> NumericalValueSpecification {
    NumericalValueSpecification {
        label: label.map(|l| l.to_string()),
        value: value.to_bits(),
    }
}

fn short_name(element: &Element) -> Option<String> {
    element.get_sub_element(ElementName::ShortName)?.character_data()?.string_value()
}

/// store the value in a new constant and read it back
fn roundtrip(spec: ValueSpecification) -> Option<ValueSpecification> {
    let (constant, element) = ConstantSpecification::new("ConstantSpec", "/Pkg", &spec, SchemaSupport::latest());
    constant.value_specification(&element)
}

fn array_spec() -> ArrayValueSpecification {
    ArrayValueSpecification {
        label: Some("ArrayValue".to_string()),
        values: vec![num(None, 11.0).into(), num(None, 12.3).into()],
    }
}

#[test]
fn constant_specification() {
    let (constant, mut element) = ConstantSpecification::new("ConstantSpec", "/Pkg", &num(None, 12.0).into(), SchemaSupport::latest());
    assert_eq!(short_name(&element).unwrap(), "ConstantSpec");
    assert_eq!(constant.path, "/Pkg/ConstantSpec");

    constant.set_value_specification(&mut element, &array_spec().into(), SchemaSupport::latest());
    assert_eq!(constant.value_specification(&element).unwrap(), array_spec().into());
}

#[test]
fn numerical_value_specification() {
    let spec = num(Some("NumericalValue"), 33.3);
    let spec_read = roundtrip(spec.clone().into()).unwrap();
    assert_eq!(spec_read, spec.into());
}

#[test]
fn array_value_specification() {
    let spec_read = roundtrip(array_spec().into()).unwrap();
    assert_eq!(spec_read, array_spec().into());
}

#[test]
fn record_value_specification() {
    let make = || RecordValueSpecification {
        label: Some("RecordValue".to_string()),
        values: vec![num(None, 1.0).into(), num(None, 3.1).into()],
    };
    let spec_read = roundtrip(make().into()).unwrap();
    assert_eq!(spec_read, make().into());
}

#[test]
fn text_value_specification() {
    let spec = TextValueSpecification {
        label: Some("TextValue".to_string()),
        value: "Hello World".to_string(),
    };
    let spec_read = roundtrip(spec.clone().into()).unwrap();
    assert_eq!(spec_read, spec.into());
}

#[test]
fn reference_value_specification() {
    let prototypes = vec![
        DataPrototype::ArgumentDataPrototype(ArgumentDataPrototype {
            path: "/Pkg/CS_Interface/Operation/adp".to_string(),
        }),
        DataPrototype::ParameterDataPrototype(ParameterDataPrototype {
            path: "/Pkg/P_Interface/pdp".to_string(),
        }),
        DataPrototype::VariableDataPrototype(VariableDataPrototype {
            path: "/Pkg/SR_Interface/vdp".to_string(),
        }),
        DataPrototype::ApplicationArrayElement(ApplicationArrayElement {
            path: "/Pkg/ArrayDataType/ArrayDataType".to_string(),
        }),
        DataPrototype::ApplicationRecordElement(ApplicationRecordElement {
            path: "/Pkg/RecordDataType/Element".to_string(),
        }),
    ];
    for prototype in prototypes {
        let spec = ReferenceValueSpecification {
            label: Some("ReferenceValue".to_string()),
            reference_value: prototype,
        };
        let spec_read = roundtrip(spec.clone().into()).unwrap();
        assert_eq!(spec_read, spec.into());
    }
}

#[test]
fn constant_reference_specification() {
    let (target_constant, _target_element) = ConstantSpecification::new("Target", "/Pkg", &num(None, 1.0).into(), SchemaSupport::latest());
    let spec = ConstantReference {
        label: Some("ConstantReference".to_string()),
        constant: target_constant,
    };
    let spec_read = roundtrip(spec.clone().into()).unwrap();
    assert_eq!(spec_read, spec.into());
}

fn unit() -> Unit {
    Unit {
        path: "/Pkg/abc".to_string(),
    }
}

fn application_spec() -> ApplicationValueSpecification {
    ApplicationValueSpecification {
        label: Some("ApplicationValue".to_string()),
        category: ApplicationPrimitiveCategory::ResAxis,
        sw_axis_conts: vec![
            SwAxisCont {
                category: SwAxisContCategory::StdAxis,
                sw_array_size: vec![1, 2],
                sw_axis_index: 1,
                sw_values_phys: vec![
                    SwValue::V(0.0f64.to_bits()),
                    SwValue::Vf(1.0f64.to_bits()),
                    SwValue::Vt("text".to_string()),
                ],
                unit: Some(unit()),
                unit_display_name: Some("display_name".to_string()),
            },
            SwAxisCont {
                category: SwAxisContCategory::ComAxis,
                sw_array_size: vec![3, 4],
                sw_axis_index: 2,
                sw_values_phys: vec![
                    SwValue::Vg {
                        label: Some("label".to_string()),
                        vg_content: vec![SwValue::VtfNumber(42.0f64.to_bits())],
                    },
                    SwValue::VtfText("text".to_string()),
                ],
                unit: None,
                unit_display_name: None,
            },
        ],
        sw_value_cont: SwValueCont {
            sw_array_size: vec![1, 2],
            sw_values_phys: vec![SwValue::Vf(0.0f64.to_bits()), SwValue::Vf(1.0f64.to_bits())],
        },
    }
}

#[test]
fn application_value_specification() {
    let spec_read = roundtrip(application_spec().into()).unwrap();
    assert_eq!(spec_read, application_spec().into());
}

#[test]
fn not_available_value_specification() {
    let spec = NotAvailableValueSpecification {
        label: Some("NotAvailableValue".to_string()),
        default_pattern: Some(0x11),
    };
    let spec_read = roundtrip(spec.clone().into()).unwrap();
    assert_eq!(spec_read, spec.into());
}

fn two_floats() -> Vec<RuleArgument> {
    vec![RuleArgument::Vf(0.0f64.to_bits()), RuleArgument::Vf(1.0f64.to_bits())]
}

#[test]
fn aplication_rule_based_value_specification() {
    let spec = ApplicationRuleBasedValueSpecification {
        label: Some("ApplicationRuleBasedValue".to_string()),
        category: ApplicationPrimitiveCategory::ResAxis,
        sw_axis_cont: vec![
            RuleBasedAxisCont {
                category: SwAxisContCategory::StdAxis,
                sw_array_size: vec![1, 2],
                sw_axis_index: 1,
                rule_based_values: RuleBasedValueSpecification {
                    arguments: vec![
                        RuleArgument::V(0.0f64.to_bits()),
                        RuleArgument::Vf(1.0f64.to_bits()),
                        RuleArgument::Vt("text".to_string()),
                        RuleArgument::VtfNumber(2.0f64.to_bits()),
                        RuleArgument::VtfText("text2".to_string()),
                    ],
                    max_size_to_fill: Some(10),
                    rule: RuleBasedFillUntil::MaxSize,
                },
                unit: Some(unit()),
            },
            RuleBasedAxisCont {
                category: SwAxisContCategory::ComAxis,
                sw_array_size: vec![3, 4],
                sw_axis_index: 2,
                rule_based_values: RuleBasedValueSpecification {
                    arguments: two_floats(),
                    max_size_to_fill: None,
                    rule: RuleBasedFillUntil::End,
                },
                unit: None,
            },
        ],
        sw_value_cont: RuleBasedValueCont {
            rule_based_values: RuleBasedValueSpecification {
                arguments: two_floats(),
                max_size_to_fill: None,
                rule: RuleBasedFillUntil::End,
            },
            sw_array_size: vec![1, 2],
            unit: Some(unit()),
        },
    };
    let spec_read = roundtrip(spec.clone().into()).unwrap();
    assert_eq!(spec_read, spec.into());
}

fn composite_spec() -> CompositeRuleBasedValueSpecification {
    CompositeRuleBasedValueSpecification {
        label: Some("CompositeRuleBasedValue".to_string()),
        argument: vec![CompositeValueSpecification::Array(ArrayValueSpecification {
            label: Some("ArrayValue".to_string()),
            values: vec![num(None, 123.4).into(), num(None, 0.12345).into()],
        })],
        compound_primitive_argument: vec![
            CompositeRuleBasedValueArgument::Application(ApplicationValueSpecification {
                label: Some("ApplicationValue".to_string()),
                category: ApplicationPrimitiveCategory::ResAxis,
                sw_axis_conts: vec![],
                sw_value_cont: SwValueCont {
                    sw_array_size: vec![1, 2],
                    sw_values_phys: vec![SwValue::Vf(0.0f64.to_bits()), SwValue::Vf(1.0f64.to_bits())],
                },
            }),
            CompositeRuleBasedValueArgument::ApplicationRuleBased(ApplicationRuleBasedValueSpecification {
                label: Some("ApplicationRuleBasedValue".to_string()),
                category: ApplicationPrimitiveCategory::ResAxis,
                sw_axis_cont: vec![],
                sw_value_cont: RuleBasedValueCont {
                    rule_based_values: RuleBasedValueSpecification {
                        arguments: two_floats(),
                        max_size_to_fill: None,
                        rule: RuleBasedFillUntil::End,
                    },
                    sw_array_size: vec![1, 2],
                    unit: None,
                },
            }),
        ],
        max_size_to_fill: Some(10),
        rule: RuleBasedFillUntil::MaxSize,
    }
}

#[test]
fn composite_rule_based_value_specification() {
    let spec_read = roundtrip(composite_spec().into()).unwrap();
    assert_eq!(spec_read, composite_spec().into());
}

#[test]
fn numerical_rule_based_value_specification() {
    let spec = NumericalRuleBasedValueSpecification {
        label: Some("NumericalRuleBasedValue".to_string()),
        rule_based_values: RuleBasedValueSpecification {
            arguments: two_floats(),
            max_size_to_fill: Some(10),
            rule: RuleBasedFillUntil::MaxSize,
        },
    };
    let spec_read = roundtrip(spec.clone().into()).unwrap();
    assert_eq!(spec_read, spec.into());
}

#[test]
fn conversions() {
    // RuleBasedFillUntil
    let value = RuleBasedFillUntil::End;
    let value_str = value.to_string();
    assert_eq!(value_str, "FILL_UNTIL_END");
    assert_eq!(RuleBasedFillUntil::from_str(&value_str).unwrap(), value);

    let value = RuleBasedFillUntil::MaxSize;
    let value_str = value.to_string();
    assert_eq!(value_str, "FILL_UNTIL_MAX_SIZE");
    assert_eq!(RuleBasedFillUntil::from_str(&value_str).unwrap(), value);

    // SwAxisContCategory
    let value = SwAxisContCategory::StdAxis;
    let enum_val: EnumItem = value.into();
    assert_eq!(enum_val, EnumItem::Stdaxis);
    assert_eq!(SwAxisContCategory::try_from(enum_val).unwrap(), value);
    // alternative form: EnumItem::StdAxis
    let enum_val = EnumItem::StdAxis;
    assert_eq!(SwAxisContCategory::try_from(enum_val).unwrap(), value);

    let value = SwAxisContCategory::ComAxis;
    let enum_val: EnumItem = value.into();
    assert_eq!(enum_val, EnumItem::Comaxis);
    assert_eq!(SwAxisContCategory::try_from(enum_val).unwrap(), value);
    // alternative form: EnumItem::ComAxis
    let enum_val = EnumItem::ComAxis;
    assert_eq!(SwAxisContCategory::try_from(enum_val).unwrap(), value);

    let value = SwAxisContCategory::ResAxis;
    let enum_val: EnumItem = value.into();
    assert_eq!(enum_val, EnumItem::Resaxis);
    assert_eq!(SwAxisContCategory::try_from(enum_val).unwrap(), value);
    // alternative form: EnumItem::ResAxis
    let enum_val = EnumItem::ResAxis;
    assert_eq!(SwAxisContCategory::try_from(enum_val).unwrap(), value);

    // invalid conversion
    assert!(SwAxisContCategory::try_from(EnumItem::Other).is_err());
}

// ---------------------------------------------------------------------------
// further cases

#[test]
fn fill_rule_from_unknown_text_is_an_error() {
    let r = RuleBasedFillUntil::from_str("FILL_UNTIL_NEVER");
    assert_eq!(
        r,
        Err(AutosarAbstractionError::ValueConversionError {
            value: "FILL_UNTIL_NEVER".to_string(),
            dest: "RuleBasedFillUntil".to_string(),
        })
    );
}

#[test]
fn application_categories_convert_both_ways() {
    let all = [
        (ApplicationPrimitiveCategory::Value, "VALUE"),
        (ApplicationPrimitiveCategory::ValBlk, "VAL_BLK"),
        (ApplicationPrimitiveCategory::String, "STRING"),
        (ApplicationPrimitiveCategory::Boolean, "BOOLEAN"),
        (ApplicationPrimitiveCategory::ComAxis, "COM_AXIS"),
        (ApplicationPrimitiveCategory::ResAxis, "RES_AXIS"),
        (ApplicationPrimitiveCategory::Curve, "CURVE"),
        (ApplicationPrimitiveCategory::Map2d, "MAP"),
        (ApplicationPrimitiveCategory::Cuboid, "CUBOID"),
        (ApplicationPrimitiveCategory::Cube4, "CUBE_4"),
        (ApplicationPrimitiveCategory::Cube5, "CUBE_5"),
    ];
    for (category, text) in all {
        assert_eq!(category.to_string(), text);
        assert_eq!(ApplicationPrimitiveCategory::from_str(text).unwrap(), category);
    }
    assert!(ApplicationPrimitiveCategory::from_str("CUBE_6").is_err());
}

#[test]
fn data_prototype_from_reference_of_another_kind_is_an_error() {
    let target = ElementRef {
        kind: ElementName::ConstantSpecification,
        path: "/Pkg/ConstantSpec".to_string(),
    };
    assert!(DataPrototype::try_from(target).is_err());
    let target = ElementRef {
        kind: ElementName::VariableDataPrototype,
        path: "/Pkg/SR_Interface/vdp".to_string(),
    };
    assert_eq!(
        DataPrototype::try_from(target).unwrap(),
        DataPrototype::VariableDataPrototype(VariableDataPrototype {
            path: "/Pkg/SR_Interface/vdp".to_string()
        })
    );
}

#[test]
fn replacing_the_value_of_a_constant() {
    let (constant, mut element) = ConstantSpecification::new("C", "/Pkg", &num(None, 1.0).into(), SchemaSupport::latest());
    constant.set_value_specification(&mut element, &num(Some("second"), 2.5).into(), SchemaSupport::latest());
    constant.set_value_specification(&mut element, &num(Some("third"), -7.25).into(), SchemaSupport::latest());
    assert_eq!(
        constant.value_specification(&element).unwrap(),
        num(Some("third"), -7.25).into()
    );
    // one VALUE-SPEC only
    let count = element
        .sub_elements
        .iter()
        .filter(|e| e.name == ElementName::ValueSpec)
        .count();
    assert_eq!(count, 1);
}

#[test]
fn numerical_value_written_as_text_is_parsed() {
    // a numerical value element whose value is text, as it comes from a file
    let mut value = Element::new(ElementName::NumericalValueSpecification);
    let mut v = Element::new(ElementName::Value);
    v.set_character_data(CharacterData::String("2.5".to_string()));
    value.push_sub_element(v);
    let loaded = ValueSpecification::load(&value).unwrap();
    assert_eq!(loaded, num(None, 2.5).into());
}

#[test]
fn empty_value_element_loads_as_nothing() {
    let value = Element::new(ElementName::Other);
    assert!(ValueSpecification::load(&value).is_none());
}

#[test]
fn numerical_value_written_as_integer_is_converted() {
    let mut value = Element::new(ElementName::NumericalValueSpecification);
    let mut v = Element::new(ElementName::Value);
    v.set_character_data(CharacterData::UnsignedInteger(3));
    value.push_sub_element(v);
    let loaded = ValueSpecification::load(&value).unwrap();
    assert_eq!(loaded, num(None, 3.0).into());
}

#[test]
fn display_name_and_pattern_left_out_where_the_version_lacks_them() {
    let without = SchemaSupport {
        unit_display_name: false,
        default_pattern: false,
    };
    // the application value has an axis with a display name
    let (constant, element) = ConstantSpecification::new("C", "/Pkg", &application_spec().into(), without);
    let mut expected = application_spec();
    expected.sw_axis_conts[0].unit_display_name = None;
    assert_eq!(constant.value_specification(&element).unwrap(), expected.into());

    let spec = NotAvailableValueSpecification {
        label: Some("NotAvailableValue".to_string()),
        default_pattern: Some(0x11),
    };
    let (constant, element) = ConstantSpecification::new("C", "/Pkg", &spec.clone().into(), without);
    assert_eq!(
        constant.value_specification(&element).unwrap(),
        NotAvailableValueSpecification {
            label: Some("NotAvailableValue".to_string()),
            default_pattern: None,
        }
        .into()
    );
    // with the latest version the pattern is kept
    assert_eq!(roundtrip(spec.clone().into()).unwrap(), spec.into());
}

#[test]
fn constant_element_holds_name_and_one_value() {
    let (_constant, element) = ConstantSpecification::new("C", "/Pkg", &num(None, 1.0).into(), SchemaSupport::latest());
    let names: Vec<ElementName> = element.sub_elements.iter().map(|e| e.name).collect();
    assert_eq!(names, vec![ElementName::ShortName, ElementName::ValueSpec]);
}

#[test]
fn constant_name() {
    let (constant, element) = ConstantSpecification::new("ConstantSpec", "/Pkg", &num(None, 12.0).into(), SchemaSupport::latest());
    assert_eq!(constant.name(&element), Some("ConstantSpec".to_string()));
    assert_eq!(constant.name(&Element::new(ElementName::ConstantSpecification)), None);
}
