//! How value specifications are laid out as elements: the element each value is
//! stored as, and the value read from an element.

use vstd::prelude::*;
use vstd::string::StringExecFns;
use crate::element::{
    CharacterData, CharacterDataView, Element, ElementName, ElementRef, ElementView, EnumItem, item_text,
    LeafUpdate, LeafUpdateView, updated_at, lemma_updated_at_reads_back, lemma_element_at_one,
    first_index, find_named, at_most_one, lemma_without_leaves_none, without_sub_element, lemma_elements_view, lemma_find_absent, lemma_find_unique,
    sub_element,
};
use crate::chardata::{spec_parse_float, spec_parse_integer_u64, spec_string_value, spec_enum_value, text_is};
use crate::error::AutosarAbstractionError;
use crate::values::{
    ApplicationRuleBasedValueSpecification, ApplicationValueSpecification, ArrayValueSpecification,
    ArgumentDataPrototype, ApplicationArrayElement, ApplicationRecordElement, CompositeRuleBasedValueArgument,
    CompositeRuleBasedValueSpecification, CompositeValueSpecification, ConstantReference,
    ConstantSpecification, DataPrototype, NotAvailableValueSpecification,
    NumericalRuleBasedValueSpecification, NumericalValueSpecification, ParameterDataPrototype,
    RecordValueSpecification, ReferenceValueSpecification, RuleArgument, RuleBasedAxisCont,
    RuleBasedValueCont, RuleBasedValueSpecification, SwAxisCont, SwValue, SwValueCont,
    TextValueSpecification, Unit, ValueSpecification, VariableDataPrototype, opt_str_view,
    opt_unit_view, value_specs_view, sw_values_view,
    composite_values_view,
    ApplicationPrimitiveCategory, ApplicationRuleBasedValueSpecificationView,
    ApplicationValueSpecificationView, ArrayValueSpecificationView,
    CompositeRuleBasedValueArgumentView, CompositeRuleBasedValueSpecificationView,
    CompositeValueSpecificationView, ConstantReferenceView, DataPrototypeView,
    NotAvailableValueSpecificationView, NumericalRuleBasedValueSpecificationView,
    NumericalValueSpecificationView, RecordValueSpecificationView, ReferenceValueSpecificationView,
    RuleArgumentView, RuleBasedAxisContView, RuleBasedFillUntil, RuleBasedValueContView,
    RuleBasedValueSpecificationView, SchemaSupport, SwAxisContCategory, SwAxisContView, SwValueContView,
    SwValueView, TextValueSpecificationView, ValueSpecificationView,
};

verus! {

//#########################################################
// building blocks

/// an element that holds character data
pub open spec fn leaf(name: ElementName, cd: CharacterDataView) -> ElementView {
    ElementView { name, character_data: Some(cd), target_kind: None, sub_elements: Seq::empty() }
}

/// an element that holds sub elements
pub open spec fn node(name: ElementName, sub_elements: Seq<ElementView>) -> ElementView {
    ElementView { name, character_data: None, target_kind: None, sub_elements }
}

/// a reference element that refers to the element of the given kind at the given path
pub open spec fn ref_leaf(name: ElementName, kind: ElementName, path: Seq<char>) -> ElementView {
    ElementView {
        name,
        character_data: Some(CharacterDataView::String(path)),
        target_kind: Some(kind),
        sub_elements: Seq::empty(),
    }
}

/// `e` with one more sub element at the end
pub open spec fn with_sub(e: ElementView, sub: ElementView) -> ElementView {
    ElementView { sub_elements: e.sub_elements.push(sub), ..e }
}

/// `e` with more sub elements at the end
pub open spec fn with_subs(e: ElementView, subs: Seq<ElementView>) -> ElementView {
    ElementView { sub_elements: e.sub_elements + subs, ..e }
}

/// the character data of an optional element
pub open spec fn data_of(e: Option<ElementView>) -> Option<CharacterDataView> {
    match e {
        Some(x) => x.character_data,
        None => None,
    }
}

/// the text of an optional element
pub open spec fn text_of(e: Option<ElementView>) -> Option<Seq<char>> {
    match data_of(e) {
        Some(cd) => spec_string_value(cd),
        None => None,
    }
}

/// the integer of an optional element
pub open spec fn integer_of(e: Option<ElementView>) -> Option<u64> {
    match data_of(e) {
        Some(cd) => spec_parse_integer_u64(cd),
        None => None,
    }
}

/// the double (by its bits) of an optional element
pub open spec fn float_of(e: Option<ElementView>) -> Option<u64> {
    match data_of(e) {
        Some(cd) => spec_parse_float(cd),
        None => None,
    }
}

/// the reference target (kind and path) of an optional element
pub open spec fn target_of(e: Option<ElementView>) -> Option<(ElementName, Seq<char>)> {
    match e {
        Some(x) => match (x.character_data, x.target_kind) {
            (Some(CharacterDataView::String(p)), Some(k)) => Some((k, p)),
            _ => None,
        },
        None => None,
    }
}

/// the SHORT-LABEL element of a label, if there is one
pub open spec fn label_elements(label: Option<Seq<char>>) -> Seq<ElementView> {
    match label {
        Some(l) => seq![leaf(ElementName::ShortLabel, CharacterDataView::String(l))],
        None => Seq::empty(),
    }
}

/// the label read from an element
pub open spec fn load_label(e: ElementView) -> Option<Seq<char>> {
    text_of(sub_element(e, ElementName::ShortLabel))
}

/// the element of an optional unsigned integer
pub open spec fn optional_integer_elements(name: ElementName, value: Option<u64>) -> Seq<ElementView> {
    match value {
        Some(n) => seq![leaf(name, CharacterDataView::UnsignedInteger(n))],
        None => Seq::empty(),
    }
}

/// the UNIT-REF element of an optional unit
pub open spec fn unit_elements(unit: Option<Seq<char>>) -> Seq<ElementView> {
    match unit {
        Some(u) => seq![ref_leaf(ElementName::UnitRef, ElementName::Unit, u)],
        None => Seq::empty(),
    }
}

/// the unit read from the UNIT-REF sub element of `e`
pub open spec fn load_unit(e: ElementView) -> Option<Seq<char>> {
    match target_of(sub_element(e, ElementName::UnitRef)) {
        Some((k, p)) => if k == ElementName::Unit {
            Some(p)
        } else {
            None
        },
        None => None,
    }
}

/// the SW-ARRAYSIZE element of a list of dimensions
pub open spec fn array_size_element(sizes: Seq<u64>) -> ElementView {
    node(
        ElementName::SwArraysize,
        sizes.map_values(|n: u64| leaf(ElementName::Vf, CharacterDataView::UnsignedInteger(n))),
    )
}

/// the integers read from the sub elements of `s`, skipping those that are not integers
pub open spec fn load_integers(s: Seq<ElementView>) -> Seq<u64>
    decreases s.len(),
{
    if s.len() == 0 {
        Seq::empty()
    } else {
        let r = load_integers(s.subrange(0, s.len() - 1));
        match integer_of(Some(s[s.len() - 1])) {
            Some(n) => r.push(n),
            None => r,
        }
    }
}

//#########################################################
// enumerations as text

pub open spec fn category_text(c: ApplicationPrimitiveCategory) -> Seq<char> {
    match c {
        ApplicationPrimitiveCategory::Value => "VALUE"@,
        ApplicationPrimitiveCategory::ValBlk => "VAL_BLK"@,
        ApplicationPrimitiveCategory::String => "STRING"@,
        ApplicationPrimitiveCategory::Boolean => "BOOLEAN"@,
        ApplicationPrimitiveCategory::ComAxis => "COM_AXIS"@,
        ApplicationPrimitiveCategory::ResAxis => "RES_AXIS"@,
        ApplicationPrimitiveCategory::Curve => "CURVE"@,
        ApplicationPrimitiveCategory::Map2d => "MAP"@,
        ApplicationPrimitiveCategory::Cuboid => "CUBOID"@,
        ApplicationPrimitiveCategory::Cube4 => "CUBE_4"@,
        ApplicationPrimitiveCategory::Cube5 => "CUBE_5"@,
    }
}

pub open spec fn category_from_text(t: Seq<char>) -> Option<ApplicationPrimitiveCategory> {
    if t == "VALUE"@ {
        Some(ApplicationPrimitiveCategory::Value)
    } else if t == "VAL_BLK"@ {
        Some(ApplicationPrimitiveCategory::ValBlk)
    } else if t == "STRING"@ {
        Some(ApplicationPrimitiveCategory::String)
    } else if t == "BOOLEAN"@ {
        Some(ApplicationPrimitiveCategory::Boolean)
    } else if t == "COM_AXIS"@ {
        Some(ApplicationPrimitiveCategory::ComAxis)
    } else if t == "RES_AXIS"@ {
        Some(ApplicationPrimitiveCategory::ResAxis)
    } else if t == "CURVE"@ {
        Some(ApplicationPrimitiveCategory::Curve)
    } else if t == "MAP"@ {
        Some(ApplicationPrimitiveCategory::Map2d)
    } else if t == "CUBOID"@ {
        Some(ApplicationPrimitiveCategory::Cuboid)
    } else if t == "CUBE_4"@ {
        Some(ApplicationPrimitiveCategory::Cube4)
    } else if t == "CUBE_5"@ {
        Some(ApplicationPrimitiveCategory::Cube5)
    } else {
        None
    }
}

pub open spec fn rule_text(r: RuleBasedFillUntil) -> Seq<char> {
    match r {
        RuleBasedFillUntil::End => "FILL_UNTIL_END"@,
        RuleBasedFillUntil::MaxSize => "FILL_UNTIL_MAX_SIZE"@,
    }
}

pub open spec fn rule_from_text(t: Seq<char>) -> Option<RuleBasedFillUntil> {
    if t == "FILL_UNTIL_END"@ {
        Some(RuleBasedFillUntil::End)
    } else if t == "FILL_UNTIL_MAX_SIZE"@ {
        Some(RuleBasedFillUntil::MaxSize)
    } else {
        None
    }
}

/// the enumeration item that an axis category is written as
pub open spec fn axis_category_item(c: SwAxisContCategory) -> EnumItem {
    match c {
        SwAxisContCategory::StdAxis => EnumItem::Stdaxis,
        SwAxisContCategory::ComAxis => EnumItem::Comaxis,
        SwAxisContCategory::ResAxis => EnumItem::Resaxis,
    }
}

/// the axis category an enumeration item stands for; both the old and the new spelling
pub open spec fn axis_category_from_item(e: EnumItem) -> Option<SwAxisContCategory> {
    match e {
        EnumItem::StdAxis | EnumItem::Stdaxis => Some(SwAxisContCategory::StdAxis),
        EnumItem::ComAxis | EnumItem::Comaxis => Some(SwAxisContCategory::ComAxis),
        EnumItem::ResAxis | EnumItem::Resaxis => Some(SwAxisContCategory::ResAxis),
        _ => None,
    }
}

/// the axis category read from the CATEGORY sub element of `e`
pub open spec fn load_axis_category(e: ElementView) -> Option<SwAxisContCategory> {
    match data_of(sub_element(e, ElementName::Category)) {
        Some(cd) => match spec_enum_value(cd) {
            Some(item) => axis_category_from_item(item),
            None => None,
        },
        None => None,
    }
}

//#########################################################
// data prototypes

pub open spec fn data_prototype_kind(d: DataPrototypeView) -> ElementName {
    match d {
        DataPrototypeView::ArgumentDataPrototype(_) => ElementName::ArgumentDataPrototype,
        DataPrototypeView::ParameterDataPrototype(_) => ElementName::ParameterDataPrototype,
        DataPrototypeView::VariableDataPrototype(_) => ElementName::VariableDataPrototype,
        DataPrototypeView::ApplicationArrayElement(_) => ElementName::Element,
        DataPrototypeView::ApplicationRecordElement(_) => ElementName::ApplicationRecordElement,
    }
}

pub open spec fn data_prototype_path(d: DataPrototypeView) -> Seq<char> {
    match d {
        DataPrototypeView::ArgumentDataPrototype(p) => p,
        DataPrototypeView::ParameterDataPrototype(p) => p,
        DataPrototypeView::VariableDataPrototype(p) => p,
        DataPrototypeView::ApplicationArrayElement(p) => p,
        DataPrototypeView::ApplicationRecordElement(p) => p,
    }
}

/// the data prototype that a reference to an element of the given kind stands for
pub open spec fn data_prototype_from(kind: ElementName, path: Seq<char>) -> Option<DataPrototypeView> {
    match kind {
        ElementName::ArgumentDataPrototype => Some(DataPrototypeView::ArgumentDataPrototype(path)),
        ElementName::ParameterDataPrototype => Some(DataPrototypeView::ParameterDataPrototype(path)),
        ElementName::VariableDataPrototype => Some(DataPrototypeView::VariableDataPrototype(path)),
        ElementName::Element => Some(DataPrototypeView::ApplicationArrayElement(path)),
        ElementName::ApplicationRecordElement => Some(DataPrototypeView::ApplicationRecordElement(path)),
        _ => None,
    }
}


/// Law: a data prototype is referred to as an element of its own kind (an argument as an
/// ARGUMENT-DATA-PROTOTYPE, a parameter as a PARAMETER-DATA-PROTOTYPE, a variable as a
/// VARIABLE-DATA-PROTOTYPE, an array element as an ELEMENT, a record element as an
/// APPLICATION-RECORD-ELEMENT), with its path; a reference to an element of one of these
/// kinds stands for the data prototype of that same kind at the referred path, and a
/// reference to an element of any other kind stands for none.
pub proof fn lemma_data_prototype_kinds(p: Seq<char>, k: ElementName)
    ensures
        data_prototype_kind(DataPrototypeView::ArgumentDataPrototype(p)) == ElementName::ArgumentDataPrototype,
        data_prototype_kind(DataPrototypeView::ParameterDataPrototype(p)) == ElementName::ParameterDataPrototype,
        data_prototype_kind(DataPrototypeView::VariableDataPrototype(p)) == ElementName::VariableDataPrototype,
        data_prototype_kind(DataPrototypeView::ApplicationArrayElement(p)) == ElementName::Element,
        data_prototype_kind(DataPrototypeView::ApplicationRecordElement(p)) == ElementName::ApplicationRecordElement,
        data_prototype_path(DataPrototypeView::ArgumentDataPrototype(p)) == p,
        data_prototype_path(DataPrototypeView::ParameterDataPrototype(p)) == p,
        data_prototype_path(DataPrototypeView::VariableDataPrototype(p)) == p,
        data_prototype_path(DataPrototypeView::ApplicationArrayElement(p)) == p,
        data_prototype_path(DataPrototypeView::ApplicationRecordElement(p)) == p,
        data_prototype_from(ElementName::ArgumentDataPrototype, p) == Some(DataPrototypeView::ArgumentDataPrototype(p)),
        data_prototype_from(ElementName::ParameterDataPrototype, p) == Some(DataPrototypeView::ParameterDataPrototype(p)),
        data_prototype_from(ElementName::VariableDataPrototype, p) == Some(DataPrototypeView::VariableDataPrototype(p)),
        data_prototype_from(ElementName::Element, p) == Some(DataPrototypeView::ApplicationArrayElement(p)),
        data_prototype_from(ElementName::ApplicationRecordElement, p) == Some(
            DataPrototypeView::ApplicationRecordElement(p),
        ),
        k != ElementName::ArgumentDataPrototype && k != ElementName::ParameterDataPrototype && k
            != ElementName::VariableDataPrototype && k != ElementName::Element && k
            != ElementName::ApplicationRecordElement ==> data_prototype_from(k, p) is None,
{
}

//#########################################################
// rule arguments and rule based values

pub open spec fn store_rule_argument(a: RuleArgumentView) -> ElementView {
    match a {
        RuleArgumentView::V(x) => leaf(ElementName::V, CharacterDataView::Float(x)),
        RuleArgumentView::Vf(x) => leaf(ElementName::Vf, CharacterDataView::Float(x)),
        RuleArgumentView::Vt(t) => leaf(ElementName::Vt, CharacterDataView::String(t)),
        RuleArgumentView::VtfNumber(x) => node(
            ElementName::Vtf,
            seq![leaf(ElementName::Vf, CharacterDataView::Float(x))],
        ),
        RuleArgumentView::VtfText(t) => node(
            ElementName::Vtf,
            seq![leaf(ElementName::Vt, CharacterDataView::String(t))],
        ),
    }
}

pub open spec fn load_rule_argument(e: ElementView) -> Option<RuleArgumentView> {
    match e.name {
        ElementName::V => match float_of(Some(e)) {
            Some(x) => Some(RuleArgumentView::V(x)),
            None => None,
        },
        ElementName::Vf => match float_of(Some(e)) {
            Some(x) => Some(RuleArgumentView::Vf(x)),
            None => None,
        },
        ElementName::Vt => match text_of(Some(e)) {
            Some(t) => Some(RuleArgumentView::Vt(t)),
            None => None,
        },
        ElementName::Vtf => match sub_element(e, ElementName::Vf) {
            Some(vf) => match float_of(Some(vf)) {
                Some(x) => Some(RuleArgumentView::VtfNumber(x)),
                None => None,
            },
            None => match text_of(sub_element(e, ElementName::Vt)) {
                Some(t) => Some(RuleArgumentView::VtfText(t)),
                None => None,
            },
        },
        _ => None,
    }
}

/// the rule arguments read from `s`, skipping the elements that are none
pub open spec fn load_rule_arguments(s: Seq<ElementView>) -> Seq<RuleArgumentView>
    decreases s.len(),
{
    if s.len() == 0 {
        Seq::empty()
    } else {
        let r = load_rule_arguments(s.subrange(0, s.len() - 1));
        match load_rule_argument(s[s.len() - 1]) {
            Some(a) => r.push(a),
            None => r,
        }
    }
}

pub open spec fn store_rule_based_values(r: RuleBasedValueSpecificationView) -> ElementView {
    node(
        ElementName::RuleBasedValues,
        seq![
            node(
                ElementName::Argumentss,
                seq![node(ElementName::RuleArguments, r.arguments.map_values(|a: RuleArgumentView| store_rule_argument(a)))],
            ),
        ] + optional_integer_elements(ElementName::MaxSizeToFill, r.max_size_to_fill) + seq![
            leaf(ElementName::Rule, CharacterDataView::String(rule_text(r.rule))),
        ],
    )
}

pub open spec fn load_rule_based_values(e: ElementView) -> Option<RuleBasedValueSpecificationView> {
    match sub_element(e, ElementName::Argumentss) {
        Some(a) => match sub_element(a, ElementName::RuleArguments) {
            Some(ra) => match text_of(sub_element(e, ElementName::Rule)) {
                Some(t) => match rule_from_text(t) {
                    Some(rule) => Some(RuleBasedValueSpecificationView {
                        arguments: load_rule_arguments(ra.sub_elements),
                        max_size_to_fill: integer_of(sub_element(e, ElementName::MaxSizeToFill)),
                        rule,
                    }),
                    None => None,
                },
                None => None,
            },
            None => None,
        },
        None => None,
    }
}

//#########################################################
// values of compound primitive data types

pub open spec fn vg_label_elements(label: Option<Seq<char>>) -> Seq<ElementView> {
    match label {
        Some(l) => seq![node(ElementName::Label, seq![leaf(ElementName::L4, CharacterDataView::String(l))])],
        None => Seq::empty(),
    }
}

pub open spec fn store_sw_value(v: SwValueView) -> ElementView
    decreases v,
{
    match v {
        SwValueView::V(x) => leaf(ElementName::V, CharacterDataView::Float(x)),
        SwValueView::Vf(x) => leaf(ElementName::Vf, CharacterDataView::Float(x)),
        SwValueView::Vg { label, vg_content } => node(
            ElementName::Vg,
            vg_label_elements(label) + store_sw_values(vg_content),
        ),
        SwValueView::Vt(t) => leaf(ElementName::Vt, CharacterDataView::String(t)),
        SwValueView::VtfNumber(x) => node(
            ElementName::Vtf,
            seq![leaf(ElementName::Vf, CharacterDataView::Float(x))],
        ),
        SwValueView::VtfText(t) => node(
            ElementName::Vtf,
            seq![leaf(ElementName::Vt, CharacterDataView::String(t))],
        ),
    }
}

pub open spec fn store_sw_values(s: Seq<SwValueView>) -> Seq<ElementView>
    decreases s,
{
    if s.len() == 0 {
        Seq::empty()
    } else {
        store_sw_values(s.subrange(0, s.len() - 1)).push(store_sw_value(s[s.len() - 1]))
    }
}

/// the label of a value group: the text of LABEL/L-4
pub open spec fn load_vg_label(e: ElementView) -> Option<Seq<char>> {
    match sub_element(e, ElementName::Label) {
        Some(l) => text_of(sub_element(l, ElementName::L4)),
        None => None,
    }
}

pub open spec fn load_sw_value(e: ElementView) -> Option<SwValueView>
    decreases e,
{
    match e.name {
        ElementName::V => match float_of(Some(e)) {
            Some(x) => Some(SwValueView::V(x)),
            None => None,
        },
        ElementName::Vf => match float_of(Some(e)) {
            Some(x) => Some(SwValueView::Vf(x)),
            None => None,
        },
        ElementName::Vg => Some(
            SwValueView::Vg { label: load_vg_label(e), vg_content: load_sw_values(e.sub_elements) },
        ),
        ElementName::Vt => match text_of(Some(e)) {
            Some(t) => Some(SwValueView::Vt(t)),
            None => None,
        },
        ElementName::Vtf => match sub_element(e, ElementName::Vf) {
            Some(vf) => match float_of(Some(vf)) {
                Some(x) => Some(SwValueView::VtfNumber(x)),
                None => None,
            },
            None => match text_of(sub_element(e, ElementName::Vt)) {
                Some(t) => Some(SwValueView::VtfText(t)),
                None => None,
            },
        },
        _ => None,
    }
}

/// the values read from `s`, skipping the elements that are none
pub open spec fn load_sw_values(s: Seq<ElementView>) -> Seq<SwValueView>
    decreases s,
{
    if s.len() == 0 {
        Seq::empty()
    } else {
        let r = load_sw_values(s.subrange(0, s.len() - 1));
        match load_sw_value(s[s.len() - 1]) {
            Some(v) => r.push(v),
            None => r,
        }
    }
}

pub open spec fn display_name_elements(name: Option<Seq<char>>) -> Seq<ElementView> {
    match name {
        Some(n) => seq![leaf(ElementName::UnitDisplayName, CharacterDataView::String(n))],
        None => Seq::empty(),
    }
}

pub open spec fn store_sw_axis_cont(a: SwAxisContView) -> ElementView {
    node(
        ElementName::SwAxisCont,
        seq![
            leaf(ElementName::Category, CharacterDataView::Enum(axis_category_item(a.category))),
            array_size_element(a.sw_array_size),
            leaf(ElementName::SwAxisIndex, CharacterDataView::UnsignedInteger(a.sw_axis_index)),
            node(ElementName::SwValuesPhys, store_sw_values(a.sw_values_phys)),
        ] + unit_elements(a.unit) + display_name_elements(a.unit_display_name),
    )
}

pub open spec fn load_sw_axis_cont(e: ElementView) -> Option<SwAxisContView> {
    match (
        load_axis_category(e),
        sub_element(e, ElementName::SwArraysize),
        integer_of(sub_element(e, ElementName::SwAxisIndex)),
        sub_element(e, ElementName::SwValuesPhys),
    ) {
        (Some(category), Some(sizes), Some(index), Some(values)) => Some(
            SwAxisContView {
                category,
                sw_array_size: load_integers(sizes.sub_elements),
                sw_axis_index: index,
                sw_values_phys: load_sw_values(values.sub_elements),
                unit: load_unit(e),
                unit_display_name: text_of(sub_element(e, ElementName::UnitDisplayName)),
            },
        ),
        _ => None,
    }
}

pub open spec fn load_sw_axis_conts(s: Seq<ElementView>) -> Seq<SwAxisContView>
    decreases s.len(),
{
    if s.len() == 0 {
        Seq::empty()
    } else {
        let r = load_sw_axis_conts(s.subrange(0, s.len() - 1));
        match load_sw_axis_cont(s[s.len() - 1]) {
            Some(a) => r.push(a),
            None => r,
        }
    }
}

/// the sub elements that a SwValueCont adds to its parent
pub open spec fn store_sw_value_cont(c: SwValueContView) -> Seq<ElementView> {
    seq![
        array_size_element(c.sw_array_size),
        node(ElementName::SwValuesPhys, store_sw_values(c.sw_values_phys)),
    ]
}

pub open spec fn load_sw_value_cont(e: ElementView) -> Option<SwValueContView> {
    match (sub_element(e, ElementName::SwArraysize), sub_element(e, ElementName::SwValuesPhys)) {
        (Some(sizes), Some(values)) => Some(
            SwValueContView {
                sw_array_size: load_integers(sizes.sub_elements),
                sw_values_phys: load_sw_values(values.sub_elements),
            },
        ),
        _ => None,
    }
}

pub open spec fn store_rule_based_axis_cont(a: RuleBasedAxisContView) -> ElementView {
    node(
        ElementName::RuleBasedAxisCont,
        seq![
            leaf(ElementName::Category, CharacterDataView::Enum(axis_category_item(a.category))),
            array_size_element(a.sw_array_size),
            leaf(ElementName::SwAxisIndex, CharacterDataView::UnsignedInteger(a.sw_axis_index)),
            store_rule_based_values(a.rule_based_values),
        ] + unit_elements(a.unit),
    )
}

pub open spec fn load_rule_based_axis_cont(e: ElementView) -> Option<RuleBasedAxisContView> {
    match (
        load_axis_category(e),
        sub_element(e, ElementName::SwArraysize),
        integer_of(sub_element(e, ElementName::SwAxisIndex)),
        sub_element(e, ElementName::RuleBasedValues),
    ) {
        (Some(category), Some(sizes), Some(index), Some(rbv)) => match load_rule_based_values(rbv) {
            Some(values) => Some(
                RuleBasedAxisContView {
                    category,
                    sw_array_size: load_integers(sizes.sub_elements),
                    sw_axis_index: index,
                    rule_based_values: values,
                    unit: load_unit(e),
                },
            ),
            None => None,
        },
        _ => None,
    }
}

pub open spec fn load_rule_based_axis_conts(s: Seq<ElementView>) -> Seq<RuleBasedAxisContView>
    decreases s.len(),
{
    if s.len() == 0 {
        Seq::empty()
    } else {
        let r = load_rule_based_axis_conts(s.subrange(0, s.len() - 1));
        match load_rule_based_axis_cont(s[s.len() - 1]) {
            Some(a) => r.push(a),
            None => r,
        }
    }
}

pub open spec fn store_rule_based_value_cont(c: RuleBasedValueContView) -> ElementView {
    node(
        ElementName::SwValueCont,
        seq![store_rule_based_values(c.rule_based_values), array_size_element(c.sw_array_size)]
            + unit_elements(c.unit),
    )
}

pub open spec fn load_rule_based_value_cont(e: ElementView) -> Option<RuleBasedValueContView> {
    match (sub_element(e, ElementName::RuleBasedValues), sub_element(e, ElementName::SwArraysize)) {
        (Some(rbv), Some(sizes)) => match load_rule_based_values(rbv) {
            Some(values) => Some(
                RuleBasedValueContView {
                    rule_based_values: values,
                    sw_array_size: load_integers(sizes.sub_elements),
                    unit: load_unit(e),
                },
            ),
            None => None,
        },
        _ => None,
    }
}

//#########################################################
// value specifications without nested value specifications

pub open spec fn store_text(t: TextValueSpecificationView) -> ElementView {
    node(
        ElementName::TextValueSpecification,
        label_elements(t.label) + seq![leaf(ElementName::Value, CharacterDataView::String(t.value))],
    )
}

pub open spec fn load_text(e: ElementView) -> Option<TextValueSpecificationView> {
    match text_of(sub_element(e, ElementName::Value)) {
        Some(v) => Some(TextValueSpecificationView { label: load_label(e), value: v }),
        None => None,
    }
}

pub open spec fn store_numerical(n: NumericalValueSpecificationView) -> ElementView {
    node(
        ElementName::NumericalValueSpecification,
        label_elements(n.label) + seq![leaf(ElementName::Value, CharacterDataView::Float(n.value))],
    )
}

pub open spec fn load_numerical(e: ElementView) -> Option<NumericalValueSpecificationView> {
    match float_of(sub_element(e, ElementName::Value)) {
        Some(v) => Some(NumericalValueSpecificationView { label: load_label(e), value: v }),
        None => None,
    }
}

pub open spec fn store_constant_reference(c: ConstantReferenceView) -> ElementView {
    node(
        ElementName::ConstantReference,
        label_elements(c.label) + seq![
            ref_leaf(ElementName::ConstantRef, ElementName::ConstantSpecification, c.constant),
        ],
    )
}

pub open spec fn load_constant_reference(e: ElementView) -> Option<ConstantReferenceView> {
    match target_of(sub_element(e, ElementName::ConstantRef)) {
        Some((k, p)) => if k == ElementName::ConstantSpecification {
            Some(ConstantReferenceView { label: load_label(e), constant: p })
        } else {
            None
        },
        None => None,
    }
}

pub open spec fn store_not_available(n: NotAvailableValueSpecificationView) -> ElementView {
    node(
        ElementName::NotAvailableValueSpecification,
        label_elements(n.label) + optional_integer_elements(ElementName::DefaultPattern, n.default_pattern),
    )
}

pub open spec fn load_not_available(e: ElementView) -> Option<NotAvailableValueSpecificationView> {
    Some(
        NotAvailableValueSpecificationView {
            label: load_label(e),
            default_pattern: integer_of(sub_element(e, ElementName::DefaultPattern)),
        },
    )
}

pub open spec fn store_reference(r: ReferenceValueSpecificationView) -> ElementView {
    node(
        ElementName::ReferenceValueSpecification,
        label_elements(r.label) + seq![
            ref_leaf(
                ElementName::ReferenceValueRef,
                data_prototype_kind(r.reference_value),
                data_prototype_path(r.reference_value),
            ),
        ],
    )
}

pub open spec fn load_reference(e: ElementView) -> Option<ReferenceValueSpecificationView> {
    match target_of(sub_element(e, ElementName::ReferenceValueRef)) {
        Some((k, p)) => match data_prototype_from(k, p) {
            Some(d) => Some(ReferenceValueSpecificationView { label: load_label(e), reference_value: d }),
            None => None,
        },
        None => None,
    }
}

pub open spec fn store_application(a: ApplicationValueSpecificationView) -> ElementView {
    node(
        ElementName::ApplicationValueSpecification,
        label_elements(a.label) + seq![
            leaf(ElementName::Category, CharacterDataView::String(category_text(a.category))),
            node(ElementName::SwAxisConts, a.sw_axis_conts.map_values(|x: SwAxisContView| store_sw_axis_cont(x))),
            node(ElementName::SwValueCont, store_sw_value_cont(a.sw_value_cont)),
        ],
    )
}

pub open spec fn load_application(e: ElementView) -> Option<ApplicationValueSpecificationView> {
    match (
        text_of(sub_element(e, ElementName::Category)),
        sub_element(e, ElementName::SwAxisConts),
        sub_element(e, ElementName::SwValueCont),
    ) {
        (Some(t), Some(axes), Some(vc)) => match (category_from_text(t), load_sw_value_cont(vc)) {
            (Some(category), Some(values)) => Some(
                ApplicationValueSpecificationView {
                    label: load_label(e),
                    category,
                    sw_axis_conts: load_sw_axis_conts(axes.sub_elements),
                    sw_value_cont: values,
                },
            ),
            _ => None,
        },
        _ => None,
    }
}

pub open spec fn store_application_rule_based(a: ApplicationRuleBasedValueSpecificationView) -> ElementView {
    node(
        ElementName::ApplicationRuleBasedValueSpecification,
        label_elements(a.label) + seq![
            leaf(ElementName::Category, CharacterDataView::String(category_text(a.category))),
            node(
                ElementName::SwAxisConts,
                a.sw_axis_cont.map_values(|x: RuleBasedAxisContView| store_rule_based_axis_cont(x)),
            ),
            store_rule_based_value_cont(a.sw_value_cont),
        ],
    )
}

pub open spec fn load_application_rule_based(e: ElementView) -> Option<ApplicationRuleBasedValueSpecificationView> {
    match (
        text_of(sub_element(e, ElementName::Category)),
        sub_element(e, ElementName::SwAxisConts),
        sub_element(e, ElementName::SwValueCont),
    ) {
        (Some(t), Some(axes), Some(vc)) => match (category_from_text(t), load_rule_based_value_cont(vc)) {
            (Some(category), Some(values)) => Some(
                ApplicationRuleBasedValueSpecificationView {
                    label: load_label(e),
                    category,
                    sw_axis_cont: load_rule_based_axis_conts(axes.sub_elements),
                    sw_value_cont: values,
                },
            ),
            _ => None,
        },
        _ => None,
    }
}

pub open spec fn store_numerical_rule_based(n: NumericalRuleBasedValueSpecificationView) -> ElementView {
    node(
        ElementName::NumericalRuleBasedValueSpecification,
        label_elements(n.label) + seq![store_rule_based_values(n.rule_based_values)],
    )
}

pub open spec fn load_numerical_rule_based(e: ElementView) -> Option<NumericalRuleBasedValueSpecificationView> {
    match sub_element(e, ElementName::RuleBasedValues) {
        Some(rbv) => match load_rule_based_values(rbv) {
            Some(values) => Some(
                NumericalRuleBasedValueSpecificationView { label: load_label(e), rule_based_values: values },
            ),
            None => None,
        },
        None => None,
    }
}

pub open spec fn store_composite_argument(a: CompositeRuleBasedValueArgumentView) -> ElementView {
    match a {
        CompositeRuleBasedValueArgumentView::Application(x) => store_application(x),
        CompositeRuleBasedValueArgumentView::ApplicationRuleBased(x) => store_application_rule_based(x),
    }
}

pub open spec fn load_composite_argument(e: ElementView) -> Option<CompositeRuleBasedValueArgumentView> {
    match e.name {
        ElementName::ApplicationValueSpecification => match load_application(e) {
            Some(x) => Some(CompositeRuleBasedValueArgumentView::Application(x)),
            None => None,
        },
        ElementName::ApplicationRuleBasedValueSpecification => match load_application_rule_based(e) {
            Some(x) => Some(CompositeRuleBasedValueArgumentView::ApplicationRuleBased(x)),
            None => None,
        },
        _ => None,
    }
}

pub open spec fn load_composite_arguments(s: Seq<ElementView>) -> Seq<CompositeRuleBasedValueArgumentView>
    decreases s.len(),
{
    if s.len() == 0 {
        Seq::empty()
    } else {
        let r = load_composite_arguments(s.subrange(0, s.len() - 1));
        match load_composite_argument(s[s.len() - 1]) {
            Some(a) => r.push(a),
            None => r,
        }
    }
}

//#########################################################
// value specifications with nested value specifications

pub open spec fn store_value(v: ValueSpecificationView) -> ElementView
    decreases v,
{
    match v {
        ValueSpecificationView::Array(a) => store_array(a),
        ValueSpecificationView::Record(r) => store_record(r),
        ValueSpecificationView::Text(t) => store_text(t),
        ValueSpecificationView::Numerical(n) => store_numerical(n),
        ValueSpecificationView::ConstantReference(c) => store_constant_reference(c),
        ValueSpecificationView::Application(a) => store_application(a),
        ValueSpecificationView::NotAvailable(n) => store_not_available(n),
        ValueSpecificationView::Reference(r) => store_reference(r),
        ValueSpecificationView::ApplicationRuleBased(a) => store_application_rule_based(a),
        ValueSpecificationView::CompositeRuleBased(c) => store_composite_rule_based(c),
        ValueSpecificationView::NumericalRuleBased(n) => store_numerical_rule_based(n),
    }
}

pub open spec fn store_values(s: Seq<ValueSpecificationView>) -> Seq<ElementView>
    decreases s,
{
    if s.len() == 0 {
        Seq::empty()
    } else {
        store_values(s.subrange(0, s.len() - 1)).push(store_value(s[s.len() - 1]))
    }
}

pub open spec fn store_array(a: ArrayValueSpecificationView) -> ElementView
    decreases a,
{
    node(
        ElementName::ArrayValueSpecification,
        label_elements(a.label) + seq![node(ElementName::Elements, store_values(a.values))],
    )
}

pub open spec fn store_record(r: RecordValueSpecificationView) -> ElementView
    decreases r,
{
    node(
        ElementName::RecordValueSpecification,
        label_elements(r.label) + seq![node(ElementName::Fields, store_values(r.values))],
    )
}

pub open spec fn store_composite_value(c: CompositeValueSpecificationView) -> ElementView
    decreases c,
{
    match c {
        CompositeValueSpecificationView::Array(a) => store_array(a),
        CompositeValueSpecificationView::Record(r) => store_record(r),
    }
}

pub open spec fn store_composite_values(s: Seq<CompositeValueSpecificationView>) -> Seq<ElementView>
    decreases s,
{
    if s.len() == 0 {
        Seq::empty()
    } else {
        store_composite_values(s.subrange(0, s.len() - 1)).push(store_composite_value(s[s.len() - 1]))
    }
}

pub open spec fn store_composite_rule_based(c: CompositeRuleBasedValueSpecificationView) -> ElementView
    decreases c,
{
    node(
        ElementName::CompositeRuleBasedValueSpecification,
        label_elements(c.label) + seq![
            node(ElementName::Arguments, store_composite_values(c.argument)),
            node(
                ElementName::CompoundPrimitiveArguments,
                c.compound_primitive_argument.map_values(|a: CompositeRuleBasedValueArgumentView| store_composite_argument(a)),
            ),
        ] + optional_integer_elements(ElementName::MaxSizeToFill, c.max_size_to_fill) + seq![
            leaf(ElementName::Rule, CharacterDataView::String(rule_text(c.rule))),
        ],
    )
}

//#########################################################
// what is stored where the AUTOSAR version lacks some elements

/// an axis as it is stored: without its display name where that cannot be written
pub open spec fn fit_sw_axis_cont(a: SwAxisContView, s: SchemaSupport) -> SwAxisContView {
    if s.unit_display_name {
        a
    } else {
        SwAxisContView { unit_display_name: None, ..a }
    }
}

/// a not-available value as it is stored: without its pattern where that cannot be written
pub open spec fn fit_not_available(n: NotAvailableValueSpecificationView, s: SchemaSupport) -> NotAvailableValueSpecificationView {
    if s.default_pattern {
        n
    } else {
        NotAvailableValueSpecificationView { default_pattern: None, ..n }
    }
}

/// an application value as it is stored
pub open spec fn fit_application(a: ApplicationValueSpecificationView, s: SchemaSupport) -> ApplicationValueSpecificationView {
    ApplicationValueSpecificationView {
        sw_axis_conts: a.sw_axis_conts.map_values(|x: SwAxisContView| fit_sw_axis_cont(x, s)),
        ..a
    }
}

/// a compound primitive argument as it is stored
pub open spec fn fit_composite_argument(a: CompositeRuleBasedValueArgumentView, s: SchemaSupport) -> CompositeRuleBasedValueArgumentView {
    match a {
        CompositeRuleBasedValueArgumentView::Application(x) => CompositeRuleBasedValueArgumentView::Application(
            fit_application(x, s),
        ),
        CompositeRuleBasedValueArgumentView::ApplicationRuleBased(x) => CompositeRuleBasedValueArgumentView::ApplicationRuleBased(x),
    }
}

/// a value as it is stored: what the AUTOSAR version cannot hold is left out
pub open spec fn fit_value(v: ValueSpecificationView, s: SchemaSupport) -> ValueSpecificationView
    decreases v,
{
    match v {
        ValueSpecificationView::Array(a) => ValueSpecificationView::Array(fit_array(a, s)),
        ValueSpecificationView::Record(r) => ValueSpecificationView::Record(fit_record(r, s)),
        ValueSpecificationView::Application(a) => ValueSpecificationView::Application(fit_application(a, s)),
        ValueSpecificationView::NotAvailable(n) => ValueSpecificationView::NotAvailable(fit_not_available(n, s)),
        ValueSpecificationView::CompositeRuleBased(c) => ValueSpecificationView::CompositeRuleBased(
            fit_composite_rule_based(c, s),
        ),
        _ => v,
    }
}

pub open spec fn fit_values(v: Seq<ValueSpecificationView>, s: SchemaSupport) -> Seq<ValueSpecificationView>
    decreases v,
{
    if v.len() == 0 {
        Seq::empty()
    } else {
        fit_values(v.subrange(0, v.len() - 1), s).push(fit_value(v[v.len() - 1], s))
    }
}

pub open spec fn fit_array(a: ArrayValueSpecificationView, s: SchemaSupport) -> ArrayValueSpecificationView
    decreases a,
{
    ArrayValueSpecificationView { label: a.label, values: fit_values(a.values, s) }
}

pub open spec fn fit_record(r: RecordValueSpecificationView, s: SchemaSupport) -> RecordValueSpecificationView
    decreases r,
{
    RecordValueSpecificationView { label: r.label, values: fit_values(r.values, s) }
}

pub open spec fn fit_composite_value(c: CompositeValueSpecificationView, s: SchemaSupport) -> CompositeValueSpecificationView
    decreases c,
{
    match c {
        CompositeValueSpecificationView::Array(a) => CompositeValueSpecificationView::Array(fit_array(a, s)),
        CompositeValueSpecificationView::Record(r) => CompositeValueSpecificationView::Record(fit_record(r, s)),
    }
}

pub open spec fn fit_composite_values(v: Seq<CompositeValueSpecificationView>, s: SchemaSupport) -> Seq<CompositeValueSpecificationView>
    decreases v,
{
    if v.len() == 0 {
        Seq::empty()
    } else {
        fit_composite_values(v.subrange(0, v.len() - 1), s).push(fit_composite_value(v[v.len() - 1], s))
    }
}

pub open spec fn fit_composite_rule_based(c: CompositeRuleBasedValueSpecificationView, s: SchemaSupport) -> CompositeRuleBasedValueSpecificationView
    decreases c,
{
    CompositeRuleBasedValueSpecificationView {
        argument: fit_composite_values(c.argument, s),
        compound_primitive_argument: c.compound_primitive_argument.map_values(
            |a: CompositeRuleBasedValueArgumentView| fit_composite_argument(a, s),
        ),
        ..c
    }
}

pub open spec fn load_value(e: ElementView) -> Option<ValueSpecificationView>
    decreases e, 1int,
{
    match e.name {
        ElementName::ArrayValueSpecification => match load_array(e) {
            Some(a) => Some(ValueSpecificationView::Array(a)),
            None => None,
        },
        ElementName::RecordValueSpecification => match load_record(e) {
            Some(r) => Some(ValueSpecificationView::Record(r)),
            None => None,
        },
        ElementName::TextValueSpecification => match load_text(e) {
            Some(t) => Some(ValueSpecificationView::Text(t)),
            None => None,
        },
        ElementName::NumericalValueSpecification => match load_numerical(e) {
            Some(n) => Some(ValueSpecificationView::Numerical(n)),
            None => None,
        },
        ElementName::ConstantReference => match load_constant_reference(e) {
            Some(c) => Some(ValueSpecificationView::ConstantReference(c)),
            None => None,
        },
        ElementName::ApplicationValueSpecification => match load_application(e) {
            Some(a) => Some(ValueSpecificationView::Application(a)),
            None => None,
        },
        ElementName::NotAvailableValueSpecification => match load_not_available(e) {
            Some(n) => Some(ValueSpecificationView::NotAvailable(n)),
            None => None,
        },
        ElementName::ReferenceValueSpecification => match load_reference(e) {
            Some(r) => Some(ValueSpecificationView::Reference(r)),
            None => None,
        },
        ElementName::ApplicationRuleBasedValueSpecification => match load_application_rule_based(e) {
            Some(a) => Some(ValueSpecificationView::ApplicationRuleBased(a)),
            None => None,
        },
        ElementName::CompositeRuleBasedValueSpecification => match load_composite_rule_based(e) {
            Some(c) => Some(ValueSpecificationView::CompositeRuleBased(c)),
            None => None,
        },
        ElementName::NumericalRuleBasedValueSpecification => match load_numerical_rule_based(e) {
            Some(n) => Some(ValueSpecificationView::NumericalRuleBased(n)),
            None => None,
        },
        _ => None,
    }
}

/// the value specifications read from `s`, skipping the elements that are none
pub open spec fn load_values(s: Seq<ElementView>) -> Seq<ValueSpecificationView>
    decreases s, 0int,
{
    if s.len() == 0 {
        Seq::empty()
    } else {
        let r = load_values(s.subrange(0, s.len() - 1));
        match load_value(s[s.len() - 1]) {
            Some(v) => r.push(v),
            None => r,
        }
    }
}

pub open spec fn load_array(e: ElementView) -> Option<ArrayValueSpecificationView>
    decreases e, 0int,
{
    let i = first_index(e.sub_elements, ElementName::Elements);
    if 0 <= i < e.sub_elements.len() {
        Some(ArrayValueSpecificationView { label: load_label(e), values: load_values(e.sub_elements[i].sub_elements) })
    } else {
        None
    }
}

pub open spec fn load_record(e: ElementView) -> Option<RecordValueSpecificationView>
    decreases e, 0int,
{
    let i = first_index(e.sub_elements, ElementName::Fields);
    if 0 <= i < e.sub_elements.len() {
        Some(RecordValueSpecificationView { label: load_label(e), values: load_values(e.sub_elements[i].sub_elements) })
    } else {
        None
    }
}

pub open spec fn load_composite_value(e: ElementView) -> Option<CompositeValueSpecificationView>
    decreases e, 1int,
{
    match e.name {
        ElementName::ArrayValueSpecification => match load_array(e) {
            Some(a) => Some(CompositeValueSpecificationView::Array(a)),
            None => None,
        },
        ElementName::RecordValueSpecification => match load_record(e) {
            Some(r) => Some(CompositeValueSpecificationView::Record(r)),
            None => None,
        },
        _ => None,
    }
}

pub open spec fn load_composite_values(s: Seq<ElementView>) -> Seq<CompositeValueSpecificationView>
    decreases s, 0int,
{
    if s.len() == 0 {
        Seq::empty()
    } else {
        let r = load_composite_values(s.subrange(0, s.len() - 1));
        match load_composite_value(s[s.len() - 1]) {
            Some(v) => r.push(v),
            None => r,
        }
    }
}

pub open spec fn load_composite_rule_based(e: ElementView) -> Option<CompositeRuleBasedValueSpecificationView>
    decreases e, 0int,
{
    let i = first_index(e.sub_elements, ElementName::Arguments);
    if 0 <= i < e.sub_elements.len() {
        match (sub_element(e, ElementName::CompoundPrimitiveArguments), text_of(sub_element(e, ElementName::Rule))) {
            (Some(cpa), Some(t)) => match rule_from_text(t) {
                Some(rule) => Some(
                    CompositeRuleBasedValueSpecificationView {
                        label: load_label(e),
                        argument: load_composite_values(e.sub_elements[i].sub_elements),
                        compound_primitive_argument: load_composite_arguments(cpa.sub_elements),
                        max_size_to_fill: integer_of(sub_element(e, ElementName::MaxSizeToFill)),
                        rule,
                    },
                ),
                None => None,
            },
            _ => None,
        }
    } else {
        None
    }
}

//#########################################################
// the encoding reads back as what was written

/// in a sequence of elements with pairwise different names, a name is found where it is
pub proof fn lemma_distinct_find(s: Seq<ElementView>, name: ElementName)
    requires
        forall|i: int, j: int|
            0 <= i < s.len() && 0 <= j < s.len() && i != j ==> #[trigger] s[i].name != #[trigger] s[j].name,
    ensures
        forall|i: int| 0 <= i < s.len() && #[trigger] s[i].name == name ==> find_named(s, name) == Some(s[i]),
        (forall|i: int| 0 <= i < s.len() ==> #[trigger] s[i].name != name) ==> find_named(s, name) is None,
{
    assert forall|i: int| 0 <= i < s.len() && #[trigger] s[i].name == name implies find_named(s, name) == Some(s[i]) by {
        assert forall|j: int| 0 <= j < s.len() && j != i implies #[trigger] s[j].name != name by {
            assert(s[i].name != s[j].name);
        }
        lemma_find_unique(s, name, i);
    }
    if forall|i: int| 0 <= i < s.len() ==> #[trigger] s[i].name != name {
        lemma_find_absent(s, name);
    }
}

/// Law: a text value reads back as itself.
pub proof fn lemma_text_roundtrip(t: TextValueSpecificationView)
    ensures
        load_text(store_text(t)) == Some(t),
{
    let e = store_text(t);
    let s = e.sub_elements;
    let v = leaf(ElementName::Value, CharacterDataView::String(t.value));
    match t.label {
        Some(l) => {
            assert(s =~= seq![leaf(ElementName::ShortLabel, CharacterDataView::String(l)), v]);
            lemma_distinct_find(s, ElementName::ShortLabel);
            lemma_distinct_find(s, ElementName::Value);
            assert(s[0].name == ElementName::ShortLabel);
            assert(s[1].name == ElementName::Value);
        },
        None => {
            assert(s =~= seq![v]);
            lemma_distinct_find(s, ElementName::ShortLabel);
            lemma_distinct_find(s, ElementName::Value);
            assert(s[0].name == ElementName::Value);
        },
    }
}


/// in a sequence of elements with pairwise different names, the position of a name
pub proof fn lemma_distinct_index(s: Seq<ElementView>, name: ElementName, k: int)
    requires
        forall|i: int, j: int|
            0 <= i < s.len() && 0 <= j < s.len() && i != j ==> #[trigger] s[i].name != #[trigger] s[j].name,
        0 <= k < s.len(),
        s[k].name == name,
    ensures
        first_index(s, name) == k,
{
    assert forall|j: int| 0 <= j < s.len() && j < k implies #[trigger] s[j].name != name by {
        assert(s[j].name != s[k].name);
    }
    crate::element::lemma_first_index_is(s, name, k);
}

/// Law: a numerical value reads back as itself.
pub proof fn lemma_numerical_roundtrip(n: NumericalValueSpecificationView)
    ensures
        load_numerical(store_numerical(n)) == Some(n),
{
    let s = store_numerical(n).sub_elements;
    let v = leaf(ElementName::Value, CharacterDataView::Float(n.value));
    match n.label {
        Some(l) => {
            assert(s =~= seq![leaf(ElementName::ShortLabel, CharacterDataView::String(l)), v]);
            assert(s[0].name == ElementName::ShortLabel);
            assert(s[1].name == ElementName::Value);
        },
        None => {
            assert(s =~= seq![v]);
            assert(s[0].name == ElementName::Value);
        },
    }
    lemma_distinct_find(s, ElementName::ShortLabel);
    lemma_distinct_find(s, ElementName::Value);
}

/// Law: a constant reference reads back as itself.
pub proof fn lemma_constant_reference_roundtrip(c: ConstantReferenceView)
    ensures
        load_constant_reference(store_constant_reference(c)) == Some(c),
{
    let s = store_constant_reference(c).sub_elements;
    let r = ref_leaf(ElementName::ConstantRef, ElementName::ConstantSpecification, c.constant);
    match c.label {
        Some(l) => {
            assert(s =~= seq![leaf(ElementName::ShortLabel, CharacterDataView::String(l)), r]);
            assert(s[0].name == ElementName::ShortLabel);
            assert(s[1].name == ElementName::ConstantRef);
        },
        None => {
            assert(s =~= seq![r]);
            assert(s[0].name == ElementName::ConstantRef);
        },
    }
    lemma_distinct_find(s, ElementName::ShortLabel);
    lemma_distinct_find(s, ElementName::ConstantRef);
}

/// Law: a not-available value reads back as itself.
pub proof fn lemma_not_available_roundtrip(n: NotAvailableValueSpecificationView)
    ensures
        load_not_available(store_not_available(n)) == Some(n),
{
    let s = store_not_available(n).sub_elements;
    match (n.label, n.default_pattern) {
        (Some(l), Some(p)) => {
            assert(s =~= seq![
                leaf(ElementName::ShortLabel, CharacterDataView::String(l)),
                leaf(ElementName::DefaultPattern, CharacterDataView::UnsignedInteger(p)),
            ]);
            assert(s[0].name == ElementName::ShortLabel);
            assert(s[1].name == ElementName::DefaultPattern);
        },
        (Some(l), None) => {
            assert(s =~= seq![leaf(ElementName::ShortLabel, CharacterDataView::String(l))]);
            assert(s[0].name == ElementName::ShortLabel);
        },
        (None, Some(p)) => {
            assert(s =~= seq![leaf(ElementName::DefaultPattern, CharacterDataView::UnsignedInteger(p))]);
            assert(s[0].name == ElementName::DefaultPattern);
        },
        (None, None) => {
            assert(s =~= Seq::<ElementView>::empty());
        },
    }
    lemma_distinct_find(s, ElementName::ShortLabel);
    lemma_distinct_find(s, ElementName::DefaultPattern);
}

/// Law: a reference to a data prototype reads back as itself.
pub proof fn lemma_reference_roundtrip(r: ReferenceValueSpecificationView)
    ensures
        load_reference(store_reference(r)) == Some(r),
{
    let s = store_reference(r).sub_elements;
    let x = ref_leaf(
        ElementName::ReferenceValueRef,
        data_prototype_kind(r.reference_value),
        data_prototype_path(r.reference_value),
    );
    match r.label {
        Some(l) => {
            assert(s =~= seq![leaf(ElementName::ShortLabel, CharacterDataView::String(l)), x]);
            assert(s[0].name == ElementName::ShortLabel);
            assert(s[1].name == ElementName::ReferenceValueRef);
        },
        None => {
            assert(s =~= seq![x]);
            assert(s[0].name == ElementName::ReferenceValueRef);
        },
    }
    lemma_distinct_find(s, ElementName::ShortLabel);
    lemma_distinct_find(s, ElementName::ReferenceValueRef);
}

/// Law: the text of a rule reads back as the rule.
pub proof fn lemma_rule_text_roundtrip(r: RuleBasedFillUntil)
    ensures
        rule_from_text(rule_text(r)) == Some(r),
{
    reveal_strlit("FILL_UNTIL_END");
    reveal_strlit("FILL_UNTIL_MAX_SIZE");
    assert("FILL_UNTIL_END"@.len() != "FILL_UNTIL_MAX_SIZE"@.len());
}

/// Law: an axis category written as an enumeration item reads back as itself.
pub proof fn lemma_axis_category_roundtrip(c: SwAxisContCategory)
    ensures
        axis_category_from_item(axis_category_item(c)) == Some(c),
{
}

/// Law: a data prototype referred to by its kind and path reads back as itself.
pub proof fn lemma_data_prototype_roundtrip(d: DataPrototypeView)
    ensures
        data_prototype_from(data_prototype_kind(d), data_prototype_path(d)) == Some(d),
{
}

/// Law: the text of a category reads back as the category.
pub proof fn lemma_category_text_roundtrip(c: ApplicationPrimitiveCategory)
    ensures
        category_from_text(category_text(c)) == Some(c),
{
    reveal_strlit("VALUE");
    reveal_strlit("VAL_BLK");
    reveal_strlit("STRING");
    reveal_strlit("BOOLEAN");
    reveal_strlit("COM_AXIS");
    reveal_strlit("RES_AXIS");
    reveal_strlit("CURVE");
    reveal_strlit("MAP");
    reveal_strlit("CUBOID");
    reveal_strlit("CUBE_4");
    reveal_strlit("CUBE_5");
    assert("VALUE"@.len() == 5 && "VAL_BLK"@.len() == 7 && "STRING"@.len() == 6);
    assert("BOOLEAN"@.len() == 7 && "COM_AXIS"@.len() == 8 && "RES_AXIS"@.len() == 8);
    assert("CURVE"@.len() == 5 && "MAP"@.len() == 3 && "CUBOID"@.len() == 6);
    assert("CUBE_4"@.len() == 6 && "CUBE_5"@.len() == 6);
    assert("VALUE"@[0] != "CURVE"@[0]);
    assert("VAL_BLK"@[0] != "BOOLEAN"@[0]);
    assert("COM_AXIS"@[0] != "RES_AXIS"@[0]);
    assert("STRING"@[0] != "CUBOID"@[0]);
    assert("STRING"@[0] != "CUBE_4"@[0]);
    assert("STRING"@[0] != "CUBE_5"@[0]);
    assert("CUBOID"@[3] != "CUBE_4"@[3]);
    assert("CUBOID"@[3] != "CUBE_5"@[3]);
    assert("CUBE_4"@[5] != "CUBE_5"@[5]);
}

/// Law: dimensions written as integers read back as themselves.
pub proof fn lemma_integers_roundtrip(sizes: Seq<u64>)
    ensures
        load_integers(array_size_element(sizes).sub_elements) == sizes,
    decreases sizes.len(),
{
    let f = |n: u64| leaf(ElementName::Vf, CharacterDataView::UnsignedInteger(n));
    let m = sizes.map_values(f);
    assert(array_size_element(sizes).sub_elements == m);
    if sizes.len() > 0 {
        let init = sizes.subrange(0, sizes.len() - 1);
        assert(m.subrange(0, m.len() - 1) =~= init.map_values(f));
        assert(array_size_element(init).sub_elements == init.map_values(f));
        lemma_integers_roundtrip(init);
        assert(sizes =~= init.push(sizes[sizes.len() - 1]));
    } else {
        assert(sizes =~= Seq::<u64>::empty());
    }
}

/// Law: a rule argument reads back as itself.
pub proof fn lemma_rule_argument_roundtrip(a: RuleArgumentView)
    ensures
        load_rule_argument(store_rule_argument(a)) == Some(a),
{
    match a {
        RuleArgumentView::VtfNumber(x) => {
            let s = store_rule_argument(a).sub_elements;
            lemma_distinct_find(s, ElementName::Vf);
            assert(s[0].name == ElementName::Vf);
        },
        RuleArgumentView::VtfText(t) => {
            let s = store_rule_argument(a).sub_elements;
            lemma_distinct_find(s, ElementName::Vf);
            lemma_distinct_find(s, ElementName::Vt);
            assert(s[0].name == ElementName::Vt);
        },
        _ => {},
    }
}

pub proof fn lemma_rule_arguments_roundtrip(args: Seq<RuleArgumentView>)
    ensures
        load_rule_arguments(args.map_values(|a: RuleArgumentView| store_rule_argument(a))) == args,
    decreases args.len(),
{
    let f = |a: RuleArgumentView| store_rule_argument(a);
    let m = args.map_values(f);
    if args.len() > 0 {
        let init = args.subrange(0, args.len() - 1);
        assert(m.subrange(0, m.len() - 1) =~= init.map_values(f));
        lemma_rule_arguments_roundtrip(init);
        lemma_rule_argument_roundtrip(args[args.len() - 1]);
        assert(args =~= init.push(args[args.len() - 1]));
    } else {
        assert(args =~= Seq::<RuleArgumentView>::empty());
    }
}

/// Law: rule based values read back as themselves.
pub proof fn lemma_rule_based_values_roundtrip(r: RuleBasedValueSpecificationView)
    ensures
        load_rule_based_values(store_rule_based_values(r)) == Some(r),
{
    let e = store_rule_based_values(r);
    let s = e.sub_elements;
    let args = r.arguments.map_values(|a: RuleArgumentView| store_rule_argument(a));
    let ra = node(ElementName::RuleArguments, args);
    let ar = node(ElementName::Argumentss, seq![ra]);
    let rule = leaf(ElementName::Rule, CharacterDataView::String(rule_text(r.rule)));
    match r.max_size_to_fill {
        Some(m) => {
            assert(s =~= seq![ar, leaf(ElementName::MaxSizeToFill, CharacterDataView::UnsignedInteger(m)), rule]);
            assert(s[1].name == ElementName::MaxSizeToFill);
            assert(s[2].name == ElementName::Rule);
        },
        None => {
            assert(s =~= seq![ar, rule]);
            assert(s[1].name == ElementName::Rule);
        },
    }
    assert(s[0].name == ElementName::Argumentss);
    lemma_distinct_find(s, ElementName::Argumentss);
    lemma_distinct_find(s, ElementName::Rule);
    lemma_distinct_find(s, ElementName::MaxSizeToFill);
    lemma_distinct_find(ar.sub_elements, ElementName::RuleArguments);
    assert(ar.sub_elements[0].name == ElementName::RuleArguments);
    lemma_rule_arguments_roundtrip(r.arguments);
    lemma_rule_text_roundtrip(r.rule);
}

pub proof fn lemma_store_sw_values_index(s: Seq<SwValueView>)
    ensures
        store_sw_values(s).len() == s.len(),
        forall|i: int| 0 <= i < s.len() ==> #[trigger] store_sw_values(s)[i] == store_sw_value(s[i]),
    decreases s.len(),
{
    if s.len() > 0 {
        lemma_store_sw_values_index(s.subrange(0, s.len() - 1));
    }
}

pub proof fn lemma_load_sw_values_concat(a: Seq<ElementView>, b: Seq<ElementView>)
    ensures
        load_sw_values(a + b) == load_sw_values(a) + load_sw_values(b),
    decreases b.len(),
{
    if b.len() == 0 {
        assert(a + b =~= a);
        assert(load_sw_values(a) + load_sw_values(b) =~= load_sw_values(a));
    } else {
        let init = b.subrange(0, b.len() - 1);
        assert((a + b).subrange(0, (a + b).len() - 1) =~= a + init);
        assert((a + b)[(a + b).len() - 1] == b[b.len() - 1]);
        lemma_load_sw_values_concat(a, init);
        match load_sw_value(b[b.len() - 1]) {
            Some(v) => {
                assert(load_sw_values(a) + load_sw_values(init).push(v) =~= (load_sw_values(a)
                    + load_sw_values(init)).push(v));
            },
            None => {},
        }
    }
}

/// Law: a value of a compound primitive data type reads back as itself.
pub proof fn lemma_sw_value_roundtrip(v: SwValueView)
    ensures
        load_sw_value(store_sw_value(v)) == Some(v),
    decreases v,
{
    match v {
        SwValueView::Vg { label, vg_content } => {
            let e = store_sw_value(v);
            let lab = vg_label_elements(label);
            let content = store_sw_values(vg_content);
            assert(e.sub_elements == lab + content);
            lemma_sw_values_roundtrip(vg_content);
            lemma_load_sw_values_concat(lab, content);
            lemma_store_sw_values_index(vg_content);
            match label {
                Some(l) => {
                    assert(lab[0].name == ElementName::Label);
                    assert(load_sw_values(lab.subrange(0, 0)) =~= Seq::<SwValueView>::empty());
                    assert(load_sw_value(lab[0]) is None);
                    assert(lab.len() == 1);
                    assert(load_sw_values(lab) =~= Seq::<SwValueView>::empty());
                    lemma_distinct_find(lab, ElementName::Label);
                    crate::element::lemma_find_prefix(lab, content, ElementName::Label);
                    let l4 = lab[0].sub_elements;
                    lemma_distinct_find(l4, ElementName::L4);
                    assert(l4[0].name == ElementName::L4);
                },
                None => {
                    assert(lab =~= Seq::<ElementView>::empty());
                    assert(lab + content =~= content);
                    assert forall|i: int| 0 <= i < content.len() implies #[trigger] content[i].name
                        != ElementName::Label by {
                        assert(content[i] == store_sw_value(vg_content[i]));
                    }
                    lemma_find_absent(content, ElementName::Label);
                },
            }
            assert(load_sw_values(lab) + vg_content =~= vg_content);
        },
        SwValueView::VtfNumber(x) => {
            let s = store_sw_value(v).sub_elements;
            lemma_distinct_find(s, ElementName::Vf);
            assert(s[0].name == ElementName::Vf);
        },
        SwValueView::VtfText(t) => {
            let s = store_sw_value(v).sub_elements;
            lemma_distinct_find(s, ElementName::Vf);
            lemma_distinct_find(s, ElementName::Vt);
            assert(s[0].name == ElementName::Vt);
        },
        _ => {},
    }
}

/// Law: values of a compound primitive data type read back as themselves.
pub proof fn lemma_sw_values_roundtrip(s: Seq<SwValueView>)
    ensures
        load_sw_values(store_sw_values(s)) == s,
    decreases s,
{
    if s.len() > 0 {
        let init = s.subrange(0, s.len() - 1);
        let st = store_sw_values(s);
        lemma_store_sw_values_index(s);
        assert(st.subrange(0, st.len() - 1) == store_sw_values(init));
        lemma_sw_values_roundtrip(init);
        lemma_sw_value_roundtrip(s[s.len() - 1]);
        assert(s =~= init.push(s[s.len() - 1]));
    } else {
        assert(s =~= Seq::<SwValueView>::empty());
    }
}


/// Law: the axis values of a compound primitive data type read back as themselves.
pub proof fn lemma_sw_axis_cont_roundtrip(a: SwAxisContView)
    ensures
        load_sw_axis_cont(store_sw_axis_cont(a)) == Some(a),
{
    let s = store_sw_axis_cont(a).sub_elements;
    let c = leaf(ElementName::Category, CharacterDataView::Enum(axis_category_item(a.category)));
    let z = array_size_element(a.sw_array_size);
    let x = leaf(ElementName::SwAxisIndex, CharacterDataView::UnsignedInteger(a.sw_axis_index));
    let p = node(ElementName::SwValuesPhys, store_sw_values(a.sw_values_phys));
    match (a.unit, a.unit_display_name) {
        (Some(u), Some(d)) => {
            assert(s =~= seq![c, z, x, p, ref_leaf(ElementName::UnitRef, ElementName::Unit, u),
                leaf(ElementName::UnitDisplayName, CharacterDataView::String(d))]);
            assert(s[4].name == ElementName::UnitRef);
            assert(s[5].name == ElementName::UnitDisplayName);
        },
        (Some(u), None) => {
            assert(s =~= seq![c, z, x, p, ref_leaf(ElementName::UnitRef, ElementName::Unit, u)]);
            assert(s[4].name == ElementName::UnitRef);
        },
        (None, Some(d)) => {
            assert(s =~= seq![c, z, x, p, leaf(ElementName::UnitDisplayName, CharacterDataView::String(d))]);
            assert(s[4].name == ElementName::UnitDisplayName);
        },
        (None, None) => {
            assert(s =~= seq![c, z, x, p]);
        },
    }
    assert(s[0].name == ElementName::Category);
    assert(s[1].name == ElementName::SwArraysize);
    assert(s[2].name == ElementName::SwAxisIndex);
    assert(s[3].name == ElementName::SwValuesPhys);
    lemma_distinct_find(s, ElementName::Category);
    lemma_distinct_find(s, ElementName::SwArraysize);
    lemma_distinct_find(s, ElementName::SwAxisIndex);
    lemma_distinct_find(s, ElementName::SwValuesPhys);
    lemma_distinct_find(s, ElementName::UnitRef);
    lemma_distinct_find(s, ElementName::UnitDisplayName);
    lemma_integers_roundtrip(a.sw_array_size);
    lemma_sw_values_roundtrip(a.sw_values_phys);
}

pub proof fn lemma_sw_axis_conts_roundtrip(s: Seq<SwAxisContView>)
    ensures
        load_sw_axis_conts(s.map_values(|x: SwAxisContView| store_sw_axis_cont(x))) == s,
    decreases s.len(),
{
    let f = |x: SwAxisContView| store_sw_axis_cont(x);
    let m = s.map_values(f);
    if s.len() > 0 {
        let init = s.subrange(0, s.len() - 1);
        assert(m.subrange(0, m.len() - 1) =~= init.map_values(f));
        lemma_sw_axis_conts_roundtrip(init);
        lemma_sw_axis_cont_roundtrip(s[s.len() - 1]);
        assert(s =~= init.push(s[s.len() - 1]));
    } else {
        assert(s =~= Seq::<SwAxisContView>::empty());
    }
}

/// Law: the values of a compound primitive data type read back as themselves.
pub proof fn lemma_sw_value_cont_roundtrip(c: SwValueContView, name: ElementName)
    ensures
        load_sw_value_cont(node(name, store_sw_value_cont(c))) == Some(c),
{
    let s = store_sw_value_cont(c);
    assert(s[0].name == ElementName::SwArraysize);
    assert(s[1].name == ElementName::SwValuesPhys);
    lemma_distinct_find(s, ElementName::SwArraysize);
    lemma_distinct_find(s, ElementName::SwValuesPhys);
    lemma_integers_roundtrip(c.sw_array_size);
    lemma_sw_values_roundtrip(c.sw_values_phys);
}

/// Law: an application value reads back as itself.
pub proof fn lemma_application_roundtrip(a: ApplicationValueSpecificationView)
    ensures
        load_application(store_application(a)) == Some(a),
{
    let s = store_application(a).sub_elements;
    let c = leaf(ElementName::Category, CharacterDataView::String(category_text(a.category)));
    let x = node(ElementName::SwAxisConts, a.sw_axis_conts.map_values(|x: SwAxisContView| store_sw_axis_cont(x)));
    let v = node(ElementName::SwValueCont, store_sw_value_cont(a.sw_value_cont));
    match a.label {
        Some(l) => {
            assert(s =~= seq![leaf(ElementName::ShortLabel, CharacterDataView::String(l)), c, x, v]);
            assert(s[0].name == ElementName::ShortLabel);
            assert(s[1].name == ElementName::Category);
            assert(s[2].name == ElementName::SwAxisConts);
            assert(s[3].name == ElementName::SwValueCont);
        },
        None => {
            assert(s =~= seq![c, x, v]);
            assert(s[0].name == ElementName::Category);
            assert(s[1].name == ElementName::SwAxisConts);
            assert(s[2].name == ElementName::SwValueCont);
        },
    }
    lemma_distinct_find(s, ElementName::ShortLabel);
    lemma_distinct_find(s, ElementName::Category);
    lemma_distinct_find(s, ElementName::SwAxisConts);
    lemma_distinct_find(s, ElementName::SwValueCont);
    lemma_category_text_roundtrip(a.category);
    lemma_sw_axis_conts_roundtrip(a.sw_axis_conts);
    lemma_sw_value_cont_roundtrip(a.sw_value_cont, ElementName::SwValueCont);
}

/// Law: the rule based axis values read back as themselves.
pub proof fn lemma_rule_based_axis_cont_roundtrip(a: RuleBasedAxisContView)
    ensures
        load_rule_based_axis_cont(store_rule_based_axis_cont(a)) == Some(a),
{
    let s = store_rule_based_axis_cont(a).sub_elements;
    let c = leaf(ElementName::Category, CharacterDataView::Enum(axis_category_item(a.category)));
    let z = array_size_element(a.sw_array_size);
    let x = leaf(ElementName::SwAxisIndex, CharacterDataView::UnsignedInteger(a.sw_axis_index));
    let r = store_rule_based_values(a.rule_based_values);
    match a.unit {
        Some(u) => {
            assert(s =~= seq![c, z, x, r, ref_leaf(ElementName::UnitRef, ElementName::Unit, u)]);
            assert(s[4].name == ElementName::UnitRef);
        },
        None => {
            assert(s =~= seq![c, z, x, r]);
        },
    }
    assert(s[0].name == ElementName::Category);
    assert(s[1].name == ElementName::SwArraysize);
    assert(s[2].name == ElementName::SwAxisIndex);
    assert(s[3].name == ElementName::RuleBasedValues);
    lemma_distinct_find(s, ElementName::Category);
    lemma_distinct_find(s, ElementName::SwArraysize);
    lemma_distinct_find(s, ElementName::SwAxisIndex);
    lemma_distinct_find(s, ElementName::RuleBasedValues);
    lemma_distinct_find(s, ElementName::UnitRef);
    lemma_integers_roundtrip(a.sw_array_size);
    lemma_rule_based_values_roundtrip(a.rule_based_values);
}

pub proof fn lemma_rule_based_axis_conts_roundtrip(s: Seq<RuleBasedAxisContView>)
    ensures
        load_rule_based_axis_conts(s.map_values(|x: RuleBasedAxisContView| store_rule_based_axis_cont(x))) == s,
    decreases s.len(),
{
    let f = |x: RuleBasedAxisContView| store_rule_based_axis_cont(x);
    let m = s.map_values(f);
    if s.len() > 0 {
        let init = s.subrange(0, s.len() - 1);
        assert(m.subrange(0, m.len() - 1) =~= init.map_values(f));
        lemma_rule_based_axis_conts_roundtrip(init);
        lemma_rule_based_axis_cont_roundtrip(s[s.len() - 1]);
        assert(s =~= init.push(s[s.len() - 1]));
    } else {
        assert(s =~= Seq::<RuleBasedAxisContView>::empty());
    }
}

/// Law: the rule based values of a compound primitive data type read back as themselves.
pub proof fn lemma_rule_based_value_cont_roundtrip(c: RuleBasedValueContView)
    ensures
        load_rule_based_value_cont(store_rule_based_value_cont(c)) == Some(c),
{
    let s = store_rule_based_value_cont(c).sub_elements;
    let r = store_rule_based_values(c.rule_based_values);
    let z = array_size_element(c.sw_array_size);
    match c.unit {
        Some(u) => {
            assert(s =~= seq![r, z, ref_leaf(ElementName::UnitRef, ElementName::Unit, u)]);
            assert(s[2].name == ElementName::UnitRef);
        },
        None => {
            assert(s =~= seq![r, z]);
        },
    }
    assert(s[0].name == ElementName::RuleBasedValues);
    assert(s[1].name == ElementName::SwArraysize);
    lemma_distinct_find(s, ElementName::RuleBasedValues);
    lemma_distinct_find(s, ElementName::SwArraysize);
    lemma_distinct_find(s, ElementName::UnitRef);
    lemma_integers_roundtrip(c.sw_array_size);
    lemma_rule_based_values_roundtrip(c.rule_based_values);
}

/// Law: a rule based application value reads back as itself.
pub proof fn lemma_application_rule_based_roundtrip(a: ApplicationRuleBasedValueSpecificationView)
    ensures
        load_application_rule_based(store_application_rule_based(a)) == Some(a),
{
    let s = store_application_rule_based(a).sub_elements;
    let c = leaf(ElementName::Category, CharacterDataView::String(category_text(a.category)));
    let x = node(
        ElementName::SwAxisConts,
        a.sw_axis_cont.map_values(|x: RuleBasedAxisContView| store_rule_based_axis_cont(x)),
    );
    let v = store_rule_based_value_cont(a.sw_value_cont);
    match a.label {
        Some(l) => {
            assert(s =~= seq![leaf(ElementName::ShortLabel, CharacterDataView::String(l)), c, x, v]);
            assert(s[0].name == ElementName::ShortLabel);
            assert(s[1].name == ElementName::Category);
            assert(s[2].name == ElementName::SwAxisConts);
            assert(s[3].name == ElementName::SwValueCont);
        },
        None => {
            assert(s =~= seq![c, x, v]);
            assert(s[0].name == ElementName::Category);
            assert(s[1].name == ElementName::SwAxisConts);
            assert(s[2].name == ElementName::SwValueCont);
        },
    }
    lemma_distinct_find(s, ElementName::ShortLabel);
    lemma_distinct_find(s, ElementName::Category);
    lemma_distinct_find(s, ElementName::SwAxisConts);
    lemma_distinct_find(s, ElementName::SwValueCont);
    lemma_category_text_roundtrip(a.category);
    lemma_rule_based_axis_conts_roundtrip(a.sw_axis_cont);
    lemma_rule_based_value_cont_roundtrip(a.sw_value_cont);
}

/// Law: a rule based numerical value reads back as itself.
pub proof fn lemma_numerical_rule_based_roundtrip(n: NumericalRuleBasedValueSpecificationView)
    ensures
        load_numerical_rule_based(store_numerical_rule_based(n)) == Some(n),
{
    let s = store_numerical_rule_based(n).sub_elements;
    let r = store_rule_based_values(n.rule_based_values);
    match n.label {
        Some(l) => {
            assert(s =~= seq![leaf(ElementName::ShortLabel, CharacterDataView::String(l)), r]);
            assert(s[0].name == ElementName::ShortLabel);
            assert(s[1].name == ElementName::RuleBasedValues);
        },
        None => {
            assert(s =~= seq![r]);
            assert(s[0].name == ElementName::RuleBasedValues);
        },
    }
    lemma_distinct_find(s, ElementName::ShortLabel);
    lemma_distinct_find(s, ElementName::RuleBasedValues);
    lemma_rule_based_values_roundtrip(n.rule_based_values);
}

/// Law: an argument of a composite rule reads back as itself.
pub proof fn lemma_composite_argument_roundtrip(a: CompositeRuleBasedValueArgumentView)
    ensures
        load_composite_argument(store_composite_argument(a)) == Some(a),
{
    match a {
        CompositeRuleBasedValueArgumentView::Application(x) => lemma_application_roundtrip(x),
        CompositeRuleBasedValueArgumentView::ApplicationRuleBased(x) => lemma_application_rule_based_roundtrip(x),
    }
}

pub proof fn lemma_composite_arguments_roundtrip(s: Seq<CompositeRuleBasedValueArgumentView>)
    ensures
        load_composite_arguments(
            s.map_values(|a: CompositeRuleBasedValueArgumentView| store_composite_argument(a)),
        ) == s,
    decreases s.len(),
{
    let f = |a: CompositeRuleBasedValueArgumentView| store_composite_argument(a);
    let m = s.map_values(f);
    if s.len() > 0 {
        let init = s.subrange(0, s.len() - 1);
        assert(m.subrange(0, m.len() - 1) =~= init.map_values(f));
        lemma_composite_arguments_roundtrip(init);
        lemma_composite_argument_roundtrip(s[s.len() - 1]);
        assert(s =~= init.push(s[s.len() - 1]));
    } else {
        assert(s =~= Seq::<CompositeRuleBasedValueArgumentView>::empty());
    }
}

pub proof fn lemma_store_values_prefix(s: Seq<ValueSpecificationView>)
    requires
        s.len() > 0,
    ensures
        store_values(s).subrange(0, s.len() - 1) == store_values(s.subrange(0, s.len() - 1)),
        store_values(s).len() == s.len(),
        store_values(s)[s.len() - 1] == store_value(s[s.len() - 1]),
    decreases s.len(),
{
    if s.len() > 1 {
        lemma_store_values_prefix(s.subrange(0, s.len() - 1));
    }
    assert(store_values(s).subrange(0, s.len() - 1) =~= store_values(s.subrange(0, s.len() - 1)));
}

pub proof fn lemma_store_composite_values_prefix(s: Seq<CompositeValueSpecificationView>)
    requires
        s.len() > 0,
    ensures
        store_composite_values(s).subrange(0, s.len() - 1) == store_composite_values(s.subrange(0, s.len() - 1)),
        store_composite_values(s).len() == s.len(),
        store_composite_values(s)[s.len() - 1] == store_composite_value(s[s.len() - 1]),
    decreases s.len(),
{
    if s.len() > 1 {
        lemma_store_composite_values_prefix(s.subrange(0, s.len() - 1));
    }
    assert(store_composite_values(s).subrange(0, s.len() - 1) =~= store_composite_values(
        s.subrange(0, s.len() - 1),
    ));
}

/// Law: a value specification reads back, from the element it is stored as, as itself.
pub proof fn lemma_value_roundtrip(v: ValueSpecificationView)
    ensures
        load_value(store_value(v)) == Some(v),
    decreases v,
{
    match v {
        ValueSpecificationView::Array(a) => lemma_array_roundtrip(a),
        ValueSpecificationView::Record(r) => lemma_record_roundtrip(r),
        ValueSpecificationView::Text(t) => lemma_text_roundtrip(t),
        ValueSpecificationView::Numerical(n) => lemma_numerical_roundtrip(n),
        ValueSpecificationView::ConstantReference(c) => lemma_constant_reference_roundtrip(c),
        ValueSpecificationView::Application(a) => lemma_application_roundtrip(a),
        ValueSpecificationView::NotAvailable(n) => lemma_not_available_roundtrip(n),
        ValueSpecificationView::Reference(r) => lemma_reference_roundtrip(r),
        ValueSpecificationView::ApplicationRuleBased(a) => lemma_application_rule_based_roundtrip(a),
        ValueSpecificationView::CompositeRuleBased(c) => lemma_composite_rule_based_roundtrip(c),
        ValueSpecificationView::NumericalRuleBased(n) => lemma_numerical_rule_based_roundtrip(n),
    }
}

/// Law: where the AUTOSAR version holds every element, a value is stored as it is.
pub proof fn lemma_fit_value_latest(v: ValueSpecificationView, s: SchemaSupport)
    requires
        s.unit_display_name,
        s.default_pattern,
    ensures
        fit_value(v, s) == v,
    decreases v,
{
    match v {
        ValueSpecificationView::Array(a) => lemma_fit_array_latest(a, s),
        ValueSpecificationView::Record(r) => lemma_fit_record_latest(r, s),
        ValueSpecificationView::Application(a) => lemma_fit_application_latest(a, s),
        ValueSpecificationView::CompositeRuleBased(c) => lemma_fit_composite_rule_based_latest(c, s),
        _ => {},
    }
}

proof fn lemma_fit_application_latest(a: ApplicationValueSpecificationView, s: SchemaSupport)
    requires
        s.unit_display_name,
    ensures
        fit_application(a, s) == a,
{
    assert(a.sw_axis_conts.map_values(|x: SwAxisContView| fit_sw_axis_cont(x, s)) =~= a.sw_axis_conts);
}

proof fn lemma_fit_values_latest(v: Seq<ValueSpecificationView>, s: SchemaSupport)
    requires
        s.unit_display_name,
        s.default_pattern,
    ensures
        fit_values(v, s) == v,
    decreases v,
{
    if v.len() > 0 {
        lemma_fit_values_latest(v.subrange(0, v.len() - 1), s);
        lemma_fit_value_latest(v[v.len() - 1], s);
        assert(v.subrange(0, v.len() - 1).push(v[v.len() - 1]) =~= v);
    } else {
        assert(v =~= Seq::<ValueSpecificationView>::empty());
    }
}

proof fn lemma_fit_array_latest(a: ArrayValueSpecificationView, s: SchemaSupport)
    requires
        s.unit_display_name,
        s.default_pattern,
    ensures
        fit_array(a, s) == a,
    decreases a,
{
    lemma_fit_values_latest(a.values, s);
}

proof fn lemma_fit_record_latest(r: RecordValueSpecificationView, s: SchemaSupport)
    requires
        s.unit_display_name,
        s.default_pattern,
    ensures
        fit_record(r, s) == r,
    decreases r,
{
    lemma_fit_values_latest(r.values, s);
}

proof fn lemma_fit_composite_values_latest(v: Seq<CompositeValueSpecificationView>, s: SchemaSupport)
    requires
        s.unit_display_name,
        s.default_pattern,
    ensures
        fit_composite_values(v, s) == v,
    decreases v,
{
    if v.len() > 0 {
        lemma_fit_composite_values_latest(v.subrange(0, v.len() - 1), s);
        let last = v[v.len() - 1];
        match last {
            CompositeValueSpecificationView::Array(a) => lemma_fit_array_latest(a, s),
            CompositeValueSpecificationView::Record(r) => lemma_fit_record_latest(r, s),
        }
        assert(fit_composite_value(last, s) == last);
        assert(fit_composite_values(v, s) == fit_composite_values(v.subrange(0, v.len() - 1), s).push(
            fit_composite_value(last, s),
        ));
        assert(v.subrange(0, v.len() - 1).push(last) =~= v);
    } else {
        assert(v =~= Seq::<CompositeValueSpecificationView>::empty());
    }
}

proof fn lemma_fit_composite_rule_based_latest(c: CompositeRuleBasedValueSpecificationView, s: SchemaSupport)
    requires
        s.unit_display_name,
        s.default_pattern,
    ensures
        fit_composite_rule_based(c, s) == c,
    decreases c,
{
    lemma_fit_composite_values_latest(c.argument, s);
    assert forall|i: int| 0 <= i < c.compound_primitive_argument.len() implies fit_composite_argument(
        #[trigger] c.compound_primitive_argument[i],
        s,
    ) == c.compound_primitive_argument[i] by {
        if let CompositeRuleBasedValueArgumentView::Application(x) = c.compound_primitive_argument[i] {
            lemma_fit_application_latest(x, s);
        }
    }
    assert(c.compound_primitive_argument.map_values(|a: CompositeRuleBasedValueArgumentView| fit_composite_argument(a, s))
        =~= c.compound_primitive_argument);
}

/// Law: an axis whose display name the AUTOSAR version cannot hold reads back without it,
/// and with it otherwise.
pub proof fn lemma_sw_axis_cont_stored(a: SwAxisContView, s: SchemaSupport)
    ensures
        load_sw_axis_cont(store_sw_axis_cont(fit_sw_axis_cont(a, s))) == Some(
            if s.unit_display_name { a } else { SwAxisContView { unit_display_name: None, ..a } },
        ),
{
    lemma_sw_axis_cont_roundtrip(fit_sw_axis_cont(a, s));
}

/// Law: a not-available value whose pattern the AUTOSAR version cannot hold reads back
/// without it, and with it otherwise.
pub proof fn lemma_not_available_stored(n: NotAvailableValueSpecificationView, s: SchemaSupport)
    ensures
        load_not_available(store_not_available(fit_not_available(n, s))) == Some(
            if s.default_pattern { n } else { NotAvailableValueSpecificationView { default_pattern: None, ..n } },
        ),
{
    lemma_not_available_roundtrip(fit_not_available(n, s));
}

/// Law: a stored value reads back as itself, less what the AUTOSAR version cannot hold.
pub proof fn lemma_value_stored(v: ValueSpecificationView, s: SchemaSupport)
    ensures
        load_value(store_value(fit_value(v, s))) == Some(fit_value(v, s)),
        s.unit_display_name && s.default_pattern ==> load_value(store_value(fit_value(v, s))) == Some(v),
{
    lemma_value_roundtrip(fit_value(v, s));
    if s.unit_display_name && s.default_pattern {
        lemma_fit_value_latest(v, s);
    }
}

/// Law: a list of value specifications reads back as itself.
pub proof fn lemma_values_roundtrip(s: Seq<ValueSpecificationView>)
    ensures
        load_values(store_values(s)) == s,
    decreases s,
{
    if s.len() > 0 {
        let init = s.subrange(0, s.len() - 1);
        lemma_store_values_prefix(s);
        lemma_values_roundtrip(init);
        lemma_value_roundtrip(s[s.len() - 1]);
        assert(s =~= init.push(s[s.len() - 1]));
    } else {
        assert(s =~= Seq::<ValueSpecificationView>::empty());
    }
}

/// Law: an array value reads back as itself.
pub proof fn lemma_array_roundtrip(a: ArrayValueSpecificationView)
    ensures
        load_array(store_array(a)) == Some(a),
    decreases a,
{
    let s = store_array(a).sub_elements;
    let x = node(ElementName::Elements, store_values(a.values));
    match a.label {
        Some(l) => {
            assert(s =~= seq![leaf(ElementName::ShortLabel, CharacterDataView::String(l)), x]);
            assert(s[0].name == ElementName::ShortLabel);
            lemma_distinct_index(s, ElementName::Elements, 1);
        },
        None => {
            assert(s =~= seq![x]);
            lemma_distinct_index(s, ElementName::Elements, 0);
        },
    }
    lemma_distinct_find(s, ElementName::ShortLabel);
    lemma_values_roundtrip(a.values);
}

/// Law: a record value reads back as itself.
pub proof fn lemma_record_roundtrip(r: RecordValueSpecificationView)
    ensures
        load_record(store_record(r)) == Some(r),
    decreases r,
{
    let s = store_record(r).sub_elements;
    let x = node(ElementName::Fields, store_values(r.values));
    match r.label {
        Some(l) => {
            assert(s =~= seq![leaf(ElementName::ShortLabel, CharacterDataView::String(l)), x]);
            assert(s[0].name == ElementName::ShortLabel);
            lemma_distinct_index(s, ElementName::Fields, 1);
        },
        None => {
            assert(s =~= seq![x]);
            lemma_distinct_index(s, ElementName::Fields, 0);
        },
    }
    lemma_distinct_find(s, ElementName::ShortLabel);
    lemma_values_roundtrip(r.values);
}

/// Law: a composite value reads back as itself.
pub proof fn lemma_composite_value_roundtrip(c: CompositeValueSpecificationView)
    ensures
        load_composite_value(store_composite_value(c)) == Some(c),
    decreases c,
{
    match c {
        CompositeValueSpecificationView::Array(a) => lemma_array_roundtrip(a),
        CompositeValueSpecificationView::Record(r) => lemma_record_roundtrip(r),
    }
}

pub proof fn lemma_composite_values_roundtrip(s: Seq<CompositeValueSpecificationView>)
    ensures
        load_composite_values(store_composite_values(s)) == s,
    decreases s,
{
    if s.len() > 0 {
        let init = s.subrange(0, s.len() - 1);
        lemma_store_composite_values_prefix(s);
        lemma_composite_values_roundtrip(init);
        lemma_composite_value_roundtrip(s[s.len() - 1]);
        assert(s =~= init.push(s[s.len() - 1]));
    } else {
        assert(s =~= Seq::<CompositeValueSpecificationView>::empty());
    }
}

/// Law: a composite rule based value reads back as itself.
pub proof fn lemma_composite_rule_based_roundtrip(c: CompositeRuleBasedValueSpecificationView)
    ensures
        load_composite_rule_based(store_composite_rule_based(c)) == Some(c),
    decreases c,
{
    let s = store_composite_rule_based(c).sub_elements;
    let a = node(ElementName::Arguments, store_composite_values(c.argument));
    let p = node(
        ElementName::CompoundPrimitiveArguments,
        c.compound_primitive_argument.map_values(|a: CompositeRuleBasedValueArgumentView| store_composite_argument(a)),
    );
    let r = leaf(ElementName::Rule, CharacterDataView::String(rule_text(c.rule)));
    let lab = label_elements(c.label);
    let mx = optional_integer_elements(ElementName::MaxSizeToFill, c.max_size_to_fill);
    assert(s == lab + seq![a, p] + mx + seq![r]);
    match (c.label, c.max_size_to_fill) {
        (Some(l), Some(m)) => {
            let sl = leaf(ElementName::ShortLabel, CharacterDataView::String(l));
            let ml = leaf(ElementName::MaxSizeToFill, CharacterDataView::UnsignedInteger(m));
            assert(s =~= seq![sl, a, p, ml, r]);
            assert(s[0].name == ElementName::ShortLabel);
            assert(s[2].name == ElementName::CompoundPrimitiveArguments);
            assert(s[3].name == ElementName::MaxSizeToFill);
            assert(s[4].name == ElementName::Rule);
            lemma_distinct_index(s, ElementName::Arguments, 1);
        },
        (Some(l), None) => {
            let sl = leaf(ElementName::ShortLabel, CharacterDataView::String(l));
            assert(s =~= seq![sl, a, p, r]);
            assert(s[0].name == ElementName::ShortLabel);
            assert(s[2].name == ElementName::CompoundPrimitiveArguments);
            assert(s[3].name == ElementName::Rule);
            lemma_distinct_index(s, ElementName::Arguments, 1);
        },
        (None, Some(m)) => {
            let ml = leaf(ElementName::MaxSizeToFill, CharacterDataView::UnsignedInteger(m));
            assert(s =~= seq![a, p, ml, r]);
            assert(s[1].name == ElementName::CompoundPrimitiveArguments);
            assert(s[2].name == ElementName::MaxSizeToFill);
            assert(s[3].name == ElementName::Rule);
            lemma_distinct_index(s, ElementName::Arguments, 0);
        },
        (None, None) => {
            assert(s =~= seq![a, p, r]);
            assert(s[1].name == ElementName::CompoundPrimitiveArguments);
            assert(s[2].name == ElementName::Rule);
            lemma_distinct_index(s, ElementName::Arguments, 0);
        },
    }
    lemma_distinct_find(s, ElementName::ShortLabel);
    lemma_distinct_find(s, ElementName::CompoundPrimitiveArguments);
    lemma_distinct_find(s, ElementName::MaxSizeToFill);
    lemma_distinct_find(s, ElementName::Rule);
    lemma_composite_values_roundtrip(c.argument);
    lemma_composite_arguments_roundtrip(c.compound_primitive_argument);
    lemma_rule_text_roundtrip(c.rule);
}


//#########################################################
// writing and reading elements

/// an element that holds character data
pub fn leaf_element(name: ElementName, cd: CharacterData) -> (r: Element)
    ensures
        r@ == leaf(name, cd@),
{
    let mut e = Element::new(name);
    e.set_character_data(cd);
    e
}

/// a reference element that refers to `target`
pub fn reference_element(name: ElementName, target: &ElementRef) -> (r: Element)
    ensures
        r@ == ref_leaf(name, target@.kind, target@.path),
{
    let mut e = Element::new(name);
    e.set_reference_target(target);
    e
}

/// write the SHORT-LABEL of a value, if it has one
pub fn store_label(parent: &mut Element, label: &Option<String>)
    ensures
        final(parent)@ == with_subs(old(parent)@, label_elements(opt_str_view(*label))),
{
    match label {
        Some(l) => {
            parent.push_sub_element(leaf_element(ElementName::ShortLabel, CharacterData::String(l.clone())));
            assert(old(parent)@.sub_elements.push(label_elements(opt_str_view(*label))[0]) =~= old(parent)@.sub_elements + label_elements(opt_str_view(*label)));
        },
        None => {
            assert(old(parent)@.sub_elements =~= old(parent)@.sub_elements + label_elements(opt_str_view(*label)));
        },
    }
}

/// the character data of an optional element
pub fn data_of_elem(e: Option<&Element>) -> (r: Option<&CharacterData>)
    ensures
        match r {
            Some(c) => data_of(match e { Some(x) => Some(x@), None => None }) == Some(c@),
            None => data_of(match e { Some(x) => Some(x@), None => None }) is None,
        },
{
    match e {
        Some(x) => x.character_data(),
        None => None,
    }
}

pub open spec fn opt_elem_view(e: Option<&Element>) -> Option<ElementView> {
    match e {
        Some(x) => Some(x@),
        None => None,
    }
}

/// the text of an optional element
pub fn text_of_elem(e: Option<&Element>) -> (r: Option<String>)
    ensures
        opt_str_view(r) == text_of(opt_elem_view(e)),
{
    match data_of_elem(e) {
        Some(cd) => cd.string_value(),
        None => None,
    }
}

/// the integer of an optional element
pub fn integer_of_elem(e: Option<&Element>) -> (r: Option<u64>)
    ensures
        r == integer_of(opt_elem_view(e)),
{
    match data_of_elem(e) {
        Some(cd) => cd.parse_integer_u64(),
        None => None,
    }
}

/// the double (by its bits) of an optional element
pub fn float_of_elem(e: Option<&Element>) -> (r: Option<u64>)
    ensures
        r == float_of(opt_elem_view(e)),
{
    match data_of_elem(e) {
        Some(cd) => cd.parse_float(),
        None => None,
    }
}

/// the reference target of an optional element
pub fn target_of_elem(e: Option<&Element>) -> (r: Option<ElementRef>)
    ensures
        match r {
            Some(t) => target_of(opt_elem_view(e)) == Some((t@.kind, t@.path)),
            None => target_of(opt_elem_view(e)) is None,
        },
{
    match e {
        Some(x) => x.get_reference_target(),
        None => None,
    }
}

/// read the SHORT-LABEL of a value
pub fn load_label_elem(element: &Element) -> (r: Option<String>)
    ensures
        opt_str_view(r) == load_label(element@),
{
    text_of_elem(element.get_sub_element(ElementName::ShortLabel))
}

/// the unit that the UNIT-REF sub element refers to
pub fn load_unit_elem(element: &Element) -> (r: Option<Unit>)
    ensures
        opt_unit_view(r) == load_unit(element@),
{
    match target_of_elem(element.get_sub_element(ElementName::UnitRef)) {
        Some(t) => if t.kind == ElementName::Unit {
            Some(Unit { path: t.path })
        } else {
            None
        },
        None => None,
    }
}

/// write the UNIT-REF element of an optional unit
pub fn store_unit(parent: &mut Element, unit: &Option<Unit>)
    ensures
        final(parent)@ == with_subs(old(parent)@, unit_elements(opt_unit_view(*unit))),
{
    match unit {
        Some(u) => {
            let t = ElementRef { kind: ElementName::Unit, path: u.path.clone() };
            parent.push_sub_element(reference_element(ElementName::UnitRef, &t));
            assert(old(parent)@.sub_elements.push(unit_elements(opt_unit_view(*unit))[0]) =~= old(parent)@.sub_elements + unit_elements(opt_unit_view(*unit)));
        },
        None => {
            assert(old(parent)@.sub_elements =~= old(parent)@.sub_elements + unit_elements(opt_unit_view(*unit)));
        },
    }
}

/// write an optional unsigned integer as an element of the given name
pub fn store_optional_integer(parent: &mut Element, name: ElementName, value: Option<u64>)
    ensures
        final(parent)@ == with_subs(old(parent)@, optional_integer_elements(name, value)),
{
    match value {
        Some(n) => {
            parent.push_sub_element(leaf_element(name, CharacterData::UnsignedInteger(n)));
            assert(old(parent)@.sub_elements.push(optional_integer_elements(name, value)[0]) =~= old(parent)@.sub_elements + optional_integer_elements(name, value));
        },
        None => {
            assert(old(parent)@.sub_elements =~= old(parent)@.sub_elements + optional_integer_elements(name, value));
        },
    }
}

/// the SW-ARRAYSIZE element of a list of dimensions
pub fn array_size_elem(sizes: &Vec<u64>) -> (r: Element)
    ensures
        r@ == array_size_element(sizes@),
{
    let mut e = Element::new(ElementName::SwArraysize);
    let mut i: usize = 0;
    assert(sizes@.subrange(0, 0).map_values(
        |n: u64| leaf(ElementName::Vf, CharacterDataView::UnsignedInteger(n)),
    ) =~= Seq::<ElementView>::empty());
    while i < sizes.len()
        invariant
            i <= sizes@.len(),
            e@ == node(
                ElementName::SwArraysize,
                sizes@.subrange(0, i as int).map_values(
                    |n: u64| leaf(ElementName::Vf, CharacterDataView::UnsignedInteger(n)),
                ),
            ),
        decreases sizes@.len() - i,
    {
        e.push_sub_element(leaf_element(ElementName::Vf, CharacterData::UnsignedInteger(sizes[i])));
        assert(sizes@.subrange(0, i + 1).map_values(
            |n: u64| leaf(ElementName::Vf, CharacterDataView::UnsignedInteger(n)),
        ) =~= sizes@.subrange(0, i as int).map_values(
            |n: u64| leaf(ElementName::Vf, CharacterDataView::UnsignedInteger(n)),
        ).push(leaf(ElementName::Vf, CharacterDataView::UnsignedInteger(sizes[i as int]))));
        i = i + 1;
    }
    assert(sizes@.subrange(0, sizes@.len() as int) =~= sizes@);
    e
}

/// the integers held by the sub elements of `element`, skipping those that are not integers
pub fn load_integers_elem(element: &Element) -> (r: Vec<u64>)
    ensures
        r@ == load_integers(element@.sub_elements),
{
    let ghost subs = element@.sub_elements;
    proof {
        lemma_elements_view(element.sub_elements@);
    }
    let mut r: Vec<u64> = Vec::new();
    let mut i: usize = 0;
    while i < element.sub_elements.len()
        invariant
            i <= element.sub_elements@.len(),
            subs == element@.sub_elements,
            subs.len() == element.sub_elements@.len(),
            forall|k: int| 0 <= k < subs.len() ==> #[trigger] subs[k] == element.sub_elements@[k]@,
            r@ == load_integers(subs.subrange(0, i as int)),
        decreases element.sub_elements@.len() - i,
    {
        assert(subs.subrange(0, i + 1).subrange(0, i as int) =~= subs.subrange(0, i as int));
        let x = integer_of_elem(Some(&element.sub_elements[i]));
        if let Some(n) = x {
            r.push(n);
        }
        i = i + 1;
    }
    assert(subs.subrange(0, subs.len() as int) =~= subs);
    r
}


impl ApplicationPrimitiveCategory {
    /// the text of the category as it stands in an arxml file
    pub fn to_string(&self) -> (r: String)
        ensures
            r@ == category_text(*self),
    {
        match self {
            ApplicationPrimitiveCategory::Value => "VALUE".to_owned(),
            ApplicationPrimitiveCategory::ValBlk => "VAL_BLK".to_owned(),
            ApplicationPrimitiveCategory::String => "STRING".to_owned(),
            ApplicationPrimitiveCategory::Boolean => "BOOLEAN".to_owned(),
            ApplicationPrimitiveCategory::ComAxis => "COM_AXIS".to_owned(),
            ApplicationPrimitiveCategory::ResAxis => "RES_AXIS".to_owned(),
            ApplicationPrimitiveCategory::Curve => "CURVE".to_owned(),
            ApplicationPrimitiveCategory::Map2d => "MAP".to_owned(),
            ApplicationPrimitiveCategory::Cuboid => "CUBOID".to_owned(),
            ApplicationPrimitiveCategory::Cube4 => "CUBE_4".to_owned(),
            ApplicationPrimitiveCategory::Cube5 => "CUBE_5".to_owned(),
        }
    }

    /// the category that a text names
    pub fn from_str(value: &str) -> (r: Result<ApplicationPrimitiveCategory, AutosarAbstractionError>)
        ensures
            match r {
                Ok(c) => category_from_text(value@) == Some(c),
                Err(e) => category_from_text(value@) is None && (e matches AutosarAbstractionError::ValueConversionError {
                    value: v,
                    dest: d,
                } && v@ == value@ && d@ == "ApplicationPrimitiveCategory"@),
            },
    {
        if text_is(value, "VALUE") {
            Ok(ApplicationPrimitiveCategory::Value)
        } else if text_is(value, "VAL_BLK") {
            Ok(ApplicationPrimitiveCategory::ValBlk)
        } else if text_is(value, "STRING") {
            Ok(ApplicationPrimitiveCategory::String)
        } else if text_is(value, "BOOLEAN") {
            Ok(ApplicationPrimitiveCategory::Boolean)
        } else if text_is(value, "COM_AXIS") {
            Ok(ApplicationPrimitiveCategory::ComAxis)
        } else if text_is(value, "RES_AXIS") {
            Ok(ApplicationPrimitiveCategory::ResAxis)
        } else if text_is(value, "CURVE") {
            Ok(ApplicationPrimitiveCategory::Curve)
        } else if text_is(value, "MAP") {
            Ok(ApplicationPrimitiveCategory::Map2d)
        } else if text_is(value, "CUBOID") {
            Ok(ApplicationPrimitiveCategory::Cuboid)
        } else if text_is(value, "CUBE_4") {
            Ok(ApplicationPrimitiveCategory::Cube4)
        } else if text_is(value, "CUBE_5") {
            Ok(ApplicationPrimitiveCategory::Cube5)
        } else {
            Err(AutosarAbstractionError::ValueConversionError {
                value: value.to_owned(),
                dest: "ApplicationPrimitiveCategory".to_owned(),
            })
        }
    }
}

impl RuleBasedFillUntil {
    /// the text of the rule as it stands in an arxml file
    pub fn to_string(&self) -> (r: String)
        ensures
            r@ == rule_text(*self),
    {
        match self {
            RuleBasedFillUntil::End => "FILL_UNTIL_END".to_owned(),
            RuleBasedFillUntil::MaxSize => "FILL_UNTIL_MAX_SIZE".to_owned(),
        }
    }

    /// the rule that a text names
    pub fn from_str(value: &str) -> (r: Result<RuleBasedFillUntil, AutosarAbstractionError>)
        ensures
            match r {
                Ok(rule) => rule_from_text(value@) == Some(rule),
                Err(e) => rule_from_text(value@) is None && (e matches AutosarAbstractionError::ValueConversionError {
                    value: v,
                    dest: d,
                } && v@ == value@ && d@ == "RuleBasedFillUntil"@),
            },
    {
        if text_is(value, "FILL_UNTIL_END") {
            Ok(RuleBasedFillUntil::End)
        } else if text_is(value, "FILL_UNTIL_MAX_SIZE") {
            Ok(RuleBasedFillUntil::MaxSize)
        } else {
            Err(AutosarAbstractionError::ValueConversionError {
                value: value.to_owned(),
                dest: "RuleBasedFillUntil".to_owned(),
            })
        }
    }
}

impl From<SwAxisContCategory> for EnumItem {
    fn from(value: SwAxisContCategory) -> (r: EnumItem) {
        match value {
            SwAxisContCategory::StdAxis => EnumItem::Stdaxis,
            SwAxisContCategory::ComAxis => EnumItem::Comaxis,
            SwAxisContCategory::ResAxis => EnumItem::Resaxis,
        }
    }
}

impl vstd::std_specs::convert::FromSpecImpl<SwAxisContCategory> for EnumItem {
    open spec fn obeys_from_spec() -> bool {
        true
    }

    open spec fn from_spec(value: SwAxisContCategory) -> EnumItem {
        axis_category_item(value)
    }
}

impl SwAxisContCategory {
    /// the enumeration item that this category is written as
    pub fn to_enum_item(&self) -> (r: EnumItem)
        ensures
            r == axis_category_item(*self),
    {
        match self {
            SwAxisContCategory::StdAxis => EnumItem::Stdaxis,
            SwAxisContCategory::ComAxis => EnumItem::Comaxis,
            SwAxisContCategory::ResAxis => EnumItem::Resaxis,
        }
    }

    /// the category that an enumeration item stands for; the old spellings with a hyphen
    /// are accepted too
    pub fn try_from(value: EnumItem) -> (r: Result<SwAxisContCategory, AutosarAbstractionError>)
        ensures
            match r {
                Ok(c) => axis_category_from_item(value) == Some(c),
                Err(e) => axis_category_from_item(value) is None && (e matches AutosarAbstractionError::ValueConversionError {
                    value: v,
                    dest: d,
                } && v@ == item_text(value) && d@ == "SwAxisContCategory"@),
            },
    {
        match value {
            EnumItem::StdAxis => Ok(SwAxisContCategory::StdAxis),
            EnumItem::Stdaxis => Ok(SwAxisContCategory::StdAxis),
            EnumItem::ComAxis => Ok(SwAxisContCategory::ComAxis),
            EnumItem::Comaxis => Ok(SwAxisContCategory::ComAxis),
            EnumItem::ResAxis => Ok(SwAxisContCategory::ResAxis),
            EnumItem::Resaxis => Ok(SwAxisContCategory::ResAxis),
            _ => Err(AutosarAbstractionError::ValueConversionError {
                value: value.to_str().to_owned(),
                dest: "SwAxisContCategory".to_owned(),
            }),
        }
    }
}

/// the axis category read from the CATEGORY sub element
pub fn load_axis_category_elem(element: &Element) -> (r: Option<SwAxisContCategory>)
    ensures
        r == load_axis_category(element@),
{
    match data_of_elem(element.get_sub_element(ElementName::Category)) {
        Some(cd) => match cd.enum_value() {
            Some(item) => match SwAxisContCategory::try_from(item) {
                Ok(c) => Some(c),
                Err(_) => None,
            },
            None => None,
        },
        None => None,
    }
}

impl DataPrototype {
    /// the reference to the element of this data prototype
    pub fn element_ref(&self) -> (r: ElementRef)
        ensures
            r@.kind == data_prototype_kind(self@),
            r@.path == data_prototype_path(self@),
    {
        match self {
            DataPrototype::ArgumentDataPrototype(x) => ElementRef { kind: ElementName::ArgumentDataPrototype, path: x.path.clone() },
            DataPrototype::ParameterDataPrototype(x) => ElementRef { kind: ElementName::ParameterDataPrototype, path: x.path.clone() },
            DataPrototype::VariableDataPrototype(x) => ElementRef { kind: ElementName::VariableDataPrototype, path: x.path.clone() },
            DataPrototype::ApplicationArrayElement(x) => ElementRef { kind: ElementName::Element, path: x.path.clone() },
            DataPrototype::ApplicationRecordElement(x) => ElementRef { kind: ElementName::ApplicationRecordElement, path: x.path.clone() },
        }
    }

    /// the data prototype that a reference to an element stands for; an error for an
    /// element that is no data prototype
    pub fn try_from(target: ElementRef) -> (r: Result<DataPrototype, AutosarAbstractionError>)
        ensures
            match r {
                Ok(d) => data_prototype_from(target@.kind, target@.path) == Some(d@),
                Err(e) => data_prototype_from(target@.kind, target@.path) is None && (e matches AutosarAbstractionError::ConversionError {
                    element: k,
                    dest: d,
                } && k == target@.kind && d@ == "DataPrototype"@),
            },
    {
        match target.kind {
            ElementName::ArgumentDataPrototype => Ok(DataPrototype::ArgumentDataPrototype(ArgumentDataPrototype { path: target.path })),
            ElementName::ParameterDataPrototype => Ok(DataPrototype::ParameterDataPrototype(ParameterDataPrototype { path: target.path })),
            ElementName::VariableDataPrototype => Ok(DataPrototype::VariableDataPrototype(VariableDataPrototype { path: target.path })),
            ElementName::Element => Ok(DataPrototype::ApplicationArrayElement(ApplicationArrayElement { path: target.path })),
            ElementName::ApplicationRecordElement => Ok(DataPrototype::ApplicationRecordElement(ApplicationRecordElement { path: target.path })),
            _ => Err(AutosarAbstractionError::ConversionError { element: target.kind, dest: "DataPrototype".to_owned() }),
        }
    }
}

impl RuleArgument {
    /// write this argument as a sub element of `parent`
    pub fn store(&self, parent: &mut Element)
        ensures
            final(parent)@ == with_sub(old(parent)@, store_rule_argument(self@)),
    {
        let e = match self {
            RuleArgument::V(x) => leaf_element(ElementName::V, CharacterData::Float(*x)),
            RuleArgument::Vf(x) => leaf_element(ElementName::Vf, CharacterData::Float(*x)),
            RuleArgument::Vt(t) => leaf_element(ElementName::Vt, CharacterData::String(t.clone())),
            RuleArgument::VtfNumber(x) => {
                let mut vtf = Element::new(ElementName::Vtf);
                vtf.push_sub_element(leaf_element(ElementName::Vf, CharacterData::Float(*x)));
                vtf
            },
            RuleArgument::VtfText(t) => {
                let mut vtf = Element::new(ElementName::Vtf);
                vtf.push_sub_element(leaf_element(ElementName::Vt, CharacterData::String(t.clone())));
                vtf
            },
        };
        parent.push_sub_element(e);
    }

    /// read an argument from an element
    pub fn load(element: &Element) -> (r: Option<RuleArgument>)
        ensures
            match r {
                Some(a) => load_rule_argument(element@) == Some(a@),
                None => load_rule_argument(element@) is None,
            },
    {
        match element.element_name() {
            ElementName::V => match float_of_elem(Some(element)) {
                Some(x) => Some(RuleArgument::V(x)),
                None => None,
            },
            ElementName::Vf => match float_of_elem(Some(element)) {
                Some(x) => Some(RuleArgument::Vf(x)),
                None => None,
            },
            ElementName::Vt => match text_of_elem(Some(element)) {
                Some(t) => Some(RuleArgument::Vt(t)),
                None => None,
            },
            ElementName::Vtf => match element.get_sub_element(ElementName::Vf) {
                Some(vf) => match float_of_elem(Some(vf)) {
                    Some(x) => Some(RuleArgument::VtfNumber(x)),
                    None => None,
                },
                None => match text_of_elem(element.get_sub_element(ElementName::Vt)) {
                    Some(t) => Some(RuleArgument::VtfText(t)),
                    None => None,
                },
            },
            _ => None,
        }
    }
}

impl RuleBasedValueSpecification {
    /// write the RULE-BASED-VALUES element as a sub element of `parent`
    pub fn store(&self, parent: &mut Element)
        ensures
            final(parent)@ == with_sub(old(parent)@, store_rule_based_values(self@)),
    {
        let ghost f = |a: RuleArgumentView| store_rule_argument(a);
        let ghost args = self.arguments@.map_values(|a: RuleArgument| a@);
        let mut rule_args = Element::new(ElementName::RuleArguments);
        let mut i: usize = 0;
        assert(args.subrange(0, 0).map_values(f) =~= Seq::<ElementView>::empty());
        while i < self.arguments.len()
            invariant
                i <= self.arguments@.len(),
                args == self.arguments@.map_values(|a: RuleArgument| a@),
                f == (|a: RuleArgumentView| store_rule_argument(a)),
                rule_args@ == node(ElementName::RuleArguments, args.subrange(0, i as int).map_values(f)),
            decreases self.arguments@.len() - i,
        {
            self.arguments[i].store(&mut rule_args);
            assert(args.subrange(0, i + 1).map_values(f) =~= args.subrange(0, i as int).map_values(f).push(
                store_rule_argument(self.arguments@[i as int]@),
            ));
            i = i + 1;
        }
        assert(args.subrange(0, args.len() as int) =~= args);
        let mut argumentss = Element::new(ElementName::Argumentss);
        argumentss.push_sub_element(rule_args);
        let mut rbv = Element::new(ElementName::RuleBasedValues);
        rbv.push_sub_element(argumentss);
        store_optional_integer(&mut rbv, ElementName::MaxSizeToFill, self.max_size_to_fill);
        rbv.push_sub_element(leaf_element(ElementName::Rule, CharacterData::String(self.rule.to_string())));
        assert(rbv@.sub_elements =~= store_rule_based_values(self@).sub_elements);
        parent.push_sub_element(rbv);
    }

    /// read rule based values from a RULE-BASED-VALUES element
    pub fn load(element: &Element) -> (r: Option<RuleBasedValueSpecification>)
        ensures
            match r {
                Some(x) => load_rule_based_values(element@) == Some(x@),
                None => load_rule_based_values(element@) is None,
            },
    {
        let argumentss = element.get_sub_element(ElementName::Argumentss)?;
        let rule_args = argumentss.get_sub_element(ElementName::RuleArguments)?;
        let ghost subs = rule_args@.sub_elements;
        proof {
            lemma_elements_view(rule_args.sub_elements@);
        }
        let mut arguments: Vec<RuleArgument> = Vec::new();
        let mut i: usize = 0;
        assert(arguments@.map_values(|a: RuleArgument| a@) =~= load_rule_arguments(subs.subrange(0, 0)));
        while i < rule_args.sub_elements.len()
            invariant
                i <= rule_args.sub_elements@.len(),
                subs == rule_args@.sub_elements,
                subs.len() == rule_args.sub_elements@.len(),
                forall|k: int| 0 <= k < subs.len() ==> #[trigger] subs[k] == rule_args.sub_elements@[k]@,
                arguments@.map_values(|a: RuleArgument| a@) == load_rule_arguments(subs.subrange(0, i as int)),
            decreases rule_args.sub_elements@.len() - i,
        {
            assert(subs.subrange(0, i + 1).subrange(0, i as int) =~= subs.subrange(0, i as int));
            let ghost before = arguments@;
            if let Some(a) = RuleArgument::load(&rule_args.sub_elements[i]) {
                arguments.push(a);
                assert(arguments@.map_values(|a: RuleArgument| a@) =~= before.map_values(|a: RuleArgument| a@).push(a@));
            }
            i = i + 1;
        }
        assert(subs.subrange(0, subs.len() as int) =~= subs);
        let max_size_to_fill = integer_of_elem(element.get_sub_element(ElementName::MaxSizeToFill));
        let rule_text = text_of_elem(element.get_sub_element(ElementName::Rule))?;
        let rule = match RuleBasedFillUntil::from_str(rule_text.as_str()) {
            Ok(r) => r,
            Err(_) => return None,
        };
        Some(RuleBasedValueSpecification { arguments, max_size_to_fill, rule })
    }
}


pub proof fn lemma_sw_values_view_push(s: Seq<SwValue>, x: SwValue)
    ensures
        sw_values_view(s.push(x)) == sw_values_view(s).push(x@),
{
    assert(s.push(x).subrange(0, s.len() as int) =~= s);
}

pub proof fn lemma_store_sw_values_push(s: Seq<SwValueView>, x: SwValueView)
    ensures
        store_sw_values(s.push(x)) == store_sw_values(s).push(store_sw_value(x)),
{
    assert(s.push(x).subrange(0, s.len() as int) =~= s);
}

/// write values of a compound primitive data type as sub elements of `parent`
pub fn store_sw_value_list(values: &Vec<SwValue>, parent: &mut Element)
    ensures
        final(parent)@ == with_subs(old(parent)@, store_sw_values(sw_values_view(values@))),
    decreases values, 0int,
{
    let ghost start = parent@;
    let mut i: usize = 0;
    assert(values@.subrange(0, 0) =~= Seq::<SwValue>::empty());
    assert(start.sub_elements + Seq::<ElementView>::empty() =~= start.sub_elements);
    while i < values.len()
        invariant
            i <= values@.len(),
            parent@ == with_subs(start, store_sw_values(sw_values_view(values@.subrange(0, i as int)))),
        decreases values@.len() - i,
    {
        let ghost before = parent@;
        values[i].store(parent);
        proof {
            assert(values@.subrange(0, i + 1) =~= values@.subrange(0, i as int).push(values@[i as int]));
            lemma_sw_values_view_push(values@.subrange(0, i as int), values@[i as int]);
            lemma_store_sw_values_push(sw_values_view(values@.subrange(0, i as int)), values@[i as int]@);
            assert(parent@.sub_elements =~= start.sub_elements + store_sw_values(
                sw_values_view(values@.subrange(0, i + 1)),
            ));
        }
        i = i + 1;
    }
    assert(values@.subrange(0, values@.len() as int) =~= values@);
}

/// the values of a compound primitive data type held by the sub elements of `element`,
/// skipping those that are none
pub fn load_sw_value_list(element: &Element) -> (r: Vec<SwValue>)
    ensures
        sw_values_view(r@) == load_sw_values(element@.sub_elements),
    decreases element, 0int,
{
    let ghost subs = element@.sub_elements;
    proof {
        lemma_elements_view(element.sub_elements@);
    }
    let mut r: Vec<SwValue> = Vec::new();
    let mut i: usize = 0;
    assert(sw_values_view(r@) =~= load_sw_values(subs.subrange(0, 0)));
    while i < element.sub_elements.len()
        invariant
            i <= element.sub_elements@.len(),
            subs == element@.sub_elements,
            subs.len() == element.sub_elements@.len(),
            forall|k: int| 0 <= k < subs.len() ==> #[trigger] subs[k] == element.sub_elements@[k]@,
            sw_values_view(r@) == load_sw_values(subs.subrange(0, i as int)),
        decreases element.sub_elements@.len() - i,
    {
        assert(subs.subrange(0, i + 1).subrange(0, i as int) =~= subs.subrange(0, i as int));
        let ghost before = r@;
        if let Some(v) = SwValue::load(&element.sub_elements[i]) {
            r.push(v);
            proof {
                lemma_sw_values_view_push(before, v);
            }
        }
        i = i + 1;
    }
    assert(subs.subrange(0, subs.len() as int) =~= subs);
    r
}

impl SwValue {
    /// write this value as a sub element of `parent`
    pub fn store(&self, parent: &mut Element)
        ensures
            final(parent)@ == with_sub(old(parent)@, store_sw_value(self@)),
        decreases self, 1int,
    {
        let e = match self {
            SwValue::V(x) => leaf_element(ElementName::V, CharacterData::Float(*x)),
            SwValue::Vf(x) => leaf_element(ElementName::Vf, CharacterData::Float(*x)),
            SwValue::Vg { label, vg_content } => {
                let mut vg = Element::new(ElementName::Vg);
                match label {
                    Some(l) => {
                        let mut label_elem = Element::new(ElementName::Label);
                        label_elem.push_sub_element(leaf_element(ElementName::L4, CharacterData::String(l.clone())));
                        vg.push_sub_element(label_elem);
                    },
                    None => {},
                }
                assert(vg@.sub_elements =~= vg_label_elements(opt_str_view(*label)));
                store_sw_value_list(vg_content, &mut vg);
                vg
            },
            SwValue::Vt(t) => leaf_element(ElementName::Vt, CharacterData::String(t.clone())),
            SwValue::VtfNumber(x) => {
                let mut vtf = Element::new(ElementName::Vtf);
                vtf.push_sub_element(leaf_element(ElementName::Vf, CharacterData::Float(*x)));
                vtf
            },
            SwValue::VtfText(t) => {
                let mut vtf = Element::new(ElementName::Vtf);
                vtf.push_sub_element(leaf_element(ElementName::Vt, CharacterData::String(t.clone())));
                vtf
            },
        };
        parent.push_sub_element(e);
    }

    /// read a value from an element
    pub fn load(element: &Element) -> (r: Option<SwValue>)
        ensures
            match r {
                Some(v) => load_sw_value(element@) == Some(v@),
                None => load_sw_value(element@) is None,
            },
        decreases element, 1int,
    {
        match element.element_name() {
            ElementName::V => match float_of_elem(Some(element)) {
                Some(x) => Some(SwValue::V(x)),
                None => None,
            },
            ElementName::Vf => match float_of_elem(Some(element)) {
                Some(x) => Some(SwValue::Vf(x)),
                None => None,
            },
            ElementName::Vg => {
                let label = match element.get_sub_element(ElementName::Label) {
                    Some(l) => text_of_elem(l.get_sub_element(ElementName::L4)),
                    None => None,
                };
                let vg_content = load_sw_value_list(element);
                Some(SwValue::Vg { label, vg_content })
            },
            ElementName::Vt => match text_of_elem(Some(element)) {
                Some(t) => Some(SwValue::Vt(t)),
                None => None,
            },
            ElementName::Vtf => match element.get_sub_element(ElementName::Vf) {
                Some(vf) => match float_of_elem(Some(vf)) {
                    Some(x) => Some(SwValue::VtfNumber(x)),
                    None => None,
                },
                None => match text_of_elem(element.get_sub_element(ElementName::Vt)) {
                    Some(t) => Some(SwValue::VtfText(t)),
                    None => None,
                },
            },
            _ => None,
        }
    }
}


impl SwValueCont {
    /// write the SW-ARRAYSIZE and SW-VALUES-PHYS elements as sub elements of `parent`
    pub fn store(&self, parent: &mut Element)
        ensures
            final(parent)@ == with_subs(old(parent)@, store_sw_value_cont(self@)),
    {
        let ghost start = parent@;
        parent.push_sub_element(array_size_elem(&self.sw_array_size));
        let mut phys = Element::new(ElementName::SwValuesPhys);
        store_sw_value_list(&self.sw_values_phys, &mut phys);
        assert(phys@.sub_elements =~= store_sw_values(sw_values_view(self.sw_values_phys@)));
        parent.push_sub_element(phys);
        assert(parent@.sub_elements =~= start.sub_elements + store_sw_value_cont(self@));
    }

    /// read the values from a SW-VALUE-CONT element
    pub fn load(element: &Element) -> (r: Option<SwValueCont>)
        ensures
            match r {
                Some(x) => load_sw_value_cont(element@) == Some(x@),
                None => load_sw_value_cont(element@) is None,
            },
    {
        let sizes = element.get_sub_element(ElementName::SwArraysize)?;
        let phys = element.get_sub_element(ElementName::SwValuesPhys)?;
        let sw_array_size = load_integers_elem(sizes);
        let sw_values_phys = load_sw_value_list(phys);
        Some(SwValueCont { sw_array_size, sw_values_phys })
    }
}

impl SwAxisCont {
    /// write this axis as a sub element of `parent`
    /// write this axis as a sub element of `parent`, without its display name where the
    /// AUTOSAR version cannot hold that
    pub fn store(&self, parent: &mut Element, schema: SchemaSupport)
        ensures
            final(parent)@ == with_sub(old(parent)@, store_sw_axis_cont(fit_sw_axis_cont(self@, schema))),
    {
        let mut e = Element::new(ElementName::SwAxisCont);
        e.push_sub_element(leaf_element(ElementName::Category, CharacterData::Enum(self.category.to_enum_item())));
        e.push_sub_element(array_size_elem(&self.sw_array_size));
        e.push_sub_element(leaf_element(ElementName::SwAxisIndex, CharacterData::UnsignedInteger(self.sw_axis_index)));
        let mut phys = Element::new(ElementName::SwValuesPhys);
        store_sw_value_list(&self.sw_values_phys, &mut phys);
        assert(phys@.sub_elements =~= store_sw_values(sw_values_view(self.sw_values_phys@)));
        e.push_sub_element(phys);
        store_unit(&mut e, &self.unit);
        if schema.unit_display_name {
            match &self.unit_display_name {
                Some(n) => {
                    e.push_sub_element(leaf_element(ElementName::UnitDisplayName, CharacterData::String(n.clone())));
                },
                None => {},
            }
        }
        assert(e@.sub_elements =~= store_sw_axis_cont(fit_sw_axis_cont(self@, schema)).sub_elements);
        parent.push_sub_element(e);
    }

    /// read an axis from a SW-AXIS-CONT element
    pub fn load(element: &Element) -> (r: Option<SwAxisCont>)
        ensures
            match r {
                Some(x) => load_sw_axis_cont(element@) == Some(x@),
                None => load_sw_axis_cont(element@) is None,
            },
    {
        let category = load_axis_category_elem(element)?;
        let sizes = element.get_sub_element(ElementName::SwArraysize)?;
        let sw_array_size = load_integers_elem(sizes);
        let sw_axis_index = integer_of_elem(element.get_sub_element(ElementName::SwAxisIndex))?;
        let phys = element.get_sub_element(ElementName::SwValuesPhys)?;
        let sw_values_phys = load_sw_value_list(phys);
        let unit = load_unit_elem(element);
        let unit_display_name = text_of_elem(element.get_sub_element(ElementName::UnitDisplayName));
        Some(SwAxisCont { category, sw_array_size, sw_axis_index, sw_values_phys, unit, unit_display_name })
    }
}

impl RuleBasedAxisCont {
    /// write this axis as a sub element of `parent`
    pub fn store(&self, parent: &mut Element)
        ensures
            final(parent)@ == with_sub(old(parent)@, store_rule_based_axis_cont(self@)),
    {
        let mut e = Element::new(ElementName::RuleBasedAxisCont);
        e.push_sub_element(leaf_element(ElementName::Category, CharacterData::Enum(self.category.to_enum_item())));
        e.push_sub_element(array_size_elem(&self.sw_array_size));
        e.push_sub_element(leaf_element(ElementName::SwAxisIndex, CharacterData::UnsignedInteger(self.sw_axis_index)));
        self.rule_based_values.store(&mut e);
        store_unit(&mut e, &self.unit);
        assert(e@.sub_elements =~= store_rule_based_axis_cont(self@).sub_elements);
        parent.push_sub_element(e);
    }

    /// read an axis from a RULE-BASED-AXIS-CONT element
    pub fn load(element: &Element) -> (r: Option<RuleBasedAxisCont>)
        ensures
            match r {
                Some(x) => load_rule_based_axis_cont(element@) == Some(x@),
                None => load_rule_based_axis_cont(element@) is None,
            },
    {
        let category = load_axis_category_elem(element)?;
        let sizes = element.get_sub_element(ElementName::SwArraysize)?;
        let sw_array_size = load_integers_elem(sizes);
        let sw_axis_index = integer_of_elem(element.get_sub_element(ElementName::SwAxisIndex))?;
        let rbv = element.get_sub_element(ElementName::RuleBasedValues)?;
        let rule_based_values = RuleBasedValueSpecification::load(rbv)?;
        let unit = load_unit_elem(element);
        Some(RuleBasedAxisCont { category, sw_array_size, sw_axis_index, rule_based_values, unit })
    }
}

impl RuleBasedValueCont {
    /// write the SW-VALUE-CONT element as a sub element of `parent`
    pub fn store(&self, parent: &mut Element)
        ensures
            final(parent)@ == with_sub(old(parent)@, store_rule_based_value_cont(self@)),
    {
        let mut e = Element::new(ElementName::SwValueCont);
        self.rule_based_values.store(&mut e);
        e.push_sub_element(array_size_elem(&self.sw_array_size));
        store_unit(&mut e, &self.unit);
        assert(e@.sub_elements =~= store_rule_based_value_cont(self@).sub_elements);
        parent.push_sub_element(e);
    }

    /// read the values from a SW-VALUE-CONT element
    pub fn load(element: &Element) -> (r: Option<RuleBasedValueCont>)
        ensures
            match r {
                Some(x) => load_rule_based_value_cont(element@) == Some(x@),
                None => load_rule_based_value_cont(element@) is None,
            },
    {
        let rbv = element.get_sub_element(ElementName::RuleBasedValues)?;
        let sizes = element.get_sub_element(ElementName::SwArraysize)?;
        let rule_based_values = RuleBasedValueSpecification::load(rbv)?;
        let sw_array_size = load_integers_elem(sizes);
        let unit = load_unit_elem(element);
        Some(RuleBasedValueCont { rule_based_values, sw_array_size, unit })
    }
}


impl ApplicationValueSpecification {
    /// write this value as a sub element of `parent`
    pub fn store(&self, parent: &mut Element, schema: SchemaSupport)
        ensures
            final(parent)@ == with_sub(old(parent)@, store_application(fit_application(self@, schema))),
    {
        let mut e = Element::new(ElementName::ApplicationValueSpecification);
        store_label(&mut e, &self.label);
        e.push_sub_element(leaf_element(ElementName::Category, CharacterData::String(self.category.to_string())));
        let ghost f = |x: SwAxisContView| store_sw_axis_cont(fit_sw_axis_cont(x, schema));
        let ghost axes = self.sw_axis_conts@.map_values(|a: SwAxisCont| a@);
        let mut axes_elem = Element::new(ElementName::SwAxisConts);
        let mut i: usize = 0;
        assert(axes.subrange(0, 0).map_values(f) =~= Seq::<ElementView>::empty());
        while i < self.sw_axis_conts.len()
            invariant
                i <= self.sw_axis_conts@.len(),
                axes == self.sw_axis_conts@.map_values(|a: SwAxisCont| a@),
                f == (|x: SwAxisContView| store_sw_axis_cont(fit_sw_axis_cont(x, schema))),
                axes_elem@ == node(ElementName::SwAxisConts, axes.subrange(0, i as int).map_values(f)),
            decreases self.sw_axis_conts@.len() - i,
        {
            self.sw_axis_conts[i].store(&mut axes_elem, schema);
            assert(axes.subrange(0, i + 1).map_values(f) =~= axes.subrange(0, i as int).map_values(f).push(
                store_sw_axis_cont(fit_sw_axis_cont(self.sw_axis_conts@[i as int]@, schema)),
            ));
            i = i + 1;
        }
        assert(axes.subrange(0, axes.len() as int) =~= axes);
        assert(axes.map_values(f) =~= fit_application(self@, schema).sw_axis_conts.map_values(
            |x: SwAxisContView| store_sw_axis_cont(x),
        ));
        e.push_sub_element(axes_elem);
        let mut value_cont = Element::new(ElementName::SwValueCont);
        self.sw_value_cont.store(&mut value_cont);
        assert(value_cont@.sub_elements =~= store_sw_value_cont(self.sw_value_cont@));
        e.push_sub_element(value_cont);
        assert(e@.sub_elements =~= store_application(fit_application(self@, schema)).sub_elements);
        parent.push_sub_element(e);
    }

    /// read a value from an APPLICATION-VALUE-SPECIFICATION element
    pub fn load(element: &Element) -> (r: Option<ApplicationValueSpecification>)
        ensures
            match r {
                Some(x) => load_application(element@) == Some(x@),
                None => load_application(element@) is None,
            },
    {
        let label = load_label_elem(element);
        let category_text = text_of_elem(element.get_sub_element(ElementName::Category))?;
        let category = match ApplicationPrimitiveCategory::from_str(category_text.as_str()) {
            Ok(c) => c,
            Err(_) => return None,
        };
        let axes = element.get_sub_element(ElementName::SwAxisConts)?;
        let ghost subs = axes@.sub_elements;
        proof {
            lemma_elements_view(axes.sub_elements@);
        }
        let mut sw_axis_conts: Vec<SwAxisCont> = Vec::new();
        let mut i: usize = 0;
        assert(sw_axis_conts@.map_values(|a: SwAxisCont| a@) =~= load_sw_axis_conts(subs.subrange(0, 0)));
        while i < axes.sub_elements.len()
            invariant
                i <= axes.sub_elements@.len(),
                subs == axes@.sub_elements,
                subs.len() == axes.sub_elements@.len(),
                forall|k: int| 0 <= k < subs.len() ==> #[trigger] subs[k] == axes.sub_elements@[k]@,
                sw_axis_conts@.map_values(|a: SwAxisCont| a@) == load_sw_axis_conts(subs.subrange(0, i as int)),
            decreases axes.sub_elements@.len() - i,
        {
            assert(subs.subrange(0, i + 1).subrange(0, i as int) =~= subs.subrange(0, i as int));
            let ghost before = sw_axis_conts@;
            if let Some(a) = SwAxisCont::load(&axes.sub_elements[i]) {
                sw_axis_conts.push(a);
                assert(sw_axis_conts@.map_values(|a: SwAxisCont| a@) =~= before.map_values(|a: SwAxisCont| a@).push(a@));
            }
            i = i + 1;
        }
        assert(subs.subrange(0, subs.len() as int) =~= subs);
        let value_cont = element.get_sub_element(ElementName::SwValueCont)?;
        let sw_value_cont = SwValueCont::load(value_cont)?;
        Some(ApplicationValueSpecification { label, category, sw_axis_conts, sw_value_cont })
    }
}

impl ApplicationRuleBasedValueSpecification {
    /// write this value as a sub element of `parent`
    pub fn store(&self, parent: &mut Element)
        ensures
            final(parent)@ == with_sub(old(parent)@, store_application_rule_based(self@)),
    {
        let mut e = Element::new(ElementName::ApplicationRuleBasedValueSpecification);
        store_label(&mut e, &self.label);
        e.push_sub_element(leaf_element(ElementName::Category, CharacterData::String(self.category.to_string())));
        let ghost f = |x: RuleBasedAxisContView| store_rule_based_axis_cont(x);
        let ghost axes = self.sw_axis_cont@.map_values(|a: RuleBasedAxisCont| a@);
        let mut axes_elem = Element::new(ElementName::SwAxisConts);
        let mut i: usize = 0;
        assert(axes.subrange(0, 0).map_values(f) =~= Seq::<ElementView>::empty());
        while i < self.sw_axis_cont.len()
            invariant
                i <= self.sw_axis_cont@.len(),
                axes == self.sw_axis_cont@.map_values(|a: RuleBasedAxisCont| a@),
                f == (|x: RuleBasedAxisContView| store_rule_based_axis_cont(x)),
                axes_elem@ == node(ElementName::SwAxisConts, axes.subrange(0, i as int).map_values(f)),
            decreases self.sw_axis_cont@.len() - i,
        {
            self.sw_axis_cont[i].store(&mut axes_elem);
            assert(axes.subrange(0, i + 1).map_values(f) =~= axes.subrange(0, i as int).map_values(f).push(
                store_rule_based_axis_cont(self.sw_axis_cont@[i as int]@),
            ));
            i = i + 1;
        }
        assert(axes.subrange(0, axes.len() as int) =~= axes);
        e.push_sub_element(axes_elem);
        self.sw_value_cont.store(&mut e);
        assert(e@.sub_elements =~= store_application_rule_based(self@).sub_elements);
        parent.push_sub_element(e);
    }

    /// read a value from an APPLICATION-RULE-BASED-VALUE-SPECIFICATION element
    pub fn load(element: &Element) -> (r: Option<ApplicationRuleBasedValueSpecification>)
        ensures
            match r {
                Some(x) => load_application_rule_based(element@) == Some(x@),
                None => load_application_rule_based(element@) is None,
            },
    {
        let label = load_label_elem(element);
        let category_text = text_of_elem(element.get_sub_element(ElementName::Category))?;
        let category = match ApplicationPrimitiveCategory::from_str(category_text.as_str()) {
            Ok(c) => c,
            Err(_) => return None,
        };
        let axes = element.get_sub_element(ElementName::SwAxisConts)?;
        let ghost subs = axes@.sub_elements;
        proof {
            lemma_elements_view(axes.sub_elements@);
        }
        let mut sw_axis_cont: Vec<RuleBasedAxisCont> = Vec::new();
        let mut i: usize = 0;
        assert(sw_axis_cont@.map_values(|a: RuleBasedAxisCont| a@) =~= load_rule_based_axis_conts(subs.subrange(0, 0)));
        while i < axes.sub_elements.len()
            invariant
                i <= axes.sub_elements@.len(),
                subs == axes@.sub_elements,
                subs.len() == axes.sub_elements@.len(),
                forall|k: int| 0 <= k < subs.len() ==> #[trigger] subs[k] == axes.sub_elements@[k]@,
                sw_axis_cont@.map_values(|a: RuleBasedAxisCont| a@) == load_rule_based_axis_conts(subs.subrange(0, i as int)),
            decreases axes.sub_elements@.len() - i,
        {
            assert(subs.subrange(0, i + 1).subrange(0, i as int) =~= subs.subrange(0, i as int));
            let ghost before = sw_axis_cont@;
            if let Some(a) = RuleBasedAxisCont::load(&axes.sub_elements[i]) {
                sw_axis_cont.push(a);
                assert(sw_axis_cont@.map_values(|a: RuleBasedAxisCont| a@) =~= before.map_values(|a: RuleBasedAxisCont| a@).push(a@));
            }
            i = i + 1;
        }
        assert(subs.subrange(0, subs.len() as int) =~= subs);
        let value_cont = element.get_sub_element(ElementName::SwValueCont)?;
        let sw_value_cont = RuleBasedValueCont::load(value_cont)?;
        Some(ApplicationRuleBasedValueSpecification { label, category, sw_axis_cont, sw_value_cont })
    }
}

impl TextValueSpecification {
    /// write this value as a sub element of `parent`
    pub fn store(&self, parent: &mut Element)
        ensures
            final(parent)@ == with_sub(old(parent)@, store_text(self@)),
    {
        let mut e = Element::new(ElementName::TextValueSpecification);
        store_label(&mut e, &self.label);
        e.push_sub_element(leaf_element(ElementName::Value, CharacterData::String(self.value.clone())));
        assert(e@.sub_elements =~= store_text(self@).sub_elements);
        parent.push_sub_element(e);
    }

    /// read a value from a TEXT-VALUE-SPECIFICATION element
    pub fn load(element: &Element) -> (r: Option<TextValueSpecification>)
        ensures
            match r {
                Some(x) => load_text(element@) == Some(x@),
                None => load_text(element@) is None,
            },
    {
        let label = load_label_elem(element);
        let value = text_of_elem(element.get_sub_element(ElementName::Value))?;
        Some(TextValueSpecification { label, value })
    }
}

impl NumericalValueSpecification {
    /// write this value as a sub element of `parent`
    pub fn store(&self, parent: &mut Element)
        ensures
            final(parent)@ == with_sub(old(parent)@, store_numerical(self@)),
    {
        let mut e = Element::new(ElementName::NumericalValueSpecification);
        store_label(&mut e, &self.label);
        e.push_sub_element(leaf_element(ElementName::Value, CharacterData::Float(self.value)));
        assert(e@.sub_elements =~= store_numerical(self@).sub_elements);
        parent.push_sub_element(e);
    }

    /// read a value from a NUMERICAL-VALUE-SPECIFICATION element
    pub fn load(element: &Element) -> (r: Option<NumericalValueSpecification>)
        ensures
            match r {
                Some(x) => load_numerical(element@) == Some(x@),
                None => load_numerical(element@) is None,
            },
    {
        let label = load_label_elem(element);
        let value = float_of_elem(element.get_sub_element(ElementName::Value))?;
        Some(NumericalValueSpecification { label, value })
    }
}

impl ConstantSpecification {
    /// the reference to the element of this constant
    pub fn element_ref(&self) -> (r: ElementRef)
        ensures
            r@.kind == ElementName::ConstantSpecification,
            r@.path == self.path@,
    {
        ElementRef { kind: ElementName::ConstantSpecification, path: self.path.clone() }
    }
}

impl ConstantReference {
    /// write this value as a sub element of `parent`
    pub fn store(&self, parent: &mut Element)
        ensures
            final(parent)@ == with_sub(old(parent)@, store_constant_reference(self@)),
    {
        let mut e = Element::new(ElementName::ConstantReference);
        store_label(&mut e, &self.label);
        e.push_sub_element(reference_element(ElementName::ConstantRef, &self.constant.element_ref()));
        assert(e@.sub_elements =~= store_constant_reference(self@).sub_elements);
        parent.push_sub_element(e);
    }

    /// read a value from a CONSTANT-REFERENCE element
    pub fn load(element: &Element) -> (r: Option<ConstantReference>)
        ensures
            match r {
                Some(x) => load_constant_reference(element@) == Some(x@),
                None => load_constant_reference(element@) is None,
            },
    {
        let label = load_label_elem(element);
        let target = target_of_elem(element.get_sub_element(ElementName::ConstantRef))?;
        if target.kind == ElementName::ConstantSpecification {
            Some(ConstantReference { label, constant: ConstantSpecification { path: target.path } })
        } else {
            None
        }
    }
}

impl NotAvailableValueSpecification {
    /// write this value as a sub element of `parent`
    /// write this value as a sub element of `parent`, without its pattern where the
    /// AUTOSAR version cannot hold that
    pub fn store(&self, parent: &mut Element, schema: SchemaSupport)
        ensures
            final(parent)@ == with_sub(old(parent)@, store_not_available(fit_not_available(self@, schema))),
    {
        let mut e = Element::new(ElementName::NotAvailableValueSpecification);
        store_label(&mut e, &self.label);
        let pattern = if schema.default_pattern {
            self.default_pattern
        } else {
            None
        };
        store_optional_integer(&mut e, ElementName::DefaultPattern, pattern);
        assert(e@.sub_elements =~= store_not_available(fit_not_available(self@, schema)).sub_elements);
        parent.push_sub_element(e);
    }

    /// read a value from a NOT-AVAILABLE-VALUE-SPECIFICATION element
    pub fn load(element: &Element) -> (r: Option<NotAvailableValueSpecification>)
        ensures
            match r {
                Some(x) => load_not_available(element@) == Some(x@),
                None => load_not_available(element@) is None,
            },
    {
        let label = load_label_elem(element);
        let default_pattern = integer_of_elem(element.get_sub_element(ElementName::DefaultPattern));
        Some(NotAvailableValueSpecification { label, default_pattern })
    }
}

impl ReferenceValueSpecification {
    /// write this value as a sub element of `parent`
    pub fn store(&self, parent: &mut Element)
        ensures
            final(parent)@ == with_sub(old(parent)@, store_reference(self@)),
    {
        let mut e = Element::new(ElementName::ReferenceValueSpecification);
        store_label(&mut e, &self.label);
        e.push_sub_element(reference_element(ElementName::ReferenceValueRef, &self.reference_value.element_ref()));
        assert(e@.sub_elements =~= store_reference(self@).sub_elements);
        parent.push_sub_element(e);
    }

    /// read a value from a REFERENCE-VALUE-SPECIFICATION element
    pub fn load(element: &Element) -> (r: Option<ReferenceValueSpecification>)
        ensures
            match r {
                Some(x) => load_reference(element@) == Some(x@),
                None => load_reference(element@) is None,
            },
    {
        let label = load_label_elem(element);
        let target = target_of_elem(element.get_sub_element(ElementName::ReferenceValueRef))?;
        match DataPrototype::try_from(target) {
            Ok(reference_value) => Some(ReferenceValueSpecification { label, reference_value }),
            Err(_) => None,
        }
    }
}

impl NumericalRuleBasedValueSpecification {
    /// write this value as a sub element of `parent`
    pub fn store(&self, parent: &mut Element)
        ensures
            final(parent)@ == with_sub(old(parent)@, store_numerical_rule_based(self@)),
    {
        let mut e = Element::new(ElementName::NumericalRuleBasedValueSpecification);
        store_label(&mut e, &self.label);
        self.rule_based_values.store(&mut e);
        assert(e@.sub_elements =~= store_numerical_rule_based(self@).sub_elements);
        parent.push_sub_element(e);
    }

    /// read a value from a NUMERICAL-RULE-BASED-VALUE-SPECIFICATION element
    pub fn load(element: &Element) -> (r: Option<NumericalRuleBasedValueSpecification>)
        ensures
            match r {
                Some(x) => load_numerical_rule_based(element@) == Some(x@),
                None => load_numerical_rule_based(element@) is None,
            },
    {
        let label = load_label_elem(element);
        let rbv = element.get_sub_element(ElementName::RuleBasedValues)?;
        let rule_based_values = RuleBasedValueSpecification::load(rbv)?;
        Some(NumericalRuleBasedValueSpecification { label, rule_based_values })
    }
}

impl CompositeRuleBasedValueArgument {
    /// write this argument as a sub element of `parent`
    pub fn store(&self, parent: &mut Element, schema: SchemaSupport)
        ensures
            final(parent)@ == with_sub(old(parent)@, store_composite_argument(fit_composite_argument(self@, schema))),
    {
        match self {
            CompositeRuleBasedValueArgument::Application(a) => a.store(parent, schema),
            CompositeRuleBasedValueArgument::ApplicationRuleBased(a) => a.store(parent),
        }
    }

    /// read an argument from an element
    pub fn load(element: &Element) -> (r: Option<CompositeRuleBasedValueArgument>)
        ensures
            match r {
                Some(x) => load_composite_argument(element@) == Some(x@),
                None => load_composite_argument(element@) is None,
            },
    {
        match element.element_name() {
            ElementName::ApplicationValueSpecification => match ApplicationValueSpecification::load(element) {
                Some(a) => Some(CompositeRuleBasedValueArgument::Application(a)),
                None => None,
            },
            ElementName::ApplicationRuleBasedValueSpecification => match ApplicationRuleBasedValueSpecification::load(element) {
                Some(a) => Some(CompositeRuleBasedValueArgument::ApplicationRuleBased(a)),
                None => None,
            },
            _ => None,
        }
    }
}


pub proof fn lemma_value_specs_view_push(s: Seq<ValueSpecification>, x: ValueSpecification)
    ensures
        value_specs_view(s.push(x)) == value_specs_view(s).push(x@),
{
    assert(s.push(x).subrange(0, s.len() as int) =~= s);
}

pub proof fn lemma_store_values_push(s: Seq<ValueSpecificationView>, x: ValueSpecificationView)
    ensures
        store_values(s.push(x)) == store_values(s).push(store_value(x)),
{
    assert(s.push(x).subrange(0, s.len() as int) =~= s);
}

pub proof fn lemma_composite_values_view_push(s: Seq<CompositeValueSpecification>, x: CompositeValueSpecification)
    ensures
        composite_values_view(s.push(x)) == composite_values_view(s).push(x@),
{
    assert(s.push(x).subrange(0, s.len() as int) =~= s);
}

pub proof fn lemma_store_composite_values_push(s: Seq<CompositeValueSpecificationView>, x: CompositeValueSpecificationView)
    ensures
        store_composite_values(s.push(x)) == store_composite_values(s).push(store_composite_value(x)),
{
    assert(s.push(x).subrange(0, s.len() as int) =~= s);
}

pub proof fn lemma_fit_values_push(v: Seq<ValueSpecificationView>, x: ValueSpecificationView, s: SchemaSupport)
    ensures
        fit_values(v.push(x), s) == fit_values(v, s).push(fit_value(x, s)),
{
    assert(v.push(x).subrange(0, v.len() as int) =~= v);
}

pub proof fn lemma_fit_composite_values_push(v: Seq<CompositeValueSpecificationView>, x: CompositeValueSpecificationView, s: SchemaSupport)
    ensures
        fit_composite_values(v.push(x), s) == fit_composite_values(v, s).push(fit_composite_value(x, s)),
{
    assert(v.push(x).subrange(0, v.len() as int) =~= v);
}

/// write value specifications as sub elements of `parent`
pub fn store_value_list(values: &Vec<ValueSpecification>, parent: &mut Element, schema: SchemaSupport)
    ensures
        final(parent)@ == with_subs(old(parent)@, store_values(fit_values(value_specs_view(values@), schema))),
    decreases values, 0int,
{
    let ghost start = parent@;
    let mut i: usize = 0;
    assert(values@.subrange(0, 0) =~= Seq::<ValueSpecification>::empty());
    assert(start.sub_elements + Seq::<ElementView>::empty() =~= start.sub_elements);
    while i < values.len()
        invariant
            i <= values@.len(),
            parent@ == with_subs(start, store_values(fit_values(value_specs_view(values@.subrange(0, i as int)), schema))),
        decreases values@.len() - i,
    {
        values[i].store(parent, schema);
        proof {
            assert(values@.subrange(0, i + 1) =~= values@.subrange(0, i as int).push(values@[i as int]));
            lemma_value_specs_view_push(values@.subrange(0, i as int), values@[i as int]);
            lemma_fit_values_push(value_specs_view(values@.subrange(0, i as int)), values@[i as int]@, schema);
            lemma_store_values_push(
                fit_values(value_specs_view(values@.subrange(0, i as int)), schema),
                fit_value(values@[i as int]@, schema),
            );
            assert(parent@.sub_elements =~= start.sub_elements + store_values(
                fit_values(value_specs_view(values@.subrange(0, i + 1)), schema),
            ));
        }
        i = i + 1;
    }
    assert(values@.subrange(0, values@.len() as int) =~= values@);
}

/// the value specifications held by the sub elements of `element`, skipping those
/// that are none
pub fn load_value_list(element: &Element) -> (r: Vec<ValueSpecification>)
    ensures
        value_specs_view(r@) == load_values(element@.sub_elements),
    decreases element, 0int,
{
    let ghost subs = element@.sub_elements;
    proof {
        lemma_elements_view(element.sub_elements@);
    }
    let mut r: Vec<ValueSpecification> = Vec::new();
    let mut i: usize = 0;
    assert(value_specs_view(r@) =~= load_values(subs.subrange(0, 0)));
    while i < element.sub_elements.len()
        invariant
            i <= element.sub_elements@.len(),
            subs == element@.sub_elements,
            subs.len() == element.sub_elements@.len(),
            forall|k: int| 0 <= k < subs.len() ==> #[trigger] subs[k] == element.sub_elements@[k]@,
            value_specs_view(r@) == load_values(subs.subrange(0, i as int)),
        decreases element.sub_elements@.len() - i,
    {
        assert(subs.subrange(0, i + 1).subrange(0, i as int) =~= subs.subrange(0, i as int));
        let ghost before = r@;
        if let Some(v) = ValueSpecification::load(&element.sub_elements[i]) {
            r.push(v);
            proof {
                lemma_value_specs_view_push(before, v);
            }
        }
        i = i + 1;
    }
    assert(subs.subrange(0, subs.len() as int) =~= subs);
    r
}

/// write composite values as sub elements of `parent`
pub fn store_composite_value_list(values: &Vec<CompositeValueSpecification>, parent: &mut Element, schema: SchemaSupport)
    ensures
        final(parent)@ == with_subs(old(parent)@, store_composite_values(fit_composite_values(composite_values_view(values@), schema))),
    decreases values, 0int,
{
    let ghost start = parent@;
    let mut i: usize = 0;
    assert(values@.subrange(0, 0) =~= Seq::<CompositeValueSpecification>::empty());
    assert(start.sub_elements + Seq::<ElementView>::empty() =~= start.sub_elements);
    while i < values.len()
        invariant
            i <= values@.len(),
            parent@ == with_subs(start, store_composite_values(fit_composite_values(composite_values_view(values@.subrange(0, i as int)), schema))),
        decreases values@.len() - i,
    {
        values[i].store(parent, schema);
        proof {
            assert(values@.subrange(0, i + 1) =~= values@.subrange(0, i as int).push(values@[i as int]));
            lemma_composite_values_view_push(values@.subrange(0, i as int), values@[i as int]);
            lemma_fit_composite_values_push(composite_values_view(values@.subrange(0, i as int)), values@[i as int]@, schema);
            lemma_store_composite_values_push(
                fit_composite_values(composite_values_view(values@.subrange(0, i as int)), schema),
                fit_composite_value(values@[i as int]@, schema),
            );
            assert(parent@.sub_elements =~= start.sub_elements + store_composite_values(
                fit_composite_values(composite_values_view(values@.subrange(0, i + 1)), schema),
            ));
        }
        i = i + 1;
    }
    assert(values@.subrange(0, values@.len() as int) =~= values@);
}

/// the composite values held by the sub elements of `element`, skipping those that are none
pub fn load_composite_value_list(element: &Element) -> (r: Vec<CompositeValueSpecification>)
    ensures
        composite_values_view(r@) == load_composite_values(element@.sub_elements),
    decreases element, 0int,
{
    let ghost subs = element@.sub_elements;
    proof {
        lemma_elements_view(element.sub_elements@);
    }
    let mut r: Vec<CompositeValueSpecification> = Vec::new();
    let mut i: usize = 0;
    assert(composite_values_view(r@) =~= load_composite_values(subs.subrange(0, 0)));
    while i < element.sub_elements.len()
        invariant
            i <= element.sub_elements@.len(),
            subs == element@.sub_elements,
            subs.len() == element.sub_elements@.len(),
            forall|k: int| 0 <= k < subs.len() ==> #[trigger] subs[k] == element.sub_elements@[k]@,
            composite_values_view(r@) == load_composite_values(subs.subrange(0, i as int)),
        decreases element.sub_elements@.len() - i,
    {
        assert(subs.subrange(0, i + 1).subrange(0, i as int) =~= subs.subrange(0, i as int));
        let ghost before = r@;
        if let Some(v) = CompositeValueSpecification::load(&element.sub_elements[i]) {
            r.push(v);
            proof {
                lemma_composite_values_view_push(before, v);
            }
        }
        i = i + 1;
    }
    assert(subs.subrange(0, subs.len() as int) =~= subs);
    r
}

impl ArrayValueSpecification {
    /// write this value as a sub element of `parent`
    pub fn store(&self, parent: &mut Element, schema: SchemaSupport)
        ensures
            final(parent)@ == with_sub(old(parent)@, store_array(fit_array(self@, schema))),
        decreases self, 1int,
    {
        let mut e = Element::new(ElementName::ArrayValueSpecification);
        store_label(&mut e, &self.label);
        let mut elements = Element::new(ElementName::Elements);
        store_value_list(&self.values, &mut elements, schema);
        assert(elements@.sub_elements =~= store_values(fit_values(value_specs_view(self.values@), schema)));
        e.push_sub_element(elements);
        assert(e@.sub_elements =~= store_array(fit_array(self@, schema)).sub_elements);
        parent.push_sub_element(e);
    }

    /// read a value from an ARRAY-VALUE-SPECIFICATION element
    pub fn load(element: &Element) -> (r: Option<ArrayValueSpecification>)
        ensures
            match r {
                Some(x) => load_array(element@) == Some(x@),
                None => load_array(element@) is None,
            },
        decreases element, 1int,
    {
        proof {
            crate::element::lemma_first_index(element@.sub_elements, ElementName::Elements);
        }
        let label = load_label_elem(element);
        proof {
            lemma_elements_view(element.sub_elements@);
        }
        let pos = element.find_sub_element(ElementName::Elements)?;
        let values = load_value_list(&element.sub_elements[pos]);
        Some(ArrayValueSpecification { label, values })
    }
}

impl RecordValueSpecification {
    /// write this value as a sub element of `parent`
    pub fn store(&self, parent: &mut Element, schema: SchemaSupport)
        ensures
            final(parent)@ == with_sub(old(parent)@, store_record(fit_record(self@, schema))),
        decreases self, 1int,
    {
        let mut e = Element::new(ElementName::RecordValueSpecification);
        store_label(&mut e, &self.label);
        let mut fields = Element::new(ElementName::Fields);
        store_value_list(&self.values, &mut fields, schema);
        assert(fields@.sub_elements =~= store_values(fit_values(value_specs_view(self.values@), schema)));
        e.push_sub_element(fields);
        assert(e@.sub_elements =~= store_record(fit_record(self@, schema)).sub_elements);
        parent.push_sub_element(e);
    }

    /// read a value from a RECORD-VALUE-SPECIFICATION element
    pub fn load(element: &Element) -> (r: Option<RecordValueSpecification>)
        ensures
            match r {
                Some(x) => load_record(element@) == Some(x@),
                None => load_record(element@) is None,
            },
        decreases element, 1int,
    {
        proof {
            crate::element::lemma_first_index(element@.sub_elements, ElementName::Fields);
        }
        let label = load_label_elem(element);
        proof {
            lemma_elements_view(element.sub_elements@);
        }
        let pos = element.find_sub_element(ElementName::Fields)?;
        let values = load_value_list(&element.sub_elements[pos]);
        Some(RecordValueSpecification { label, values })
    }
}

impl CompositeValueSpecification {
    /// write this value as a sub element of `parent`
    pub fn store(&self, parent: &mut Element, schema: SchemaSupport)
        ensures
            final(parent)@ == with_sub(old(parent)@, store_composite_value(fit_composite_value(self@, schema))),
        decreases self, 2int,
    {
        match self {
            CompositeValueSpecification::Array(a) => a.store(parent, schema),
            CompositeValueSpecification::Record(r) => r.store(parent, schema),
        }
    }

    /// read a value from an array or record element
    pub fn load(element: &Element) -> (r: Option<CompositeValueSpecification>)
        ensures
            match r {
                Some(x) => load_composite_value(element@) == Some(x@),
                None => load_composite_value(element@) is None,
            },
        decreases element, 2int,
    {
        match element.element_name() {
            ElementName::ArrayValueSpecification => match ArrayValueSpecification::load(element) {
                Some(a) => Some(CompositeValueSpecification::Array(a)),
                None => None,
            },
            ElementName::RecordValueSpecification => match RecordValueSpecification::load(element) {
                Some(r) => Some(CompositeValueSpecification::Record(r)),
                None => None,
            },
            _ => None,
        }
    }
}

impl CompositeRuleBasedValueSpecification {
    /// write this value as a sub element of `parent`
    pub fn store(&self, parent: &mut Element, schema: SchemaSupport)
        ensures
            final(parent)@ == with_sub(old(parent)@, store_composite_rule_based(fit_composite_rule_based(self@, schema))),
        decreases self, 1int,
    {
        let mut e = Element::new(ElementName::CompositeRuleBasedValueSpecification);
        store_label(&mut e, &self.label);
        let mut arguments = Element::new(ElementName::Arguments);
        store_composite_value_list(&self.argument, &mut arguments, schema);
        assert(arguments@.sub_elements =~= store_composite_values(fit_composite_values(composite_values_view(self.argument@), schema)));
        e.push_sub_element(arguments);
        let ghost f = |a: CompositeRuleBasedValueArgumentView| store_composite_argument(fit_composite_argument(a, schema));
        let ghost args = self.compound_primitive_argument@.map_values(|a: CompositeRuleBasedValueArgument| a@);
        let mut cpa = Element::new(ElementName::CompoundPrimitiveArguments);
        let mut i: usize = 0;
        assert(args.subrange(0, 0).map_values(f) =~= Seq::<ElementView>::empty());
        while i < self.compound_primitive_argument.len()
            invariant
                i <= self.compound_primitive_argument@.len(),
                args == self.compound_primitive_argument@.map_values(|a: CompositeRuleBasedValueArgument| a@),
                f == (|a: CompositeRuleBasedValueArgumentView| store_composite_argument(fit_composite_argument(a, schema))),
                cpa@ == node(ElementName::CompoundPrimitiveArguments, args.subrange(0, i as int).map_values(f)),
            decreases self.compound_primitive_argument@.len() - i,
        {
            self.compound_primitive_argument[i].store(&mut cpa, schema);
            assert(args.subrange(0, i + 1).map_values(f) =~= args.subrange(0, i as int).map_values(f).push(
                store_composite_argument(fit_composite_argument(self.compound_primitive_argument@[i as int]@, schema)),
            ));
            i = i + 1;
        }
        assert(args.subrange(0, args.len() as int) =~= args);
        assert(args.map_values(f) =~= fit_composite_rule_based(self@, schema).compound_primitive_argument.map_values(
            |a: CompositeRuleBasedValueArgumentView| store_composite_argument(a),
        ));
        e.push_sub_element(cpa);
        store_optional_integer(&mut e, ElementName::MaxSizeToFill, self.max_size_to_fill);
        e.push_sub_element(leaf_element(ElementName::Rule, CharacterData::String(self.rule.to_string())));
        assert(e@.sub_elements =~= store_composite_rule_based(fit_composite_rule_based(self@, schema)).sub_elements);
        parent.push_sub_element(e);
    }

    /// read a value from a COMPOSITE-RULE-BASED-VALUE-SPECIFICATION element
    pub fn load(element: &Element) -> (r: Option<CompositeRuleBasedValueSpecification>)
        ensures
            match r {
                Some(x) => load_composite_rule_based(element@) == Some(x@),
                None => load_composite_rule_based(element@) is None,
            },
        decreases element, 1int,
    {
        proof {
            crate::element::lemma_first_index(element@.sub_elements, ElementName::Arguments);
        }
        let label = load_label_elem(element);
        proof {
            lemma_elements_view(element.sub_elements@);
        }
        let pos = element.find_sub_element(ElementName::Arguments)?;
        let argument = load_composite_value_list(&element.sub_elements[pos]);
        let cpa = element.get_sub_element(ElementName::CompoundPrimitiveArguments)?;
        let ghost subs = cpa@.sub_elements;
        proof {
            lemma_elements_view(cpa.sub_elements@);
        }
        let mut compound_primitive_argument: Vec<CompositeRuleBasedValueArgument> = Vec::new();
        let mut i: usize = 0;
        assert(compound_primitive_argument@.map_values(|a: CompositeRuleBasedValueArgument| a@) =~= load_composite_arguments(subs.subrange(0, 0)));
        while i < cpa.sub_elements.len()
            invariant
                i <= cpa.sub_elements@.len(),
                subs == cpa@.sub_elements,
                subs.len() == cpa.sub_elements@.len(),
                forall|k: int| 0 <= k < subs.len() ==> #[trigger] subs[k] == cpa.sub_elements@[k]@,
                compound_primitive_argument@.map_values(|a: CompositeRuleBasedValueArgument| a@) == load_composite_arguments(subs.subrange(0, i as int)),
            decreases cpa.sub_elements@.len() - i,
        {
            assert(subs.subrange(0, i + 1).subrange(0, i as int) =~= subs.subrange(0, i as int));
            let ghost before = compound_primitive_argument@;
            if let Some(a) = CompositeRuleBasedValueArgument::load(&cpa.sub_elements[i]) {
                compound_primitive_argument.push(a);
                assert(compound_primitive_argument@.map_values(|a: CompositeRuleBasedValueArgument| a@) =~= before.map_values(|a: CompositeRuleBasedValueArgument| a@).push(a@));
            }
            i = i + 1;
        }
        assert(subs.subrange(0, subs.len() as int) =~= subs);
        let max_size_to_fill = integer_of_elem(element.get_sub_element(ElementName::MaxSizeToFill));
        let rule_text = text_of_elem(element.get_sub_element(ElementName::Rule))?;
        let rule = match RuleBasedFillUntil::from_str(rule_text.as_str()) {
            Ok(r) => r,
            Err(_) => return None,
        };
        Some(CompositeRuleBasedValueSpecification { label, argument, compound_primitive_argument, max_size_to_fill, rule })
    }
}

impl ValueSpecification {
    /// write this value as a sub element of `parent`
    /// write this value as a sub element of `parent`, leaving out what the AUTOSAR
    /// version cannot hold
    pub fn store(&self, parent: &mut Element, schema: SchemaSupport)
        ensures
            final(parent)@ == with_sub(old(parent)@, store_value(fit_value(self@, schema))),
        decreases self, 2int,
    {
        match self {
            ValueSpecification::Array(x) => x.store(parent, schema),
            ValueSpecification::Record(x) => x.store(parent, schema),
            ValueSpecification::Text(x) => x.store(parent),
            ValueSpecification::Numerical(x) => x.store(parent),
            ValueSpecification::ConstantReference(x) => x.store(parent),
            ValueSpecification::Application(x) => x.store(parent, schema),
            ValueSpecification::NotAvailable(x) => x.store(parent, schema),
            ValueSpecification::Reference(x) => x.store(parent),
            ValueSpecification::ApplicationRuleBased(x) => x.store(parent),
            ValueSpecification::CompositeRuleBased(x) => x.store(parent, schema),
            ValueSpecification::NumericalRuleBased(x) => x.store(parent),
        }
    }

    /// read a value from an element; none for an element that is no value specification
    /// or lacks what its kind requires
    pub fn load(element: &Element) -> (r: Option<ValueSpecification>)
        ensures
            match r {
                Some(x) => load_value(element@) == Some(x@),
                None => load_value(element@) is None,
            },
        decreases element, 2int,
    {
        match element.element_name() {
            ElementName::ArrayValueSpecification => match ArrayValueSpecification::load(element) {
                Some(x) => Some(ValueSpecification::Array(x)),
                None => None,
            },
            ElementName::RecordValueSpecification => match RecordValueSpecification::load(element) {
                Some(x) => Some(ValueSpecification::Record(x)),
                None => None,
            },
            ElementName::TextValueSpecification => match TextValueSpecification::load(element) {
                Some(x) => Some(ValueSpecification::Text(x)),
                None => None,
            },
            ElementName::NumericalValueSpecification => match NumericalValueSpecification::load(element) {
                Some(x) => Some(ValueSpecification::Numerical(x)),
                None => None,
            },
            ElementName::ConstantReference => match ConstantReference::load(element) {
                Some(x) => Some(ValueSpecification::ConstantReference(x)),
                None => None,
            },
            ElementName::ApplicationValueSpecification => match ApplicationValueSpecification::load(element) {
                Some(x) => Some(ValueSpecification::Application(x)),
                None => None,
            },
            ElementName::NotAvailableValueSpecification => match NotAvailableValueSpecification::load(element) {
                Some(x) => Some(ValueSpecification::NotAvailable(x)),
                None => None,
            },
            ElementName::ReferenceValueSpecification => match ReferenceValueSpecification::load(element) {
                Some(x) => Some(ValueSpecification::Reference(x)),
                None => None,
            },
            ElementName::ApplicationRuleBasedValueSpecification => match ApplicationRuleBasedValueSpecification::load(element) {
                Some(x) => Some(ValueSpecification::ApplicationRuleBased(x)),
                None => None,
            },
            ElementName::CompositeRuleBasedValueSpecification => match CompositeRuleBasedValueSpecification::load(element) {
                Some(x) => Some(ValueSpecification::CompositeRuleBased(x)),
                None => None,
            },
            ElementName::NumericalRuleBasedValueSpecification => match NumericalRuleBasedValueSpecification::load(element) {
                Some(x) => Some(ValueSpecification::NumericalRuleBased(x)),
                None => None,
            },
            _ => None,
        }
    }
}


//#########################################################
// the value of a constant

/// the value specification held by a CONSTANT-SPECIFICATION element: the first element
/// inside its VALUE-SPEC
pub open spec fn value_specification_of(e: ElementView) -> Option<ValueSpecificationView> {
    match sub_element(e, ElementName::ValueSpec) {
        Some(vs) => if vs.sub_elements.len() > 0 {
            load_value(vs.sub_elements[0])
        } else {
            None
        },
        None => None,
    }
}

/// a CONSTANT-SPECIFICATION element after its value specification was replaced by `v`:
/// its first VALUE-SPEC, made where there is none, holds the stored value and nothing else
pub open spec fn with_value_specification(e: ElementView, v: ValueSpecificationView, schema: SchemaSupport) -> ElementView {
    updated_at(e, seq![ElementName::ValueSpec], LeafUpdateView::Content(store_value(fit_value(v, schema))))
}

/// Law: the value specification of a constant is the one that was last set, less what
/// the AUTOSAR version cannot hold; where it holds everything, exactly the one last set.
pub proof fn lemma_constant_value_reads_back(e: ElementView, v: ValueSpecificationView, schema: SchemaSupport)
    ensures
        value_specification_of(with_value_specification(e, v, schema)) == Some(fit_value(v, schema)),
        schema.unit_display_name && schema.default_pattern ==> value_specification_of(
            with_value_specification(e, v, schema),
        ) == Some(v),
{
    let u = LeafUpdateView::Content(store_value(fit_value(v, schema)));
    lemma_updated_at_reads_back(e, seq![ElementName::ValueSpec], u);
    lemma_element_at_one(updated_at(e, seq![ElementName::ValueSpec], u), ElementName::ValueSpec);
    lemma_value_stored(v, schema);
}

/// the element of a new constant: its SHORT-NAME and one VALUE-SPEC that holds its value
pub open spec fn new_constant_element(name: Seq<char>, v: ValueSpecificationView, schema: SchemaSupport) -> ElementView {
    node(
        ElementName::ConstantSpecification,
        seq![
            leaf(ElementName::ShortName, CharacterDataView::String(name)),
            node(ElementName::ValueSpec, seq![store_value(fit_value(v, schema))]),
        ],
    )
}

impl ConstantSpecification {
    /// a new constant in the package at `package_path`: its handle and its element, which
    /// holds its SHORT-NAME and its value
    pub fn new(name: &str, package_path: &str, value: &ValueSpecification, schema: SchemaSupport) -> (r: (ConstantSpecification, Element))
        ensures
            r.0.path@ == package_path@ + "/"@ + name@,
            r.1@ == new_constant_element(name@, value@, schema),
            sub_element(r.1@, ElementName::ShortName) == Some(leaf(ElementName::ShortName, CharacterDataView::String(name@))),
            value_specification_of(r.1@) == Some(fit_value(value@, schema)),
            text_of(sub_element(r.1@, ElementName::ShortName)) == Some(name@),
    {
        let mut path = package_path.to_owned();
        path.append("/");
        path.append(name);
        let mut e = Element::new(ElementName::ConstantSpecification);
        e.push_sub_element(leaf_element(ElementName::ShortName, CharacterData::String(name.to_owned())));
        let constant = ConstantSpecification { path };
        let ghost e0 = e@;
        constant.set_value_specification(&mut e, value, schema);
        proof {
            let s0 = e0.sub_elements;
            assert(s0 =~= seq![leaf(ElementName::ShortName, CharacterDataView::String(name@))]);
            lemma_find_absent(s0, ElementName::ValueSpec);
            crate::element::lemma_first_index(s0, ElementName::ValueSpec);
            let c = node(ElementName::ValueSpec, seq![store_value(fit_value(value@, schema))]);
            assert(updated_at(
                crate::element::empty_element(ElementName::ValueSpec),
                seq![ElementName::ValueSpec].subrange(1, 1),
                LeafUpdateView::Content(store_value(fit_value(value@, schema))),
            ) == c);
            assert(e@.sub_elements =~= new_constant_element(name@, value@, schema).sub_elements);
            lemma_constant_value_reads_back(e0, value@, schema);
            assert(e@.sub_elements[0].name == ElementName::ShortName);
            assert(e@.sub_elements[1].name == ElementName::ValueSpec);
            lemma_distinct_find(e@.sub_elements, ElementName::ShortName);
        }
        (constant, e)
    }

    /// Replace the value of this constant; `element` is its CONSTANT-SPECIFICATION
    /// element. What the AUTOSAR version cannot hold is left out.
    pub fn set_value_specification(&self, element: &mut Element, value: &ValueSpecification, schema: SchemaSupport)
        ensures
            final(element)@ == with_value_specification(old(element)@, value@, schema),
            value_specification_of(final(element)@) == Some(fit_value(value@, schema)),
    {
        let mut holder = Element::new(ElementName::ValueSpec);
        value.store(&mut holder, schema);
        let ghost before = holder.sub_elements@;
        proof {
            lemma_elements_view(before);
            assert(holder@.sub_elements == crate::element::elements_view(before));
            assert(holder@.sub_elements =~= seq![store_value(fit_value(value@, schema))]);
            assert(crate::element::elements_view(before)[0] == before[0]@);
        }
        let child = holder.sub_elements.pop().unwrap();
        assert(child == before[0]);
        let path = vec![ElementName::ValueSpec];
        proof {
            assert(path@ =~= seq![ElementName::ValueSpec]);
            assert(path@.subrange(0, 1) =~= path@);
            lemma_constant_value_reads_back(element@, value@, schema);
        }
        element.update_at(&path, 0, LeafUpdate::Content(child));
    }

    /// the name of this constant: the SHORT-NAME of `element`, its CONSTANT-SPECIFICATION
    /// element
    pub fn name(&self, element: &Element) -> (r: Option<String>)
        ensures
            opt_str_view(r) == text_of(sub_element(element@, ElementName::ShortName)),
    {
        element.get_sub_element(ElementName::ShortName)?.character_data()?.string_value()
    }

    /// the value of this constant; `element` is its CONSTANT-SPECIFICATION element
    pub fn value_specification(&self, element: &Element) -> (r: Option<ValueSpecification>)
        ensures
            match r {
                Some(v) => value_specification_of(element@) == Some(v@),
                None => value_specification_of(element@) is None,
            },
    {
        let vs = element.get_sub_element(ElementName::ValueSpec)?;
        let first = vs.get_sub_element_at(0)?;
        ValueSpecification::load(first)
    }
}

} // verus!
