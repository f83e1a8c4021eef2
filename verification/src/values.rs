//! Value specifications: the values of constants, signal init values and port init
//! values, with their encoding as elements.
//!
//! A number is held by the bits of its IEEE 754 double representation.

use vstd::prelude::*;

verus! {

//#########################################################
// elements referred to by value specifications

/// Specification of a constant that can be part of a package; referred to by its path.
#[derive(Debug, Clone, PartialEq)]
pub struct ConstantSpecification {
    pub path: String,
}

/// A physical unit; referred to by its path.
#[derive(Debug, Clone, PartialEq)]
pub struct Unit {
    pub path: String,
}

/// An argument of a client server operation; referred to by its path.
#[derive(Debug, Clone, PartialEq)]
pub struct ArgumentDataPrototype {
    pub path: String,
}

/// A parameter of a parameter interface; referred to by its path.
#[derive(Debug, Clone, PartialEq)]
pub struct ParameterDataPrototype {
    pub path: String,
}

/// A data element of a sender receiver interface; referred to by its path.
#[derive(Debug, Clone, PartialEq)]
pub struct VariableDataPrototype {
    pub path: String,
}

/// The element of an application array data type; referred to by its path.
#[derive(Debug, Clone, PartialEq)]
pub struct ApplicationArrayElement {
    pub path: String,
}

/// An element of an application record data type; referred to by its path.
#[derive(Debug, Clone, PartialEq)]
pub struct ApplicationRecordElement {
    pub path: String,
}

/// enum of all data prototypes
#[derive(Debug, Clone, PartialEq)]
pub enum DataPrototype {
    /// argument data prototype
    ArgumentDataPrototype(ArgumentDataPrototype),
    /// parameter data prototype
    ParameterDataPrototype(ParameterDataPrototype),
    /// variable data prototype
    VariableDataPrototype(VariableDataPrototype),
    /// application array element
    ApplicationArrayElement(ApplicationArrayElement),
    /// application record element
    ApplicationRecordElement(ApplicationRecordElement),
}

//#########################################################
// enumerations

/// category of an application primitive data type
#[derive(Debug, Clone, Copy, PartialEq, Eq, Structural)]
pub enum ApplicationPrimitiveCategory {
    Value,
    ValBlk,
    String,
    Boolean,
    ComAxis,
    ResAxis,
    Curve,
    Map2d,
    Cuboid,
    Cube4,
    Cube5,
}

/// standard fill rules for rule based value specifications
#[derive(Debug, Clone, Copy, PartialEq, Eq, Structural)]
pub enum RuleBasedFillUntil {
    /// `FILL_UNTIL_END`: fills the value of the last RuleBasedValueSpecification.arguments
    /// until the last element of the array has been filled
    End,
    /// `FILL_UNTIL_MAX_SIZE`: fills the value of the last RuleBasedValueSpecification.arguments
    /// until maxSizeToFill elements of the array have been filled
    MaxSize,
}

/// enumeration of the axis categories.
/// This is a restricted version of the `CalprmAxisCategoryEnum`: `FixAxis` is not permitted in `SwAxisCont`
#[derive(Debug, Clone, Copy, PartialEq, Eq, Structural)]
pub enum SwAxisContCategory {
    /// standard axis
    StdAxis,
    /// commmon axis
    ComAxis,
    /// rescale axis
    ResAxis,
}

//#########################################################
// value specifications

/// array of values
#[derive(Debug, PartialEq)]
pub struct ArrayValueSpecification {
    /// SHORT-LABEL: used to identify the array in a human readable way. This is used when the array is part of a record.
    pub label: Option<String>,
    /// the values of the array
    pub values: Vec<ValueSpecification>,
}

/// record of values. The values may be named using short-labels, but these are not mandatory.
#[derive(Debug, PartialEq)]
pub struct RecordValueSpecification {
    /// SHORT-LABEL: used to identify the record in a human readable way. This is used when the record is part of a record.
    pub label: Option<String>,
    /// the values of the record
    pub values: Vec<ValueSpecification>,
}

/// textual value
#[derive(Debug, Clone, PartialEq)]
pub struct TextValueSpecification {
    /// SHORT-LABEL: used to identify the text in a human readable way. This is used when the text is part of a record.
    pub label: Option<String>,
    /// the text value
    pub value: String,
}

/// numerical value
#[derive(Debug, Clone, PartialEq)]
pub struct NumericalValueSpecification {
    /// SHORT-LABEL: used to identify the number in a human readable way. This is used when the number is part of a record.
    pub label: Option<String>,
    /// the number value, by the bits of its double representation
    pub value: u64,
}

/// reference to a `ConstantValue`
#[derive(Debug, Clone, PartialEq)]
pub struct ConstantReference {
    /// SHORT-LABEL: used to identify the constant in a human readable way. This is used when the constant is part of a record.
    pub label: Option<String>,
    /// Reference to the constant specification
    pub constant: ConstantSpecification,
}

/// Application value
#[derive(Debug, PartialEq)]
pub struct ApplicationValueSpecification {
    /// SHORT-LABEL: used to identify the application value in a human readable way. This is used when the application value is part of a record.
    pub label: Option<String>,
    /// category of the application value
    pub category: ApplicationPrimitiveCategory,
    /// axis values of a compound primitive data type. Required for categories `ResAxis`, Cure, Map, Cuboid, Cube4, Cube5
    pub sw_axis_conts: Vec<SwAxisCont>,
    /// values of a compound primitive data type
    pub sw_value_cont: SwValueCont,
}

/// Default init pattern, which is used when an optional `ApplicationRecordElement` in not available
#[derive(Debug, Clone, PartialEq)]
pub struct NotAvailableValueSpecification {
    /// SHORT-LABEL: used to identify the default pattern in a human readable way. This is used when the default pattern is part of a record.
    pub label: Option<String>,
    /// initialization pattern for memory occupied by unavailable application record elements; available in `AUTOSAR_00049` and newer
    pub default_pattern: Option<u64>,
}

/// reference to a `DataPrototype`, to be used as a pointer in the software
#[derive(Debug, Clone, PartialEq)]
pub struct ReferenceValueSpecification {
    /// SHORT-LABEL: used to identify the reference in a human readable way. This is used when the reference is part of a record.
    pub label: Option<String>,
    /// data prototype that will be referenced as a pointer in the software
    pub reference_value: DataPrototype,
}

/// A rule to generate application values for an array value specification
#[derive(Debug, Clone, PartialEq)]
pub struct ApplicationRuleBasedValueSpecification {
    /// SHORT-LABEL: used to identify the application value in a human readable way. This is used when the application value is part of a record.
    pub label: Option<String>,
    /// category of the application value
    pub category: ApplicationPrimitiveCategory,
    /// rule-based axis values of a compound primitive data type. Required for categories `ResAxis`, Cure, Map, Cuboid, Cube4, Cube5
    pub sw_axis_cont: Vec<RuleBasedAxisCont>,
    /// rule-based values of a compound primitive data type
    pub sw_value_cont: RuleBasedValueCont,
}

/// A rule to generate composite values for an array value specification
#[derive(Debug, PartialEq)]
pub struct CompositeRuleBasedValueSpecification {
    /// SHORT-LABEL: used to identify the composite value in a human readable way. This is used when the composite value is part of a record.
    pub label: Option<String>,
    /// collection of specified compound values. The last value is used by the filling rule to fill the array
    pub argument: Vec<CompositeValueSpecification>,
    /// collection of specified primitive values. The last value is used by the filling rule to fill the array
    pub compound_primitive_argument: Vec<CompositeRuleBasedValueArgument>,
    /// maximum size of the array to fill. It is used if the filling rule is set to `FILL_UNTIL_MAX_SIZE`
    pub max_size_to_fill: Option<u64>,
    /// rule to fill the array
    pub rule: RuleBasedFillUntil,
}

/// A rule to generate numerical values for an array value specification
#[derive(Debug, Clone, PartialEq)]
pub struct NumericalRuleBasedValueSpecification {
    /// SHORT-LABEL: used to identify the numerical value in a human readable way. This is used when the numerical value is part of a record.
    pub label: Option<String>,
    /// rule-based values for the array
    pub rule_based_values: RuleBasedValueSpecification,
}

/// Specification of a value. It is used for constants, signal init values and port init values.
#[derive(Debug, PartialEq)]
pub enum ValueSpecification {
    /// array of values
    Array(ArrayValueSpecification),
    /// record of values. The values may be named using short-labels, but these are not mandatory.
    Record(RecordValueSpecification),
    /// textual value
    Text(TextValueSpecification),
    /// numerical value
    Numerical(NumericalValueSpecification),
    /// reference to a `ConstantValue`
    ConstantReference(ConstantReference),
    /// Application value
    Application(ApplicationValueSpecification),
    /// Default init pattern, which is used when an optional `ApplicationRecordElement` in not available
    NotAvailable(NotAvailableValueSpecification),
    /// reference to a `DataPrototype`, to be used as a pointer in the software
    Reference(ReferenceValueSpecification),
    /// A rule to generate application values for an array value specification
    ApplicationRuleBased(ApplicationRuleBasedValueSpecification),
    /// A rule to generate composite values for an array value specification
    CompositeRuleBased(CompositeRuleBasedValueSpecification),
    /// A rule to generate numerical values for an array value specification
    NumericalRuleBased(NumericalRuleBasedValueSpecification),
}

/// specification of the axis values of a compound primitive data type (curve, map)
#[derive(Debug, PartialEq)]
pub struct SwAxisCont {
    /// category of the axis; one of `STD_AXIS`, `COM_AXIS`, `COM_AXIS`, `RES_AXIS`
    pub category: SwAxisContCategory,
    /// dimensions of the axis, used if the category is `RES_AXIS`, otherwise it should be empty
    pub sw_array_size: Vec<u64>,
    /// index of the axis. Here 1 is the x axis, 2 is the y axis, ...
    pub sw_axis_index: u64,
    /// axis values in the physical domain
    pub sw_values_phys: Vec<SwValue>,
    /// pyhsical unit of the axis values
    pub unit: Option<Unit>,
    /// display name of the unit
    pub unit_display_name: Option<String>,
}

/// specification of the values of a compound primitive data type (curve, map)
#[derive(Debug, PartialEq)]
pub struct SwValueCont {
    /// dimensions of the array
    pub sw_array_size: Vec<u64>,
    /// values in the physical domain
    pub sw_values_phys: Vec<SwValue>,
}

/// a single value of a compound primitive data type (curve, map); numbers by their bits
#[derive(Debug, PartialEq)]
pub enum SwValue {
    /// numerical value
    V(u64),
    /// numerical value
    Vf(u64),
    /// value group
    Vg {
        /// label of the value group
        label: Option<String>,
        /// content of the value group
        vg_content: Vec<SwValue>,
    },
    /// textual value
    Vt(String),
    /// Vtf element with numerical value
    VtfNumber(u64),
    /// Vtf element with textual value
    VtfText(String),
}

/// specification of the axis values of a compound primitive data type (curve, map) in a rule-based definition
#[derive(Debug, Clone, PartialEq)]
pub struct RuleBasedAxisCont {
    /// category of the axis; one of `STD_AXIS`, `COM_AXIS`, `COM_AXIS`, `RES_AXIS`
    pub category: SwAxisContCategory,
    /// dimensions of the axis, used if the category is `RES_AXIS`, otherwise it should be empty
    pub sw_array_size: Vec<u64>,
    /// index of the axis. Here 1 is the x axis, 2 is the y axis, ...
    pub sw_axis_index: u64,
    /// axis values in the physical domain
    pub rule_based_values: RuleBasedValueSpecification,
    /// pyhsical unit of the axis values
    pub unit: Option<Unit>,
}

/// specification of the values of a compound primitive data type (curve, map) in a rule-based definition
#[derive(Debug, Clone, PartialEq)]
pub struct RuleBasedValueCont {
    /// values
    pub rule_based_values: RuleBasedValueSpecification,
    /// dimensions of the array
    pub sw_array_size: Vec<u64>,
    /// physical unit of the values
    pub unit: Option<Unit>,
}

/// rule based value specification
#[derive(Debug, Clone, PartialEq)]
pub struct RuleBasedValueSpecification {
    /// arguments of the rule-based value specification; they are filled in-order, andf the last one is repeated as required
    pub arguments: Vec<RuleArgument>,
    /// maximum size of the array to fill. It is used if the filling rule is set to `FILL_UNTIL_MAX_SIZE`
    pub max_size_to_fill: Option<u64>,
    /// rule to fill the array
    pub rule: RuleBasedFillUntil,
}

/// specification of a composite value
#[derive(Debug, PartialEq)]
pub enum CompositeValueSpecification {
    /// array of values
    Array(ArrayValueSpecification),
    /// record of values
    Record(RecordValueSpecification),
}

/// specification of a composite value argument
#[derive(Debug, PartialEq)]
pub enum CompositeRuleBasedValueArgument {
    /// argument is an application value
    Application(ApplicationValueSpecification),
    /// argument is a rule-based application value
    ApplicationRuleBased(ApplicationRuleBasedValueSpecification),
}

/// argument of a rule-based value specification; numbers by their bits
#[derive(Debug, Clone, PartialEq)]
pub enum RuleArgument {
    /// V: argument is a numerical value
    V(u64),
    /// VF: argument is a numerical value
    Vf(u64),
    /// VT: argument is a text value
    Vt(String),
    /// VTF: argument is a numerical value
    VtfNumber(u64),
    /// VTF: argument is a text value
    VtfText(String),
}


//#########################################################
// mathematical views

pub open spec fn opt_str_view(o: Option<String>) -> Option<Seq<char>> {
    match o {
        Some(s) => Some(s@),
        None => None,
    }
}

pub open spec fn opt_unit_view(o: Option<Unit>) -> Option<Seq<char>> {
    match o {
        Some(u) => Some(u.path@),
        None => None,
    }
}

pub enum DataPrototypeView {
    ArgumentDataPrototype(Seq<char>),
    ParameterDataPrototype(Seq<char>),
    VariableDataPrototype(Seq<char>),
    ApplicationArrayElement(Seq<char>),
    ApplicationRecordElement(Seq<char>),
}

impl View for DataPrototype {
    type V = DataPrototypeView;

    open spec fn view(&self) -> DataPrototypeView {
        match self {
            DataPrototype::ArgumentDataPrototype(x) => DataPrototypeView::ArgumentDataPrototype(x.path@),
            DataPrototype::ParameterDataPrototype(x) => DataPrototypeView::ParameterDataPrototype(x.path@),
            DataPrototype::VariableDataPrototype(x) => DataPrototypeView::VariableDataPrototype(x.path@),
            DataPrototype::ApplicationArrayElement(x) => DataPrototypeView::ApplicationArrayElement(x.path@),
            DataPrototype::ApplicationRecordElement(x) => DataPrototypeView::ApplicationRecordElement(x.path@),
        }
    }
}

pub struct ArrayValueSpecificationView {
    pub label: Option<Seq<char>>,
    pub values: Seq<ValueSpecificationView>,
}

pub struct RecordValueSpecificationView {
    pub label: Option<Seq<char>>,
    pub values: Seq<ValueSpecificationView>,
}

pub struct TextValueSpecificationView {
    pub label: Option<Seq<char>>,
    pub value: Seq<char>,
}

pub struct NumericalValueSpecificationView {
    pub label: Option<Seq<char>>,
    pub value: u64,
}

pub struct ConstantReferenceView {
    pub label: Option<Seq<char>>,
    pub constant: Seq<char>,
}

pub struct ApplicationValueSpecificationView {
    pub label: Option<Seq<char>>,
    pub category: ApplicationPrimitiveCategory,
    pub sw_axis_conts: Seq<SwAxisContView>,
    pub sw_value_cont: SwValueContView,
}

pub struct NotAvailableValueSpecificationView {
    pub label: Option<Seq<char>>,
    pub default_pattern: Option<u64>,
}

pub struct ReferenceValueSpecificationView {
    pub label: Option<Seq<char>>,
    pub reference_value: DataPrototypeView,
}

pub struct ApplicationRuleBasedValueSpecificationView {
    pub label: Option<Seq<char>>,
    pub category: ApplicationPrimitiveCategory,
    pub sw_axis_cont: Seq<RuleBasedAxisContView>,
    pub sw_value_cont: RuleBasedValueContView,
}

pub struct CompositeRuleBasedValueSpecificationView {
    pub label: Option<Seq<char>>,
    pub argument: Seq<CompositeValueSpecificationView>,
    pub compound_primitive_argument: Seq<CompositeRuleBasedValueArgumentView>,
    pub max_size_to_fill: Option<u64>,
    pub rule: RuleBasedFillUntil,
}

pub struct NumericalRuleBasedValueSpecificationView {
    pub label: Option<Seq<char>>,
    pub rule_based_values: RuleBasedValueSpecificationView,
}

pub enum ValueSpecificationView {
    Array(ArrayValueSpecificationView),
    Record(RecordValueSpecificationView),
    Text(TextValueSpecificationView),
    Numerical(NumericalValueSpecificationView),
    ConstantReference(ConstantReferenceView),
    Application(ApplicationValueSpecificationView),
    NotAvailable(NotAvailableValueSpecificationView),
    Reference(ReferenceValueSpecificationView),
    ApplicationRuleBased(ApplicationRuleBasedValueSpecificationView),
    CompositeRuleBased(CompositeRuleBasedValueSpecificationView),
    NumericalRuleBased(NumericalRuleBasedValueSpecificationView),
}

pub struct SwAxisContView {
    pub category: SwAxisContCategory,
    pub sw_array_size: Seq<u64>,
    pub sw_axis_index: u64,
    pub sw_values_phys: Seq<SwValueView>,
    pub unit: Option<Seq<char>>,
    pub unit_display_name: Option<Seq<char>>,
}

pub struct SwValueContView {
    pub sw_array_size: Seq<u64>,
    pub sw_values_phys: Seq<SwValueView>,
}

pub enum SwValueView {
    V(u64),
    Vf(u64),
    Vg { label: Option<Seq<char>>, vg_content: Seq<SwValueView> },
    Vt(Seq<char>),
    VtfNumber(u64),
    VtfText(Seq<char>),
}

pub struct RuleBasedAxisContView {
    pub category: SwAxisContCategory,
    pub sw_array_size: Seq<u64>,
    pub sw_axis_index: u64,
    pub rule_based_values: RuleBasedValueSpecificationView,
    pub unit: Option<Seq<char>>,
}

pub struct RuleBasedValueContView {
    pub rule_based_values: RuleBasedValueSpecificationView,
    pub sw_array_size: Seq<u64>,
    pub unit: Option<Seq<char>>,
}

pub struct RuleBasedValueSpecificationView {
    pub arguments: Seq<RuleArgumentView>,
    pub max_size_to_fill: Option<u64>,
    pub rule: RuleBasedFillUntil,
}

pub enum CompositeValueSpecificationView {
    Array(ArrayValueSpecificationView),
    Record(RecordValueSpecificationView),
}

pub enum CompositeRuleBasedValueArgumentView {
    Application(ApplicationValueSpecificationView),
    ApplicationRuleBased(ApplicationRuleBasedValueSpecificationView),
}

pub enum RuleArgumentView {
    V(u64),
    Vf(u64),
    Vt(Seq<char>),
    VtfNumber(u64),
    VtfText(Seq<char>),
}

impl View for TextValueSpecification {
    type V = TextValueSpecificationView;

    open spec fn view(&self) -> TextValueSpecificationView {
        TextValueSpecificationView { label: opt_str_view(self.label), value: self.value@ }
    }
}

impl View for NumericalValueSpecification {
    type V = NumericalValueSpecificationView;

    open spec fn view(&self) -> NumericalValueSpecificationView {
        NumericalValueSpecificationView { label: opt_str_view(self.label), value: self.value }
    }
}

impl View for ConstantReference {
    type V = ConstantReferenceView;

    open spec fn view(&self) -> ConstantReferenceView {
        ConstantReferenceView { label: opt_str_view(self.label), constant: self.constant.path@ }
    }
}

impl View for NotAvailableValueSpecification {
    type V = NotAvailableValueSpecificationView;

    open spec fn view(&self) -> NotAvailableValueSpecificationView {
        NotAvailableValueSpecificationView {
            label: opt_str_view(self.label),
            default_pattern: self.default_pattern,
        }
    }
}

impl View for ReferenceValueSpecification {
    type V = ReferenceValueSpecificationView;

    open spec fn view(&self) -> ReferenceValueSpecificationView {
        ReferenceValueSpecificationView {
            label: opt_str_view(self.label),
            reference_value: self.reference_value@,
        }
    }
}

impl View for RuleArgument {
    type V = RuleArgumentView;

    open spec fn view(&self) -> RuleArgumentView {
        match self {
            RuleArgument::V(x) => RuleArgumentView::V(*x),
            RuleArgument::Vf(x) => RuleArgumentView::Vf(*x),
            RuleArgument::Vt(x) => RuleArgumentView::Vt(x@),
            RuleArgument::VtfNumber(x) => RuleArgumentView::VtfNumber(*x),
            RuleArgument::VtfText(x) => RuleArgumentView::VtfText(x@),
        }
    }
}

impl View for RuleBasedValueSpecification {
    type V = RuleBasedValueSpecificationView;

    open spec fn view(&self) -> RuleBasedValueSpecificationView {
        RuleBasedValueSpecificationView {
            arguments: self.arguments@.map_values(|a: RuleArgument| a@),
            max_size_to_fill: self.max_size_to_fill,
            rule: self.rule,
        }
    }
}

impl View for RuleBasedAxisCont {
    type V = RuleBasedAxisContView;

    open spec fn view(&self) -> RuleBasedAxisContView {
        RuleBasedAxisContView {
            category: self.category,
            sw_array_size: self.sw_array_size@,
            sw_axis_index: self.sw_axis_index,
            rule_based_values: self.rule_based_values@,
            unit: opt_unit_view(self.unit),
        }
    }
}

impl View for RuleBasedValueCont {
    type V = RuleBasedValueContView;

    open spec fn view(&self) -> RuleBasedValueContView {
        RuleBasedValueContView {
            rule_based_values: self.rule_based_values@,
            sw_array_size: self.sw_array_size@,
            unit: opt_unit_view(self.unit),
        }
    }
}

impl View for ApplicationRuleBasedValueSpecification {
    type V = ApplicationRuleBasedValueSpecificationView;

    open spec fn view(&self) -> ApplicationRuleBasedValueSpecificationView {
        ApplicationRuleBasedValueSpecificationView {
            label: opt_str_view(self.label),
            category: self.category,
            sw_axis_cont: self.sw_axis_cont@.map_values(|a: RuleBasedAxisCont| a@),
            sw_value_cont: self.sw_value_cont@,
        }
    }
}

impl View for NumericalRuleBasedValueSpecification {
    type V = NumericalRuleBasedValueSpecificationView;

    open spec fn view(&self) -> NumericalRuleBasedValueSpecificationView {
        NumericalRuleBasedValueSpecificationView {
            label: opt_str_view(self.label),
            rule_based_values: self.rule_based_values@,
        }
    }
}

pub open spec fn sw_value_view(v: SwValue) -> SwValueView
    decreases v,
{
    match v {
        SwValue::V(x) => SwValueView::V(x),
        SwValue::Vf(x) => SwValueView::Vf(x),
        SwValue::Vg { label, vg_content } => SwValueView::Vg {
            label: opt_str_view(label),
            vg_content: sw_values_view(vg_content@),
        },
        SwValue::Vt(x) => SwValueView::Vt(x@),
        SwValue::VtfNumber(x) => SwValueView::VtfNumber(x),
        SwValue::VtfText(x) => SwValueView::VtfText(x@),
    }
}

pub open spec fn sw_values_view(s: Seq<SwValue>) -> Seq<SwValueView>
    decreases s,
{
    if s.len() == 0 {
        Seq::empty()
    } else {
        sw_values_view(s.subrange(0, s.len() - 1)).push(sw_value_view(s[s.len() - 1]))
    }
}

impl View for SwValue {
    type V = SwValueView;

    open spec fn view(&self) -> SwValueView {
        sw_value_view(*self)
    }
}

impl View for SwValueCont {
    type V = SwValueContView;

    open spec fn view(&self) -> SwValueContView {
        SwValueContView {
            sw_array_size: self.sw_array_size@,
            sw_values_phys: sw_values_view(self.sw_values_phys@),
        }
    }
}

impl View for SwAxisCont {
    type V = SwAxisContView;

    open spec fn view(&self) -> SwAxisContView {
        SwAxisContView {
            category: self.category,
            sw_array_size: self.sw_array_size@,
            sw_axis_index: self.sw_axis_index,
            sw_values_phys: sw_values_view(self.sw_values_phys@),
            unit: opt_unit_view(self.unit),
            unit_display_name: opt_str_view(self.unit_display_name),
        }
    }
}

impl View for ApplicationValueSpecification {
    type V = ApplicationValueSpecificationView;

    open spec fn view(&self) -> ApplicationValueSpecificationView {
        ApplicationValueSpecificationView {
            label: opt_str_view(self.label),
            category: self.category,
            sw_axis_conts: self.sw_axis_conts@.map_values(|a: SwAxisCont| a@),
            sw_value_cont: self.sw_value_cont@,
        }
    }
}

impl View for CompositeRuleBasedValueArgument {
    type V = CompositeRuleBasedValueArgumentView;

    open spec fn view(&self) -> CompositeRuleBasedValueArgumentView {
        match self {
            CompositeRuleBasedValueArgument::Application(a) => CompositeRuleBasedValueArgumentView::Application(a@),
            CompositeRuleBasedValueArgument::ApplicationRuleBased(a) => CompositeRuleBasedValueArgumentView::ApplicationRuleBased(a@),
        }
    }
}

pub open spec fn value_spec_view(v: ValueSpecification) -> ValueSpecificationView
    decreases v,
{
    match v {
        ValueSpecification::Array(a) => ValueSpecificationView::Array(array_view(a)),
        ValueSpecification::Record(r) => ValueSpecificationView::Record(record_view(r)),
        ValueSpecification::Text(t) => ValueSpecificationView::Text(t@),
        ValueSpecification::Numerical(n) => ValueSpecificationView::Numerical(n@),
        ValueSpecification::ConstantReference(c) => ValueSpecificationView::ConstantReference(c@),
        ValueSpecification::Application(a) => ValueSpecificationView::Application(a@),
        ValueSpecification::NotAvailable(n) => ValueSpecificationView::NotAvailable(n@),
        ValueSpecification::Reference(r) => ValueSpecificationView::Reference(r@),
        ValueSpecification::ApplicationRuleBased(a) => ValueSpecificationView::ApplicationRuleBased(a@),
        ValueSpecification::CompositeRuleBased(c) => ValueSpecificationView::CompositeRuleBased(
            composite_rule_based_view(c),
        ),
        ValueSpecification::NumericalRuleBased(n) => ValueSpecificationView::NumericalRuleBased(n@),
    }
}

pub open spec fn value_specs_view(s: Seq<ValueSpecification>) -> Seq<ValueSpecificationView>
    decreases s,
{
    if s.len() == 0 {
        Seq::empty()
    } else {
        value_specs_view(s.subrange(0, s.len() - 1)).push(value_spec_view(s[s.len() - 1]))
    }
}

pub open spec fn array_view(a: ArrayValueSpecification) -> ArrayValueSpecificationView
    decreases a,
{
    ArrayValueSpecificationView { label: opt_str_view(a.label), values: value_specs_view(a.values@) }
}

pub open spec fn record_view(r: RecordValueSpecification) -> RecordValueSpecificationView
    decreases r,
{
    RecordValueSpecificationView { label: opt_str_view(r.label), values: value_specs_view(r.values@) }
}

pub open spec fn composite_value_view(c: CompositeValueSpecification) -> CompositeValueSpecificationView
    decreases c,
{
    match c {
        CompositeValueSpecification::Array(a) => CompositeValueSpecificationView::Array(array_view(a)),
        CompositeValueSpecification::Record(r) => CompositeValueSpecificationView::Record(record_view(r)),
    }
}

pub open spec fn composite_values_view(s: Seq<CompositeValueSpecification>) -> Seq<CompositeValueSpecificationView>
    decreases s,
{
    if s.len() == 0 {
        Seq::empty()
    } else {
        composite_values_view(s.subrange(0, s.len() - 1)).push(composite_value_view(s[s.len() - 1]))
    }
}

pub open spec fn composite_rule_based_view(c: CompositeRuleBasedValueSpecification) -> CompositeRuleBasedValueSpecificationView
    decreases c,
{
    CompositeRuleBasedValueSpecificationView {
        label: opt_str_view(c.label),
        argument: composite_values_view(c.argument@),
        compound_primitive_argument: c.compound_primitive_argument@.map_values(|a: CompositeRuleBasedValueArgument| a@),
        max_size_to_fill: c.max_size_to_fill,
        rule: c.rule,
    }
}

impl View for ValueSpecification {
    type V = ValueSpecificationView;

    open spec fn view(&self) -> ValueSpecificationView {
        value_spec_view(*self)
    }
}

impl View for ArrayValueSpecification {
    type V = ArrayValueSpecificationView;

    open spec fn view(&self) -> ArrayValueSpecificationView {
        array_view(*self)
    }
}

impl View for RecordValueSpecification {
    type V = RecordValueSpecificationView;

    open spec fn view(&self) -> RecordValueSpecificationView {
        record_view(*self)
    }
}

impl View for CompositeValueSpecification {
    type V = CompositeValueSpecificationView;

    open spec fn view(&self) -> CompositeValueSpecificationView {
        composite_value_view(*self)
    }
}

impl View for CompositeRuleBasedValueSpecification {
    type V = CompositeRuleBasedValueSpecificationView;

    open spec fn view(&self) -> CompositeRuleBasedValueSpecificationView {
        composite_rule_based_view(*self)
    }
}


//#########################################################
// what the AUTOSAR version of a file can hold

/// Which of the elements that only some AUTOSAR versions know can be written: the
/// UNIT-DISPLAY-NAME of an axis and the DEFAULT-PATTERN of a not-available value. Where a
/// version lacks one, storing a value leaves it out and loading gives none for it.
#[derive(Debug, Clone, Copy, PartialEq, Eq, Structural)]
pub struct SchemaSupport {
    pub unit_display_name: bool,
    pub default_pattern: bool,
}

impl SchemaSupport {
    /// every element can be written, as in the latest AUTOSAR version
    pub fn latest() -> (r: SchemaSupport)
        ensures
            r.unit_display_name && r.default_pattern,
    {
        SchemaSupport { unit_display_name: true, default_pattern: true }
    }
}

//#########################################################
// every kind of value is a value specification

impl From<ArrayValueSpecification> for ValueSpecification {
    fn from(value: ArrayValueSpecification) -> (r: ValueSpecification) {
        ValueSpecification::Array(value)
    }
}

impl vstd::std_specs::convert::FromSpecImpl<ArrayValueSpecification> for ValueSpecification {
    open spec fn obeys_from_spec() -> bool {
        true
    }

    open spec fn from_spec(value: ArrayValueSpecification) -> ValueSpecification {
        ValueSpecification::Array(value)
    }
}

impl From<RecordValueSpecification> for ValueSpecification {
    fn from(value: RecordValueSpecification) -> (r: ValueSpecification) {
        ValueSpecification::Record(value)
    }
}

impl vstd::std_specs::convert::FromSpecImpl<RecordValueSpecification> for ValueSpecification {
    open spec fn obeys_from_spec() -> bool {
        true
    }

    open spec fn from_spec(value: RecordValueSpecification) -> ValueSpecification {
        ValueSpecification::Record(value)
    }
}

impl From<TextValueSpecification> for ValueSpecification {
    fn from(value: TextValueSpecification) -> (r: ValueSpecification) {
        ValueSpecification::Text(value)
    }
}

impl vstd::std_specs::convert::FromSpecImpl<TextValueSpecification> for ValueSpecification {
    open spec fn obeys_from_spec() -> bool {
        true
    }

    open spec fn from_spec(value: TextValueSpecification) -> ValueSpecification {
        ValueSpecification::Text(value)
    }
}

impl From<NumericalValueSpecification> for ValueSpecification {
    fn from(value: NumericalValueSpecification) -> (r: ValueSpecification) {
        ValueSpecification::Numerical(value)
    }
}

impl vstd::std_specs::convert::FromSpecImpl<NumericalValueSpecification> for ValueSpecification {
    open spec fn obeys_from_spec() -> bool {
        true
    }

    open spec fn from_spec(value: NumericalValueSpecification) -> ValueSpecification {
        ValueSpecification::Numerical(value)
    }
}

impl From<ConstantReference> for ValueSpecification {
    fn from(value: ConstantReference) -> (r: ValueSpecification) {
        ValueSpecification::ConstantReference(value)
    }
}

impl vstd::std_specs::convert::FromSpecImpl<ConstantReference> for ValueSpecification {
    open spec fn obeys_from_spec() -> bool {
        true
    }

    open spec fn from_spec(value: ConstantReference) -> ValueSpecification {
        ValueSpecification::ConstantReference(value)
    }
}

impl From<ApplicationValueSpecification> for ValueSpecification {
    fn from(value: ApplicationValueSpecification) -> (r: ValueSpecification) {
        ValueSpecification::Application(value)
    }
}

impl vstd::std_specs::convert::FromSpecImpl<ApplicationValueSpecification> for ValueSpecification {
    open spec fn obeys_from_spec() -> bool {
        true
    }

    open spec fn from_spec(value: ApplicationValueSpecification) -> ValueSpecification {
        ValueSpecification::Application(value)
    }
}

impl From<NotAvailableValueSpecification> for ValueSpecification {
    fn from(value: NotAvailableValueSpecification) -> (r: ValueSpecification) {
        ValueSpecification::NotAvailable(value)
    }
}

impl vstd::std_specs::convert::FromSpecImpl<NotAvailableValueSpecification> for ValueSpecification {
    open spec fn obeys_from_spec() -> bool {
        true
    }

    open spec fn from_spec(value: NotAvailableValueSpecification) -> ValueSpecification {
        ValueSpecification::NotAvailable(value)
    }
}

impl From<ReferenceValueSpecification> for ValueSpecification {
    fn from(value: ReferenceValueSpecification) -> (r: ValueSpecification) {
        ValueSpecification::Reference(value)
    }
}

impl vstd::std_specs::convert::FromSpecImpl<ReferenceValueSpecification> for ValueSpecification {
    open spec fn obeys_from_spec() -> bool {
        true
    }

    open spec fn from_spec(value: ReferenceValueSpecification) -> ValueSpecification {
        ValueSpecification::Reference(value)
    }
}

impl From<ApplicationRuleBasedValueSpecification> for ValueSpecification {
    fn from(value: ApplicationRuleBasedValueSpecification) -> (r: ValueSpecification) {
        ValueSpecification::ApplicationRuleBased(value)
    }
}

impl vstd::std_specs::convert::FromSpecImpl<ApplicationRuleBasedValueSpecification> for ValueSpecification {
    open spec fn obeys_from_spec() -> bool {
        true
    }

    open spec fn from_spec(value: ApplicationRuleBasedValueSpecification) -> ValueSpecification {
        ValueSpecification::ApplicationRuleBased(value)
    }
}

impl From<CompositeRuleBasedValueSpecification> for ValueSpecification {
    fn from(value: CompositeRuleBasedValueSpecification) -> (r: ValueSpecification) {
        ValueSpecification::CompositeRuleBased(value)
    }
}

impl vstd::std_specs::convert::FromSpecImpl<CompositeRuleBasedValueSpecification> for ValueSpecification {
    open spec fn obeys_from_spec() -> bool {
        true
    }

    open spec fn from_spec(value: CompositeRuleBasedValueSpecification) -> ValueSpecification {
        ValueSpecification::CompositeRuleBased(value)
    }
}

impl From<NumericalRuleBasedValueSpecification> for ValueSpecification {
    fn from(value: NumericalRuleBasedValueSpecification) -> (r: ValueSpecification) {
        ValueSpecification::NumericalRuleBased(value)
    }
}

impl vstd::std_specs::convert::FromSpecImpl<NumericalRuleBasedValueSpecification> for ValueSpecification {
    open spec fn obeys_from_spec() -> bool {
        true
    }

    open spec fn from_spec(value: NumericalRuleBasedValueSpecification) -> ValueSpecification {
        ValueSpecification::NumericalRuleBased(value)
    }
}

} // verus!
