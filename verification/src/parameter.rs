//! Parameter values of an ECU configuration: the numerical, textual and additional
//! information parameters inside a container value.

use vstd::prelude::*;
use crate::element::{
    CharacterData, CharacterDataView, Element, ElementName, ElementRef, ElementRefView,
    ElementView, LeafUpdate, LeafUpdateView, at_most_one, lemma_element_at_one, lemma_first_index, lemma_update_keeps_at_most_one,
    lemma_updated_at_frame, lemma_updated_at_reads_back, lemma_updated_keeps_name,
    lemma_without_frame, lemma_without_keeps_at_most_one, lemma_without_leaves_none,
    lemma_find_absent, sub_element, updated_at, without_sub_element,
};
use crate::chardata::{
    bool_data, lemma_bool_data_parses, spec_parse_bool, spec_parse_integer_i64,
};
use crate::encoding::{data_of, float_of, integer_of, leaf, node, ref_leaf, target_of, text_of};
use crate::error::AutosarAbstractionError;
use crate::values::opt_str_view;

verus! {

//#########################################################
// the model

/// the element kinds of parameter definitions
pub open spec fn is_param_def_kind(k: ElementName) -> bool {
    ||| k == ElementName::EcucAddInfoParamDef
    ||| k == ElementName::EcucBooleanParamDef
    ||| k == ElementName::EcucEnumerationParamDef
    ||| k == ElementName::EcucFloatParamDef
    ||| k == ElementName::EcucFunctionNameDef
    ||| k == ElementName::EcucIntegerParamDef
    ||| k == ElementName::EcucLinkerSymbolDef
    ||| k == ElementName::EcucMultilineStringParamDef
    ||| k == ElementName::EcucStringParamDef
}

/// the element kinds of parameter values
pub open spec fn is_param_value_kind(k: ElementName) -> bool {
    ||| k == ElementName::EcucAddInfoParamValue
    ||| k == ElementName::EcucNumericalParamValue
    ||| k == ElementName::EcucTextualParamValue
}

/// no more than one INDEX and one IS-AUTO-VALUE, as the schema allows
pub open spec fn single_entries(e: ElementView) -> bool {
    &&& at_most_one(e.sub_elements, ElementName::Index)
    &&& at_most_one(e.sub_elements, ElementName::IsAutoValue)
}

/// `e` after its DEFINITION-REF was made to refer to `definition`
pub open spec fn with_definition(e: ElementView, definition: ElementRefView) -> ElementView {
    updated_at(e, seq![ElementName::DefinitionRef], LeafUpdateView::Reference(definition))
}

/// `e` after its VALUE was set to the text `value`
pub open spec fn with_value(e: ElementView, value: Seq<char>) -> ElementView {
    updated_at(e, seq![ElementName::Value], LeafUpdateView::Data(CharacterDataView::String(value)))
}

/// `e` after its INDEX was set to `index`, or removed
pub open spec fn with_index(e: ElementView, index: Option<u64>) -> ElementView {
    match index {
        Some(i) => updated_at(
            e,
            seq![ElementName::Index],
            LeafUpdateView::Data(CharacterDataView::UnsignedInteger(i)),
        ),
        None => without_sub_element(e, ElementName::Index),
    }
}

/// `e` after its IS-AUTO-VALUE was set to `is_auto_value`, or removed
pub open spec fn with_is_auto_value(e: ElementView, is_auto_value: Option<bool>) -> ElementView {
    match is_auto_value {
        Some(b) => updated_at(e, seq![ElementName::IsAutoValue], LeafUpdateView::Data(bool_data(b))),
        None => without_sub_element(e, ElementName::IsAutoValue),
    }
}

/// the definition that the DEFINITION-REF of `e` resolves to, if it is a parameter definition
pub open spec fn definition_of(e: ElementView) -> Option<ElementRefView> {
    match target_of(sub_element(e, ElementName::DefinitionRef)) {
        Some((k, p)) => if is_param_def_kind(k) {
            Some(ElementRefView { kind: k, path: p })
        } else {
            None
        },
        None => None,
    }
}

/// the path text of the DEFINITION-REF of `e`
pub open spec fn definition_ref_of(e: ElementView) -> Option<Seq<char>> {
    text_of(sub_element(e, ElementName::DefinitionRef))
}

/// the text of the VALUE of `e`
pub open spec fn value_of(e: ElementView) -> Option<Seq<char>> {
    text_of(sub_element(e, ElementName::Value))
}

/// the boolean of an optional element
pub open spec fn bool_of(e: Option<ElementView>) -> Option<bool> {
    match data_of(e) {
        Some(cd) => spec_parse_bool(cd),
        None => None,
    }
}

/// the signed integer of an optional element
pub open spec fn int_of(e: Option<ElementView>) -> Option<i64> {
    match data_of(e) {
        Some(cd) => spec_parse_integer_i64(cd),
        None => None,
    }
}

/// the INDEX of `e`
pub open spec fn index_of(e: ElementView) -> Option<u64> {
    integer_of(sub_element(e, ElementName::Index))
}

/// the IS-AUTO-VALUE flag of `e`
pub open spec fn is_auto_value_of(e: ElementView) -> Option<bool> {
    bool_of(sub_element(e, ElementName::IsAutoValue))
}

/// a new parameter value element of the given kind, with its definition and its value
pub open spec fn new_param_element(kind: ElementName, definition: ElementRefView, value: Seq<char>) -> ElementView {
    node(
        kind,
        seq![
            ref_leaf(ElementName::DefinitionRef, definition.kind, definition.path),
            leaf(ElementName::Value, CharacterDataView::String(value)),
        ],
    )
}

//#########################################################
// laws

proof fn lemma_update_reads_back_one(e: ElementView, name: ElementName, u: LeafUpdateView)
    ensures
        sub_element(updated_at(e, seq![name], u), name) is Some,
        ({
            let x = sub_element(updated_at(e, seq![name], u), name)->0;
            &&& u matches LeafUpdateView::Data(cd) ==> x.character_data == Some(cd)
            &&& u matches LeafUpdateView::Reference(t) ==> x.character_data == Some(
                CharacterDataView::String(t.path),
            ) && x.target_kind == Some(t.kind)
        }),
{
    lemma_updated_at_reads_back(e, seq![name], u);
    lemma_element_at_one(updated_at(e, seq![name], u), name);
}

proof fn lemma_update_frame_one(e: ElementView, name: ElementName, u: LeafUpdateView, other: ElementName)
    requires
        name != other,
    ensures
        sub_element(updated_at(e, seq![name], u), other) == sub_element(e, other),
{
    let p = seq![name];
    assert(p[0] == name);
    lemma_updated_at_frame(e, p, u, other);
}

/// Law: the definition that was set is the definition that is read, and its path is the
/// definition reference.
pub proof fn lemma_definition_reads_back(e: ElementView, definition: ElementRefView)
    requires
        is_param_def_kind(definition.kind),
    ensures
        definition_of(with_definition(e, definition)) == Some(definition),
        definition_ref_of(with_definition(e, definition)) == Some(definition.path),
{
    lemma_update_reads_back_one(e, ElementName::DefinitionRef, LeafUpdateView::Reference(definition));
}

/// Law: the value that was set is the value that is read.
pub proof fn lemma_value_reads_back(e: ElementView, value: Seq<char>)
    ensures
        value_of(with_value(e, value)) == Some(value),
{
    lemma_update_reads_back_one(
        e,
        ElementName::Value,
        LeafUpdateView::Data(CharacterDataView::String(value)),
    );
}

/// Law: the index that was set, or its absence, is what is read, provided the element
/// had at most one INDEX.
pub proof fn lemma_index_reads_back(e: ElementView, index: Option<u64>)
    requires
        index is Some || at_most_one(e.sub_elements, ElementName::Index),
    ensures
        index_of(with_index(e, index)) == index,
{
    match index {
        Some(i) => {
            lemma_update_reads_back_one(
                e,
                ElementName::Index,
                LeafUpdateView::Data(CharacterDataView::UnsignedInteger(i)),
            );
        },
        None => {
            lemma_without_leaves_none(e, ElementName::Index);
            lemma_find_absent(without_sub_element(e, ElementName::Index).sub_elements, ElementName::Index);
        },
    }
}

/// Law: the flag that was set, or its absence, is what is read, provided the element had
/// at most one IS-AUTO-VALUE.
pub proof fn lemma_is_auto_value_reads_back(e: ElementView, is_auto_value: Option<bool>)
    requires
        is_auto_value is Some || at_most_one(e.sub_elements, ElementName::IsAutoValue),
    ensures
        is_auto_value_of(with_is_auto_value(e, is_auto_value)) == is_auto_value,
{
    match is_auto_value {
        Some(b) => {
            lemma_update_reads_back_one(e, ElementName::IsAutoValue, LeafUpdateView::Data(bool_data(b)));
            lemma_bool_data_parses(b);
        },
        None => {
            lemma_without_leaves_none(e, ElementName::IsAutoValue);
            lemma_find_absent(
                without_sub_element(e, ElementName::IsAutoValue).sub_elements,
                ElementName::IsAutoValue,
            );
        },
    }
}

/// Law: no setter makes a second INDEX or IS-AUTO-VALUE, so the laws above that ask for
/// at most one of them hold after any sequence of setters on a new parameter value.
pub proof fn lemma_setters_keep_single_entries(
    e: ElementView,
    definition: ElementRefView,
    value: Seq<char>,
    index: Option<u64>,
    is_auto_value: Option<bool>,
    name: ElementName,
)
    requires
        at_most_one(e.sub_elements, name),
    ensures
        at_most_one(with_definition(e, definition).sub_elements, name),
        at_most_one(with_value(e, value).sub_elements, name),
        at_most_one(with_index(e, index).sub_elements, name),
        at_most_one(with_is_auto_value(e, is_auto_value).sub_elements, name),
{
    lemma_update_keeps_at_most_one(e, ElementName::DefinitionRef, LeafUpdateView::Reference(definition), name);
    lemma_update_keeps_at_most_one(
        e,
        ElementName::Value,
        LeafUpdateView::Data(CharacterDataView::String(value)),
        name,
    );
    match index {
        Some(i) => lemma_update_keeps_at_most_one(
            e,
            ElementName::Index,
            LeafUpdateView::Data(CharacterDataView::UnsignedInteger(i)),
            name,
        ),
        None => lemma_without_keeps_at_most_one(e, ElementName::Index, name),
    }
    match is_auto_value {
        Some(b) => lemma_update_keeps_at_most_one(
            e,
            ElementName::IsAutoValue,
            LeafUpdateView::Data(bool_data(b)),
            name,
        ),
        None => lemma_without_keeps_at_most_one(e, ElementName::IsAutoValue, name),
    }
}

/// Law: setting the definition changes none of value, index and flag.
pub proof fn lemma_definition_frame(e: ElementView, definition: ElementRefView)
    ensures
        value_of(with_definition(e, definition)) == value_of(e),
        index_of(with_definition(e, definition)) == index_of(e),
        is_auto_value_of(with_definition(e, definition)) == is_auto_value_of(e),
{
    let u = LeafUpdateView::Reference(definition);
    lemma_update_frame_one(e, ElementName::DefinitionRef, u, ElementName::Value);
    lemma_update_frame_one(e, ElementName::DefinitionRef, u, ElementName::Index);
    lemma_update_frame_one(e, ElementName::DefinitionRef, u, ElementName::IsAutoValue);
}

/// Law: setting the value changes none of definition, index and flag.
pub proof fn lemma_value_frame(e: ElementView, value: Seq<char>)
    ensures
        definition_of(with_value(e, value)) == definition_of(e),
        definition_ref_of(with_value(e, value)) == definition_ref_of(e),
        index_of(with_value(e, value)) == index_of(e),
        is_auto_value_of(with_value(e, value)) == is_auto_value_of(e),
{
    let u = LeafUpdateView::Data(CharacterDataView::String(value));
    lemma_update_frame_one(e, ElementName::Value, u, ElementName::DefinitionRef);
    lemma_update_frame_one(e, ElementName::Value, u, ElementName::Index);
    lemma_update_frame_one(e, ElementName::Value, u, ElementName::IsAutoValue);
}

/// Law: setting or removing the index changes none of definition, value and flag.
pub proof fn lemma_index_frame(e: ElementView, index: Option<u64>)
    ensures
        definition_of(with_index(e, index)) == definition_of(e),
        definition_ref_of(with_index(e, index)) == definition_ref_of(e),
        value_of(with_index(e, index)) == value_of(e),
        is_auto_value_of(with_index(e, index)) == is_auto_value_of(e),
{
    match index {
        Some(i) => {
            let u = LeafUpdateView::Data(CharacterDataView::UnsignedInteger(i));
            lemma_update_frame_one(e, ElementName::Index, u, ElementName::DefinitionRef);
            lemma_update_frame_one(e, ElementName::Index, u, ElementName::Value);
            lemma_update_frame_one(e, ElementName::Index, u, ElementName::IsAutoValue);
        },
        None => {
            lemma_without_frame(e, ElementName::Index, ElementName::DefinitionRef);
            lemma_without_frame(e, ElementName::Index, ElementName::Value);
            lemma_without_frame(e, ElementName::Index, ElementName::IsAutoValue);
        },
    }
}

/// Law: setting or removing the flag changes none of definition, value and index.
pub proof fn lemma_is_auto_value_frame(e: ElementView, is_auto_value: Option<bool>)
    ensures
        definition_of(with_is_auto_value(e, is_auto_value)) == definition_of(e),
        definition_ref_of(with_is_auto_value(e, is_auto_value)) == definition_ref_of(e),
        value_of(with_is_auto_value(e, is_auto_value)) == value_of(e),
        index_of(with_is_auto_value(e, is_auto_value)) == index_of(e),
{
    match is_auto_value {
        Some(b) => {
            let u = LeafUpdateView::Data(bool_data(b));
            lemma_update_frame_one(e, ElementName::IsAutoValue, u, ElementName::DefinitionRef);
            lemma_update_frame_one(e, ElementName::IsAutoValue, u, ElementName::Value);
            lemma_update_frame_one(e, ElementName::IsAutoValue, u, ElementName::Index);
        },
        None => {
            lemma_without_frame(e, ElementName::IsAutoValue, ElementName::DefinitionRef);
            lemma_without_frame(e, ElementName::IsAutoValue, ElementName::Value);
            lemma_without_frame(e, ElementName::IsAutoValue, ElementName::Index);
        },
    }
}

/// Law: the definitions of ECUC parameters are those of the nine kinds of parameter
/// definitions (additional information, boolean, enumeration, float, function name,
/// integer, linker symbol, multi-line string and string), and nothing else; a new
/// parameter value whose definition is of any of these kinds gives that definition back.
pub proof fn lemma_param_def_kinds(k: ElementName, kind: ElementName, definition: ElementRefView, value: Seq<char>)
    ensures
        is_param_def_kind(k) <==> (k == ElementName::EcucAddInfoParamDef || k == ElementName::EcucBooleanParamDef
            || k == ElementName::EcucEnumerationParamDef || k == ElementName::EcucFloatParamDef || k
            == ElementName::EcucFunctionNameDef || k == ElementName::EcucIntegerParamDef || k
            == ElementName::EcucLinkerSymbolDef || k == ElementName::EcucMultilineStringParamDef || k
            == ElementName::EcucStringParamDef),
        (definition.kind == ElementName::EcucAddInfoParamDef || definition.kind == ElementName::EcucBooleanParamDef
            || definition.kind == ElementName::EcucEnumerationParamDef || definition.kind
            == ElementName::EcucFloatParamDef || definition.kind == ElementName::EcucFunctionNameDef
            || definition.kind == ElementName::EcucIntegerParamDef || definition.kind
            == ElementName::EcucLinkerSymbolDef || definition.kind == ElementName::EcucMultilineStringParamDef
            || definition.kind == ElementName::EcucStringParamDef) ==> definition_of(
            new_param_element(kind, definition, value),
        ) == Some(definition),
{
    if is_param_def_kind(definition.kind) {
        lemma_new_param_element(kind, definition, value);
    }
}

/// Law: a new parameter value has the definition and the value it was made with, and
/// neither index nor flag.
pub proof fn lemma_new_param_element(kind: ElementName, definition: ElementRefView, value: Seq<char>)
    requires
        is_param_def_kind(definition.kind),
    ensures
        definition_of(new_param_element(kind, definition, value)) == Some(definition),
        definition_ref_of(new_param_element(kind, definition, value)) == Some(definition.path),
        value_of(new_param_element(kind, definition, value)) == Some(value),
        index_of(new_param_element(kind, definition, value)) is None,
        is_auto_value_of(new_param_element(kind, definition, value)) is None,
        at_most_one(new_param_element(kind, definition, value).sub_elements, ElementName::Index),
        at_most_one(new_param_element(kind, definition, value).sub_elements, ElementName::IsAutoValue),
{
    let s = new_param_element(kind, definition, value).sub_elements;
    lemma_first_index(s, ElementName::DefinitionRef);
    lemma_first_index(s, ElementName::Value);
    assert(s[0].name == ElementName::DefinitionRef);
    assert(s[1].name == ElementName::Value);
    lemma_find_absent(s, ElementName::Index);
    lemma_find_absent(s, ElementName::IsAutoValue);
    assert(sub_element(new_param_element(kind, definition, value), ElementName::Value) == Some(s[1]));
}

//#########################################################
// element operations shared by the parameter values

fn set_definition_in(e: &mut Element, definition: &ElementRef)
    ensures
        final(e)@ == with_definition(old(e)@, definition@),
        final(e)@.name == old(e)@.name,
{
    let path = vec![ElementName::DefinitionRef];
    assert(path@ =~= seq![ElementName::DefinitionRef]);
    assert(path@.subrange(0, 1) =~= path@);
    e.update_at(&path, 0, LeafUpdate::Reference(definition.clone_ref()));
    proof {
        lemma_updated_keeps_name(old(e)@, seq![ElementName::DefinitionRef], LeafUpdateView::Reference(definition@));
    }
}

fn set_value_in(e: &mut Element, value: &str)
    ensures
        final(e)@ == with_value(old(e)@, value@),
        final(e)@.name == old(e)@.name,
{
    let path = vec![ElementName::Value];
    assert(path@ =~= seq![ElementName::Value]);
    assert(path@.subrange(0, 1) =~= path@);
    e.update_at(&path, 0, LeafUpdate::Data(CharacterData::String(value.to_owned())));
    proof {
        lemma_updated_keeps_name(
            old(e)@,
            seq![ElementName::Value],
            LeafUpdateView::Data(CharacterDataView::String(value@)),
        );
    }
}

fn set_index_in(e: &mut Element, index: Option<u64>)
    ensures
        final(e)@ == with_index(old(e)@, index),
        final(e)@.name == old(e)@.name,
{
    match index {
        Some(i) => {
            let path = vec![ElementName::Index];
            assert(path@ =~= seq![ElementName::Index]);
            assert(path@.subrange(0, 1) =~= path@);
            e.update_at(&path, 0, LeafUpdate::Data(CharacterData::UnsignedInteger(i)));
            proof {
                lemma_updated_keeps_name(
                    old(e)@,
                    seq![ElementName::Index],
                    LeafUpdateView::Data(CharacterDataView::UnsignedInteger(i)),
                );
            }
        },
        None => {
            let _ = e.remove_sub_element_kind(ElementName::Index);
        },
    }
}

fn set_is_auto_value_in(e: &mut Element, is_auto_value: Option<bool>)
    ensures
        final(e)@ == with_is_auto_value(old(e)@, is_auto_value),
        final(e)@.name == old(e)@.name,
{
    match is_auto_value {
        Some(b) => {
            let path = vec![ElementName::IsAutoValue];
            assert(path@ =~= seq![ElementName::IsAutoValue]);
            assert(path@.subrange(0, 1) =~= path@);
            e.update_at(&path, 0, LeafUpdate::Data(CharacterData::from_bool(b)));
            proof {
                lemma_updated_keeps_name(
                    old(e)@,
                    seq![ElementName::IsAutoValue],
                    LeafUpdateView::Data(bool_data(b)),
                );
            }
        },
        None => {
            let _ = e.remove_sub_element_kind(ElementName::IsAutoValue);
        },
    }
}

fn definition_in(e: &Element) -> (r: Option<ElementRef>)
    ensures
        match r {
            Some(d) => definition_of(e@) == Some(d@),
            None => definition_of(e@) is None,
        },
{
    let target = e.get_sub_element(ElementName::DefinitionRef)?.get_reference_target()?;
    match target.kind {
        ElementName::EcucAddInfoParamDef
        | ElementName::EcucBooleanParamDef
        | ElementName::EcucEnumerationParamDef
        | ElementName::EcucFloatParamDef
        | ElementName::EcucFunctionNameDef
        | ElementName::EcucIntegerParamDef
        | ElementName::EcucLinkerSymbolDef
        | ElementName::EcucMultilineStringParamDef
        | ElementName::EcucStringParamDef => Some(target),
        _ => None,
    }
}

fn text_in(e: &Element, name: ElementName) -> (r: Option<String>)
    ensures
        opt_str_view(r) == text_of(sub_element(e@, name)),
{
    e.get_sub_element(name)?.character_data()?.string_value()
}

fn bool_in(e: &Element, name: ElementName) -> (r: Option<bool>)
    ensures
        r == bool_of(sub_element(e@, name)),
{
    e.get_sub_element(name)?.character_data()?.parse_bool()
}

fn index_in(e: &Element) -> (r: Option<u64>)
    ensures
        r == index_of(e@),
{
    e.get_sub_element(ElementName::Index)?.character_data()?.parse_integer_u64()
}

fn new_param_in(kind: ElementName, definition: &ElementRef, value: &str) -> (r: Element)
    ensures
        r@ == new_param_element(kind, definition@, value@),
{
    let mut e = Element::new(kind);
    let mut d = Element::new(ElementName::DefinitionRef);
    d.set_reference_target(definition);
    let mut v = Element::new(ElementName::Value);
    v.set_character_data(CharacterData::String(value.to_owned()));
    e.push_sub_element(d);
    e.push_sub_element(v);
    assert(e@.sub_elements =~= new_param_element(kind, definition@, value@).sub_elements);
    e
}

//#########################################################
// EcucAddInfoParamValue

/// The `EcucAddInfoParamValue` holds descriptive text and takes the role of a parameter
/// in the ECU configuration.
pub struct EcucAddInfoParamValue {
    element: Element,
}

impl View for EcucAddInfoParamValue {
    type V = ElementView;

    closed spec fn view(&self) -> ElementView {
        self.element@
    }
}

impl EcucAddInfoParamValue {
    #[verifier::type_invariant]
    spec fn is_add_info_param(self) -> bool {
        self.element@.name == ElementName::EcucAddInfoParamValue
    }

    /// a new parameter value that refers to its definition
    pub fn new(definition: &ElementRef) -> (r: Self)
        requires
            definition@.kind == ElementName::EcucAddInfoParamDef,
        ensures
            r@ == node(
                ElementName::EcucAddInfoParamValue,
                seq![ref_leaf(ElementName::DefinitionRef, definition@.kind, definition@.path)],
            ),
            definition_of(r@) == Some(definition@),
    {
        let mut e = Element::new(ElementName::EcucAddInfoParamValue);
        let mut d = Element::new(ElementName::DefinitionRef);
        d.set_reference_target(definition);
        e.push_sub_element(d);
        let r = EcucAddInfoParamValue { element: e };
        proof {
            let s = r@.sub_elements;
            assert(s =~= seq![ref_leaf(ElementName::DefinitionRef, definition@.kind, definition@.path)]);
            lemma_first_index(s, ElementName::DefinitionRef);
            assert(s[0].name == ElementName::DefinitionRef);
        }
        r
    }

    /// the element of this parameter value
    pub fn element(&self) -> (r: &Element)
        ensures
            r@ == self@,
            r@.name == ElementName::EcucAddInfoParamValue,
    {
        proof {
            use_type_invariant(self);
        }
        &self.element
    }
}

//#########################################################
// EcucNumericalParamValue

/// The `EcucNumericalParamValue` holds a numerical value and can represent boolean, float
/// or int parameter definitions.
///
/// The value is stored as a string; besides `value()` there are `value_bool()`,
/// `value_int()` and `value_float()`, which parse the string.
pub struct EcucNumericalParamValue {
    element: Element,
}

impl View for EcucNumericalParamValue {
    type V = ElementView;

    closed spec fn view(&self) -> ElementView {
        self.element@
    }
}

impl EcucNumericalParamValue {
    #[verifier::type_invariant]
    spec fn is_numerical_param(self) -> bool {
        self.element@.name == ElementName::EcucNumericalParamValue
    }

    /// a new numerical parameter value with its definition and its value
    pub fn new(definition: &ElementRef, value: &str) -> (r: Self)
        requires
            is_param_def_kind(definition@.kind),
        ensures
            r@ == new_param_element(ElementName::EcucNumericalParamValue, definition@, value@),
            definition_of(r@) == Some(definition@),
            value_of(r@) == Some(value@),
            index_of(r@) is None,
            is_auto_value_of(r@) is None,
            single_entries(r@),
    {
        let e = new_param_in(ElementName::EcucNumericalParamValue, definition, value);
        proof {
            lemma_new_param_element(ElementName::EcucNumericalParamValue, definition@, value@);
        }
        EcucNumericalParamValue { element: e }
    }

    /// the element of this parameter value
    pub fn element(&self) -> (r: &Element)
        ensures
            r@ == self@,
            r@.name == ElementName::EcucNumericalParamValue,
    {
        proof {
            use_type_invariant(self);
        }
        &self.element
    }

    /// set the parameter definition reference
    pub fn set_definition(&mut self, definition: &ElementRef) -> (r: Result<(), AutosarAbstractionError>)
        requires
            is_param_def_kind(definition@.kind),
        ensures
            r is Ok,
            final(self)@ == with_definition(old(self)@, definition@),
            single_entries(old(self)@) ==> single_entries(final(self)@),
            definition_of(final(self)@) == Some(definition@),
            definition_ref_of(final(self)@) == Some(definition@.path),
            value_of(final(self)@) == value_of(old(self)@),
            index_of(final(self)@) == index_of(old(self)@),
            is_auto_value_of(final(self)@) == is_auto_value_of(old(self)@),
    {
        proof {
            use_type_invariant(&*self);
        }
        let mut e = Element::new(self.element.element_name());
        std::mem::swap(&mut e, &mut self.element);
        set_definition_in(&mut e, definition);
        proof {
            let e0 = old(self).element@;
            lemma_definition_reads_back(e0, definition@);
            lemma_definition_frame(e0, definition@);
            if single_entries(e0) {
                lemma_setters_keep_single_entries(e0, definition@, Seq::<char>::empty(), None, None, ElementName::Index);
                lemma_setters_keep_single_entries(e0, definition@, Seq::<char>::empty(), None, None, ElementName::IsAutoValue);
            }
        }
        self.element = e;
        Ok(())
    }

    /// the parameter definition: the kind and path of the definition that the reference
    /// resolves to, if it resolves to a parameter definition
    pub fn definition(&self) -> (r: Option<ElementRef>)
        ensures
            match r {
                Some(d) => definition_of(self@) == Some(d@),
                None => definition_of(self@) is None,
            },
    {
        definition_in(&self.element)
    }

    /// the parameter definition reference as a string
    pub fn definition_ref(&self) -> (r: Option<String>)
        ensures
            opt_str_view(r) == definition_ref_of(self@),
    {
        text_in(&self.element, ElementName::DefinitionRef)
    }

    /// set the numerical value as a string
    pub fn set_value(&mut self, value: &str) -> (r: Result<(), AutosarAbstractionError>)
        ensures
            r is Ok,
            final(self)@ == with_value(old(self)@, value@),
            single_entries(old(self)@) ==> single_entries(final(self)@),
            value_of(final(self)@) == Some(value@),
            definition_of(final(self)@) == definition_of(old(self)@),
            definition_ref_of(final(self)@) == definition_ref_of(old(self)@),
            index_of(final(self)@) == index_of(old(self)@),
            is_auto_value_of(final(self)@) == is_auto_value_of(old(self)@),
    {
        proof {
            use_type_invariant(&*self);
        }
        let mut e = Element::new(self.element.element_name());
        std::mem::swap(&mut e, &mut self.element);
        set_value_in(&mut e, value);
        proof {
            let e0 = old(self).element@;
            lemma_value_reads_back(e0, value@);
            lemma_value_frame(e0, value@);
            if single_entries(e0) {
                lemma_setters_keep_single_entries(e0, ElementRefView { kind: ElementName::Other, path: Seq::empty() }, value@, None, None, ElementName::Index);
                lemma_setters_keep_single_entries(e0, ElementRefView { kind: ElementName::Other, path: Seq::empty() }, value@, None, None, ElementName::IsAutoValue);
            }
        }
        self.element = e;
        Ok(())
    }

    /// the numerical value as a string
    pub fn value(&self) -> (r: Option<String>)
        ensures
            opt_str_view(r) == value_of(self@),
    {
        text_in(&self.element, ElementName::Value)
    }

    /// the numerical value as a boolean
    pub fn value_bool(&self) -> (r: Option<bool>)
        ensures
            r == bool_of(sub_element(self@, ElementName::Value)),
    {
        bool_in(&self.element, ElementName::Value)
    }

    /// the numerical value as an integer
    pub fn value_int(&self) -> (r: Option<i64>)
        ensures
            r == int_of(sub_element(self@, ElementName::Value)),
    {
        self.element.get_sub_element(ElementName::Value)?.character_data()?.parse_integer_i64()
    }

    /// the numerical value as a double, given by its bits
    pub fn value_float(&self) -> (r: Option<u64>)
        ensures
            r == float_of(sub_element(self@, ElementName::Value)),
    {
        self.element.get_sub_element(ElementName::Value)?.character_data()?.parse_float()
    }

    /// set the index of the parameter, or remove it
    pub fn set_index(&mut self, index: Option<u64>) -> (r: Result<(), AutosarAbstractionError>)
        ensures
            r is Ok,
            final(self)@ == with_index(old(self)@, index),
            single_entries(old(self)@) ==> single_entries(final(self)@),
            index is Some || at_most_one(old(self)@.sub_elements, ElementName::Index) ==> index_of(final(self)@)
                == index,
            definition_of(final(self)@) == definition_of(old(self)@),
            definition_ref_of(final(self)@) == definition_ref_of(old(self)@),
            value_of(final(self)@) == value_of(old(self)@),
            is_auto_value_of(final(self)@) == is_auto_value_of(old(self)@),
    {
        proof {
            use_type_invariant(&*self);
        }
        let mut e = Element::new(self.element.element_name());
        std::mem::swap(&mut e, &mut self.element);
        set_index_in(&mut e, index);
        proof {
            let e0 = old(self).element@;
            if index is Some || at_most_one(e0.sub_elements, ElementName::Index) {
                lemma_index_reads_back(e0, index);
            }
            lemma_index_frame(e0, index);
            if single_entries(e0) {
                lemma_setters_keep_single_entries(e0, ElementRefView { kind: ElementName::Other, path: Seq::empty() }, Seq::<char>::empty(), index, None, ElementName::Index);
                lemma_setters_keep_single_entries(e0, ElementRefView { kind: ElementName::Other, path: Seq::empty() }, Seq::<char>::empty(), index, None, ElementName::IsAutoValue);
            }
        }
        self.element = e;
        Ok(())
    }

    /// the index of the parameter
    pub fn index(&self) -> (r: Option<u64>)
        ensures
            r == index_of(self@),
    {
        index_in(&self.element)
    }

    /// set the isAutoValue flag, or remove it
    pub fn set_is_auto_value(&mut self, is_auto_value: Option<bool>) -> (r: Result<(), AutosarAbstractionError>)
        ensures
            r is Ok,
            final(self)@ == with_is_auto_value(old(self)@, is_auto_value),
            single_entries(old(self)@) ==> single_entries(final(self)@),
            is_auto_value is Some || at_most_one(old(self)@.sub_elements, ElementName::IsAutoValue)
                ==> is_auto_value_of(final(self)@) == is_auto_value,
            definition_of(final(self)@) == definition_of(old(self)@),
            definition_ref_of(final(self)@) == definition_ref_of(old(self)@),
            value_of(final(self)@) == value_of(old(self)@),
            index_of(final(self)@) == index_of(old(self)@),
    {
        proof {
            use_type_invariant(&*self);
        }
        let mut e = Element::new(self.element.element_name());
        std::mem::swap(&mut e, &mut self.element);
        set_is_auto_value_in(&mut e, is_auto_value);
        proof {
            let e0 = old(self).element@;
            if is_auto_value is Some || at_most_one(e0.sub_elements, ElementName::IsAutoValue) {
                lemma_is_auto_value_reads_back(e0, is_auto_value);
            }
            lemma_is_auto_value_frame(e0, is_auto_value);
            if single_entries(e0) {
                lemma_setters_keep_single_entries(e0, ElementRefView { kind: ElementName::Other, path: Seq::empty() }, Seq::<char>::empty(), None, is_auto_value, ElementName::Index);
                lemma_setters_keep_single_entries(e0, ElementRefView { kind: ElementName::Other, path: Seq::empty() }, Seq::<char>::empty(), None, is_auto_value, ElementName::IsAutoValue);
            }
        }
        self.element = e;
        Ok(())
    }

    /// the isAutoValue flag
    pub fn is_auto_value(&self) -> (r: Option<bool>)
        ensures
            r == is_auto_value_of(self@),
    {
        bool_in(&self.element, ElementName::IsAutoValue)
    }
}

//#########################################################
// EcucTextualParamValue

/// The `EcucTextualParamValue` holds a string value and can represent an enumeration,
/// string, multi-line string, function name or linker symbol parameter definition.
pub struct EcucTextualParamValue {
    element: Element,
}

impl View for EcucTextualParamValue {
    type V = ElementView;

    closed spec fn view(&self) -> ElementView {
        self.element@
    }
}

impl EcucTextualParamValue {
    #[verifier::type_invariant]
    spec fn is_textual_param(self) -> bool {
        self.element@.name == ElementName::EcucTextualParamValue
    }

    /// a new textual parameter value with its definition and its value
    pub fn new(definition: &ElementRef, value: &str) -> (r: Self)
        requires
            is_param_def_kind(definition@.kind),
        ensures
            r@ == new_param_element(ElementName::EcucTextualParamValue, definition@, value@),
            definition_of(r@) == Some(definition@),
            value_of(r@) == Some(value@),
            index_of(r@) is None,
            is_auto_value_of(r@) is None,
            single_entries(r@),
    {
        let e = new_param_in(ElementName::EcucTextualParamValue, definition, value);
        proof {
            lemma_new_param_element(ElementName::EcucTextualParamValue, definition@, value@);
        }
        EcucTextualParamValue { element: e }
    }

    /// the element of this parameter value
    pub fn element(&self) -> (r: &Element)
        ensures
            r@ == self@,
            r@.name == ElementName::EcucTextualParamValue,
    {
        proof {
            use_type_invariant(self);
        }
        &self.element
    }

    /// set the parameter definition reference
    pub fn set_definition(&mut self, definition: &ElementRef) -> (r: Result<(), AutosarAbstractionError>)
        requires
            is_param_def_kind(definition@.kind),
        ensures
            r is Ok,
            final(self)@ == with_definition(old(self)@, definition@),
            single_entries(old(self)@) ==> single_entries(final(self)@),
            definition_of(final(self)@) == Some(definition@),
            definition_ref_of(final(self)@) == Some(definition@.path),
            value_of(final(self)@) == value_of(old(self)@),
            index_of(final(self)@) == index_of(old(self)@),
            is_auto_value_of(final(self)@) == is_auto_value_of(old(self)@),
    {
        proof {
            use_type_invariant(&*self);
        }
        let mut e = Element::new(self.element.element_name());
        std::mem::swap(&mut e, &mut self.element);
        set_definition_in(&mut e, definition);
        proof {
            let e0 = old(self).element@;
            lemma_definition_reads_back(e0, definition@);
            lemma_definition_frame(e0, definition@);
            if single_entries(e0) {
                lemma_setters_keep_single_entries(e0, definition@, Seq::<char>::empty(), None, None, ElementName::Index);
                lemma_setters_keep_single_entries(e0, definition@, Seq::<char>::empty(), None, None, ElementName::IsAutoValue);
            }
        }
        self.element = e;
        Ok(())
    }

    /// the parameter definition: the kind and path of the definition that the reference
    /// resolves to, if it resolves to a parameter definition
    pub fn definition(&self) -> (r: Option<ElementRef>)
        ensures
            match r {
                Some(d) => definition_of(self@) == Some(d@),
                None => definition_of(self@) is None,
            },
    {
        definition_in(&self.element)
    }

    /// the parameter definition reference as a string
    pub fn definition_ref(&self) -> (r: Option<String>)
        ensures
            opt_str_view(r) == definition_ref_of(self@),
    {
        text_in(&self.element, ElementName::DefinitionRef)
    }

    /// set the textual value
    pub fn set_value(&mut self, value: &str) -> (r: Result<(), AutosarAbstractionError>)
        ensures
            r is Ok,
            final(self)@ == with_value(old(self)@, value@),
            single_entries(old(self)@) ==> single_entries(final(self)@),
            value_of(final(self)@) == Some(value@),
            definition_of(final(self)@) == definition_of(old(self)@),
            definition_ref_of(final(self)@) == definition_ref_of(old(self)@),
            index_of(final(self)@) == index_of(old(self)@),
            is_auto_value_of(final(self)@) == is_auto_value_of(old(self)@),
    {
        proof {
            use_type_invariant(&*self);
        }
        let mut e = Element::new(self.element.element_name());
        std::mem::swap(&mut e, &mut self.element);
        set_value_in(&mut e, value);
        proof {
            let e0 = old(self).element@;
            lemma_value_reads_back(e0, value@);
            lemma_value_frame(e0, value@);
            if single_entries(e0) {
                lemma_setters_keep_single_entries(e0, ElementRefView { kind: ElementName::Other, path: Seq::empty() }, value@, None, None, ElementName::Index);
                lemma_setters_keep_single_entries(e0, ElementRefView { kind: ElementName::Other, path: Seq::empty() }, value@, None, None, ElementName::IsAutoValue);
            }
        }
        self.element = e;
        Ok(())
    }

    /// the textual value
    pub fn value(&self) -> (r: Option<String>)
        ensures
            opt_str_view(r) == value_of(self@),
    {
        text_in(&self.element, ElementName::Value)
    }

    /// set the index of the parameter, or remove it
    pub fn set_index(&mut self, index: Option<u64>) -> (r: Result<(), AutosarAbstractionError>)
        ensures
            r is Ok,
            final(self)@ == with_index(old(self)@, index),
            single_entries(old(self)@) ==> single_entries(final(self)@),
            index is Some || at_most_one(old(self)@.sub_elements, ElementName::Index) ==> index_of(final(self)@)
                == index,
            definition_of(final(self)@) == definition_of(old(self)@),
            definition_ref_of(final(self)@) == definition_ref_of(old(self)@),
            value_of(final(self)@) == value_of(old(self)@),
            is_auto_value_of(final(self)@) == is_auto_value_of(old(self)@),
    {
        proof {
            use_type_invariant(&*self);
        }
        let mut e = Element::new(self.element.element_name());
        std::mem::swap(&mut e, &mut self.element);
        set_index_in(&mut e, index);
        proof {
            let e0 = old(self).element@;
            if index is Some || at_most_one(e0.sub_elements, ElementName::Index) {
                lemma_index_reads_back(e0, index);
            }
            lemma_index_frame(e0, index);
            if single_entries(e0) {
                lemma_setters_keep_single_entries(e0, ElementRefView { kind: ElementName::Other, path: Seq::empty() }, Seq::<char>::empty(), index, None, ElementName::Index);
                lemma_setters_keep_single_entries(e0, ElementRefView { kind: ElementName::Other, path: Seq::empty() }, Seq::<char>::empty(), index, None, ElementName::IsAutoValue);
            }
        }
        self.element = e;
        Ok(())
    }

    /// the index of the parameter
    pub fn index(&self) -> (r: Option<u64>)
        ensures
            r == index_of(self@),
    {
        index_in(&self.element)
    }

    /// set the isAutoValue flag, or remove it
    pub fn set_is_auto_value(&mut self, is_auto_value: Option<bool>) -> (r: Result<(), AutosarAbstractionError>)
        ensures
            r is Ok,
            final(self)@ == with_is_auto_value(old(self)@, is_auto_value),
            single_entries(old(self)@) ==> single_entries(final(self)@),
            is_auto_value is Some || at_most_one(old(self)@.sub_elements, ElementName::IsAutoValue)
                ==> is_auto_value_of(final(self)@) == is_auto_value,
            definition_of(final(self)@) == definition_of(old(self)@),
            definition_ref_of(final(self)@) == definition_ref_of(old(self)@),
            value_of(final(self)@) == value_of(old(self)@),
            index_of(final(self)@) == index_of(old(self)@),
    {
        proof {
            use_type_invariant(&*self);
        }
        let mut e = Element::new(self.element.element_name());
        std::mem::swap(&mut e, &mut self.element);
        set_is_auto_value_in(&mut e, is_auto_value);
        proof {
            let e0 = old(self).element@;
            if is_auto_value is Some || at_most_one(e0.sub_elements, ElementName::IsAutoValue) {
                lemma_is_auto_value_reads_back(e0, is_auto_value);
            }
            lemma_is_auto_value_frame(e0, is_auto_value);
            if single_entries(e0) {
                lemma_setters_keep_single_entries(e0, ElementRefView { kind: ElementName::Other, path: Seq::empty() }, Seq::<char>::empty(), None, is_auto_value, ElementName::Index);
                lemma_setters_keep_single_entries(e0, ElementRefView { kind: ElementName::Other, path: Seq::empty() }, Seq::<char>::empty(), None, is_auto_value, ElementName::IsAutoValue);
            }
        }
        self.element = e;
        Ok(())
    }

    /// the isAutoValue flag
    pub fn is_auto_value(&self) -> (r: Option<bool>)
        ensures
            r == is_auto_value_of(self@),
    {
        bool_in(&self.element, ElementName::IsAutoValue)
    }
}

//#########################################################
// EcucParameterValue

/// A parameter value of any of the three kinds.
pub enum EcucParameterValue {
    /// AddInfo parameter value
    AddInfo(EcucAddInfoParamValue),
    /// Numerical parameter value
    Numerical(EcucNumericalParamValue),
    /// Textual parameter value
    Textual(EcucTextualParamValue),
}

impl View for EcucParameterValue {
    type V = ElementView;

    open spec fn view(&self) -> ElementView {
        match self {
            EcucParameterValue::AddInfo(p) => p@,
            EcucParameterValue::Numerical(p) => p@,
            EcucParameterValue::Textual(p) => p@,
        }
    }
}

impl EcucParameterValue {
    /// the element of this parameter value
    pub fn element(&self) -> (r: &Element)
        ensures
            r@ == self@,
            is_param_value_kind(r@.name),
    {
        match self {
            EcucParameterValue::AddInfo(p) => p.element(),
            EcucParameterValue::Numerical(p) => p.element(),
            EcucParameterValue::Textual(p) => p.element(),
        }
    }

    /// the parameter value held by an element, chosen by the element's name
    pub fn try_from(element: Element) -> (r: Result<Self, AutosarAbstractionError>)
        ensures
            element@.name == ElementName::EcucAddInfoParamValue <==> r matches Ok(EcucParameterValue::AddInfo(_)),
            element@.name == ElementName::EcucNumericalParamValue <==> r matches Ok(EcucParameterValue::Numerical(_)),
            element@.name == ElementName::EcucTextualParamValue <==> r matches Ok(EcucParameterValue::Textual(_)),
            match r {
                Ok(p) => p@ == element@,
                Err(e) => !is_param_value_kind(element@.name) && (e matches AutosarAbstractionError::ConversionError {
                    element: n,
                    dest: d,
                } && n == element@.name && d@ == "EcucParameterValue"@),
            },
    {
        match element.name {
            ElementName::EcucAddInfoParamValue => Ok(
                EcucParameterValue::AddInfo(EcucAddInfoParamValue { element }),
            ),
            ElementName::EcucNumericalParamValue => Ok(
                EcucParameterValue::Numerical(EcucNumericalParamValue { element }),
            ),
            ElementName::EcucTextualParamValue => Ok(
                EcucParameterValue::Textual(EcucTextualParamValue { element }),
            ),
            _ => {
                let name = element.name;
                Err(AutosarAbstractionError::ConversionError {
                    element: name,
                    dest: "EcucParameterValue".to_owned(),
                })
            },
        }
    }
}

} // verus!
