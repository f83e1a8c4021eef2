//! A plain-value model of the AUTOSAR element tree: elements with a name, optional
//! character data and ordered sub elements. Reference elements also record the kind
//! of element that their reference resolves to.

use vstd::prelude::*;

verus! {

/// The names of the AUTOSAR elements that this library reads and writes.
/// `Other` stands for every element name that the library does not look at.
#[derive(PartialEq, Eq, Structural, Clone, Copy, Debug)]
pub enum ElementName {
    // value specifications
    ArrayValueSpecification,
    RecordValueSpecification,
    TextValueSpecification,
    NumericalValueSpecification,
    ConstantReference,
    ApplicationValueSpecification,
    NotAvailableValueSpecification,
    ReferenceValueSpecification,
    ApplicationRuleBasedValueSpecification,
    CompositeRuleBasedValueSpecification,
    NumericalRuleBasedValueSpecification,
    ShortLabel,
    Elements,
    Fields,
    Value,
    ConstantRef,
    Category,
    SwAxisConts,
    SwValueCont,
    DefaultPattern,
    ReferenceValueRef,
    Arguments,
    CompoundPrimitiveArguments,
    MaxSizeToFill,
    Rule,
    RuleBasedValues,
    SwAxisCont,
    SwArraysize,
    SwAxisIndex,
    SwValuesPhys,
    UnitRef,
    UnitDisplayName,
    V,
    Vf,
    Vg,
    Vt,
    Vtf,
    Label,
    L4,
    RuleBasedAxisCont,
    Argumentss,
    RuleArguments,
    ValueSpec,
    ShortName,
    // referenced elements
    ConstantSpecification,
    ArgumentDataPrototype,
    ParameterDataPrototype,
    VariableDataPrototype,
    Element,
    ApplicationRecordElement,
    Unit,
    SwBaseType,
    CompuMethod,
    DataConstr,
    DataTransformation,
    // signals
    ISignal,
    DataTypePolicy,
    NetworkRepresentationProps,
    SwDataDefPropsVariants,
    SwDataDefPropsConditional,
    BaseTypeRef,
    CompuMethodRef,
    Length,
    InitValue,
    SystemSignal,
    SystemSignalRef,
    DataTransformations,
    DataTransformationRefConditional,
    DataTransformationRef,
    TransformationISignalPropss,
    EndToEndTransformationISignalProps,
    SomeipTransformationISignalProps,
    UserDefinedTransformationISignalProps,
    PhysicalProps,
    DataConstrRef,
    ISignalGroup,
    SystemSignalGroup,
    SystemSignalGroupRef,
    ISignalRefs,
    ISignalRef,
    ComBasedSignalGroupTransformations,
    SystemSignalRefs,
    ISignalTriggering,
    ISignalGroupRef,
    ISignalPortRefs,
    ISignalPortRef,
    ISignalPort,
    CommunicationDirection,
    // ECU configuration values
    EcucAddInfoParamValue,
    EcucNumericalParamValue,
    EcucTextualParamValue,
    DefinitionRef,
    Index,
    IsAutoValue,
    EcucAddInfoParamDef,
    EcucBooleanParamDef,
    EcucEnumerationParamDef,
    EcucFloatParamDef,
    EcucFunctionNameDef,
    EcucIntegerParamDef,
    EcucLinkerSymbolDef,
    EcucMultilineStringParamDef,
    EcucStringParamDef,
    // the model around signals, as far as the library names it
    ISignalToIPduMapping,
    SenderReceiverToSignalMapping,
    EcuInstance,
    EcuCommPortInstances,
    CanPhysicalChannel,
    EthernetPhysicalChannel,
    FlexrayPhysicalChannel,
    LinPhysicalChannel,
    ArPackage,
    ArPackages,
    Other,
}

/// The enumeration items that this library reads and writes as character data.
/// `Other` stands for every item that the library does not look at.
#[derive(PartialEq, Eq, Structural, Clone, Copy, Debug)]
pub enum EnumItem {
    Override,
    StdAxis,
    Stdaxis,
    ComAxis,
    Comaxis,
    ResAxis,
    Resaxis,
    Pending,
    Triggered,
    TriggeredOnChange,
    TriggeredOnChangeWithoutRepetition,
    TriggeredWithoutRepetition,
    In,
    Out,
    Other,
}

/// the text of an enumeration item as it stands in an arxml file
pub open spec fn item_text(e: EnumItem) -> Seq<char> {
    match e {
        EnumItem::Override => "OVERRIDE"@,
        EnumItem::StdAxis => "STD-AXIS"@,
        EnumItem::Stdaxis => "STD_AXIS"@,
        EnumItem::ComAxis => "COM-AXIS"@,
        EnumItem::Comaxis => "COM_AXIS"@,
        EnumItem::ResAxis => "RES-AXIS"@,
        EnumItem::Resaxis => "RES_AXIS"@,
        EnumItem::Pending => "PENDING"@,
        EnumItem::Triggered => "TRIGGERED"@,
        EnumItem::TriggeredOnChange => "TRIGGERED-ON-CHANGE"@,
        EnumItem::TriggeredOnChangeWithoutRepetition => "TRIGGERED-ON-CHANGE-WITHOUT-REPETITION"@,
        EnumItem::TriggeredWithoutRepetition => "TRIGGERED-WITHOUT-REPETITION"@,
        EnumItem::In => "IN"@,
        EnumItem::Out => "OUT"@,
        EnumItem::Other => ""@,
    }
}

impl EnumItem {
    /// the text of the item as it stands in an arxml file
    pub fn to_str(&self) -> (r: &'static str)
        ensures
            r@ == item_text(*self),
    {
        match self {
            EnumItem::Override => "OVERRIDE",
            EnumItem::StdAxis => "STD-AXIS",
            EnumItem::Stdaxis => "STD_AXIS",
            EnumItem::ComAxis => "COM-AXIS",
            EnumItem::Comaxis => "COM_AXIS",
            EnumItem::ResAxis => "RES-AXIS",
            EnumItem::Resaxis => "RES_AXIS",
            EnumItem::Pending => "PENDING",
            EnumItem::Triggered => "TRIGGERED",
            EnumItem::TriggeredOnChange => "TRIGGERED-ON-CHANGE",
            EnumItem::TriggeredOnChangeWithoutRepetition => "TRIGGERED-ON-CHANGE-WITHOUT-REPETITION",
            EnumItem::TriggeredWithoutRepetition => "TRIGGERED-WITHOUT-REPETITION",
            EnumItem::In => "IN",
            EnumItem::Out => "OUT",
            EnumItem::Other => "",
        }
    }
}

/// Character data of an element. A floating point number is held by the bits of its
/// IEEE 754 double representation.
pub enum CharacterData {
    Enum(EnumItem),
    String(String),
    UnsignedInteger(u64),
    Float(u64),
}

/// Mathematical view of [`CharacterData`].
pub enum CharacterDataView {
    Enum(EnumItem),
    String(Seq<char>),
    UnsignedInteger(u64),
    Float(u64),
}

impl View for CharacterData {
    type V = CharacterDataView;

    open spec fn view(&self) -> CharacterDataView {
        match self {
            CharacterData::Enum(e) => CharacterDataView::Enum(*e),
            CharacterData::String(s) => CharacterDataView::String(s@),
            CharacterData::UnsignedInteger(n) => CharacterDataView::UnsignedInteger(*n),
            CharacterData::Float(b) => CharacterDataView::Float(*b),
        }
    }
}

/// A reference to an element of the model: the kind of element it resolves to and its path.
#[derive(PartialEq, Eq, Debug)]
pub struct ElementRef {
    pub kind: ElementName,
    pub path: String,
}

pub struct ElementRefView {
    pub kind: ElementName,
    pub path: Seq<char>,
}

impl View for ElementRef {
    type V = ElementRefView;

    open spec fn view(&self) -> ElementRefView {
        ElementRefView { kind: self.kind, path: self.path@ }
    }
}

impl ElementRef {
    pub fn clone_ref(&self) -> (r: ElementRef)
        ensures
            r@ == self@,
    {
        ElementRef { kind: self.kind, path: self.path.clone() }
    }
}

/// An element: its name, its character data, the kind of element its reference
/// resolves to (reference elements only) and its sub elements, in order.
pub struct Element {
    pub name: ElementName,
    pub character_data: Option<CharacterData>,
    pub target_kind: Option<ElementName>,
    pub sub_elements: Vec<Element>,
}

/// Mathematical view of an [`Element`].
pub struct ElementView {
    pub name: ElementName,
    pub character_data: Option<CharacterDataView>,
    pub target_kind: Option<ElementName>,
    pub sub_elements: Seq<ElementView>,
}

pub open spec fn opt_cdata_view(cd: Option<CharacterData>) -> Option<CharacterDataView> {
    match cd {
        Some(c) => Some(c@),
        None => None,
    }
}

pub open spec fn element_view(e: Element) -> ElementView
    decreases e, 1int,
{
    ElementView {
        name: e.name,
        character_data: opt_cdata_view(e.character_data),
        target_kind: e.target_kind,
        sub_elements: elements_view(e.sub_elements@),
    }
}

pub open spec fn elements_view(s: Seq<Element>) -> Seq<ElementView>
    decreases s, 0int,
{
    if s.len() == 0 {
        Seq::empty()
    } else {
        elements_view(s.subrange(0, s.len() - 1)).push(element_view(s[s.len() - 1]))
    }
}

impl View for Element {
    type V = ElementView;

    open spec fn view(&self) -> ElementView {
        element_view(*self)
    }
}

pub proof fn lemma_elements_view(s: Seq<Element>)
    ensures
        elements_view(s).len() == s.len(),
        forall|i: int| 0 <= i < s.len() ==> #[trigger] elements_view(s)[i] == s[i]@,
    decreases s.len(),
{
    if s.len() > 0 {
        lemma_elements_view(s.subrange(0, s.len() - 1));
    }
}

/// an element with the given name and nothing in it
pub open spec fn empty_element(name: ElementName) -> ElementView {
    ElementView { name, character_data: None, target_kind: None, sub_elements: Seq::empty() }
}

/// position of the first element of `s` with the given name, or -1
pub open spec fn first_index(s: Seq<ElementView>, name: ElementName) -> int
    decreases s.len(),
{
    if s.len() == 0 {
        -1
    } else if s[0].name == name {
        0
    } else {
        let r = first_index(s.subrange(1, s.len() as int), name);
        if r < 0 {
            -1
        } else {
            r + 1
        }
    }
}

/// the first element of `s` with the given name
pub open spec fn find_named(s: Seq<ElementView>, name: ElementName) -> Option<ElementView> {
    let i = first_index(s, name);
    if i < 0 {
        None
    } else {
        Some(s[i])
    }
}

/// the first sub element of `e` with the given name
pub open spec fn sub_element(e: ElementView, name: ElementName) -> Option<ElementView> {
    find_named(e.sub_elements, name)
}

pub proof fn lemma_first_index(s: Seq<ElementView>, name: ElementName)
    ensures
        -1 <= first_index(s, name) < s.len(),
        first_index(s, name) >= 0 ==> s[first_index(s, name)].name == name,
        first_index(s, name) >= 0 ==> forall|j: int|
            0 <= j < first_index(s, name) ==> #[trigger] s[j].name != name,
        first_index(s, name) < 0 ==> forall|j: int| 0 <= j < s.len() ==> #[trigger] s[j].name != name,
    decreases s.len(),
{
    if s.len() > 0 && s[0].name != name {
        let t = s.subrange(1, s.len() as int);
        lemma_first_index(t, name);
        assert forall|j: int| 1 <= j < s.len() implies s[j] == #[trigger] t[j - 1] by {}
        if first_index(t, name) < 0 {
            assert forall|j: int| 0 <= j < s.len() implies #[trigger] s[j].name != name by {
                if j > 0 {
                    assert(s[j] == t[j - 1]);
                }
            }
        } else {
            assert forall|j: int| 0 <= j < first_index(s, name) implies #[trigger] s[j].name != name by {
                if j > 0 {
                    assert(s[j] == t[j - 1]);
                }
            }
        }
    }
}

/// characterizes `first_index` by the property that defines it
pub proof fn lemma_first_index_is(s: Seq<ElementView>, name: ElementName, i: int)
    requires
        -1 <= i < s.len(),
        i >= 0 ==> s[i].name == name,
        forall|j: int| 0 <= j < s.len() && (i < 0 || j < i) ==> #[trigger] s[j].name != name,
    ensures
        first_index(s, name) == i,
{
    lemma_first_index(s, name);
    let f = first_index(s, name);
    if f >= 0 && i >= 0 {
        if f < i {
            assert(s[f].name != name);
        }
        if i < f {
            assert(s[i].name != name);
        }
    } else if f >= 0 {
        assert(s[f].name != name);
    } else if i >= 0 {
        assert(s[i].name != name);
    }
}

/// the element at position `i` is the only one with the given name
pub proof fn lemma_find_unique(s: Seq<ElementView>, name: ElementName, i: int)
    requires
        0 <= i < s.len(),
        s[i].name == name,
        forall|j: int| 0 <= j < s.len() && j != i ==> #[trigger] s[j].name != name,
    ensures
        find_named(s, name) == Some(s[i]),
{
    lemma_first_index_is(s, name, i);
}

/// no element has the given name
pub proof fn lemma_find_absent(s: Seq<ElementView>, name: ElementName)
    requires
        forall|j: int| 0 <= j < s.len() ==> #[trigger] s[j].name != name,
    ensures
        find_named(s, name) is None,
{
    lemma_first_index_is(s, name, -1);
}

/// looking past a prefix in which the name does not occur
pub proof fn lemma_find_skip(s1: Seq<ElementView>, s2: Seq<ElementView>, name: ElementName)
    requires
        forall|j: int| 0 <= j < s1.len() ==> #[trigger] s1[j].name != name,
    ensures
        find_named(s1 + s2, name) == find_named(s2, name),
{
    let s = s1 + s2;
    lemma_first_index(s2, name);
    let f = first_index(s2, name);
    if f >= 0 {
        assert forall|j: int| 0 <= j < s.len() && j < s1.len() + f implies #[trigger] s[j].name != name by {
            if j >= s1.len() {
                assert(s[j] == s2[j - s1.len()]);
            }
        }
        lemma_first_index_is(s, name, s1.len() + f);
    } else {
        assert forall|j: int| 0 <= j < s.len() implies #[trigger] s[j].name != name by {
            if j >= s1.len() {
                assert(s[j] == s2[j - s1.len()]);
            }
        }
        lemma_first_index_is(s, name, -1);
    }
}

/// a name found in a prefix is found there in the whole
pub proof fn lemma_find_prefix(s1: Seq<ElementView>, s2: Seq<ElementView>, name: ElementName)
    requires
        find_named(s1, name) is Some,
    ensures
        find_named(s1 + s2, name) == find_named(s1, name),
{
    let s = s1 + s2;
    lemma_first_index(s1, name);
    let f = first_index(s1, name);
    assert forall|j: int| 0 <= j < s.len() && j < f implies #[trigger] s[j].name != name by {
        assert(s[j] == s1[j]);
    }
    lemma_first_index_is(s, name, f);
}

impl Element {
    /// a new element with the given name and nothing in it
    pub fn new(name: ElementName) -> (r: Element)
        ensures
            r@ == empty_element(name),
    {
        let r = Element { name, character_data: None, target_kind: None, sub_elements: Vec::new() };
        assert(r@.sub_elements =~= Seq::<ElementView>::empty());
        r
    }

    /// the name of this element
    pub fn element_name(&self) -> (r: ElementName)
        ensures
            r == self@.name,
    {
        self.name
    }

    /// append a sub element
    pub fn push_sub_element(&mut self, sub: Element)
        ensures
            final(self)@ == (ElementView {
                sub_elements: old(self)@.sub_elements.push(sub@),
                ..old(self)@
            }),
    {
        proof {
            lemma_elements_view(self.sub_elements@);
        }
        self.sub_elements.push(sub);
        proof {
            assert(self.sub_elements@.subrange(0, self.sub_elements@.len() - 1) =~= old(
                self,
            ).sub_elements@);
        }
    }

    /// replace the character data of this element
    pub fn set_character_data(&mut self, value: CharacterData)
        ensures
            final(self)@ == (ElementView { character_data: Some(value@), ..old(self)@ }),
    {
        self.character_data = Some(value);
    }

    /// make this (reference) element refer to the given target
    pub fn set_reference_target(&mut self, target: &ElementRef)
        ensures
            final(self)@ == (ElementView {
                character_data: Some(CharacterDataView::String(target@.path)),
                target_kind: Some(target@.kind),
                ..old(self)@
            }),
    {
        self.character_data = Some(CharacterData::String(target.path.clone()));
        self.target_kind = Some(target.kind);
    }

    /// the character data of this element
    pub fn character_data(&self) -> (r: Option<&CharacterData>)
        ensures
            match r {
                Some(c) => self@.character_data == Some(c@),
                None => self@.character_data is None,
            },
    {
        match &self.character_data {
            Some(c) => Some(c),
            None => None,
        }
    }

    /// the target of this reference element: its kind and its path
    pub fn get_reference_target(&self) -> (r: Option<ElementRef>)
        ensures
            match r {
                Some(t) => self@.character_data == Some(CharacterDataView::String(t@.path))
                    && self@.target_kind == Some(t@.kind),
                None => !(self@.character_data matches Some(CharacterDataView::String(_))
                    && self@.target_kind is Some),
            },
    {
        match (&self.character_data, self.target_kind) {
            (Some(CharacterData::String(p)), Some(k)) => Some(ElementRef { kind: k, path: p.clone() }),
            _ => None,
        }
    }

    /// position of the first sub element with the given name
    pub fn find_sub_element(&self, name: ElementName) -> (r: Option<usize>)
        ensures
            match r {
                Some(i) => first_index(self@.sub_elements, name) == i,
                None => first_index(self@.sub_elements, name) < 0,
            },
    {
        proof {
            lemma_elements_view(self.sub_elements@);
        }
        let mut i: usize = 0;
        while i < self.sub_elements.len()
            invariant
                i <= self.sub_elements@.len(),
                self@.sub_elements.len() == self.sub_elements@.len(),
                forall|k: int| 0 <= k < self.sub_elements@.len() ==> #[trigger] self@.sub_elements[k]
                    == self.sub_elements@[k]@,
                forall|j: int| 0 <= j < i ==> #[trigger] self@.sub_elements[j].name != name,
            decreases self.sub_elements@.len() - i,
        {
            if self.sub_elements[i].name == name {
                proof {
                    lemma_first_index_is(self@.sub_elements, name, i as int);
                }
                return Some(i);
            }
            assert(self@.sub_elements[i as int].name != name);
            i = i + 1;
        }
        proof {
            lemma_first_index_is(self@.sub_elements, name, -1);
        }
        None
    }

    /// the first sub element with the given name
    pub fn get_sub_element(&self, name: ElementName) -> (r: Option<&Element>)
        ensures
            match r {
                Some(e) => sub_element(self@, name) == Some(e@),
                None => sub_element(self@, name) is None,
            },
    {
        proof {
            lemma_elements_view(self.sub_elements@);
        }
        proof {
            lemma_first_index(self@.sub_elements, name);
        }
        match self.find_sub_element(name) {
            Some(i) => Some(&self.sub_elements[i]),
            None => None,
        }
    }

    /// the sub element at the given position
    pub fn get_sub_element_at(&self, position: usize) -> (r: Option<&Element>)
        ensures
            match r {
                Some(e) => position < self@.sub_elements.len() && e@ == self@.sub_elements[
                    position as int],
                None => position >= self@.sub_elements.len(),
            },
    {
        proof {
            lemma_elements_view(self.sub_elements@);
        }
        if position < self.sub_elements.len() {
            Some(&self.sub_elements[position])
        } else {
            None
        }
    }
}


/// What is done to the element at the end of a path.
pub enum LeafUpdate {
    /// replace its character data
    Data(CharacterData),
    /// make it refer to the target
    Reference(ElementRef),
    /// append a sub element to it
    Append(Element),
    /// replace all its sub elements by this one
    Content(Element),
}

pub enum LeafUpdateView {
    Data(CharacterDataView),
    Reference(ElementRefView),
    Append(ElementView),
    Content(ElementView),
}

impl View for LeafUpdate {
    type V = LeafUpdateView;

    open spec fn view(&self) -> LeafUpdateView {
        match self {
            LeafUpdate::Data(cd) => LeafUpdateView::Data(cd@),
            LeafUpdate::Reference(t) => LeafUpdateView::Reference(t@),
            LeafUpdate::Append(c) => LeafUpdateView::Append(c@),
            LeafUpdate::Content(c) => LeafUpdateView::Content(c@),
        }
    }
}

pub open spec fn apply_update(e: ElementView, u: LeafUpdateView) -> ElementView {
    match u {
        LeafUpdateView::Data(cd) => ElementView { character_data: Some(cd), ..e },
        LeafUpdateView::Reference(t) => ElementView {
            character_data: Some(CharacterDataView::String(t.path)),
            target_kind: Some(t.kind),
            ..e
        },
        LeafUpdateView::Append(c) => ElementView { sub_elements: e.sub_elements.push(c), ..e },
        LeafUpdateView::Content(c) => ElementView { sub_elements: seq![c], ..e },
    }
}

/// the element reached from `e` by following, for each name of `path` in turn,
/// the first sub element with that name
pub open spec fn element_at(e: ElementView, path: Seq<ElementName>) -> Option<ElementView>
    decreases path.len(),
{
    if path.len() == 0 {
        Some(e)
    } else {
        match sub_element(e, path[0]) {
            Some(c) => element_at(c, path.subrange(1, path.len() as int)),
            None => None,
        }
    }
}

/// `e` after following `path` as `get_or_create_sub_element` does, creating each missing
/// element at the end of its parent, and applying `u` to the element at the end
pub open spec fn updated_at(e: ElementView, path: Seq<ElementName>, u: LeafUpdateView) -> ElementView
    decreases path.len(),
{
    if path.len() == 0 {
        apply_update(e, u)
    } else {
        let i = first_index(e.sub_elements, path[0]);
        let rest = path.subrange(1, path.len() as int);
        if i >= 0 {
            ElementView {
                sub_elements: e.sub_elements.update(i, updated_at(e.sub_elements[i], rest, u)),
                ..e
            }
        } else {
            ElementView {
                sub_elements: e.sub_elements.push(updated_at(empty_element(path[0]), rest, u)),
                ..e
            }
        }
    }
}

/// `e` without its first sub element of the given name
pub open spec fn without_sub_element(e: ElementView, name: ElementName) -> ElementView {
    let i = first_index(e.sub_elements, name);
    if i < 0 {
        e
    } else {
        ElementView { sub_elements: e.sub_elements.remove(i), ..e }
    }
}

/// no two elements of `s` have the given name
pub open spec fn at_most_one(s: Seq<ElementView>, name: ElementName) -> bool {
    forall|i: int, j: int|
        0 <= i < s.len() && 0 <= j < s.len() && #[trigger] s[i].name == name && #[trigger] s[j].name == name ==> i == j
}

/// removing the first element of a name that occurs at most once leaves none of it
pub proof fn lemma_without_leaves_none(e: ElementView, name: ElementName)
    requires
        at_most_one(e.sub_elements, name),
    ensures
        forall|j: int| 0 <= j < without_sub_element(e, name).sub_elements.len() ==>
            #[trigger] without_sub_element(e, name).sub_elements[j].name != name,
{
    let s = e.sub_elements;
    lemma_first_index(s, name);
    let f = first_index(s, name);
    if f >= 0 {
        let t = s.remove(f);
        assert forall|j: int| 0 <= j < t.len() implies #[trigger] t[j].name != name by {
            if j < f {
                assert(t[j] == s[j]);
            } else {
                assert(t[j] == s[j + 1]);
                if s[j + 1].name == name {
                    assert(s[f].name == name);
                }
            }
        }
    }
}

pub proof fn lemma_updated_keeps_name(e: ElementView, path: Seq<ElementName>, u: LeafUpdateView)
    ensures
        updated_at(e, path, u).name == e.name,
    decreases path.len(),
{
}

/// replacing a sub element by one of the same name keeps the first positions of all names
pub proof fn lemma_first_index_update(s: Seq<ElementView>, i: int, x: ElementView, name: ElementName)
    requires
        0 <= i < s.len(),
        x.name == s[i].name,
    ensures
        first_index(s.update(i, x), name) == first_index(s, name),
{
    lemma_first_index(s, name);
    let f = first_index(s, name);
    let t = s.update(i, x);
    assert forall|j: int| 0 <= j < t.len() && (f < 0 || j < f) implies #[trigger] t[j].name != name by {
        assert(t[j].name == s[j].name);
    }
    lemma_first_index_is(t, name, f);
}

/// appending a sub element keeps the first positions of the names already present
pub proof fn lemma_first_index_push(s: Seq<ElementView>, x: ElementView, name: ElementName)
    ensures
        first_index(s, name) >= 0 ==> first_index(s.push(x), name) == first_index(s, name),
        first_index(s, name) < 0 && x.name == name ==> first_index(s.push(x), name) == s.len(),
        first_index(s, name) < 0 && x.name != name ==> first_index(s.push(x), name) < 0,
{
    lemma_first_index(s, name);
    let f = first_index(s, name);
    let t = s.push(x);
    if f >= 0 {
        assert forall|j: int| 0 <= j < t.len() && j < f implies #[trigger] t[j].name != name by {
            assert(t[j] == s[j]);
        }
        lemma_first_index_is(t, name, f);
    } else if x.name == name {
        assert forall|j: int| 0 <= j < t.len() && j < s.len() implies #[trigger] t[j].name != name by {
            assert(t[j] == s[j]);
        }
        lemma_first_index_is(t, name, s.len() as int);
    } else {
        assert forall|j: int| 0 <= j < t.len() implies #[trigger] t[j].name != name by {
            if j < s.len() {
                assert(t[j] == s[j]);
            }
        }
        lemma_first_index_is(t, name, -1);
    }
}

/// Law: after an update along `path`, the element at `path` exists and carries the update.
pub proof fn lemma_updated_at_reads_back(e: ElementView, path: Seq<ElementName>, u: LeafUpdateView)
    ensures
        element_at(updated_at(e, path, u), path) is Some,
        ({
            let x = element_at(updated_at(e, path, u), path)->0;
            &&& u matches LeafUpdateView::Data(cd) ==> x.character_data == Some(cd)
            &&& u matches LeafUpdateView::Reference(t) ==> x.character_data == Some(
                CharacterDataView::String(t.path),
            ) && x.target_kind == Some(t.kind)
            &&& u matches LeafUpdateView::Append(c) ==> x.sub_elements == match element_at(e, path) {
                Some(y) => y.sub_elements.push(c),
                None => seq![c],
            }
            &&& u matches LeafUpdateView::Content(c) ==> x.sub_elements == seq![c]
        }),
    decreases path.len(),
{
    if path.len() == 0 {
        if let LeafUpdateView::Append(c) = u {
            assert(element_at(e, path) == Some(e));
        }
    } else {
        let i = first_index(e.sub_elements, path[0]);
        let rest = path.subrange(1, path.len() as int);
        lemma_first_index(e.sub_elements, path[0]);
        if i >= 0 {
            let c = updated_at(e.sub_elements[i], rest, u);
            lemma_updated_keeps_name(e.sub_elements[i], rest, u);
            lemma_first_index_update(e.sub_elements, i, c, path[0]);
            lemma_updated_at_reads_back(e.sub_elements[i], rest, u);
        } else {
            let c = updated_at(empty_element(path[0]), rest, u);
            lemma_updated_keeps_name(empty_element(path[0]), rest, u);
            lemma_first_index_push(e.sub_elements, c, path[0]);
            lemma_updated_at_reads_back(empty_element(path[0]), rest, u);
            if let LeafUpdateView::Append(a) = u {
                assert(element_at(e, path) is None);
                if rest.len() > 0 {
                    assert(empty_element(path[0]).sub_elements.len() == 0);
                    assert(sub_element(empty_element(path[0]), rest[0]) is None);
                    assert(element_at(empty_element(path[0]), rest) is None);
                } else {
                    assert(element_at(empty_element(path[0]), rest) == Some(empty_element(path[0])));
                    assert(Seq::<ElementView>::empty().push(a) =~= seq![a]);
                }
            }
        }
    }
}

/// Law: an update along `path` leaves the sub elements of every other name as they were.
pub proof fn lemma_updated_at_frame(
    e: ElementView,
    path: Seq<ElementName>,
    u: LeafUpdateView,
    other: ElementName,
)
    requires
        path.len() > 0,
        path[0] != other,
    ensures
        sub_element(updated_at(e, path, u), other) == sub_element(e, other),
{
    let i = first_index(e.sub_elements, path[0]);
    let rest = path.subrange(1, path.len() as int);
    lemma_first_index(e.sub_elements, path[0]);
    lemma_first_index(e.sub_elements, other);
    if i >= 0 {
        let c = updated_at(e.sub_elements[i], rest, u);
        lemma_updated_keeps_name(e.sub_elements[i], rest, u);
        lemma_first_index_update(e.sub_elements, i, c, other);
        let o = first_index(e.sub_elements, other);
        if o >= 0 {
            assert(o != i);
        }
    } else {
        let c = updated_at(empty_element(path[0]), rest, u);
        lemma_updated_keeps_name(empty_element(path[0]), rest, u);
        lemma_first_index_push(e.sub_elements, c, other);
    }
}

/// following a path of one name is looking up the first sub element of that name
pub proof fn lemma_element_at_one(e: ElementView, name: ElementName)
    ensures
        element_at(e, seq![name]) == sub_element(e, name),
{
    let p = seq![name];
    assert(p.subrange(1, 1) =~= Seq::<ElementName>::empty());
    assert(p[0] == name);
    if let Some(c) = sub_element(e, name) {
        assert(element_at(c, p.subrange(1, 1)) == Some(c));
    }
}

/// Law: removing the first sub element of one name leaves the sub elements of every
/// other name as they were.
pub proof fn lemma_without_frame(e: ElementView, name: ElementName, other: ElementName)
    requires
        name != other,
    ensures
        sub_element(without_sub_element(e, name), other) == sub_element(e, other),
{
    let s = e.sub_elements;
    lemma_first_index(s, name);
    lemma_first_index(s, other);
    let f = first_index(s, name);
    let g = first_index(s, other);
    if f >= 0 {
        let t = s.remove(f);
        if g >= 0 {
            assert(g != f);
            let h = if g < f { g } else { g - 1 };
            assert(t[h] == s[g]);
            assert forall|j: int| 0 <= j < t.len() && j < h implies #[trigger] t[j].name != other by {
                if j < f {
                    assert(t[j] == s[j]);
                } else {
                    assert(t[j] == s[j + 1]);
                }
            }
            lemma_first_index_is(t, other, h);
        } else {
            assert forall|j: int| 0 <= j < t.len() implies #[trigger] t[j].name != other by {
                if j < f {
                    assert(t[j] == s[j]);
                } else {
                    assert(t[j] == s[j + 1]);
                }
            }
            lemma_first_index_is(t, other, -1);
        }
    }
}

/// removing a sub element keeps every name that occurred at most once so
pub proof fn lemma_without_keeps_at_most_one(e: ElementView, name: ElementName, n: ElementName)
    requires
        at_most_one(e.sub_elements, n),
    ensures
        at_most_one(without_sub_element(e, name).sub_elements, n),
{
    let s = e.sub_elements;
    lemma_first_index(s, name);
    let f = first_index(s, name);
    if f >= 0 {
        let t = s.remove(f);
        assert forall|a: int, b: int|
            0 <= a < t.len() && 0 <= b < t.len() && #[trigger] t[a].name == n && #[trigger] t[b].name == n implies a == b by {
            let a2 = if a < f { a } else { a + 1 };
            let b2 = if b < f { b } else { b + 1 };
            assert(t[a] == s[a2]);
            assert(t[b] == s[b2]);
            assert(s[a2].name == n && s[b2].name == n);
        }
    }
}

/// an update along a path of one name keeps every name that occurred at most once so
pub proof fn lemma_update_keeps_at_most_one(e: ElementView, name: ElementName, u: LeafUpdateView, n: ElementName)
    requires
        at_most_one(e.sub_elements, n),
    ensures
        at_most_one(updated_at(e, seq![name], u).sub_elements, n),
{
    lemma_updated_at_keeps_at_most_one(e, seq![name], u, n);
}

/// an update along a path keeps every name that occurred at most once among the sub
/// elements so
pub proof fn lemma_updated_at_keeps_at_most_one(e: ElementView, p: Seq<ElementName>, u: LeafUpdateView, n: ElementName)
    requires
        p.len() > 0,
        at_most_one(e.sub_elements, n),
    ensures
        at_most_one(updated_at(e, p, u).sub_elements, n),
{
    let name = p[0];
    let rest = p.subrange(1, p.len() as int);
    let s = e.sub_elements;
    lemma_first_index(s, name);
    let i = first_index(s, name);
    if i >= 0 {
        let c = updated_at(s[i], rest, u);
        lemma_updated_keeps_name(s[i], rest, u);
        let t = s.update(i, c);
        assert(updated_at(e, p, u).sub_elements == t);
        assert forall|a: int, b: int|
            0 <= a < t.len() && 0 <= b < t.len() && #[trigger] t[a].name == n && #[trigger] t[b].name == n implies a == b by {
            assert(t[a].name == s[a].name);
            assert(t[b].name == s[b].name);
        }
    } else {
        let c = updated_at(empty_element(name), rest, u);
        lemma_updated_keeps_name(empty_element(name), rest, u);
        let t = s.push(c);
        assert(updated_at(e, p, u).sub_elements == t);
        assert forall|a: int, b: int|
            0 <= a < t.len() && 0 <= b < t.len() && #[trigger] t[a].name == n && #[trigger] t[b].name == n implies a == b by {
            if a < s.len() {
                assert(t[a] == s[a]);
            }
            if b < s.len() {
                assert(t[b] == s[b]);
            }
            if a < s.len() && b < s.len() {
                assert(s[a].name == n && s[b].name == n);
            }
        }
    }
}

/// Law: an update along `path` leaves every element reached by a path `other` that
/// leaves `path` at position `k` as it was.
pub proof fn lemma_updated_at_frame_deep(
    e: ElementView,
    path: Seq<ElementName>,
    u: LeafUpdateView,
    other: Seq<ElementName>,
    k: int,
)
    requires
        0 <= k < path.len(),
        k < other.len(),
        path[k] != other[k],
        forall|j: int| 0 <= j < k ==> path[j] == other[j],
    ensures
        element_at(updated_at(e, path, u), other) == element_at(e, other),
    decreases k,
{
    let x = updated_at(e, path, u);
    let rest_o = other.subrange(1, other.len() as int);
    if k == 0 {
        lemma_updated_at_frame(e, path, u, other[0]);
    } else {
        assert(path[0] == other[0]);
        let name = path[0];
        let rest_p = path.subrange(1, path.len() as int);
        lemma_first_index(e.sub_elements, name);
        let i = first_index(e.sub_elements, name);
        assert forall|j: int| 0 <= j < k - 1 implies rest_p[j] == rest_o[j] by {
            assert(rest_p[j] == path[j + 1]);
            assert(rest_o[j] == other[j + 1]);
        }
        if i >= 0 {
            let c = updated_at(e.sub_elements[i], rest_p, u);
            lemma_updated_keeps_name(e.sub_elements[i], rest_p, u);
            lemma_first_index_update(e.sub_elements, i, c, name);
            assert(sub_element(x, name) == Some(c));
            lemma_updated_at_frame_deep(e.sub_elements[i], rest_p, u, rest_o, k - 1);
        } else {
            let c = updated_at(empty_element(name), rest_p, u);
            lemma_updated_keeps_name(empty_element(name), rest_p, u);
            lemma_first_index_push(e.sub_elements, c, name);
            assert(sub_element(x, name) == Some(c));
            lemma_updated_at_frame_deep(empty_element(name), rest_p, u, rest_o, k - 1);
            assert(empty_element(name).sub_elements.len() == 0);
            assert(sub_element(empty_element(name), rest_o[0]) is None);
        }
    }
}

pub proof fn lemma_elements_view_update(s: Seq<Element>, i: int, x: Element)
    requires
        0 <= i < s.len(),
    ensures
        elements_view(s.update(i, x)) == elements_view(s).update(i, x@),
{
    lemma_elements_view(s);
    lemma_elements_view(s.update(i, x));
    assert(elements_view(s.update(i, x)) =~= elements_view(s).update(i, x@));
}

pub proof fn lemma_elements_view_remove(s: Seq<Element>, i: int)
    requires
        0 <= i < s.len(),
    ensures
        elements_view(s.remove(i)) == elements_view(s).remove(i),
{
    lemma_elements_view(s);
    lemma_elements_view(s.remove(i));
    assert(elements_view(s.remove(i)) =~= elements_view(s).remove(i));
}

impl Element {
    /// follow `path` from position `depth` on, creating missing elements as
    /// `get_or_create_sub_element` does, and apply `update` to the element at its end
    pub fn update_at(&mut self, path: &Vec<ElementName>, depth: usize, update: LeafUpdate)
        requires
            depth <= path@.len(),
        ensures
            final(self)@ == updated_at(old(self)@, path@.subrange(depth as int, path@.len() as int), update@),
        decreases path@.len() - depth,
    {
        let ghost rest = path@.subrange(depth as int, path@.len() as int);
        if depth == path.len() {
            match update {
                LeafUpdate::Data(cd) => {
                    self.set_character_data(cd);
                },
                LeafUpdate::Reference(t) => {
                    self.set_reference_target(&t);
                },
                LeafUpdate::Append(c) => {
                    self.push_sub_element(c);
                },
                LeafUpdate::Content(c) => {
                    let mut subs: Vec<Element> = Vec::new();
                    let ghost cv = c@;
                    subs.push(c);
                    proof {
                        lemma_elements_view(subs@);
                        assert(elements_view(subs@) =~= seq![cv]);
                    }
                    self.sub_elements = subs;
                },
            }
        } else {
            let name = path[depth];
            assert(rest[0] == name);
            assert(rest.subrange(1, rest.len() as int) =~= path@.subrange(
                depth + 1,
                path@.len() as int,
            ));
            proof {
                lemma_elements_view(self.sub_elements@);
                lemma_first_index(self@.sub_elements, name);
            }
            match self.find_sub_element(name) {
                Some(i) => {
                    let ghost before = self.sub_elements@;
                    let mut child = self.sub_elements.remove(i);
                    assert(child == before[i as int]);
                    child.update_at(path, depth + 1, update);
                    self.sub_elements.insert(i, child);
                    proof {
                        assert(self.sub_elements@ =~= before.update(i as int, child));
                        lemma_elements_view_update(before, i as int, child);
                    }
                },
                None => {
                    let mut child = Element::new(name);
                    child.update_at(path, depth + 1, update);
                    self.push_sub_element(child);
                },
            }
        }
    }

    /// remove the first sub element with the given name; false if there is none
    pub fn remove_sub_element_kind(&mut self, name: ElementName) -> (r: bool)
        ensures
            final(self)@ == without_sub_element(old(self)@, name),
            r == (first_index(old(self)@.sub_elements, name) >= 0),
    {
        proof {
            lemma_elements_view(self.sub_elements@);
            lemma_first_index(self@.sub_elements, name);
        }
        match self.find_sub_element(name) {
            Some(i) => {
                let ghost before = self.sub_elements@;
                let _removed = self.sub_elements.remove(i);
                proof {
                    lemma_elements_view_remove(before, i as int);
                }
                true
            },
            None => false,
        }
    }
}

impl Element {
    /// the element reached by following `path` from position `depth` on
    pub fn get_at(&self, path: &Vec<ElementName>, depth: usize) -> (r: Option<&Element>)
        requires
            depth <= path@.len(),
        ensures
            match r {
                Some(x) => element_at(self@, path@.subrange(depth as int, path@.len() as int)) == Some(x@),
                None => element_at(self@, path@.subrange(depth as int, path@.len() as int)) is None,
            },
        decreases path@.len() - depth,
    {
        let ghost rest = path@.subrange(depth as int, path@.len() as int);
        if depth == path.len() {
            assert(rest.len() == 0);
            Some(self)
        } else {
            let name = path[depth];
            assert(rest[0] == name);
            assert(rest.subrange(1, rest.len() as int) =~= path@.subrange(depth + 1, path@.len() as int));
            match self.get_sub_element(name) {
                Some(c) => c.get_at(path, depth + 1),
                None => None,
            }
        }
    }
}

/// The path of an identifiable element and the element itself.
pub struct IdentifiedView {
    pub path: Seq<char>,
    pub element: ElementView,
}

} // verus!
