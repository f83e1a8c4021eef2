//! Signals of the communication layer: signals, system signals, their groups, the
//! triggerings of signals on a channel and the ports through which ECUs use them.
//!
//! Each type owns its element and knows its path. References to other elements are
//! [`ElementRef`]s; what a reference resolves to is recorded in the referring element.

use vstd::prelude::*;
use crate::element::{
    CharacterData, CharacterDataView, Element, ElementName, ElementRef, ElementRefView,
    ElementView, EnumItem, IdentifiedView, item_text, LeafUpdate, LeafUpdateView, at_most_one, element_at,
    lemma_element_at_one, lemma_elements_view, lemma_find_absent, lemma_first_index,
    lemma_updated_at_frame, lemma_updated_at_frame_deep, lemma_updated_at_reads_back, lemma_updated_keeps_name,
    lemma_without_leaves_none, sub_element, updated_at, without_sub_element,
};
use crate::chardata::spec_enum_value;
use crate::encoding::{data_of, fit_value, integer_of, leaf, lemma_value_stored, load_value, node, ref_leaf, store_value, target_of, text_of};
use crate::error::AutosarAbstractionError;
use vstd::string::StringExecFns;
use crate::text::{concat, decimal, decimal_text, is_first_free_name, texts, unique_name};
use crate::values::{SchemaSupport, Unit, ValueSpecification, ValueSpecificationView, opt_str_view, opt_unit_view};

verus! {

//#########################################################
// reading and writing references

/// the path of the element of kind `kind` that the reference at `path` inside `e`
/// resolves to
pub open spec fn reference_at(e: ElementView, path: Seq<ElementName>, kind: ElementName) -> Option<Seq<char>> {
    match target_of(element_at(e, path)) {
        Some((k, p)) => if k == kind {
            Some(p)
        } else {
            None
        },
        None => None,
    }
}

/// `e` after the reference at `path` was made to refer to `target`, creating what is missing
pub open spec fn with_reference(e: ElementView, path: Seq<ElementName>, target: ElementRefView) -> ElementView {
    updated_at(e, path, LeafUpdateView::Reference(target))
}

/// `e` after `child` was appended to the element at `path`, creating what is missing
pub open spec fn with_appended(e: ElementView, path: Seq<ElementName>, child: ElementView) -> ElementView {
    updated_at(e, path, LeafUpdateView::Append(child))
}

/// the path of an optional reference
pub open spec fn opt_ref_path(r: Option<ElementRef>) -> Option<Seq<char>> {
    match r {
        Some(t) => Some(t@.path),
        None => None,
    }
}

/// the paths of a sequence of references
pub open spec fn ref_paths(s: Seq<ElementRef>) -> Seq<Seq<char>> {
    s.map_values(|r: ElementRef| r@.path)
}

/// the target of a list entry: the entry itself is the reference, or its sub element `via` is
pub open spec fn entry_target(c: ElementView, via: Option<ElementName>) -> Option<(ElementName, Seq<char>)> {
    match via {
        Some(n) => target_of(sub_element(c, n)),
        None => target_of(Some(c)),
    }
}

/// the paths of the elements of kind `kind` that the entries of `s` refer to, in order
pub open spec fn targets_of_kind(s: Seq<ElementView>, via: Option<ElementName>, kind: ElementName) -> Seq<Seq<char>>
    decreases s.len(),
{
    if s.len() == 0 {
        Seq::empty()
    } else {
        let before = targets_of_kind(s.drop_last(), via, kind);
        match entry_target(s.last(), via) {
            Some((k, p)) => if k == kind {
                before.push(p)
            } else {
                before
            },
            None => before,
        }
    }
}

/// the paths of the elements of kind `kind` that the entries of the list `container`
/// inside `e` refer to
pub open spec fn listed_targets(e: ElementView, container: ElementName, via: Option<ElementName>, kind: ElementName) -> Seq<Seq<char>> {
    match sub_element(e, container) {
        Some(c) => targets_of_kind(c.sub_elements, via, kind),
        None => Seq::empty(),
    }
}

/// an entry of a list that refers to `target`: the reference `ref_name`, wrapped in an
/// element `wrapper` if there is one
pub open spec fn reference_entry(wrapper: Option<ElementName>, ref_name: ElementName, target: ElementRefView) -> ElementView {
    match wrapper {
        Some(w) => node(w, seq![ref_leaf(ref_name, target.kind, target.path)]),
        None => ref_leaf(ref_name, target.kind, target.path),
    }
}

/// the text of the SHORT-NAME of `e`
pub open spec fn short_name_of(e: ElementView) -> Option<Seq<char>> {
    text_of(sub_element(e, ElementName::ShortName))
}

/// a new identifiable element: its name and nothing else
pub open spec fn identifiable_element(kind: ElementName, name: Seq<char>) -> ElementView {
    node(kind, seq![leaf(ElementName::ShortName, CharacterDataView::String(name))])
}

/// the path of the element named `name` inside the element at `parent_path`
pub open spec fn child_path(parent_path: Seq<char>, name: Seq<char>) -> Seq<char> {
    parent_path + "/"@ + name
}

/// the path of the properties reference `last` below the props element `first`
pub open spec fn props_path(first: ElementName, last: ElementName) -> Seq<ElementName> {
    seq![first, ElementName::SwDataDefPropsVariants, ElementName::SwDataDefPropsConditional, last]
}

fn props_path_vec(first: ElementName, last: ElementName) -> (r: Vec<ElementName>)
    ensures
        r@ == props_path(first, last),
{
    let r = vec![first, ElementName::SwDataDefPropsVariants, ElementName::SwDataDefPropsConditional, last];
    assert(r@ =~= props_path(first, last));
    r
}

fn one_name_path(name: ElementName) -> (r: Vec<ElementName>)
    ensures
        r@ == seq![name],
{
    let r = vec![name];
    assert(r@ =~= seq![name]);
    r
}

proof fn lemma_whole_path(path: Seq<ElementName>)
    ensures
        path.subrange(0, path.len() as int) == path,
{
    assert(path.subrange(0, path.len() as int) =~= path);
}

/// Law: a reference that was set resolves to what it was set to.
pub proof fn lemma_reference_reads_back(e: ElementView, path: Seq<ElementName>, target: ElementRefView)
    ensures
        reference_at(with_reference(e, path, target), path, target.kind) == Some(target.path),
{
    lemma_updated_at_reads_back(e, path, LeafUpdateView::Reference(target));
}

/// Law: an update along `path` leaves every reference whose path leaves `path` at
/// position `k` as it was.
pub proof fn lemma_reference_frame(
    e: ElementView,
    path: Seq<ElementName>,
    u: LeafUpdateView,
    other: Seq<ElementName>,
    kind: ElementName,
    k: int,
)
    requires
        0 <= k < path.len(),
        k < other.len(),
        path[k] != other[k],
        forall|j: int| 0 <= j < k ==> path[j] == other[j],
    ensures
        reference_at(updated_at(e, path, u), other, kind) == reference_at(e, other, kind),
{
    lemma_updated_at_frame_deep(e, path, u, other, k);
}

/// Law: an entry appended to a list is listed last, after the entries that were there.
pub proof fn lemma_appended_entry_listed(
    e: ElementView,
    container: ElementName,
    wrapper: Option<ElementName>,
    ref_name: ElementName,
    target: ElementRefView,
)
    ensures
        listed_targets(
            with_appended(e, seq![container], reference_entry(wrapper, ref_name, target)),
            container,
            if wrapper is Some { Some(ref_name) } else { None },
            target.kind,
        ) == listed_targets(e, container, if wrapper is Some { Some(ref_name) } else { None }, target.kind).push(
            target.path,
        ),
{
    let entry = reference_entry(wrapper, ref_name, target);
    let via = if wrapper is Some { Some(ref_name) } else { None };
    let u = LeafUpdateView::Append(entry);
    lemma_updated_at_reads_back(e, seq![container], u);
    lemma_element_at_one(e, container);
    lemma_element_at_one(updated_at(e, seq![container], u), container);
    let x = sub_element(updated_at(e, seq![container], u), container)->0;
    let old_entries = match sub_element(e, container) {
        Some(y) => y.sub_elements,
        None => Seq::<ElementView>::empty(),
    };
    assert(x.sub_elements =~= old_entries.push(entry));
    assert(x.sub_elements.drop_last() =~= old_entries);
    if let Some(w) = wrapper {
        let s = seq![ref_leaf(ref_name, target.kind, target.path)];
        lemma_first_index(s, ref_name);
        assert(s[0].name == ref_name);
        assert(sub_element(entry, ref_name) == Some(s[0]));
    }
    assert(entry_target(x.sub_elements.last(), via) == Some((target.kind, target.path)));
    assert(targets_of_kind(x.sub_elements, via, target.kind) == targets_of_kind(old_entries, via, target.kind).push(target.path));
    assert(listed_targets(e, container, via, target.kind) == targets_of_kind(old_entries, via, target.kind));
    assert(listed_targets(updated_at(e, seq![container], u), container, via, target.kind) == targets_of_kind(x.sub_elements, via, target.kind));
}

/// Law: the entries listed are not changed by an update below another sub element.
pub proof fn lemma_listed_frame(
    e: ElementView,
    path: Seq<ElementName>,
    u: LeafUpdateView,
    container: ElementName,
    via: Option<ElementName>,
    kind: ElementName,
)
    requires
        path.len() > 0,
        path[0] != container,
    ensures
        listed_targets(updated_at(e, path, u), container, via, kind) == listed_targets(e, container, via, kind),
{
    lemma_updated_at_frame(e, path, u, container);
}

fn reference_in(e: &Element, path: &Vec<ElementName>, kind: ElementName) -> (r: Option<ElementRef>)
    ensures
        opt_ref_path(r) == reference_at(e@, path@, kind),
        r matches Some(t) ==> t@.kind == kind,
{
    proof {
        lemma_whole_path(path@);
    }
    let x = e.get_at(path, 0)?;
    let t = x.get_reference_target()?;
    if t.kind == kind {
        Some(t)
    } else {
        None
    }
}

fn set_reference_in(e: &mut Element, path: &Vec<ElementName>, target: &ElementRef)
    ensures
        final(e)@ == with_reference(old(e)@, path@, target@),
        final(e)@.name == old(e)@.name,
{
    proof {
        lemma_whole_path(path@);
        lemma_updated_keeps_name(old(e)@, path@, LeafUpdateView::Reference(target@));
    }
    e.update_at(path, 0, LeafUpdate::Reference(target.clone_ref()));
}

fn append_reference_in(e: &mut Element, container: ElementName, wrapper: Option<ElementName>, ref_name: ElementName, target: &ElementRef)
    ensures
        final(e)@ == with_appended(old(e)@, seq![container], reference_entry(wrapper, ref_name, target@)),
        final(e)@.name == old(e)@.name,
{
    let mut r = Element::new(ref_name);
    r.set_reference_target(target);
    let entry = match wrapper {
        Some(w) => {
            let mut x = Element::new(w);
            x.push_sub_element(r);
            assert(x@.sub_elements =~= seq![ref_leaf(ref_name, target@.kind, target@.path)]);
            x
        },
        None => r,
    };
    assert(entry@ == reference_entry(wrapper, ref_name, target@));
    let path = one_name_path(container);
    proof {
        lemma_whole_path(path@);
        lemma_updated_keeps_name(old(e)@, path@, LeafUpdateView::Append(entry@));
    }
    e.update_at(&path, 0, LeafUpdate::Append(entry));
}

fn targets_in(e: &Element, container: ElementName, via: Option<ElementName>, kind: ElementName) -> (r: Vec<ElementRef>)
    ensures
        ref_paths(r@) == listed_targets(e@, container, via, kind),
        forall|i: int| 0 <= i < r@.len() ==> (#[trigger] r@[i])@.kind == kind,
{
    let mut r: Vec<ElementRef> = Vec::new();
    match e.get_sub_element(container) {
        None => {
            assert(ref_paths(r@) =~= Seq::<Seq<char>>::empty());
            r
        },
        Some(c) => {
            let n = c.sub_elements.len();
            proof {
                lemma_elements_view(c.sub_elements@);
            }
            let mut i: usize = 0;
            assert(c@.sub_elements.subrange(0, 0) =~= Seq::<ElementView>::empty());
            assert(ref_paths(r@) =~= Seq::<Seq<char>>::empty());
            while i < n
                invariant
                    n == c@.sub_elements.len(),
                    i <= n,
                    ref_paths(r@) == targets_of_kind(c@.sub_elements.subrange(0, i as int), via, kind),
                    forall|j: int| 0 <= j < r@.len() ==> (#[trigger] r@[j])@.kind == kind,
                decreases n - i,
            {
                let entry = c.get_sub_element_at(i).unwrap();
                let t = match via {
                    Some(v) => match entry.get_sub_element(v) {
                        Some(x) => x.get_reference_target(),
                        None => None,
                    },
                    None => entry.get_reference_target(),
                };
                let ghost before = r@;
                if let Some(t) = t {
                    if t.kind == kind {
                        r.push(t);
                        assert(ref_paths(r@) =~= ref_paths(before).push(r@[r@.len() - 1]@.path));
                    }
                }
                proof {
                    let s = c@.sub_elements.subrange(0, i + 1);
                    assert(s.drop_last() =~= c@.sub_elements.subrange(0, i as int));
                    assert(s.last() == entry@);
                }
                i = i + 1;
            }
            assert(c@.sub_elements.subrange(0, n as int) =~= c@.sub_elements);
            r
        },
    }
}

fn short_name_in(e: &Element) -> (r: Option<String>)
    ensures
        opt_str_view(r) == short_name_of(e@),
{
    e.get_sub_element(ElementName::ShortName)?.character_data()?.string_value()
}

fn new_identifiable(kind: ElementName, name: &str, parent_path: &str) -> (r: (String, Element))
    ensures
        r.0@ == child_path(parent_path@, name@),
        r.1@ == identifiable_element(kind, name@),
{
    let path = concat(&concat(parent_path, "/"), name);
    let mut e = Element::new(kind);
    let mut n = Element::new(ElementName::ShortName);
    n.set_character_data(CharacterData::String(name.to_owned()));
    e.push_sub_element(n);
    assert(e@.sub_elements =~= seq![leaf(ElementName::ShortName, CharacterDataView::String(name@))]);
    (path, e)
}

proof fn lemma_identifiable_name(kind: ElementName, name: Seq<char>)
    ensures
        short_name_of(identifiable_element(kind, name)) == Some(name),
{
    let s = identifiable_element(kind, name).sub_elements;
    lemma_first_index(s, ElementName::ShortName);
    assert(s[0].name == ElementName::ShortName);
}

//#########################################################
// removal of dependent items

/// How an item is removed: by the removal of its own kind, which takes along what that
/// leaves unused in turn, or as a plain element.
#[derive(Debug, Clone, Copy, PartialEq, Eq, Structural)]
pub enum RemovalKind {
    Signal,
    SystemSignal,
    SignalGroup,
    Triggering,
    Element,
}

/// how an element of the given kind is removed
pub open spec fn removal_kind_of(kind: ElementName) -> RemovalKind {
    match kind {
        ElementName::ISignal => RemovalKind::Signal,
        ElementName::SystemSignal => RemovalKind::SystemSignal,
        ElementName::ISignalGroup => RemovalKind::SignalGroup,
        ElementName::ISignalTriggering => RemovalKind::Triggering,
        _ => RemovalKind::Element,
    }
}

/// How an element of the given kind is removed.
pub fn removal_kind(kind: ElementName) -> (r: RemovalKind)
    ensures
        r == removal_kind_of(kind),
{
    match kind {
        ElementName::ISignal => RemovalKind::Signal,
        ElementName::SystemSignal => RemovalKind::SystemSignal,
        ElementName::ISignalGroup => RemovalKind::SignalGroup,
        ElementName::ISignalTriggering => RemovalKind::Triggering,
        _ => RemovalKind::Element,
    }
}

/// An element to remove, and how.
#[derive(Debug, PartialEq, Eq)]
pub struct Removal {
    pub item: ElementRef,
    pub how: RemovalKind,
}

/// the views of a sequence of removals
pub open spec fn removal_views(s: Seq<Removal>) -> Seq<(ElementRefView, RemovalKind)> {
    s.map_values(|x: Removal| (x.item@, x.how))
}

/// What the caller found of an item that a deep removal may take along, once the removed
/// item is gone: the signals left in it (for a signal group) and the references that keep
/// it (for anything else; for the signals of a group or the signal of a triggering, the
/// references besides the lists of elements of the systems).
#[derive(Debug)]
pub struct UsageFacts {
    pub item: ElementRef,
    pub signal_count: usize,
    pub referrer_count: usize,
}

/// whether an item is still used: a signal group while it has signals, anything else while
/// something refers to it
pub open spec fn is_still_used(kind: ElementName, signal_count: nat, referrer_count: nat) -> bool {
    if kind == ElementName::ISignalGroup {
        signal_count > 0
    } else {
        referrer_count > 0
    }
}

/// Whether an item is still used: a signal group while it has signals, anything else while
/// something refers to it.
pub fn still_used(kind: ElementName, signal_count: usize, referrer_count: usize) -> (r: bool)
    ensures
        r == is_still_used(kind, signal_count as nat, referrer_count as nat),
{
    if kind == ElementName::ISignalGroup {
        signal_count > 0
    } else {
        referrer_count > 0
    }
}

/// the items that a removal takes along: with `deep`, those that are no longer used, each
/// removed as its kind is, in their order; without `deep`, none
pub open spec fn dependent_removals_of(deep: bool, facts: Seq<UsageFacts>) -> Seq<(ElementRefView, RemovalKind)>
    decreases facts.len(),
{
    if !deep || facts.len() == 0 {
        Seq::empty()
    } else {
        let before = dependent_removals_of(deep, facts.drop_last());
        let f = facts.last();
        if is_still_used(f.item@.kind, f.signal_count as nat, f.referrer_count as nat) {
            before
        } else {
            before.push((f.item@, removal_kind_of(f.item@.kind)))
        }
    }
}

/// The items that a removal takes along: with `deep`, each one that is no longer used,
/// removed as its kind is; without `deep`, none.
pub fn dependent_removals(deep: bool, facts: &Vec<UsageFacts>) -> (r: Vec<Removal>)
    ensures
        removal_views(r@) == dependent_removals_of(deep, facts@),
{
    let mut r: Vec<Removal> = Vec::new();
    if !deep {
        assert(removal_views(r@) =~= Seq::<(ElementRefView, RemovalKind)>::empty());
        return r;
    }
    let mut i: usize = 0;
    assert(facts@.subrange(0, 0) =~= Seq::<UsageFacts>::empty());
    assert(removal_views(r@) =~= Seq::<(ElementRefView, RemovalKind)>::empty());
    while i < facts.len()
        invariant
            deep,
            i <= facts@.len(),
            removal_views(r@) == dependent_removals_of(deep, facts@.subrange(0, i as int)),
        decreases facts@.len() - i,
    {
        let ghost before = r@;
        let f = &facts[i];
        if !still_used(f.item.kind, f.signal_count, f.referrer_count) {
            r.push(Removal { item: f.item.clone_ref(), how: removal_kind(f.item.kind) });
            assert(removal_views(r@) =~= removal_views(before).push(
                (facts@[i as int].item@, removal_kind_of(facts@[i as int].item@.kind)),
            ));
        }
        proof {
            let t = facts@.subrange(0, i + 1);
            assert(t.drop_last() =~= facts@.subrange(0, i as int));
            assert(t.last() == facts@[i as int]);
        }
        i = i + 1;
    }
    assert(facts@.subrange(0, facts@.len() as int) =~= facts@);
    r
}

/// whether the item described by `f` is no longer used
pub open spec fn unused(f: UsageFacts) -> bool {
    !is_still_used(f.item@.kind, f.signal_count as nat, f.referrer_count as nat)
}

/// the item described by `f`, to be removed as its kind is
pub open spec fn taken(f: UsageFacts) -> (ElementRefView, RemovalKind) {
    (f.item@, removal_kind_of(f.item@.kind))
}

/// A deep removal takes along exactly the items that are no longer used (a signal group
/// that has no signals left, anything else that nothing refers to), each removed as its
/// kind is; a removal that is not deep takes along none of them.
pub proof fn lemma_takes_exactly_unused(deep: bool, facts: Seq<UsageFacts>)
    ensures
        !deep ==> dependent_removals_of(deep, facts).len() == 0,
        deep ==> forall|i: int|
            0 <= i < facts.len() && unused(#[trigger] facts[i]) ==> dependent_removals_of(deep, facts).contains(
                taken(facts[i]),
            ),
        forall|x: (ElementRefView, RemovalKind)|
            #[trigger] dependent_removals_of(deep, facts).contains(x) ==> exists|i: int|
                0 <= i < facts.len() && unused(#[trigger] facts[i]) && x == taken(facts[i]),
    decreases facts.len(),
{
    if deep && facts.len() > 0 {
        let init = facts.drop_last();
        lemma_takes_exactly_unused(deep, init);
        let before = dependent_removals_of(deep, init);
        let all = dependent_removals_of(deep, facts);
        assert forall|i: int| 0 <= i < facts.len() && unused(#[trigger] facts[i]) implies all.contains(taken(facts[i])) by {
            if i < facts.len() - 1 {
                assert(init[i] == facts[i]);
                let j = choose|j: int| 0 <= j < before.len() && before[j] == taken(init[i]);
                assert(all[j] == before[j]);
            } else {
                assert(all[all.len() - 1] == taken(facts[i]));
            }
        }
        assert forall|x: (ElementRefView, RemovalKind)| #[trigger] all.contains(x) implies exists|i: int|
            0 <= i < facts.len() && unused(#[trigger] facts[i]) && x == taken(facts[i]) by {
            let j = choose|j: int| 0 <= j < all.len() && all[j] == x;
            if j < before.len() {
                assert(before.contains(x));
                let i = choose|i: int| 0 <= i < init.len() && unused(#[trigger] init[i]) && x == taken(init[i]);
                assert(facts[i] == init[i]);
            } else {
                assert(facts[facts.len() - 1] == facts.last());
            }
        }
    }
}

/// the references of `items` to elements of kind `kind`, in order
pub open spec fn of_kind(items: Seq<ElementRefView>, kind: ElementName) -> Seq<ElementRefView> {
    items.filter(|t: ElementRefView| t.kind == kind)
}

/// The references among `items` to elements of kind `kind`, in their order. Used on the
/// named parents of the references to an element, to find those of one kind.
pub fn refs_of_kind(items: &Vec<ElementRef>, kind: ElementName) -> (r: Vec<ElementRef>)
    ensures
        r@.map_values(|t: ElementRef| t@) == of_kind(items@.map_values(|t: ElementRef| t@), kind),
{
    let ghost all = items@.map_values(|t: ElementRef| t@);
    let mut r: Vec<ElementRef> = Vec::new();
    let mut i: usize = 0;
    assert(all.subrange(0, 0) =~= Seq::<ElementRefView>::empty());
    assert(r@.map_values(|t: ElementRef| t@) =~= Seq::<ElementRefView>::empty());
    while i < items.len()
        invariant
            i <= items@.len(),
            all == items@.map_values(|t: ElementRef| t@),
            r@.map_values(|t: ElementRef| t@) == of_kind(all.subrange(0, i as int), kind),
        decreases items@.len() - i,
    {
        let ghost before = r@;
        proof {
            let s = all.subrange(0, i + 1);
            assert(s.drop_last() =~= all.subrange(0, i as int));
            assert(s.last() == items@[i as int]@);
            s.filter_lemma(|t: ElementRefView| t.kind == kind);
            assert(of_kind(s, kind) == {
                let f = of_kind(s.drop_last(), kind);
                if s.last().kind == kind { f.push(s.last()) } else { f }
            }) by {
                reveal(Seq::filter);
            }
        }
        if items[i].kind == kind {
            r.push(items[i].clone_ref());
            assert(r@.map_values(|t: ElementRef| t@) =~= before.map_values(|t: ElementRef| t@).push(
                items@[i as int]@,
            ));
        }
        i = i + 1;
    }
    assert(all.subrange(0, items@.len() as int) =~= all);
    r
}

//#########################################################
// TransferProperty and CommunicationDirection

/// The `TransferProperty` defines if or how the signal influences the transfer of the PDU
#[derive(Debug, Clone, Copy, PartialEq, Eq, Hash, Structural)]
pub enum TransferProperty {
    /// The signal is pending; it does not trigger the transfer of the PDU
    Pending,
    /// The signal triggers the transfer of the PDU
    Triggered,
    /// The signal triggers the transfer of the PDU if the value changes
    TriggeredOnChange,
    /// The signal triggers the transfer of the PDU if the value changes without repetition
    TriggeredOnChangeWithoutRepetition,
    /// The signal triggers the transfer of the PDU without repetition
    TriggeredWithoutRepetition,
}

/// the enumeration item of a transfer property
pub open spec fn transfer_property_item(value: TransferProperty) -> EnumItem {
    match value {
        TransferProperty::Pending => EnumItem::Pending,
        TransferProperty::Triggered => EnumItem::Triggered,
        TransferProperty::TriggeredOnChange => EnumItem::TriggeredOnChange,
        TransferProperty::TriggeredOnChangeWithoutRepetition => EnumItem::TriggeredOnChangeWithoutRepetition,
        TransferProperty::TriggeredWithoutRepetition => EnumItem::TriggeredWithoutRepetition,
    }
}

/// the transfer property of an enumeration item, if it is one
pub open spec fn transfer_property_from_item(value: EnumItem) -> Option<TransferProperty> {
    match value {
        EnumItem::Pending => Some(TransferProperty::Pending),
        EnumItem::Triggered => Some(TransferProperty::Triggered),
        EnumItem::TriggeredOnChange => Some(TransferProperty::TriggeredOnChange),
        EnumItem::TriggeredOnChangeWithoutRepetition => Some(TransferProperty::TriggeredOnChangeWithoutRepetition),
        EnumItem::TriggeredWithoutRepetition => Some(TransferProperty::TriggeredWithoutRepetition),
        _ => None,
    }
}

impl From<TransferProperty> for EnumItem {
    fn from(value: TransferProperty) -> (r: EnumItem) {
        match value {
            TransferProperty::Pending => EnumItem::Pending,
            TransferProperty::Triggered => EnumItem::Triggered,
            TransferProperty::TriggeredOnChange => EnumItem::TriggeredOnChange,
            TransferProperty::TriggeredOnChangeWithoutRepetition => EnumItem::TriggeredOnChangeWithoutRepetition,
            TransferProperty::TriggeredWithoutRepetition => EnumItem::TriggeredWithoutRepetition,
        }
    }
}

impl vstd::std_specs::convert::FromSpecImpl<TransferProperty> for EnumItem {
    open spec fn obeys_from_spec() -> bool {
        true
    }

    open spec fn from_spec(value: TransferProperty) -> EnumItem {
        transfer_property_item(value)
    }
}

impl TransferProperty {
    /// the transfer property of an enumeration item
    pub fn try_from(value: EnumItem) -> (r: Result<TransferProperty, AutosarAbstractionError>)
        ensures
            match r {
                Ok(t) => transfer_property_from_item(value) == Some(t),
                Err(e) => transfer_property_from_item(value) is None && (e matches AutosarAbstractionError::ValueConversionError {
                    value: v,
                    dest: d,
                } && v@ == item_text(value) && d@ == "TransferProperty"@),
            },
    {
        match value {
            EnumItem::Pending => Ok(TransferProperty::Pending),
            EnumItem::Triggered => Ok(TransferProperty::Triggered),
            EnumItem::TriggeredOnChange => Ok(TransferProperty::TriggeredOnChange),
            EnumItem::TriggeredOnChangeWithoutRepetition => Ok(TransferProperty::TriggeredOnChangeWithoutRepetition),
            EnumItem::TriggeredWithoutRepetition => Ok(TransferProperty::TriggeredWithoutRepetition),
            _ => Err(AutosarAbstractionError::ValueConversionError {
                value: value.to_str().to_owned(),
                dest: "TransferProperty".to_owned(),
            }),
        }
    }
}

/// Law: a transfer property converts to an enumeration item and back to itself.
pub proof fn lemma_transfer_property_roundtrip(value: TransferProperty)
    ensures
        transfer_property_from_item(transfer_property_item(value)) == Some(value),
{
}

/// Law: an enumeration item that converts to a transfer property converts back to itself.
pub proof fn lemma_transfer_item_roundtrip(value: EnumItem)
    ensures
        transfer_property_from_item(value) matches Some(t) ==> transfer_property_item(t) == value,
{
}

/// The direction in which an ECU uses a signal through a port.
#[derive(Debug, Clone, Copy, PartialEq, Eq, Hash, Structural)]
pub enum CommunicationDirection {
    /// the ECU receives the signal
    In,
    /// the ECU sends the signal
    Out,
}

/// the enumeration item of a communication direction
pub open spec fn direction_item(d: CommunicationDirection) -> EnumItem {
    match d {
        CommunicationDirection::In => EnumItem::In,
        CommunicationDirection::Out => EnumItem::Out,
    }
}

/// the communication direction of an enumeration item, if it is one
pub open spec fn direction_from_item(e: EnumItem) -> Option<CommunicationDirection> {
    match e {
        EnumItem::In => Some(CommunicationDirection::In),
        EnumItem::Out => Some(CommunicationDirection::Out),
        _ => None,
    }
}

/// Law: a communication direction written as an enumeration item reads back as itself.
pub proof fn lemma_direction_roundtrip(d: CommunicationDirection)
    ensures
        direction_from_item(direction_item(d)) == Some(d),
{
}

impl CommunicationDirection {
    /// the enumeration item of this direction
    pub fn to_enum_item(self) -> (r: EnumItem)
        ensures
            r == direction_item(self),
    {
        match self {
            CommunicationDirection::In => EnumItem::In,
            CommunicationDirection::Out => EnumItem::Out,
        }
    }

    /// the direction of an enumeration item
    pub fn try_from(value: EnumItem) -> (r: Result<CommunicationDirection, AutosarAbstractionError>)
        ensures
            match r {
                Ok(d) => direction_from_item(value) == Some(d),
                Err(e) => direction_from_item(value) is None && (e matches AutosarAbstractionError::ValueConversionError {
                    value: v,
                    dest: d,
                } && v@ == item_text(value) && d@ == "CommunicationDirection"@),
            },
    {
        match value {
            EnumItem::In => Ok(CommunicationDirection::In),
            EnumItem::Out => Ok(CommunicationDirection::Out),
            _ => Err(AutosarAbstractionError::ValueConversionError {
                value: value.to_str().to_owned(),
                dest: "CommunicationDirection".to_owned(),
            }),
        }
    }
}

//#########################################################
// SystemSignal

/// The system signal represents the communication system's view of data exchanged
/// between SW components which reside on different ECUs.
pub struct SystemSignal {
    path: String,
    element: Element,
}

impl View for SystemSignal {
    type V = IdentifiedView;

    closed spec fn view(&self) -> IdentifiedView {
        IdentifiedView { path: self.path@, element: self.element@ }
    }
}

impl SystemSignal {
    #[verifier::type_invariant]
    spec fn is_system_signal(self) -> bool {
        self.element@.name == ElementName::SystemSignal
    }

    /// the system signal held by an element at the given path, if the element is one
    pub fn try_from(path: String, element: Element) -> (r: Result<SystemSignal, AutosarAbstractionError>)
        ensures
            match r {
                Ok(x) => element@.name == ElementName::SystemSignal && x@.path == path@ && x@.element == element@,
                Err(e) => element@.name != ElementName::SystemSignal && (e matches AutosarAbstractionError::ConversionError {
                    element: n,
                    dest: d,
                } && n == element@.name && d@ == "SystemSignal"@),
            },
    {
        if element.name == ElementName::SystemSignal {
            Ok(SystemSignal { path, element })
        } else {
            let n = element.name;
            Err(AutosarAbstractionError::ConversionError { element: n, dest: "SystemSignal".to_owned() })
        }
    }

    /// the element of this system signal
    pub fn element(&self) -> (r: &Element)
        ensures
            r@ == self@.element,
            r@.name == ElementName::SystemSignal,
    {
        proof {
            use_type_invariant(self);
        }
        &self.element
    }

    /// a reference to this system signal
    pub fn element_ref(&self) -> (r: ElementRef)
        ensures
            r@ == (ElementRefView { kind: ElementName::SystemSignal, path: self@.path }),
    {
        ElementRef { kind: ElementName::SystemSignal, path: self.path.clone() }
    }

    /// the name of this system signal
    pub fn name(&self) -> (r: Option<String>)
        ensures
            opt_str_view(r) == short_name_of(self@.element),
    {
        short_name_in(&self.element)
    }
}

//#########################################################
// SystemSignalGroup

/// A signal group refers to a set of signals that shall always be kept together. A signal
/// group is used to guarantee the atomic transfer of AUTOSAR composite data types.
pub struct SystemSignalGroup {
    path: String,
    element: Element,
}

impl View for SystemSignalGroup {
    type V = IdentifiedView;

    closed spec fn view(&self) -> IdentifiedView {
        IdentifiedView { path: self.path@, element: self.element@ }
    }
}

impl SystemSignalGroup {
    #[verifier::type_invariant]
    spec fn is_system_signal_group(self) -> bool {
        self.element@.name == ElementName::SystemSignalGroup
    }

    /// the system signal group held by an element at the given path, if the element is one
    pub fn try_from(path: String, element: Element) -> (r: Result<SystemSignalGroup, AutosarAbstractionError>)
        ensures
            match r {
                Ok(x) => element@.name == ElementName::SystemSignalGroup && x@.path == path@ && x@.element == element@,
                Err(e) => element@.name != ElementName::SystemSignalGroup && (e matches AutosarAbstractionError::ConversionError {
                    element: n,
                    dest: d,
                } && n == element@.name && d@ == "SystemSignalGroup"@),
            },
    {
        if element.name == ElementName::SystemSignalGroup {
            Ok(SystemSignalGroup { path, element })
        } else {
            let n = element.name;
            Err(AutosarAbstractionError::ConversionError { element: n, dest: "SystemSignalGroup".to_owned() })
        }
    }

    /// the element of this system signal group
    pub fn element(&self) -> (r: &Element)
        ensures
            r@ == self@.element,
            r@.name == ElementName::SystemSignalGroup,
    {
        proof {
            use_type_invariant(self);
        }
        &self.element
    }

    /// a reference to this system signal group
    pub fn element_ref(&self) -> (r: ElementRef)
        ensures
            r@ == (ElementRefView { kind: ElementName::SystemSignalGroup, path: self@.path }),
    {
        ElementRef { kind: ElementName::SystemSignalGroup, path: self.path.clone() }
    }

    /// the name of this system signal group
    pub fn name(&self) -> (r: Option<String>)
        ensures
            opt_str_view(r) == short_name_of(self@.element),
    {
        short_name_in(&self.element)
    }
}

//#########################################################
// ISignal

/// Signal of the Interaction Layer.
pub struct ISignal {
    path: String,
    element: Element,
}

impl View for ISignal {
    type V = IdentifiedView;

    closed spec fn view(&self) -> IdentifiedView {
        IdentifiedView { path: self.path@, element: self.element@ }
    }
}

impl ISignal {
    #[verifier::type_invariant]
    spec fn is_isignal(self) -> bool {
        self.element@.name == ElementName::ISignal
    }

    /// the signal held by an element at the given path, if the element is one
    pub fn try_from(path: String, element: Element) -> (r: Result<ISignal, AutosarAbstractionError>)
        ensures
            match r {
                Ok(x) => element@.name == ElementName::ISignal && x@.path == path@ && x@.element == element@,
                Err(e) => element@.name != ElementName::ISignal && (e matches AutosarAbstractionError::ConversionError {
                    element: n,
                    dest: d,
                } && n == element@.name && d@ == "ISignal"@),
            },
    {
        if element.name == ElementName::ISignal {
            Ok(ISignal { path, element })
        } else {
            let n = element.name;
            Err(AutosarAbstractionError::ConversionError { element: n, dest: "ISignal".to_owned() })
        }
    }

    /// the element of this signal
    pub fn element(&self) -> (r: &Element)
        ensures
            r@ == self@.element,
            r@.name == ElementName::ISignal,
    {
        proof {
            use_type_invariant(self);
        }
        &self.element
    }

    /// a reference to this signal
    pub fn element_ref(&self) -> (r: ElementRef)
        ensures
            r@ == (ElementRefView { kind: ElementName::ISignal, path: self@.path }),
    {
        ElementRef { kind: ElementName::ISignal, path: self.path.clone() }
    }

    /// the name of this signal
    pub fn name(&self) -> (r: Option<String>)
        ensures
            opt_str_view(r) == short_name_of(self@.element),
    {
        short_name_in(&self.element)
    }
}

//#########################################################
// ISignalGroup

/// An `ISignalGroup` groups signals that should always be kept together.
pub struct ISignalGroup {
    path: String,
    element: Element,
}

impl View for ISignalGroup {
    type V = IdentifiedView;

    closed spec fn view(&self) -> IdentifiedView {
        IdentifiedView { path: self.path@, element: self.element@ }
    }
}

impl ISignalGroup {
    #[verifier::type_invariant]
    spec fn is_isignal_group(self) -> bool {
        self.element@.name == ElementName::ISignalGroup
    }

    /// the signal group held by an element at the given path, if the element is one
    pub fn try_from(path: String, element: Element) -> (r: Result<ISignalGroup, AutosarAbstractionError>)
        ensures
            match r {
                Ok(x) => element@.name == ElementName::ISignalGroup && x@.path == path@ && x@.element == element@,
                Err(e) => element@.name != ElementName::ISignalGroup && (e matches AutosarAbstractionError::ConversionError {
                    element: n,
                    dest: d,
                } && n == element@.name && d@ == "ISignalGroup"@),
            },
    {
        if element.name == ElementName::ISignalGroup {
            Ok(ISignalGroup { path, element })
        } else {
            let n = element.name;
            Err(AutosarAbstractionError::ConversionError { element: n, dest: "ISignalGroup".to_owned() })
        }
    }

    /// the element of this signal group
    pub fn element(&self) -> (r: &Element)
        ensures
            r@ == self@.element,
            r@.name == ElementName::ISignalGroup,
    {
        proof {
            use_type_invariant(self);
        }
        &self.element
    }

    /// a reference to this signal group
    pub fn element_ref(&self) -> (r: ElementRef)
        ensures
            r@ == (ElementRefView { kind: ElementName::ISignalGroup, path: self@.path }),
    {
        ElementRef { kind: ElementName::ISignalGroup, path: self.path.clone() }
    }

    /// the name of this signal group
    pub fn name(&self) -> (r: Option<String>)
        ensures
            opt_str_view(r) == short_name_of(self@.element),
    {
        short_name_in(&self.element)
    }
}

//#########################################################
// ISignalTriggering

/// An `ISignalTriggering` triggers a signal in a PDU.
pub struct ISignalTriggering {
    path: String,
    element: Element,
}

impl View for ISignalTriggering {
    type V = IdentifiedView;

    closed spec fn view(&self) -> IdentifiedView {
        IdentifiedView { path: self.path@, element: self.element@ }
    }
}

impl ISignalTriggering {
    #[verifier::type_invariant]
    spec fn is_isignal_triggering(self) -> bool {
        self.element@.name == ElementName::ISignalTriggering
    }

    /// the signal triggering held by an element at the given path, if the element is one
    pub fn try_from(path: String, element: Element) -> (r: Result<ISignalTriggering, AutosarAbstractionError>)
        ensures
            match r {
                Ok(x) => element@.name == ElementName::ISignalTriggering && x@.path == path@ && x@.element == element@,
                Err(e) => element@.name != ElementName::ISignalTriggering && (e matches AutosarAbstractionError::ConversionError {
                    element: n,
                    dest: d,
                } && n == element@.name && d@ == "ISignalTriggering"@),
            },
    {
        if element.name == ElementName::ISignalTriggering {
            Ok(ISignalTriggering { path, element })
        } else {
            let n = element.name;
            Err(AutosarAbstractionError::ConversionError { element: n, dest: "ISignalTriggering".to_owned() })
        }
    }

    /// the element of this signal triggering
    pub fn element(&self) -> (r: &Element)
        ensures
            r@ == self@.element,
            r@.name == ElementName::ISignalTriggering,
    {
        proof {
            use_type_invariant(self);
        }
        &self.element
    }

    /// a reference to this signal triggering
    pub fn element_ref(&self) -> (r: ElementRef)
        ensures
            r@ == (ElementRefView { kind: ElementName::ISignalTriggering, path: self@.path }),
    {
        ElementRef { kind: ElementName::ISignalTriggering, path: self.path.clone() }
    }

    /// the name of this signal triggering
    pub fn name(&self) -> (r: Option<String>)
        ensures
            opt_str_view(r) == short_name_of(self@.element),
    {
        short_name_in(&self.element)
    }
}

//#########################################################
// ISignalPort

/// The `ISignalPort` allows an ECU to send or receive a signal.
pub struct ISignalPort {
    path: String,
    element: Element,
}

impl View for ISignalPort {
    type V = IdentifiedView;

    closed spec fn view(&self) -> IdentifiedView {
        IdentifiedView { path: self.path@, element: self.element@ }
    }
}

impl ISignalPort {
    #[verifier::type_invariant]
    spec fn is_isignal_port(self) -> bool {
        self.element@.name == ElementName::ISignalPort
    }

    /// the signal port held by an element at the given path, if the element is one
    pub fn try_from(path: String, element: Element) -> (r: Result<ISignalPort, AutosarAbstractionError>)
        ensures
            match r {
                Ok(x) => element@.name == ElementName::ISignalPort && x@.path == path@ && x@.element == element@,
                Err(e) => element@.name != ElementName::ISignalPort && (e matches AutosarAbstractionError::ConversionError {
                    element: n,
                    dest: d,
                } && n == element@.name && d@ == "ISignalPort"@),
            },
    {
        if element.name == ElementName::ISignalPort {
            Ok(ISignalPort { path, element })
        } else {
            let n = element.name;
            Err(AutosarAbstractionError::ConversionError { element: n, dest: "ISignalPort".to_owned() })
        }
    }

    /// the element of this signal port
    pub fn element(&self) -> (r: &Element)
        ensures
            r@ == self@.element,
            r@.name == ElementName::ISignalPort,
    {
        proof {
            use_type_invariant(self);
        }
        &self.element
    }

    /// a reference to this signal port
    pub fn element_ref(&self) -> (r: ElementRef)
        ensures
            r@ == (ElementRefView { kind: ElementName::ISignalPort, path: self@.path }),
    {
        ElementRef { kind: ElementName::ISignalPort, path: self.path.clone() }
    }

    /// the name of this signal port
    pub fn name(&self) -> (r: Option<String>)
        ensures
            opt_str_view(r) == short_name_of(self@.element),
    {
        short_name_in(&self.element)
    }
}

//#########################################################
// system signals and system signal groups

/// the unit of a system signal
pub open spec fn unit_of(e: ElementView) -> Option<Seq<char>> {
    reference_at(e, props_path(ElementName::PhysicalProps, ElementName::UnitRef), ElementName::Unit)
}

/// the compu method of a system signal
pub open spec fn physical_compu_method_of(e: ElementView) -> Option<Seq<char>> {
    reference_at(e, props_path(ElementName::PhysicalProps, ElementName::CompuMethodRef), ElementName::CompuMethod)
}

/// the data constraint of a system signal
pub open spec fn data_constr_of(e: ElementView) -> Option<Seq<char>> {
    reference_at(e, props_path(ElementName::PhysicalProps, ElementName::DataConstrRef), ElementName::DataConstr)
}

/// the system signals listed in a system signal group
pub open spec fn system_signals_of(e: ElementView) -> Seq<Seq<char>> {
    listed_targets(e, ElementName::SystemSignalRefs, None, ElementName::SystemSignal)
}

impl SystemSignal {
    /// a new system signal with the given name in the package at `package_path`
    pub fn new(name: &str, package_path: &str) -> (r: SystemSignal)
        ensures
            r@.path == child_path(package_path@, name@),
            r@.element == identifiable_element(ElementName::SystemSignal, name@),
            short_name_of(r@.element) == Some(name@),
    {
        let (path, element) = new_identifiable(ElementName::SystemSignal, name, package_path);
        proof {
            lemma_identifiable_name(ElementName::SystemSignal, name@);
        }
        SystemSignal { path, element }
    }

    /// set the unit of this signal
    pub fn set_unit(&mut self, unit: &Unit) -> (r: Result<(), AutosarAbstractionError>)
        ensures
            r is Ok,
            final(self)@.path == old(self)@.path,
            final(self)@.element == with_reference(
                old(self)@.element,
                props_path(ElementName::PhysicalProps, ElementName::UnitRef),
                ElementRefView { kind: ElementName::Unit, path: unit.path@ },
            ),
    {
        let path = props_path_vec(ElementName::PhysicalProps, ElementName::UnitRef);
        let target = ElementRef { kind: ElementName::Unit, path: unit.path.clone() };
        proof {
            use_type_invariant(&*self);
        }
        let mut e = Element::new(ElementName::SystemSignal);
        std::mem::swap(&mut e, &mut self.element);
        set_reference_in(&mut e, &path, &target);
        self.element = e;
        Ok(())
    }

    /// the unit of this signal
    pub fn unit(&self) -> (r: Option<Unit>)
        ensures
            opt_unit_view(r) == unit_of(self@.element),
    {
        let path = props_path_vec(ElementName::PhysicalProps, ElementName::UnitRef);
        let t = reference_in(&self.element, &path, ElementName::Unit)?;
        Some(Unit { path: t.path })
    }

    /// set the compu method of this signal
    pub fn set_compu_method(&mut self, compu_method: &ElementRef) -> (r: Result<(), AutosarAbstractionError>)
        requires
            compu_method@.kind == ElementName::CompuMethod,
        ensures
            r is Ok,
            final(self)@.path == old(self)@.path,
            final(self)@.element == with_reference(
                old(self)@.element,
                props_path(ElementName::PhysicalProps, ElementName::CompuMethodRef),
                compu_method@,
            ),
    {
        let path = props_path_vec(ElementName::PhysicalProps, ElementName::CompuMethodRef);
        proof {
            use_type_invariant(&*self);
        }
        let mut e = Element::new(ElementName::SystemSignal);
        std::mem::swap(&mut e, &mut self.element);
        set_reference_in(&mut e, &path, compu_method);
        self.element = e;
        Ok(())
    }

    /// the compu method of this signal
    pub fn compu_method(&self) -> (r: Option<ElementRef>)
        ensures
            opt_ref_path(r) == physical_compu_method_of(self@.element),
            r matches Some(t) ==> t@.kind == ElementName::CompuMethod,
    {
        let path = props_path_vec(ElementName::PhysicalProps, ElementName::CompuMethodRef);
        reference_in(&self.element, &path, ElementName::CompuMethod)
    }

    /// set the data constraint of this signal
    pub fn set_data_constr(&mut self, data_constr: &ElementRef) -> (r: Result<(), AutosarAbstractionError>)
        requires
            data_constr@.kind == ElementName::DataConstr,
        ensures
            r is Ok,
            final(self)@.path == old(self)@.path,
            final(self)@.element == with_reference(
                old(self)@.element,
                props_path(ElementName::PhysicalProps, ElementName::DataConstrRef),
                data_constr@,
            ),
    {
        let path = props_path_vec(ElementName::PhysicalProps, ElementName::DataConstrRef);
        proof {
            use_type_invariant(&*self);
        }
        let mut e = Element::new(ElementName::SystemSignal);
        std::mem::swap(&mut e, &mut self.element);
        set_reference_in(&mut e, &path, data_constr);
        self.element = e;
        Ok(())
    }

    /// the data constraint of this signal
    pub fn data_constr(&self) -> (r: Option<ElementRef>)
        ensures
            opt_ref_path(r) == data_constr_of(self@.element),
            r matches Some(t) ==> t@.kind == ElementName::DataConstr,
    {
        let path = props_path_vec(ElementName::PhysicalProps, ElementName::DataConstrRef);
        reference_in(&self.element, &path, ElementName::DataConstr)
    }
}

/// Law: the physical properties of a system signal read back as they were set, and
/// setting one of them leaves the other two as they were.
pub proof fn lemma_system_signal_props(e: ElementView, unit: Seq<char>, compu_method: Seq<char>, data_constr: Seq<char>)
    ensures
        ({
            let x = with_reference(
                e,
                props_path(ElementName::PhysicalProps, ElementName::UnitRef),
                ElementRefView { kind: ElementName::Unit, path: unit },
            );
            &&& unit_of(x) == Some(unit)
            &&& physical_compu_method_of(x) == physical_compu_method_of(e)
            &&& data_constr_of(x) == data_constr_of(e)
        }),
        ({
            let x = with_reference(
                e,
                props_path(ElementName::PhysicalProps, ElementName::CompuMethodRef),
                ElementRefView { kind: ElementName::CompuMethod, path: compu_method },
            );
            &&& physical_compu_method_of(x) == Some(compu_method)
            &&& unit_of(x) == unit_of(e)
            &&& data_constr_of(x) == data_constr_of(e)
        }),
        ({
            let x = with_reference(
                e,
                props_path(ElementName::PhysicalProps, ElementName::DataConstrRef),
                ElementRefView { kind: ElementName::DataConstr, path: data_constr },
            );
            &&& data_constr_of(x) == Some(data_constr)
            &&& unit_of(x) == unit_of(e)
            &&& physical_compu_method_of(x) == physical_compu_method_of(e)
        }),
{
    let pu = props_path(ElementName::PhysicalProps, ElementName::UnitRef);
    let pc = props_path(ElementName::PhysicalProps, ElementName::CompuMethodRef);
    let pd = props_path(ElementName::PhysicalProps, ElementName::DataConstrRef);
    let tu = ElementRefView { kind: ElementName::Unit, path: unit };
    let tc = ElementRefView { kind: ElementName::CompuMethod, path: compu_method };
    let td = ElementRefView { kind: ElementName::DataConstr, path: data_constr };
    lemma_reference_reads_back(e, pu, tu);
    lemma_reference_reads_back(e, pc, tc);
    lemma_reference_reads_back(e, pd, td);
    lemma_reference_frame(e, pu, LeafUpdateView::Reference(tu), pc, ElementName::CompuMethod, 3);
    lemma_reference_frame(e, pu, LeafUpdateView::Reference(tu), pd, ElementName::DataConstr, 3);
    lemma_reference_frame(e, pc, LeafUpdateView::Reference(tc), pu, ElementName::Unit, 3);
    lemma_reference_frame(e, pc, LeafUpdateView::Reference(tc), pd, ElementName::DataConstr, 3);
    lemma_reference_frame(e, pd, LeafUpdateView::Reference(td), pu, ElementName::Unit, 3);
    lemma_reference_frame(e, pd, LeafUpdateView::Reference(td), pc, ElementName::CompuMethod, 3);
}

impl SystemSignalGroup {
    /// a new system signal group with the given name in the package at `package_path`
    pub fn new(name: &str, package_path: &str) -> (r: SystemSignalGroup)
        ensures
            r@.path == child_path(package_path@, name@),
            r@.element == identifiable_element(ElementName::SystemSignalGroup, name@),
            short_name_of(r@.element) == Some(name@),
            system_signals_of(r@.element) == Seq::<Seq<char>>::empty(),
    {
        let (path, element) = new_identifiable(ElementName::SystemSignalGroup, name, package_path);
        proof {
            lemma_identifiable_name(ElementName::SystemSignalGroup, name@);
            let s = element@.sub_elements;
            assert(s[0].name == ElementName::ShortName);
            lemma_find_absent(s, ElementName::SystemSignalRefs);
        }
        SystemSignalGroup { path, element }
    }

    /// add a signal to the signal group
    pub fn add_signal(&mut self, signal: &SystemSignal) -> (r: Result<(), AutosarAbstractionError>)
        ensures
            r is Ok,
            final(self)@.path == old(self)@.path,
            final(self)@.element == with_appended(
                old(self)@.element,
                seq![ElementName::SystemSignalRefs],
                reference_entry(
                    None,
                    ElementName::SystemSignalRef,
                    ElementRefView { kind: ElementName::SystemSignal, path: signal@.path },
                ),
            ),
            system_signals_of(final(self)@.element) == system_signals_of(old(self)@.element).push(signal@.path),
    {
        let target = signal.element_ref();
        proof {
            use_type_invariant(&*self);
        }
        let mut e = Element::new(ElementName::SystemSignalGroup);
        std::mem::swap(&mut e, &mut self.element);
        append_reference_in(&mut e, ElementName::SystemSignalRefs, None, ElementName::SystemSignalRef, &target);
        self.element = e;
        proof {
            lemma_appended_entry_listed(old(self)@.element, ElementName::SystemSignalRefs, None, ElementName::SystemSignalRef, target@);
        }
        Ok(())
    }

    /// the system signals in this group
    pub fn signals(&self) -> (r: Vec<ElementRef>)
        ensures
            ref_paths(r@) == system_signals_of(self@.element),
            forall|i: int| 0 <= i < r@.len() ==> (#[trigger] r@[i])@.kind == ElementName::SystemSignal,
    {
        targets_in(&self.element, ElementName::SystemSignalRefs, None, ElementName::SystemSignal)
    }
}

//#########################################################
// signals

/// the length of a signal in bits
pub open spec fn length_of(e: ElementView) -> Option<u64> {
    integer_of(sub_element(e, ElementName::Length))
}

/// `e` after its LENGTH was set to `bit_length`
pub open spec fn with_length(e: ElementView, bit_length: u64) -> ElementView {
    updated_at(
        e,
        seq![ElementName::Length],
        LeafUpdateView::Data(CharacterDataView::UnsignedInteger(bit_length)),
    )
}

/// the data type of a signal
pub open spec fn datatype_of(e: ElementView) -> Option<Seq<char>> {
    reference_at(e, props_path(ElementName::NetworkRepresentationProps, ElementName::BaseTypeRef), ElementName::SwBaseType)
}

/// the compu method of the network representation of a signal
pub open spec fn network_compu_method_of(e: ElementView) -> Option<Seq<char>> {
    reference_at(
        e,
        props_path(ElementName::NetworkRepresentationProps, ElementName::CompuMethodRef),
        ElementName::CompuMethod,
    )
}

/// the system signal of a signal
pub open spec fn system_signal_of(e: ElementView) -> Option<Seq<char>> {
    reference_at(e, seq![ElementName::SystemSignalRef], ElementName::SystemSignal)
}

/// the init value of a signal: the value inside its INIT-VALUE
pub open spec fn init_value_of(e: ElementView) -> Option<ValueSpecificationView> {
    match sub_element(e, ElementName::InitValue) {
        Some(iv) => if iv.sub_elements.len() > 0 {
            load_value(iv.sub_elements[0])
        } else {
            None
        },
        None => None,
    }
}

/// the kinds of value that a signal takes as its init value
pub open spec fn is_init_value_kind(v: ValueSpecificationView) -> bool {
    ||| v is Numerical
    ||| v is Text
    ||| v is Array
}

/// the data transformations applied to a signal
pub open spec fn data_transformations_of(e: ElementView) -> Seq<Seq<char>> {
    listed_targets(
        e,
        ElementName::DataTransformations,
        Some(ElementName::DataTransformationRef),
        ElementName::DataTransformation,
    )
}

/// the largest bit length of a signal: 2^32 bytes
pub open spec fn max_bit_length() -> int {
    u32::MAX * 8
}

/// the element of a new signal
pub open spec fn new_isignal_element(
    name: Seq<char>,
    bit_length: u64,
    system_signal: Seq<char>,
    datatype: Option<ElementRefView>,
) -> ElementView {
    let base = node(
        ElementName::ISignal,
        seq![
            leaf(ElementName::ShortName, CharacterDataView::String(name)),
            leaf(ElementName::DataTypePolicy, CharacterDataView::Enum(EnumItem::Override)),
        ],
    );
    let with_system_signal = with_reference(
        with_length(base, bit_length),
        seq![ElementName::SystemSignalRef],
        ElementRefView { kind: ElementName::SystemSignal, path: system_signal },
    );
    match datatype {
        Some(d) => with_reference(
            with_system_signal,
            props_path(ElementName::NetworkRepresentationProps, ElementName::BaseTypeRef),
            d,
        ),
        None => with_system_signal,
    }
}

/// the message of the error for a bit length that is too big
pub open spec fn bit_length_message(name: Seq<char>, bit_length: u64) -> Seq<char> {
    "isignal "@ + name + ": bit length "@ + decimal(bit_length as nat) + " is too big"@
}

/// the message of the error for an init value of a kind that a signal does not take
pub open spec fn init_value_kind_message() -> Seq<char> {
    "The init value must be a NumericalValueSpecification, TextValueSpecification or ArrayValueSpecification"@
}

proof fn lemma_leaf_data_reads_back(e: ElementView, name: ElementName, cd: CharacterDataView)
    ensures
        data_of(sub_element(updated_at(e, seq![name], LeafUpdateView::Data(cd)), name)) == Some(cd),
{
    lemma_updated_at_reads_back(e, seq![name], LeafUpdateView::Data(cd));
    lemma_element_at_one(updated_at(e, seq![name], LeafUpdateView::Data(cd)), name);
}

/// Law: a new signal has the name, length, system signal and data type it was made with.
pub proof fn lemma_new_isignal(name: Seq<char>, bit_length: u64, system_signal: Seq<char>, datatype: Option<ElementRefView>)
    requires
        datatype matches Some(d) ==> d.kind == ElementName::SwBaseType,
    ensures
        short_name_of(new_isignal_element(name, bit_length, system_signal, datatype)) == Some(name),
        length_of(new_isignal_element(name, bit_length, system_signal, datatype)) == Some(bit_length),
        system_signal_of(new_isignal_element(name, bit_length, system_signal, datatype)) == Some(system_signal),
        datatype_of(new_isignal_element(name, bit_length, system_signal, datatype)) == match datatype {
            Some(d) => Some(d.path),
            None => None::<Seq<char>>,
        },
        init_value_of(new_isignal_element(name, bit_length, system_signal, datatype)) is None,
        data_transformations_of(new_isignal_element(name, bit_length, system_signal, datatype)) == Seq::<Seq<char>>::empty(),
{
    let base = node(
        ElementName::ISignal,
        seq![
            leaf(ElementName::ShortName, CharacterDataView::String(name)),
            leaf(ElementName::DataTypePolicy, CharacterDataView::Enum(EnumItem::Override)),
        ],
    );
    let ul = LeafUpdateView::Data(CharacterDataView::UnsignedInteger(bit_length));
    let ts = ElementRefView { kind: ElementName::SystemSignal, path: system_signal };
    let us = LeafUpdateView::Reference(ts);
    let e1 = with_length(base, bit_length);
    let e2 = with_reference(e1, seq![ElementName::SystemSignalRef], ts);
    let pd = props_path(ElementName::NetworkRepresentationProps, ElementName::BaseTypeRef);
    let s = base.sub_elements;
    lemma_first_index(s, ElementName::ShortName);
    assert(s[0].name == ElementName::ShortName);
    assert(s[1].name == ElementName::DataTypePolicy);
    lemma_find_absent(s, ElementName::InitValue);
    lemma_find_absent(s, ElementName::DataTransformations);
    lemma_find_absent(s, ElementName::SystemSignalRef);
    lemma_find_absent(s, ElementName::NetworkRepresentationProps);
    assert(pd[0] == ElementName::NetworkRepresentationProps);
    assert(element_at(base, pd) is None);
    // the length
    lemma_leaf_data_reads_back(base, ElementName::Length, CharacterDataView::UnsignedInteger(bit_length));
    lemma_update_frame(base, seq![ElementName::Length], ul, ElementName::ShortName);
    lemma_update_frame(base, seq![ElementName::Length], ul, ElementName::InitValue);
    lemma_update_frame(base, seq![ElementName::Length], ul, ElementName::DataTransformations);
    lemma_reference_frame(base, seq![ElementName::Length], ul, pd, ElementName::SwBaseType, 0);
    // the system signal
    lemma_reference_reads_back(e1, seq![ElementName::SystemSignalRef], ts);
    lemma_update_frame(e1, seq![ElementName::SystemSignalRef], us, ElementName::ShortName);
    lemma_update_frame(e1, seq![ElementName::SystemSignalRef], us, ElementName::Length);
    lemma_update_frame(e1, seq![ElementName::SystemSignalRef], us, ElementName::InitValue);
    lemma_update_frame(e1, seq![ElementName::SystemSignalRef], us, ElementName::DataTransformations);
    lemma_reference_frame(e1, seq![ElementName::SystemSignalRef], us, pd, ElementName::SwBaseType, 0);
    if let Some(d) = datatype {
        let ud = LeafUpdateView::Reference(d);
        lemma_reference_reads_back(e2, pd, d);
        lemma_update_frame(e2, pd, ud, ElementName::ShortName);
        lemma_update_frame(e2, pd, ud, ElementName::Length);
        lemma_update_frame(e2, pd, ud, ElementName::InitValue);
        lemma_update_frame(e2, pd, ud, ElementName::DataTransformations);
        lemma_reference_frame(e2, pd, ud, seq![ElementName::SystemSignalRef], ElementName::SystemSignal, 0);
    }
}

/// an update below the sub element `path[0]` leaves the sub elements of every other name
proof fn lemma_update_frame(e: ElementView, path: Seq<ElementName>, u: LeafUpdateView, other: ElementName)
    requires
        path.len() > 0,
        path[0] != other,
    ensures
        sub_element(updated_at(e, path, u), other) == sub_element(e, other),
{
    lemma_updated_at_frame(e, path, u, other);
}

impl ISignal {
    /// A new signal with the given name in the package at `package_path`, of the given
    /// length, for the given system signal and with the given data type. Fails if the
    /// length is more than 2^32 bytes.
    pub fn new(
        name: &str,
        package_path: &str,
        bit_length: u64,
        system_signal: &SystemSignal,
        datatype: Option<&ElementRef>,
    ) -> (r: Result<ISignal, AutosarAbstractionError>)
        requires
            datatype matches Some(d) ==> d@.kind == ElementName::SwBaseType,
        ensures
            r is Err <==> bit_length > max_bit_length(),
            r matches Err(e) ==> (e matches AutosarAbstractionError::InvalidParameter(m) && m@ == bit_length_message(
                name@,
                bit_length,
            )),
            r matches Ok(s) ==> {
                &&& at_most_one(s@.element.sub_elements, ElementName::InitValue)
                &&& s@.path == child_path(package_path@, name@)
                &&& s@.element == new_isignal_element(
                    name@,
                    bit_length,
                    system_signal@.path,
                    match datatype {
                        Some(d) => Some(d@),
                        None => None,
                    },
                )
            },
    {
        if bit_length > 0xffff_ffffu64 * 8 {
            let mut m = concat("isignal ", name);
            m.append(": bit length ");
            m.append(&decimal_text(bit_length));
            m.append(" is too big");
            return Err(AutosarAbstractionError::InvalidParameter(m));
        }
        let path = concat(&concat(package_path, "/"), name);
        let mut e = Element::new(ElementName::ISignal);
        let mut n = Element::new(ElementName::ShortName);
        n.set_character_data(CharacterData::String(name.to_owned()));
        e.push_sub_element(n);
        let mut p = Element::new(ElementName::DataTypePolicy);
        p.set_character_data(CharacterData::Enum(EnumItem::Override));
        e.push_sub_element(p);
        assert(e@.sub_elements =~= seq![
            leaf(ElementName::ShortName, CharacterDataView::String(name@)),
            leaf(ElementName::DataTypePolicy, CharacterDataView::Enum(EnumItem::Override)),
        ]);
        let length_path = one_name_path(ElementName::Length);
        proof {
            lemma_whole_path(length_path@);
            lemma_updated_keeps_name(e@, length_path@, LeafUpdateView::Data(CharacterDataView::UnsignedInteger(bit_length)));
        }
        let ghost e0 = e@;
        assert(at_most_one(e0.sub_elements, ElementName::InitValue));
        e.update_at(&length_path, 0, LeafUpdate::Data(CharacterData::UnsignedInteger(bit_length)));
        proof {
            crate::element::lemma_updated_at_keeps_at_most_one(
                e0, length_path@, LeafUpdateView::Data(CharacterDataView::UnsignedInteger(bit_length)), ElementName::InitValue);
        }
        let ghost e1 = e@;
        let sys_path = one_name_path(ElementName::SystemSignalRef);
        let sys_ref = system_signal.element_ref();
        set_reference_in(&mut e, &sys_path, &sys_ref);
        proof {
            crate::element::lemma_updated_at_keeps_at_most_one(
                e1, sys_path@, LeafUpdateView::Reference(sys_ref@), ElementName::InitValue);
        }
        if let Some(d) = datatype {
            let dpath = props_path_vec(ElementName::NetworkRepresentationProps, ElementName::BaseTypeRef);
            let ghost e2 = e@;
            set_reference_in(&mut e, &dpath, d);
            proof {
                crate::element::lemma_updated_at_keeps_at_most_one(
                    e2, dpath@, LeafUpdateView::Reference(d@), ElementName::InitValue);
            }
        }
        Ok(ISignal { path, element: e })
    }

    /// set the data type of this signal
    pub fn set_datatype(&mut self, datatype: &ElementRef) -> (r: Result<(), AutosarAbstractionError>)
        requires
            datatype@.kind == ElementName::SwBaseType,
        ensures
            r is Ok,
            final(self)@.path == old(self)@.path,
            at_most_one(old(self)@.element.sub_elements, ElementName::InitValue) ==> at_most_one(
                final(self)@.element.sub_elements,
                ElementName::InitValue,
            ),
            final(self)@.element == with_reference(
                old(self)@.element,
                props_path(ElementName::NetworkRepresentationProps, ElementName::BaseTypeRef),
                datatype@,
            ),
    {
        let path = props_path_vec(ElementName::NetworkRepresentationProps, ElementName::BaseTypeRef);
        proof {
            use_type_invariant(&*self);
        }
        let mut e = Element::new(ElementName::ISignal);
        std::mem::swap(&mut e, &mut self.element);
        set_reference_in(&mut e, &path, datatype);
        proof {
            if at_most_one(old(self).element@.sub_elements, ElementName::InitValue) { crate::element::lemma_updated_at_keeps_at_most_one(
                old(self).element@, path@, LeafUpdateView::Reference(datatype@), ElementName::InitValue); }
        }
        self.element = e;
        Ok(())
    }

    /// the data type of this signal
    pub fn datatype(&self) -> (r: Option<ElementRef>)
        ensures
            opt_ref_path(r) == datatype_of(self@.element),
            r matches Some(t) ==> t@.kind == ElementName::SwBaseType,
    {
        let path = props_path_vec(ElementName::NetworkRepresentationProps, ElementName::BaseTypeRef);
        reference_in(&self.element, &path, ElementName::SwBaseType)
    }

    /// The compu method of this signal's network representation. It overrides the
    /// physical properties of the system signal behind it, as a DATA-TYPE-POLICY of
    /// OVERRIDE says, so a caller that wants the effective conversion prefers this one
    /// over the compu method of the system signal.
    pub fn compu_method(&self) -> (r: Option<ElementRef>)
        ensures
            opt_ref_path(r) == network_compu_method_of(self@.element),
            r matches Some(t) ==> t@.kind == ElementName::CompuMethod,
    {
        let path = props_path_vec(ElementName::NetworkRepresentationProps, ElementName::CompuMethodRef);
        reference_in(&self.element, &path, ElementName::CompuMethod)
    }

    /// set the length of this signal in bits
    pub fn set_length(&mut self, bit_length: u64) -> (r: Result<(), AutosarAbstractionError>)
        ensures
            r is Ok,
            final(self)@.path == old(self)@.path,
            at_most_one(old(self)@.element.sub_elements, ElementName::InitValue) ==> at_most_one(
                final(self)@.element.sub_elements,
                ElementName::InitValue,
            ),
            final(self)@.element == with_length(old(self)@.element, bit_length),
    {
        let path = one_name_path(ElementName::Length);
        proof {
            use_type_invariant(&*self);
            lemma_whole_path(path@);
            lemma_updated_keeps_name(
                self.element@,
                path@,
                LeafUpdateView::Data(CharacterDataView::UnsignedInteger(bit_length)),
            );
        }
        let mut e = Element::new(ElementName::ISignal);
        std::mem::swap(&mut e, &mut self.element);
        e.update_at(&path, 0, LeafUpdate::Data(CharacterData::UnsignedInteger(bit_length)));
        proof {
            if at_most_one(old(self).element@.sub_elements, ElementName::InitValue) { crate::element::lemma_updated_at_keeps_at_most_one(
                old(self).element@,
                path@,
                LeafUpdateView::Data(CharacterDataView::UnsignedInteger(bit_length)),
                ElementName::InitValue,
            ); }
        }
        self.element = e;
        Ok(())
    }

    /// the length of this signal in bits
    pub fn length(&self) -> (r: Option<u64>)
        ensures
            r == length_of(self@.element),
    {
        self.element.get_sub_element(ElementName::Length)?.character_data()?.parse_integer_u64()
    }

    /// Set the init value of this signal, replacing the one it had, or remove it. Only
    /// numerical, text and array values are taken. What the AUTOSAR version cannot hold is
    /// left out.
    pub fn set_init_value(&mut self, value: Option<&ValueSpecification>, schema: SchemaSupport) -> (r: Result<(), AutosarAbstractionError>)
        ensures
            final(self)@.path == old(self)@.path,
            at_most_one(old(self)@.element.sub_elements, ElementName::InitValue) ==> at_most_one(
                final(self)@.element.sub_elements,
                ElementName::InitValue,
            ),
            match value {
                None => {
                    &&& r is Ok
                    &&& final(self)@.element == without_sub_element(old(self)@.element, ElementName::InitValue)
                    &&& (at_most_one(old(self)@.element.sub_elements, ElementName::InitValue) ==> init_value_of(
                        final(self)@.element,
                    ) is None)
                },
                Some(v) => if !is_init_value_kind(v@) {
                    final(self)@ == old(self)@ && (r matches Err(
                        AutosarAbstractionError::InvalidParameter(m),
                    ) && m@ == init_value_kind_message())
                } else {
                    &&& r is Ok
                    &&& final(self)@.element == with_init_value(old(self)@.element, v@, schema)
                    &&& init_value_of(final(self)@.element) == Some(fit_value(v@, schema))
                    &&& (schema.unit_display_name && schema.default_pattern ==> init_value_of(
                        final(self)@.element,
                    ) == Some(v@))
                },
            },
    {
        proof {
            use_type_invariant(&*self);
        }
        let ghost e0 = self.element@;
        match value {
            None => {
                let mut e = Element::new(ElementName::ISignal);
                std::mem::swap(&mut e, &mut self.element);
                let _ = e.remove_sub_element_kind(ElementName::InitValue);
                proof {
                    if at_most_one(e0.sub_elements, ElementName::InitValue) {
                        crate::element::lemma_without_keeps_at_most_one(e0, ElementName::InitValue, ElementName::InitValue);
                        lemma_init_value_removed(e0);
                    }
                }
                self.element = e;
                Ok(())
            },
            Some(v) => {
                match v {
                    ValueSpecification::Numerical(_) | ValueSpecification::Text(_) | ValueSpecification::Array(_) => {},
                    _ => {
                        return Err(AutosarAbstractionError::InvalidParameter(
                            "The init value must be a NumericalValueSpecification, TextValueSpecification or ArrayValueSpecification".to_owned(),
                        ));
                    },
                }
                let mut holder = Element::new(ElementName::InitValue);
                v.store(&mut holder, schema);
                let ghost before = holder.sub_elements@;
                proof {
                    lemma_elements_view(before);
                    assert(holder@.sub_elements == crate::element::elements_view(before));
                    assert(holder@.sub_elements =~= seq![store_value(fit_value(v@, schema))]);
                    assert(crate::element::elements_view(before)[0] == before[0]@);
                }
                let child = holder.sub_elements.pop().unwrap();
                assert(child == before[0]);
                let path = one_name_path(ElementName::InitValue);
                proof {
                    lemma_whole_path(path@);
                    lemma_updated_keeps_name(e0, path@, LeafUpdateView::Content(child@));
                    if at_most_one(e0.sub_elements, ElementName::InitValue) {
                        crate::element::lemma_updated_at_keeps_at_most_one(e0, path@, LeafUpdateView::Content(child@), ElementName::InitValue);
                    }
                    lemma_init_value_reads_back(e0, v@, schema);
                }
                let mut e = Element::new(ElementName::ISignal);
                std::mem::swap(&mut e, &mut self.element);
                e.update_at(&path, 0, LeafUpdate::Content(child));
                self.element = e;
                Ok(())
            },
        }
    }

    /// the init value of this signal
    pub fn init_value(&self) -> (r: Option<ValueSpecification>)
        ensures
            match r {
                Some(v) => init_value_of(self@.element) == Some(v@),
                None => init_value_of(self@.element) is None,
            },
    {
        let iv = self.element.get_sub_element(ElementName::InitValue)?;
        let first = iv.get_sub_element_at(0)?;
        ValueSpecification::load(first)
    }

    /// set the system signal that corresponds to this signal
    pub fn set_system_signal(&mut self, system_signal: &SystemSignal) -> (r: Result<(), AutosarAbstractionError>)
        ensures
            r is Ok,
            final(self)@.path == old(self)@.path,
            at_most_one(old(self)@.element.sub_elements, ElementName::InitValue) ==> at_most_one(
                final(self)@.element.sub_elements,
                ElementName::InitValue,
            ),
            final(self)@.element == with_reference(
                old(self)@.element,
                seq![ElementName::SystemSignalRef],
                ElementRefView { kind: ElementName::SystemSignal, path: system_signal@.path },
            ),
    {
        let path = one_name_path(ElementName::SystemSignalRef);
        let target = system_signal.element_ref();
        proof {
            use_type_invariant(&*self);
        }
        let mut e = Element::new(ElementName::ISignal);
        std::mem::swap(&mut e, &mut self.element);
        set_reference_in(&mut e, &path, &target);
        proof {
            if at_most_one(old(self).element@.sub_elements, ElementName::InitValue) { crate::element::lemma_updated_at_keeps_at_most_one(
                old(self).element@, path@, LeafUpdateView::Reference(target@), ElementName::InitValue); }
        }
        self.element = e;
        Ok(())
    }

    /// the system signal that corresponds to this signal
    pub fn system_signal(&self) -> (r: Option<ElementRef>)
        ensures
            opt_ref_path(r) == system_signal_of(self@.element),
            r matches Some(t) ==> t@.kind == ElementName::SystemSignal,
    {
        reference_in(&self.element, &one_name_path(ElementName::SystemSignalRef), ElementName::SystemSignal)
    }

    /// add a data transformation to this signal
    pub fn add_data_transformation(&mut self, data_transformation: &ElementRef) -> (r: Result<(), AutosarAbstractionError>)
        requires
            data_transformation@.kind == ElementName::DataTransformation,
        ensures
            r is Ok,
            final(self)@.path == old(self)@.path,
            at_most_one(old(self)@.element.sub_elements, ElementName::InitValue) ==> at_most_one(
                final(self)@.element.sub_elements,
                ElementName::InitValue,
            ),
            final(self)@.element == with_appended(
                old(self)@.element,
                seq![ElementName::DataTransformations],
                reference_entry(
                    Some(ElementName::DataTransformationRefConditional),
                    ElementName::DataTransformationRef,
                    data_transformation@,
                ),
            ),
            data_transformations_of(final(self)@.element) == data_transformations_of(old(self)@.element).push(
                data_transformation@.path,
            ),
    {
        proof {
            use_type_invariant(&*self);
        }
        let mut e = Element::new(ElementName::ISignal);
        std::mem::swap(&mut e, &mut self.element);
        append_reference_in(
            &mut e,
            ElementName::DataTransformations,
            Some(ElementName::DataTransformationRefConditional),
            ElementName::DataTransformationRef,
            data_transformation,
        );
        proof {
            if at_most_one(old(self).element@.sub_elements, ElementName::InitValue) { crate::element::lemma_updated_at_keeps_at_most_one(
                old(self).element@,
                seq![ElementName::DataTransformations],
                LeafUpdateView::Append(reference_entry(
                    Some(ElementName::DataTransformationRefConditional),
                    ElementName::DataTransformationRef,
                    data_transformation@,
                )),
                ElementName::InitValue,
            ); }
        }
        self.element = e;
        proof {
            lemma_appended_entry_listed(
                old(self)@.element,
                ElementName::DataTransformations,
                Some(ElementName::DataTransformationRefConditional),
                ElementName::DataTransformationRef,
                data_transformation@,
            );
        }
        Ok(())
    }

    /// the data transformations that are applied to this signal
    pub fn data_transformations(&self) -> (r: Vec<ElementRef>)
        ensures
            ref_paths(r@) == data_transformations_of(self@.element),
            forall|i: int| 0 <= i < r@.len() ==> (#[trigger] r@[i])@.kind == ElementName::DataTransformation,
    {
        targets_in(
            &self.element,
            ElementName::DataTransformations,
            Some(ElementName::DataTransformationRef),
            ElementName::DataTransformation,
        )
    }
}

/// a signal after its init value was replaced by `v`: its first INIT-VALUE, made where
/// there is none, holds the stored value and nothing else
pub open spec fn with_init_value(e: ElementView, v: ValueSpecificationView, schema: SchemaSupport) -> ElementView {
    updated_at(e, seq![ElementName::InitValue], LeafUpdateView::Content(store_value(fit_value(v, schema))))
}

/// Law: the init value of a signal is the value that was last set, less what the AUTOSAR
/// version cannot hold, whatever the signal held before.
pub proof fn lemma_init_value_reads_back(e: ElementView, v: ValueSpecificationView, schema: SchemaSupport)
    ensures
        init_value_of(with_init_value(e, v, schema)) == Some(fit_value(v, schema)),
        schema.unit_display_name && schema.default_pattern ==> init_value_of(with_init_value(e, v, schema)) == Some(v),
{
    let u = LeafUpdateView::Content(store_value(fit_value(v, schema)));
    lemma_updated_at_reads_back(e, seq![ElementName::InitValue], u);
    lemma_element_at_one(updated_at(e, seq![ElementName::InitValue], u), ElementName::InitValue);
    lemma_value_stored(v, schema);
}

/// Law: a signal whose init value was removed has none, provided it had at most one
/// INIT-VALUE.
pub proof fn lemma_init_value_removed(e: ElementView)
    requires
        at_most_one(e.sub_elements, ElementName::InitValue),
    ensures
        init_value_of(without_sub_element(e, ElementName::InitValue)) is None,
{
    lemma_without_leaves_none(e, ElementName::InitValue);
    lemma_find_absent(without_sub_element(e, ElementName::InitValue).sub_elements, ElementName::InitValue);
}

/// Law: the length of a signal is the one that was last set.
pub proof fn lemma_length_reads_back(e: ElementView, bit_length: u64)
    ensures
        length_of(with_length(e, bit_length)) == Some(bit_length),
{
    lemma_leaf_data_reads_back(e, ElementName::Length, CharacterDataView::UnsignedInteger(bit_length));
}

//#########################################################
// signal groups

/// the system signal group of a signal group
pub open spec fn system_signal_group_of(e: ElementView) -> Option<Seq<char>> {
    reference_at(e, seq![ElementName::SystemSignalGroupRef], ElementName::SystemSignalGroup)
}

/// the signals listed in a signal group
pub open spec fn isignals_of(e: ElementView) -> Seq<Seq<char>> {
    listed_targets(e, ElementName::ISignalRefs, None, ElementName::ISignal)
}

/// the data transformations applied to a signal group
pub open spec fn group_data_transformations_of(e: ElementView) -> Seq<Seq<char>> {
    listed_targets(
        e,
        ElementName::ComBasedSignalGroupTransformations,
        Some(ElementName::DataTransformationRef),
        ElementName::DataTransformation,
    )
}

/// the message of the error for a signal whose system signal is in another group
pub open spec fn group_mismatch_message() -> Seq<char> {
    "The isignal and the system signal must both be part of corresponding signal groups"@
}

impl ISignalGroup {
    /// a new signal group with the given name in the package at `package_path`, for the
    /// given system signal group
    pub fn new(name: &str, package_path: &str, system_signal_group: &SystemSignalGroup) -> (r: ISignalGroup)
        ensures
            r@.path == child_path(package_path@, name@),
            r@.element == with_reference(
                identifiable_element(ElementName::ISignalGroup, name@),
                seq![ElementName::SystemSignalGroupRef],
                ElementRefView { kind: ElementName::SystemSignalGroup, path: system_signal_group@.path },
            ),
            short_name_of(r@.element) == Some(name@),
            system_signal_group_of(r@.element) == Some(system_signal_group@.path),
            isignals_of(r@.element) == Seq::<Seq<char>>::empty(),
    {
        let (path, mut element) = new_identifiable(ElementName::ISignalGroup, name, package_path);
        let target = system_signal_group.element_ref();
        let ghost e0 = element@;
        set_reference_in(&mut element, &one_name_path(ElementName::SystemSignalGroupRef), &target);
        proof {
            let u = LeafUpdateView::Reference(target@);
            lemma_identifiable_name(ElementName::ISignalGroup, name@);
            lemma_reference_reads_back(e0, seq![ElementName::SystemSignalGroupRef], target@);
            lemma_update_frame(e0, seq![ElementName::SystemSignalGroupRef], u, ElementName::ShortName);
            lemma_update_frame(e0, seq![ElementName::SystemSignalGroupRef], u, ElementName::ISignalRefs);
            assert(e0.sub_elements[0].name == ElementName::ShortName);
            lemma_find_absent(e0.sub_elements, ElementName::ISignalRefs);
        }
        ISignalGroup { path, element }
    }

    /// Add a signal to the signal group. `group_of_system_signal` is the system signal
    /// group that contains the system signal of `signal`, if any: the signal is taken only
    /// if that is the system signal group of this group.
    pub fn add_signal(&mut self, signal: &ISignal, group_of_system_signal: Option<&ElementRef>) -> (r: Result<(), AutosarAbstractionError>)
        requires
            group_of_system_signal matches Some(g) ==> g@.kind == ElementName::SystemSignalGroup,
        ensures
            final(self)@.path == old(self)@.path,
            ({
                let expected = if system_signal_of(signal@.element) is Some {
                    match group_of_system_signal {
                        Some(g) => Some(g@.path),
                        None => None::<Seq<char>>,
                    }
                } else {
                    None::<Seq<char>>
                };
                if expected != system_signal_group_of(old(self)@.element) {
                    final(self)@ == old(self)@ && (r matches Err(AutosarAbstractionError::InvalidParameter(m))
                        && m@ == group_mismatch_message())
                } else {
                    &&& r is Ok
                    &&& final(self)@.element == with_appended(
                        old(self)@.element,
                        seq![ElementName::ISignalRefs],
                        reference_entry(
                            None,
                            ElementName::ISignalRef,
                            ElementRefView { kind: ElementName::ISignal, path: signal@.path },
                        ),
                    )
                    &&& isignals_of(final(self)@.element) == isignals_of(old(self)@.element).push(signal@.path)
                }
            }),
    {
        let expected: Option<&ElementRef> = match signal.system_signal() {
            Some(_) => group_of_system_signal,
            None => None,
        };
        let own = self.system_signal_group();
        let same = match (expected, &own) {
            (Some(a), Some(b)) => a.path == b.path,
            (None, None) => true,
            _ => false,
        };
        if !same {
            return Err(AutosarAbstractionError::InvalidParameter(
                "The isignal and the system signal must both be part of corresponding signal groups".to_owned(),
            ));
        }
        let target = signal.element_ref();
        proof {
            use_type_invariant(&*self);
        }
        let mut e = Element::new(ElementName::ISignalGroup);
        std::mem::swap(&mut e, &mut self.element);
        append_reference_in(&mut e, ElementName::ISignalRefs, None, ElementName::ISignalRef, &target);
        self.element = e;
        proof {
            lemma_appended_entry_listed(old(self)@.element, ElementName::ISignalRefs, None, ElementName::ISignalRef, target@);
        }
        Ok(())
    }

    /// the system signal group of this signal group
    pub fn system_signal_group(&self) -> (r: Option<ElementRef>)
        ensures
            opt_ref_path(r) == system_signal_group_of(self@.element),
            r matches Some(t) ==> t@.kind == ElementName::SystemSignalGroup,
    {
        reference_in(
            &self.element,
            &one_name_path(ElementName::SystemSignalGroupRef),
            ElementName::SystemSignalGroup,
        )
    }

    /// the signals in this group
    pub fn signals(&self) -> (r: Vec<ElementRef>)
        ensures
            ref_paths(r@) == isignals_of(self@.element),
            forall|i: int| 0 <= i < r@.len() ==> (#[trigger] r@[i])@.kind == ElementName::ISignal,
    {
        targets_in(&self.element, ElementName::ISignalRefs, None, ElementName::ISignal)
    }

    /// add a data transformation to this signal group
    pub fn add_data_transformation(&mut self, data_transformation: &ElementRef) -> (r: Result<(), AutosarAbstractionError>)
        requires
            data_transformation@.kind == ElementName::DataTransformation,
        ensures
            r is Ok,
            final(self)@.path == old(self)@.path,
            final(self)@.element == with_appended(
                old(self)@.element,
                seq![ElementName::ComBasedSignalGroupTransformations],
                reference_entry(
                    Some(ElementName::DataTransformationRefConditional),
                    ElementName::DataTransformationRef,
                    data_transformation@,
                ),
            ),
            group_data_transformations_of(final(self)@.element) == group_data_transformations_of(
                old(self)@.element,
            ).push(data_transformation@.path),
    {
        proof {
            use_type_invariant(&*self);
        }
        let mut e = Element::new(ElementName::ISignalGroup);
        std::mem::swap(&mut e, &mut self.element);
        append_reference_in(
            &mut e,
            ElementName::ComBasedSignalGroupTransformations,
            Some(ElementName::DataTransformationRefConditional),
            ElementName::DataTransformationRef,
            data_transformation,
        );
        self.element = e;
        proof {
            lemma_appended_entry_listed(
                old(self)@.element,
                ElementName::ComBasedSignalGroupTransformations,
                Some(ElementName::DataTransformationRefConditional),
                ElementName::DataTransformationRef,
                data_transformation@,
            );
        }
        Ok(())
    }

    /// the data transformations that are applied to this signal group
    pub fn data_transformations(&self) -> (r: Vec<ElementRef>)
        ensures
            ref_paths(r@) == group_data_transformations_of(self@.element),
            forall|i: int| 0 <= i < r@.len() ==> (#[trigger] r@[i])@.kind == ElementName::DataTransformation,
    {
        targets_in(
            &self.element,
            ElementName::ComBasedSignalGroupTransformations,
            Some(ElementName::DataTransformationRef),
            ElementName::DataTransformation,
        )
    }
}

//#########################################################
// signal triggerings and signal ports

/// the signal triggered by a triggering
pub open spec fn triggered_signal_of(e: ElementView) -> Option<Seq<char>> {
    reference_at(e, seq![ElementName::ISignalRef], ElementName::ISignal)
}

/// the signal group triggered by a triggering
pub open spec fn triggered_group_of(e: ElementView) -> Option<Seq<char>> {
    reference_at(e, seq![ElementName::ISignalGroupRef], ElementName::ISignalGroup)
}

/// the signal ports connected to a triggering
pub open spec fn signal_ports_of(e: ElementView) -> Seq<Seq<char>> {
    listed_targets(e, ElementName::ISignalPortRefs, None, ElementName::ISignalPort)
}

/// the name of the triggering of the signal (or group) named `name`
pub open spec fn triggering_name(name: Seq<char>) -> Seq<char> {
    "ST_"@ + name
}

/// the element of a new triggering named `name` whose reference `ref_name` refers to `target`
pub open spec fn new_triggering_element(name: Seq<char>, ref_name: ElementName, target: ElementRefView) -> ElementView {
    with_reference(identifiable_element(ElementName::ISignalTriggering, name), seq![ref_name], target)
}

/// the name of the port through which the triggering named `name` connects in `direction`
pub open spec fn port_name(name: Seq<char>, direction: CommunicationDirection) -> Seq<char> {
    name + "_"@ + match direction {
        CommunicationDirection::In => "Rx"@,
        CommunicationDirection::Out => "Tx"@,
    }
}

/// the element of a new signal port
pub open spec fn new_port_element(name: Seq<char>, direction: CommunicationDirection) -> ElementView {
    node(
        ElementName::ISignalPort,
        seq![
            leaf(ElementName::ShortName, CharacterDataView::String(name)),
            leaf(ElementName::CommunicationDirection, CharacterDataView::Enum(direction_item(direction))),
        ],
    )
}

/// the communication direction of a port
pub open spec fn direction_of(e: ElementView) -> Option<CommunicationDirection> {
    match data_of(sub_element(e, ElementName::CommunicationDirection)) {
        Some(cd) => match spec_enum_value(cd) {
            Some(item) => direction_from_item(item),
            None => None,
        },
        None => None,
    }
}

/// What the caller found of a signal port of a triggering: the ECU it belongs to and its
/// direction.
pub struct PortConnection {
    pub ecu: Option<ElementRef>,
    pub direction: Option<CommunicationDirection>,
}

/// whether a port belongs to the ECU and has the direction
pub open spec fn port_matches(p: PortConnection, ecu: ElementRefView, direction: CommunicationDirection) -> bool {
    &&& p.ecu matches Some(x) && x@ == ecu
    &&& p.direction == Some(direction)
}

/// `i` is the first of `ports` that belongs to the ECU and has the direction
pub open spec fn first_matching_port(ports: Seq<PortConnection>, ecu: ElementRefView, direction: CommunicationDirection, i: int) -> bool {
    &&& 0 <= i < ports.len()
    &&& port_matches(ports[i], ecu, direction)
    &&& forall|j: int| 0 <= j < i ==> !port_matches(#[trigger] ports[j], ecu, direction)
}

/// Law: once a triggering was connected to an ECU in a direction through a new port, a
/// second connection in that direction finds that port: it is the first of the ports,
/// taken with its ECU and direction, that matches.
pub proof fn lemma_connect_again(ports: Seq<PortConnection>, ecu: ElementRef, direction: CommunicationDirection)
    requires
        !(exists|i: int| 0 <= i < ports.len() && port_matches(#[trigger] ports[i], ecu@, direction)),
    ensures
        first_matching_port(
            ports.push(PortConnection { ecu: Some(ecu), direction: Some(direction) }),
            ecu@,
            direction,
            ports.len() as int,
        ),
{
    let t = ports.push(PortConnection { ecu: Some(ecu), direction: Some(direction) });
    assert forall|j: int| 0 <= j < ports.len() implies !port_matches(#[trigger] t[j], ecu@, direction) by {
        assert(t[j] == ports[j]);
    }
}

/// The port through which a triggering is connected to an ECU.
pub enum ConnectedPort {
    /// a port that was there already
    Existing(ElementRef),
    /// a new port, to be placed in the communication connector of the ECU
    Created(ISignalPort),
}

/// the message of the error for an ECU that is not connected to the channel
pub open spec fn not_connected_message() -> Seq<char> {
    "The ECU is not connected to the channel"@
}

impl ISignalTriggering {
    /// A new triggering of `signal` in the channel at `channel_path`, named after the
    /// signal and made unique among the names `taken` in the channel. Fails if the signal has
    /// no name.
    pub fn new(signal: &ISignal, channel_path: &str, taken: &Vec<String>) -> (r: Result<ISignalTriggering, AutosarAbstractionError>)
        ensures
            match short_name_of(signal@.element) {
                None => r matches Err(AutosarAbstractionError::InvalidParameter(m)) && m@ == "invalid signal"@,
                Some(n) => r matches Ok(t) && exists|name: Seq<char>| {
                    &&& is_first_free_name(name, triggering_name(n), texts(taken@))
                    &&& t@.path == #[trigger] child_path(channel_path@, name)
                    &&& t@.element == new_triggering_element(
                        name,
                        ElementName::ISignalRef,
                        ElementRefView { kind: ElementName::ISignal, path: signal@.path },
                    )
                    &&& triggered_signal_of(t@.element) == Some(signal@.path)
                },
            },
    {
        let name = match signal.name() {
            Some(n) => n,
            None => {
                return Err(AutosarAbstractionError::InvalidParameter("invalid signal".to_owned()));
            },
        };
        let base = concat("ST_", name.as_str());
        let pt_name = unique_name(base.as_str(), taken);
        let (path, mut element) = new_identifiable(ElementName::ISignalTriggering, pt_name.as_str(), channel_path);
        let target = signal.element_ref();
        set_reference_in(&mut element, &one_name_path(ElementName::ISignalRef), &target);
        proof {
            lemma_reference_reads_back(
                identifiable_element(ElementName::ISignalTriggering, pt_name@),
                seq![ElementName::ISignalRef],
                target@,
            );
            assert(child_path(channel_path@, pt_name@) == path@);
        }
        Ok(ISignalTriggering { path, element })
    }

    /// A new triggering of `signal_group` in the channel at `channel_path`, named after
    /// the group and made unique among the names `taken` in the channel. Fails if the group
    /// has no name.
    pub fn new_group(signal_group: &ISignalGroup, channel_path: &str, taken: &Vec<String>) -> (r: Result<ISignalTriggering, AutosarAbstractionError>)
        ensures
            match short_name_of(signal_group@.element) {
                None => r matches Err(AutosarAbstractionError::InvalidParameter(m)) && m@ == "invalid signal group"@,
                Some(n) => r matches Ok(t) && exists|name: Seq<char>| {
                    &&& is_first_free_name(name, triggering_name(n), texts(taken@))
                    &&& t@.path == #[trigger] child_path(channel_path@, name)
                    &&& t@.element == new_triggering_element(
                        name,
                        ElementName::ISignalGroupRef,
                        ElementRefView { kind: ElementName::ISignalGroup, path: signal_group@.path },
                    )
                    &&& triggered_group_of(t@.element) == Some(signal_group@.path)
                },
            },
    {
        let name = match signal_group.name() {
            Some(n) => n,
            None => {
                return Err(AutosarAbstractionError::InvalidParameter("invalid signal group".to_owned()));
            },
        };
        let base = concat("ST_", name.as_str());
        let pt_name = unique_name(base.as_str(), taken);
        let (path, mut element) = new_identifiable(ElementName::ISignalTriggering, pt_name.as_str(), channel_path);
        let target = signal_group.element_ref();
        set_reference_in(&mut element, &one_name_path(ElementName::ISignalGroupRef), &target);
        proof {
            lemma_reference_reads_back(
                identifiable_element(ElementName::ISignalTriggering, pt_name@),
                seq![ElementName::ISignalGroupRef],
                target@,
            );
            assert(child_path(channel_path@, pt_name@) == path@);
        }
        Ok(ISignalTriggering { path, element })
    }

    /// the signal that is triggered by this triggering
    pub fn signal(&self) -> (r: Option<ElementRef>)
        ensures
            opt_ref_path(r) == triggered_signal_of(self@.element),
            r matches Some(t) ==> t@.kind == ElementName::ISignal,
    {
        reference_in(&self.element, &one_name_path(ElementName::ISignalRef), ElementName::ISignal)
    }

    /// the signal ports that are connected to this triggering
    pub fn signal_ports(&self) -> (r: Vec<ElementRef>)
        ensures
            ref_paths(r@) == signal_ports_of(self@.element),
            forall|i: int| 0 <= i < r@.len() ==> (#[trigger] r@[i])@.kind == ElementName::ISignalPort,
    {
        targets_in(&self.element, ElementName::ISignalPortRefs, None, ElementName::ISignalPort)
    }

    /// Connect this triggering to an ECU in the given direction. `ports` are the signal
    /// ports of this triggering with their ECU and direction; `connector_path` is the path
    /// of the communication connector through which the ECU is connected to the channel,
    /// if it is. A port of the ECU with the direction is reused; otherwise a new port,
    /// named after the triggering and the direction, is made and listed here.
    pub fn connect_to_ecu(
        &mut self,
        ports: &Vec<PortConnection>,
        ecu: &ElementRef,
        direction: CommunicationDirection,
        connector_path: Option<&str>,
    ) -> (r: Result<ConnectedPort, AutosarAbstractionError>)
        requires
            ports@.len() == signal_ports_of(old(self)@.element).len(),
        ensures
            final(self)@.path == old(self)@.path,
            (exists|i: int| 0 <= i < ports@.len() && port_matches(#[trigger] ports@[i], ecu@, direction)) ==> {
                &&& final(self)@ == old(self)@
                &&& r matches Ok(ConnectedPort::Existing(p)) && exists|i: int|
                    first_matching_port(ports@, ecu@, direction, i) && p@ == (ElementRefView {
                        kind: ElementName::ISignalPort,
                        path: #[trigger] signal_ports_of(old(self)@.element)[i],
                    })
            },
            !(exists|i: int| 0 <= i < ports@.len() && port_matches(#[trigger] ports@[i], ecu@, direction)) ==> match connector_path {
                None => final(self)@ == old(self)@ && (r matches Err(
                    AutosarAbstractionError::InvalidParameter(m),
                ) && m@ == not_connected_message()),
                Some(c) => match short_name_of(old(self)@.element) {
                    None => final(self)@ == old(self)@ && r == Err::<ConnectedPort, AutosarAbstractionError>(
                        AutosarAbstractionError::ItemDeleted,
                    ),
                    Some(n) => r matches Ok(ConnectedPort::Created(port)) && {
                        &&& port@.path == child_path(c@, port_name(n, direction))
                        &&& port@.element == new_port_element(port_name(n, direction), direction)
                        &&& final(self)@.element == with_appended(
                            old(self)@.element,
                            seq![ElementName::ISignalPortRefs],
                            reference_entry(
                                None,
                                ElementName::ISignalPortRef,
                                ElementRefView { kind: ElementName::ISignalPort, path: port@.path },
                            ),
                        )
                        &&& signal_ports_of(final(self)@.element) == signal_ports_of(old(self)@.element).push(
                            port@.path,
                        )
                    },
                },
            },
    {
        let own_ports = self.signal_ports();
        let mut i: usize = 0;
        while i < ports.len()
            invariant
                i <= ports@.len(),
                ports@.len() == own_ports@.len(),
                ref_paths(own_ports@) == signal_ports_of(self@.element),
                forall|k: int| 0 <= k < own_ports@.len() ==> (#[trigger] own_ports@[k])@.kind == ElementName::ISignalPort,
                forall|j: int| 0 <= j < i ==> !port_matches(#[trigger] ports@[j], ecu@, direction),
            decreases ports@.len() - i,
        {
            let p = &ports[i];
            let found = match (&p.ecu, p.direction) {
                (Some(x), Some(d)) => x.kind == ecu.kind && x.path == ecu.path && d == direction,
                _ => false,
            };
            if found {
                assert(first_matching_port(ports@, ecu@, direction, i as int));
                assert(ref_paths(own_ports@)[i as int] == own_ports@[i as int]@.path);
                return Ok(ConnectedPort::Existing(own_ports[i].clone_ref()));
            }
            i = i + 1;
        }
        let connector = match connector_path {
            Some(c) => c,
            None => {
                return Err(AutosarAbstractionError::InvalidParameter(
                    "The ECU is not connected to the channel".to_owned(),
                ));
            },
        };
        let name = match self.name() {
            Some(n) => n,
            None => {
                return Err(AutosarAbstractionError::ItemDeleted);
            },
        };
        let suffix = match direction {
            CommunicationDirection::In => "_Rx",
            CommunicationDirection::Out => "_Tx",
        };
        proof {
            reveal_strlit("_Rx");
            reveal_strlit("_Tx");
            reveal_strlit("_");
            reveal_strlit("Rx");
            reveal_strlit("Tx");
            assert(suffix@ == "_"@ + match direction {
                CommunicationDirection::In => "Rx"@,
                CommunicationDirection::Out => "Tx"@,
            });
        }
        let pname = concat(name.as_str(), suffix);
        assert(pname@ == port_name(name@, direction));
        let (port_path, mut port_element) = new_identifiable(ElementName::ISignalPort, pname.as_str(), connector);
        let mut d = Element::new(ElementName::CommunicationDirection);
        d.set_character_data(CharacterData::Enum(direction.to_enum_item()));
        port_element.push_sub_element(d);
        assert(port_element@.sub_elements =~= new_port_element(pname@, direction).sub_elements);
        let port = ISignalPort { path: port_path, element: port_element };
        let target = port.element_ref();
        proof {
            use_type_invariant(&*self);
        }
        let mut e = Element::new(ElementName::ISignalTriggering);
        std::mem::swap(&mut e, &mut self.element);
        append_reference_in(&mut e, ElementName::ISignalPortRefs, None, ElementName::ISignalPortRef, &target);
        self.element = e;
        proof {
            lemma_appended_entry_listed(old(self)@.element, ElementName::ISignalPortRefs, None, ElementName::ISignalPortRef, target@);
        }
        Ok(ConnectedPort::Created(port))
    }
}

impl ISignalPort {
    /// set the communication direction of this port
    pub fn set_communication_direction(&mut self, direction: CommunicationDirection) -> (r: Result<(), AutosarAbstractionError>)
        ensures
            r is Ok,
            final(self)@.path == old(self)@.path,
            final(self)@.element == updated_at(
                old(self)@.element,
                seq![ElementName::CommunicationDirection],
                LeafUpdateView::Data(CharacterDataView::Enum(direction_item(direction))),
            ),
            direction_of(final(self)@.element) == Some(direction),
    {
        let path = one_name_path(ElementName::CommunicationDirection);
        let item = direction.to_enum_item();
        proof {
            use_type_invariant(&*self);
            lemma_whole_path(path@);
            lemma_updated_keeps_name(self.element@, path@, LeafUpdateView::Data(CharacterDataView::Enum(item)));
            lemma_leaf_data_reads_back(self.element@, ElementName::CommunicationDirection, CharacterDataView::Enum(item));
        }
        let mut e = Element::new(ElementName::ISignalPort);
        std::mem::swap(&mut e, &mut self.element);
        e.update_at(&path, 0, LeafUpdate::Data(CharacterData::Enum(item)));
        self.element = e;
        Ok(())
    }

    /// the communication direction of this port
    pub fn communication_direction(&self) -> (r: Option<CommunicationDirection>)
        ensures
            r == direction_of(self@.element),
    {
        let item = self.element.get_sub_element(ElementName::CommunicationDirection)?.character_data()?.enum_value()?;
        match CommunicationDirection::try_from(item) {
            Ok(d) => Some(d),
            Err(_) => None,
        }
    }
}

/// Law: a new port has the name and the direction it was made with.
pub proof fn lemma_new_port(name: Seq<char>, direction: CommunicationDirection)
    ensures
        short_name_of(new_port_element(name, direction)) == Some(name),
        direction_of(new_port_element(name, direction)) == Some(direction),
{
    let s = new_port_element(name, direction).sub_elements;
    lemma_first_index(s, ElementName::ShortName);
    lemma_first_index(s, ElementName::CommunicationDirection);
    assert(s[0].name == ElementName::ShortName);
    assert(s[1].name == ElementName::CommunicationDirection);
    assert(sub_element(new_port_element(name, direction), ElementName::CommunicationDirection) == Some(s[1]));
}

//#########################################################
// what a deep removal may take along

/// an optional path as a sequence of none or one paths
pub open spec fn opt_paths(o: Option<Seq<char>>) -> Seq<Seq<char>> {
    match o {
        Some(p) => seq![p],
        None => Seq::empty(),
    }
}

fn push_opt(r: &mut Vec<ElementRef>, o: Option<ElementRef>)
    ensures
        ref_paths(final(r)@) == ref_paths(old(r)@) + opt_paths(opt_ref_path(o)),
        final(r)@.len() == old(r)@.len() + (if o is Some { 1int } else { 0int }),
        forall|i: int| 0 <= i < old(r)@.len() ==> #[trigger] final(r)@[i] == old(r)@[i],
        o matches Some(t) ==> final(r)@[old(r)@.len() as int] == t,
{
    if let Some(t) = o {
        r.push(t);
        assert(ref_paths(r@) =~= ref_paths(old(r)@) + opt_paths(opt_ref_path(Some(t))));
    } else {
        assert(ref_paths(r@) =~= ref_paths(old(r)@) + opt_paths(opt_ref_path(None)));
    }
}

fn append_refs(r: &mut Vec<ElementRef>, more: Vec<ElementRef>)
    ensures
        ref_paths(final(r)@) == ref_paths(old(r)@) + ref_paths(more@),
        final(r)@ == old(r)@ + more@,
{
    let mut more = more;
    let ghost m = more@;
    r.append(&mut more);
    assert(ref_paths(r@) =~= ref_paths(old(r)@) + ref_paths(m));
}

impl ISignal {
    /// The items that a deep removal of this signal may take along, in the order in which
    /// they are considered: its signal group (`group`, which the caller finds among the
    /// elements that refer to this signal), its data type, its system signal and its data
    /// transformations.
    pub fn removal_candidates(&self, group: Option<&ElementRef>) -> (r: Vec<ElementRef>)
        ensures
            ref_paths(r@) == opt_paths(opt_ref_path(match group {
                Some(g) => Some(*g),
                None => None,
            })) + opt_paths(datatype_of(self@.element)) + opt_paths(system_signal_of(self@.element))
                + data_transformations_of(self@.element),
    {
        let mut r: Vec<ElementRef> = Vec::new();
        let g = match group {
            Some(g) => Some(g.clone_ref()),
            None => None,
        };
        push_opt(&mut r, g);
        push_opt(&mut r, self.datatype());
        push_opt(&mut r, self.system_signal());
        append_refs(&mut r, self.data_transformations());
        r
    }
}

impl SystemSignal {
    /// The items that a deep removal of this system signal may take along, in the order in
    /// which they are considered: its unit, its compu method and its data constraint.
    pub fn removal_candidates(&self) -> (r: Vec<ElementRef>)
        ensures
            ref_paths(r@) == opt_paths(unit_of(self@.element)) + opt_paths(physical_compu_method_of(self@.element))
                + opt_paths(data_constr_of(self@.element)),
    {
        let mut r: Vec<ElementRef> = Vec::new();
        let unit = match self.unit() {
            Some(u) => Some(ElementRef { kind: ElementName::Unit, path: u.path }),
            None => None,
        };
        push_opt(&mut r, unit);
        push_opt(&mut r, self.compu_method());
        push_opt(&mut r, self.data_constr());
        r
    }
}

impl ISignalGroup {
    /// The items that a deep removal of this signal group may take along, in the order in
    /// which they are considered: its signals and its system signal group.
    pub fn removal_candidates(&self) -> (r: Vec<ElementRef>)
        ensures
            ref_paths(r@) == isignals_of(self@.element) + opt_paths(system_signal_group_of(self@.element)),
    {
        let mut r: Vec<ElementRef> = Vec::new();
        append_refs(&mut r, self.signals());
        assert(ref_paths(Seq::<ElementRef>::empty()) + isignals_of(self@.element) =~= isignals_of(self@.element));
        push_opt(&mut r, self.system_signal_group());
        r
    }
}

impl ISignalTriggering {
    /// The items that a deep removal of this triggering may take along: its signal.
    pub fn removal_candidates(&self) -> (r: Vec<ElementRef>)
        ensures
            ref_paths(r@) == opt_paths(triggered_signal_of(self@.element)),
    {
        let mut r: Vec<ElementRef> = Vec::new();
        push_opt(&mut r, self.signal());
        assert(ref_paths(Seq::<ElementRef>::empty()) + opt_paths(triggered_signal_of(self@.element)) =~= opt_paths(
            triggered_signal_of(self@.element),
        ));
        r
    }
}

//#########################################################
// what a removal takes along in any case

/// A triggering of a signal, with the signal ports connected to it.
pub struct TriggeringPorts {
    pub triggering: ElementRef,
    pub ports: Vec<ElementRef>,
}

/// the views of a sequence of references
pub open spec fn ref_views(s: Seq<ElementRef>) -> Seq<ElementRefView> {
    s.map_values(|t: ElementRef| t@)
}

/// what removing triggerings removes: for each in turn, its ports and then itself
pub open spec fn triggering_removals(t: Seq<TriggeringPorts>) -> Seq<ElementRefView>
    decreases t.len(),
{
    if t.len() == 0 {
        Seq::empty()
    } else {
        triggering_removals(t.drop_last()) + ref_views(t.last().ports@) + seq![t.last().triggering@]
    }
}

/// what removing a signal removes in any case: the signal, its mappings into PDUs, and
/// its triggerings with their ports
pub open spec fn isignal_removals_of(signal: ElementRefView, mappings: Seq<ElementRef>, triggerings: Seq<TriggeringPorts>) -> Seq<ElementRefView> {
    seq![signal] + ref_views(mappings) + triggering_removals(triggerings)
}

fn append_views(r: &mut Vec<ElementRef>, more: &Vec<ElementRef>)
    ensures
        ref_views(final(r)@) == ref_views(old(r)@) + ref_views(more@),
{
    let mut i: usize = 0;
    while i < more.len()
        invariant
            i <= more@.len(),
            ref_views(r@) == ref_views(old(r)@) + ref_views(more@.subrange(0, i as int)),
        decreases more@.len() - i,
    {
        let ghost before = r@;
        r.push(more[i].clone_ref());
        assert(ref_views(r@) =~= ref_views(before).push(more@[i as int]@));
        assert(ref_views(more@.subrange(0, i + 1)) =~= ref_views(more@.subrange(0, i as int)).push(more@[i as int]@));
        assert(ref_views(r@) =~= ref_views(old(r)@) + ref_views(more@.subrange(0, i + 1)));
        i = i + 1;
    }
    assert(more@.subrange(0, more@.len() as int) =~= more@);
}

impl ISignal {
    /// What removing this signal removes in any case, in order: the signal, its mappings
    /// into PDUs and, for each of its triggerings, the triggering's signal ports and the
    /// triggering. `mappings` and `triggerings` are what the caller finds among the
    /// elements that refer to this signal. What a deep removal takes along besides is
    /// given by `removal_candidates` and `dependent_removals`.
    pub fn removals(&self, mappings: &Vec<ElementRef>, triggerings: &Vec<TriggeringPorts>) -> (r: Vec<ElementRef>)
        ensures
            ref_views(r@) == isignal_removals_of(
                ElementRefView { kind: ElementName::ISignal, path: self@.path },
                mappings@,
                triggerings@,
            ),
    {
        let mut r: Vec<ElementRef> = Vec::new();
        r.push(self.element_ref());
        assert(ref_views(r@) =~= seq![ElementRefView { kind: ElementName::ISignal, path: self@.path }]);
        append_views(&mut r, mappings);
        let ghost head = ref_views(r@);
        let mut i: usize = 0;
        assert(triggerings@.subrange(0, 0) =~= Seq::<TriggeringPorts>::empty());
        assert(head + triggering_removals(triggerings@.subrange(0, 0)) =~= head);
        while i < triggerings.len()
            invariant
                i <= triggerings@.len(),
                ref_views(r@) == head + triggering_removals(triggerings@.subrange(0, i as int)),
            decreases triggerings@.len() - i,
        {
            append_views(&mut r, &triggerings[i].ports);
            let ghost before = r@;
            r.push(triggerings[i].triggering.clone_ref());
            proof {
                let t = triggerings@.subrange(0, i + 1);
                assert(t.drop_last() =~= triggerings@.subrange(0, i as int));
                assert(t.last() == triggerings@[i as int]);
                assert(ref_views(r@) =~= ref_views(before).push(triggerings@[i as int].triggering@));
                assert(ref_views(r@) =~= head + triggering_removals(t));
            }
            i = i + 1;
        }
        assert(triggerings@.subrange(0, triggerings@.len() as int) =~= triggerings@);
        r
    }
}

/// the given items, each to be removed as `how`
pub open spec fn removed_as(items: Seq<ElementRefView>, how: RemovalKind) -> Seq<(ElementRefView, RemovalKind)> {
    items.map_values(|x: ElementRefView| (x, how))
}

/// the references to the elements of kind `kind` at the given paths
pub open spec fn refs_at(kind: ElementName, paths: Seq<Seq<char>>) -> Seq<ElementRefView> {
    paths.map_values(|p: Seq<char>| ElementRefView { kind: kind, path: p })
}

fn push_all_as(r: &mut Vec<Removal>, items: &Vec<ElementRef>, how: RemovalKind)
    ensures
        removal_views(final(r)@) == removal_views(old(r)@) + removed_as(ref_views(items@), how),
{
    let mut i: usize = 0;
    assert(removal_views(r@) =~= removal_views(old(r)@) + removed_as(ref_views(items@.subrange(0, 0)), how));
    while i < items.len()
        invariant
            i <= items@.len(),
            removal_views(r@) == removal_views(old(r)@) + removed_as(ref_views(items@.subrange(0, i as int)), how),
        decreases items@.len() - i,
    {
        let ghost before = r@;
        r.push(Removal { item: items[i].clone_ref(), how: how });
        assert(removal_views(r@) =~= removal_views(before).push((items@[i as int]@, how)));
        assert(removed_as(ref_views(items@.subrange(0, i + 1)), how) =~= removed_as(
            ref_views(items@.subrange(0, i as int)),
            how,
        ).push((items@[i as int]@, how)));
        i = i + 1;
    }
    assert(items@.subrange(0, items@.len() as int) =~= items@);
}

/// what removing a system signal removes, in order: each signal among the elements that
/// refer to it, by the removal of a signal, and then the system signal itself
pub open spec fn system_signal_removals_of(system_signal: ElementRefView, referring_parents: Seq<ElementRef>) -> Seq<(ElementRefView, RemovalKind)> {
    removed_as(of_kind(ref_views(referring_parents), ElementName::ISignal), RemovalKind::Signal)
        + seq![(system_signal, RemovalKind::Element)]
}

/// what removing a signal group removes in any case, in order: the group itself and then
/// each sender receiver mapping among the elements that refer to it
pub open spec fn isignal_group_removals_of(group: ElementRefView, referring_parents: Seq<ElementRef>) -> Seq<(ElementRefView, RemovalKind)> {
    seq![(group, RemovalKind::Element)] + removed_as(
        of_kind(ref_views(referring_parents), ElementName::SenderReceiverToSignalMapping),
        RemovalKind::Element,
    )
}

/// what removing a triggering removes in any case, in order: its signal ports and then the
/// triggering itself
pub open spec fn isignal_triggering_removals_of(triggering: ElementRefView, ports: Seq<Seq<char>>) -> Seq<(ElementRefView, RemovalKind)> {
    removed_as(refs_at(ElementName::ISignalPort, ports), RemovalKind::Element) + seq![(triggering, RemovalKind::Element)]
}

impl SystemSignal {
    /// What removing this system signal removes, in order: each signal among
    /// `referring_parents` (the named parents of the references to it), by the removal of a
    /// signal, and then the system signal itself. What a deep removal takes along besides
    /// is given by `removal_candidates` and `dependent_removals`.
    pub fn removals(&self, referring_parents: &Vec<ElementRef>) -> (r: Vec<Removal>)
        ensures
            removal_views(r@) == system_signal_removals_of(
                ElementRefView { kind: ElementName::SystemSignal, path: self@.path },
                referring_parents@,
            ),
    {
        let signals = refs_of_kind(referring_parents, ElementName::ISignal);
        assert(ref_views(signals@) =~= of_kind(ref_views(referring_parents@), ElementName::ISignal));
        let mut r: Vec<Removal> = Vec::new();
        push_all_as(&mut r, &signals, RemovalKind::Signal);
        let ghost before = r@;
        r.push(Removal { item: self.element_ref(), how: RemovalKind::Element });
        assert(removal_views(r@) =~= removal_views(before).push(
            (ElementRefView { kind: ElementName::SystemSignal, path: self@.path }, RemovalKind::Element),
        ));
        r
    }
}

impl ISignalGroup {
    /// What removing this signal group removes in any case, in order: the group itself and
    /// then each sender receiver mapping among `referring_parents` (the named parents of
    /// the references to it). What a deep removal takes along besides is given by
    /// `removal_candidates` and `dependent_removals`.
    pub fn removals(&self, referring_parents: &Vec<ElementRef>) -> (r: Vec<Removal>)
        ensures
            removal_views(r@) == isignal_group_removals_of(
                ElementRefView { kind: ElementName::ISignalGroup, path: self@.path },
                referring_parents@,
            ),
    {
        let mappings = refs_of_kind(referring_parents, ElementName::SenderReceiverToSignalMapping);
        assert(ref_views(mappings@) =~= of_kind(
            ref_views(referring_parents@),
            ElementName::SenderReceiverToSignalMapping,
        ));
        let mut r: Vec<Removal> = Vec::new();
        r.push(Removal { item: self.element_ref(), how: RemovalKind::Element });
        assert(removal_views(r@) =~= seq![
            (ElementRefView { kind: ElementName::ISignalGroup, path: self@.path }, RemovalKind::Element),
        ]);
        push_all_as(&mut r, &mappings, RemovalKind::Element);
        r
    }
}

impl ISignalTriggering {
    /// What removing this triggering removes in any case, in order: its signal ports and
    /// then the triggering itself. What a deep removal takes along besides is given by
    /// `removal_candidates` and `dependent_removals`.
    pub fn removals(&self) -> (r: Vec<Removal>)
        ensures
            removal_views(r@) == isignal_triggering_removals_of(
                ElementRefView { kind: ElementName::ISignalTriggering, path: self@.path },
                signal_ports_of(self@.element),
            ),
    {
        let ports = self.signal_ports();
        assert(ref_views(ports@) =~= refs_at(ElementName::ISignalPort, signal_ports_of(self@.element))) by {
            assert(ref_paths(ports@).len() == ports@.len());
            assert forall|i: int| 0 <= i < ports@.len() implies #[trigger] ref_views(ports@)[i] == refs_at(
                ElementName::ISignalPort,
                signal_ports_of(self@.element),
            )[i] by {
                assert(ref_paths(ports@)[i] == ports@[i]@.path);
                assert(ports@[i]@.kind == ElementName::ISignalPort);
            }
        }
        let mut r: Vec<Removal> = Vec::new();
        push_all_as(&mut r, &ports, RemovalKind::Element);
        let ghost before = r@;
        r.push(Removal { item: self.element_ref(), how: RemovalKind::Element });
        assert(removal_views(r@) =~= removal_views(before).push(
            (ElementRefView { kind: ElementName::ISignalTriggering, path: self@.path }, RemovalKind::Element),
        ));
        assert(removal_views(Seq::<Removal>::empty()) =~= Seq::<(ElementRefView, RemovalKind)>::empty());
        r
    }
}

/// Removing a system signal removes the system signal itself and each signal that refers
/// to it, the latter by the removal of a signal, and nothing else.
pub proof fn lemma_system_signal_removals(system_signal: ElementRefView, referring_parents: Seq<ElementRef>)
    ensures
        system_signal_removals_of(system_signal, referring_parents).contains((system_signal, RemovalKind::Element)),
        forall|i: int|
            0 <= i < referring_parents.len() && (#[trigger] referring_parents[i])@.kind == ElementName::ISignal
                ==> system_signal_removals_of(system_signal, referring_parents).contains(
                (referring_parents[i]@, RemovalKind::Signal),
            ),
        forall|x: (ElementRefView, RemovalKind)|
            #[trigger] system_signal_removals_of(system_signal, referring_parents).contains(x) ==> x == (
                system_signal,
                RemovalKind::Element,
            ) || (x.1 == RemovalKind::Signal && x.0.kind == ElementName::ISignal && ref_views(
                referring_parents,
            ).contains(x.0)),
{
    let r = system_signal_removals_of(system_signal, referring_parents);
    let v = ref_views(referring_parents);
    let pred = |t: ElementRefView| t.kind == ElementName::ISignal;
    let f = v.filter(pred);
    let a = removed_as(f, RemovalKind::Signal);
    assert(r[r.len() - 1] == (system_signal, RemovalKind::Element));
    assert forall|i: int|
        0 <= i < referring_parents.len() && (#[trigger] referring_parents[i])@.kind == ElementName::ISignal
            implies r.contains((referring_parents[i]@, RemovalKind::Signal)) by {
        assert(v[i] == referring_parents[i]@);
        v.lemma_filter_contains(pred, i);
        let j = choose|j: int| 0 <= j < f.len() && f[j] == v[i];
        assert(r[j] == a[j]);
    }
    assert forall|x: (ElementRefView, RemovalKind)| #[trigger] r.contains(x) implies x == (
        system_signal,
        RemovalKind::Element,
    ) || (x.1 == RemovalKind::Signal && x.0.kind == ElementName::ISignal && v.contains(x.0)) by {
        let j = choose|j: int| 0 <= j < r.len() && r[j] == x;
        if j < a.len() {
            assert(x == (f[j], RemovalKind::Signal));
            v.lemma_filter_pred(pred, j);
            assert(f.contains(f[j]));
            v.lemma_filter_contains_rev(pred, f[j]);
        }
    }
}

/// Removing a signal group removes in any case the group itself and each sender receiver
/// mapping that refers to it, as plain elements, and nothing else.
pub proof fn lemma_isignal_group_removals(group: ElementRefView, referring_parents: Seq<ElementRef>)
    ensures
        isignal_group_removals_of(group, referring_parents).contains((group, RemovalKind::Element)),
        forall|i: int|
            0 <= i < referring_parents.len() && (#[trigger] referring_parents[i])@.kind
                == ElementName::SenderReceiverToSignalMapping ==> isignal_group_removals_of(group, referring_parents).contains(
                (referring_parents[i]@, RemovalKind::Element),
            ),
        forall|x: (ElementRefView, RemovalKind)|
            #[trigger] isignal_group_removals_of(group, referring_parents).contains(x) ==> x == (
                group,
                RemovalKind::Element,
            ) || (x.1 == RemovalKind::Element && x.0.kind == ElementName::SenderReceiverToSignalMapping
                && ref_views(referring_parents).contains(x.0)),
{
    let r = isignal_group_removals_of(group, referring_parents);
    let v = ref_views(referring_parents);
    let pred = |t: ElementRefView| t.kind == ElementName::SenderReceiverToSignalMapping;
    let f = v.filter(pred);
    let b = removed_as(f, RemovalKind::Element);
    assert(r[0] == (group, RemovalKind::Element));
    assert forall|i: int|
        0 <= i < referring_parents.len() && (#[trigger] referring_parents[i])@.kind
            == ElementName::SenderReceiverToSignalMapping implies r.contains(
        (referring_parents[i]@, RemovalKind::Element),
    ) by {
        assert(v[i] == referring_parents[i]@);
        v.lemma_filter_contains(pred, i);
        let j = choose|j: int| 0 <= j < f.len() && f[j] == v[i];
        assert(r[j + 1] == b[j]);
    }
    assert forall|x: (ElementRefView, RemovalKind)| #[trigger] r.contains(x) implies x == (group, RemovalKind::Element)
        || (x.1 == RemovalKind::Element && x.0.kind == ElementName::SenderReceiverToSignalMapping && v.contains(
        x.0,
    )) by {
        let j = choose|j: int| 0 <= j < r.len() && r[j] == x;
        if j > 0 {
            assert(x == b[j - 1]);
            assert(x == (f[j - 1], RemovalKind::Element));
            v.lemma_filter_pred(pred, j - 1);
            assert(f.contains(f[j - 1]));
            v.lemma_filter_contains_rev(pred, f[j - 1]);
        }
    }
}

/// Removing a triggering removes in any case the triggering itself and each of its signal
/// ports, as plain elements, and nothing else.
pub proof fn lemma_isignal_triggering_removals(triggering: ElementRefView, ports: Seq<Seq<char>>)
    ensures
        isignal_triggering_removals_of(triggering, ports).contains((triggering, RemovalKind::Element)),
        forall|i: int|
            0 <= i < ports.len() ==> isignal_triggering_removals_of(triggering, ports).contains(
                (ElementRefView { kind: ElementName::ISignalPort, path: #[trigger] ports[i] }, RemovalKind::Element),
            ),
        forall|x: (ElementRefView, RemovalKind)|
            #[trigger] isignal_triggering_removals_of(triggering, ports).contains(x) ==> x == (
                triggering,
                RemovalKind::Element,
            ) || (x.1 == RemovalKind::Element && x.0.kind == ElementName::ISignalPort && ports.contains(x.0.path)),
{
    let r = isignal_triggering_removals_of(triggering, ports);
    assert(r[r.len() - 1] == (triggering, RemovalKind::Element));
    assert forall|i: int| 0 <= i < ports.len() implies r.contains(
        (ElementRefView { kind: ElementName::ISignalPort, path: #[trigger] ports[i] }, RemovalKind::Element),
    ) by {
        assert(r[i] == (ElementRefView { kind: ElementName::ISignalPort, path: ports[i] }, RemovalKind::Element));
    }
    assert forall|x: (ElementRefView, RemovalKind)| #[trigger] r.contains(x) implies x == (triggering, RemovalKind::Element)
        || (x.1 == RemovalKind::Element && x.0.kind == ElementName::ISignalPort && ports.contains(x.0.path)) by {
        let j = choose|j: int| 0 <= j < r.len() && r[j] == x;
        if j < ports.len() {
            assert(x.0.path == ports[j]);
        }
    }
}

proof fn lemma_triggering_removals_members(t: Seq<TriggeringPorts>)
    ensures
        forall|k: int| 0 <= k < t.len() ==> triggering_removals(t).contains((#[trigger] t[k]).triggering@),
        forall|k: int, j: int|
            #![trigger t[k].ports@[j]]
            0 <= k < t.len() && 0 <= j < t[k].ports@.len() ==> triggering_removals(t).contains(t[k].ports@[j]@),
        forall|x: ElementRefView|
            #[trigger] triggering_removals(t).contains(x) ==> exists|k: int|
                0 <= k < t.len() && (x == (#[trigger] t[k]).triggering@ || ref_views(t[k].ports@).contains(x)),
    decreases t.len(),
{
    if t.len() > 0 {
        let init = t.drop_last();
        let last = t.last();
        lemma_triggering_removals_members(init);
        let prev = triggering_removals(init);
        let ports = ref_views(last.ports@);
        let tr = triggering_removals(t);
        assert(tr == prev + ports + seq![last.triggering@]);
        assert forall|k: int| 0 <= k < t.len() implies tr.contains((#[trigger] t[k]).triggering@) by {
            if k < t.len() - 1 {
                assert(init[k] == t[k]);
                assert(prev.contains(init[k].triggering@));
                let m = choose|m: int| 0 <= m < prev.len() && prev[m] == init[k].triggering@;
                assert(tr[m] == prev[m]);
            } else {
                assert(tr[tr.len() - 1] == last.triggering@);
            }
        }
        assert forall|k: int, j: int|
            #![trigger t[k].ports@[j]]
            0 <= k < t.len() && 0 <= j < t[k].ports@.len() implies tr.contains(t[k].ports@[j]@) by {
            if k < t.len() - 1 {
                assert(init[k] == t[k]);
                assert(prev.contains(init[k].ports@[j]@));
                let m = choose|m: int| 0 <= m < prev.len() && prev[m] == init[k].ports@[j]@;
                assert(tr[m] == prev[m]);
            } else {
                assert(tr[prev.len() + j] == ports[j]);
            }
        }
        assert forall|x: ElementRefView| #[trigger] tr.contains(x) implies exists|k: int|
            0 <= k < t.len() && (x == (#[trigger] t[k]).triggering@ || ref_views(t[k].ports@).contains(x)) by {
            let m = choose|m: int| 0 <= m < tr.len() && tr[m] == x;
            if m < prev.len() {
                assert(prev[m] == x);
                assert(prev.contains(x));
                let k = choose|k: int|
                    0 <= k < init.len() && (x == (#[trigger] init[k]).triggering@ || ref_views(init[k].ports@).contains(x));
                assert(t[k] == init[k]);
            } else if m < prev.len() + ports.len() {
                assert(ports[m - prev.len()] == x);
                assert(ports.contains(x));
                assert(t[t.len() - 1] == last);
            } else {
                assert(t[t.len() - 1] == last);
            }
        }
    }
}

/// Removing a signal removes in any case the signal itself, each of its mappings, and each
/// of its triggerings with each of their signal ports, and nothing else.
pub proof fn lemma_isignal_removals(signal: ElementRefView, mappings: Seq<ElementRef>, triggerings: Seq<TriggeringPorts>)
    ensures
        isignal_removals_of(signal, mappings, triggerings).contains(signal),
        forall|i: int|
            0 <= i < mappings.len() ==> isignal_removals_of(signal, mappings, triggerings).contains((#[trigger] mappings[i])@),
        forall|k: int|
            0 <= k < triggerings.len() ==> isignal_removals_of(signal, mappings, triggerings).contains(
                (#[trigger] triggerings[k]).triggering@,
            ),
        forall|k: int, j: int|
            #![trigger triggerings[k].ports@[j]]
            0 <= k < triggerings.len() && 0 <= j < triggerings[k].ports@.len() ==> isignal_removals_of(
                signal,
                mappings,
                triggerings,
            ).contains(triggerings[k].ports@[j]@),
        forall|x: ElementRefView|
            #[trigger] isignal_removals_of(signal, mappings, triggerings).contains(x) ==> x == signal || ref_views(
                mappings,
            ).contains(x) || exists|k: int|
                0 <= k < triggerings.len() && (x == (#[trigger] triggerings[k]).triggering@ || ref_views(
                    triggerings[k].ports@,
                ).contains(x)),
{
    lemma_triggering_removals_members(triggerings);
    let head = seq![signal] + ref_views(mappings);
    let tr = triggering_removals(triggerings);
    let r = isignal_removals_of(signal, mappings, triggerings);
    assert(r == head + tr);
    assert(r[0] == signal);
    assert forall|i: int| 0 <= i < mappings.len() implies r.contains((#[trigger] mappings[i])@) by {
        assert(r[i + 1] == mappings[i]@);
    }
    assert forall|k: int| 0 <= k < triggerings.len() implies r.contains((#[trigger] triggerings[k]).triggering@) by {
        let m = choose|m: int| 0 <= m < tr.len() && tr[m] == triggerings[k].triggering@;
        assert(r[head.len() + m] == tr[m]);
    }
    assert forall|k: int, j: int|
        #![trigger triggerings[k].ports@[j]]
        0 <= k < triggerings.len() && 0 <= j < triggerings[k].ports@.len() implies r.contains(
        triggerings[k].ports@[j]@,
    ) by {
        let m = choose|m: int| 0 <= m < tr.len() && tr[m] == triggerings[k].ports@[j]@;
        assert(r[head.len() + m] == tr[m]);
    }
    assert forall|x: ElementRefView| #[trigger] r.contains(x) implies x == signal || ref_views(mappings).contains(x)
        || exists|k: int|
        0 <= k < triggerings.len() && (x == (#[trigger] triggerings[k]).triggering@ || ref_views(
            triggerings[k].ports@,
        ).contains(x)) by {
        let m = choose|m: int| 0 <= m < r.len() && r[m] == x;
        if m == 0 {
        } else if m < head.len() {
            assert(ref_views(mappings)[m - 1] == x);
        } else {
            assert(tr[m - head.len()] == x);
            assert(tr.contains(x));
        }
    }
}

/// Law: the data type and compu method of a signal's network representation, and the
/// unit, compu method and data constraint of a system signal's physical properties, are the
/// references at PROPS / SW-DATA-DEF-PROPS-VARIANTS / SW-DATA-DEF-PROPS-CONDITIONAL / REF,
/// the nesting an ARXML file has; setting one puts the reference there.
pub proof fn lemma_props_nesting(e: ElementView, first: ElementName, last: ElementName, target: ElementRefView)
    ensures
        datatype_of(e) == reference_at(
            e,
            seq![
                ElementName::NetworkRepresentationProps,
                ElementName::SwDataDefPropsVariants,
                ElementName::SwDataDefPropsConditional,
                ElementName::BaseTypeRef,
            ],
            ElementName::SwBaseType,
        ),
        network_compu_method_of(e) == reference_at(
            e,
            seq![
                ElementName::NetworkRepresentationProps,
                ElementName::SwDataDefPropsVariants,
                ElementName::SwDataDefPropsConditional,
                ElementName::CompuMethodRef,
            ],
            ElementName::CompuMethod,
        ),
        unit_of(e) == reference_at(
            e,
            seq![
                ElementName::PhysicalProps,
                ElementName::SwDataDefPropsVariants,
                ElementName::SwDataDefPropsConditional,
                ElementName::UnitRef,
            ],
            ElementName::Unit,
        ),
        physical_compu_method_of(e) == reference_at(
            e,
            seq![
                ElementName::PhysicalProps,
                ElementName::SwDataDefPropsVariants,
                ElementName::SwDataDefPropsConditional,
                ElementName::CompuMethodRef,
            ],
            ElementName::CompuMethod,
        ),
        data_constr_of(e) == reference_at(
            e,
            seq![
                ElementName::PhysicalProps,
                ElementName::SwDataDefPropsVariants,
                ElementName::SwDataDefPropsConditional,
                ElementName::DataConstrRef,
            ],
            ElementName::DataConstr,
        ),
        reference_at(
            with_reference(e, props_path(first, last), target),
            seq![first, ElementName::SwDataDefPropsVariants, ElementName::SwDataDefPropsConditional, last],
            target.kind,
        ) == Some(target.path),
{
    assert(props_path(first, last) =~= seq![
        first,
        ElementName::SwDataDefPropsVariants,
        ElementName::SwDataDefPropsConditional,
        last,
    ]);
    lemma_reference_reads_back(e, props_path(first, last), target);
}

/// Law: a port is reused for an ECU only if it is a port of that very ECU with the asked
/// direction; a port of another ECU, or with the other direction, never is.
pub proof fn lemma_reused_port_is_of_the_ecu(
    ports: Seq<PortConnection>,
    ecu: ElementRefView,
    direction: CommunicationDirection,
    i: int,
)
    ensures
        first_matching_port(ports, ecu, direction, i) ==> (ports[i].ecu matches Some(x) && x@ == ecu
            && ports[i].direction == Some(direction)),
        (forall|j: int| 0 <= j < ports.len() ==> !((#[trigger] ports[j]).ecu matches Some(x) && x@ == ecu))
            ==> !(exists|j: int| 0 <= j < ports.len() && port_matches(#[trigger] ports[j], ecu, direction)),
{
}

/// Law: the items with a removal of their own (a signal, a system signal, a signal group,
/// a signal triggering) are removed by it; an item of every other kind (a system signal
/// group, a data type, a unit, a compu method, ...) is removed as a plain element, also when
/// a deep removal takes it along.
pub proof fn lemma_removal_kinds(k: ElementName, f: UsageFacts)
    ensures
        removal_kind_of(ElementName::ISignal) == RemovalKind::Signal,
        removal_kind_of(ElementName::SystemSignal) == RemovalKind::SystemSignal,
        removal_kind_of(ElementName::ISignalGroup) == RemovalKind::SignalGroup,
        removal_kind_of(ElementName::ISignalTriggering) == RemovalKind::Triggering,
        k != ElementName::ISignal && k != ElementName::SystemSignal && k != ElementName::ISignalGroup && k
            != ElementName::ISignalTriggering ==> removal_kind_of(k) == RemovalKind::Element,
        f.item@.kind != ElementName::ISignal && f.item@.kind != ElementName::SystemSignal && f.item@.kind
            != ElementName::ISignalGroup && f.item@.kind != ElementName::ISignalTriggering && f.referrer_count
            == 0 ==> dependent_removals_of(true, seq![f]) == seq![(f.item@, RemovalKind::Element)],
{
    let s = seq![f];
    assert(s.drop_last() =~= Seq::<UsageFacts>::empty());
    assert(s.last() == f);
    assert(dependent_removals_of(true, s.drop_last()) == Seq::<(ElementRefView, RemovalKind)>::empty());
    if f.item@.kind != ElementName::ISignalGroup && f.referrer_count == 0 {
        assert(!is_still_used(f.item@.kind, f.signal_count as nat, f.referrer_count as nat));
        assert(dependent_removals_of(true, s) == Seq::<(ElementRefView, RemovalKind)>::empty().push(
            (f.item@, removal_kind_of(f.item@.kind)),
        ));
        assert(Seq::<(ElementRefView, RemovalKind)>::empty().push((f.item@, removal_kind_of(f.item@.kind)))
            =~= seq![(f.item@, removal_kind_of(f.item@.kind))]);
    }
}

} // verus!
