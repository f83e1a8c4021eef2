# autosar_data_abstraction

Value specifications, communication signals and ECU configuration parameter values of
an AUTOSAR model, verified with Verus.

The library works on a plain-value model of the AUTOSAR element tree (`src/element.rs`):
an element has a name, optional character data and its sub elements in order; a
reference element also records the kind of element its path resolves to. Numbers are held
by the bits of their IEEE 754 double representation.

- `src/element.rs`: the element tree, its view, and the operations on it (look up the
  first sub element of a name, follow a path, update along a path creating what is
  missing, remove), with their laws.
- `src/chardata.rs`: reading typed values out of character data; text is parsed by
  `autosar_data`.
- `src/values.rs`, `src/encoding.rs`: value specifications, how each is stored as
  elements and loaded back, and the law that loading gives back what was stored.
- `src/parameter.rs`: numerical, textual and additional information parameter values.
- `src/signal.rs`: signals, system signals, their groups, triggerings and ports.
- `src/text.rs`: decimal text of numbers, concatenation, and names made unique by a
  number suffix.
- `app/`: copies elements between an `autosar_data` model and the library, looks up what
  needs the whole model (the references to an element, the signals left in a group) and
  carries out removals. What a removal removes, in which order, which items it takes along
  (whether each is still used) and by which removal each goes is decided by the library
  (`removals`, `removal_candidates`, `dependent_removals`, `still_used`, `removal_kind`).

Where an AUTOSAR version lacks the UNIT-DISPLAY-NAME of an axis or the DEFAULT-PATTERN of
a not-available value, storing a value leaves them out; `SchemaSupport` says which of
them the target version holds, and `app/` reads that from the model's specification.

The element tree does not keep the schema's order of sub elements (new ones are appended;
`app/` inserts them where the schema puts them), and it does not check character data
against the schema: `autosar_data` does that when `app/` writes an element into the
model, and its error is returned there. Any element of the right name is taken as a
signal or parameter value; where a setter reads back what it wrote only if the element
held at most one such sub element before (an INIT-VALUE, an INDEX, an IS-AUTO-VALUE), its
contract says so.

Not here: the end-to-end and SOME/IP transformation properties of signals and signal
groups (`create_e2e_transformation_isignal_props`,
`create_someip_transformation_isignal_props`, `transformation_isignal_props`), whose
property types and their construction are not part of this library.
