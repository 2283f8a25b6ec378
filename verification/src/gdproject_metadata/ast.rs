//! What a project's metadata file holds.

use vstd::prelude::*;
use crate::utils::slice::Slice;

verus! {

/// The entries of one section, each key with its value.
pub type Section = Vec<(Slice, EntryValue)>;

/// The metadata of a project: the entries that come before any section
/// header, and the named sections.
///
/// A section is kept as a list of keys with their values, and the sections
/// as a list of names with their sections. In either list no key occurs
/// twice: setting a key that is there replaces its value.
#[derive(Debug, PartialEq)]
pub struct GDProjectMetadata {
    pub front_section: Section,
    pub other_sections: Vec<(Slice, Section)>,
}

/// One line of a metadata file.
#[derive(Debug, PartialEq)]
pub enum Item {
    SectionName(Slice),
    KeyAndValue((Slice, EntryValue)),
}

/// The value of one entry.
#[derive(Debug, PartialEq)]
pub enum EntryValue {
    Null,
    BooleanValue(bool),
    /// The text between the quotes, and whether `&` stood before the
    /// opening quote.
    StringValue { s: Slice, ampersand: bool },
    /// A number as it is written.
    NumberValue(Slice),
    ListValue(Vec<EntryValue>),
    /// The entries of `{ "key": value }`, each under the text between the
    /// quotes of its key.
    DictValue(Vec<(Slice, EntryValue)>),
    ObjectValue { class: Slice, properties: Vec<(Slice, EntryValue)> },
    ConstructedValue { class: Slice, entries: Vec<EntryValue> },
}

#[derive(Debug, Clone, PartialEq)]
pub struct GlobalScriptClass {
    pub base: Slice,
    pub class: Slice,
    pub language: Slice,
    pub path: Slice,
}

/// A value as a mathematical value: text as its bytes, lists as sequences,
/// keyed entries as maps.
pub enum EntryModel {
    Null,
    Boolean(bool),
    String { s: Seq<u8>, ampersand: bool },
    Number(Seq<u8>),
    List(Seq<EntryModel>),
    Dict(Map<Seq<u8>, EntryModel>),
    Object { class: Seq<u8>, properties: Map<Seq<u8>, EntryModel> },
    Constructed { class: Seq<u8>, entries: Seq<EntryModel> },
}

/// What a value is as a mathematical value.
pub open spec fn model_of(value: EntryValue) -> EntryModel
    decreases value,
{
    match value {
        EntryValue::Null => EntryModel::Null,
        EntryValue::BooleanValue(b) => EntryModel::Boolean(b),
        EntryValue::StringValue { s, ampersand } => EntryModel::String { s: s.bytes(), ampersand },
        EntryValue::NumberValue(n) => EntryModel::Number(n.bytes()),
        EntryValue::ListValue(items) => EntryModel::List(models_of(items@)),
        EntryValue::DictValue(entries) => EntryModel::Dict(map_of(entries@)),
        EntryValue::ObjectValue { class, properties } => EntryModel::Object {
            class: class.bytes(),
            properties: map_of(properties@),
        },
        EntryValue::ConstructedValue { class, entries } => EntryModel::Constructed {
            class: class.bytes(),
            entries: models_of(entries@),
        },
    }
}

/// The values of a list, each as a mathematical value.
pub open spec fn models_of(values: Seq<EntryValue>) -> Seq<EntryModel>
    decreases values,
{
    if values.len() == 0 {
        Seq::empty()
    } else {
        models_of(values.drop_last()).push(model_of(values.last()))
    }
}

/// The map that a list of keys with their values stands for: each key
/// leads to the value of the last entry that has it.
pub open spec fn map_of(entries: Seq<(Slice, EntryValue)>) -> Map<Seq<u8>, EntryModel>
    decreases entries,
{
    if entries.len() == 0 {
        Map::empty()
    } else {
        map_of(entries.drop_last()).insert(entries.last().0.bytes(), model_of(entries.last().1))
    }
}

/// The map that a list of names with their sections stands for.
pub open spec fn sections_of(sections: Seq<(Slice, Section)>) -> Map<
    Seq<u8>,
    Map<Seq<u8>, EntryModel>,
>
    decreases sections.len(),
{
    if sections.len() == 0 {
        Map::empty()
    } else {
        sections_of(sections.drop_last()).insert(
            sections.last().0.bytes(),
            map_of(sections.last().1@),
        )
    }
}

impl View for EntryValue {
    type V = EntryModel;

    open spec fn view(&self) -> EntryModel {
        model_of(*self)
    }
}

/// Metadata as a mathematical value.
pub struct MetadataModel {
    pub front: Map<Seq<u8>, EntryModel>,
    pub sections: Map<Seq<u8>, Map<Seq<u8>, EntryModel>>,
}

impl View for GDProjectMetadata {
    type V = MetadataModel;

    open spec fn view(&self) -> MetadataModel {
        MetadataModel {
            front: map_of(self.front_section@),
            sections: sections_of(self.other_sections@),
        }
    }
}

/// No key occurs twice, by its text.
pub open spec fn distinct_keys<T>(entries: Seq<(Slice, T)>) -> bool {
    forall|i: int, j: int|
        0 <= i < j < entries.len() ==> (#[trigger] entries[i]).0.bytes() != (
        #[trigger] entries[j]).0.bytes()
}

/// `models_of` goes item by item.
pub proof fn lemma_models_of(values: Seq<EntryValue>)
    ensures
        models_of(values).len() == values.len(),
        forall|i: int|
            0 <= i < values.len() ==> (#[trigger] models_of(values)[i]) == model_of(values[i]),
    decreases values.len(),
{
    if values.len() > 0 {
        lemma_models_of(values.drop_last());
    }
}

/// Replacing the value of the entry at `at` sets its key in the map.
pub proof fn lemma_map_of_update(entries: Seq<(Slice, EntryValue)>, at: int, value: EntryValue)
    requires
        0 <= at < entries.len(),
        distinct_keys(entries),
    ensures
        map_of(entries.update(at, (entries[at].0, value))) == map_of(entries).insert(
            entries[at].0.bytes(),
            model_of(value),
        ),
        distinct_keys(entries.update(at, (entries[at].0, value))),
    decreases entries.len(),
{
    let changed = entries.update(at, (entries[at].0, value));
    let key = entries[at].0.bytes();
    if at == entries.len() - 1 {
        assert(changed.drop_last() == entries.drop_last());
        assert(map_of(changed) =~= map_of(entries).insert(key, model_of(value)));
    } else {
        let front = entries.drop_last();
        assert forall|i: int, j: int| 0 <= i < j < front.len() implies (#[trigger] front[i]).0.bytes()
            != (#[trigger] front[j]).0.bytes() by {
            assert(front[i] == entries[i] && front[j] == entries[j]);
        }
        lemma_map_of_update(front, at, value);
        assert(changed.drop_last() == front.update(at, (front[at].0, value)));
        assert(changed.last() == entries.last());
        assert(entries.last().0.bytes() != key) by {
            assert(entries[at].0.bytes() != entries[entries.len() - 1].0.bytes());
        }
        assert(map_of(changed) =~= map_of(entries).insert(key, model_of(value)));
    }
    assert forall|i: int, j: int| 0 <= i < j < changed.len() implies (#[trigger] changed[i]).0.bytes()
        != (#[trigger] changed[j]).0.bytes() by {
        assert(changed[i].0 == entries[i].0 && changed[j].0 == entries[j].0);
    }
}

/// Replacing the section at `at` sets its name in the map.
pub proof fn lemma_sections_of_update(sections: Seq<(Slice, Section)>, at: int, section: Section)
    requires
        0 <= at < sections.len(),
        distinct_keys(sections),
    ensures
        sections_of(sections.update(at, (sections[at].0, section))) == sections_of(
            sections,
        ).insert(sections[at].0.bytes(), map_of(section@)),
        distinct_keys(sections.update(at, (sections[at].0, section))),
    decreases sections.len(),
{
    let changed = sections.update(at, (sections[at].0, section));
    let key = sections[at].0.bytes();
    if at == sections.len() - 1 {
        assert(changed.drop_last() == sections.drop_last());
        assert(sections_of(changed) =~= sections_of(sections).insert(key, map_of(section@)));
    } else {
        let front = sections.drop_last();
        assert forall|i: int, j: int| 0 <= i < j < front.len() implies (#[trigger] front[i]).0.bytes()
            != (#[trigger] front[j]).0.bytes() by {
            assert(front[i] == sections[i] && front[j] == sections[j]);
        }
        lemma_sections_of_update(front, at, section);
        assert(changed.drop_last() == front.update(at, (front[at].0, section)));
        assert(changed.last() == sections.last());
        assert(sections.last().0.bytes() != key) by {
            assert(sections[at].0.bytes() != sections[sections.len() - 1].0.bytes());
        }
        assert(sections_of(changed) =~= sections_of(sections).insert(key, map_of(section@)));
    }
    assert forall|i: int, j: int| 0 <= i < j < changed.len() implies (#[trigger] changed[i]).0.bytes()
        != (#[trigger] changed[j]).0.bytes() by {
        assert(changed[i].0 == sections[i].0 && changed[j].0 == sections[j].0);
    }
}

/// Where the key with the text of `key` stands in `entries`.
pub fn position_of<T>(entries: &Vec<(Slice, T)>, key: &Slice) -> (r: Option<usize>)
    ensures
        match r {
            Some(at) => at < entries@.len() && entries@[at as int].0.bytes() == key.bytes(),
            None => forall|i: int|
                0 <= i < entries@.len() ==> (#[trigger] entries@[i]).0.bytes() != key.bytes(),
        },
{
    let mut i: usize = 0;
    while i < entries.len()
        invariant
            i <= entries.len(),
            forall|k: int| 0 <= k < i ==> (#[trigger] entries@[k]).0.bytes() != key.bytes(),
        decreases entries.len() - i,
    {
        if entries[i].0 == *key {
            return Some(i);
        }
        i += 1;
    }
    None
}

/// Sets `key` to `value`: replaces the value where the key is there, and
/// adds the entry at the end where it is not.
pub fn set_entry(entries: &mut Vec<(Slice, EntryValue)>, key: Slice, value: EntryValue)
    requires
        distinct_keys(old(entries)@),
    ensures
        distinct_keys(final(entries)@),
        map_of(final(entries)@) == map_of(old(entries)@).insert(key.bytes(), model_of(value)),
{
    match position_of(entries, &key) {
        Some(at) => {
            proof {
                lemma_map_of_update(entries@, at as int, value);
            }
            let ghost before = entries@;
            entries[at].1 = value;
            assert(entries@ =~= before.update(at as int, (before[at as int].0, value)));
        },
        None => {
            let ghost before = entries@;
            entries.push((key, value));
            assert(entries@.drop_last() == before);
        },
    }
}

/// Sets the section of the name `name`: replaces the section where the name
/// is there, and adds it at the end where it is not.
pub fn set_section(sections: &mut Vec<(Slice, Section)>, name: Slice, section: Section)
    requires
        distinct_keys(old(sections)@),
    ensures
        distinct_keys(final(sections)@),
        sections_of(final(sections)@) == sections_of(old(sections)@).insert(
            name.bytes(),
            map_of(section@),
        ),
{
    match position_of(sections, &name) {
        Some(at) => {
            proof {
                lemma_sections_of_update(sections@, at as int, section);
            }
            let ghost before = sections@;
            sections[at].1 = section;
            assert(sections@ =~= before.update(at as int, (before[at as int].0, section)));
        },
        None => {
            let ghost before = sections@;
            sections.push((name, section));
            assert(sections@.drop_last() == before);
        },
    }
}

impl GDProjectMetadata {
    /// Metadata without entries.
    pub fn new() -> (r: Self)
        ensures
            r.front_section@.len() == 0,
            r.other_sections@.len() == 0,
            r.wf(),
    {
        GDProjectMetadata { front_section: Vec::new(), other_sections: Vec::new() }
    }

    /// No key occurs twice in the front section, and no name among the
    /// sections.
    pub open spec fn wf(&self) -> bool {
        distinct_keys(self.front_section@) && distinct_keys(self.other_sections@)
    }
}

} // verus!
