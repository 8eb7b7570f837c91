use std::ops::Range;
use vstd::hash_map::StringHashMap;
use vstd::prelude::*;

verus! {

/// Where a label was defined and the address it stands for.
#[derive(Debug, PartialEq, Eq)]
pub struct LabelEntry {
    pub filename: String,
    pub span: Range<usize>,
    pub address: usize,
}

/// The label table: label name to entry. A later definition of a name
/// replaces an earlier one.
pub struct LabelTable {
    entries: StringHashMap<LabelEntry>,
}

impl View for LabelTable {
    type V = Map<Seq<char>, LabelEntry>;

    closed spec fn view(&self) -> Map<Seq<char>, LabelEntry> {
        self.entries@
    }
}

impl LabelTable {
    /// An empty table.
    pub fn new() -> (table: LabelTable)
        ensures
            table@ == Map::<Seq<char>, LabelEntry>::empty(),
    {
        LabelTable { entries: StringHashMap::new() }
    }

    /// Binds `name` to `entry`, replacing any earlier binding of `name`.
    pub fn insert(&mut self, name: String, entry: LabelEntry)
        ensures
            final(self)@ == old(self)@.insert(name@, entry),
    {
        self.entries.insert(name, entry);
    }

    /// The entry bound to `name`, if there is one.
    pub fn get(&self, name: &str) -> (entry: Option<&LabelEntry>)
        ensures
            match entry {
                Some(e) => self@.contains_key(name@) && *e == self@[name@],
                None => !self@.contains_key(name@),
            },
    {
        self.entries.get(name)
    }

    /// The number of labels in the table.
    pub fn len(&self) -> (n: usize)
        ensures
            n == self@.len(),
    {
        self.entries.len()
    }

    /// Forgets every label, as between two independent assemblies.
    pub fn clear(&mut self)
        ensures
            final(self)@ == Map::<Seq<char>, LabelEntry>::empty(),
    {
        self.entries.clear();
    }
}

} // verus!
