//! The server-side dispatch rule: a read-only table of canned response
//! templates keyed by query text, and the lookup that answers an incoming
//! query from it, echoing the query's correlation id and text.

use vstd::prelude::*;

use crate::package::clone_text;
use crate::package::Package;
use crate::package::PackageView;

verus! {

broadcast use vstd::seq::group_seq_axioms;

/// A read-only mapping from query text to a canned response template.
/// Built once, with unique keys and a mandatory `"fallback"` entry, and
/// never mutated afterwards.
pub struct DispatchTable {
    entries: Vec<(String, Package)>,
}

/// The mapping that a sequence of key-value pairs holds, later entries
/// winning; with unique keys, the order does not matter.
pub open spec fn map_of_entries(entries: Seq<(String, Package)>) -> Map<Seq<char>, PackageView>
    decreases entries.len(),
{
    if entries.len() == 0 {
        Map::empty()
    } else {
        map_of_entries(entries.drop_last()).insert(entries.last().0@, entries.last().1@)
    }
}

impl View for DispatchTable {
    type V = Map<Seq<char>, PackageView>;

    closed spec fn view(&self) -> Map<Seq<char>, PackageView> {
        map_of_entries(self.entries@)
    }
}

impl DispatchTable {
    /// No two entries share a key.
    pub closed spec fn keys_unique(&self) -> bool {
        forall|i: int, j: int|
            0 <= i < j < self.entries@.len() ==> self.entries@[i].0@ != self.entries@[j].0@
    }

    /// A usable table: unique keys, and the `"fallback"` entry present.
    pub open spec fn wf(&self) -> bool {
        &&& self.keys_unique()
        &&& self@.contains_key("fallback"@)
    }

    /// The empty table.
    pub fn new() -> (r: Self)
        ensures
            r@ == Map::<Seq<char>, PackageView>::empty(),
            r.keys_unique(),
    {
        DispatchTable { entries: Vec::new() }
    }

    /// Add a template under a key not present yet.
    pub fn insert(&mut self, key: String, template: Package)
        requires
            old(self).keys_unique(),
            !old(self)@.contains_key(key@),
        ensures
            final(self).keys_unique(),
            final(self)@ == old(self)@.insert(key@, template@),
    {
        proof {
            assert forall|j: int| 0 <= j < self.entries@.len() implies self.entries@[j].0@
                != key@ by {
                if self.entries@[j].0@ == key@ {
                    lemma_entry_value(self.entries@, j);
                }
            }
        }
        let ghost before = self.entries@;
        self.entries.push((key, template));
        proof {
            assert(self.entries@.drop_last() =~= before);
        }
    }

    /// Look a key up; the result says on which side of the mapping it fell.
    pub fn get(&self, key: &String) -> (r: Option<&Package>)
        requires
            self.keys_unique(),
        ensures
            match r {
                Some(template) => self@.contains_key(key@) && template@ == self@[key@],
                None => !self@.contains_key(key@),
            },
    {
        let n = self.entries.len();
        let mut i: usize = 0;
        while i < n
            invariant
                n == self.entries@.len(),
                0 <= i <= n,
                self.keys_unique(),
                forall|j: int| 0 <= j < i ==> self.entries@[j].0@ != key@,
            decreases n - i,
        {
            if self.entries[i].0.eq(key) {
                proof {
                    lemma_entry_value(self.entries@, i as int);
                }
                return Some(&self.entries[i].1);
            }
            i = i + 1;
        }
        proof {
            lemma_absent_key_not_in_entries(self.entries@, key@);
        }
        None
    }
}

/// A key held by none of the entries is outside the mapping they hold.
proof fn lemma_absent_key_not_in_entries(entries: Seq<(String, Package)>, key: Seq<char>)
    requires
        forall|j: int| 0 <= j < entries.len() ==> entries[j].0@ != key,
    ensures
        !map_of_entries(entries).contains_key(key),
    decreases entries.len(),
{
    if entries.len() > 0 {
        lemma_absent_key_not_in_entries(entries.drop_last(), key);
    }
}

/// With unique keys, the mapping sends each entry's key to its template.
proof fn lemma_entry_value(entries: Seq<(String, Package)>, i: int)
    requires
        0 <= i < entries.len(),
        forall|j: int, k: int| 0 <= j < k < entries.len() ==> entries[j].0@ != entries[k].0@,
    ensures
        map_of_entries(entries).contains_key(entries[i].0@),
        map_of_entries(entries)[entries[i].0@] == entries[i].1@,
    decreases entries.len(),
{
    if i < entries.len() - 1 {
        lemma_entry_value(entries.drop_last(), i);
        assert(entries.drop_last()[i] == entries[i]);
        assert(entries[i].0@ != entries.last().0@);
    }
}

/// The key an incoming query is resolved under: its text when present,
/// the literal `"fallback"` when absent.
pub open spec fn spec_lookup_key(q: PackageView) -> Seq<char> {
    match q.query {
        Some(text) => text,
        None => "fallback"@,
    }
}

/// The response owed to an incoming query: the template under its text
/// (or the fallback template when the text is absent or unknown), with the
/// query's correlation id and query text written over the template's.
pub open spec fn spec_lookup(table: Map<Seq<char>, PackageView>, q: PackageView) -> PackageView {
    let key = spec_lookup_key(q);
    let template = if table.contains_key(key) {
        table[key]
    } else {
        table["fallback"@]
    };
    PackageView { id: q.id, query: q.query, ..template }
}

/// Dispatch preserves correlation identity: whichever template answers,
/// the response carries the incoming query's id and echoes its query text
/// unchanged.
pub proof fn lemma_dispatch_preserves_identity(
    table: Map<Seq<char>, PackageView>,
    q: PackageView,
)
    ensures
        spec_lookup(table, q).id == q.id,
        spec_lookup(table, q).query == q.query,
{
}

/// Resolve an incoming query against the table: clone the matching
/// template (the fallback one when the query text is absent or unknown),
/// then echo the query's id and text into the clone.
pub fn lookup_message(messages: &DispatchTable, query: &Package) -> (r: Package)
    requires
        messages.wf(),
    ensures
        r@ == spec_lookup(messages@, query@),
{
    let key: String = match &query.query {
        None => "fallback".to_owned(),
        Some(text) => text.clone(),
    };
    let template = match messages.get(&key) {
        None => {
            let fallback_key: String = "fallback".to_owned();
            match messages.get(&fallback_key) {
                Some(t) => t,
                None => {
                    proof {
                        assert(false);
                    }
                    unreached()
                },
            }
        },
        Some(t) => t,
    };
    let mut resp = template.clone();
    resp.id = query.id;
    resp.query = clone_text(&query.query);
    resp
}

} // verus!
