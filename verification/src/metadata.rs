//! The metadata of a gRPC request as the library reads it: an ordered list
//! of (name, text) entries in which a lookup finds the first entry of a name.

use vstd::prelude::*;

use crate::text::opt_str_view;

verus! {

/// The value that a lookup of `key` finds: that of the first entry named `key`.
pub open spec fn metadata_lookup(entries: Seq<(Seq<char>, Seq<char>)>, key: Seq<char>) -> Option<
    Seq<char>,
>
    decreases entries.len(),
{
    if entries.len() == 0 {
        None
    } else if entries[0].0 == key {
        Some(entries[0].1)
    } else {
        metadata_lookup(entries.drop_first(), key)
    }
}

/// Metadata without entries has no value under any name; adding an entry
/// after the others gives its name that value where the name had none, and
/// changes nothing else: the first entry of a name is the one found.
pub proof fn lemma_metadata_lookup_append(
    entries: Seq<(Seq<char>, Seq<char>)>,
    key: Seq<char>,
    value: Seq<char>,
    name: Seq<char>,
)
    ensures
        metadata_lookup(Seq::empty(), name) is None,
        metadata_lookup(entries.push((key, value)), name) == if metadata_lookup(
            entries,
            name,
        ) is Some {
            metadata_lookup(entries, name)
        } else if name == key {
            Some(value)
        } else {
            None
        },
    decreases entries.len(),
{
    if entries.len() == 0 {
        let one = entries.push((key, value));
        assert(one.drop_first() =~= Seq::<(Seq<char>, Seq<char>)>::empty());
    } else {
        let longer = entries.push((key, value));
        assert(longer[0] == entries[0]);
        assert(longer.drop_first() =~= entries.drop_first().push((key, value)));
        lemma_metadata_lookup_append(entries.drop_first(), key, value, name);
    }
}

/// Request metadata: the textual entries of a request, in order.
pub struct RequestMetadata {
    entries: Vec<(String, String)>,
}

impl View for RequestMetadata {
    type V = Seq<(Seq<char>, Seq<char>)>;

    closed spec fn view(&self) -> Seq<(Seq<char>, Seq<char>)> {
        self.entries@.map_values(|e: (String, String)| (e.0@, e.1@))
    }
}

impl RequestMetadata {
    /// Metadata without entries.
    pub fn new() -> (m: Self)
        ensures
            m@ == Seq::<(Seq<char>, Seq<char>)>::empty(),
    {
        let m = RequestMetadata { entries: Vec::new() };
        assert(m@ =~= Seq::<(Seq<char>, Seq<char>)>::empty());
        m
    }

    /// Adds an entry after the existing ones.
    pub fn append(&mut self, key: &str, value: &str)
        ensures
            final(self)@ == old(self)@.push((key@, value@)),
    {
        let k = key.to_owned();
        let v = value.to_owned();
        self.entries.push((k, v));
        assert(self@ =~= old(self)@.push((key@, value@)));
    }

    /// The text of the first entry named `key`, if there is one.
    pub fn get(&self, key: &str) -> (r: Option<&str>)
        ensures
            opt_str_view(r) == metadata_lookup(self@, key@),
    {
        let k = key.to_owned();
        let n = self.entries.len();
        let mut i: usize = 0;
        assert(self@.skip(0) =~= self@);
        while i < n
            invariant
                n == self.entries@.len(),
                n == self@.len(),
                i <= n,
                k@ == key@,
                metadata_lookup(self@, key@) == metadata_lookup(self@.skip(i as int), key@),
            decreases n - i,
        {
            let entry = &self.entries[i];
            assert(self@[i as int] == (entry.0@, entry.1@));
            assert(self@.skip(i as int)[0] == self@[i as int]);
            if entry.0 == k {
                return Some(entry.1.as_str());
            }
            assert(self@.skip(i as int).drop_first() =~= self@.skip(i + 1));
            i = i + 1;
        }
        None
    }
}

} // verus!
