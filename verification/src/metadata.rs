//! The metadata of one image, as the formatter sees it: values by tag name.

use vstd::prelude::*;

verus! {

/// One tag of an image with its value.
#[derive(Debug, Clone)]
pub struct Entry {
    pub tag: String,
    pub value: String,
}

/// The tags that `entries` define. Of two entries with one tag the later
/// counts.
pub open spec fn tags_of(entries: Seq<Entry>) -> Map<Seq<char>, Seq<char>>
    decreases entries.len(),
{
    if entries.len() == 0 {
        Map::empty()
    } else {
        tags_of(entries.drop_last()).insert(entries.last().tag@, entries.last().value@)
    }
}

/// The metadata of one image: the values of the tags that it has. A tag that
/// the image lacks is absent, which is no error.
#[derive(Debug)]
pub struct MetadataRecord {
    entries: Vec<Entry>,
}

impl View for MetadataRecord {
    type V = Map<Seq<char>, Seq<char>>;

    closed spec fn view(&self) -> Map<Seq<char>, Seq<char>> {
        tags_of(self.entries@)
    }
}

impl MetadataRecord {
    /// A record without any tag.
    pub fn new() -> (record: Self)
        ensures
            record@ == Map::<Seq<char>, Seq<char>>::empty(),
    {
        MetadataRecord { entries: Vec::new() }
    }

    /// Sets the value of `tag`, whether or not it had one.
    pub fn insert(&mut self, tag: String, value: String)
        ensures
            final(self)@ == old(self)@.insert(tag@, value@),
    {
        let ghost before = self.entries@;
        self.entries.push(Entry { tag, value });
        assert(self.entries@.drop_last() =~= before);
    }

    /// The value of `tag`, if the image has that tag.
    pub fn get(&self, tag: &String) -> (value: Option<String>)
        ensures
            value is Some <==> self@.contains_key(tag@),
            value matches Some(v) ==> v@ == self@[tag@],
    {
        let mut i: usize = self.entries.len();
        while i > 0
            invariant
                i <= self.entries.len(),
                forall|k: int| i <= k < self.entries.len() ==> self.entries@[k].tag@ != tag@,
            decreases i,
        {
            i -= 1;
            if self.entries[i].tag == *tag {
                proof {
                    assert(self.entries@.take(i + 1).drop_last() =~= self.entries@.take(i as int));
                    lemma_later_entries(self.entries@, i + 1, tag@);
                }
                return Some(self.entries[i].value.clone());
            }
        }
        proof {
            lemma_later_entries(self.entries@, 0, tag@);
            assert(self.entries@.take(0) =~= Seq::<Entry>::empty());
        }
        None
    }
}

/// Entries after the first `n` that do not name `tag` leave its value as the
/// first `n` entries define it.
proof fn lemma_later_entries(entries: Seq<Entry>, n: int, tag: Seq<char>)
    requires
        0 <= n <= entries.len(),
        forall|k: int| n <= k < entries.len() ==> entries[k].tag@ != tag,
    ensures
        tags_of(entries).contains_key(tag) <==> tags_of(entries.take(n)).contains_key(tag),
        tags_of(entries).contains_key(tag) ==> tags_of(entries)[tag] == tags_of(entries.take(n))[tag],
    decreases entries.len() - n,
{
    if n < entries.len() {
        assert(entries.drop_last().take(n) =~= entries.take(n));
        lemma_later_entries(entries.drop_last(), n, tag);
    } else {
        assert(entries.take(n) =~= entries);
    }
}

} // verus!
