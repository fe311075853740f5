//! The font encoding table of a page.

use vstd::prelude::*;
use vstd::string::*;

verus! {

/// Whether two byte strings are the same, byte for byte.
pub fn bytes_equal(a: &[u8], b: &[u8]) -> (same: bool)
    ensures
        same == (a@ == b@),
{
    if a.len() != b.len() {
        return false;
    }
    let mut i: usize = 0;
    while i < a.len()
        invariant
            i <= a.len(),
            a.len() == b.len(),
            forall|j: int| 0 <= j < i ==> a@[j] == b@[j],
        decreases a.len() - i,
    {
        if a[i] != b[i] {
            return false;
        }
        i += 1;
    }
    assert(a@ =~= b@);
    true
}

/// Whether two strings are the same, character for character.
pub fn str_equal(a: &str, b: &str) -> (same: bool)
    ensures
        same == (a@ == b@),
{
    proof {
        // A string is recovered from its bytes, so equal bytes mean equal strings.
        vstd::utf8::encode_utf8_decode_utf8(a@);
        vstd::utf8::encode_utf8_decode_utf8(b@);
    }
    bytes_equal(a.as_bytes(), b.as_bytes())
}

/// One entry of the table.
struct FontEncoding {
    name: Vec<u8>,
    encoding: String,
}

/// The encodings of a page's fonts, by the fonts' resource names.
///
/// A name has at most one encoding: entering a name again replaces what was
/// entered for it before.
pub struct FontEncodings {
    entries: Vec<FontEncoding>,
}

/// The map that a list of entries stands for: of two entries under one
/// name the later one holds.
spec fn entries_map(entries: Seq<FontEncoding>) -> Map<Seq<u8>, Seq<char>>
    decreases entries.len(),
{
    if entries.len() == 0 {
        Map::empty()
    } else {
        entries_map(entries.drop_last()).insert(entries.last().name@, entries.last().encoding@)
    }
}

/// The entry at `i` holds for `name` when no later entry bears that name.
proof fn lemma_last_entry_holds(entries: Seq<FontEncoding>, name: Seq<u8>, i: int)
    requires
        0 <= i < entries.len(),
        entries[i].name@ == name,
        forall|j: int| i < j < entries.len() ==> entries[j].name@ != name,
    ensures
        entries_map(entries).contains_key(name),
        entries_map(entries)[name] == entries[i].encoding@,
    decreases entries.len(),
{
    if i < entries.len() - 1 {
        lemma_last_entry_holds(entries.drop_last(), name, i);
    }
}

/// A name that no entry bears is not in the map.
proof fn lemma_no_entry_absent(entries: Seq<FontEncoding>, name: Seq<u8>)
    requires
        forall|j: int| 0 <= j < entries.len() ==> entries[j].name@ != name,
    ensures
        !entries_map(entries).contains_key(name),
    decreases entries.len(),
{
    if entries.len() > 0 {
        lemma_no_entry_absent(entries.drop_last(), name);
    }
}

impl View for FontEncodings {
    type V = Map<Seq<u8>, Seq<char>>;

    /// The table as a map from a font's name to the name of its encoding.
    closed spec fn view(&self) -> Map<Seq<u8>, Seq<char>> {
        entries_map(self.entries@)
    }
}

impl FontEncodings {
    /// The empty table.
    pub fn new() -> (table: FontEncodings)
        ensures
            table@ == Map::<Seq<u8>, Seq<char>>::empty(),
    {
        FontEncodings { entries: Vec::new() }
    }

    /// Enters `encoding` for the font `name`, in place of any earlier entry
    /// for that name.
    pub fn insert(&mut self, name: Vec<u8>, encoding: String)
        ensures
            final(self)@ == old(self)@.insert(name@, encoding@),
    {
        let ghost before = self.entries@;
        self.entries.push(FontEncoding { name, encoding });
        assert(self.entries@.drop_last() =~= before);
    }

    /// The encoding entered for the font `name`, if there is one.
    pub fn get(&self, name: &[u8]) -> (found: Option<&String>)
        ensures
            match found {
                Some(encoding) => self@.contains_key(name@) && self@[name@] == encoding@,
                None => !self@.contains_key(name@),
            },
    {
        let mut i: usize = self.entries.len();
        while i > 0
            invariant
                i <= self.entries.len(),
                forall|j: int| i <= j < self.entries.len() ==> self.entries@[j].name@ != name@,
            decreases i,
        {
            i -= 1;
            if bytes_equal(self.entries[i].name.as_slice(), name) {
                proof {
                    lemma_last_entry_holds(self.entries@, name@, i as int);
                }
                return Some(&self.entries[i].encoding);
            }
        }
        proof {
            lemma_no_entry_absent(self.entries@, name@);
        }
        None
    }
}

} // verus!
