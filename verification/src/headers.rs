//! Response headers: from raw names and bytes to a map of text.

use vstd::prelude::*;

verus! {

/// A byte that may stand in a header value that is text: a printable ASCII
/// character, a space or a tab.
pub open spec fn is_visible_ascii(b: u8) -> bool {
    (32 <= b && b < 127) || b == 9
}

/// Whether a header value is text: every byte of it is visible ASCII.
pub open spec fn is_header_text(value: Seq<u8>) -> bool {
    forall|i: int| 0 <= i < value.len() ==> is_visible_ascii(#[trigger] value[i])
}

/// The characters of a header value that is text: one per byte.
pub open spec fn text_of(value: Seq<u8>) -> Seq<char> {
    Seq::new(value.len(), |i: int| value[i] as char)
}

/// Reads a header value as text with `reqwest::header::HeaderValue`
/// (`from_bytes`, then `to_str`).
///
/// Trusted: `from_bytes` turns away control bytes other than tab, `to_str`
/// turns away whatever is left that is not visible ASCII, and a value that
/// passes both comes back as the same bytes read as characters.
#[verifier::external_body]
pub(crate) fn header_value_text(value: &[u8]) -> (text: Option<String>)
    ensures
        text.is_some() == is_header_text(value@),
        text matches Some(s) ==> s@ == text_of(value@),
{
    match reqwest::header::HeaderValue::from_bytes(value) {
        Ok(parsed) => match parsed.to_str() {
            Ok(text) => Some(text.to_owned()),
            Err(_) => None,
        },
        Err(_) => None,
    }
}

/// One response header as it came off the wire.
#[derive(Clone, Debug, PartialEq, Eq)]
pub struct RawHeader {
    pub name: String,
    pub value: Vec<u8>,
}

/// The headers captured from one response: header name to value, both text.
#[derive(Debug)]
pub struct Headers {
    entries: Vec<(String, String)>,
}

/// The index at which `name` stands in `entries`, if it stands there.
pub open spec fn position_of(entries: Seq<(String, String)>, name: Seq<char>) -> int {
    choose|i: int| 0 <= i < entries.len() && entries[i].0@ == name
}

/// Whether some entry has the name `name`.
pub open spec fn has_name(entries: Seq<(String, String)>, name: Seq<char>) -> bool {
    exists|i: int| 0 <= i < entries.len() && (#[trigger] entries[i]).0@ == name
}

/// Whether no two entries have the same name.
pub open spec fn distinct_names(entries: Seq<(String, String)>) -> bool {
    forall|i: int, j: int|
        0 <= i < j < entries.len() ==> (#[trigger] entries[i]).0@ != (#[trigger] entries[j]).0@
}

/// The map that a list of entries with distinct names stands for.
pub open spec fn entries_map(entries: Seq<(String, String)>) -> Map<Seq<char>, Seq<char>> {
    Map::new(
        |name: Seq<char>| has_name(entries, name),
        |name: Seq<char>| entries[position_of(entries, name)].1@,
    )
}

/// Among entries with distinct names, the map holds each entry's value under
/// its name.
proof fn lemma_entry_in_map(entries: Seq<(String, String)>, i: int)
    requires
        distinct_names(entries),
        0 <= i < entries.len(),
    ensures
        entries_map(entries).contains_key(entries[i].0@),
        entries_map(entries)[entries[i].0@] == entries[i].1@,
        position_of(entries, entries[i].0@) == i,
{
    let name = entries[i].0@;
    assert(has_name(entries, name));
    let p = position_of(entries, name);
    assert(0 <= p < entries.len() && entries[p].0@ == name);
    if p < i {
        assert(entries[p].0@ != entries[i].0@);
    } else if i < p {
        assert(entries[i].0@ != entries[p].0@);
    }
}

impl View for Headers {
    type V = Map<Seq<char>, Seq<char>>;

    closed spec fn view(&self) -> Self::V {
        entries_map(self.entries@)
    }
}

impl Headers {
    #[verifier::type_invariant]
    spec fn well_formed(self) -> bool {
        distinct_names(self.entries@)
    }

    /// No headers.
    pub fn new() -> (headers: Self)
        ensures
            headers@ == Map::<Seq<char>, Seq<char>>::empty(),
    {
        let headers = Headers { entries: Vec::new() };
        assert(headers@ =~= Map::<Seq<char>, Seq<char>>::empty());
        headers
    }

    /// Sets the value of `name`, replacing the one it had.
    pub fn insert(&mut self, name: String, value: String)
        ensures
            final(self)@ == old(self)@.insert(name@, value@),
    {
        proof {
            use_type_invariant(&*self);
        }
        let mut entries: Vec<(String, String)> = Vec::new();
        std::mem::swap(&mut entries, &mut self.entries);
        let ghost before = entries@;
        let mut at: usize = 0;
        while at < entries.len() && !(entries[at].0 == name)
            invariant
                at <= entries.len(),
                entries@ == before,
                forall|j: int| 0 <= j < at ==> (#[trigger] entries@[j]).0@ != name@,
            decreases entries.len() - at,
        {
            at += 1;
        }
        if at < entries.len() {
            entries.set(at, (name, value));
            proof {
                let after = entries@;
                assert forall|i: int, j: int| 0 <= i < j < after.len() implies (
                #[trigger] after[i]).0@ != (#[trigger] after[j]).0@ by {
                    assert(before[i].0@ != before[j].0@);
                }
                assert forall|key: Seq<char>| has_name(after, key) == has_name(before, key) by {
                    if has_name(after, key) {
                        let i = choose|i: int| 0 <= i < after.len() && (#[trigger] after[i]).0@ == key;
                        assert(before[i].0@ == key);
                    }
                    if has_name(before, key) {
                        let i = choose|i: int| 0 <= i < before.len() && (#[trigger] before[i]).0@ == key;
                        assert(after[i].0@ == key);
                    }
                }
                assert(has_name(before, name@)) by {
                    assert(before[at as int].0@ == name@);
                }
                assert forall|key: Seq<char>| has_name(after, key) implies entries_map(after)[key]
                    == entries_map(before).insert(name@, value@)[key] by {
                    let i = choose|i: int| 0 <= i < after.len() && (#[trigger] after[i]).0@ == key;
                    lemma_entry_in_map(after, i);
                    if key != name@ {
                        assert(i != at);
                        lemma_entry_in_map(before, i);
                    } else {
                        lemma_entry_in_map(after, at as int);
                    }
                }
                assert(entries_map(after) =~= entries_map(before).insert(name@, value@));
            }
        } else {
            entries.push((name, value));
            proof {
                let after = entries@;
                let last = before.len() as int;
                assert forall|key: Seq<char>| has_name(after, key) == (has_name(before, key) || key
                    == name@) by {
                    if has_name(after, key) {
                        let i = choose|i: int| 0 <= i < after.len() && (#[trigger] after[i]).0@ == key;
                        if i < last {
                            assert(before[i].0@ == key);
                        }
                    }
                    if has_name(before, key) {
                        let i = choose|i: int| 0 <= i < before.len() && (#[trigger] before[i]).0@ == key;
                        assert(after[i].0@ == key);
                    }
                    if key == name@ {
                        assert(after[last].0@ == key);
                    }
                }
                assert forall|key: Seq<char>| has_name(after, key) implies entries_map(after)[key]
                    == entries_map(before).insert(name@, value@)[key] by {
                    let i = choose|i: int| 0 <= i < after.len() && (#[trigger] after[i]).0@ == key;
                    lemma_entry_in_map(after, i);
                    if i < last {
                        assert(before[i].0@ == key);
                        lemma_entry_in_map(before, i);
                    }
                }
                assert(entries_map(after) =~= entries_map(before).insert(name@, value@));
            }
        }
        self.entries = entries;
    }

    /// The value of `name`, if the response had such a header.
    pub fn get(&self, name: &str) -> (value: Option<&String>)
        ensures
            value.is_some() == self@.contains_key(name@),
            value matches Some(text) ==> text@ == self@[name@],
    {
        proof {
            use_type_invariant(self);
        }
        let wanted: String = name.to_owned();
        let mut at: usize = 0;
        while at < self.entries.len()
            invariant
                at <= self.entries.len(),
                wanted@ == name@,
                distinct_names(self.entries@),
                forall|j: int| 0 <= j < at ==> (#[trigger] self.entries@[j]).0@ != name@,
            decreases self.entries.len() - at,
        {
            if self.entries[at].0 == wanted {
                proof {
                    lemma_entry_in_map(self.entries@, at as int);
                }
                return Some(&self.entries[at].1);
            }
            at += 1;
        }
        proof {
            if has_name(self.entries@, name@) {
                let i = choose|i: int|
                    0 <= i < self.entries@.len() && (#[trigger] self.entries@[i]).0@ == name@;
                assert(self.entries@[i].0@ != name@);
            }
        }
        None
    }

    /// How many headers there are.
    pub fn len(&self) -> (count: usize)
        ensures
            count == self@.len(),
            self@.dom().finite(),
    {
        proof {
            use_type_invariant(self);
            lemma_entries_count(self.entries@);
        }
        self.entries.len()
    }

    /// The headers as a list of name and value, each name once.
    pub fn into_entries(self) -> (entries: Vec<(String, String)>)
        ensures
            distinct_names(entries@),
            self@ == entries_map(entries@),
    {
        proof {
            use_type_invariant(&self);
        }
        self.entries
    }
}

/// Entries with distinct names stand for a map with as many keys.
proof fn lemma_entries_count(entries: Seq<(String, String)>)
    requires
        distinct_names(entries),
    ensures
        entries_map(entries).dom().finite(),
        entries_map(entries).dom().len() == entries.len(),
    decreases entries.len(),
{
    if entries.len() == 0 {
        assert(entries_map(entries).dom() =~= Set::<Seq<char>>::empty());
    } else {
        let front = entries.drop_last();
        let last = entries.last();
        assert forall|i: int, j: int| 0 <= i < j < front.len() implies (#[trigger] front[i]).0@ != (
        #[trigger] front[j]).0@ by {
            assert(entries[i].0@ != entries[j].0@);
        }
        lemma_entries_count(front);
        assert(!has_name(front, last.0@)) by {
            if has_name(front, last.0@) {
                let i = choose|i: int| 0 <= i < front.len() && (#[trigger] front[i]).0@ == last.0@;
                assert(entries[i].0@ != entries[entries.len() - 1].0@);
            }
        }
        assert forall|key: Seq<char>| has_name(entries, key) == (has_name(front, key) || key
            == last.0@) by {
            if has_name(entries, key) {
                let i = choose|i: int| 0 <= i < entries.len() && (#[trigger] entries[i]).0@ == key;
                if i < front.len() {
                    assert(front[i].0@ == key);
                }
            }
            if has_name(front, key) {
                let i = choose|i: int| 0 <= i < front.len() && (#[trigger] front[i]).0@ == key;
                assert(entries[i].0@ == key);
            }
            if key == last.0@ {
                assert(entries[entries.len() - 1].0@ == key);
            }
        }
        assert(entries_map(entries).dom() =~= entries_map(front).dom().insert(last.0@));
    }
}

} // verus!
