//! Finding the entries of a directory tree by their kind and name.

use crate::failure::Failure;
use crate::pattern::{regex_valid, Pattern};
use vstd::prelude::*;
use vstd::string::StringExecFns;

verus! {

/// A kind of entry to look for.
#[derive(Debug, Clone, Copy, PartialEq, Eq, Structural)]
pub enum EntryType {
    Dir,
    File,
    Link,
}

/// What an entry of the tree is.
#[derive(Debug, Clone, Copy, PartialEq, Eq, Structural)]
pub enum EntryKind {
    Dir,
    File,
    Link,
    Other,
}

/// An entry of the tree: what it is, its own name, and its path.
#[derive(Debug)]
pub struct Entry {
    pub kind: EntryKind,
    pub name: String,
    pub path: String,
}

/// An entry of the kind `kind` is one of the type `entry_type`.
pub open spec fn is_of_type(kind: EntryKind, entry_type: EntryType) -> bool {
    match entry_type {
        EntryType::Link => kind == EntryKind::Link,
        EntryType::Dir => kind == EntryKind::Dir,
        EntryType::File => kind == EntryKind::File,
    }
}

/// The kind passes the filter: there are no types to look for, or it is
/// of one of them.
pub open spec fn type_passes(kind: EntryKind, entry_types: Seq<EntryType>) -> bool {
    entry_types.len() == 0 || exists|i: int|
        0 <= i < entry_types.len() && is_of_type(kind, #[trigger] entry_types[i])
}

/// The name passes the filter: there are no patterns, or one of them
/// matches it.
pub open spec fn name_passes(name: Seq<char>, names: Seq<Pattern>) -> bool {
    names.len() == 0 || exists|i: int| 0 <= i < names.len() && (#[trigger] names[i]).accepts(name)
}

/// The paths of those of `entries` that pass both filters, in their order.
pub open spec fn found(entries: Seq<Entry>, names: Seq<Pattern>, entry_types: Seq<EntryType>) -> Seq<
    Seq<char>,
>
    decreases entries.len(),
{
    if entries.len() == 0 {
        Seq::empty()
    } else {
        let before = found(entries.drop_last(), names, entry_types);
        let entry = entries.last();
        if type_passes(entry.kind, entry_types) && name_passes(entry.name@, names) {
            before.push(entry.path@)
        } else {
            before
        }
    }
}

/// Tells whether a kind passes the filter of types.
pub fn type_filter(kind: EntryKind, entry_types: &Vec<EntryType>) -> (r: bool)
    ensures
        r == type_passes(kind, entry_types@),
{
    if entry_types.len() == 0 {
        return true;
    }
    let mut i: usize = 0;
    while i < entry_types.len()
        invariant
            i <= entry_types@.len(),
            forall|k: int| 0 <= k < i ==> !is_of_type(kind, #[trigger] entry_types@[k]),
        decreases entry_types@.len() - i,
    {
        let matches = match entry_types[i] {
            EntryType::Link => kind == EntryKind::Link,
            EntryType::Dir => kind == EntryKind::Dir,
            EntryType::File => kind == EntryKind::File,
        };
        if matches {
            return true;
        }
        i = i + 1;
    }
    false
}

/// Tells whether a name passes the filter of names.
pub fn name_filter(name: &str, names: &Vec<Pattern>) -> (r: bool)
    ensures
        r == name_passes(name@, names@),
{
    if names.len() == 0 {
        return true;
    }
    let mut i: usize = 0;
    while i < names.len()
        invariant
            i <= names@.len(),
            forall|k: int| 0 <= k < i ==> !(#[trigger] names@[k]).accepts(name@),
        decreases names@.len() - i,
    {
        if names[i].is_match(name) {
            return true;
        }
        i = i + 1;
    }
    false
}

/// The paths of the entries that pass both filters.
pub fn select(entries: &Vec<Entry>, names: &Vec<Pattern>, entry_types: &Vec<EntryType>) -> (out:
    Vec<String>)
    ensures
        crate::split::texts(out@) == found(entries@, names@, entry_types@),
{
    let mut out: Vec<String> = Vec::new();
    let mut i: usize = 0;
    proof {
        assert(entries@.take(0) =~= Seq::<Entry>::empty());
        assert(crate::split::texts(out@) =~= Seq::<Seq<char>>::empty());
    }
    while i < entries.len()
        invariant
            i <= entries@.len(),
            crate::split::texts(out@) == found(entries@.take(i as int), names@, entry_types@),
        decreases entries@.len() - i,
    {
        let entry = &entries[i];
        proof {
            let longer = entries@.take(i + 1);
            assert(longer.drop_last() =~= entries@.take(i as int));
            assert(longer.last() == entries@[i as int]);
        }
        if type_filter(entry.kind, entry_types) && name_filter(entry.name.as_str(), names) {
            let ghost before = crate::split::texts(out@);
            out.push(entry.path.clone());
            proof {
                assert(crate::split::texts(out@) =~= before.push(entry.path@));
            }
        }
        i = i + 1;
    }
    proof {
        assert(entries@.take(i as int) =~= entries@);
    }
    out
}

/// The type that a letter of the command line stands for.
pub open spec fn entry_type_spec(letter: Seq<char>) -> Option<EntryType> {
    if letter == "d"@ {
        Some(EntryType::Dir)
    } else if letter == "f"@ {
        Some(EntryType::File)
    } else if letter == "l"@ {
        Some(EntryType::Link)
    } else {
        None
    }
}

/// Reads a type to look for.
pub fn parse_entry_type(letter: &str) -> (r: Option<EntryType>)
    ensures
        r == entry_type_spec(letter@),
{
    let text = String::from_str(letter);
    if text == String::from_str("d") {
        Some(EntryType::Dir)
    } else if text == String::from_str("f") {
        Some(EntryType::File)
    } else if text == String::from_str("l") {
        Some(EntryType::Link)
    } else {
        None
    }
}

/// The message for a name that is no regular expression.
pub open spec fn invalid_name(source: Seq<char>) -> Seq<char> {
    "Invalid --name \""@ + source + "\""@
}

/// Reads a pattern for the names to look for.
pub fn parse_name(source: &str) -> (r: Result<Pattern, Failure>)
    ensures
        r is Ok <==> regex_valid(source@, false),
        r matches Ok(p) ==> p.source() == source@ && !p.insensitive(),
        r matches Err(failure) ==> failure@ == invalid_name(source@),
{
    match Pattern::new(source, false) {
        Some(pattern) => Ok(pattern),
        None => Err(Failure::about("Invalid --name \"", source, "\"")),
    }
}

} // verus!
