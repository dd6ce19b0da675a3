//! Fail-soft selection of directory entry names.
//!
//! Reading a directory yields one outcome per entry: `None` where the entry
//! itself could not be read (it is skipped), otherwise what is known of it.
//! This module keeps, in discovery order, the names of the entries of the
//! wanted kind whose names are representable as text.

use vstd::prelude::*;

verus! {

/// One successfully read directory entry: its base name, if it can be
/// represented as text, and which kind of object it is.
pub struct EntryInfo {
    pub name: Option<String>,
    pub is_dir: bool,
    pub is_file: bool,
}

/// Whether one entry outcome survives the selection: the entry was readable,
/// is of the wanted kind, and has a textual name.
pub open spec fn entry_kept(e: Option<EntryInfo>, want_dirs: bool) -> bool {
    match e {
        Some(info) => (if want_dirs {
            info.is_dir
        } else {
            info.is_file
        }) && info.name is Some,
        None => false,
    }
}

/// The names the selection keeps, in discovery order.
pub open spec fn listed_names(entries: Seq<Option<EntryInfo>>, want_dirs: bool) -> Seq<Seq<char>>
    decreases entries.len(),
{
    if entries.len() == 0 {
        Seq::empty()
    } else {
        let rest = listed_names(entries.drop_last(), want_dirs);
        if entry_kept(entries.last(), want_dirs) {
            rest.push(entries.last()->0.name->0@)
        } else {
            rest
        }
    }
}

/// Views of a list of names.
pub open spec fn names_view(ss: Seq<String>) -> Seq<Seq<char>> {
    ss.map_values(|s: String| s@)
}

/// Keeps the base names of the entries of the wanted kind — subdirectories
/// when `want_dirs` is set, regular files otherwise. An unreadable entry
/// (`None`) and an entry whose name is not representable as text are
/// skipped; the remaining entries keep their discovery order. An unreadable
/// directory hands in no entries at all, and so yields the empty list.
pub fn get_all_dir_entries(entries: &Vec<Option<EntryInfo>>, want_dirs: bool) -> (r: Vec<String>)
    ensures
        names_view(r@) == listed_names(entries@, want_dirs),
{
    let mut names: Vec<String> = Vec::new();
    let mut i: usize = 0;
    proof {
        assert(entries@.take(0) =~= Seq::<Option<EntryInfo>>::empty());
        assert(names_view(names@) =~= listed_names(entries@.take(0), want_dirs));
    }
    while i < entries.len()
        invariant
            i <= entries.len(),
            names_view(names@) == listed_names(entries@.take(i as int), want_dirs),
        decreases entries.len() - i,
    {
        proof {
            assert(entries@.take(i + 1).drop_last() =~= entries@.take(i as int));
            assert(entries@.take(i + 1).last() == entries@[i as int]);
        }
        match &entries[i] {
            Some(info) => {
                let wanted = if want_dirs {
                    info.is_dir
                } else {
                    info.is_file
                };
                if wanted {
                    match &info.name {
                        Some(n) => {
                            let ghost before = names@;
                            names.push(n.clone());
                            proof {
                                assert(names_view(names@) =~= names_view(before).push(n@));
                            }
                        },
                        None => {},
                    }
                }
            },
            None => {},
        }
        i = i + 1;
    }
    proof {
        assert(entries@.take(entries@.len() as int) =~= entries@);
    }
    names
}

} // verus!
