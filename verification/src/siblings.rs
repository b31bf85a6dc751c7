//! Sibling navigation: the ordered list of sources a folder offers, and the
//! step from the currently open one to the next or previous.
use vstd::prelude::*;
use vstd::relations::sorted_by;
use crate::natural::{natural_sort_strings, string_nat_le};
use crate::source::{first_match_from, is_container_name, is_hidden_name, lemma_first_match_bounds,
    locate_name, spec_is_container_name, spec_is_hidden};

verus! {

/// One entry of a directory listing: its name and whether it is itself a
/// directory.
pub struct FolderEntry {
    pub name: String,
    pub is_dir: bool,
}

/// An entry can stand as a source: a file with a container extension, or a
/// visible directory.
pub open spec fn spec_entry_kept(name: Seq<char>, is_dir: bool) -> bool {
    if is_dir {
        !spec_is_hidden(name)
    } else {
        spec_is_container_name(name)
    }
}

/// The names of the entries that can stand as sources, in listing order.
pub open spec fn spec_selected_names(entries: Seq<FolderEntry>) -> Seq<String>
    decreases entries.len(),
{
    if entries.len() == 0 {
        Seq::empty()
    } else {
        let rest = spec_selected_names(entries.drop_last());
        let e = entries.last();
        if spec_entry_kept(e.name@, e.is_dir) {
            rest.push(e.name)
        } else {
            rest
        }
    }
}

/// The sources a folder offers, in natural order: files with a container
/// extension and visible subdirectories.
pub fn select_folder_entries(entries: Vec<FolderEntry>) -> (r: Vec<String>)
    ensures
        r@.to_multiset() == spec_selected_names(entries@).to_multiset(),
        sorted_by(r@, |x: String, y: String| string_nat_le(x, y)),
{
    let mut kept: Vec<String> = Vec::new();
    let mut i: usize = 0;
    proof {
        assert(spec_selected_names(entries@.subrange(0, 0)) =~= Seq::<String>::empty());
    }
    while i < entries.len()
        invariant
            i <= entries@.len(),
            kept@ == spec_selected_names(entries@.subrange(0, i as int)),
        decreases entries@.len() - i,
    {
        let ghost pre = entries@.subrange(0, i as int);
        let ghost pre2 = entries@.subrange(0, i + 1);
        proof {
            assert(pre2.drop_last() =~= pre);
            assert(pre2.last() == entries@[i as int]);
        }
        let e = &entries[i];
        let keep = if e.is_dir {
            !is_hidden_name(e.name.as_str())
        } else {
            is_container_name(e.name.as_str())
        };
        if keep {
            kept.push(e.name.clone());
        }
        i = i + 1;
    }
    proof {
        assert(entries@.subrange(0, entries@.len() as int) =~= entries@);
    }
    natural_sort_strings(&mut kept);
    kept
}

/// Where the sibling step lands.
#[derive(Debug, PartialEq, Eq, Structural, Clone, Copy)]
pub enum SiblingOutcome {
    /// The index of the sibling to open.
    Open(usize),
    /// The current source is not in the list: nothing to step from.
    NotListed,
    /// The boundary of the folder: there is no further source this way.
    NoMore,
}

/// Step from the currently open source to the next (`forward`) or previous
/// sibling in the folder's ordered source list. At either end of the list
/// the step reports the boundary and the caller leaves its state unchanged.
pub fn sibling_step(items: &Vec<String>, current: &String, forward: bool) -> (r: SiblingOutcome)
    ensures
        match first_match_from(items@, current@, 0) {
            None => r == SiblingOutcome::NotListed,
            Some(p) => {
                if forward {
                    if p + 1 < items@.len() {
                        r == SiblingOutcome::Open((p + 1) as usize)
                    } else {
                        r == SiblingOutcome::NoMore
                    }
                } else {
                    if p >= 1 {
                        r == SiblingOutcome::Open((p - 1) as usize)
                    } else {
                        r == SiblingOutcome::NoMore
                    }
                }
            },
        },
        r matches SiblingOutcome::Open(k) ==> k < items@.len(),
{
    proof {
        lemma_first_match_bounds(items@, current@, 0);
    }
    match locate_name(items, current) {
        None => SiblingOutcome::NotListed,
        Some(p) => {
            let n = items.len();
            assert(p < n);
            if forward {
                if p + 1 < n {
                    SiblingOutcome::Open(p + 1)
                } else {
                    SiblingOutcome::NoMore
                }
            } else {
                if p >= 1 {
                    SiblingOutcome::Open(p - 1)
                } else {
                    SiblingOutcome::NoMore
                }
            }
        },
    }
}

} // verus!
