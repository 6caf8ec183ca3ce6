//! Which branches of a tree a request asks for.

use vstd::prelude::*;
use crate::text::{contains_name, names_view};

verus! {

/// The names of an optional list, in order.
pub open spec fn optional_names(names: Option<Vec<String>>) -> Option<Seq<Seq<char>>> {
    match names {
        Some(list) => Some(names_view(list@)),
        None => None,
    }
}

/// `base` without the names that occur in `excluded`, order kept.
pub open spec fn without(base: Seq<Seq<char>>, excluded: Seq<Seq<char>>) -> Seq<Seq<char>> {
    base.filter(|name: Seq<char>| !excluded.contains(name))
}

/// The working set of a request. With an inclusion list it is exactly that
/// list, in its order; without one it is every name that the tree lists, in
/// the tree's order. An exclusion list is applied after that, so a name that
/// is both included and excluded is left out.
pub open spec fn selection(
    listed: Seq<Seq<char>>,
    included: Option<Seq<Seq<char>>>,
    excluded: Option<Seq<Seq<char>>>,
) -> Seq<Seq<char>> {
    let base = match included {
        Some(names) => names,
        None => listed,
    };
    match excluded {
        Some(dropped) => without(base, dropped),
        None => base,
    }
}

/// Removes from `base` every name that occurs in `excluded`.
pub fn remove_excluded(base: Vec<String>, excluded: &Vec<String>) -> (kept: Vec<String>)
    ensures
        names_view(kept@) == without(names_view(base@), names_view(excluded@)),
{
    let ghost all = names_view(base@);
    let ghost dropped = names_view(excluded@);
    let ghost keep = |name: Seq<char>| !dropped.contains(name);
    let mut kept: Vec<String> = Vec::new();
    proof {
        reveal(Seq::filter);
    }
    for name in it: base
        invariant
            it.seq() == base@,
            all == names_view(base@),
            dropped == names_view(excluded@),
            keep == |name: Seq<char>| !dropped.contains(name),
            names_view(kept@) == all.take(it.index() as int).filter(keep),
    {
        proof {
            let i = it.index() as int;
            assert(all.take(i + 1) =~= all.take(i).push(name@));
            all.take(i).lemma_filter_push(name@, keep);
        }
        if !contains_name(excluded, name.as_str()) {
            let ghost before = names_view(kept@);
            kept.push(name);
            assert(names_view(kept@) =~= before.push(name@));
        }
    }
    assert(all.take(all.len() as int) =~= all);
    kept
}

/// Computes the working set of a request on a tree that lists the branches
/// `listed`.
pub fn select_columns(
    listed: Vec<String>,
    included: Option<Vec<String>>,
    excluded: Option<Vec<String>>,
) -> (selected: Vec<String>)
    ensures
        names_view(selected@) == selection(
            names_view(listed@),
            optional_names(included),
            optional_names(excluded),
        ),
{
    let base = match included {
        Some(names) => names,
        None => listed,
    };
    match excluded {
        Some(dropped) => remove_excluded(base, &dropped),
        None => base,
    }
}

/// An empty inclusion list selects nothing, whatever the tree lists and
/// whatever is excluded.
pub proof fn lemma_empty_inclusion_selects_nothing(
    listed: Seq<Seq<char>>,
    excluded: Option<Seq<Seq<char>>>,
)
    ensures
        selection(listed, Some(Seq::empty()), excluded) == Seq::<Seq<char>>::empty(),
{
    reveal(Seq::filter);
}

/// What is selected is what the base list holds and the exclusion list does
/// not: exclusion wins over inclusion.
pub proof fn lemma_exclusion_wins(
    listed: Seq<Seq<char>>,
    included: Option<Seq<Seq<char>>>,
    excluded: Seq<Seq<char>>,
    name: Seq<char>,
)
    ensures
        selection(listed, included, Some(excluded)).contains(name) <==> (match included {
            Some(names) => names.contains(name),
            None => listed.contains(name),
        }) && !excluded.contains(name),
{
    let base = match included {
        Some(names) => names,
        None => listed,
    };
    let keep = |name: Seq<char>| !excluded.contains(name);
    if base.contains(name) && !excluded.contains(name) {
        let i = choose|i: int| 0 <= i < base.len() && base[i] == name;
        base.lemma_filter_contains(keep, i);
    }
    if base.filter(keep).contains(name) {
        base.lemma_filter_contains_rev(keep, name);
        let i = choose|i: int| 0 <= i < base.filter(keep).len() && base.filter(keep)[i] == name;
        base.lemma_filter_pred(keep, i);
    }
}

} // verus!
