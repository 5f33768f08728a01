//! Search-path resolution: given the directories of the search path in order,
//! each with the names of the regular files it holds, find the first
//! directory containing a file of the requested name. The index is rebuilt
//! from fresh listings on every lookup by design, so executables added or
//! renamed mid-session are picked up.

use vstd::prelude::*;
use crate::text::str_eq;
use crate::tokenizer::token_views;

verus! {

/// One directory of the search path: its path and the names of the regular
/// files found in it, in scan order.
#[derive(Debug)]
pub struct DirListing {
    pub dir: String,
    pub files: Vec<String>,
}

/// The mathematical content of a `DirListing`.
pub struct DirListingSpec {
    pub dir: Seq<char>,
    pub files: Seq<Seq<char>>,
}

impl View for DirListing {
    type V = DirListingSpec;

    open spec fn view(&self) -> DirListingSpec {
        DirListingSpec { dir: self.dir@, files: token_views(self.files@) }
    }
}

/// The views of a sequence of listings.
pub open spec fn listings_view(ds: Seq<DirListing>) -> Seq<DirListingSpec> {
    Seq::new(ds.len(), |i: int| ds[i]@)
}

/// The directory the name resolves to: the first listing, in search-path
/// order, whose files contain `name`; `None` when no listing does.
pub open spec fn spec_resolve(name: Seq<char>, dirs: Seq<DirListingSpec>) -> Option<Seq<char>>
    decreases dirs.len(),
{
    if dirs.len() == 0 {
        None
    } else if dirs[0].files.contains(name) {
        Some(dirs[0].dir)
    } else {
        spec_resolve(name, dirs.drop_first())
    }
}

/// First match wins: a successful resolution names the first directory whose
/// listing contains the name, every earlier directory lacking it; a failed
/// one means no directory on the path contains the name.
pub proof fn lemma_resolve_first_match(name: Seq<char>, dirs: Seq<DirListingSpec>)
    ensures
        spec_resolve(name, dirs) is Some ==> exists|i: int|
            0 <= i < dirs.len() && (#[trigger] dirs[i].files.contains(name)) && spec_resolve(
                name,
                dirs,
            ) == Some(dirs[i].dir) && (forall|j: int| 0 <= j < i ==> !dirs[j].files.contains(name)),
        spec_resolve(name, dirs) is None ==> forall|i: int|
            0 <= i < dirs.len() ==> !(#[trigger] dirs[i].files.contains(name)),
    decreases dirs.len(),
{
    if dirs.len() > 0 && !dirs[0].files.contains(name) {
        lemma_resolve_first_match(name, dirs.drop_first());
        if spec_resolve(name, dirs) is Some {
            let i = choose|i: int|
                0 <= i < dirs.drop_first().len() && (#[trigger] dirs.drop_first()[i].files.contains(
                    name,
                )) && spec_resolve(name, dirs.drop_first()) == Some(dirs.drop_first()[i].dir) && (
                forall|j: int| 0 <= j < i ==> !dirs.drop_first()[j].files.contains(name));
            assert(dirs[i + 1].files.contains(name));
            assert(forall|j: int| 0 <= j < i + 1 ==> !dirs[j].files.contains(name)) by {
                assert(forall|j: int|
                    1 <= j < i + 1 ==> !(#[trigger] dirs[j].files.contains(name))) by {
                    assert(forall|j: int|
                        0 <= j < i ==> !(#[trigger] dirs.drop_first()[j].files.contains(name)));
                    assert(forall|j: int| 1 <= j < i + 1 ==> dirs[j] == dirs.drop_first()[j - 1]);
                }
            }
        } else {
            assert(forall|i: int|
                1 <= i < dirs.len() ==> !(#[trigger] dirs[i].files.contains(name))) by {
                assert(forall|i: int|
                    0 <= i < dirs.drop_first().len() ==> !(
                    #[trigger] dirs.drop_first()[i].files.contains(name)));
                assert(forall|i: int| 1 <= i < dirs.len() ==> dirs[i] == dirs.drop_first()[i - 1]);
            }
        }
    }
}

/// Whether one of the file names equals `name`.
fn names_contain(files: &Vec<String>, name: &str) -> (r: bool)
    ensures
        r == token_views(files@).contains(name@),
{
    let mut i: usize = 0;
    while i < files.len()
        invariant
            i <= files@.len(),
            forall|j: int| 0 <= j < i ==> token_views(files@)[j] != name@,
        decreases files@.len() - i,
    {
        if str_eq(files[i].as_str(), name) {
            proof {
                assert(token_views(files@)[i as int] == name@);
            }
            return true;
        }
        i = i + 1;
    }
    proof {
        assert(!token_views(files@).contains(name@));
    }
    false
}

/// Resolves a command name against the ordered search-path listings,
/// returning the first directory containing it, as `spec_resolve` describes.
pub fn resolve_command(name: &str, dirs: &Vec<DirListing>) -> (r: Option<String>)
    ensures
        match r {
            Some(d) => spec_resolve(name@, listings_view(dirs@)) == Some(d@),
            None => spec_resolve(name@, listings_view(dirs@)) is None,
        },
{
    let ghost all = listings_view(dirs@);
    proof {
        assert(all.skip(0) =~= all);
    }
    let mut i: usize = 0;
    while i < dirs.len()
        invariant
            i <= dirs@.len(),
            all == listings_view(dirs@),
            spec_resolve(name@, all.skip(i as int)) == spec_resolve(name@, all),
        decreases dirs@.len() - i,
    {
        proof {
            assert(all.skip(i as int)[0] == dirs@[i as int]@);
            assert(all.skip(i as int).drop_first() =~= all.skip(i as int + 1));
        }
        if names_contain(&dirs[i].files, name) {
            return Some(dirs[i].dir.clone());
        }
        i = i + 1;
    }
    proof {
        assert(all.skip(dirs@.len() as int) =~= Seq::<DirListingSpec>::empty());
    }
    None
}

} // verus!
