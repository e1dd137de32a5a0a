//! The executable locator: given a command name and the directories of a
//! colon-separated search path, finds the first directory containing a file
//! with that exact name.
//!
//! Reading the filesystem is the embedding program's job: it supplies one
//! `DirListing` per readable directory, in search-path order (an unreadable
//! directory is skipped rather than aborting the scan), and the verified
//! scan decides which match wins and what full path it denotes.

use vstd::prelude::*;
use vstd::string::StrSliceExecFns;
use vstd::string::StringExecFns;

use crate::text::split_on;
use crate::text::split_str;

verus! {

/// The file names found in one search-path directory.
pub struct DirListing {
    pub dir: String,
    pub entries: Vec<String>,
}

impl View for DirListing {
    type V = (Seq<char>, Seq<Seq<char>>);

    open spec fn view(&self) -> (Seq<char>, Seq<Seq<char>>) {
        (self.dir@, self.entries.deep_view())
    }
}

impl DeepView for DirListing {
    type V = (Seq<char>, Seq<Seq<char>>);

    open spec fn deep_view(&self) -> (Seq<char>, Seq<Seq<char>>) {
        self@
    }
}

/// Whether a listing holds an entry with exactly this name.
pub open spec fn listing_has(listing: (Seq<char>, Seq<Seq<char>>), name: Seq<char>) -> bool {
    exists|i: int| 0 <= i < listing.1.len() && listing.1[i] == name
}

/// The full path of `name` inside `dir`: the directory, a separator unless
/// the directory already ends with one, then the file name.
pub open spec fn path_in_dir(dir: Seq<char>, name: Seq<char>) -> Seq<char> {
    if dir.len() > 0 && dir[dir.len() - 1] == '/' {
        dir + name
    } else {
        dir + seq!['/'] + name
    }
}

/// The path of the first listed directory holding `name`, scanning the
/// listings in order; `None` when none does.
pub open spec fn locate_in(listings: Seq<(Seq<char>, Seq<Seq<char>>)>, name: Seq<char>) -> Option<
    Seq<char>,
>
    decreases listings.len(),
{
    if listings.len() == 0 {
        None
    } else if listing_has(listings[0], name) {
        Some(path_in_dir(listings[0].0, name))
    } else {
        locate_in(listings.skip(1), name)
    }
}

/// Splits a search-path variable on `:` into directory candidates, in order.
pub fn split_search_path(path_var: &str) -> (r: Vec<String>)
    ensures
        r.deep_view() == split_on(path_var@, ':'),
{
    split_str(path_var, ':')
}

fn listing_contains(listing: &DirListing, name: &String) -> (r: bool)
    ensures
        r == listing_has(listing@, name@),
{
    let mut i: usize = 0;
    while i < listing.entries.len()
        invariant
            i <= listing.entries@.len(),
            forall|k: int| 0 <= k < i ==> listing@.1[k] != name@,
        decreases listing.entries@.len() - i,
    {
        if listing.entries[i].eq(name) {
            proof {
                assert(listing@.1[i as int] == name@);
            }
            return true;
        }
        i += 1;
    }
    false
}

fn join_path(dir: &String, name: &String) -> (r: String)
    ensures
        r@ == path_in_dir(dir@, name@),
{
    let mut r = dir.clone();
    let n = r.as_str().unicode_len();
    let ends_with_sep = n > 0 && r.as_str().get_char(n - 1) == '/';
    if !ends_with_sep {
        proof {
            reveal_strlit("/");
            assert(("/")@ =~= seq!['/']);
        }
        r.append("/");
    }
    r.append(name.as_str());
    r
}

/// Scans the listings in order and returns the full path of the first
/// directory holding a file named exactly `name`, or `None`.
pub fn locate(name: &String, listings: &Vec<DirListing>) -> (r: Option<String>)
    ensures
        match r {
            Some(p) => locate_in(listings.deep_view(), name@) == Some(p@),
            None => locate_in(listings.deep_view(), name@) is None,
        },
{
    let mut i: usize = 0;
    proof {
        assert(listings.deep_view().skip(0) =~= listings.deep_view());
    }
    while i < listings.len()
        invariant
            i <= listings@.len(),
            locate_in(listings.deep_view(), name@) == locate_in(
                listings.deep_view().skip(i as int),
                name@,
            ),
        decreases listings@.len() - i,
    {
        if listing_contains(&listings[i], name) {
            let p = join_path(&listings[i].dir, name);
            proof {
                assert(listings.deep_view().skip(i as int)[0] == listings@[i as int]@);
            }
            return Some(p);
        }
        proof {
            assert(listings.deep_view().skip(i as int)[0] == listings@[i as int]@);
            assert(listings.deep_view().skip(i as int).skip(1) =~= listings.deep_view().skip(
                i + 1,
            ));
        }
        i += 1;
    }
    None
}

/// The failure reported when the search-path variable is absent.
pub open spec fn missing_path_msg() -> Seq<char> {
    ("failed to get PATH variable to find commands in system folders")@
}

/// Resolves a command name against the search path. `path_var` is the value
/// of the search-path variable, `None` where that variable is absent from
/// the environment, which is the one failure; `listings` holds the readable
/// directories of that path, in order. `Ok(None)` means no directory holds
/// the name, which is not a failure.
pub fn find_system_command_path(
    name: &String,
    path_var: &Option<String>,
    listings: &Vec<DirListing>,
) -> (r: Result<Option<String>, String>)
    ensures
        path_var is None <==> (r matches Err(e) && e@ == missing_path_msg()),
        path_var is Some ==> match r {
            Ok(Some(p)) => locate_in(listings.deep_view(), name@) == Some(p@),
            Ok(None) => locate_in(listings.deep_view(), name@) is None,
            Err(_) => false,
        },
{
    match path_var {
        Option::Some(_) => Result::Ok(locate(name, listings)),
        Option::None => Result::Err(
            "failed to get PATH variable to find commands in system folders".to_owned(),
        ),
    }
}

/// First match wins: when several directories on the path hold an
/// executable of the wanted name, the scan returns the path under the
/// earliest of them, whatever the later directories hold.
pub proof fn lemma_first_match_wins(
    listings: Seq<(Seq<char>, Seq<Seq<char>>)>,
    j: int,
    name: Seq<char>,
)
    requires
        0 <= j < listings.len(),
        listing_has(listings[j], name),
        forall|k: int| 0 <= k < j ==> !listing_has(listings[k], name),
    ensures
        locate_in(listings, name) == Some(path_in_dir(listings[j].0, name)),
    decreases j,
{
    if j > 0 {
        lemma_first_match_wins(listings.skip(1), j - 1, name);
    }
}

} // verus!
