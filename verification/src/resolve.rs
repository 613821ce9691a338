//! The executable resolver: given the ordered directories of the search path
//! together with the outcome of listing each one, finds the first entry that
//! matches a program name, either exactly or with the platform's executable
//! suffix appended.  Directories that could not be listed are skipped
//! silently; search order across directories is significant.
//!
//! Listing a directory is left to the caller: the library only receives the
//! entry names, so the search itself is pure.

use crate::text::str_eq;
use vstd::prelude::*;

verus! {

/// One directory of the search path together with the outcome of listing
/// it: `None` when the directory could not be read (missing or unreadable),
/// which the search skips silently.
#[derive(Debug, Clone, PartialEq, Eq)]
pub struct DirListing {
    pub path: String,
    pub entries: Option<Vec<String>>,
}

/// The entry names of a listed directory, as sequences of characters.
pub open spec fn dir_entries_view(d: DirListing) -> Option<Seq<Seq<char>>> {
    match d.entries {
        Some(v) => Some(v.deep_view()),
        None => None,
    }
}

/// Whether a directory entry resolves `name`: an exact match, or a match
/// once the platform's executable suffix is appended to the name.
pub open spec fn entry_matches(entry: Seq<char>, name: Seq<char>, suffix: Seq<char>) -> bool {
    entry == name || entry == name + suffix
}

/// The first entry of a listing that resolves `name`, in listing order.
pub open spec fn first_match_in(
    entries: Seq<Seq<char>>,
    name: Seq<char>,
    suffix: Seq<char>,
) -> Option<Seq<char>>
    decreases entries.len(),
{
    if entries.len() == 0 {
        None
    } else if entry_matches(entries[0], name, suffix) {
        Some(entries[0])
    } else {
        first_match_in(entries.drop_first(), name, suffix)
    }
}

/// A directory path and an entry name joined into one path.
pub open spec fn joined_path(dir: Seq<char>, entry: Seq<char>) -> Seq<char> {
    dir + seq!['/'] + entry
}

/// The path of the first matching entry of the first directory that has
/// one, scanning the directories in the given order.
pub open spec fn spec_resolve(dirs: Seq<DirListing>, name: Seq<char>, suffix: Seq<char>) -> Option<
    Seq<char>,
>
    decreases dirs.len(),
{
    if dirs.len() == 0 {
        None
    } else {
        match dir_entries_view(dirs[0]) {
            Some(es) => match first_match_in(es, name, suffix) {
                Some(e) => Some(joined_path(dirs[0].path@, e)),
                None => spec_resolve(dirs.drop_first(), name, suffix),
            },
            None => spec_resolve(dirs.drop_first(), name, suffix),
        }
    }
}

/// Scans the directories in order and returns the full path of the first
/// entry that equals `name`, or `name` with `suffix` appended; `None` when
/// no readable directory holds a match.
pub fn find_executable(dirs: &Vec<DirListing>, name: &str, suffix: &str) -> (r: Option<String>)
    ensures
        (match r {
            Some(p) => spec_resolve(dirs@, name@, suffix@) == Some(p@),
            None => spec_resolve(dirs@, name@, suffix@) is None,
        }),
{
    let with_suffix = String::from_str(name).concat(suffix);
    let mut i: usize = 0;
    proof {
        assert(dirs@.skip(0) =~= dirs@);
    }
    while i < dirs.len()
        invariant
            i <= dirs@.len(),
            with_suffix@ == name@ + suffix@,
            spec_resolve(dirs@, name@, suffix@) == spec_resolve(
                dirs@.skip(i as int),
                name@,
                suffix@,
            ),
        decreases dirs@.len() - i,
    {
        proof {
            assert(dirs@.skip(i as int)[0] == dirs@[i as int]);
            assert(dirs@.skip(i as int).drop_first() =~= dirs@.skip(i as int + 1));
        }
        let d = &dirs[i];
        match &d.entries {
            Some(es) => {
                let ghost esv = es.deep_view();
                let mut j: usize = 0;
                proof {
                    assert(esv.skip(0) =~= esv);
                }
                while j < es.len()
                    invariant
                        j <= es@.len(),
                        esv == es.deep_view(),
                        i < dirs@.len(),
                        with_suffix@ == name@ + suffix@,
                        dir_entries_view(dirs@[i as int]) == Some(esv),
                        dirs@[i as int] == dirs[i as int],
                        spec_resolve(dirs@, name@, suffix@) == spec_resolve(
                            dirs@.skip(i as int),
                            name@,
                            suffix@,
                        ),
                        first_match_in(esv, name@, suffix@) == first_match_in(
                            esv.skip(j as int),
                            name@,
                            suffix@,
                        ),
                    decreases es@.len() - j,
                {
                    proof {
                        assert(esv.skip(j as int)[0] == esv[j as int]);
                        assert(esv.skip(j as int).drop_first() =~= esv.skip(j as int + 1));
                    }
                    let e = &es[j];
                    if str_eq(e.as_str(), name) || str_eq(e.as_str(), with_suffix.as_str()) {
                        proof {
                            assert(entry_matches(esv[j as int], name@, suffix@));
                            assert(first_match_in(esv, name@, suffix@) == Some(esv[j as int]));
                            assert(dirs@.skip(i as int)[0] == dirs@[i as int]);
                            reveal_strlit("/");
                            assert("/"@ =~= seq!['/']);
                        }
                        let p = dirs[i].path.clone().concat("/").concat(e.as_str());
                        proof {
                            assert(p@ =~= joined_path(dirs@[i as int].path@, esv[j as int]));
                        }
                        return Some(p);
                    }
                    j = j + 1;
                }
                proof {
                    assert(esv.skip(j as int) =~= Seq::<Seq<char>>::empty());
                    assert(first_match_in(esv, name@, suffix@) is None);
                }
            },
            None => {
            },
        }
        i = i + 1;
    }
    proof {
        assert(dirs@.skip(i as int) =~= Seq::<DirListing>::empty());
    }
    None
}

/// Whether some entry of the directory's listing resolves `name`.
pub open spec fn dir_has_match(d: DirListing, name: Seq<char>, suffix: Seq<char>) -> bool {
    match dir_entries_view(d) {
        Some(es) => exists|j: int| 0 <= j < es.len() && entry_matches(es[j], name, suffix),
        None => false,
    }
}

proof fn lemma_first_match_in_cases(entries: Seq<Seq<char>>, name: Seq<char>, suffix: Seq<char>)
    ensures
        (match first_match_in(entries, name, suffix) {
            Some(e) => entries.contains(e) && entry_matches(e, name, suffix),
            None => forall|j: int| 0 <= j < entries.len() ==> !entry_matches(entries[j], name, suffix),
        }),
    decreases entries.len(),
{
    if entries.len() == 0 {
    } else if entry_matches(entries[0], name, suffix) {
        assert(entries[0] == entries[0]);
    } else {
        lemma_first_match_in_cases(entries.drop_first(), name, suffix);
        match first_match_in(entries.drop_first(), name, suffix) {
            Some(e) => {
                let j = choose|j: int|
                    0 <= j < entries.drop_first().len() && entries.drop_first()[j] == e;
                assert(entries[j + 1] == e);
            },
            None => {
                assert forall|j: int|
                    0 <= j < entries.len() implies !entry_matches(entries[j], name, suffix) by {
                    if j > 0 {
                        assert(entries.drop_first()[j - 1] == entries[j]);
                    }
                }
            },
        }
    }
}

/// LAW: search order is significant — an earlier directory shadows every
/// later one.  When `dirs[i]` is the first directory whose listing resolves
/// the name, the resolved path is built from `dirs[i]`'s own path and one of
/// `dirs[i]`'s own entries, whatever the later directories hold.
pub proof fn lemma_first_dir_wins(dirs: Seq<DirListing>, name: Seq<char>, suffix: Seq<char>, i: int)
    requires
        0 <= i < dirs.len(),
        dir_has_match(dirs[i], name, suffix),
        forall|k: int| 0 <= k < i ==> !dir_has_match(#[trigger] dirs[k], name, suffix),
    ensures
        exists|e: Seq<char>|
            #[trigger] entry_matches(e, name, suffix) && dir_entries_view(
                dirs[i],
            )->Some_0.contains(e) && spec_resolve(dirs, name, suffix) == Some(
                joined_path(dirs[i].path@, e),
            ),
    decreases i,
{
    if i == 0 {
        let es = dir_entries_view(dirs[0])->Some_0;
        lemma_first_match_in_cases(es, name, suffix);
        let e = first_match_in(es, name, suffix)->Some_0;
        assert(entry_matches(e, name, suffix) && dir_entries_view(dirs[0])->Some_0.contains(e)
            && spec_resolve(dirs, name, suffix) == Some(joined_path(dirs[0].path@, e)));
    } else {
        assert(!dir_has_match(dirs[0], name, suffix));
        match dir_entries_view(dirs[0]) {
            Some(es) => {
                lemma_first_match_in_cases(es, name, suffix);
                if first_match_in(es, name, suffix) is Some {
                    let e = first_match_in(es, name, suffix)->Some_0;
                    let j = choose|j: int| 0 <= j < es.len() && es[j] == e;
                    assert(entry_matches(es[j], name, suffix));
                }
            },
            None => {
            },
        }
        assert(spec_resolve(dirs, name, suffix) == spec_resolve(dirs.drop_first(), name, suffix));
        assert(dirs.drop_first()[i - 1] == dirs[i]);
        assert(forall|k: int|
            0 <= k < i - 1 ==> !dir_has_match(#[trigger] dirs.drop_first()[k], name, suffix)) by {
            assert(forall|k: int|
                0 <= k < i - 1 ==> dirs.drop_first()[k] == #[trigger] dirs[k + 1]);
        }
        lemma_first_dir_wins(dirs.drop_first(), name, suffix, i - 1);
    }
}

/// Splits `s` on every occurrence of the separator, keeping empty pieces,
/// with `cur` the piece begun so far and `acc` the pieces already complete.
/// This is how the platform's search-path variable is cut into directories.
pub open spec fn split_scan(s: Seq<char>, sep: char, cur: Seq<char>, acc: Seq<Seq<char>>) -> Seq<
    Seq<char>,
>
    decreases s.len(),
{
    if s.len() == 0 {
        acc.push(cur)
    } else if s[0] == sep {
        split_scan(s.drop_first(), sep, Seq::empty(), acc.push(cur))
    } else {
        split_scan(s.drop_first(), sep, cur.push(s[0]), acc)
    }
}

/// The pieces of `s` between occurrences of `sep`, in order; empty pieces
/// are kept, so the result always holds one more piece than `s` holds
/// separators.
pub open spec fn spec_split(s: Seq<char>, sep: char) -> Seq<Seq<char>> {
    split_scan(s, sep, Seq::empty(), Seq::empty())
}

/// Cuts the search-path variable into its directories at each separator.
pub fn split_sep(s: &str, sep: char) -> (r: Vec<String>)
    ensures
        r.deep_view() == spec_split(s@, sep),
{
    let n: usize = s.unicode_len();
    let mut cur = String::new();
    let mut pieces: Vec<String> = Vec::new();
    let mut i: usize = 0;
    proof {
        assert(s@.skip(0) =~= s@);
        assert(pieces.deep_view() =~= Seq::<Seq<char>>::empty());
    }
    while i < n
        invariant
            n == s@.len(),
            i <= n,
            spec_split(s@, sep) == split_scan(s@.skip(i as int), sep, cur@, pieces.deep_view()),
        decreases n - i,
    {
        proof {
            assert(s@.skip(i as int)[0] == s@[i as int]);
            assert(s@.skip(i as int).drop_first() =~= s@.skip(i as int + 1));
        }
        let c = s.get_char(i);
        let ghost prev_acc = pieces.deep_view();
        let ghost prev_cur = cur@;
        if c == sep {
            pieces.push(cur);
            cur = String::new();
            proof {
                assert(pieces.deep_view() =~~= prev_acc.push(prev_cur));
            }
        } else {
            crate::text::push_char(&mut cur, c);
        }
        i = i + 1;
    }
    proof {
        assert(s@.skip(i as int) =~= Seq::<char>::empty());
    }
    let ghost prev_acc = pieces.deep_view();
    let ghost prev_cur = cur@;
    pieces.push(cur);
    proof {
        assert(pieces.deep_view() =~~= prev_acc.push(prev_cur));
    }
    pieces
}

} // verus!
