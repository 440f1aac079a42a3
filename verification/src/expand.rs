//! Iterative expansion of inclusion directives.
//!
//! Expansion seeds a buffer with the fragment a path resolves to, then
//! repeatedly replaces the first directive line with the text of the fragment
//! it names, until no directive remains. A path may resolve from the
//! disk-backed table or the embedded table, never both; a path expanded twice
//! within one pass is rejected. Whether a path is on disk can only be learnt
//! by probing the filesystem, which the caller does: when expansion meets a
//! path that is in neither the disk table nor the caller's set of
//! probed-and-absent paths, it stops and asks for that probe.

use vstd::prelude::*;

verus! {

use crate::directive::next_directive;
use crate::directive::next_directive_from;
use crate::path_map::PathMap;
use crate::path_map::PathSet;
use crate::text::copy_chars;
use crate::text::splice;

/// What a single path resolves to, given the two fragment tables and the
/// set of paths already probed on disk and found absent.
pub enum Lookup {
    /// Exactly one table holds the path.
    Text(Seq<char>),
    /// Both tables hold the path.
    Both,
    /// The path was probed, and neither table holds it.
    Neither,
    /// The path is not in the disk table and has not been probed.
    Unprobed,
}

/// How one path resolves: the disk table and the embedded table are both
/// consulted, and exactly one of them must hold the path. A path absent from
/// the disk table must have been probed before the embedded table may answer
/// for it, since a file appearing on disk would make the path ambiguous.
pub open spec fn lookup_path(
    disk: Map<Seq<char>, Seq<char>>,
    embedded: Map<Seq<char>, Seq<char>>,
    probed: Set<Seq<char>>,
    p: Seq<char>,
) -> Lookup {
    if disk.contains_key(p) && embedded.contains_key(p) {
        Lookup::Both
    } else if disk.contains_key(p) {
        Lookup::Text(disk[p])
    } else if !probed.contains(p) {
        Lookup::Unprobed
    } else if embedded.contains_key(p) {
        Lookup::Text(embedded[p])
    } else {
        Lookup::Neither
    }
}

/// How an expansion ends.
pub enum Outcome {
    /// No directive remains: the fully expanded text.
    Done(Seq<char>),
    /// This path must be probed on disk before expansion can go on.
    Probe(Seq<char>),
    /// This path is in both tables.
    Ambiguous(Seq<char>),
    /// This path was probed and is in neither table.
    Missing(Seq<char>),
    /// This path was already expanded within this pass.
    Repeated(Seq<char>),
    /// The step budget ran out; never reached from `expand_from`.
    Spin,
}

/// One pass of directive substitution over `src`, with `visited` the paths
/// already substituted in this pass.
pub open spec fn expand_rec(
    disk: Map<Seq<char>, Seq<char>>,
    embedded: Map<Seq<char>, Seq<char>>,
    probed: Set<Seq<char>>,
    src: Seq<char>,
    visited: Set<Seq<char>>,
    fuel: nat,
) -> Outcome
    decreases fuel,
{
    match next_directive_from(src, 0) {
        None => Outcome::Done(src),
        Some(d) => {
            let (a, c, p) = d;
            if visited.contains(p) {
                Outcome::Repeated(p)
            } else {
                match lookup_path(disk, embedded, probed, p) {
                    Lookup::Both => Outcome::Ambiguous(p),
                    Lookup::Neither => Outcome::Missing(p),
                    Lookup::Unprobed => Outcome::Probe(p),
                    Lookup::Text(t) => if fuel == 0 {
                        Outcome::Spin
                    } else {
                        expand_rec(
                            disk,
                            embedded,
                            probed,
                            src.subrange(0, a) + t + src.subrange(c, src.len() as int),
                            visited.insert(p),
                            (fuel - 1) as nat,
                        )
                    },
                }
            }
        },
    }
}

/// The paths that can resolve to text: the step budget of one pass.
pub open spec fn expansion_fuel(
    disk: Map<Seq<char>, Seq<char>>,
    embedded: Map<Seq<char>, Seq<char>>,
) -> nat {
    disk.dom().union(embedded.dom()).len()
}

/// The expansion of the fragment a path names.
pub open spec fn expand_from(
    disk: Map<Seq<char>, Seq<char>>,
    embedded: Map<Seq<char>, Seq<char>>,
    probed: Set<Seq<char>>,
    path: Seq<char>,
) -> Outcome {
    match lookup_path(disk, embedded, probed, path) {
        Lookup::Both => Outcome::Ambiguous(path),
        Lookup::Neither => Outcome::Missing(path),
        Lookup::Unprobed => Outcome::Probe(path),
        Lookup::Text(t) => expand_rec(
            disk,
            embedded,
            probed,
            t,
            Set::empty(),
            expansion_fuel(disk, embedded),
        ),
    }
}

/// Every substituted path resolved from one of the tables, so a pass makes
/// at most as many substitutions as the tables have entries: the budget of
/// `expand_from` never runs out.
pub proof fn lemma_expand_rec_no_spin(
    disk: Map<Seq<char>, Seq<char>>,
    embedded: Map<Seq<char>, Seq<char>>,
    probed: Set<Seq<char>>,
    src: Seq<char>,
    visited: Set<Seq<char>>,
    fuel: nat,
)
    requires
        disk.dom().finite(),
        embedded.dom().finite(),
        visited.subset_of(disk.dom().union(embedded.dom())),
        fuel >= disk.dom().union(embedded.dom()).difference(visited).len(),
    ensures
        expand_rec(disk, embedded, probed, src, visited, fuel) != Outcome::Spin,
    decreases fuel,
{
    broadcast use vstd::set::group_set_axioms;

    let u = disk.dom().union(embedded.dom());
    vstd::set_lib::lemma_len_union(disk.dom(), embedded.dom());
    match next_directive_from(src, 0) {
        None => {},
        Some(d) => {
            let (a, c, p) = d;
            if !visited.contains(p) && lookup_path(disk, embedded, probed, p) is Text {
                let rem = u.difference(visited);
                assert(rem.subset_of(u));
                vstd::set_lib::lemma_len_subset(rem, u);
                assert(u.contains(p));
                assert(rem.contains(p));
                if rem.len() == 0 {
                    rem.lemma_len0_is_empty();
                }
                assert(fuel >= 1);
                let visited2 = visited.insert(p);
                assert(u.difference(visited2) =~= rem.remove(p));
                let t = lookup_path(disk, embedded, probed, p)->Text_0;
                lemma_expand_rec_no_spin(
                    disk,
                    embedded,
                    probed,
                    src.subrange(0, a) + t + src.subrange(c, src.len() as int),
                    visited2,
                    (fuel - 1) as nat,
                );
            }
        },
    }
}

/// `expand_from` never reports an exhausted budget.
pub proof fn lemma_expand_from_no_spin(
    disk: Map<Seq<char>, Seq<char>>,
    embedded: Map<Seq<char>, Seq<char>>,
    probed: Set<Seq<char>>,
    path: Seq<char>,
)
    requires
        disk.dom().finite(),
        embedded.dom().finite(),
    ensures
        expand_from(disk, embedded, probed, path) != Outcome::Spin,
{
    broadcast use vstd::set::group_set_axioms;

    let u = disk.dom().union(embedded.dom());
    assert(u.difference(Set::empty()) =~= u);
    if lookup_path(disk, embedded, probed, path) is Text {
        lemma_expand_rec_no_spin(
            disk,
            embedded,
            probed,
            lookup_path(disk, embedded, probed, path)->Text_0,
            Set::empty(),
            expansion_fuel(disk, embedded),
        );
    }
}

/// The map of fragment texts a table of character vectors denotes.
pub open spec fn texts(m: Map<Seq<char>, Vec<char>>) -> Map<Seq<char>, Seq<char>> {
    m.map_values(|v: Vec<char>| v@)
}

pub proof fn lemma_texts(m: Map<Seq<char>, Vec<char>>)
    ensures
        texts(m).dom() == m.dom(),
        forall|k: Seq<char>| #[trigger]
            texts(m).contains_key(k) <==> m.contains_key(k),
        forall|k: Seq<char>| m.contains_key(k) ==> texts(m)[k] == #[trigger] m[k]@,
{
    assert(texts(m).dom() =~= m.dom());
}

pub proof fn lemma_texts_insert(m: Map<Seq<char>, Vec<char>>, k: Vec<char>, v: Vec<char>)
    ensures
        texts(m.insert(k@, v)) == texts(m).insert(k@, v@),
{
    lemma_texts(m);
    lemma_texts(m.insert(k@, v));
    assert(texts(m.insert(k@, v)) =~= texts(m).insert(k@, v@));
}

/// How one path resolves, as `lookup_path` names it.
pub(crate) enum Found {
    Text(Vec<char>),
    Both,
    Neither,
    Unprobed,
}

/// The resolution `r` denotes.
pub(crate) open spec fn found_view(r: &Found) -> Lookup {
    match r {
        Found::Text(t) => Lookup::Text(t@),
        Found::Both => Lookup::Both,
        Found::Neither => Lookup::Neither,
        Found::Unprobed => Lookup::Unprobed,
    }
}

/// Resolves one path against the two tables, as `lookup_path` names it.
pub(crate) fn lookup(
    disk: &PathMap<Vec<char>>,
    embedded: &PathMap<Vec<char>>,
    probed: &PathSet,
    p: &Vec<char>,
) -> (r: Found)
    ensures
        found_view(&r) == lookup_path(texts(disk@), texts(embedded@), probed@, p@),
{
    proof {
        lemma_texts(disk@);
        lemma_texts(embedded@);
    }
    let in_disk = disk.get(p);
    let in_embedded = embedded.get(p);
    match (in_disk, in_embedded) {
        (Some(_), Some(_)) => Found::Both,
        (Some(t), None) => Found::Text(copy_chars(t)),
        (None, maybe) => {
            if !probed.contains(p) {
                Found::Unprobed
            } else {
                match maybe {
                    Some(t) => Found::Text(copy_chars(t)),
                    None => Found::Neither,
                }
            }
        },
    }
}

/// How an expansion ended, with owned payloads.
pub enum Expanded {
    /// The fully expanded text.
    Complete(Vec<char>),
    /// This path must be probed on disk first.
    NeedsProbe(Vec<char>),
    /// This path is in both tables.
    AmbiguousPath(Vec<char>),
    /// This path was probed and is in neither table.
    MissingPath(Vec<char>),
    /// This path was already expanded within this pass.
    RepeatedPath(Vec<char>),
}

/// The outcome `r` denotes.
pub open spec fn expanded_view(r: &Expanded) -> Outcome {
    match r {
        Expanded::Complete(t) => Outcome::Done(t@),
        Expanded::NeedsProbe(p) => Outcome::Probe(p@),
        Expanded::AmbiguousPath(p) => Outcome::Ambiguous(p@),
        Expanded::MissingPath(p) => Outcome::Missing(p@),
        Expanded::RepeatedPath(p) => Outcome::Repeated(p@),
    }
}

/// Expands the fragment `path` names over the two tables, exactly as
/// `expand_from` describes.
pub fn expand_text(
    disk: &PathMap<Vec<char>>,
    embedded: &PathMap<Vec<char>>,
    probed: &PathSet,
    path: &Vec<char>,
) -> (r: Expanded)
    ensures
        expanded_view(&r) == expand_from(texts(disk@), texts(embedded@), probed@, path@),
{
    broadcast use vstd::set::group_set_axioms;

    let ghost d = texts(disk@);
    let ghost e = texts(embedded@);
    let ghost u = d.dom().union(e.dom());
    proof {
        lemma_texts(disk@);
        lemma_texts(embedded@);
        disk.lemma_dom_finite();
        embedded.lemma_dom_finite();
    }
    let mut source: Vec<char> = match lookup(disk, embedded, probed, path) {
        Found::Text(t) => t,
        Found::Both => {
            return Expanded::AmbiguousPath(copy_chars(path));
        },
        Found::Neither => {
            return Expanded::MissingPath(copy_chars(path));
        },
        Found::Unprobed => {
            return Expanded::NeedsProbe(copy_chars(path));
        },
    };
    let mut visited = PathSet::new();
    proof {
        assert(u.difference(Set::empty()) =~= u);
    }
    loop
        invariant
            d == texts(disk@),
            e == texts(embedded@),
            u == d.dom().union(e.dom()),
            d.dom().finite(),
            e.dom().finite(),
            visited@.subset_of(u),
            expand_rec(d, e, probed@, source@, visited@, u.difference(visited@).len())
                == expand_from(d, e, probed@, path@),
        decreases u.difference(visited@).len(),
    {
        let ghost fuel = u.difference(visited@).len();
        match next_directive(&source) {
            None => {
                return Expanded::Complete(source);
            },
            Some((a, c, p)) => {
                if visited.contains(&p) {
                    return Expanded::RepeatedPath(p);
                }
                match lookup(disk, embedded, probed, &p) {
                    Found::Both => {
                        return Expanded::AmbiguousPath(p);
                    },
                    Found::Neither => {
                        return Expanded::MissingPath(p);
                    },
                    Found::Unprobed => {
                        return Expanded::NeedsProbe(p);
                    },
                    Found::Text(t) => {
                        proof {
                            let rem = u.difference(visited@);
                            vstd::set_lib::lemma_len_subset(rem, u);
                            vstd::set_lib::lemma_len_union(d.dom(), e.dom());
                            assert(u.contains(p@));
                            assert(rem.contains(p@));
                            if rem.len() == 0 {
                                rem.lemma_len0_is_empty();
                            }
                            assert(fuel >= 1);
                            assert(u.difference(visited@.insert(p@)) =~= rem.remove(p@));
                        }
                        let new_source = splice(&source, a, c, &t);
                        visited.insert(p);
                        source = new_source;
                    },
                }
            },
        }
    }
}

} // verus!
