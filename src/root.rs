use vstd::prelude::*;

verus! {

/// The candidate directories, nearest first, each with whether it holds the
/// project marker.
pub open spec fn probe_views(probes: Seq<(String, bool)>) -> Seq<(Seq<char>, bool)> {
    probes.map_values(|p: (String, bool)| (p.0@, p.1))
}

/// The first candidate at or after position `i` that holds the marker.
pub open spec fn nearest_marked_from(probes: Seq<(Seq<char>, bool)>, i: int) -> Option<Seq<char>>
    decreases probes.len() - i,
{
    if i < 0 || i >= probes.len() {
        None
    } else if probes[i].1 {
        Some(probes[i].0)
    } else {
        nearest_marked_from(probes, i + 1)
    }
}

/// The project root: the nearest candidate directory that holds the marker.
pub open spec fn nearest_marked(probes: Seq<(Seq<char>, bool)>) -> Option<Seq<char>> {
    nearest_marked_from(probes, 0)
}

/// Finds the project root among the directories from the starting directory
/// up to the file-system root (nearest first), each paired with whether the
/// marker directory exists in it. `None` means the starting directory is not
/// inside any project.
pub fn search_tn_dir(probes: &Vec<(String, bool)>) -> (r: Option<String>)
    ensures
        r matches Some(d) ==> nearest_marked(probe_views(probes@)) == Some(d@),
        r is None ==> nearest_marked(probe_views(probes@)) is None,
        r is None <==> forall|i: int| 0 <= i < probes@.len() ==> !(#[trigger] probes@[i]).1,
{
    let ghost pv = probe_views(probes@);
    let mut i: usize = 0;
    while i < probes.len()
        invariant
            0 <= i <= probes@.len(),
            pv == probe_views(probes@),
            nearest_marked(pv) == nearest_marked_from(pv, i as int),
            forall|j: int| 0 <= j < i ==> !(#[trigger] probes@[j]).1,
        decreases probes@.len() - i,
    {
        let probe = &probes[i];
        if probe.1 {
            return Some(probe.0.clone());
        }
        i = i + 1;
    }
    None
}

} // verus!
