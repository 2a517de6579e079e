//! Numbers that stand for paths.
use vstd::prelude::*;

verus! {

/// The parts of paths as values.
pub open spec fn parts_view(parts: Seq<Vec<u8>>) -> Seq<Seq<u8>> {
    parts.map_values(|part: Vec<u8>| part@)
}

/// The paths that have a number: each of them is given by its parts, and its number is its place.
#[derive(Debug)]
pub struct Paths {
    known: Vec<Vec<Vec<u8>>>,
}

impl View for Paths {
    type V = Seq<Seq<Seq<u8>>>;

    closed spec fn view(&self) -> Seq<Seq<Seq<u8>>> {
        self.known@.map_values(|parts: Vec<Vec<u8>>| parts_view(parts@))
    }
}

/// These paths and one more, where it is not one of them.
pub open spec fn with_path(paths: Seq<Seq<Seq<u8>>>, path: Seq<Seq<u8>>) -> Seq<Seq<Seq<u8>>> {
    if paths.contains(path) {
        paths
    } else {
        paths.push(path)
    }
}

/// Whether two parts are the same.
fn same_part(a: &Vec<u8>, b: &Vec<u8>) -> (same: bool)
    ensures
        same == (a@ == b@),
{
    if a.len() != b.len() {
        return false;
    }
    let mut i: usize = 0;
    while i < a.len()
        invariant
            a@.len() == b@.len(),
            i <= a@.len(),
            forall|k: int| 0 <= k < i ==> a@[k] == b@[k],
        decreases a@.len() - i,
    {
        if a[i] != b[i] {
            return false;
        }
        i = i + 1;
    }
    assert(a@ =~= b@);
    true
}

/// Whether two paths have the same parts.
fn same_parts(a: &Vec<Vec<u8>>, b: &Vec<Vec<u8>>) -> (same: bool)
    ensures
        same == (parts_view(a@) == parts_view(b@)),
{
    let ghost (left, right) = (parts_view(a@), parts_view(b@));
    if a.len() != b.len() {
        assert(left.len() != right.len());
        return false;
    }
    let mut i: usize = 0;
    while i < a.len()
        invariant
            left == parts_view(a@),
            right == parts_view(b@),
            a@.len() == b@.len(),
            i <= a@.len(),
            forall|k: int| 0 <= k < i ==> left[k] == right[k],
        decreases a@.len() - i,
    {
        if !same_part(&a[i], &b[i]) {
            assert(left[i as int] != right[i as int]);
            return false;
        }
        i = i + 1;
    }
    assert(left =~= right);
    true
}

impl Paths {
    /// No path has two numbers.
    #[verifier::type_invariant]
    spec fn well_formed(&self) -> bool {
        self@.no_duplicates()
    }

    /// No path has a number.
    pub fn new() -> (paths: Paths)
        ensures
            paths@.len() == 0,
            paths@.no_duplicates(),
    {
        Paths { known: Vec::new() }
    }

    /// The number that stands for the path with these parts: the one that it has, or else the next
    /// one.
    pub fn number(&mut self, parts: Vec<Vec<u8>>) -> (number: usize)
        ensures
            final(self)@ == with_path(old(self)@, parts_view(parts@)),
            number < final(self)@.len(),
            final(self)@[number as int] == parts_view(parts@),
            final(self)@.no_duplicates(),
    {
        proof {
            use_type_invariant(&*self);
        }
        let ghost before = self@;
        let ghost path = parts_view(parts@);
        let mut known: Vec<Vec<Vec<u8>>> = Vec::new();
        std::mem::swap(&mut known, &mut self.known);
        let ghost all = known@.map_values(|parts: Vec<Vec<u8>>| parts_view(parts@));
        assert(all == before);
        let mut i: usize = 0;
        while i < known.len() && !same_parts(&known[i], &parts)
            invariant
                all == known@.map_values(|parts: Vec<Vec<u8>>| parts_view(parts@)),
                path == parts_view(parts@),
                i <= known@.len(),
                forall|k: int| 0 <= k < i ==> all[k] != path,
            decreases known@.len() - i,
        {
            assert(all[i as int] == parts_view(known@[i as int]@));
            i = i + 1;
        }
        if i < known.len() {
            assert(all[i as int] == path);
        } else {
            known.push(parts);
            assert(known@.map_values(|parts: Vec<Vec<u8>>| parts_view(parts@)) =~= all.push(path));
        }
        self.known = known;
        i
    }
}

/// Two paths get the same number exactly where they have the same parts, and a number keeps
/// standing for its path.
pub proof fn law_numbers_tell_paths_apart(
    paths: Seq<Seq<Seq<u8>>>,
    first: Seq<Seq<u8>>,
    second: Seq<Seq<u8>>,
    i: int,
    j: int,
)
    requires
        paths.no_duplicates(),
        0 <= i < with_path(paths, first).len(),
        with_path(paths, first)[i] == first,
        0 <= j < with_path(with_path(paths, first), second).len(),
        with_path(with_path(paths, first), second)[j] == second,
    ensures
        with_path(with_path(paths, first), second)[i] == first,
        i == j <==> first == second,
{
    assert(with_path(paths, first).contains(first));
}

/// A path is seen by its parts, in order.
pub proof fn law_parts_are_seen_whole(parts: Seq<Vec<u8>>)
    ensures
        parts_view(parts).len() == parts.len(),
        forall|i: int| 0 <= i < parts.len() ==> #[trigger] parts_view(parts)[i] == parts[i]@,
{
}

/// A path that has a number keeps it, and one that has none gets the next one.
pub proof fn law_new_paths_get_the_next_number(paths: Seq<Seq<Seq<u8>>>, path: Seq<Seq<u8>>)
    ensures
        paths.is_prefix_of(with_path(paths, path)),
        with_path(paths, path).contains(path),
        with_path(paths, path).len() == paths.len() + if paths.contains(path) {
            0nat
        } else {
            1nat
        },
{
    if paths.contains(path) {
        assert(paths =~= with_path(paths, path).take(paths.len() as int));
    } else {
        assert(paths =~= with_path(paths, path).take(paths.len() as int));
        assert(with_path(paths, path)[paths.len() as int] == path);
    }
}

} // verus!
