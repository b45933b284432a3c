use vstd::prelude::*;

verus! {

/// The paths of the entries that are not directories, in the order given.
pub open spec fn file_paths<P>(entries: Seq<(P, bool)>) -> Seq<P>
    decreases entries.len(),
{
    if entries.len() == 0 {
        Seq::empty()
    } else if entries.last().1 {
        file_paths(entries.drop_last())
    } else {
        file_paths(entries.drop_last()).push(entries.last().0)
    }
}

/// The images found at a path: where the path is a directory, its entries
/// that are not directories themselves, in listing order; otherwise the
/// path itself.
pub open spec fn images_at<P>(path: P, path_is_dir: bool, entries: Seq<(P, bool)>) -> Seq<P> {
    if path_is_dir {
        file_paths(entries)
    } else {
        seq![path]
    }
}

/// The images listed for a directory are exactly its entries that are not
/// directories: each listed path is the path of such an entry, and the path
/// of each such entry is listed.
pub proof fn lemma_file_paths_are_files<P>(entries: Seq<(P, bool)>)
    ensures
        file_paths(entries).len() <= entries.len(),
        forall|j: int| 0 <= j < file_paths(entries).len() ==> exists|k: int|
            0 <= k < entries.len() && !entries[k].1 && #[trigger] file_paths(entries)[j] == entries[k].0,
        forall|k: int| 0 <= k < entries.len() && !(#[trigger] entries[k]).1 ==> file_paths(entries).contains(entries[k].0),
    decreases entries.len(),
{
    if entries.len() > 0 {
        let rest = entries.drop_last();
        lemma_file_paths_are_files(rest);
        assert forall|k: int| 0 <= k < entries.len() && !(#[trigger] entries[k]).1 implies file_paths(entries).contains(entries[k].0) by {
            if k < rest.len() {
                assert(entries[k] == rest[k]);
                let j = choose|j: int| 0 <= j < file_paths(rest).len() && file_paths(rest)[j] == rest[k].0;
                assert(file_paths(entries)[j] == file_paths(rest)[j]);
            } else {
                assert(file_paths(entries).last() == entries[k].0);
            }
        }
        assert forall|j: int| 0 <= j < file_paths(entries).len() implies exists|k: int|
            0 <= k < entries.len() && !entries[k].1 && #[trigger] file_paths(entries)[j] == entries[k].0 by {
            if j < file_paths(rest).len() {
                let k = choose|k: int| 0 <= k < rest.len() && !rest[k].1 && file_paths(rest)[j] == rest[k].0;
                assert(entries[k] == rest[k]);
            } else {
                assert(file_paths(entries)[j] == entries[entries.len() - 1].0);
            }
        }
    }
}

/// `result` lists, in order, the paths of exactly the entries that are not
/// directories: `positions` gives, for each listed path, the strictly
/// increasing position in `entries` of the entry it comes from, and every
/// entry that is not a directory has its position there.
pub open spec fn lists_files_in_order<P>(result: Seq<P>, entries: Seq<(P, bool)>, positions: Seq<int>) -> bool {
    &&& positions.len() == result.len()
    &&& forall|i: int| #![trigger positions[i]] 0 <= i < positions.len() ==> {
        &&& 0 <= positions[i] < entries.len()
        &&& !entries[positions[i]].1
        &&& result[i] == entries[positions[i]].0
    }
    &&& forall|i: int, j: int| 0 <= i < j < positions.len() ==> #[trigger] positions[i] < #[trigger] positions[j]
    &&& forall|k: int| 0 <= k < entries.len() && !(#[trigger] entries[k]).1 ==> exists|i: int|
        0 <= i < positions.len() && positions[i] == k
}

/// The images listed for a directory are its entries that are not
/// directories, each once, in listing order, and no others.
pub proof fn law_directory_listing<P>(entries: Seq<(P, bool)>) -> (positions: Seq<int>)
    ensures
        lists_files_in_order(file_paths(entries), entries, positions),
    decreases entries.len(),
{
    if entries.len() == 0 {
        Seq::empty()
    } else {
        let rest = entries.drop_last();
        let before = law_directory_listing(rest);
        let n = entries.len() - 1;
        if entries.last().1 {
            assert forall|k: int| 0 <= k < entries.len() && !(#[trigger] entries[k]).1 implies exists|i: int|
                0 <= i < before.len() && before[i] == k by {
                assert(rest[k] == entries[k]);
            }
            assert forall|i: int| #![trigger before[i]] 0 <= i < before.len() implies {
                &&& 0 <= before[i] < entries.len()
                &&& !entries[before[i]].1
                &&& file_paths(entries)[i] == entries[before[i]].0
            } by {
                assert(rest[before[i]] == entries[before[i]]);
            }
            before
        } else {
            let positions = before.push(n);
            assert forall|k: int| 0 <= k < entries.len() && !(#[trigger] entries[k]).1 implies exists|i: int|
                0 <= i < positions.len() && positions[i] == k by {
                if k < n {
                    assert(rest[k] == entries[k]);
                    let i = choose|i: int| 0 <= i < before.len() && before[i] == k;
                    assert(positions[i] == k);
                } else {
                    assert(positions[before.len() as int] == k);
                }
            }
            assert forall|i: int| #![trigger positions[i]] 0 <= i < positions.len() implies {
                &&& 0 <= positions[i] < entries.len()
                &&& !entries[positions[i]].1
                &&& file_paths(entries)[i] == entries[positions[i]].0
            } by {
                if i < before.len() {
                    assert(positions[i] == before[i]);
                    assert(rest[before[i]] == entries[before[i]]);
                }
            }
            assert forall|i: int, j: int| 0 <= i < j < positions.len() implies #[trigger] positions[i] < #[trigger] positions[j] by {
                if j < before.len() {
                    assert(positions[i] == before[i] && positions[j] == before[j]);
                } else {
                    assert(positions[i] == before[i]);
                }
            }
            positions
        }
    }
}

/// The images found at a path: a path that is not a directory is the one
/// image; a directory gives its entries that are not directories, each
/// once, in listing order, and no others.
pub proof fn law_images_at<P>(path: P, path_is_dir: bool, entries: Seq<(P, bool)>)
    ensures
        !path_is_dir ==> images_at(path, path_is_dir, entries) == seq![path],
        path_is_dir ==> exists|positions: Seq<int>| lists_files_in_order(images_at(path, path_is_dir, entries), entries, positions),
{
    let positions = law_directory_listing(entries);
    if path_is_dir {
        assert(lists_files_in_order(images_at(path, path_is_dir, entries), entries, positions));
    }
}

/// Lists the images to process at `path`, given whether it is a directory
/// and, for a directory, its entries (each with whether it is a directory
/// itself) in listing order: a directory gives its entries that are not
/// directories, in that order; any other path gives itself.
pub fn images_in_path<P>(path: P, path_is_dir: bool, entries: Vec<(P, bool)>) -> (images: Vec<P>)
    ensures
        images@ == images_at(path, path_is_dir, entries@),
        !path_is_dir ==> images@ == seq![path],
        path_is_dir ==> exists|positions: Seq<int>| lists_files_in_order(images@, entries@, positions),
{
    proof {
        law_images_at(path, path_is_dir, entries@);
    }
    if !path_is_dir {
        let mut single: Vec<P> = Vec::new();
        single.push(path);
        return single;
    }
    let ghost all = entries@;
    let mut rest = entries;
    let mut kept_reversed: Vec<P> = Vec::new();
    while rest.len() > 0
        invariant
            file_paths(all) == file_paths(rest@) + kept_reversed@.reverse(),
        decreases rest.len(),
    {
        let ghost before = rest@;
        let ghost kept_before = kept_reversed@;
        let entry = rest.pop();
        match entry {
            Some((p, is_dir)) => {
                assert(rest@ == before.drop_last());
                if !is_dir {
                    let ghost q = p;
                    kept_reversed.push(p);
                    assert(kept_reversed@.reverse() =~= seq![q] + kept_before.reverse());
                    assert(file_paths(before) == file_paths(rest@).push(q));
                    assert(file_paths(before) + kept_before.reverse() =~= file_paths(rest@) + kept_reversed@.reverse());
                }
            },
            None => {},
        }
    }
    assert(file_paths(rest@) =~= Seq::<P>::empty());
    assert(file_paths(all) =~= kept_reversed@.reverse());
    let mut images: Vec<P> = Vec::new();
    while kept_reversed.len() > 0
        invariant
            file_paths(all) == images@ + kept_reversed@.reverse(),
        decreases kept_reversed.len(),
    {
        let ghost before = kept_reversed@;
        let ghost images_before = images@;
        let next = kept_reversed.pop();
        match next {
            Some(p) => {
                let ghost q = p;
                images.push(p);
                assert(before.reverse() =~= seq![q] + kept_reversed@.reverse());
                assert(images_before + before.reverse() =~= images@ + kept_reversed@.reverse());
            },
            None => {},
        }
    }
    assert(images@ =~= images@ + kept_reversed@.reverse());
    images
}

} // verus!
