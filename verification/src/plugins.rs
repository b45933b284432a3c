use vstd::prelude::*;
use crate::text::text_is;
use vstd::multiset::Multiset;

verus! {

/// Whether a file extension marks a plugin library: `so`, `dll` or `dylib`.
pub open spec fn is_plugin_library_extension(ext: Seq<char>) -> bool {
    ext == "so"@ || ext == "dll"@ || ext == "dylib"@
}

/// Decides whether a file with extension `ext` is loaded as a plugin
/// library.
pub fn is_plugin_extension(ext: &str) -> (r: bool)
    ensures
        r == is_plugin_library_extension(ext@),
        r <==> (ext@ == "so"@ || ext@ == "dll"@ || ext@ == "dylib"@),
{
    text_is(ext, "so") || text_is(ext, "dll") || text_is(ext, "dylib")
}

/// Why a plugin library was refused.
#[derive(Clone, Copy, Debug, PartialEq, Eq, Structural)]
pub enum PluginError {
    /// The plugin was built against another compiler or another version of
    /// the core library.
    VersionMismatch,
}

/// Compares the compiler and core-library versions a plugin declares with
/// those of this build: the plugin is accepted exactly when both are equal.
pub fn versions_match(
    plugin_rustc: &str,
    plugin_core: &str,
    host_rustc: &str,
    host_core: &str,
) -> (r: Result<(), PluginError>)
    ensures
        r is Ok <==> (plugin_rustc@ == host_rustc@ && plugin_core@ == host_core@),
        r is Err ==> r == Err::<(), PluginError>(PluginError::VersionMismatch),
{
    if !text_is(plugin_rustc, host_rustc) || !text_is(plugin_core, host_core) {
        Err(PluginError::VersionMismatch)
    } else {
        Ok(())
    }
}

/// `lenna_core::CORE_VERSION`, the package version of the core library that
/// was brought: `0.2.0`.
#[verifier::external_body]
fn lenna_core_version() -> (v: &'static str)
    ensures
        v@ == "0.2.0"@,
{
    lenna_core::CORE_VERSION
}

/// Checks the versions a plugin library declares against the core library
/// of this build: the plugin is accepted exactly when it was built by the
/// compiler `host_rustc` that built the core library (the caller reads it
/// from the core library; it depends on the build machine) and against the
/// core library version `0.2.0`.
pub fn check_plugin_versions(plugin_rustc: &str, plugin_core: &str, host_rustc: &str) -> (r: Result<(), PluginError>)
    ensures
        r is Ok <==> (plugin_rustc@ == host_rustc@ && plugin_core@ == "0.2.0"@),
        r is Err ==> r == Err::<(), PluginError>(PluginError::VersionMismatch),
{
    let host_core = lenna_core_version();
    versions_match(plugin_rustc, plugin_core, host_rustc, host_core)
}

/// The paths of the files, in the order given, whose extension marks a
/// plugin library.
pub open spec fn plugin_library_paths<P>(files: Seq<(P, Option<Seq<char>>)>) -> Seq<P>
    decreases files.len(),
{
    if files.len() == 0 {
        Seq::empty()
    } else {
        let rest = plugin_library_paths(files.drop_last());
        match files.last().1 {
            Some(ext) => if is_plugin_library_extension(ext) {
                rest.push(files.last().0)
            } else {
                rest
            },
            None => rest,
        }
    }
}

/// The listing of a directory, each file with its extension, as seen by
/// `plugin_library_paths`.
pub open spec fn listing_view<P>(files: Seq<(P, Option<String>)>) -> Seq<(P, Option<Seq<char>>)> {
    files.map_values(|f: (P, Option<String>)| (f.0, match f.1 {
        Some(ext) => Some(ext@),
        None => None,
    }))
}

/// Whether a listed file has the extension `so`, `dll` or `dylib`.
pub open spec fn has_library_extension<P>(file: (P, Option<String>)) -> bool {
    match file.1 {
        Some(ext) => ext@ == "so"@ || ext@ == "dll"@ || ext@ == "dylib"@,
        None => false,
    }
}

/// `result` lists, in order, the paths of exactly the files with a library
/// extension: `positions` gives, for each listed path, the strictly
/// increasing position in `files` of the file it comes from, and every file
/// with a library extension has its position there.
pub open spec fn lists_libraries_in_order<P>(result: Seq<P>, files: Seq<(P, Option<String>)>, positions: Seq<int>) -> bool {
    &&& positions.len() == result.len()
    &&& forall|i: int| #![trigger positions[i]] 0 <= i < positions.len() ==> {
        &&& 0 <= positions[i] < files.len()
        &&& has_library_extension(files[positions[i]])
        &&& result[i] == files[positions[i]].0
    }
    &&& forall|i: int, j: int| 0 <= i < j < positions.len() ==> #[trigger] positions[i] < #[trigger] positions[j]
    &&& forall|k: int| 0 <= k < files.len() && has_library_extension(#[trigger] files[k]) ==> exists|i: int|
        0 <= i < positions.len() && positions[i] == k
}

/// The libraries loaded from a plugin directory are its files with
/// extension `so`, `dll` or `dylib`, each once, in listing order, and no
/// others.
pub proof fn law_plugin_library_selection<P>(files: Seq<(P, Option<String>)>) -> (positions: Seq<int>)
    ensures
        lists_libraries_in_order(plugin_library_paths(listing_view(files)), files, positions),
    decreases files.len(),
{
    if files.len() == 0 {
        Seq::empty()
    } else {
        let rest = files.drop_last();
        let before = law_plugin_library_selection(rest);
        let n = files.len() - 1;
        assert(listing_view(files).drop_last() =~= listing_view(rest));
        let last_view = listing_view(files).last();
        assert(last_view.0 == files[n].0);
        assert(has_library_extension(files[n]) <==> (match last_view.1 {
            Some(e) => is_plugin_library_extension(e),
            None => false,
        }));
        if !has_library_extension(files[n]) {
            assert(plugin_library_paths(listing_view(files)) == plugin_library_paths(listing_view(rest)));
            assert forall|k: int| 0 <= k < files.len() && has_library_extension(#[trigger] files[k]) implies exists|i: int|
                0 <= i < before.len() && before[i] == k by {
                assert(rest[k] == files[k]);
            }
            assert forall|i: int| #![trigger before[i]] 0 <= i < before.len() implies {
                &&& 0 <= before[i] < files.len()
                &&& has_library_extension(files[before[i]])
                &&& plugin_library_paths(listing_view(files))[i] == files[before[i]].0
            } by {
                assert(rest[before[i]] == files[before[i]]);
            }
            before
        } else {
            let positions = before.push(n);
            let out = plugin_library_paths(listing_view(files));
            assert(out == plugin_library_paths(listing_view(rest)).push(files[n].0));
            assert forall|k: int| 0 <= k < files.len() && has_library_extension(#[trigger] files[k]) implies exists|i: int|
                0 <= i < positions.len() && positions[i] == k by {
                if k < n {
                    assert(rest[k] == files[k]);
                    let i = choose|i: int| 0 <= i < before.len() && before[i] == k;
                    assert(positions[i] == k);
                } else {
                    assert(positions[before.len() as int] == k);
                }
            }
            assert forall|i: int| #![trigger positions[i]] 0 <= i < positions.len() implies {
                &&& 0 <= positions[i] < files.len()
                &&& has_library_extension(files[positions[i]])
                &&& out[i] == files[positions[i]].0
            } by {
                if i < before.len() {
                    assert(positions[i] == before[i]);
                    assert(rest[before[i]] == files[before[i]]);
                }
            }
            assert forall|i: int, j: int| 0 <= i < j < positions.len() implies #[trigger] positions[i] < #[trigger] positions[j] by {
                if j < before.len() {
                    assert(positions[i] == before[i] && positions[j] == before[j]);
                } else {
                    assert(positions[i] == before[i]);
                }
            }
            positions
        }
    }
}

/// Chooses, from the files of a plugin directory in listing order (each
/// with its extension, if it has one), those to load as plugin libraries:
/// the files with extension `so`, `dll` or `dylib`, in listing order.
pub fn plugin_libraries<P>(files: Vec<(P, Option<String>)>) -> (libraries: Vec<P>)
    ensures
        libraries@ == plugin_library_paths(listing_view(files@)),
        exists|positions: Seq<int>| lists_libraries_in_order(libraries@, files@, positions),
{
    proof {
        let positions = law_plugin_library_selection(files@);
    }
    let ghost all = listing_view(files@);
    let mut rest = files;
    let mut kept_reversed: Vec<P> = Vec::new();
    while rest.len() > 0
        invariant
            plugin_library_paths(all) == plugin_library_paths(listing_view(rest@)) + kept_reversed@.reverse(),
        decreases rest.len(),
    {
        let ghost before = rest@;
        let ghost kept_before = kept_reversed@;
        let file = rest.pop();
        match file {
            Some((p, ext)) => {
                let ghost q = p;
                let ghost e = ext;
                assert(rest@ == before.drop_last());
                assert(listing_view(rest@) =~= listing_view(before).drop_last());
                assert(listing_view(before).last() == (q, match e {
                    Some(x) => Some(x@),
                    None => None::<Seq<char>>,
                }));
                let keep = match &ext {
                    Some(x) => is_plugin_extension(x.as_str()),
                    None => false,
                };
                if keep {
                    kept_reversed.push(p);
                    assert(kept_reversed@.reverse() =~= seq![q] + kept_before.reverse());
                    assert(plugin_library_paths(listing_view(before)) == plugin_library_paths(listing_view(rest@)).push(q));
                    assert(plugin_library_paths(listing_view(before)) + kept_before.reverse()
                        =~= plugin_library_paths(listing_view(rest@)) + kept_reversed@.reverse());
                } else {
                    assert(plugin_library_paths(listing_view(before)) == plugin_library_paths(listing_view(rest@)));
                }
            },
            None => {},
        }
    }
    assert(listing_view(rest@) =~= Seq::<(P, Option<Seq<char>>)>::empty());
    assert(plugin_library_paths(all) =~= kept_reversed@.reverse());
    let mut libraries: Vec<P> = Vec::new();
    while kept_reversed.len() > 0
        invariant
            plugin_library_paths(all) == libraries@ + kept_reversed@.reverse(),
        decreases kept_reversed.len(),
    {
        let ghost before = kept_reversed@;
        let ghost libraries_before = libraries@;
        let next = kept_reversed.pop();
        match next {
            Some(p) => {
                let ghost q = p;
                libraries.push(p);
                assert(before.reverse() =~= seq![q] + kept_reversed@.reverse());
                assert(libraries_before + before.reverse() =~= libraries@ + kept_reversed@.reverse());
            },
            None => {},
        }
    }
    assert(libraries@ =~= libraries@ + kept_reversed@.reverse());
    libraries
}

/// The plugins that one library registered, in registration order.
pub struct PluginRegistry<T> {
    plugins: Vec<T>,
}

impl<T> View for PluginRegistry<T> {
    type V = Seq<T>;

    closed spec fn view(&self) -> Seq<T> {
        self.plugins@
    }
}

/// What taking the first plugin out of `plugins` leaves: the first plugin
/// is handed out and the last one moves into its place.
pub open spec fn after_taking_first<T>(plugins: Seq<T>) -> Seq<T> {
    plugins.update(0, plugins.last()).drop_last()
}

impl<T> PluginRegistry<T> {
    /// An empty registry.
    pub fn new() -> (r: Self)
        ensures
            r@ == Seq::<T>::empty(),
    {
        PluginRegistry { plugins: Vec::new() }
    }

    /// Registers a plugin after those registered before.
    pub fn add_plugin(&mut self, plugin: T)
        ensures
            final(self)@ == old(self)@.push(plugin),
    {
        self.plugins.push(plugin);
    }

    /// The number of registered plugins.
    pub fn len(&self) -> (n: usize)
        ensures
            n == self@.len(),
    {
        self.plugins.len()
    }

    /// Takes out the plugin registered first; the plugin registered last
    /// takes its place.
    pub fn take_first(&mut self) -> (plugin: T)
        requires
            old(self)@.len() > 0,
        ensures
            plugin == old(self)@[0],
            final(self)@ == after_taking_first(old(self)@),
    {
        self.plugins.swap_remove(0)
    }
}

/// A library that registers its plugins one after another into a new
/// registry hands out, as its plugin, the first one it registered; the
/// others stay registered.
pub proof fn lemma_first_registered_is_taken<T>(plugins: Seq<T>)
    requires
        plugins.len() > 0,
    ensures
        after_taking_first(plugins).len() == plugins.len() - 1,
        after_taking_first(plugins).to_multiset().insert(plugins[0]) == plugins.to_multiset(),
{
    let rest = after_taking_first(plugins);
    let n = plugins.len();
    if n == 1 {
        assert(rest =~= Seq::<T>::empty());
        assert(plugins =~= seq![plugins[0]]);
        broadcast use vstd::seq_lib::group_to_multiset_ensures;
        assert(plugins.to_multiset() =~= Seq::<T>::empty().to_multiset().insert(plugins[0])) by {
            assert(seq![plugins[0]] == Seq::<T>::empty().push(plugins[0]));
            vstd::seq_lib::lemma_multiset_commutative(Seq::<T>::empty(), seq![plugins[0]]);
        }
    } else {
        broadcast use vstd::seq_lib::group_to_multiset_ensures;
        // plugins = [a] + middle + [z];  rest = [z] + middle
        let a = plugins[0];
        let z = plugins.last();
        let middle = plugins.subrange(1, n - 1);
        assert(plugins =~= seq![a] + middle + seq![z]);
        assert(rest =~= seq![z] + middle);
        vstd::seq_lib::lemma_multiset_commutative(seq![a] + middle, seq![z]);
        vstd::seq_lib::lemma_multiset_commutative(seq![a], middle);
        vstd::seq_lib::lemma_multiset_commutative(seq![z], middle);
        assert(seq![a].to_multiset() =~= Multiset::singleton(a)) by {
            assert(seq![a] == Seq::<T>::empty().push(a));
        }
        assert(seq![z].to_multiset() =~= Multiset::singleton(z)) by {
            assert(seq![z] == Seq::<T>::empty().push(z));
        }
    }
}

} // verus!
