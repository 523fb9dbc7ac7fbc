//! A cache of loaded resources of one kind, keyed by the path they were
//! loaded from. A resource is loaded at most once per path.

use vstd::prelude::*;

verus! {

/// Why a resource could not be had.
#[derive(Debug)]
pub enum ResourceLoadError {
    /// Loading the resource at `path` failed.
    AcquisitionError { path: String },
}

/// A kind of resource that can be loaded from a path.
pub trait LoadableResource: Sized {
    type LoadError;

    fn load(path: &String) -> Result<Self, Self::LoadError>;
}

/// The map that a sequence of (path, resource) entries stands for; a later
/// entry for a path hides an earlier one.
pub open spec fn entries_map<T>(s: Seq<(String, T)>) -> Map<Seq<char>, T>
    decreases s.len(),
{
    if s.len() == 0 {
        Map::empty()
    } else {
        entries_map(s.drop_last()).insert(s.last().0@, s.last().1)
    }
}

/// Loaded resources by path.
pub struct ResourceStore<T> {
    resources: Vec<(String, T)>,
}

impl<T> View for ResourceStore<T> {
    type V = Map<Seq<char>, T>;

    closed spec fn view(&self) -> Map<Seq<char>, T> {
        entries_map(self.resources@)
    }
}

/// Entries after position `i` that are not for `k` do not change what the
/// map holds for `k`.
proof fn lemma_entries_tail<T>(s: Seq<(String, T)>, i: int, k: Seq<char>)
    requires
        0 <= i <= s.len(),
        forall|j: int| i <= j < s.len() ==> (#[trigger] s[j]).0@ != k,
    ensures
        entries_map(s).contains_key(k) == entries_map(s.take(i)).contains_key(k),
        entries_map(s).contains_key(k) ==> entries_map(s)[k] == entries_map(s.take(i))[k],
    decreases s.len() - i,
{
    if i < s.len() {
        let t = s.drop_last();
        assert forall|j: int| i <= j < t.len() implies (#[trigger] t[j]).0@ != k by {
            assert(t[j] == s[j]);
        }
        lemma_entries_tail(t, i, k);
        assert(t.take(i) =~= s.take(i));
    } else {
        assert(s.take(i) =~= s);
    }
}

impl<T> ResourceStore<T> {
    /// An empty cache.
    pub fn new() -> (r: Self)
        ensures
            r@ == Map::<Seq<char>, T>::empty(),
    {
        Self { resources: Vec::new() }
    }

    /// The position of the entry that holds the resource of `path`.
    fn position(&self, path: &String) -> (r: Option<usize>)
        ensures
            r matches Some(i) ==> i < self.resources@.len() && self@.contains_key(path@)
                && self@[path@] == self.resources@[i as int].1,
            r is None ==> !self@.contains_key(path@),
    {
        let ghost s = self.resources@;
        let mut i: usize = self.resources.len();
        while i > 0
            invariant
                i <= s.len(),
                s == self.resources@,
                forall|j: int| i <= j < s.len() ==> (#[trigger] s[j]).0@ != path@,
            decreases i,
        {
            if self.resources[i - 1].0 == *path {
                proof {
                    lemma_entries_tail(s, i as int, path@);
                    let t = s.take(i as int);
                    assert(t.drop_last() =~= s.take(i - 1));
                    assert(t.last() == s[i - 1]);
                }
                return Some(i - 1);
            }
            i = i - 1;
        }
        proof {
            lemma_entries_tail(s, 0, path@);
            assert(s.take(0) =~= seq![]);
        }
        None
    }

    /// The resource loaded from `path`, loading it with `T::load` on the first
    /// request. A failed load leaves the cache as it was.
    pub fn get(&mut self, path: String) -> (r: Result<&T, ResourceLoadError>)
        where
            T: LoadableResource,
        ensures
            old(self)@.contains_key(path@) ==> final(self)@ == old(self)@ && (r matches Ok(v)
                && *v == old(self)@[path@]),
            !old(self)@.contains_key(path@) ==> match r {
                Ok(v) => final(self)@ == old(self)@.insert(path@, *v),
                Err(ResourceLoadError::AcquisitionError { path: p }) => p@ == path@
                    && final(self)@ == old(self)@,
            },
    {
        match self.position(&path) {
            Some(i) => Ok(&self.resources[i].1),
            None => {
                match T::load(&path) {
                    Ok(loaded) => {
                        let ghost prev = self.resources@;
                        self.resources.push((path, loaded));
                        assert(self.resources@.drop_last() =~= prev);
                        let last = self.resources.len() - 1;
                        Ok(&self.resources[last].1)
                    },
                    Err(_) => Err(ResourceLoadError::AcquisitionError { path }),
                }
            },
        }
    }
}

} // verus!
