//! The book of loaded textures: which sprite files are loaded, and under
//! which handle. Loading itself is the caller's part.

use vstd::prelude::*;
use vstd::string::StringExecFns;

verus! {

/// The path of a sprite file: the directory of the sprites, a slash, and the
/// file's name.
pub open spec fn sprite_path_of(filename: Seq<char>) -> Seq<char> {
    "assets/images/"@ + filename
}

pub fn sprite_path(filename: &str) -> (path: String)
    ensures
        path@ == sprite_path_of(filename@),
{
    String::from_str("assets/images/").concat(filename)
}

/// The names of the sprite files that are loaded, in the order of loading.
/// A texture's handle is the place of its name.
pub struct TextureCache {
    names: Vec<String>,
}

pub open spec fn name_views(names: Seq<String>) -> Seq<Seq<char>> {
    Seq::new(names.len(), |k: int| names[k]@)
}

impl View for TextureCache {
    type V = Seq<Seq<char>>;

    closed spec fn view(&self) -> Seq<Seq<char>> {
        name_views(self.names@)
    }
}

/// Whether no name stands twice.
pub open spec fn distinct(names: Seq<Seq<char>>) -> bool {
    forall|i: int, j: int| 0 <= i < j < names.len() ==> names[i] != names[j]
}

impl TextureCache {
    #[verifier::type_invariant]
    spec fn no_name_twice(self) -> bool {
        distinct(name_views(self.names@))
    }

    pub fn new() -> (cache: TextureCache)
        ensures
            cache@ == Seq::<Seq<char>>::empty(),
    {
        let cache = TextureCache { names: Vec::new() };
        assert(cache@ =~= Seq::<Seq<char>>::empty());
        cache
    }

    /// The handle of a file's texture, where it is loaded. No name stands
    /// twice in a cache, so a file has one handle.
    pub fn get(&self, filename: &str) -> (r: Option<usize>)
        ensures
            distinct(self@),
            match r {
                Some(h) => h < self@.len() && self@[h as int] == filename@,
                None => !self@.contains(filename@),
            },
    {
        proof {
            use_type_invariant(self);
        }
        let want = String::from_str(filename);
        let mut i: usize = 0;
        while i < self.names.len()
            invariant
                i <= self.names@.len(),
                want@ == filename@,
                self@ == name_views(self.names@),
                distinct(self@),
                forall|k: int| 0 <= k < i ==> self@[k] != filename@,
            decreases self.names@.len() - i,
        {
            if self.names[i] == want {
                return Some(i);
            }
            i += 1;
        }
        None
    }

    /// Records that a file's texture is loaded, and gives its handle. A file
    /// that is loaded already keeps its handle.
    pub fn insert(&mut self, filename: &str) -> (h: usize)
        ensures
            distinct(final(self)@),
            h < final(self)@.len(),
            final(self)@[h as int] == filename@,
            old(self)@.contains(filename@) ==> final(self)@ == old(self)@,
            !old(self)@.contains(filename@) ==> final(self)@ == old(self)@.push(filename@),
    {
        match self.get(filename) {
            Some(h) => h,
            None => {
                proof {
                    use_type_invariant(&*self);
                }
                let h = self.names.len();
                let mut names: Vec<String> = Vec::new();
                let mut k: usize = 0;
                while k < h
                    invariant
                        k <= h == self.names@.len(),
                        names@ == self.names@.subrange(0, k as int),
                    decreases h - k,
                {
                    names.push(self.names[k].clone());
                    assert(names@ =~= self.names@.subrange(0, k + 1));
                    k += 1;
                }
                assert(names@ =~= self.names@);
                names.push(String::from_str(filename));
                assert(name_views(names@) =~= name_views(self.names@).push(filename@));
                *self = TextureCache { names };
                h
            },
        }
    }
}

impl Default for TextureCache {
    fn default() -> (cache: TextureCache)
        ensures
            cache@ == Seq::<Seq<char>>::empty(),
    {
        TextureCache::new()
    }
}

} // verus!
