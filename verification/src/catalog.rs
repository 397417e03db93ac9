//! The resource catalog: a bijection between normalized resource names and
//! small positive integer handles.
//!
//! A catalog is built once from the names found by a directory scan and is
//! read-only afterwards.  Handles are assigned in scan order starting at 1;
//! handle 0 is reserved and never used.  Handles are the only form in which
//! a resource crosses into a sandboxed guest.

use vstd::prelude::*;

verus! {

/// No name occurs twice.
pub open spec fn distinct_names(s: Seq<Seq<char>>) -> bool {
    forall|i: int, j: int| 0 <= i < j < s.len() ==> s[i] != s[j]
}

/// The names of `s` with every repeated occurrence dropped, first
/// occurrences kept in order.
pub open spec fn dedup_first(s: Seq<Seq<char>>) -> Seq<Seq<char>>
    decreases s.len(),
{
    if s.len() == 0 {
        Seq::empty()
    } else {
        let rest = dedup_first(s.drop_last());
        if s.drop_last().contains(s.last()) {
            rest
        } else {
            rest.push(s.last())
        }
    }
}

pub proof fn lemma_dedup_first_len(s: Seq<Seq<char>>)
    ensures
        dedup_first(s).len() <= s.len(),
    decreases s.len(),
{
    if s.len() > 0 {
        lemma_dedup_first_len(s.drop_last());
    }
}

pub proof fn lemma_dedup_first_contains(s: Seq<Seq<char>>, x: Seq<char>)
    ensures
        dedup_first(s).contains(x) <==> s.contains(x),
    decreases s.len(),
{
    if s.len() > 0 {
        let d = dedup_first(s.drop_last());
        lemma_dedup_first_contains(s.drop_last(), x);
        // The two sides of "s contains x" split over the last element.
        if s.contains(x) {
            let i = choose|i: int| 0 <= i < s.len() && s[i] == x;
            if i < s.len() - 1 {
                assert(s.drop_last()[i] == x);
                assert(s.drop_last().contains(x));
                assert(d.contains(x));
                if !s.drop_last().contains(s.last()) {
                    let k = choose|k: int| 0 <= k < d.len() && d[k] == x;
                    assert(d.push(s.last())[k] == x);
                    assert(dedup_first(s).contains(x));
                }
            } else {
                // x is the last element.
                if s.drop_last().contains(s.last()) {
                    assert(d.contains(x));
                } else {
                    assert(d.push(s.last())[d.len() as int] == x);
                    assert(dedup_first(s).contains(x));
                }
            }
        }
        if dedup_first(s).contains(x) {
            if s.drop_last().contains(s.last()) {
                assert(d.contains(x));
                let i = choose|i: int| 0 <= i < s.drop_last().len() && s.drop_last()[i] == x;
                assert(s[i] == x);
                assert(s.contains(x));
            } else {
                let k = choose|k: int|
                    0 <= k < d.push(s.last()).len() && d.push(s.last())[k] == x;
                if k < d.len() {
                    assert(d.contains(x));
                    let i = choose|i: int| 0 <= i < s.drop_last().len() && s.drop_last()[i] == x;
                    assert(s[i] == x);
                    assert(s.contains(x));
                } else {
                    assert(s[s.len() - 1] == x);
                    assert(s.contains(x));
                }
            }
        }
    }
}

pub proof fn lemma_dedup_first_distinct(s: Seq<Seq<char>>)
    ensures
        distinct_names(dedup_first(s)),
    decreases s.len(),
{
    if s.len() > 0 {
        lemma_dedup_first_distinct(s.drop_last());
        if !s.drop_last().contains(s.last()) {
            let d = dedup_first(s.drop_last());
            lemma_dedup_first_contains(s.drop_last(), s.last());
            assert forall|i: int, j: int|
                0 <= i < j < d.push(s.last()).len() implies d.push(s.last())[i] != d.push(
                s.last(),
            )[j] by {
                if j == d.len() {
                    assert(d.push(s.last())[j] == s.last());
                    assert(d.contains(d[i]));
                }
            }
        }
    }
}

/// Maps resource names to 1-based handles and back; the mapping is a
/// bijection for the lifetime of the catalog.
pub struct ResourceCatalog {
    names: Vec<String>,
}

impl View for ResourceCatalog {
    type V = Seq<Seq<char>>;

    /// The catalogued names in handle order: handle `h` names `self@[h - 1]`.
    closed spec fn view(&self) -> Seq<Seq<char>> {
        self.names.deep_view()
    }
}

impl ResourceCatalog {
    /// Well-formed: no duplicate names, and every handle fits an `i32`.
    pub open spec fn wf(&self) -> bool {
        &&& distinct_names(self@)
        &&& self@.len() <= i32::MAX as int
    }

    /// An empty catalog: a scan that found nothing is not an error.
    pub fn new() -> (c: Self)
        ensures
            c.wf(),
            c@ == Seq::<Seq<char>>::empty(),
    {
        ResourceCatalog { names: Vec::new() }
    }

    /// Builds the catalog from the names a directory scan discovered, in
    /// scan order; a repeated name keeps its first handle.
    pub fn from_names(names: Vec<String>) -> (c: Self)
        requires
            names@.len() <= i32::MAX as int,
        ensures
            c.wf(),
            c@ == dedup_first(names.deep_view()),
    {
        let mut catalog = ResourceCatalog { names: Vec::new() };
        let n = names.len();
        let mut i: usize = 0;
        while i < n
            invariant
                i <= n,
                n == names@.len(),
                n <= i32::MAX as int,
                catalog@ == dedup_first(names.deep_view().take(i as int)),
                catalog.wf(),
            decreases n - i,
        {
            proof {
                assert(names.deep_view().take(i as int + 1).drop_last() =~= names.deep_view()
                    .take(i as int));
                assert(names.deep_view().take(i as int + 1).last() == names[i as int]@);
                lemma_dedup_first_contains(names.deep_view().take(i as int), names[i as int]@);
                lemma_dedup_first_distinct(names.deep_view().take(i as int + 1));
                lemma_dedup_first_len(names.deep_view().take(i as int + 1));
            }
            if !catalog.contains_name(&names[i]) {
                let ghost before = catalog@;
                catalog.names.push(names[i].clone());
                proof {
                    assert(catalog@ =~= before.push(names[i as int]@));
                }
            }
            i = i + 1;
        }
        proof {
            assert(names.deep_view().take(n as int) =~= names.deep_view());
        }
        catalog
    }

    /// Whether the catalog already holds `name`.
    pub fn contains_name(&self, name: &String) -> (r: bool)
        ensures
            r == self@.contains(name@),
    {
        let n = self.names.len();
        let mut i: usize = 0;
        while i < n
            invariant
                i <= n,
                n == self@.len(),
                forall|j: int| 0 <= j < i ==> self@[j] != name@,
            decreases n - i,
        {
            if self.names[i] == *name {
                assert(self@.contains(name@)) by {
                    assert(self@[i as int] == name@);
                }
                return true;
            }
            i = i + 1;
        }
        false
    }

    /// How many names the catalog holds; valid handles are `1 ..= len`.
    pub fn len(&self) -> (n: usize)
        ensures
            n == self@.len(),
    {
        self.names.len()
    }

    /// Resolves a resource name to its handle.
    ///
    /// Returns the 1-based handle of the first catalogued occurrence of
    /// `name`, and `None` exactly when `name` was never catalogued; a miss
    /// is an answer, never a crash.
    pub fn resolve(&self, name: &str) -> (r: Option<i32>)
        requires
            self.wf(),
        ensures
            r is Some <==> self@.contains(name@),
            match r {
                Option::Some(h) => {
                    &&& 1 <= h <= self@.len()
                    &&& self@[h - 1] == name@
                    &&& forall|j: int| 0 <= j < h - 1 ==> self@[j] != name@
                },
                Option::None => forall|j: int| 0 <= j < self@.len() ==> self@[j] != name@,
            },
    {
        let owned: String = name.to_owned();
        let n = self.names.len();
        let mut i: usize = 0;
        while i < n
            invariant
                i <= n,
                n == self@.len(),
                n <= i32::MAX as int,
                owned@ == name@,
                forall|j: int| 0 <= j < i ==> self@[j] != name@,
            decreases n - i,
        {
            if self.names[i] == owned {
                assert(self@.contains(name@)) by {
                    assert(self@[i as int] == name@);
                }
                return Some((i as i32) + 1);
            }
            i = i + 1;
        }
        None
    }

    /// Maps a handle back to the name it stands for.
    ///
    /// Returns the catalogued name exactly when `1 <= handle <= len`;
    /// handle 0 is reserved and out-of-range handles miss.
    pub fn reverse(&self, handle: i32) -> (r: Option<String>)
        ensures
            r is Some <==> 1 <= handle <= self@.len(),
            match r {
                Option::Some(name) => name@ == self@[handle - 1],
                Option::None => true,
            },
    {
        if handle >= 1 && (handle as usize) <= self.names.len() {
            Some(self.names[(handle as usize) - 1].clone())
        } else {
            None
        }
    }
}

/// The two catalogs every backend works against: one for model files and
/// one for image files, each built from its own root's scan.  Both sides
/// of a sandbox boundary must build them from the same directory contents
/// for the handles to agree.
pub struct Catalogs {
    pub models: ResourceCatalog,
    pub images: ResourceCatalog,
}

impl Catalogs {
    pub open spec fn wf(&self) -> bool {
        &&& self.models.wf()
        &&& self.images.wf()
    }

    /// Pairs the catalogs of the two scanned roots.
    pub fn new(models: ResourceCatalog, images: ResourceCatalog) -> (c: Self)
        ensures
            c.models == models,
            c.images == images,
    {
        Catalogs { models, images }
    }

    /// The handle of a model name, if the scan found it.
    pub fn get_model_index(&self, name: &str) -> (r: Option<i32>)
        requires
            self.wf(),
        ensures
            r is Some <==> self.models@.contains(name@),
            match r {
                Option::Some(h) => {
                    &&& 1 <= h <= self.models@.len()
                    &&& self.models@[h - 1] == name@
                    &&& forall|j: int| 0 <= j < h - 1 ==> self.models@[j] != name@
                },
                Option::None => true,
            },
    {
        self.models.resolve(name)
    }

    /// The model name a handle stands for, if the handle is in range.
    pub fn get_model_name(&self, index: i32) -> (r: Option<String>)
        ensures
            r is Some <==> 1 <= index <= self.models@.len(),
            match r {
                Option::Some(name) => name@ == self.models@[index - 1],
                Option::None => true,
            },
    {
        self.models.reverse(index)
    }

    /// The handle of an image name, if the scan found it.
    pub fn get_image_index(&self, name: &str) -> (r: Option<i32>)
        requires
            self.wf(),
        ensures
            r is Some <==> self.images@.contains(name@),
            match r {
                Option::Some(h) => {
                    &&& 1 <= h <= self.images@.len()
                    &&& self.images@[h - 1] == name@
                    &&& forall|j: int| 0 <= j < h - 1 ==> self.images@[j] != name@
                },
                Option::None => true,
            },
    {
        self.images.resolve(name)
    }

    /// The image name a handle stands for, if the handle is in range.
    pub fn get_image_name(&self, index: i32) -> (r: Option<String>)
        ensures
            r is Some <==> 1 <= index <= self.images@.len(),
            match r {
                Option::Some(name) => name@ == self.images@[index - 1],
                Option::None => true,
            },
    {
        self.images.reverse(index)
    }

    /// The first decision of a guest entry point: turn the two handles it
    /// received back into file names.  A model handle that misses is a
    /// model-load failure, an image handle that misses an image-load
    /// failure, each reported by its documented exit code.
    pub fn lookup_run_targets(&self, model_index: i32, image_index: i32) -> (r: Result<
        (String, String),
        i32,
    >)
        ensures
            match r {
                Result::Ok((model_name, image_name)) => {
                    &&& 1 <= model_index <= self.models@.len()
                    &&& 1 <= image_index <= self.images@.len()
                    &&& model_name@ == self.models@[model_index - 1]
                    &&& image_name@ == self.images@[image_index - 1]
                },
                Result::Err(code) => {
                    &&& !(1 <= model_index <= self.models@.len() && 1 <= image_index
                        <= self.images@.len())
                    &&& if !(1 <= model_index <= self.models@.len()) {
                        code == crate::errors::error_code(crate::errors::ErrorType::ModelLoad)
                    } else {
                        code == crate::errors::error_code(crate::errors::ErrorType::ImageLoad)
                    }
                },
            },
    {
        let model_name = match self.models.reverse(model_index) {
            Option::Some(name) => name,
            Option::None => {
                return Err(crate::errors::get_error_code(crate::errors::ErrorType::ModelLoad));
            },
        };
        let image_name = match self.images.reverse(image_index) {
            Option::Some(name) => name,
            Option::None => {
                return Err(crate::errors::get_error_code(crate::errors::ErrorType::ImageLoad));
            },
        };
        Ok((model_name, image_name))
    }
}

/// Law: the catalog is a bijection.  Any handle that satisfies the
/// contract of `resolve` for the `i`-th catalogued name is exactly
/// `i + 1`, so `reverse(resolve(name)) == name` and distinct names get
/// distinct handles.
pub proof fn lemma_catalog_bijection(s: Seq<Seq<char>>, i: int, h: int)
    requires
        distinct_names(s),
        0 <= i < s.len(),
        1 <= h <= s.len(),
        s[h - 1] == s[i],
        forall|j: int| 0 <= j < h - 1 ==> s[j] != s[i],
    ensures
        h == i + 1,
        s[h - 1] == s[i],
{
    if h - 1 < i {
        assert(s[h - 1] != s[i]);
    }
    if i < h - 1 {
        assert(s[i] != s[i]);
    }
}

} // verus!
