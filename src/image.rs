use vstd::prelude::*;

use crate::text::{ends_with, has_suffix};

verus! {

/// A file name is taken as an image when it ends in `.png`, `.jpg` or `.jpeg`
/// (case-sensitive).
pub open spec fn is_image_name(name: Seq<char>) -> bool {
    has_suffix(name, ".png"@) || has_suffix(name, ".jpg"@) || has_suffix(name, ".jpeg"@)
}

/// Whether a file name has one of the recognised image extensions.
pub fn is_img(s: &str) -> (r: bool)
    ensures
        r == is_image_name(s@),
{
    ends_with(s, ".png") || ends_with(s, ".jpg") || ends_with(s, ".jpeg")
}

/// The image names among `names`, in their order.
pub open spec fn image_names(names: Seq<Seq<char>>) -> Seq<Seq<char>>
    decreases names.len(),
{
    if names.len() == 0 {
        Seq::empty()
    } else {
        let rest = image_names(names.drop_last());
        if is_image_name(names.last()) {
            rest.push(names.last())
        } else {
            rest
        }
    }
}

/// The views of a list of strings.
pub open spec fn views(v: Seq<String>) -> Seq<Seq<char>> {
    v.map_values(|s: String| s@)
}

/// The file names among `names` that denote images, in their order.
pub fn filter_images(names: &Vec<String>) -> (r: Vec<String>)
    ensures
        views(r@) == image_names(views(names@)),
{
    let mut r: Vec<String> = Vec::new();
    let mut i: usize = 0;
    while i < names.len()
        invariant
            i <= names@.len(),
            views(r@) == image_names(views(names@.subrange(0, i as int))),
        decreases names@.len() - i,
    {
        let name = &names[i];
        assert(views(names@.subrange(0, i + 1)).drop_last() =~= views(names@.subrange(0, i as int)));
        if is_img(name.as_str()) {
            r.push(name.clone());
            assert(views(r@) =~= image_names(views(names@.subrange(0, i as int))).push(name@));
        }
        i = i + 1;
    }
    assert(names@.subrange(0, i as int) =~= names@);
    r
}

/// One image of the pool: its display name and its bytes.
pub struct ImageEntry {
    pub name: String,
    pub bytes: Vec<u8>,
}

impl View for ImageEntry {
    type V = (Seq<char>, Seq<u8>);

    open spec fn view(&self) -> (Seq<char>, Seq<u8>) {
        (self.name@, self.bytes@)
    }
}

impl ImageEntry {
    /// An entry from its name and bytes.
    pub fn new(name: String, bytes: Vec<u8>) -> (r: ImageEntry)
        ensures
            r.name@ == name@,
            r.bytes@ == bytes@,
    {
        ImageEntry { name, bytes }
    }

    /// A copy of this entry.
    pub fn duplicate(&self) -> (r: ImageEntry)
        ensures
            r@ == self@,
    {
        let bytes = self.bytes.clone();
        assert(bytes@ =~= self.bytes@);
        ImageEntry { name: self.name.clone(), bytes }
    }
}

/// Relies on `fastrand::usize(..n)`: a number drawn from the process-wide
/// generator, below `n`; it panics on an empty range, hence `n > 0`.
#[verifier::external_body]
fn random_below(n: usize) -> (r: usize)
    requires
        n > 0,
    ensures
        r < n,
{
    fastrand::usize(..n)
}

/// The entries among `entries` whose names denote images, in their order.
pub open spec fn image_entries(entries: Seq<(Seq<char>, Seq<u8>)>) -> Seq<(Seq<char>, Seq<u8>)>
    decreases entries.len(),
{
    if entries.len() == 0 {
        Seq::empty()
    } else {
        let rest = image_entries(entries.drop_last());
        if is_image_name(entries.last().0) {
            rest.push(entries.last())
        } else {
            rest
        }
    }
}

/// What `image_entries` keeps has an image name.
pub proof fn lemma_image_entries_are_images(entries: Seq<(Seq<char>, Seq<u8>)>)
    ensures
        forall|i: int|
            0 <= i < image_entries(entries).len() ==> is_image_name(
                #[trigger] image_entries(entries)[i].0,
            ),
    decreases entries.len(),
{
    if entries.len() > 0 {
        let rest = image_entries(entries.drop_last());
        lemma_image_entries_are_images(entries.drop_last());
        assert forall|i: int| 0 <= i < image_entries(entries).len() implies is_image_name(
            #[trigger] image_entries(entries)[i].0,
        ) by {
            if i < rest.len() {
                assert(image_entries(entries)[i] == rest[i]);
            }
        }
    }
}

/// The names of a sequence of entries, in order.
pub open spec fn entry_names(entries: Seq<(Seq<char>, Seq<u8>)>) -> Seq<Seq<char>> {
    entries.map_values(|e: (Seq<char>, Seq<u8>)| e.0)
}

/// The names that `image_names` keeps are exactly the image names among its
/// argument.
pub proof fn lemma_image_names_contains(names: Seq<Seq<char>>)
    ensures
        forall|n: Seq<char>|
            #[trigger] image_names(names).contains(n) <==> (names.contains(n) && is_image_name(n)),
    decreases names.len(),
{
    if names.len() > 0 {
        let init = names.drop_last();
        lemma_image_names_contains(init);
        assert(names =~= init.push(names.last()));
        assert forall|n: Seq<char>|
            #[trigger] image_names(names).contains(n) <==> (names.contains(n)
                && is_image_name(n)) by {
            if names.contains(n) && n != names.last() {
                let k = choose|k: int| 0 <= k < names.len() && names[k] == n;
                assert(init[k] == n);
            }
            if image_names(names).contains(n) && n != names.last() {
                let k = choose|k: int| 0 <= k < image_names(names).len() && image_names(names)[k] == n;
                assert(image_names(init)[k] == n);
            }
            if init.contains(n) {
                let k = choose|k: int| 0 <= k < init.len() && init[k] == n;
                assert(names[k] == n);
            }
            if image_names(init).contains(n) {
                let k = choose|k: int| 0 <= k < image_names(init).len() && image_names(init)[k] == n;
                assert(image_names(names)[k] == n);
            }
            if is_image_name(names.last()) {
                assert(image_names(names)[image_names(names).len() - 1] == names.last());
            }
            assert(names[names.len() - 1] == names.last());
        }
    }
}

/// Keeping the image entries and then taking names gives the image names of
/// all the entries.
pub proof fn lemma_image_entries_names(entries: Seq<(Seq<char>, Seq<u8>)>)
    ensures
        entry_names(image_entries(entries)) == image_names(entry_names(entries)),
    decreases entries.len(),
{
    if entries.len() > 0 {
        lemma_image_entries_names(entries.drop_last());
        assert(entry_names(entries).drop_last() =~= entry_names(entries.drop_last()));
        assert(entry_names(image_entries(entries.drop_last()).push(entries.last())) =~= entry_names(
            image_entries(entries.drop_last()),
        ).push(entries.last().0));
    }
}

/// Loading the same directory twice, whatever order its files are listed in,
/// gives pools with the same set of names.
pub proof fn lemma_load_same_names(first: Seq<(Seq<char>, Seq<u8>)>, second: Seq<(Seq<char>, Seq<u8>)>)
    requires
        entry_names(first).to_set() == entry_names(second).to_set(),
    ensures
        entry_names(image_entries(first)).to_set() == entry_names(image_entries(second)).to_set(),
{
    lemma_image_entries_names(first);
    lemma_image_entries_names(second);
    lemma_image_names_contains(entry_names(first));
    lemma_image_names_contains(entry_names(second));
    assert forall|n: Seq<char>| entry_names(first).contains(n) <==> entry_names(second).contains(n) by {
        let a = entry_names(first).to_set();
        let b = entry_names(second).to_set();
        assert(a.contains(n) == entry_names(first).contains(n));
        assert(b.contains(n) == entry_names(second).contains(n));
        assert(a.contains(n) == b.contains(n));
    }
    assert(entry_names(image_entries(first)).to_set() =~= entry_names(image_entries(second)).to_set());
}

/// An entry that the pool kept when it was loaded from `candidates` was one
/// of the candidates, and has an image name.
pub proof fn lemma_kept_entry_was_loaded(
    candidates: Seq<(Seq<char>, Seq<u8>)>,
    e: (Seq<char>, Seq<u8>),
)
    requires
        image_entries(candidates).contains(e),
    ensures
        candidates.contains(e),
        entry_names(candidates).contains(e.0),
        is_image_name(e.0),
    decreases candidates.len(),
{
    let init = candidates.drop_last();
    let rest = image_entries(init);
    let k = choose|k: int| 0 <= k < image_entries(candidates).len() && image_entries(candidates)[k] == e;
    if k < rest.len() {
        assert(rest[k] == e);
        lemma_kept_entry_was_loaded(init, e);
        let j = choose|j: int| 0 <= j < init.len() && init[j] == e;
        assert(candidates[j] == e);
    } else {
        assert(candidates[candidates.len() - 1] == e);
    }
    let j = choose|j: int| 0 <= j < candidates.len() && candidates[j] == e;
    assert(entry_names(candidates)[j] == e.0);
    lemma_image_entries_are_images(candidates);
}

/// The image pool: filled once, when the bot starts, and only read after.
pub struct ImageStore {
    entries: Vec<ImageEntry>,
}

impl View for ImageStore {
    type V = Seq<(Seq<char>, Seq<u8>)>;

    closed spec fn view(&self) -> Seq<(Seq<char>, Seq<u8>)> {
        self.entries@.map_values(|e: ImageEntry| e@)
    }
}

impl ImageStore {
    /// Every entry of the pool has an image name.
    pub open spec fn wf(&self) -> bool {
        forall|i: int| 0 <= i < self@.len() ==> is_image_name(#[trigger] self@[i].0)
    }

    /// An empty pool.
    pub fn new() -> (r: ImageStore)
        ensures
            r.wf(),
            r@ == Seq::<(Seq<char>, Seq<u8>)>::empty(),
    {
        ImageStore { entries: Vec::new() }
    }

    /// The pool made of the candidates whose names denote images, in their
    /// order; the others are left out.
    pub fn load(candidates: Vec<ImageEntry>) -> (r: ImageStore)
        ensures
            r.wf(),
            r@ == image_entries(candidates@.map_values(|e: ImageEntry| e@)),
    {
        let ghost all = candidates@.map_values(|e: ImageEntry| e@);
        let mut entries: Vec<ImageEntry> = Vec::new();
        let mut i: usize = 0;
        while i < candidates.len()
            invariant
                i <= candidates@.len(),
                all == candidates@.map_values(|e: ImageEntry| e@),
                entries@.map_values(|e: ImageEntry| e@) == image_entries(all.subrange(0, i as int)),
            decreases candidates@.len() - i,
        {
            let e = &candidates[i];
            assert(all.subrange(0, i + 1).drop_last() =~= all.subrange(0, i as int));
            if is_img(e.name.as_str()) {
                let d = e.duplicate();
                entries.push(d);
                assert(entries@.map_values(|e: ImageEntry| e@) =~= image_entries(
                    all.subrange(0, i as int),
                ).push(e@));
            }
            i = i + 1;
        }
        assert(all.subrange(0, i as int) =~= all);
        let r = ImageStore { entries };
        proof {
            lemma_image_entries_are_images(all);
        }
        r
    }

    /// The number of images in the pool.
    pub fn len(&self) -> (r: usize)
        ensures
            r == self@.len(),
    {
        self.entries.len()
    }

    /// Whether the pool holds no image.
    pub fn is_empty(&self) -> (r: bool)
        ensures
            r == (self@.len() == 0),
    {
        self.entries.len() == 0
    }

    /// The entry at position `i`.
    pub fn get(&self, i: usize) -> (r: &ImageEntry)
        requires
            i < self@.len(),
        ensures
            r@ == self@[i as int],
    {
        &self.entries[i]
    }

    /// A copy of one entry of the pool, drawn at random, or `None` when the
    /// pool is empty. It only reads the pool.
    pub fn pick_random(&self) -> (r: Option<ImageEntry>)
        ensures
            r is None <==> self@.len() == 0,
            r matches Some(e) ==> self@.contains(e@),
    {
        let n = self.entries.len();
        if n == 0 {
            return None;
        }
        let i = random_below(n);
        let e = self.entries[i].duplicate();
        assert(self@[i as int] == e@);
        Some(e)
    }
}

} // verus!
