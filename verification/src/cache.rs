//! A cache that keeps one generated image together with the size it was
//! generated for.

use vstd::prelude::*;

use crate::geometry::Size;

verus! {

/// A slot for one image of type `T`, tagged with the size it was generated
/// for. It is empty until `draw` fills it and after `clear`.
pub struct RasterCache<T> {
    entry: Option<(Size, T)>,
}

impl<T> RasterCache<T> {
    /// What the cache holds: nothing, or a size and the image generated
    /// for it.
    pub closed spec fn view(self) -> Option<(Size, T)> {
        self.entry
    }

    /// Whether the cache holds an image that was generated for `size`.
    pub open spec fn holds(self, size: Size) -> bool {
        self@ matches Some(entry) && entry.0 == size
    }

    /// An empty cache.
    pub fn new() -> (out: Self)
        ensures
            out@ is None,
    {
        RasterCache { entry: None }
    }

    /// Empties the cache, so that the next `draw` generates anew.
    pub fn clear(&mut self)
        ensures
            final(self)@ is None,
    {
        self.entry = None;
    }

    /// Whether `draw` would return a kept image for `size`.
    pub fn is_valid(&self, size: Size) -> (out: bool)
        ensures
            out == self.holds(size),
    {
        match &self.entry {
            Some(entry) => entry.0 == size,
            None => false,
        }
    }

    /// The image for `size`. Where the cache holds an image that was
    /// generated for this size, that image is returned and the cache stays
    /// as it is. Otherwise `generate` is called, and its result is stored
    /// with the size and returned.
    pub fn draw<F: FnOnce(Size) -> T>(&mut self, size: Size, generate: F) -> (image: &T)
        requires
            !old(self).holds(size) ==> call_requires(generate, (size,)),
        ensures
            final(self)@ == Some((size, *image)),
            old(self).holds(size) ==> final(self)@ == old(self)@,
            !old(self).holds(size) ==> call_ensures(generate, (size,), *image),
    {
        if !self.is_valid(size) {
            let fresh = generate(size);
            self.entry = Some((size, fresh));
        }
        &self.entry.as_ref().unwrap().1
    }
}

} // verus!
