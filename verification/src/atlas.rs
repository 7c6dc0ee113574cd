//! Texture atlases: a loaded atlas owns one store resource and a list of
//! pages. Loading mediates a caller-supplied texture-creation strategy,
//! invoked once per page, in file order; the identifier it returns is
//! stashed on the page's renderer slot for later retrieval.

use vstd::prelude::*;
use crate::enums::{AtlasFilter, AtlasFormat, AtlasWrap};
use crate::handles::{HandleStore, ResourceKind, SharedHandle};

verus! {

/// One page of a texture atlas: its declared pixel format, sampling
/// filters, wrap modes and dimensions, plus the renderer slot where the
/// host's texture identifier is stashed.
pub struct AtlasPage {
    /// The image file name the page refers to.
    pub name: String,
    /// Declared pixel format of the page's image.
    pub format: AtlasFormat,
    /// Minification filter.
    pub min_filter: AtlasFilter,
    /// Magnification filter.
    pub mag_filter: AtlasFilter,
    /// Wrap mode along U.
    pub u_wrap: AtlasWrap,
    /// Wrap mode along V.
    pub v_wrap: AtlasWrap,
    /// Page width in pixels.
    pub width: i32,
    /// Page height in pixels.
    pub height: i32,
    /// The host's opaque texture identifier, stored verbatim.
    pub texture_id: u32,
}

/// The two pages agree on everything an atlas descriptor declares; only
/// the renderer slot may differ.
pub open spec fn same_page_desc(a: AtlasPage, b: AtlasPage) -> bool {
    &&& a.name@ == b.name@
    &&& a.format == b.format
    &&& a.min_filter == b.min_filter
    &&& a.mag_filter == b.mag_filter
    &&& a.u_wrap == b.u_wrap
    &&& a.v_wrap == b.v_wrap
    &&& a.width == b.width
    &&& a.height == b.height
}

impl AtlasPage {
    /// A page as decoded from an atlas descriptor, before any texture has
    /// been created for it.
    pub fn new(
        name: String,
        format: AtlasFormat,
        min_filter: AtlasFilter,
        mag_filter: AtlasFilter,
        u_wrap: AtlasWrap,
        v_wrap: AtlasWrap,
        width: i32,
        height: i32,
    ) -> (r: AtlasPage)
        ensures
            r.name@ == name@,
            r.format == format,
            r.min_filter == min_filter,
            r.mag_filter == mag_filter,
            r.u_wrap == u_wrap,
            r.v_wrap == v_wrap,
            r.width == width,
            r.height == height,
            r.texture_id == 0,
    {
        AtlasPage { name, format, min_filter, mag_filter, u_wrap, v_wrap, width, height, texture_id: 0 }
    }

    /// The image file name the page refers to.
    pub fn name(&self) -> (r: &String)
        ensures
            r@ == self.name@,
    {
        &self.name
    }

    /// Stashes the host's texture identifier on the renderer slot.
    pub fn set_texture_id(&mut self, id: u32)
        ensures
            final(self).texture_id == id,
            same_page_desc(*final(self), *old(self)),
    {
        self.texture_id = id;
    }

    /// The host's texture identifier, as stashed at load time.
    pub fn texture_id(&self) -> (r: u32)
        ensures
            r == self.texture_id,
    {
        self.texture_id
    }

    /// Declared pixel format of the page's image.
    pub fn format(&self) -> (r: AtlasFormat)
        ensures
            r == self.format,
    {
        self.format
    }

    /// Minification filter.
    pub fn min_filter(&self) -> (r: AtlasFilter)
        ensures
            r == self.min_filter,
    {
        self.min_filter
    }

    /// Magnification filter.
    pub fn mag_filter(&self) -> (r: AtlasFilter)
        ensures
            r == self.mag_filter,
    {
        self.mag_filter
    }

    /// Wrap modes, as the pair (U, V).
    pub fn wrap(&self) -> (r: (AtlasWrap, AtlasWrap))
        ensures
            r.0 == self.u_wrap,
            r.1 == self.v_wrap,
    {
        (self.u_wrap, self.v_wrap)
    }

    /// Page dimensions in pixels, as (width, height).
    pub fn dimensions(&self) -> (r: (i32, i32))
        ensures
            r.0 == self.width,
            r.1 == self.height,
    {
        (self.width, self.height)
    }

    /// A copy of this page, field for field.
    fn duplicate(&self) -> (r: AtlasPage)
        ensures
            same_page_desc(r, *self),
            r.texture_id == self.texture_id,
    {
        AtlasPage {
            name: self.name.clone(),
            format: self.format,
            min_filter: self.min_filter,
            mag_filter: self.mag_filter,
            u_wrap: self.u_wrap,
            v_wrap: self.v_wrap,
            width: self.width,
            height: self.height,
            texture_id: self.texture_id,
        }
    }
}

/// A loaded texture atlas: one store resource plus its pages, each
/// carrying the texture identifier the host created for it.
pub struct Atlas {
    handle: SharedHandle,
    pages: Vec<AtlasPage>,
}

impl Atlas {
    /// The store resource this atlas owns.
    pub closed spec fn id(self) -> int {
        self.handle.id_spec()
    }

    /// The atlas's pages, in file order.
    pub closed spec fn pages_view(self) -> Seq<AtlasPage> {
        self.pages@
    }

    /// The atlas holds a counted reference to a live atlas resource.
    pub open spec fn valid(self, store: HandleStore) -> bool {
        &&& 0 <= self.id() < store.n()
        &&& store.live(self.id())
        &&& store.externals_view()[self.id()] >= 1
        &&& store.kinds_view()[self.id()] == ResourceKind::Atlas
    }

    /// Builds an atlas from the pages of a decoded descriptor. For each
    /// page, in file order, `create_texture` is invoked exactly once with
    /// that page and its image name, and the identifier it returns is
    /// stashed on the page's renderer slot. (Decoding the descriptor text,
    /// and any failure to do so, is the host's concern; a decoded
    /// descriptor always loads.)
    pub fn from_file<F: Fn(&AtlasPage, &String) -> u32>(
        pages: Vec<AtlasPage>,
        create_texture: F,
        store: &mut HandleStore,
    ) -> (r: Atlas)
        requires
            old(store).wf(),
            forall|i: int|
                0 <= i < pages@.len() ==> call_requires(
                    create_texture,
                    (&pages@[i], &pages@[i].name),
                ),
        ensures
            final(store).wf(),
            final(store).n() == old(store).n() + 1,
            final(store).counts_view() == old(store).counts_view().push(1u32),
            final(store).externals_view() == old(store).externals_view().push(1u32),
            final(store).kinds_view() == old(store).kinds_view().push(ResourceKind::Atlas),
            final(store).log_view() == old(store).log_view(),
            r.id() == old(store).n(),
            r.valid(*final(store)),
            r.pages_view().len() == pages@.len(),
            forall|i: int|
                0 <= i < pages@.len() ==> same_page_desc(#[trigger] r.pages_view()[i], pages@[i]),
            forall|i: int|
                0 <= i < pages@.len() ==> call_ensures(
                    create_texture,
                    (&pages@[i], &pages@[i].name),
                    #[trigger] r.pages_view()[i].texture_id,
                ),
    {
        let mut loaded: Vec<AtlasPage> = Vec::new();
        let mut i: usize = 0;
        while i < pages.len()
            invariant
                forall|k: int|
                    0 <= k < pages@.len() ==> call_requires(
                        create_texture,
                        (&pages@[k], &pages@[k].name),
                    ),
                i <= pages@.len(),
                loaded@.len() == i,
                forall|k: int|
                    0 <= k < i ==> same_page_desc(#[trigger] loaded@[k], pages@[k]),
                forall|k: int|
                    0 <= k < i ==> call_ensures(
                        create_texture,
                        (&pages@[k], &pages@[k].name),
                        #[trigger] loaded@[k].texture_id,
                    ),
            decreases pages@.len() - i,
        {
            let page = &pages[i];
            let tid = create_texture(page, &page.name);
            let mut stored = page.duplicate();
            stored.set_texture_id(tid);
            loaded.push(stored);
            i += 1;
        }
        let handle = store.allocate(ResourceKind::Atlas);
        Atlas { handle, pages: loaded }
    }

    /// The atlas's pages, in file order.
    pub fn pages(&self) -> (r: &Vec<AtlasPage>)
        ensures
            r@ == self.pages_view(),
    {
        &self.pages
    }

    /// How many pages the atlas has.
    pub fn page_count(&self) -> (r: usize)
        ensures
            r == self.pages_view().len(),
    {
        self.pages.len()
    }

    /// The page at `i`, in file order.
    pub fn page(&self, i: usize) -> (r: &AtlasPage)
        requires
            i < self.pages_view().len(),
        ensures
            *r == self.pages_view()[i as int],
    {
        &self.pages[i]
    }

    /// The store resource this atlas owns.
    pub fn handle_id(&self) -> (r: usize)
        ensures
            r == self.id(),
    {
        self.handle.id()
    }

    /// Consumes the atlas, releasing its reference. If it was the last
    /// reference, the atlas resource is disposed and logged.
    pub fn release(self, store: &mut HandleStore)
        requires
            old(store).wf(),
            self.valid(*old(store)),
        ensures
            final(store).wf(),
            final(store).n() == old(store).n(),
            final(store).kinds_view() == old(store).kinds_view(),
            final(store).counts_view()[self.id()] as int == old(store).counts_view()[self.id()]
                - 1,
            forall|q: int|
                self.id() < q < old(store).n() ==> final(store).counts_view()[q] == old(
                    store,
                ).counts_view()[q],
            final(store).externals_view() == old(store).externals_view().update(
                self.id(),
                (old(store).externals_view()[self.id()] - 1) as u32,
            ),
            old(store).log_view().is_prefix_of(final(store).log_view()),
            old(store).counts_view()[self.id()] == 1 ==> final(store).disposed(self.id())
                && final(store).log_view()[old(store).log_view().len() as int] == self.id(),
            old(store).counts_view()[self.id()] > 1 ==> final(store).counts_view() == old(
                store,
            ).counts_view().update(self.id(), (old(store).counts_view()[self.id()] - 1) as u32)
                && final(store).log_view() == old(store).log_view(),
    {
        store.release(self.handle);
    }
}

} // verus!
