//! The pointer's picture.

use std::collections::HashMap;

use vstd::prelude::*;
use xcursor::parser::parse_xcursor;

verus! {

broadcast use vstd::std_specs::hash::group_hash_axioms;

/// One picture of a cursor file.
#[derive(Debug)]
pub struct Image {
    /// The nominal size of the picture.
    pub size: u32,
    pub width: u32,
    pub height: u32,
    /// The pixel of the picture that points.
    pub xhot: u32,
    pub yhot: u32,
    /// How long the picture is shown, in milliseconds.
    pub delay: u32,
    pub pixels_rgba: Vec<u8>,
    pub pixels_argb: Vec<u8>,
}

/// The contents of a picture.
pub struct ImageView {
    pub size: u32,
    pub width: u32,
    pub height: u32,
    pub xhot: u32,
    pub yhot: u32,
    pub delay: u32,
    pub pixels_rgba: Seq<u8>,
    pub pixels_argb: Seq<u8>,
}

impl View for Image {
    type V = ImageView;

    open spec fn view(&self) -> ImageView {
        ImageView {
            size: self.size,
            width: self.width,
            height: self.height,
            xhot: self.xhot,
            yhot: self.yhot,
            delay: self.delay,
            pixels_rgba: self.pixels_rgba@,
            pixels_argb: self.pixels_argb@,
        }
    }
}

impl ImageView {
    /// The picture has an extent, its hotspot is no further out than its far
    /// corner, and there are four bytes for each pixel.
    pub open spec fn well_formed(self) -> bool {
        &&& 1 <= self.width <= 0x7fff
        &&& 1 <= self.height <= 0x7fff
        &&& self.xhot <= self.width
        &&& self.yhot <= self.height
        &&& self.pixels_rgba.len() == 4 * self.width * self.height
    }
}

/// The contents of a list of pictures.
pub open spec fn image_views(images: Seq<Image>) -> Seq<ImageView> {
    images.map_values(|image: Image| image@)
}

/// The pictures that `xcursor::parser::parse_xcursor` finds in a cursor file.
pub uninterp spec fn xcursor_images(file: Seq<u8>) -> Option<Seq<ImageView>>;

/// `xcursor::parser::parse_xcursor`: the pictures of a cursor file, `None` where
/// the bytes are no such file. Every picture that comes out is well-formed.
#[verifier::external_body]
fn parse_images(file: &Vec<u8>) -> (images: Option<Vec<Image>>)
    ensures
        match images {
            Some(images) => xcursor_images(file@) == Some(image_views(images@)),
            None => xcursor_images(file@) is None,
        },
        images matches Some(images) ==> forall|i: int|
            0 <= i < images@.len() ==> (#[trigger] images@[i])@.well_formed(),
{
    let images = parse_xcursor(file)?;
    Some(images.into_iter().map(|image| Image {
        size: image.size,
        width: image.width,
        height: image.height,
        xhot: image.xhot,
        yhot: image.yhot,
        delay: image.delay,
        pixels_rgba: image.pixels_rgba,
        pixels_argb: image.pixels_argb,
    }).collect())
}

/// The pictures of a named cursor.
#[derive(Debug)]
pub struct XCursor {
    pub inner: Vec<Image>,
}

/// What the pointer is to look like.
#[derive(Clone, Copy, PartialEq, Eq, Structural, Debug)]
pub enum CursorImageStatus {
    Hidden,
    /// The contents of a surface.
    Surface(u64),
    /// The icon of the cursor theme with the number.
    Named(u32),
}

/// What is drawn for the pointer.
#[derive(Debug)]
pub enum CursorElement<'a> {
    Nothing,
    /// The tree of the surface.
    Surface(u64),
    /// A picture, with the pixel that goes to the pointer's location.
    Picture { width: i32, height: i32, xhot: i32, yhot: i32, pixels_rgba: &'a Vec<u8> },
}

/// The pointer's picture, with the pictures of the icons that were asked for.
pub struct Cursor {
    pub status: CursorImageStatus,
    pub cache: HashMap<u32, XCursor>,
}

impl Cursor {
    /// The pictures that are kept, by icon.
    pub open spec fn pictures(self) -> Map<u32, Seq<ImageView>> {
        self.cache@.map_values(|cursor: XCursor| image_views(cursor.inner@))
    }

    /// A named cursor has a picture to show.
    pub open spec fn can_render(self) -> bool {
        self.status matches CursorImageStatus::Named(icon) ==> self.cache@.contains_key(icon)
            && self.cache@[icon].inner@.len() > 0
    }

    /// A named cursor has its pictures at hand, and all that are kept are
    /// well-formed.
    pub open spec fn wf(self) -> bool {
        &&& self.status matches CursorImageStatus::Named(icon) ==> self.cache@.contains_key(icon)
        &&& forall|icon: u32, i: int|
            self.cache@.contains_key(icon) && 0 <= i < self.cache@[icon].inner@.len() ==> (
            #[trigger] self.cache@[icon].inner@[i])@.well_formed()
    }

    /// Shows the icon with the number, whose pictures are `images`.
    pub fn show_icon(&mut self, icon: u32, images: Vec<Image>)
        ensures
            final(self).status == CursorImageStatus::Named(icon),
            final(self).pictures() == old(self).pictures().insert(icon, image_views(images@)),
            final(self).cache@ == old(self).cache@.insert(icon, final(self).cache@[icon]),
            final(self).cache@[icon].inner == images,
    {
        self.status = CursorImageStatus::Named(icon);
        self.cache.insert(icon, XCursor { inner: images });
        assert(self.pictures() =~= old(self).pictures().insert(icon, image_views(images@)));
    }

    /// Changes what the pointer looks like. For a named icon, `file` is the
    /// theme's cursor file of that icon; its pictures replace those that are
    /// kept for the icon. Where the file cannot be read as a cursor file,
    /// nothing changes and the answer is `false`. For any other status `file`
    /// is not looked at.
    pub fn set_icon(&mut self, status: CursorImageStatus, file: &Vec<u8>) -> (done: bool)
        ensures
            old(self).wf() ==> final(self).wf(),
            match status {
                CursorImageStatus::Named(icon) => match xcursor_images(file@) {
                    Some(images) => {
                        &&& done
                        &&& final(self).status == status
                        &&& final(self).pictures() == old(self).pictures().insert(icon, images)
                    },
                    None => !done && *final(self) == *old(self),
                },
                _ => {
                    &&& done
                    &&& final(self).status == status
                    &&& final(self).cache == old(self).cache
                },
            },
    {
        match status {
            CursorImageStatus::Named(icon) => {
                let images = match parse_images(file) {
                    Some(images) => images,
                    None => return false,
                };
                self.show_icon(icon, images);
                true
            },
            _ => {
                self.status = status;
                true
            },
        }
    }

    /// Whether there is something to draw for the pointer, which every call of
    /// `render_cursor` relies on.
    pub fn has_picture(&self) -> (has: bool)
        ensures
            has == self.can_render(),
    {
        match self.status {
            CursorImageStatus::Named(icon) => match self.cache.get(&icon) {
                Some(cursor) => cursor.inner.len() > 0,
                None => false,
            },
            _ => true,
        }
    }

    /// What is drawn for the pointer: nothing, a surface, or the first picture
    /// of the named icon.
    pub fn render_cursor(&self) -> (element: CursorElement<'_>)
        requires
            self.can_render(),
        ensures
            match self.status {
                CursorImageStatus::Hidden => element is Nothing,
                CursorImageStatus::Surface(surface) => element == CursorElement::Surface(surface),
                CursorImageStatus::Named(icon) => {
                    let image = self.pictures()[icon][0];
                    &&& element matches CursorElement::Picture {
                        width,
                        height,
                        xhot,
                        yhot,
                        pixels_rgba,
                    }
                    &&& width == image.width as i32
                    &&& height == image.height as i32
                    &&& xhot == image.xhot as i32
                    &&& yhot == image.yhot as i32
                    &&& pixels_rgba@ == image.pixels_rgba
                    &&& self.wf() ==> {
                        &&& width == image.width && height == image.height
                        &&& 0 <= xhot == image.xhot <= width
                        &&& 0 <= yhot == image.yhot <= height
                        &&& pixels_rgba@.len() == 4 * width * height
                    }
                },
            },
    {
        match self.status {
            CursorImageStatus::Hidden => CursorElement::Nothing,
            CursorImageStatus::Surface(surface) => CursorElement::Surface(surface),
            CursorImageStatus::Named(icon) => {
                let cursor = self.cache.get(&icon).unwrap();
                let image = &cursor.inner[0];
                CursorElement::Picture {
                    width: image.width as i32,
                    height: image.height as i32,
                    xhot: image.xhot as i32,
                    yhot: image.yhot as i32,
                    pixels_rgba: &image.pixels_rgba,
                }
            },
        }
    }
}

/// The delay before a held key repeats, in milliseconds.
pub const KEYBOARD_REPEAT_DELAY: i32 = 200;

/// How often a held key repeats, per second.
pub const KEYBOARD_REPEAT_RATE: i32 = 25;

/// The state of the input devices.
pub struct InputState {
    pub cursor: Cursor,
}

impl InputState {
    /// The input devices at start: the pointer shows the icon with the number,
    /// whose cursor file is `file`. `None` where the file cannot be read as a
    /// cursor file.
    pub fn new(icon: u32, file: &Vec<u8>) -> (state: Option<Self>)
        ensures
            state is Some <==> xcursor_images(file@) is Some,
            state matches Some(state) ==> {
                &&& state.cursor.wf()
                &&& state.cursor.status == CursorImageStatus::Named(icon)
                &&& state.cursor.pictures() == Map::<u32, Seq<ImageView>>::empty().insert(
                    icon,
                    xcursor_images(file@)->0,
                )
            },
    {
        let mut cursor = Cursor { status: CursorImageStatus::Hidden, cache: HashMap::new() };
        assert(cursor.pictures() =~= Map::<u32, Seq<ImageView>>::empty());
        if cursor.set_icon(CursorImageStatus::Named(icon), file) {
            Some(InputState { cursor })
        } else {
            None
        }
    }
}

} // verus!
