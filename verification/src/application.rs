//! Window state and the back buffer.
//!
//! The window system delivers events between two frames; `AppBuilder` keeps
//! what they decide: the size of the window and whether the main loop goes
//! on. `RenderTexture` is the pixel buffer that a frame is rendered into.

use vstd::prelude::*;

verus! {

/// What the window system reported, as far as the application reacts to it.
#[derive(Clone, Copy, Debug, PartialEq, Eq, Structural)]
pub enum Event {
    /// The window was closed.
    Quit,
    /// The escape key went down.
    EscapePressed,
    /// The window was resized to the given width and height.
    Resized(i32, i32),
    /// Anything else.
    Other,
}

impl Event {
    /// The event ends the main loop.
    pub open spec fn stops(&self) -> bool {
        *self == Event::Quit || *self == Event::EscapePressed
    }

    /// The event gives the window a new size: a resize to positive extents.
    pub open spec fn resizes(&self) -> bool {
        *self matches Event::Resized(width, height) && width > 0 && height > 0
    }

    /// The size that a resizing event gives the window.
    pub open spec fn size(&self) -> (u32, u32) {
        match *self {
            Event::Resized(width, height) => (width as u32, height as u32),
            _ => (0, 0),
        }
    }
}

/// State of the application window between two frames.
pub struct AppBuilder {
    title: String,
    width: u32,
    height: u32,
    running: bool,
}

impl AppBuilder {
    /// The window title, as a sequence of characters.
    pub closed spec fn spec_title(&self) -> Seq<char> {
        self.title@
    }

    /// Current width of the window in pixels.
    pub closed spec fn spec_width(&self) -> u32 {
        self.width
    }

    /// Current height of the window in pixels.
    pub closed spec fn spec_height(&self) -> u32 {
        self.height
    }

    /// Whether the main loop is running.
    pub closed spec fn spec_running(&self) -> bool {
        self.running
    }

    /// Size of the window as width and height.
    pub open spec fn size(&self) -> (u32, u32) {
        (self.width(), self.height())
    }

    /// A window description with the given title and size; the main loop is
    /// not running yet.
    pub fn new(title: &str, width: u32, height: u32) -> (app: AppBuilder)
        ensures
            app.spec_title() == title@,
            app.width() == width,
            app.height() == height,
            !app.running(),
    {
        AppBuilder { title: title.to_owned(), width, height, running: false }
    }

    /// Takes over a new window size when both extents are positive, and
    /// ignores the request otherwise.
    pub fn resize_event(&mut self, width: i32, height: i32)
        ensures
            final(self).spec_title() == old(self).spec_title(),
            final(self).running() == old(self).running(),
            final(self).size() == if Event::Resized(width, height).resizes() {
                Event::Resized(width, height).size()
            } else {
                old(self).size()
            },
    {
        if width > 0 && height > 0 {
            self.width = width as u32;
            self.height = height as u32;
        }
    }

    /// Reacts to the events that arrived since the last frame, in their
    /// order. The main loop stays on only if it was on and no event stops
    /// it. The window has the size of the last event that resizes it, and
    /// keeps its size where none does.
    pub fn parse_events(&mut self, events: &Vec<Event>)
        ensures
            final(self).spec_title() == old(self).spec_title(),
            final(self).running() == (old(self).running() && forall|i: int|
                0 <= i < events@.len() ==> !(#[trigger] events@[i]).stops()),
            (forall|i: int| 0 <= i < events@.len() ==> !(#[trigger] events@[i]).resizes())
                ==> final(self).size() == old(self).size(),
            forall|i: int|
                0 <= i < events@.len() && (#[trigger] events@[i]).resizes() && (forall|j: int|
                    i < j < events@.len() ==> !(#[trigger] events@[j]).resizes())
                    ==> final(self).size() == events@[i].size(),
    {
        let mut k: usize = 0;
        while k < events.len()
            invariant
                k <= events@.len(),
                self.spec_title() == old(self).spec_title(),
                self.running() == (old(self).running() && forall|i: int|
                    0 <= i < k ==> !(#[trigger] events@[i]).stops()),
                (forall|i: int| 0 <= i < k ==> !(#[trigger] events@[i]).resizes()) ==> self.size()
                    == old(self).size(),
                forall|i: int|
                    0 <= i < k && (#[trigger] events@[i]).resizes() && (forall|j: int|
                        i < j < k ==> !(#[trigger] events@[j]).resizes()) ==> self.size()
                        == events@[i].size(),
            decreases events@.len() - k,
        {
            let ghost before = *self;
            match events[k] {
                Event::Quit | Event::EscapePressed => {
                    self.running = false;
                },
                Event::Resized(width, height) => {
                    self.resize_event(width, height);
                },
                Event::Other => {},
            }
            proof {
                let event = events@[k as int];
                assert(event.stops() ==> !self.running());
                assert(!event.stops() ==> self.running() == before.running());
                assert(event.resizes() ==> self.size() == event.size());
                assert(!event.resizes() ==> self.size() == before.size());
                assert forall|i: int|
                    0 <= i < k + 1 && (#[trigger] events@[i]).resizes() && (forall|j: int|
                        i < j < k + 1 ==> !(#[trigger] events@[j]).resizes()) implies self.size()
                    == events@[i].size() by {
                    if i < k {
                        assert(!events@[k as int].resizes());
                        assert forall|j: int| i < j < k implies !(#[trigger] events@[j]).resizes() by {}
                    }
                }
            }
            k += 1;
        }
    }

    /// Switches the main loop on or off.
    pub fn set_running(&mut self, running: bool)
        ensures
            final(self).spec_title() == old(self).spec_title(),
            final(self).size() == old(self).size(),
            final(self).running() == running,
    {
        self.running = running;
    }

    /// The window title.
    pub fn title(&self) -> (title: &str)
        ensures
            title@ == self.spec_title(),
    {
        self.title.as_str()
    }

    /// Current width of the window in pixels.
    #[verifier::when_used_as_spec(spec_width)]
    pub fn width(&self) -> (width: u32)
        ensures
            width == self.width(),
    {
        self.width
    }

    /// Current height of the window in pixels.
    #[verifier::when_used_as_spec(spec_height)]
    pub fn height(&self) -> (height: u32)
        ensures
            height == self.height(),
    {
        self.height
    }

    /// Whether the main loop is running.
    #[verifier::when_used_as_spec(spec_running)]
    pub fn running(&self) -> (running: bool)
        ensures
            running == self.running(),
    {
        self.running
    }
}

/// A pixel buffer of `width` by `height` pixels, row after row, and the
/// handle that the graphics system knows it by.
pub struct RenderTexture<P> {
    pub pixels: Vec<P>,
    pub width: u32,
    pub height: u32,
    pub id: u32,
}

impl<P> RenderTexture<P> {
    /// The buffer holds one pixel for every position.
    pub open spec fn well_formed(&self) -> bool {
        self.pixels@.len() == self.width * self.height
    }

    /// Decides `well_formed`.
    pub fn is_well_formed(&self) -> (ok: bool)
        ensures
            ok == self.well_formed(),
    {
        let width: u64 = self.width as u64;
        let height: u64 = self.height as u64;
        assert(width * height <= 0xFFFF_FFFF * 0xFFFF_FFFF) by (nonlinear_arith)
            requires
                0 <= width <= 0xFFFF_FFFF,
                0 <= height <= 0xFFFF_FFFF,
        ;
        self.pixels.len() as u64 == width * height
    }

    /// A buffer of `width` by `height` pixels, all equal to `fill`, that the
    /// graphics system does not know yet.
    pub fn new(width: u32, height: u32, fill: P) -> (texture: Self) where P: Copy
        requires
            width * height <= u32::MAX,
        ensures
            texture.well_formed(),
            texture.width == width,
            texture.height == height,
            texture.id == 0,
            forall|i: int| 0 <= i < texture.pixels@.len() ==> texture.pixels@[i] == fill,
    {
        let count: u32 = width * height;
        let mut pixels: Vec<P> = Vec::new();
        let mut i: u32 = 0;
        while i < count
            invariant
                i <= count,
                pixels@.len() == i,
                forall|j: int| 0 <= j < i ==> pixels@[j] == fill,
            decreases count - i,
        {
            pixels.push(fill);
            i += 1;
        }
        RenderTexture { pixels, width, height, id: 0 }
    }
}

} // verus!
