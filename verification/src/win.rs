//! Window identities, rectangles and the rule that decides which windows
//! can be pinned.

use vstd::prelude::*;
use crate::text::{chars_of, eq_ignore_ascii_case, eq_ignore_ascii_case_in};

verus! {

/// Opaque platform window handle.
#[derive(Clone, Copy, Debug, PartialEq, Eq, Hash, Structural)]
pub struct WindowId(pub isize);

/// A screen rectangle in physical pixels.
#[derive(Clone, Copy, Debug, Default, PartialEq, Eq, Structural)]
pub struct Rect {
    pub left: i32,
    pub top: i32,
    pub right: i32,
    pub bottom: i32,
}

impl Rect {
    /// `right - left`; the subtraction must fit in an `i32`.
    pub fn width(&self) -> (w: i32)
        requires
            i32::MIN <= self.right - self.left <= i32::MAX,
        ensures
            w == self.right - self.left,
    {
        self.right - self.left
    }

    /// `bottom - top`; the subtraction must fit in an `i32`.
    pub fn height(&self) -> (h: i32)
        requires
            i32::MIN <= self.bottom - self.top <= i32::MAX,
        ensures
            h == self.bottom - self.top,
    {
        self.bottom - self.top
    }
}

pub const WS_CHILD_BITS: u32 = 0x4000_0000;
pub const WS_CAPTION_BITS: u32 = 0x00C0_0000;
pub const WS_SYSMENU_BITS: u32 = 0x0008_0000;
pub const WS_THICKFRAME_BITS: u32 = 0x0004_0000;
pub const WS_EX_TOOLWINDOW_BITS: u32 = 0x0000_0080;
pub const WS_EX_APPWINDOW_BITS: u32 = 0x0004_0000;

/// Smallest width of a window that can be pinned.
pub const MIN_PINNABLE_WIDTH: i32 = 32;
/// Smallest height of a window that can be pinned.
pub const MIN_PINNABLE_HEIGHT: i32 = 32;

/// Window classes that are never pinned: shell surfaces and this program's
/// own helper windows.
pub const NON_PINNABLE_CLASSES: [&'static str; 10] = [
    "Progman",
    "WorkerW",
    "Shell_TrayWnd",
    "Shell_SecondaryTrayWnd",
    "DV2ControlHost",
    "MSTaskListWClass",
    "NotifyIconOverflowWindow",
    "PinPickerClass",
    "PinOverlayClass",
    "PinAppMsgWindow",
];

/// What is known of a window that the user clicked on.
#[derive(Clone, Debug, PartialEq, Eq)]
pub struct WindowCandidate {
    pub class_name: String,
    pub style: u32,
    pub ex_style: u32,
    pub rect: Rect,
    pub is_window: bool,
    pub is_visible: bool,
    pub is_iconic: bool,
    pub has_parent: bool,
}

/// The class name is one of [`NON_PINNABLE_CLASSES`], ASCII case ignored.
pub open spec fn is_excluded_class(name: Seq<char>) -> bool {
    exists|i: int| 0 <= i < 10 && eq_ignore_ascii_case(name, #[trigger] NON_PINNABLE_CLASSES@[i]@)
}

/// The candidate is a live, visible, restored top-level window.
pub open spec fn is_shown_top_level(c: WindowCandidate) -> bool {
    c.is_window && c.is_visible && !c.is_iconic && !c.has_parent
}

/// The candidate looks like an ordinary application window: a live,
/// visible, restored top-level window of at least 32 by 32 pixels, neither a
/// child nor a tool window, not of an excluded class, and either marked as
/// an application window or carrying a caption with a system menu or a
/// sizing border.
pub open spec fn pinnable(c: WindowCandidate) -> bool {
    &&& is_shown_top_level(c)
    &&& c.rect.right - c.rect.left >= MIN_PINNABLE_WIDTH
    &&& c.rect.bottom - c.rect.top >= MIN_PINNABLE_HEIGHT
    &&& c.style & WS_CHILD_BITS == 0
    &&& c.ex_style & WS_EX_TOOLWINDOW_BITS == 0
    &&& !is_excluded_class(c.class_name@)
    &&& {
        ||| c.ex_style & WS_EX_APPWINDOW_BITS != 0
        ||| c.style & WS_CAPTION_BITS == WS_CAPTION_BITS && (c.style & WS_SYSMENU_BITS != 0
            || c.style & WS_THICKFRAME_BITS != 0)
    }
}

/// Width and height are computed only while the earlier conditions hold; where
/// they are computed they must fit in an `i32`.
pub open spec fn candidate_extent_fits(c: WindowCandidate) -> bool {
    &&& is_shown_top_level(c) ==> i32::MIN <= c.rect.right - c.rect.left <= i32::MAX
    &&& is_shown_top_level(c) && c.rect.right - c.rect.left >= MIN_PINNABLE_WIDTH ==> i32::MIN
        <= c.rect.bottom - c.rect.top <= i32::MAX
}

fn is_excluded_class_name(name: &String) -> (r: bool)
    ensures
        r == is_excluded_class(name@),
{
    let v = chars_of(name.as_str());
    let n = v.len();
    proof {
        assert(v@.subrange(0, n as int) =~= name@);
    }
    let mut i: usize = 0;
    while i < 10
        invariant
            i <= 10,
            v@ == name@,
            n == v@.len(),
            forall|j: int| 0 <= j < i ==> !eq_ignore_ascii_case(name@, #[trigger] NON_PINNABLE_CLASSES@[j]@),
        decreases 10 - i,
    {
        let name_i = NON_PINNABLE_CLASSES[i];
        assert(name_i == NON_PINNABLE_CLASSES@[i as int]);
        let w = chars_of(name_i);
        assert(v@.subrange(0, n as int) =~= v@);
        if eq_ignore_ascii_case_in(&v, 0, n, &w) {
            assert(eq_ignore_ascii_case(name@, NON_PINNABLE_CLASSES@[i as int]@));
            return true;
        }
        i = i + 1;
    }
    false
}

/// Whether a clicked window looks like a regular user-facing application
/// window. Shell surfaces, tool windows, this program's own helper windows,
/// minimized windows and tiny overlays are refused.
pub fn is_pinnable_candidate(candidate: &WindowCandidate) -> (r: bool)
    requires
        candidate_extent_fits(*candidate),
    ensures
        r == pinnable(*candidate),
{
    if !candidate.is_window || !candidate.is_visible || candidate.is_iconic
        || candidate.has_parent || candidate.rect.width() < MIN_PINNABLE_WIDTH
        || candidate.rect.height() < MIN_PINNABLE_HEIGHT {
        return false;
    }
    if candidate.style & WS_CHILD_BITS != 0 {
        return false;
    }
    if candidate.ex_style & WS_EX_TOOLWINDOW_BITS != 0 {
        return false;
    }
    if is_excluded_class_name(&candidate.class_name) {
        return false;
    }
    let has_app_window = candidate.ex_style & WS_EX_APPWINDOW_BITS != 0;
    let has_caption = candidate.style & WS_CAPTION_BITS == WS_CAPTION_BITS;
    let has_sys_menu = candidate.style & WS_SYSMENU_BITS != 0;
    let has_thick_frame = candidate.style & WS_THICKFRAME_BITS != 0;
    has_app_window || (has_caption && (has_sys_menu || has_thick_frame))
}

/// Hidden, minimized, child, tool and undersized windows, and windows of an
/// excluded class, are never pinnable.
pub proof fn lemma_excluded_windows_are_never_pinnable(c: WindowCandidate, i: int)
    requires
        0 <= i < 10,
    ensures
        !c.is_window || !c.is_visible || c.is_iconic || c.has_parent ==> !pinnable(c),
        c.style & WS_CHILD_BITS != 0 ==> !pinnable(c),
        c.ex_style & WS_EX_TOOLWINDOW_BITS != 0 ==> !pinnable(c),
        c.rect.right - c.rect.left < MIN_PINNABLE_WIDTH || c.rect.bottom - c.rect.top
            < MIN_PINNABLE_HEIGHT ==> !pinnable(c),
        eq_ignore_ascii_case(c.class_name@, NON_PINNABLE_CLASSES@[i]@) ==> !pinnable(c),
{
}

/// Every live, visible, restored top-level window of at least 32 by 32
/// pixels that is neither a child nor a tool window, is of no excluded class,
/// and is marked as an application window or carries a full caption with a
/// system menu or a sizing border, is pinnable, whatever other style and
/// extended-style bits it has.
pub proof fn lemma_ordinary_windows_are_pinnable(c: WindowCandidate)
    requires
        c.is_window,
        c.is_visible,
        !c.is_iconic,
        !c.has_parent,
        c.rect.right - c.rect.left >= 32,
        c.rect.bottom - c.rect.top >= 32,
        c.style & 0x4000_0000u32 == 0,
        c.ex_style & 0x0000_0080u32 == 0,
        forall|i: int|
            0 <= i < 10 ==> !eq_ignore_ascii_case(c.class_name@, #[trigger] NON_PINNABLE_CLASSES@[i]@),
        c.ex_style & 0x0004_0000u32 != 0 || (c.style & 0x00C0_0000u32 == 0x00C0_0000u32 && (c.style
            & 0x0008_0000u32 != 0 || c.style & 0x0004_0000u32 != 0)),
    ensures
        pinnable(c),
{
}

/// Pinnability reads the extended style only through its tool-window and
/// application-window bits: two candidates that differ only in other
/// extended-style bits are both pinnable or both not.
pub proof fn lemma_pinnable_reads_only_tool_and_app_bits(c: WindowCandidate, d: WindowCandidate)
    requires
        d.class_name@ == c.class_name@,
        d.style == c.style,
        d.rect == c.rect,
        d.is_window == c.is_window,
        d.is_visible == c.is_visible,
        d.is_iconic == c.is_iconic,
        d.has_parent == c.has_parent,
        d.ex_style & 0x0000_0080u32 == c.ex_style & 0x0000_0080u32,
        d.ex_style & 0x0004_0000u32 == c.ex_style & 0x0004_0000u32,
    ensures
        pinnable(d) == pinnable(c),
{
}

/// Pinnability reads the rectangle only through its width and height: two
/// candidates whose rectangles differ only by where they stand on the screen
/// (a maximized window, or one on a monitor left of or above the primary
/// one, has negative coordinates) are both pinnable or both not.
pub proof fn lemma_pinnable_ignores_position(c: WindowCandidate, d: WindowCandidate)
    requires
        d.class_name@ == c.class_name@,
        d.style == c.style,
        d.ex_style == c.ex_style,
        d.is_window == c.is_window,
        d.is_visible == c.is_visible,
        d.is_iconic == c.is_iconic,
        d.has_parent == c.has_parent,
        d.rect.right - d.rect.left == c.rect.right - c.rect.left,
        d.rect.bottom - d.rect.top == c.rect.bottom - c.rect.top,
    ensures
        pinnable(d) == pinnable(c),
{
}

/// Why a window operation failed.
#[derive(Debug)]
pub struct WinApiError {
    pub message: String,
}

/// One request answered by a [`WindowApi`], with its answer.
pub enum WindowRequest {
    /// `set_topmost(w, on)`, answered with `answer`.
    SetTopmost { w: WindowId, on: bool, answer: Result<(), WinApiError> },
    /// `window_rect(w)`.
    WindowRect { w: WindowId },
    /// `is_window(w)`, answered with `alive`.
    IsWindow { w: WindowId, alive: bool },
}

/// The operations on live windows that pinning needs. The platform
/// implementation talks to the window manager; tests supply fakes.
///
/// An implementation may keep a record of the requests it answered:
/// `records_requests` says whether it does, and `requests` is that record,
/// oldest first. Each method of an implementation that keeps one appends
/// exactly its own request to it. By default nothing is recorded, and the
/// methods promise nothing; [`RecordedApi`] adds the record to any
/// implementation. The pinned set's contracts state, over this record,
/// exactly which requests each of its operations makes.
pub trait WindowApi {
    /// Whether this implementation keeps a record of its requests.
    open spec fn records_requests(&self) -> bool {
        false
    }

    /// The requests answered so far, oldest first.
    open spec fn requests(&self) -> Seq<WindowRequest> {
        Seq::empty()
    }

    /// Puts `w` into the always-on-top band (`on`) or takes it out.
    fn set_topmost(&mut self, w: WindowId, on: bool) -> (r: Result<(), WinApiError>)
        ensures
            final(self).records_requests() == old(self).records_requests(),
            old(self).records_requests() ==> final(self).requests() == old(self).requests().push(
                WindowRequest::SetTopmost { w, on, answer: r },
            ),
    ;

    /// The screen rectangle of `w`.
    fn window_rect(&mut self, w: WindowId) -> (r: Result<Rect, WinApiError>)
        ensures
            final(self).records_requests() == old(self).records_requests(),
            old(self).records_requests() ==> final(self).requests() == old(self).requests().push(
                WindowRequest::WindowRect { w },
            ),
    ;

    /// Whether `w` still names a live window.
    fn is_window(&mut self, w: WindowId) -> (r: bool)
        ensures
            final(self).records_requests() == old(self).records_requests(),
            old(self).records_requests() ==> final(self).requests() == old(self).requests().push(
                WindowRequest::IsWindow { w, alive: r },
            ),
    ;
}

/// A [`WindowApi`] that passes every request on to `inner` and keeps the
/// record of requests and answers, so that the pinned set's request
/// clauses hold of it.
pub struct RecordedApi<A: WindowApi> {
    inner: A,
    log: Ghost<Seq<WindowRequest>>,
}

impl<A: WindowApi> RecordedApi<A> {
    /// The wrapped window API.
    pub closed spec fn inner_api(&self) -> A {
        self.inner
    }

    /// The wrapped window API.
    pub fn inner(&self) -> (r: &A)
        ensures
            *r == self.inner_api(),
    {
        &self.inner
    }

    /// Wraps `inner`, with nothing recorded yet.
    pub fn new(inner: A) -> (r: Self)
        ensures
            r.inner_api() == inner,
            r.records_requests(),
            r.requests() == Seq::<WindowRequest>::empty(),
    {
        RecordedApi { inner, log: Ghost(Seq::empty()) }
    }
}

impl<A: WindowApi> WindowApi for RecordedApi<A> {
    open spec fn records_requests(&self) -> bool {
        true
    }

    closed spec fn requests(&self) -> Seq<WindowRequest> {
        self.log@
    }

    fn set_topmost(&mut self, w: WindowId, on: bool) -> (r: Result<(), WinApiError>) {
        let r = self.inner.set_topmost(w, on);
        self.log = Ghost(self.log@.push(WindowRequest::SetTopmost { w, on, answer: r }));
        r
    }

    fn window_rect(&mut self, w: WindowId) -> (r: Result<Rect, WinApiError>) {
        let r = self.inner.window_rect(w);
        self.log = Ghost(self.log@.push(WindowRequest::WindowRect { w }));
        r
    }

    fn is_window(&mut self, w: WindowId) -> (r: bool) {
        let r = self.inner.is_window(w);
        self.log = Ghost(self.log@.push(WindowRequest::IsWindow { w, alive: r }));
        r
    }
}

} // verus!
