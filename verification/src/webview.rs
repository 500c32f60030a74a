//! The reading pane: which render of a page is shown while newer ones are on
//! their way, and which remote images are loaded.

use vstd::prelude::*;
use vstd::string::*;
use crate::text::Text;

verus! {

broadcast use vstd::string::group_string_axioms;

// ── Rendering ───────────────────────────────────────────────────────────────

/// A page to be laid out by the render thread.
pub struct RenderJob {
    pub id: u64,
    pub html: String,
    /// Forget which images were asked for already.
    pub reset_images: bool,
}

/// What a [`RenderJob`] holds.
#[verifier::ext_equal]
pub struct RenderJobModel {
    pub id: u64,
    pub html: Text,
    pub reset_images: bool,
}

impl View for RenderJob {
    type V = RenderJobModel;

    open spec fn view(&self) -> RenderJobModel {
        RenderJobModel { id: self.id, html: self.html@, reset_images: self.reset_images }
    }
}

/// What the render thread answers.
#[derive(Debug, Clone, Copy, PartialEq, Eq, Structural)]
pub enum Output {
    /// The page of a job is laid out.
    Frame { id: u64 },
    /// The page of a job could not be laid out.
    Failed { id: u64 },
}

/// The page that is shown, and the render of it.
pub struct HtmlWidget {
    html: String,
    /// The job whose render is shown.
    frame: Option<u64>,
    /// The newest job.
    submitted_id: u64,
    reset_images: bool,
    /// The page has to be laid out again.
    dirty: bool,
    failed: bool,
}

/// What an [`HtmlWidget`] holds.
#[verifier::ext_equal]
pub struct WidgetModel {
    pub html: Text,
    pub frame: Option<u64>,
    pub submitted_id: u64,
    pub reset_images: bool,
    pub dirty: bool,
    pub failed: bool,
}

impl View for HtmlWidget {
    type V = WidgetModel;

    closed spec fn view(&self) -> WidgetModel {
        WidgetModel {
            html: self.html@,
            frame: self.frame,
            submitted_id: self.submitted_id,
            reset_images: self.reset_images,
            dirty: self.dirty,
            failed: self.failed,
        }
    }
}

impl WidgetModel {
    /// A new page, which nothing has been done for yet.
    pub open spec fn of(html: Text) -> WidgetModel {
        WidgetModel {
            html,
            frame: None,
            submitted_id: 0,
            reset_images: false,
            dirty: true,
            failed: false,
        }
    }

    /// Another page. The render of the previous one is dropped at once, so that
    /// a slow render does not show the previous page.
    pub open spec fn loaded(self, html: Text) -> WidgetModel {
        WidgetModel { html, frame: None, failed: false, reset_images: true, dirty: true, ..self }
    }

    /// Whether the newest render is shown.
    pub open spec fn is_ready(self) -> bool {
        self.frame == Some(self.submitted_id)
    }

    /// The page is handed to the render thread.
    pub open spec fn submitted(self) -> WidgetModel {
        WidgetModel {
            submitted_id: (self.submitted_id + 1) as u64,
            reset_images: false,
            dirty: false,
            ..self
        }
    }

    /// The job that is handed to the render thread.
    pub open spec fn job(self) -> RenderJobModel {
        RenderJobModel {
            id: (self.submitted_id + 1) as u64,
            html: self.html,
            reset_images: self.reset_images,
        }
    }

    /// The page once its render could not be handed over.
    pub open spec fn refused(self) -> WidgetModel {
        WidgetModel { failed: true, ..self }
    }

    /// An answer of the render thread. One to an older job changes nothing.
    pub open spec fn answered(self, output: Output) -> WidgetModel {
        match output {
            Output::Frame { id } if id == self.submitted_id => WidgetModel {
                frame: Some(id),
                ..self
            },
            Output::Failed { id } if id == self.submitted_id => WidgetModel {
                failed: true,
                ..self
            },
            _ => self,
        }
    }

    /// Several answers of the render thread.
    pub open spec fn all_answered(self, outputs: Seq<Output>) -> WidgetModel
        decreases outputs.len(),
    {
        if outputs.len() == 0 {
            self
        } else {
            self.all_answered(outputs.drop_last()).answered(outputs.last())
        }
    }

    /// What the render thread answered since the last look. If it has gone,
    /// rendering has failed.
    pub open spec fn polled(self, outputs: Seq<Output>, gone: bool) -> WidgetModel {
        let s = self.all_answered(outputs);
        if gone {
            WidgetModel { failed: true, ..s }
        } else {
            s
        }
    }
}

impl HtmlWidget {
    /// Shows a page.
    pub fn new(html: String) -> (r: Self)
        ensures
            r@ == WidgetModel::of(html@),
    {
        HtmlWidget {
            html,
            frame: None,
            submitted_id: 0,
            reset_images: false,
            dirty: true,
            failed: false,
        }
    }

    /// Shows another page.
    pub fn load(&mut self, html: String)
        ensures
            final(self)@ == old(self)@.loaded(html@),
    {
        self.html = html;
        self.frame = None;
        self.failed = false;
        self.reset_images = true;
        self.dirty = true;
    }

    /// Whether the newest render is shown.
    pub fn is_ready(&self) -> (r: bool)
        ensures
            r == self@.is_ready(),
    {
        match self.frame {
            Some(id) => id == self.submitted_id,
            None => false,
        }
    }

    /// Whether rendering has failed.
    pub fn has_failed(&self) -> (r: bool)
        ensures
            r == self@.failed,
    {
        self.failed
    }

    /// The job whose render is shown.
    pub fn frame(&self) -> (r: Option<u64>)
        ensures
            r == self@.frame,
    {
        self.frame
    }

    /// Whether the page has to be laid out, or laid out again for another
    /// width.
    pub fn needs_render(&self, width_changed: bool) -> (r: bool)
        ensures
            r == (self@.dirty || width_changed),
    {
        self.dirty || width_changed
    }

    /// Whether another job can be numbered.
    pub fn can_submit(&self) -> (r: bool)
        ensures
            r == (self@.submitted_id < u64::MAX),
    {
        self.submitted_id < u64::MAX
    }

    /// Hands the page to the render thread.
    pub fn submit(&mut self) -> (r: RenderJob)
        requires
            old(self)@.submitted_id < u64::MAX,
        ensures
            r@ == old(self)@.job(),
            final(self)@ == old(self)@.submitted(),
    {
        self.submitted_id = self.submitted_id + 1;
        let reset_images = self.reset_images;
        self.reset_images = false;
        self.dirty = false;
        RenderJob { id: self.submitted_id, html: self.html.clone(), reset_images }
    }

    /// Notes that a job could not be handed over.
    pub fn submit_failed(&mut self)
        ensures
            final(self)@ == old(self)@.refused(),
    {
        self.failed = true;
    }

    /// Takes one answer of the render thread.
    fn answer(&mut self, output: Output)
        ensures
            final(self)@ == old(self)@.answered(output),
    {
        match output {
            Output::Frame { id } => {
                if id == self.submitted_id {
                    self.frame = Some(id);
                }
            },
            Output::Failed { id } => {
                if id == self.submitted_id {
                    self.failed = true;
                }
            },
        }
    }

    /// Takes what the render thread answered since the last look.
    pub fn poll(&mut self, outputs: &Vec<Output>, gone: bool)
        ensures
            final(self)@ == old(self)@.polled(outputs@, gone),
    {
        let ghost start = self@;
        let mut i: usize = 0;
        assert(outputs@.take(0) =~= seq![]);
        while i < outputs.len()
            invariant
                i <= outputs@.len(),
                self@ == start.all_answered(outputs@.take(i as int)),
            decreases outputs@.len() - i,
        {
            assert(outputs@.take(i + 1).drop_last() =~= outputs@.take(i as int));
            self.answer(outputs[i]);
            i += 1;
        }
        assert(outputs@.take(outputs@.len() as int) =~= outputs@);
        if gone {
            self.failed = true;
        }
    }
}

/// A page in a window of its own.
pub struct HtmlView {
    widget: HtmlWidget,
    /// The window has to be drawn again.
    invalid: bool,
}

impl HtmlView {
    /// The page.
    pub closed spec fn page(self) -> WidgetModel {
        self.widget@
    }

    /// Whether the window has to be drawn again.
    pub closed spec fn is_invalid(self) -> bool {
        self.invalid
    }

    /// Shows a page.
    pub fn new(html: String) -> (r: Self)
        ensures
            r.page() == WidgetModel::of(html@),
            !r.is_invalid(),
    {
        HtmlView { widget: HtmlWidget::new(html), invalid: false }
    }

    /// Shows another page.
    pub fn load(&mut self, html: String)
        ensures
            final(self).page() == old(self).page().loaded(html@),
            final(self).is_invalid(),
    {
        self.widget.load(html);
        self.invalid = true;
    }

    /// Whether the newest render is shown.
    pub fn is_ready(&self) -> (r: bool)
        ensures
            r == self.page().is_ready(),
    {
        self.widget.is_ready()
    }

    /// Has the window drawn again.
    pub fn invalidate(&mut self)
        ensures
            final(self).page() == old(self).page(),
            final(self).is_invalid(),
    {
        self.invalid = true;
    }

    /// Whether the window has to be drawn; it is, once.
    pub fn take_invalid(&mut self) -> (r: bool)
        ensures
            r == old(self).is_invalid(),
            final(self).page() == old(self).page(),
            !final(self).is_invalid(),
    {
        let r = self.invalid;
        self.invalid = false;
        r
    }
}

// ── Scrolling ───────────────────────────────────────────────────────────────

/// How many device-independent pixels one wheel notch scrolls.
pub const WHEEL_LINE_DIP: i32 = 60;

/// How many device-independent pixels one arrow-key press scrolls.
pub const KEY_LINE_DIP: i32 = 40;

/// How far the wheel turns in one notch.
pub const WHEEL_NOTCH: i32 = 120;

/// A key that reaches the page.
#[derive(Debug, Clone, Copy, PartialEq, Eq, Structural)]
pub enum Key {
    Down,
    Up,
    PageDown,
    PageUp,
    Home,
    End,
    Other,
}

/// What the user does to the page.
#[derive(Debug, Clone, Copy, PartialEq, Eq, Structural)]
pub enum Input {
    /// The wheel turned, away from the user if `delta` is positive.
    Wheel { delta: i32, horizontal: bool },
    KeyDown(Key),
    Other,
}

/// How a page scrolls; down is positive.
#[derive(Debug, Clone, Copy, PartialEq, Eq, Structural)]
pub enum Scroll {
    /// By device-independent pixels, given as a fraction.
    By { pixels: i64, over: i32 },
    /// By so many heights of what is visible.
    Pages(i32),
    ToTop,
    ToBottom,
}

/// How the page scrolls on an input, if it does: the wheel by lines against the
/// direction it turns, the arrows by lines, and the others as they say.
pub open spec fn scroll_for(input: Input) -> Option<Scroll> {
    match input {
        Input::Wheel { delta, horizontal: false } => Some(
            Scroll::By { pixels: (-delta * WHEEL_LINE_DIP) as i64, over: WHEEL_NOTCH },
        ),
        Input::KeyDown(Key::Down) => Some(Scroll::By { pixels: KEY_LINE_DIP as i64, over: 1 }),
        Input::KeyDown(Key::Up) => Some(Scroll::By { pixels: (-KEY_LINE_DIP) as i64, over: 1 }),
        Input::KeyDown(Key::PageDown) => Some(Scroll::Pages(1)),
        Input::KeyDown(Key::PageUp) => Some(Scroll::Pages((-1) as i32)),
        Input::KeyDown(Key::Home) => Some(Scroll::ToTop),
        Input::KeyDown(Key::End) => Some(Scroll::ToBottom),
        _ => None,
    }
}

/// How the page scrolls on an input, if it does.
pub fn input(event: Input) -> (r: Option<Scroll>)
    ensures
        r == scroll_for(event),
{
    match event {
        Input::Wheel { delta, horizontal } => if horizontal {
            None
        } else {
            Some(Scroll::By { pixels: -(delta as i64) * (WHEEL_LINE_DIP as i64), over: WHEEL_NOTCH })
        },
        Input::KeyDown(key) => match key {
            Key::Down => Some(Scroll::By { pixels: KEY_LINE_DIP as i64, over: 1 }),
            Key::Up => Some(Scroll::By { pixels: -(KEY_LINE_DIP as i64), over: 1 }),
            Key::PageDown => Some(Scroll::Pages(1)),
            Key::PageUp => Some(Scroll::Pages(-1)),
            Key::Home => Some(Scroll::ToTop),
            Key::End => Some(Scroll::ToBottom),
            Key::Other => None,
        },
        Input::Other => None,
    }
}

// ── Remote images ───────────────────────────────────────────────────────────

/// What becomes of an image that a page asks for.
pub enum ImageOutcome {
    Block,
    Serve(Vec<u8>),
}

/// Whether an image may be fetched at all: only while remote images are
/// allowed for the open message.
pub fn may_fetch(allow_remote: bool) -> (r: bool)
    ensures
        r == allow_remote,
{
    allow_remote
}

/// What becomes of an image, by what fetching it gave.
pub open spec fn outcome_of(allow_remote: bool, fetched: Option<Vec<u8>>) -> ImageOutcome {
    match fetched {
        Some(bytes) if allow_remote => ImageOutcome::Serve(bytes),
        _ => ImageOutcome::Block,
    }
}

/// What becomes of an image, by what fetching it gave. `fetched` is `None` if
/// it was not tried or failed.
pub fn image_outcome(allow_remote: bool, fetched: Option<Vec<u8>>) -> (r: ImageOutcome)
    ensures
        r == outcome_of(allow_remote, fetched),
{
    match fetched {
        Some(bytes) if allow_remote => ImageOutcome::Serve(bytes),
        _ => ImageOutcome::Block,
    }
}

// ── Laws ────────────────────────────────────────────────────────────────────

/// After a page was loaded and handed over, nothing but the render of that job
/// or a later one can be shown, whatever older answers still come in.
pub proof fn law_older_renders_are_never_shown(
    widget: WidgetModel,
    html: Text,
    outputs: Seq<Output>,
    gone: bool,
)
    requires
        widget.submitted_id < u64::MAX,
    ensures
        ({
            let after = widget.loaded(html).submitted().polled(outputs, gone);
            &&& after.frame is None || after.is_ready()
            &&& after.is_ready() <==> outputs.contains(
                Output::Frame { id: (widget.submitted_id + 1) as u64 },
            )
        }),
{
    lemma_answers(widget.loaded(html).submitted(), outputs);
}

proof fn lemma_answers(widget: WidgetModel, outputs: Seq<Output>)
    requires
        widget.frame is None,
    ensures
        ({
            let after = widget.all_answered(outputs);
            &&& after.submitted_id == widget.submitted_id
            &&& after.frame == (if outputs.contains(Output::Frame { id: widget.submitted_id }) {
                Some(widget.submitted_id)
            } else {
                None
            })
        }),
    decreases outputs.len(),
{
    if outputs.len() > 0 {
        let rest = outputs.drop_last();
        lemma_answers(widget, rest);
        let wanted = Output::Frame { id: widget.submitted_id };
        if rest.contains(wanted) {
            let i = choose|i: int| 0 <= i < rest.len() && rest[i] == wanted;
            assert(outputs[i] == wanted);
        } else if outputs.contains(wanted) {
            let i = choose|i: int| 0 <= i < outputs.len() && outputs[i] == wanted;
            if i < rest.len() {
                assert(rest[i] == wanted);
            }
        }
        if outputs.last() == wanted {
            assert(outputs[outputs.len() - 1] == wanted);
        }
    }
}

} // verus!
