//! Link extraction: a stack machine that reads a flat event stream and
//! rebuilds the links in it, each with the image nested in it.

use vstd::prelude::*;
use crate::link::model::{link_views, Link, LinkBuilder, LinkDraft, LinkView};
use crate::parser::{event_views, Event, EventView};

verus! {

/// Where the machine is, within the innermost open link.
#[derive(Clone, Copy, Debug, PartialEq, Eq, Structural)]
pub enum Where {
    /// Between the start and the end of a link, outside any image of it.
    InLink,
    /// Between the start and the end of an image, within a link.
    InImageInLink,
}

/// One open link: where the machine is within it, and what was gathered
/// of it so far.
pub struct FrameView {
    pub context: Where,
    pub draft: LinkDraft,
}

impl FrameView {
    /// The frame with `text` gathered: as alt text where the machine is in
    /// an image, as display text of the link where it is not.
    pub open spec fn with(self, text: Seq<char>) -> FrameView {
        if self.context == Where::InImageInLink {
            FrameView { draft: self.draft.with_image_alt_text(text), ..self }
        } else {
            FrameView { draft: self.draft.with_text(text), ..self }
        }
    }
}

/// What became of an event.
#[derive(Clone, Copy, Debug, PartialEq, Eq, Structural)]
pub enum Outcome {
    /// The event opened a link.
    Opened,
    /// The event opened a link within an image. No image holds a link:
    /// the link is extracted as a link of its own.
    OpenedInImage,
    /// The event closed the innermost open link, which joined the result.
    Closed,
    /// The event went into the innermost open link.
    Gathered,
    /// The event fits nothing the machine knows within an open link, such
    /// as an image within an image. It left no trace.
    Unhandled,
    /// The event stands outside any link. It left no trace.
    Outside,
}

/// The state of the machine: the open links, innermost last, and the
/// links finished so far, in the order in which they ended.
pub struct MachineView {
    pub stack: Seq<FrameView>,
    pub links: Seq<LinkView>,
}

impl MachineView {
    /// The state before the first event.
    pub open spec fn initial() -> MachineView {
        MachineView { stack: Seq::empty(), links: Seq::empty() }
    }

    /// The state with the innermost open link replaced by `frame`.
    pub open spec fn with_top(self, frame: FrameView) -> MachineView {
        MachineView { stack: self.stack.drop_last().push(frame), ..self }
    }

    /// What becomes of `event` in this state.
    pub open spec fn outcome(self, event: EventView) -> Outcome {
        if event is StartLink {
            if self.stack.len() > 0 && self.stack.last().context == Where::InImageInLink {
                Outcome::OpenedInImage
            } else {
                Outcome::Opened
            }
        } else if self.stack.len() == 0 {
            Outcome::Outside
        } else {
            let context = self.stack.last().context;
            match event {
                EventView::EndLink => if context == Where::InLink {
                    Outcome::Closed
                } else {
                    Outcome::Unhandled
                },
                EventView::StartImage { .. } => if context == Where::InLink {
                    Outcome::Gathered
                } else {
                    Outcome::Unhandled
                },
                EventView::EndImage => if context == Where::InImageInLink {
                    Outcome::Gathered
                } else {
                    Outcome::Unhandled
                },
                EventView::Text(_) => Outcome::Gathered,
                EventView::Code(_) => Outcome::Gathered,
                _ => Outcome::Unhandled,
            }
        }
    }

    /// The state after `event`.
    ///
    /// The start of a link opens a frame, whatever is open already. The
    /// end of a link closes the innermost frame, if the machine is not
    /// within an image of it. An image starts and ends within the
    /// innermost frame. Text goes to the alt text of the image the machine
    /// is in, else to the display text of the link; inline code is taken
    /// as text. Every other event, and every event while no link is open,
    /// leaves the state as it is.
    pub open spec fn step(self, event: EventView) -> MachineView {
        if let EventView::StartLink { link_kind, url, title, id } = event {
            MachineView {
                stack: self.stack.push(
                    FrameView {
                        context: Where::InLink,
                        draft: LinkDraft::seeded(link_kind, url, title, id),
                    },
                ),
                ..self
            }
        } else if self.stack.len() == 0 {
            self
        } else {
            let top = self.stack.last();
            match event {
                EventView::EndLink => if top.context == Where::InLink {
                    MachineView {
                        stack: self.stack.drop_last(),
                        links: self.links.push(top.draft.built()),
                    }
                } else {
                    self
                },
                EventView::StartImage { link_kind, url, title, id } => if top.context
                    == Where::InLink {
                    self.with_top(
                        FrameView {
                            context: Where::InImageInLink,
                            draft: top.draft.with_image(link_kind, url, title, id),
                        },
                    )
                } else {
                    self
                },
                EventView::EndImage => if top.context == Where::InImageInLink {
                    self.with_top(FrameView { context: Where::InLink, ..top })
                } else {
                    self
                },
                EventView::Text(text) => self.with_top(top.with(text)),
                EventView::Code(code) => self.with_top(top.with(code)),
                _ => self,
            }
        }
    }

    /// The state after the events of `events`, in order.
    pub open spec fn run(self, events: Seq<EventView>) -> MachineView
        decreases events.len(),
    {
        if events.len() == 0 {
            self
        } else {
            self.run(events.drop_last()).step(events.last())
        }
    }
}

/// Why a stream yields no links.
#[derive(Clone, Copy, Debug, PartialEq, Eq, Structural)]
pub enum ExtractError {
    /// The stream ended while `open` links were still open: its starts and
    /// ends are not balanced.
    Unbalanced { open: usize },
}

/// What [`extract_links`] returns on a stream: the links in the order in
/// which they end, or the error where a link is left open at the end.
pub open spec fn extraction(events: Seq<EventView>) -> Result<Seq<LinkView>, ExtractError> {
    let end = MachineView::initial().run(events);
    if end.stack.len() == 0 {
        Ok(end.links)
    } else {
        Err(ExtractError::Unbalanced { open: end.stack.len() as usize })
    }
}

/// One open link.
#[derive(Clone, Debug)]
struct Frame {
    context: Where,
    builder: LinkBuilder,
}

impl View for Frame {
    type V = FrameView;

    closed spec fn view(&self) -> FrameView {
        FrameView { context: self.context, draft: self.builder@ }
    }
}

impl Frame {
    /// Gathers `text` into the frame: as alt text where the machine is in
    /// an image, as display text of the link where it is not.
    fn gather(self, text: &str) -> (r: Frame)
        ensures
            r@ == self@.with(text@),
    {
        let builder = if self.context == Where::InImageInLink {
            self.builder.add_image_alt_text(text)
        } else {
            self.builder.add_text(text)
        };
        Frame { context: self.context, builder }
    }
}

/// The extraction machine. It owns its stack and its result.
#[derive(Clone, Debug)]
pub struct Extractor {
    stack: Vec<Frame>,
    links: Vec<Link>,
}

impl View for Extractor {
    type V = MachineView;

    closed spec fn view(&self) -> MachineView {
        MachineView { stack: self.stack@.map_values(|f: Frame| f@), links: link_views(self.links@) }
    }
}

impl Extractor {
    /// A machine before its first event: nothing open, nothing found.
    pub fn new() -> (r: Extractor)
        ensures
            r@ == MachineView::initial(),
    {
        let r = Extractor { stack: Vec::new(), links: Vec::new() };
        assert(r@.stack =~= Seq::empty());
        assert(r@.links =~= Seq::empty());
        r
    }

    /// The number of links that are open.
    pub fn depth(&self) -> (n: usize)
        ensures
            n == self@.stack.len(),
    {
        self.stack.len()
    }

    /// Whether the machine is within an image.
    pub fn in_image(&self) -> (b: bool)
        ensures
            b == (self@.stack.len() > 0 && self@.stack.last().context == Where::InImageInLink),
    {
        let n = self.stack.len();
        if n == 0 {
            return false;
        }
        assert(self@.stack.last() == self.stack@[n - 1]@);
        self.stack[n - 1].context == Where::InImageInLink
    }

    /// Puts a frame on the stack.
    fn push_frame(&mut self, frame: Frame)
        ensures
            final(self)@ == (MachineView { stack: old(self)@.stack.push(frame@), ..old(self)@ }),
    {
        self.stack.push(frame);
        assert(self@.stack =~= old(self)@.stack.push(frame@));
    }

    /// Takes the innermost frame off the stack.
    fn pop_frame(&mut self) -> (frame: Frame)
        requires
            old(self)@.stack.len() > 0,
        ensures
            frame@ == old(self)@.stack.last(),
            final(self)@ == (MachineView { stack: old(self)@.stack.drop_last(), ..old(self)@ }),
    {
        let frame = self.stack.pop().unwrap();
        assert(self@.stack =~= old(self)@.stack.drop_last());
        frame
    }

    /// Takes one event in, and tells what became of it.
    pub fn step(&mut self, event: &Event) -> (outcome: Outcome)
        ensures
            final(self)@ == old(self)@.step(event@),
            outcome == old(self)@.outcome(event@),
    {
        if let Event::StartLink { link_kind, url, title, id } = event {
            let builder = LinkBuilder::from_type_url_title(
                *link_kind,
                url.as_str(),
                title.as_str(),
                id.as_str(),
            );
            let in_image = self.in_image();
            self.push_frame(Frame { context: Where::InLink, builder });
            return if in_image {
                Outcome::OpenedInImage
            } else {
                Outcome::Opened
            };
        }
        if self.stack.len() == 0 {
            return Outcome::Outside;
        }
        let Frame { context, builder } = self.pop_frame();
        match event {
            Event::EndLink => {
                if context == Where::InLink {
                    self.links.push(builder.build());
                    assert(self@.links =~= old(self)@.links.push(builder@.built()));
                    Outcome::Closed
                } else {
                    self.push_frame(Frame { context, builder });
                    assert(self@.stack =~= old(self)@.stack);
                    Outcome::Unhandled
                }
            },
            Event::StartImage { link_kind, url, title, id } => {
                if context == Where::InLink {
                    let builder = builder.set_image(
                        *link_kind,
                        url.as_str(),
                        title.as_str(),
                        id.as_str(),
                    );
                    self.push_frame(Frame { context: Where::InImageInLink, builder });
                    Outcome::Gathered
                } else {
                    self.push_frame(Frame { context, builder });
                    assert(self@.stack =~= old(self)@.stack);
                    Outcome::Unhandled
                }
            },
            Event::EndImage => {
                if context == Where::InImageInLink {
                    self.push_frame(Frame { context: Where::InLink, builder });
                    Outcome::Gathered
                } else {
                    self.push_frame(Frame { context, builder });
                    assert(self@.stack =~= old(self)@.stack);
                    Outcome::Unhandled
                }
            },
            Event::Text(text) => {
                self.push_frame(Frame { context, builder }.gather(text.as_str()));
                Outcome::Gathered
            },
            Event::Code(code) => {
                self.push_frame(Frame { context, builder }.gather(code.as_str()));
                Outcome::Gathered
            },
            _ => {
                self.push_frame(Frame { context, builder });
                assert(self@.stack =~= old(self)@.stack);
                Outcome::Unhandled
            },
        }
    }

    /// Ends the extraction: the links found, if no link is left open.
    pub fn finish(self) -> (r: Result<Vec<Link>, ExtractError>)
        ensures
            match r {
                Ok(links) => self@.stack.len() == 0 && link_views(links@) == self@.links,
                Err(e) => self@.stack.len() > 0 && e == (ExtractError::Unbalanced {
                    open: self@.stack.len() as usize,
                }),
            },
    {
        if self.stack.len() == 0 {
            Ok(self.links)
        } else {
            Err(ExtractError::Unbalanced { open: self.stack.len() })
        }
    }
}

/// What becomes of each event of a stream, in order: of each, what the
/// machine makes of it in the state that the events before it leave.
pub open spec fn outcomes(events: Seq<EventView>) -> Seq<Outcome> {
    Seq::new(
        events.len(),
        |i: int| MachineView::initial().run(events.take(i)).outcome(events[i]),
    )
}

/// Extracts the links of an event stream, in the order in which they end,
/// and tells what became of each event, so that the caller can report the
/// events that were unhandled. A stream that leaves a link open at its end
/// is refused; what became of its events is told all the same.
pub fn extract_links_and_outcomes(events: &Vec<Event>) -> (r: (
    Result<Vec<Link>, ExtractError>,
    Vec<Outcome>,
))
    ensures
        match r.0 {
            Ok(links) => extraction(event_views(events@)) == Ok::<Seq<LinkView>, ExtractError>(
                link_views(links@),
            ),
            Err(e) => extraction(event_views(events@)) == Err::<Seq<LinkView>, ExtractError>(e),
        },
        r.1@ == outcomes(event_views(events@)),
{
    let ghost all = event_views(events@);
    let mut machine = Extractor::new();
    let mut told: Vec<Outcome> = Vec::new();
    let mut i: usize = 0;
    assert(all.take(0) =~= Seq::<EventView>::empty());
    while i < events.len()
        invariant
            i <= events.len(),
            all == event_views(events@),
            machine@ == MachineView::initial().run(all.take(i as int)),
            told@.len() == i,
            forall|j: int| 0 <= j < i ==> told@[j] == outcomes(all)[j],
        decreases events.len() - i,
    {
        let outcome = machine.step(&events[i]);
        told.push(outcome);
        proof {
            let next = all.take(i + 1);
            assert(next.drop_last() =~= all.take(i as int));
            assert(next.last() == events@[i as int]@);
            assert(all[i as int] == events@[i as int]@);
        }
        i += 1;
    }
    assert(all.take(events.len() as int) =~= all);
    assert(told@ =~= outcomes(all));
    (machine.finish(), told)
}

/// Extracts the links of an event stream, in the order in which they end.
/// A stream that leaves a link open at its end is refused.
pub fn extract_links(events: &Vec<Event>) -> (r: Result<Vec<Link>, ExtractError>)
    ensures
        match r {
            Ok(links) => extraction(event_views(events@)) == Ok::<Seq<LinkView>, ExtractError>(
                link_views(links@),
            ),
            Err(e) => extraction(event_views(events@)) == Err::<Seq<LinkView>, ExtractError>(e),
        },
{
    extract_links_and_outcomes(events).0
}

} // verus!
