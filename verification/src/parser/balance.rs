//! Balanced event streams, and what the extraction machine does on them.

use vstd::prelude::*;
use crate::link::model::LinkView;
use crate::parser::extract_links::{extraction, ExtractError, FrameView, MachineView, Where};
use crate::parser::EventView;

verus! {

/// A tag that an event stream opens and closes.
pub enum Tag {
    Link,
    Image,
}

/// The tags that are open after `events`, outermost first; `None` where
/// an end event meets no start of its own kind as the innermost open tag.
pub open spec fn open_tags(events: Seq<EventView>) -> Option<Seq<Tag>>
    decreases events.len(),
{
    if events.len() == 0 {
        Some(Seq::empty())
    } else {
        match open_tags(events.drop_last()) {
            None => None,
            Some(open) => match events.last() {
                EventView::StartLink { .. } => Some(open.push(Tag::Link)),
                EventView::StartImage { .. } => Some(open.push(Tag::Image)),
                EventView::EndLink => if open.len() > 0 && open.last() is Link {
                    Some(open.drop_last())
                } else {
                    None
                },
                EventView::EndImage => if open.len() > 0 && open.last() is Image {
                    Some(open.drop_last())
                } else {
                    None
                },
                _ => Some(open),
            },
        }
    }
}

/// The starts and ends of links and images in `events` are balanced and
/// properly nested.
pub open spec fn balanced(events: Seq<EventView>) -> bool {
    open_tags(events) == Some(Seq::<Tag>::empty())
}

/// The stack of the machine fits the open tags: it holds one frame for
/// each open link, in order. With `settled`, the innermost frame is
/// moreover known to be outside any image unless an image is open in it.
pub open spec fn fits(tags: Seq<Tag>, stack: Seq<FrameView>, settled: bool) -> bool
    decreases tags.len(),
{
    if tags.len() == 0 {
        stack.len() == 0
    } else if tags.last() is Image {
        fits(tags.drop_last(), stack, false)
    } else {
        &&& stack.len() > 0
        &&& settled ==> stack.last().context == Where::InLink
        &&& fits(tags.drop_last(), stack.drop_last(), true)
    }
}

proof fn lemma_fits_weaken(tags: Seq<Tag>, stack: Seq<FrameView>)
    requires
        fits(tags, stack, true),
    ensures
        fits(tags, stack, false),
{
}

proof fn lemma_fits_settle(tags: Seq<Tag>, stack: Seq<FrameView>)
    requires
        fits(tags, stack, false),
        stack.len() > 0 ==> stack.last().context == Where::InLink,
    ensures
        fits(tags, stack, true),
{
}

/// Replacing the innermost frame keeps the fit, as far as the new frame
/// allows.
proof fn lemma_fits_new_top(
    tags: Seq<Tag>,
    stack: Seq<FrameView>,
    settled: bool,
    frame: FrameView,
    still: bool,
)
    requires
        fits(tags, stack, settled),
        stack.len() > 0,
        still ==> frame.context == Where::InLink || (settled && frame.context
            == stack.last().context),
    ensures
        fits(tags, stack.drop_last().push(frame), still),
    decreases tags.len(),
{
    let next = stack.drop_last().push(frame);
    if tags.len() == 0 {
    } else if tags.last() is Image {
        lemma_fits_new_top(tags.drop_last(), stack, false, frame, false);
    } else {
        assert(next.drop_last() =~= stack.drop_last());
    }
}

/// While the starts and ends seen so far nest properly, the stack of the
/// machine fits the tags that are open.
pub proof fn lemma_run_fits(events: Seq<EventView>)
    requires
        open_tags(events) is Some,
    ensures
        fits(open_tags(events).unwrap(), MachineView::initial().run(events).stack, true),
    decreases events.len(),
{
    if events.len() > 0 {
        let before = events.drop_last();
        let event = events.last();
        lemma_run_fits(before);
        let tags = open_tags(before).unwrap();
        let state = MachineView::initial().run(before);
        let stack = state.stack;
        let after = state.step(event).stack;
        match event {
            EventView::StartLink { .. } => {
                assert(after.drop_last() =~= stack);
                assert(tags.push(Tag::Link).drop_last() =~= tags);
            },
            EventView::StartImage { .. } => {
                assert(tags.push(Tag::Image).drop_last() =~= tags);
                if stack.len() > 0 && stack.last().context == Where::InLink {
                    lemma_fits_new_top(tags, stack, true, after.last(), false);
                    assert(after =~= stack.drop_last().push(after.last()));
                } else {
                    lemma_fits_weaken(tags, stack);
                }
            },
            EventView::EndImage => {
                if stack.len() > 0 && stack.last().context == Where::InImageInLink {
                    lemma_fits_new_top(tags.drop_last(), stack, false, after.last(), true);
                    assert(after =~= stack.drop_last().push(after.last()));
                } else {
                    lemma_fits_settle(tags.drop_last(), stack);
                }
            },
            EventView::EndLink => {},
            EventView::Text(_) => {
                if stack.len() > 0 {
                    lemma_fits_new_top(tags, stack, true, after.last(), true);
                    assert(after =~= stack.drop_last().push(after.last()));
                }
            },
            EventView::Code(_) => {
                if stack.len() > 0 {
                    lemma_fits_new_top(tags, stack, true, after.last(), true);
                    assert(after =~= stack.drop_last().push(after.last()));
                }
            },
            EventView::Other => {},
        }
    }
}

/// On a balanced stream the machine ends as it began, with no link open:
/// no frame is left over and none is missed, and the extraction succeeds.
pub proof fn lemma_balanced_stream_leaves_no_frame(events: Seq<EventView>)
    requires
        balanced(events),
    ensures
        MachineView::initial().stack.len() == 0,
        MachineView::initial().run(events).stack.len() == 0,
        extraction(events) == Ok::<Seq<LinkView>, ExtractError>(
            MachineView::initial().run(events).links,
        ),
{
    lemma_run_fits(events);
}

} // verus!
