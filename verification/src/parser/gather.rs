//! What the extraction machine gathers between the start and the end of
//! a link, and of the image nested in it.

use vstd::prelude::*;
use crate::link::model::{LinkDraft, LinkKind, LinkView};
use crate::parser::extract_links::{FrameView, MachineView, Where};
use crate::parser::EventView;

verus! {

/// The event neither starts nor ends a link or an image.
pub open spec fn is_plain(event: EventView) -> bool {
    event is Text || event is Code || event is Other
}

/// No event of `events` starts or ends a link or an image.
pub open spec fn all_plain(events: Seq<EventView>) -> bool {
    forall|i: int| 0 <= i < events.len() ==> is_plain(#[trigger] events[i])
}

/// The text of a `Text` event, nothing for any other.
pub open spec fn text_of(event: EventView) -> Seq<char> {
    match event {
        EventView::Text(text) => text,
        _ => Seq::empty(),
    }
}

/// The code of a `Code` event, nothing for any other.
pub open spec fn code_of(event: EventView) -> Seq<char> {
    match event {
        EventView::Code(code) => code,
        _ => Seq::empty(),
    }
}

/// The texts of the `Text` events of `events`, joined in order with no
/// separator.
pub open spec fn texts(events: Seq<EventView>) -> Seq<char>
    decreases events.len(),
{
    if events.len() == 0 {
        Seq::empty()
    } else {
        texts(events.drop_last()) + text_of(events.last())
    }
}

/// The texts and codes of the `Text` and `Code` events of `events`, joined
/// in order with no separator.
pub open spec fn texts_and_codes(events: Seq<EventView>) -> Seq<char>
    decreases events.len(),
{
    if events.len() == 0 {
        Seq::empty()
    } else {
        texts_and_codes(events.drop_last()) + text_of(events.last()) + code_of(events.last())
    }
}

/// Running two streams one after the other is running them joined.
pub proof fn lemma_run_concat(state: MachineView, first: Seq<EventView>, second: Seq<EventView>)
    ensures
        state.run(first + second) == state.run(first).run(second),
    decreases second.len(),
{
    if second.len() == 0 {
        assert(first + second =~= first);
    } else {
        lemma_run_concat(state, first, second.drop_last());
        assert((first + second).drop_last() =~= first + second.drop_last());
        assert((first + second).last() == second.last());
    }
}

/// Running a stream of one event is one step.
pub proof fn lemma_run_one(state: MachineView, event: EventView)
    ensures
        state.run(seq![event]) == state.step(event),
{
    assert(seq![event].drop_last() =~= Seq::<EventView>::empty());
    assert(state.run(seq![event].drop_last()) == state);
}

/// Outside any image, a link gathers the texts and codes of plain events
/// as its display text.
pub proof fn lemma_gathers_in_link(state: MachineView, events: Seq<EventView>)
    requires
        state.stack.len() > 0,
        state.stack.last().context == Where::InLink,
        all_plain(events),
    ensures
        state.run(events) == state.with_top(
            FrameView {
                context: Where::InLink,
                draft: state.stack.last().draft.with_text(texts_and_codes(events)),
            },
        ),
    decreases events.len(),
{
    let top = state.stack.last();
    if events.len() == 0 {
        assert(top.draft.with_text(Seq::empty()).text =~= top.draft.text);
        assert(state.with_top(top).stack =~= state.stack);
    } else {
        let before = events.drop_last();
        lemma_gathers_in_link(state, before);
        let mid = state.run(before);
        let event = events.last();
        assert(is_plain(event));
        let gathered = top.draft.with_text(texts_and_codes(before));
        assert(mid.stack.last().draft == gathered);
        let expected = top.draft.with_text(texts_and_codes(events));
        assert(expected.text =~= gathered.text + text_of(event) + code_of(event));
        assert(gathered.text + Seq::<char>::empty() =~= gathered.text);
        assert(mid.step(event).stack =~= state.with_top(
            FrameView { context: Where::InLink, draft: expected },
        ).stack);
    }
}

/// Within an image, a link gathers the texts and codes of plain events as
/// the alt text of the image.
pub proof fn lemma_gathers_in_image(state: MachineView, events: Seq<EventView>)
    requires
        state.stack.len() > 0,
        state.stack.last().context == Where::InImageInLink,
        state.stack.last().draft.image is Some,
        all_plain(events),
    ensures
        state.run(events) == state.with_top(
            FrameView {
                context: Where::InImageInLink,
                draft: state.stack.last().draft.with_image_alt_text(texts_and_codes(events)),
            },
        ),
    decreases events.len(),
{
    let top = state.stack.last();
    if events.len() == 0 {
        let same = top.draft.with_image_alt_text(Seq::empty());
        assert(same.image.unwrap().alt_text =~= top.draft.image_or_empty().alt_text);
        assert(same.image.unwrap() == top.draft.image.unwrap());
        assert(state.with_top(top).stack =~= state.stack);
    } else {
        let before = events.drop_last();
        lemma_gathers_in_image(state, before);
        let mid = state.run(before);
        let event = events.last();
        assert(is_plain(event));
        let gathered = top.draft.with_image_alt_text(texts_and_codes(before));
        assert(mid.stack.last().draft == gathered);
        let expected = top.draft.with_image_alt_text(texts_and_codes(events));
        assert(expected.image.unwrap().alt_text =~= gathered.image.unwrap().alt_text + text_of(
            event,
        ) + code_of(event));
        assert(gathered.image.unwrap().alt_text + Seq::<char>::empty()
            =~= gathered.image.unwrap().alt_text);
        assert(mid.step(event).stack =~= state.with_top(
            FrameView { context: Where::InImageInLink, draft: expected },
        ).stack);
    }
}

/// A stream without `Code` events has its texts as its texts and codes.
pub proof fn lemma_texts_without_code(events: Seq<EventView>)
    requires
        forall|i: int| 0 <= i < events.len() ==> !((#[trigger] events[i]) is Code),
    ensures
        texts_and_codes(events) == texts(events),
    decreases events.len(),
{
    if events.len() > 0 {
        let before = events.drop_last();
        assert forall|i: int| 0 <= i < before.len() implies !((#[trigger] before[i]) is Code) by {
            assert(before[i] == events[i]);
        }
        lemma_texts_without_code(before);
        assert(!(events[events.len() - 1] is Code));
        assert(texts_and_codes(events) =~= texts(events));
    }
}

/// A link that contains no image yields a link without an image, whose
/// display text is the texts and codes between its start and its end,
/// joined in order. This holds wherever the link stands: whatever is open
/// stays open, and the link joins those found before it.
pub proof fn lemma_link_without_image(
    state: MachineView,
    link_kind: LinkKind,
    url: Seq<char>,
    title: Seq<char>,
    id: Seq<char>,
    body: Seq<EventView>,
) -> (link: LinkView)
    requires
        all_plain(body),
    ensures
        state.run(
            seq![EventView::StartLink { link_kind, url, title, id }] + body
                + seq![EventView::EndLink],
        ) == (MachineView { stack: state.stack, links: state.links.push(link) }),
        link == LinkDraft::seeded(link_kind, url, title, id).with_text(
            texts_and_codes(body),
        ).built(),
        link.image is None,
        link.text == texts_and_codes(body),
{
    let start = EventView::StartLink { link_kind, url, title, id };
    let seed = LinkDraft::seeded(link_kind, url, title, id);
    let opened = state.step(start);
    lemma_run_one(state, start);
    lemma_run_concat(state, seq![start], body);
    lemma_gathers_in_link(opened, body);
    let gathered = opened.run(body);
    lemma_run_concat(state, seq![start] + body, seq![EventView::EndLink]);
    lemma_run_one(gathered, EventView::EndLink);
    let draft = seed.with_text(texts_and_codes(body));
    assert(draft.text =~= texts_and_codes(body));
    assert(gathered.stack.drop_last() =~= state.stack);
    draft.built()
}

/// A link that contains exactly one image yields a link whose image has,
/// as its alt text, what stands between the start and the end of that
/// image: the texts between them, joined in order, and with them the
/// inline code, which is taken as text. Where no inline code stands
/// between them, the alt text is the texts alone. What stands around the
/// image is the display text of the link.
pub proof fn lemma_link_with_one_image(
    state: MachineView,
    link_kind: LinkKind,
    url: Seq<char>,
    title: Seq<char>,
    id: Seq<char>,
    before_image: Seq<EventView>,
    image_kind: LinkKind,
    image_url: Seq<char>,
    image_title: Seq<char>,
    image_id: Seq<char>,
    in_image: Seq<EventView>,
    after_image: Seq<EventView>,
) -> (link: LinkView)
    requires
        all_plain(before_image),
        all_plain(in_image),
        all_plain(after_image),
    ensures
        state.run(
            seq![EventView::StartLink { link_kind, url, title, id }] + before_image
                + seq![
                EventView::StartImage {
                    link_kind: image_kind,
                    url: image_url,
                    title: image_title,
                    id: image_id,
                },
            ] + in_image + seq![EventView::EndImage] + after_image + seq![EventView::EndLink],
        ) == (MachineView { stack: state.stack, links: state.links.push(link) }),
        link.image is Some,
        link.image.unwrap().alt_text == texts_and_codes(in_image),
        (forall|i: int| 0 <= i < in_image.len() ==> !((#[trigger] in_image[i]) is Code))
            ==> link.image.unwrap().alt_text == texts(in_image),
        link.image.unwrap().url == image_url,
        link.text == texts_and_codes(before_image) + texts_and_codes(after_image),
{
    let start = EventView::StartLink { link_kind, url, title, id };
    let image_start = EventView::StartImage {
        link_kind: image_kind,
        url: image_url,
        title: image_title,
        id: image_id,
    };
    let s1 = seq![start];
    let s2 = s1 + before_image;
    let s3 = s2 + seq![image_start];
    let s4 = s3 + in_image;
    let s5 = s4 + seq![EventView::EndImage];
    let s6 = s5 + after_image;
    let s7 = s6 + seq![EventView::EndLink];

    let m1 = state.step(start);
    lemma_run_one(state, start);
    lemma_run_concat(state, s1, before_image);
    lemma_gathers_in_link(m1, before_image);
    let m2 = m1.run(before_image);
    lemma_run_concat(state, s2, seq![image_start]);
    lemma_run_one(m2, image_start);
    let m3 = m2.step(image_start);
    lemma_run_concat(state, s3, in_image);
    lemma_gathers_in_image(m3, in_image);
    let m4 = m3.run(in_image);
    lemma_run_concat(state, s4, seq![EventView::EndImage]);
    lemma_run_one(m4, EventView::EndImage);
    let m5 = m4.step(EventView::EndImage);
    lemma_run_concat(state, s5, after_image);
    lemma_gathers_in_link(m5, after_image);
    let m6 = m5.run(after_image);
    lemma_run_concat(state, s6, seq![EventView::EndLink]);
    lemma_run_one(m6, EventView::EndLink);

    let draft = m6.stack.last().draft;
    assert(draft.text =~= texts_and_codes(before_image) + texts_and_codes(after_image));
    assert(draft.image.unwrap().alt_text =~= texts_and_codes(in_image));
    assert(m6.stack.drop_last() =~= state.stack);
    if forall|i: int| 0 <= i < in_image.len() ==> !((#[trigger] in_image[i]) is Code) {
        lemma_texts_without_code(in_image);
    }
    draft.built()
}

/// No event of `events` starts an image.
pub open spec fn starts_no_image(events: Seq<EventView>) -> bool {
    forall|i: int| 0 <= i < events.len() ==> !((#[trigger] events[i]) is StartImage)
}

/// No link of the state, open or finished, has an image, and the machine
/// is in no image.
pub open spec fn holds_no_image(state: MachineView) -> bool {
    &&& forall|i: int|
        0 <= i < state.stack.len() ==> (#[trigger] state.stack[i]).draft.image is None
            && state.stack[i].context == Where::InLink
    &&& forall|i: int| 0 <= i < state.links.len() ==> (#[trigger] state.links[i]).image is None
}

/// Where no image starts, no link gets an image: every link of a stream
/// without images is a link without an image.
pub proof fn lemma_no_image_without_start(state: MachineView, events: Seq<EventView>)
    requires
        holds_no_image(state),
        starts_no_image(events),
    ensures
        holds_no_image(state.run(events)),
    decreases events.len(),
{
    if events.len() > 0 {
        let before = events.drop_last();
        assert(starts_no_image(before)) by {
            assert forall|i: int| 0 <= i < before.len() implies !((#[trigger] before[i])
                is StartImage) by {
                assert(before[i] == events[i]);
            }
        }
        lemma_no_image_without_start(state, before);
        let mid = state.run(before);
        let event = events.last();
        assert(!(event is StartImage)) by {
            assert(event == events[events.len() - 1]);
        }
        let end = mid.step(event);
        assert forall|i: int| 0 <= i < end.stack.len() implies (#[trigger] end.stack[i]).draft.image
            is None && end.stack[i].context == Where::InLink by {
            if i < mid.stack.len() - 1 {
                assert(end.stack[i] == mid.stack[i]);
            } else if i < mid.stack.len() {
                assert(mid.stack[i].draft.image is None);
            }
        }
        assert forall|i: int| 0 <= i < end.links.len() implies (#[trigger] end.links[i]).image
            is None by {
            if i < mid.links.len() {
                assert(end.links[i] == mid.links[i]);
            } else {
                assert(mid.stack.last().draft.image is None);
            }
        }
    }
}

/// The links extracted from a stream in which no image starts have no
/// image.
pub proof fn lemma_stream_without_images(events: Seq<EventView>)
    requires
        starts_no_image(events),
    ensures
        forall|i: int|
            0 <= i < MachineView::initial().run(events).links.len() ==> (
            #[trigger] MachineView::initial().run(events).links[i]).image is None,
{
    lemma_no_image_without_start(MachineView::initial(), events);
}

} // verus!
