//! The reference definitions of a document, written one per line.

use vstd::prelude::*;
use vstd::string::*;
use crate::link::write::line;
use crate::parser::{refdef_views, RefDef, RefDefView};

verus! {

/// The definitions of `defs`, one per line, in order.
pub open spec fn definition_lines(defs: Seq<RefDefView>) -> Seq<char>
    decreases defs.len(),
{
    if defs.len() == 0 {
        Seq::empty()
    } else {
        definition_lines(defs.drop_last()) + line(
            defs.last().draft().built().reference_definition(),
        )
    }
}

/// Appends to `w` each definition of `defs` on a line of its own, as
/// `[label]: destination "title"`, without the title where there is none.
pub fn write_refdefs_to(defs: &Vec<RefDef>, w: &mut String)
    ensures
        final(w)@ == old(w)@ + definition_lines(refdef_views(defs@)),
{
    let ghost all = refdef_views(defs@);
    let mut i: usize = 0;
    assert(all.take(0) =~= Seq::<RefDefView>::empty());
    assert(w@ =~= old(w)@ + definition_lines(all.take(0)));
    while i < defs.len()
        invariant
            i <= defs.len(),
            all == refdef_views(defs@),
            w@ == old(w)@ + definition_lines(all.take(i as int)),
        decreases defs.len() - i,
    {
        let text = defs[i].to_link().to_reference_definition();
        w.append(text.as_str());
        w.append("\n");
        proof {
            let next = all.take(i + 1);
            assert(next.drop_last() =~= all.take(i as int));
            assert(next.last() == defs@[i as int]@);
            assert(w@ =~= old(w)@ + definition_lines(next));
        }
        i += 1;
    }
    assert(all.take(defs.len() as int) =~= all);
}

} // verus!
