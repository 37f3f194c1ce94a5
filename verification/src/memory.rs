//! How a recorded memory entry is listed.

use vstd::prelude::*;
use crate::text::{join, join_str, views};

verus! {

/// A memory entry: the day it was recorded (may be empty), its text and
/// its tags.
pub struct MemoryEntry {
    pub date: String,
    pub content: String,
    pub tags: Vec<String>,
}

/// An entry as a list item: the date in brackets when known, the text,
/// then each tag after a `#`.
pub open spec fn spec_format_entry(date: Seq<char>, content: Seq<char>, tags: Seq<Seq<char>>) -> Seq<char> {
    let tag_str = if tags.len() == 0 {
        Seq::empty()
    } else {
        " "@ + join(Seq::new(tags.len(), |i: int| "#"@ + tags[i]), " "@)
    };
    if date.len() == 0 {
        "  - "@ + content + tag_str
    } else {
        "  - ["@ + date + "] "@ + content + tag_str
    }
}

pub fn format_entry(e: &MemoryEntry) -> (r: String)
    ensures
        r@ == spec_format_entry(e.date@, e.content@, views(e.tags@)),
{
    let ghost tv = views(e.tags@);
    let mut tagged: Vec<String> = Vec::new();
    let mut i: usize = 0;
    while i < e.tags.len()
        invariant
            tv == views(e.tags@),
            i <= e.tags.len(),
            views(tagged@) =~= Seq::new(tv.len(), |k: int| "#"@ + tv[k]).take(i as int),
        decreases e.tags.len() - i,
    {
        let mut t = String::from_str("#");
        t.append(e.tags[i].as_str());
        let ghost before = views(tagged@);
        tagged.push(t);
        proof {
            assert(views(tagged@) =~= before.push(t@));
        }
        i += 1;
    }
    proof {
        assert(Seq::new(tv.len(), |k: int| "#"@ + tv[k]).take(e.tags.len() as int) =~= Seq::new(
            tv.len(),
            |k: int| "#"@ + tv[k],
        ));
    }
    let ghost tagged_view = Seq::new(tv.len(), |k: int| "#"@ + tv[k]);
    assert(views(tagged@) == tagged_view);
    let mut r = if e.date.unicode_len() > 0 {
        let mut d = String::from_str("  - [");
        d.append(e.date.as_str());
        d.append("] ");
        d
    } else {
        String::from_str("  - ")
    };
    r.append(e.content.as_str());
    if e.tags.len() > 0 {
        r.append(" ");
        let joined = join_str(&tagged, " ");
        assert(joined@ == join(tagged_view, " "@));
        r.append(joined.as_str());
    }
    proof {
        if e.date@.len() == 0 && tv.len() == 0 {
            assert(r@ =~= spec_format_entry(e.date@, e.content@, tv));
        } else if e.date@.len() == 0 {
            assert(r@ =~= spec_format_entry(e.date@, e.content@, tv));
        } else if tv.len() == 0 {
            assert(r@ =~= spec_format_entry(e.date@, e.content@, tv));
        } else {
            assert(r@ =~= spec_format_entry(e.date@, e.content@, tv));
        }
    }
    r
}

} // verus!
