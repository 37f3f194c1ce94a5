//! What `/compact` decides: how many recent messages it keeps, whether
//! there is anything older to compact, and the texts and notes of a
//! compaction.

use vstd::prelude::*;
use crate::num::{decimal, decimal_string, parse_uint, parse_uint_exec};
use crate::text::{chars_of, join, join_str, trim, trim_str, views};

verus! {

/// The number of recent messages `/compact` keeps: its first argument as
/// a number, 4 without one, at least 2.
pub open spec fn spec_keep_count(arg: Option<Seq<char>>) -> nat {
    let n: nat = match arg {
        Some(a) => match parse_uint(a, 10, usize::MAX as nat) {
            Some(x) => x,
            None => 4,
        },
        None => 4,
    };
    if n < 2 {
        2
    } else {
        n
    }
}

pub fn keep_count(arg: Option<&str>) -> (r: usize)
    ensures
        r == spec_keep_count(
            match arg {
                Some(a) => Some(a@),
                None => None,
            },
        ),
{
    let n: usize = match arg {
        Some(a) => {
            let v = chars_of(a);
            proof {
                assert(v@.subrange(0, v.len() as int) =~= v@);
            }
            match parse_uint_exec(&v, 0, v.len(), 10, usize::MAX as u64) {
                Some(x) => x as usize,
                None => 4,
            }
        },
        None => 4,
    };
    if n < 2 {
        2
    } else {
        n
    }
}

/// What `/compact` does next.
pub enum CompactStep {
    /// Tell the user why nothing is done.
    Note(String),
    /// Compact the messages before the kept ones: summarise `older_text`,
    /// keep `recent_text` beside the summary, add `system_note` to the
    /// view and tell the user `note`.
    Start { older_text: String, recent_text: String, system_note: String, note: String },
}

/// The messages as one text: `role: content` for each, one per line.
pub open spec fn history_text(msgs: Seq<(Seq<char>, Seq<char>)>) -> Seq<char> {
    join(msgs.map_values(|m: (Seq<char>, Seq<char>)| m.0 + ": "@ + m.1), "\n"@)
}

pub enum StepView {
    Note(Seq<char>),
    Start { older_text: Seq<char>, recent_text: Seq<char>, system_note: Seq<char>, note: Seq<char> },
}

pub open spec fn step_view(s: CompactStep) -> StepView {
    match s {
        CompactStep::Note(m) => StepView::Note(m@),
        CompactStep::Start { older_text, recent_text, system_note, note } => StepView::Start {
            older_text: older_text@,
            recent_text: recent_text@,
            system_note: system_note@,
            note: note@,
        },
    }
}

/// The step of `/compact` keeping `keep` recent messages: a note when
/// there is no session store, its history cannot be read, it holds no
/// more than `keep` messages, or there is no model to summarise with;
/// else the older messages (all but the last `keep`) are compacted.
pub open spec fn spec_compact_step(
    has_store: bool,
    history: Option<Seq<(Seq<char>, Seq<char>)>>,
    has_llm: bool,
    keep: nat,
) -> StepView {
    if !has_store {
        StepView::Note("session store unavailable"@)
    } else {
        match history {
            None => StepView::Note("failed to load session history"@),
            Some(h) => if h.len() <= keep {
                StepView::Note("nothing to compact"@)
            } else if !has_llm {
                StepView::Note("no LLM available for AI compaction"@)
            } else {
                let cutoff = h.len() - keep;
                StepView::Start {
                    older_text: history_text(h.take(cutoff)),
                    recent_text: history_text(h.skip(cutoff)),
                    system_note: "compacting "@ + decimal(cutoff as nat) + " message(s) into checkpoint..."@,
                    note: "compacting session history, keeping "@ + decimal(keep) + " recent message(s)"@,
                }
            },
        }
    }
}

pub open spec fn pairs_view(v: Seq<(String, String)>) -> Seq<(Seq<char>, Seq<char>)> {
    v.map_values(|m: (String, String)| (m.0@, m.1@))
}

fn history_text_of(msgs: &Vec<(String, String)>, from: usize, to: usize) -> (r: String)
    requires
        from <= to <= msgs.len(),
    ensures
        r@ == history_text(pairs_view(msgs@).subrange(from as int, to as int)),
{
    let ghost part = pairs_view(msgs@).subrange(from as int, to as int);
    let ghost want = part.map_values(|m: (Seq<char>, Seq<char>)| m.0 + ": "@ + m.1);
    let mut ls: Vec<String> = Vec::new();
    let mut i: usize = from;
    while i < to
        invariant
            from <= i <= to <= msgs.len(),
            part == pairs_view(msgs@).subrange(from as int, to as int),
            want == part.map_values(|m: (Seq<char>, Seq<char>)| m.0 + ": "@ + m.1),
            views(ls@) == want.take(i - from),
        decreases to - i,
    {
        let mut l = msgs[i].0.clone();
        l.append(": ");
        l.append(msgs[i].1.as_str());
        let ghost before = views(ls@);
        ls.push(l);
        proof {
            assert(part[i - from] == (msgs@[i as int].0@, msgs@[i as int].1@));
            assert(views(ls@) =~= before.push(l@));
            assert(want.take(i + 1 - from) =~= want.take(i - from).push(want[i - from]));
        }
        i += 1;
    }
    proof {
        assert(want.take(to - from) =~= want);
    }
    join_str(&ls, "\n")
}

/// The step of `/compact` (see `spec_compact_step`); `history` holds each
/// message's role and content.
pub fn compact_step(
    has_store: bool,
    history: Option<&Vec<(String, String)>>,
    has_llm: bool,
    keep: usize,
) -> (r: CompactStep)
    ensures
        step_view(r) == spec_compact_step(
            has_store,
            match history {
                Some(h) => Some(pairs_view(h@)),
                None => None,
            },
            has_llm,
            keep as nat,
        ),
{
    if !has_store {
        return CompactStep::Note(String::from_str("session store unavailable"));
    }
    let h = match history {
        Some(h) => h,
        None => return CompactStep::Note(String::from_str("failed to load session history")),
    };
    if h.len() <= keep {
        return CompactStep::Note(String::from_str("nothing to compact"));
    }
    if !has_llm {
        return CompactStep::Note(String::from_str("no LLM available for AI compaction"));
    }
    let cutoff = h.len() - keep;
    let older_text = history_text_of(h, 0, cutoff);
    let recent_text = history_text_of(h, cutoff, h.len());
    let mut system_note = String::from_str("compacting ");
    system_note.append(decimal_string(cutoff as u64).as_str());
    system_note.append(" message(s) into checkpoint...");
    let mut note = String::from_str("compacting session history, keeping ");
    note.append(decimal_string(keep as u64).as_str());
    note.append(" recent message(s)");
    proof {
        let hv = pairs_view(h@);
        assert(hv.subrange(0, cutoff as int) =~= hv.take(cutoff as int));
        assert(hv.subrange(cutoff as int, h.len() as int) =~= hv.skip(cutoff as int));
    }
    CompactStep::Start { older_text, recent_text, system_note, note }
}


/// What becomes of the model's answer to a compaction: a summary that
/// is more than white space is kept, trimmed, as the checkpoint beside the
/// recent messages' text; an empty answer or a failed run keeps nothing.
pub fn compaction_checkpoint(result: &Result<String, String>) -> (r: Option<String>)
    ensures
        match result {
            Ok(summary) => if trim(summary@).len() > 0 {
                r matches Some(t) && t@ == trim(summary@)
            } else {
                r is None
            },
            Err(_) => r is None,
        },
{
    match result {
        Ok(summary) => {
            let t = trim_str(summary.as_str());
            if t.as_str().unicode_len() > 0 {
                Some(t)
            } else {
                None
            }
        },
        Err(_) => None,
    }
}

} // verus!
