//! The listing entry point: sorts the collection by recency and renders it
//! in the caller-selected mode (structured document, plain text, or
//! colorized text).

use vstd::prelude::*;
use vstd::string::StringExecFns;

use crate::json::sessions_json;
use crate::model::{all_wf, Session};
use crate::render::{render_sessions, sessions_text};
use crate::sort::{sort_sessions, sorted_by_timestamp};

verus! {

/// The listing's full output for an already-ordered collection: the
/// structured document on its own line when requested, else the plain or the
/// colorized text of every session in order.
pub open spec fn listing_text(ss: Seq<Session>, json: bool, no_formatting: bool) -> Seq<char> {
    if json {
        sessions_json(ss) + "\n"@
    } else if no_formatting {
        sessions_text(ss, false)
    } else {
        sessions_text(ss, true)
    }
}

/// Lists the whole collection: sorts it by timestamp, ascending when
/// `reverse` is requested and descending otherwise, and renders it in the
/// selected mode. The output is the rendering of some ordering of exactly
/// the given sessions that is sorted in the requested direction; sessions
/// with equal timestamps may appear in either relative order.
pub fn list_sessions_long(sessions: Vec<Session>, json: bool, no_formatting: bool, reverse: bool) -> (r:
    String)
    requires
        all_wf(sessions@),
    ensures
        exists|p: Seq<Session>|
            {
                &&& #[trigger] p.to_multiset() == sessions@.to_multiset()
                &&& sorted_by_timestamp(p, reverse)
                &&& r@ == listing_text(p, json, no_formatting)
            },
{
    let ghost orig = sessions@;
    let mut sessions = sessions;
    sort_sessions(&mut sessions, reverse);
    proof {
        broadcast use vstd::seq_lib::group_to_multiset_ensures;

        assert forall|i: int| 0 <= i < sessions@.len() implies #[trigger] sessions@[i].wf() by {
            let x = sessions@[i];
            assert(sessions@.contains(x));
            assert(sessions@.to_multiset().count(x) > 0);
            assert(orig.to_multiset().count(x) > 0);
            assert(orig.contains(x));
            let j = choose|j: int| 0 <= j < orig.len() && orig[j] == x;
            assert(orig[j].wf());
        }
    }
    let out: String;
    if json {
        let mut doc = crate::json::render_sessions_json(&sessions);
        doc.append("\n");
        out = doc;
    } else if no_formatting {
        out = render_sessions(&sessions, false);
    } else {
        out = render_sessions(&sessions, true);
    }
    proof {
        let p = sessions@;
        assert(p.to_multiset() == orig.to_multiset());
        assert(sorted_by_timestamp(p, reverse));
        assert(out@ == listing_text(p, json, no_formatting));
    }
    out
}

/// Rendering the same session collection twice in the same mode produces
/// byte-identical output: each renderer's output is a function of the
/// collection and the mode alone.
pub proof fn lemma_rendering_idempotent(
    ss: Seq<Session>,
    json: bool,
    no_formatting: bool,
    out1: Seq<char>,
    out2: Seq<char>,
)
    requires
        out1 == listing_text(ss, json, no_formatting),
        out2 == listing_text(ss, json, no_formatting),
    ensures
        out1 == out2,
{
}

} // verus!
