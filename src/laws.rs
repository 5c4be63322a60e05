//! Laws of the timeline, stated over the same predicates that the event
//! handlers' contracts use (`handled`), and proved from them.

use vstd::prelude::*;
use crate::event::{content_is_malformed, content_is_relation, RawContent, RawEvent};
use crate::item::ItemModel;
use crate::timeline::{
    contains_event, contains_reaction, dropped, edit_applies, edit_result, handled,
    has_echo, has_event_id, has_reaction_id, is_known, item_reactions, model_wf,
    TimelineSettings,
};

verus! {

/// An index of an item that carries the event id `target`.
proof fn lemma_target_index(s: Seq<ItemModel>, next: u64, target: Seq<char>) -> (i: int)
    requires
        model_wf(s, next),
        contains_event(s, target),
    ensures
        0 <= i < s.len(),
        has_event_id(s[i], target),
{
    choose|i: int| 0 <= i < s.len() && has_event_id(s[i], target)
}

/// Item creation: an accepted event that stands on its own, is not yet
/// known and confirms no local echo adds exactly one item; an edit, a
/// reaction or a redaction adds none; the confirmation of a local echo adds none.
pub proof fn lemma_item_creation(
    s: Seq<ItemModel>,
    next: u64,
    settings: TimelineSettings,
    ev: RawEvent,
    accepted: bool,
    at_front: bool,
    s2: Seq<ItemModel>,
    next2: u64,
)
    requires
        model_wf(s, next),
        handled(s, next, settings, ev, accepted, at_front, s2, next2),
    ensures
        content_is_relation(ev.content) ==> s2.len() == s.len(),
        !content_is_relation(ev.content) && !dropped(settings, ev, accepted) && !is_known(
            s,
            ev.event_id@,
        ) && !(ev.transaction_id is Some && has_echo(s, ev.transaction_id->0@)) ==> s2.len()
            == s.len() + 1,
        !content_is_relation(ev.content) && !content_is_malformed(ev.content) && !dropped(
            settings,
            ev,
            accepted,
        ) && !is_known(s, ev.event_id@) && ev.transaction_id is Some && has_echo(
            s,
            ev.transaction_id->0@,
        ) ==> s2.len() == s.len(),
        s2.len() <= s.len() + 1,
        next2 <= next + 1,
{
    if is_known(s, ev.event_id@) || dropped(settings, ev, accepted) {
    } else {
        match ev.content {
            RawContent::Edit { target, .. } => {
                if contains_event(s, target@) {
                    let i = lemma_target_index(s, next, target@);
                }
            },
            RawContent::Reaction { target, .. } => {
                if contains_event(s, target@) {
                    let i = lemma_target_index(s, next, target@);
                }
            },
            RawContent::Redaction { target } => {
                if contains_event(s, target@) {
                    let i = lemma_target_index(s, next, target@);
                } else if contains_reaction(s, target@) {
                    lemma_first_reaction_exists(s, target@);
                }
            },
            _ => {
                if ev.transaction_id is Some && has_echo(s, ev.transaction_id->0@) {
                    lemma_first_echo_exists(s, ev.transaction_id->0@);
                }
            },
        }
    }
}

proof fn lemma_first_echo_exists(s: Seq<ItemModel>, txn: Seq<char>)
    requires
        has_echo(s, txn),
    ensures
        exists|i: int| crate::timeline::first_echo(s, txn, i),
    decreases s.len(),
{
    if crate::timeline::is_echo_for(s[0], txn) {
        assert(crate::timeline::first_echo(s, txn, 0));
    } else {
        let w = choose|i: int| 0 <= i < s.len() && crate::timeline::is_echo_for(s[i], txn);
        assert(has_echo(s.drop_first(), txn)) by {
            assert(s.drop_first()[w - 1] == s[w]);
        }
        lemma_first_echo_exists(s.drop_first(), txn);
        let j = choose|j: int| crate::timeline::first_echo(s.drop_first(), txn, j);
        assert forall|k: int| 0 <= k < j + 1 implies !crate::timeline::is_echo_for(#[trigger] s[k], txn) by {
            if k > 0 {
                assert(s[k] == s.drop_first()[k - 1]);
            }
        }
        assert(crate::timeline::first_echo(s, txn, j + 1));
    }
}

proof fn lemma_first_reaction_in_item(m: ItemModel, id: Seq<char>)
    requires
        has_reaction_id(m, id),
    ensures
        exists|k: int|
            0 <= k < item_reactions(m).len() && item_reactions(m)[k].event_id@ == id && forall|k2: int|
                0 <= k2 < k ==> item_reactions(m)[k2].event_id@ != id,
    decreases item_reactions(m).len(),
{
    let rs = item_reactions(m);
    let w = choose|k: int| 0 <= k < rs.len() && rs[k].event_id@ == id;
    lemma_min_index(rs, id, w);
}

proof fn lemma_min_index(rs: Seq<crate::item::ReactionEntry>, id: Seq<char>, w: int) -> (k: int)
    requires
        0 <= w < rs.len(),
        rs[w].event_id@ == id,
    ensures
        0 <= k <= w,
        rs[k].event_id@ == id,
        forall|k2: int| 0 <= k2 < k ==> rs[k2].event_id@ != id,
    decreases w,
{
    if exists|k2: int| 0 <= k2 < w && rs[k2].event_id@ == id {
        let w2 = choose|k2: int| 0 <= k2 < w && rs[k2].event_id@ == id;
        lemma_min_index(rs, id, w2)
    } else {
        w
    }
}

proof fn lemma_first_reaction_exists(s: Seq<ItemModel>, id: Seq<char>)
    requires
        contains_reaction(s, id),
    ensures
        exists|i: int, k: int| crate::timeline::first_reaction(s, id, i, k),
    decreases s.len(),
{
    if has_reaction_id(s[0], id) {
        lemma_first_reaction_in_item(s[0], id);
        let k = choose|k: int|
            0 <= k < item_reactions(s[0]).len() && item_reactions(s[0])[k].event_id@ == id
                && forall|k2: int| 0 <= k2 < k ==> item_reactions(s[0])[k2].event_id@ != id;
        assert(crate::timeline::first_reaction(s, id, 0, k));
    } else {
        let w = choose|i: int| 0 <= i < s.len() && has_reaction_id(s[i], id);
        assert(contains_reaction(s.drop_first(), id)) by {
            assert(s.drop_first()[w - 1] == s[w]);
        }
        lemma_first_reaction_exists(s.drop_first(), id);
        let (j, k) = choose|j: int, k: int| crate::timeline::first_reaction(s.drop_first(), id, j, k);
        assert forall|a: int| 0 <= a < j + 1 implies !has_reaction_id(#[trigger] s[a], id) by {
            if a > 0 {
                assert(s[a] == s.drop_first()[a - 1]);
            }
        }
        assert(s[j + 1] == s.drop_first()[j]);
        assert(crate::timeline::first_reaction(s, id, j + 1, k));
    }
}

/// Redacting an item whose content is already redacted changes nothing, so
/// no diff is emitted for it.
pub proof fn lemma_redaction_idempotent(
    s: Seq<ItemModel>,
    next: u64,
    settings: TimelineSettings,
    ev: RawEvent,
    accepted: bool,
    at_front: bool,
    s2: Seq<ItemModel>,
    next2: u64,
    i: int,
)
    requires
        model_wf(s, next),
        ev.content is Redaction,
        0 <= i < s.len(),
        has_event_id(s[i], ev.content->Redaction_target@),
        s[i].content is Redacted,
        handled(s, next, settings, ev, accepted, at_front, s2, next2),
    ensures
        s2 == s,
        next2 == next,
{
    if is_known(s, ev.event_id@) || dropped(settings, ev, accepted) {
    } else {
        assert(s.update(i, crate::timeline::with_redaction(s[i])) =~= s);
    }
}

/// Applying the same edit twice: the second application changes nothing.
pub proof fn lemma_edit_idempotent(
    s0: Seq<ItemModel>,
    next0: u64,
    settings: TimelineSettings,
    ev: RawEvent,
    accepted: bool,
    at_front: bool,
    s1: Seq<ItemModel>,
    next1: u64,
    s2: Seq<ItemModel>,
    next2: u64,
)
    requires
        model_wf(s0, next0),
        ev.content is Edit,
        handled(s0, next0, settings, ev, accepted, at_front, s1, next1),
        handled(s1, next1, settings, ev, accepted, at_front, s2, next2),
    ensures
        s2 == s1,
        next2 == next1,
{
    let target = ev.content->Edit_target;
    let body = ev.content->Edit_body;
    if is_known(s0, ev.event_id@) || dropped(settings, ev, accepted) {
    } else if !contains_event(s0, target@) {
    } else {
        let i = lemma_target_index(s0, next0, target@);
        if edit_applies(s0[i], ev.sender) {
            let m = edit_result(s0[i], body);
            assert(s1 == s0.update(i, m));
            assert(m.event_id == s0[i].event_id);
            assert(item_reactions(m) == item_reactions(s0[i]));
            assert(!is_known(s1, ev.event_id@)) by {
                if contains_event(s1, ev.event_id@) {
                    let j = choose|j: int| 0 <= j < s1.len() && has_event_id(s1[j], ev.event_id@);
                    assert(has_event_id(s0[j], ev.event_id@));
                }
                if contains_reaction(s1, ev.event_id@) {
                    let j = choose|j: int| 0 <= j < s1.len() && has_reaction_id(s1[j], ev.event_id@);
                    assert(item_reactions(s1[j]) == item_reactions(s0[j]));
                    assert(has_reaction_id(s0[j], ev.event_id@));
                }
            }
            assert(has_event_id(s1[i], target@));
            assert(edit_applies(s1[i], ev.sender));
            assert(edit_result(s1[i], body) == s1[i]);
            assert(s1.update(i, s1[i]) =~= s1);
        }
    }
}

} // verus!
