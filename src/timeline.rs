//! The aggregation engine: it owns the ordered item list, applies each event
//! by its kind and reports every change as the diff that reproduces it.

use vstd::prelude::*;
use crate::event::{
    content_is_malformed, content_type, filter_passes, RawContent, RawEvent,
    TimelineEventTypeFilter,
};
use crate::item::{
    apply_diff_model, copy_string_opt, duplicate_reactions, items_model, ContentModel, DiffModel, ItemModel,
    OtherStateContent, ReactionEntry, SendState, TimelineItem, TimelineItemContent, VectorDiff,
};

verus! {

/// The configuration of a timeline, fixed when it is built.
#[derive(Clone, Debug)]
pub struct TimelineSettings {
    /// Whether an event that fails to parse is shown as a `FailedToParse` item.
    pub add_failed_to_parse: bool,
    /// Which event types are shown.
    pub event_type_filter: TimelineEventTypeFilter,
}

/// The ordered items of one conversation.
pub struct Timeline {
    settings: TimelineSettings,
    items: Vec<TimelineItem>,
    next_internal_id: u64,
}

pub open spec fn has_event_id(m: ItemModel, id: Seq<char>) -> bool {
    m.event_id is Some && m.event_id->0@ == id
}

pub open spec fn contains_event(s: Seq<ItemModel>, id: Seq<char>) -> bool {
    exists|i: int| 0 <= i < s.len() && has_event_id(s[i], id)
}

/// The reaction entries aggregated on an item; only messages carry them.
pub open spec fn item_reactions(m: ItemModel) -> Seq<ReactionEntry> {
    match m.content {
        ContentModel::Message { reactions, .. } => reactions,
        _ => Seq::empty(),
    }
}

pub open spec fn has_reaction_id(m: ItemModel, id: Seq<char>) -> bool {
    exists|k: int| 0 <= k < item_reactions(m).len() && item_reactions(m)[k].event_id@ == id
}

pub open spec fn contains_reaction(s: Seq<ItemModel>, id: Seq<char>) -> bool {
    exists|i: int| 0 <= i < s.len() && has_reaction_id(s[i], id)
}

/// The entry `k` of item `i` is the first one, in list order, made by the event `id`.
pub open spec fn first_reaction(s: Seq<ItemModel>, id: Seq<char>, i: int, k: int) -> bool {
    &&& 0 <= i < s.len()
    &&& 0 <= k < item_reactions(s[i]).len()
    &&& item_reactions(s[i])[k].event_id@ == id
    &&& forall|j: int| 0 <= j < i ==> !has_reaction_id(#[trigger] s[j], id)
    &&& forall|k2: int| 0 <= k2 < k ==> item_reactions(s[i])[k2].event_id@ != id
}

/// A placeholder of a local send with transaction id `txn`, not yet confirmed.
pub open spec fn is_echo_for(m: ItemModel, txn: Seq<char>) -> bool {
    m.event_id is None && m.transaction_id is Some && m.transaction_id->0@ == txn
}

pub open spec fn has_echo(s: Seq<ItemModel>, txn: Seq<char>) -> bool {
    exists|i: int| 0 <= i < s.len() && is_echo_for(s[i], txn)
}

pub open spec fn first_echo(s: Seq<ItemModel>, txn: Seq<char>, i: int) -> bool {
    &&& 0 <= i < s.len()
    &&& is_echo_for(s[i], txn)
    &&& forall|j: int| 0 <= j < i ==> !is_echo_for(#[trigger] s[j], txn)
}

/// Internal ids are below the next one to hand out and distinct; known event
/// ids are distinct.
pub open spec fn model_wf(s: Seq<ItemModel>, next: u64) -> bool {
    &&& forall|i: int| 0 <= i < s.len() ==> (#[trigger] s[i]).internal_id < next
    &&& forall|i: int, j: int|
        0 <= i < s.len() && 0 <= j < s.len() && i != j ==> (#[trigger] s[i]).internal_id
            != (#[trigger] s[j]).internal_id
    &&& forall|i: int, j: int|
        0 <= i < s.len() && 0 <= j < s.len() && i != j && (#[trigger] s[i]).event_id is Some
            && (#[trigger] s[j]).event_id is Some ==> s[i].event_id->0@ != s[j].event_id->0@
}

/// The event is discarded by the settings or by the acceptance verdict.
/// Only the malformed-display policy decides the fate of a malformed event.
pub open spec fn dropped(settings: TimelineSettings, ev: RawEvent, accepted: bool) -> bool {
    if content_is_malformed(ev.content) {
        !settings.add_failed_to_parse
    } else {
        !accepted || !filter_passes(settings.event_type_filter, content_type(ev.content))
    }
}

/// What a well-formed event that stands on its own shows.
pub open spec fn content_model_of(c: RawContent) -> ContentModel {
    match c {
        RawContent::Message { body } => ContentModel::Message {
            body: body->0,
            edited: false,
            reactions: Seq::empty(),
        },
        RawContent::Member { state_key, membership } => ContentModel::MembershipChange {
            state_key,
            membership: membership->0,
        },
        RawContent::RoomName { name } => ContentModel::OtherState {
            content: OtherStateContent::RoomName(name->0),
        },
        RawContent::RoomTopic { topic } => ContentModel::OtherState {
            content: OtherStateContent::RoomTopic(topic->0),
        },
        _ => ContentModel::Redacted,
    }
}

/// The item that a remote event becomes, under internal id `id`.
pub open spec fn remote_item(ev: RawEvent, id: u64) -> ItemModel {
    ItemModel {
        internal_id: id,
        sender: ev.sender,
        timestamp: ev.origin_server_ts,
        event_id: Some(ev.event_id),
        transaction_id: ev.transaction_id,
        send_state: SendState::Sent,
        content: if content_is_malformed(ev.content) {
            ContentModel::FailedToParse { event_type: content_type(ev.content) }
        } else {
            content_model_of(ev.content)
        },
    }
}

pub open spec fn add_item(s: Seq<ItemModel>, m: ItemModel, at_front: bool) -> Seq<ItemModel> {
    if at_front {
        seq![m] + s
    } else {
        s.push(m)
    }
}

/// An edit by `sender` may change `m`: a message by the same sender.
pub open spec fn edit_applies(m: ItemModel, sender: String) -> bool {
    m.content is Message && m.sender@ == sender@
}

/// `m` after an edit to `body`; an edit that changes nothing leaves it as it is.
pub open spec fn edit_result(m: ItemModel, body: String) -> ItemModel {
    if m.content->Message_body@ == body@ && m.content->Message_edited {
        m
    } else {
        ItemModel {
            content: ContentModel::Message {
                body,
                edited: true,
                reactions: item_reactions(m),
            },
            ..m
        }
    }
}

pub open spec fn with_redaction(m: ItemModel) -> ItemModel {
    ItemModel { content: ContentModel::Redacted, ..m }
}

pub open spec fn reaction_of(ev: RawEvent, key: String) -> ReactionEntry {
    ReactionEntry {
        key,
        sender: ev.sender,
        timestamp: ev.origin_server_ts,
        event_id: ev.event_id,
    }
}

pub open spec fn with_reactions(m: ItemModel, rs: Seq<ReactionEntry>) -> ItemModel {
    ItemModel {
        content: ContentModel::Message {
            body: m.content->Message_body,
            edited: m.content->Message_edited,
            reactions: rs,
        },
        ..m
    }
}

/// Whether the event `id` is already in the timeline, as an item or as a reaction.
pub open spec fn is_known(s: Seq<ItemModel>, id: Seq<char>) -> bool {
    contains_event(s, id) || contains_reaction(s, id)
}

/// The list after a relation to `target` is applied: `f` gives the new list
/// for the item that carries `target`; without one the list stays.
pub open spec fn relation_result(s: Seq<ItemModel>, target: Seq<char>, s2: Seq<ItemModel>, f: spec_fn(int) -> Seq<ItemModel>) -> bool {
    &&& forall|i: int| 0 <= i < s.len() && has_event_id(#[trigger] s[i], target) ==> s2 == f(i)
    &&& !contains_event(s, target) ==> s2 == s
}

/// The list `s2` and next internal id `next2` that applying `ev` to the list
/// `s` (next internal id `next`) gives.
pub open spec fn handled(
    s: Seq<ItemModel>,
    next: u64,
    settings: TimelineSettings,
    ev: RawEvent,
    accepted: bool,
    at_front: bool,
    s2: Seq<ItemModel>,
    next2: u64,
) -> bool {
    if is_known(s, ev.event_id@) || dropped(settings, ev, accepted) {
        s2 == s && next2 == next
    } else if content_is_malformed(ev.content) {
        s2 == add_item(s, remote_item(ev, next), at_front) && next2 == next + 1
    } else {
        match ev.content {
            RawContent::Edit { target, body } => next2 == next && relation_result(
                s,
                target@,
                s2,
                |i: int|
                    if edit_applies(s[i], ev.sender) {
                        s.update(i, edit_result(s[i], body))
                    } else {
                        s
                    },
            ),
            RawContent::Reaction { target, key } => next2 == next && relation_result(
                s,
                target@,
                s2,
                |i: int|
                    if s[i].content is Message {
                        s.update(i, with_reactions(s[i], item_reactions(s[i]).push(reaction_of(ev, key))))
                    } else {
                        s
                    },
            ),
            RawContent::Redaction { target } => next2 == next && if contains_event(s, target@) {
                relation_result(s, target@, s2, |i: int| s.update(i, with_redaction(s[i])))
            } else {
                &&& forall|i: int, k: int|
                    first_reaction(s, target@, i, k) ==> s2 == s.update(
                        i,
                        with_reactions(s[i], item_reactions(s[i]).remove(k)),
                    )
                &&& !contains_reaction(s, target@) ==> s2 == s
            },
            _ => if ev.transaction_id is Some && has_echo(s, ev.transaction_id->0@) {
                next2 == next && forall|i: int|
                    first_echo(s, ev.transaction_id->0@, i) ==> s2 == s.update(
                        i,
                        remote_item(ev, s[i].internal_id),
                    )
            } else {
                s2 == add_item(s, remote_item(ev, next), at_front) && next2 == next + 1
            },
        }
    }
}

/// The list after an optional diff.
pub open spec fn apply_opt_diff(s: Seq<ItemModel>, d: Option<DiffModel>) -> Seq<ItemModel> {
    match d {
        Some(d) => apply_diff_model(s, d),
        None => s,
    }
}

pub open spec fn opt_diff_model(d: Option<VectorDiff>) -> Option<DiffModel> {
    match d {
        Some(d) => Some(d@),
        None => None,
    }
}

impl Timeline {
    /// The model of the item list.
    pub closed spec fn model(&self) -> Seq<ItemModel> {
        items_model(self.items@)
    }

    pub closed spec fn next_id(&self) -> u64 {
        self.next_internal_id
    }

    pub closed spec fn spec_settings(&self) -> TimelineSettings {
        self.settings
    }

    pub closed spec fn wf(&self) -> bool {
        model_wf(self.model(), self.next_internal_id)
    }

    /// What well-formedness says of the model: the laws take it in this form.
    pub proof fn lemma_wf_model(&self)
        requires
            self.wf(),
        ensures
            model_wf(self.model(), self.next_id()),
    {
    }

    /// Whether one more item can get an internal id.
    pub closed spec fn has_room(&self) -> bool {
        self.next_internal_id < u64::MAX
    }

    /// An empty timeline with the given settings.
    pub fn new(settings: TimelineSettings) -> (r: Timeline)
        ensures
            r.wf(),
            r.model() == Seq::<ItemModel>::empty(),
            r.spec_settings() == settings,
            r.next_id() == 0,
            r.has_room(),
    {
        let r = Timeline { settings, items: Vec::new(), next_internal_id: 0 };
        assert(r.model() =~= Seq::<ItemModel>::empty());
        r
    }

    /// Whether one more item can get an internal id.
    pub fn can_add_item(&self) -> (r: bool)
        ensures
            r == self.has_room(),
    {
        self.next_internal_id < u64::MAX
    }

    /// The number of items.
    pub fn len(&self) -> (r: usize)
        ensures
            r == self.model().len(),
    {
        self.items.len()
    }

    /// A copy of the current items, in order.
    pub fn items(&self) -> (r: Vec<TimelineItem>)
        ensures
            items_model(r@) == self.model(),
    {
        let mut r: Vec<TimelineItem> = Vec::new();
        let mut i: usize = 0;
        while i < self.items.len()
            invariant
                0 <= i <= self.items@.len(),
                r@.len() == i,
                forall|j: int| 0 <= j < i ==> (#[trigger] r@[j])@ == self.items@[j]@,
            decreases self.items@.len() - i,
        {
            r.push(self.items[i].duplicate());
            i = i + 1;
        }
        assert(items_model(r@) =~= self.model());
        r
    }

    /// The first diff a new subscriber receives: the whole list as a `Reset`.
    pub fn subscribe(&self) -> (r: VectorDiff)
        ensures
            r@ == (DiffModel::Reset { values: self.model() }),
    {
        VectorDiff::Reset { values: self.items() }
    }

    fn find_event(&self, id: &String) -> (r: Option<usize>)
        ensures
            match r {
                Some(i) => i < self.model().len() && has_event_id(self.model()[i as int], id@),
                None => !contains_event(self.model(), id@),
            },
    {
        let mut i: usize = 0;
        while i < self.items.len()
            invariant
                0 <= i <= self.items@.len(),
                forall|j: int| 0 <= j < i ==> !has_event_id(#[trigger] self.model()[j], id@),
            decreases self.items@.len() - i,
        {
            assert(self.model()[i as int] == self.items@[i as int]@);
            match &self.items[i].event_id {
                Some(e) => {
                    if e.eq(id) {
                        return Some(i);
                    }
                },
                None => {},
            }
            i = i + 1;
        }
        None
    }

    fn find_echo(&self, txn: &String) -> (r: Option<usize>)
        ensures
            match r {
                Some(i) => first_echo(self.model(), txn@, i as int),
                None => !has_echo(self.model(), txn@),
            },
    {
        let mut i: usize = 0;
        while i < self.items.len()
            invariant
                0 <= i <= self.items@.len(),
                forall|j: int| 0 <= j < i ==> !is_echo_for(#[trigger] self.model()[j], txn@),
            decreases self.items@.len() - i,
        {
            assert(self.model()[i as int] == self.items@[i as int]@);
            if self.items[i].event_id.is_none() {
                match &self.items[i].transaction_id {
                    Some(t) => {
                        if t.eq(txn) {
                            return Some(i);
                        }
                    },
                    None => {},
                }
            }
            i = i + 1;
        }
        None
    }

    fn find_reaction(&self, id: &String) -> (r: Option<(usize, usize)>)
        ensures
            match r {
                Some((i, k)) => first_reaction(self.model(), id@, i as int, k as int),
                None => !contains_reaction(self.model(), id@),
            },
    {
        let mut i: usize = 0;
        while i < self.items.len()
            invariant
                0 <= i <= self.items@.len(),
                forall|j: int| 0 <= j < i ==> !has_reaction_id(#[trigger] self.model()[j], id@),
            decreases self.items@.len() - i,
        {
            assert(self.model()[i as int] == self.items@[i as int]@);
            match &self.items[i].content {
                TimelineItemContent::Message { reactions, .. } => {
                    let mut k: usize = 0;
                    while k < reactions.len()
                        invariant
                            0 <= i < self.items@.len(),
                            self.items@[i as int].content == (TimelineItemContent::Message { body: self.items@[i as int].content->Message_body, edited: self.items@[i as int].content->Message_edited, reactions: *reactions }),
                            0 <= k <= reactions@.len(),
                            forall|k2: int| 0 <= k2 < k ==> reactions@[k2].event_id@ != id@,
                            forall|j: int| 0 <= j < i ==> !has_reaction_id(#[trigger] self.model()[j], id@),
                        decreases reactions@.len() - k,
                    {
                        if reactions[k].event_id.eq(id) {
                            return Some((i, k));
                        }
                        k = k + 1;
                    }
                },
                _ => {},
            }
            i = i + 1;
        }
        None
    }
}


proof fn lemma_add_wf(s: Seq<ItemModel>, next: u64, m: ItemModel, at_front: bool)
    requires
        model_wf(s, next),
        m.internal_id == next,
        next < u64::MAX,
        m.event_id is Some ==> !contains_event(s, m.event_id->0@),
    ensures
        model_wf(add_item(s, m, at_front), (next + 1) as u64),
{
    let s2 = add_item(s, m, at_front);
    if at_front {
        assert forall|i: int| 1 <= i < s2.len() implies s2[i] == s[i - 1] by {}
        assert(s2[0] == m);
    } else {
        assert forall|i: int| 0 <= i < s.len() implies s2[i] == s[i] by {}
        assert(s2[s.len() as int] == m);
    }
    assert forall|i: int, j: int|
        0 <= i < s2.len() && 0 <= j < s2.len() && i != j && (#[trigger] s2[i]).event_id is Some
            && (#[trigger] s2[j]).event_id is Some implies s2[i].event_id->0@ != s2[j].event_id->0@ by {
        if at_front {
            if i == 0 {
                assert(has_event_id(s[j - 1], s2[j].event_id->0@));
            } else if j == 0 {
                assert(has_event_id(s[i - 1], s2[i].event_id->0@));
            }
        } else {
            if i == s.len() {
                assert(has_event_id(s[j], s2[j].event_id->0@));
            } else if j == s.len() {
                assert(has_event_id(s[i], s2[i].event_id->0@));
            }
        }
    }
}

proof fn lemma_update_wf(s: Seq<ItemModel>, next: u64, i: int, m: ItemModel)
    requires
        model_wf(s, next),
        0 <= i < s.len(),
        m.internal_id == s[i].internal_id,
        m.event_id == s[i].event_id || (m.event_id is Some && !contains_event(s, m.event_id->0@)),
    ensures
        model_wf(s.update(i, m), next),
{
    let s2 = s.update(i, m);
    assert forall|a: int, b: int|
        0 <= a < s2.len() && 0 <= b < s2.len() && a != b && (#[trigger] s2[a]).event_id is Some
            && (#[trigger] s2[b]).event_id is Some implies s2[a].event_id->0@ != s2[b].event_id->0@ by {
        if a == i && m.event_id != s[i].event_id {
            assert(has_event_id(s[b], s2[b].event_id->0@));
        } else if b == i && m.event_id != s[i].event_id {
            assert(has_event_id(s[a], s2[a].event_id->0@));
        }
    }
    assert forall|a: int, b: int|
        0 <= a < s2.len() && 0 <= b < s2.len() && a != b implies (#[trigger] s2[a]).internal_id
            != (#[trigger] s2[b]).internal_id by {}
}

/// The content shown for a well-formed event that stands on its own.
fn content_of(c: &RawContent) -> (r: TimelineItemContent)
    requires
        !content_is_malformed(*c),
    ensures
        r@ == content_model_of(*c),
{
    match c {
        RawContent::Message { body } => {
            let b = match body {
                Some(b) => b.clone(),
                None => String::new(),
            };
            let reactions: Vec<ReactionEntry> = Vec::new();
            assert(reactions@ =~= Seq::<ReactionEntry>::empty());
            TimelineItemContent::Message { body: b, edited: false, reactions }
        },
        RawContent::Member { state_key, membership } => {
            let m = match membership {
                Some(m) => m.clone(),
                None => String::new(),
            };
            TimelineItemContent::MembershipChange { state_key: state_key.clone(), membership: m }
        },
        RawContent::RoomName { name } => {
            let n = match name {
                Some(n) => n.clone(),
                None => String::new(),
            };
            TimelineItemContent::OtherState { content: OtherStateContent::RoomName(n) }
        },
        RawContent::RoomTopic { topic } => {
            let t = match topic {
                Some(t) => t.clone(),
                None => String::new(),
            };
            TimelineItemContent::OtherState { content: OtherStateContent::RoomTopic(t) }
        },
        _ => TimelineItemContent::Redacted,
    }
}

/// The item that a remote event becomes, under internal id `id`.
fn remote_item_of(ev: &RawEvent, id: u64) -> (r: TimelineItem)
    ensures
        r@ == remote_item(*ev, id),
{
    let content = if ev.content.is_malformed() {
        TimelineItemContent::FailedToParse { event_type: ev.content.event_type() }
    } else {
        content_of(&ev.content)
    };
    TimelineItem {
        internal_id: id,
        sender: ev.sender.clone(),
        timestamp: ev.origin_server_ts,
        event_id: Some(ev.event_id.clone()),
        transaction_id: copy_string_opt(&ev.transaction_id),
        send_state: SendState::Sent,
        content,
    }
}

impl Timeline {
    fn replace_at(&mut self, i: usize, item: TimelineItem) -> (d: VectorDiff)
        requires
            i < old(self).items@.len(),
        ensures
            final(self).model() == old(self).model().update(i as int, item@),
            d@ == (DiffModel::SetAt { index: i as int, value: item@ }),
            final(self).next_internal_id == old(self).next_internal_id,
            final(self).settings == old(self).settings,
    {
        let copy = item.duplicate();
        self.items.set(i, item);
        assert(self.model() =~= old(self).model().update(i as int, copy@));
        VectorDiff::SetAt { index: i, value: copy }
    }

    fn add(&mut self, item: TimelineItem, at_front: bool) -> (d: VectorDiff)
        requires
            old(self).next_internal_id < u64::MAX,
        ensures
            final(self).model() == add_item(old(self).model(), item@, at_front),
            d@ == (if at_front {
                DiffModel::PushFront { value: item@ }
            } else {
                DiffModel::PushBack { value: item@ }
            }),
            final(self).next_internal_id == old(self).next_internal_id + 1,
            final(self).settings == old(self).settings,
    {
        let copy = item.duplicate();
        if at_front {
            self.items.insert(0, item);
            assert(self.model() =~= seq![copy@] + old(self).model());
        } else {
            self.items.push(item);
            assert(self.model() =~= old(self).model().push(copy@));
        }
        self.next_internal_id = self.next_internal_id + 1;
        if at_front {
            VectorDiff::PushFront { value: copy }
        } else {
            VectorDiff::PushBack { value: copy }
        }
    }

    fn apply_edit(&mut self, ev: &RawEvent, target: &String, body: &String) -> (d: Option<VectorDiff>)
        requires
            old(self).wf(),
        ensures
            final(self).wf(),
            final(self).settings == old(self).settings,
            final(self).next_internal_id == old(self).next_internal_id,
            forall|i: int|
                0 <= i < old(self).model().len() && has_event_id(#[trigger] old(self).model()[i], target@)
                    ==> final(self).model() == (if edit_applies(old(self).model()[i], ev.sender) {
                    old(self).model().update(i, edit_result(old(self).model()[i], *body))
                } else {
                    old(self).model()
                }),
            !contains_event(old(self).model(), target@) ==> final(self).model() == old(self).model(),
            apply_opt_diff(old(self).model(), opt_diff_model(d)) == final(self).model(),
            d is None <==> final(self).model() == old(self).model(),
    {
        let ghost s = self.model();
        match self.find_event(target) {
            None => None,
            Some(i) => {
                assert(s[i as int] == self.items@[i as int]@);
                let it = &self.items[i];
                match &it.content {
                    TimelineItemContent::Message { body: b, edited, reactions } => {
                        if !it.sender.eq(&ev.sender) {
                            return None;
                        }
                        if b.eq(body) && *edited {
                            assert(edit_result(s[i as int], *body) == s[i as int]);
                            assert(s.update(i as int, s[i as int]) =~= s);
                            return None;
                        }
                        let item = TimelineItem {
                            internal_id: it.internal_id,
                            sender: it.sender.clone(),
                            timestamp: it.timestamp,
                            event_id: copy_string_opt(&it.event_id),
                            transaction_id: copy_string_opt(&it.transaction_id),
                            send_state: it.send_state,
                            content: TimelineItemContent::Message {
                                body: body.clone(),
                                edited: true,
                                reactions: duplicate_reactions(reactions),
                            },
                        };
                        assert(item@ == edit_result(s[i as int], *body));
                        proof {
                            lemma_update_wf(s, self.next_internal_id, i as int, item@);
                        }
                        let d = self.replace_at(i, item);
                        assert(self.model()[i as int] != s[i as int]);
                        Some(d)
                    },
                    _ => None,
                }
            },
        }
    }
}


impl Timeline {
    fn apply_reaction(&mut self, ev: &RawEvent, target: &String, key: &String) -> (d: Option<VectorDiff>)
        requires
            old(self).wf(),
        ensures
            final(self).wf(),
            final(self).settings == old(self).settings,
            final(self).next_internal_id == old(self).next_internal_id,
            forall|i: int|
                0 <= i < old(self).model().len() && has_event_id(#[trigger] old(self).model()[i], target@)
                    ==> final(self).model() == (if old(self).model()[i].content is Message {
                    old(self).model().update(
                        i,
                        with_reactions(
                            old(self).model()[i],
                            item_reactions(old(self).model()[i]).push(reaction_of(*ev, *key)),
                        ),
                    )
                } else {
                    old(self).model()
                }),
            !contains_event(old(self).model(), target@) ==> final(self).model() == old(self).model(),
            apply_opt_diff(old(self).model(), opt_diff_model(d)) == final(self).model(),
            d is None <==> final(self).model() == old(self).model(),
    {
        let ghost s = self.model();
        match self.find_event(target) {
            None => None,
            Some(i) => {
                assert(s[i as int] == self.items@[i as int]@);
                let it = &self.items[i];
                match &it.content {
                    TimelineItemContent::Message { body, edited, reactions } => {
                        let mut rs = duplicate_reactions(reactions);
                        rs.push(
                            ReactionEntry {
                                key: key.clone(),
                                sender: ev.sender.clone(),
                                timestamp: ev.origin_server_ts,
                                event_id: ev.event_id.clone(),
                            },
                        );
                        let item = TimelineItem {
                            internal_id: it.internal_id,
                            sender: it.sender.clone(),
                            timestamp: it.timestamp,
                            event_id: copy_string_opt(&it.event_id),
                            transaction_id: copy_string_opt(&it.transaction_id),
                            send_state: it.send_state,
                            content: TimelineItemContent::Message {
                                body: body.clone(),
                                edited: *edited,
                                reactions: rs,
                            },
                        };
                        assert(item@ == with_reactions(
                            s[i as int],
                            item_reactions(s[i as int]).push(reaction_of(*ev, *key)),
                        ));
                        proof {
                            lemma_update_wf(s, self.next_internal_id, i as int, item@);
                        }
                        let d = self.replace_at(i, item);
                        assert(item_reactions(self.model()[i as int]).len() != item_reactions(
                            s[i as int],
                        ).len());
                        Some(d)
                    },
                    _ => None,
                }
            },
        }
    }

    fn redact_item(&mut self, target: &String) -> (d: Option<VectorDiff>)
        requires
            old(self).wf(),
        ensures
            final(self).wf(),
            final(self).settings == old(self).settings,
            final(self).next_internal_id == old(self).next_internal_id,
            forall|i: int|
                0 <= i < old(self).model().len() && has_event_id(#[trigger] old(self).model()[i], target@)
                    ==> final(self).model() == old(self).model().update(
                    i,
                    with_redaction(old(self).model()[i]),
                ),
            !contains_event(old(self).model(), target@) ==> final(self).model() == old(self).model(),
            apply_opt_diff(old(self).model(), opt_diff_model(d)) == final(self).model(),
            d is None <==> final(self).model() == old(self).model(),
    {
        let ghost s = self.model();
        match self.find_event(target) {
            None => None,
            Some(i) => {
                assert(s[i as int] == self.items@[i as int]@);
                let it = &self.items[i];
                if it.content.is_redacted() {
                    assert(with_redaction(s[i as int]) == s[i as int]);
                    assert(s.update(i as int, s[i as int]) =~= s);
                    return None;
                }
                let item = TimelineItem {
                    internal_id: it.internal_id,
                    sender: it.sender.clone(),
                    timestamp: it.timestamp,
                    event_id: copy_string_opt(&it.event_id),
                    transaction_id: copy_string_opt(&it.transaction_id),
                    send_state: it.send_state,
                    content: TimelineItemContent::Redacted,
                };
                assert(item@ == with_redaction(s[i as int]));
                proof {
                    lemma_update_wf(s, self.next_internal_id, i as int, item@);
                }
                let d = self.replace_at(i, item);
                assert(self.model()[i as int] != s[i as int]);
                Some(d)
            },
        }
    }

    fn remove_reaction(&mut self, target: &String) -> (d: Option<VectorDiff>)
        requires
            old(self).wf(),
        ensures
            final(self).wf(),
            final(self).settings == old(self).settings,
            final(self).next_internal_id == old(self).next_internal_id,
            forall|i: int, k: int|
                first_reaction(old(self).model(), target@, i, k) ==> final(self).model()
                    == old(self).model().update(
                    i,
                    with_reactions(old(self).model()[i], item_reactions(old(self).model()[i]).remove(k)),
                ),
            !contains_reaction(old(self).model(), target@) ==> final(self).model() == old(self).model(),
            apply_opt_diff(old(self).model(), opt_diff_model(d)) == final(self).model(),
            d is None <==> final(self).model() == old(self).model(),
    {
        let ghost s = self.model();
        match self.find_reaction(target) {
            None => None,
            Some((i, k)) => {
                assert(s[i as int] == self.items@[i as int]@);
                let it = &self.items[i];
                match &it.content {
                    TimelineItemContent::Message { body, edited, reactions } => {
                        let mut rs = duplicate_reactions(reactions);
                        rs.remove(k);
                        let item = TimelineItem {
                            internal_id: it.internal_id,
                            sender: it.sender.clone(),
                            timestamp: it.timestamp,
                            event_id: copy_string_opt(&it.event_id),
                            transaction_id: copy_string_opt(&it.transaction_id),
                            send_state: it.send_state,
                            content: TimelineItemContent::Message {
                                body: body.clone(),
                                edited: *edited,
                                reactions: rs,
                            },
                        };
                        assert(item@ == with_reactions(s[i as int], item_reactions(s[i as int]).remove(k as int)));
                        proof {
                            lemma_update_wf(s, self.next_internal_id, i as int, item@);
                        }
                        let d = self.replace_at(i, item);
                        assert(item_reactions(self.model()[i as int]).len() != item_reactions(
                            s[i as int],
                        ).len());
                        assert forall|i2: int, k2: int| first_reaction(s, target@, i2, k2) implies i2 == i && k2 == k by {
                            if i2 < i {
                                assert(has_reaction_id(s[i2], target@));
                            } else if i < i2 {
                                assert(has_reaction_id(s[i as int], target@));
                            } else if k2 < k {
                            } else if k < k2 {
                            }
                        }
                        Some(d)
                    },
                    _ => None,
                }
            },
        }
    }

    fn confirm_echo(&mut self, ev: &RawEvent, i: usize) -> (d: VectorDiff)
        requires
            old(self).wf(),
            i < old(self).model().len(),
            old(self).model()[i as int].event_id is None,
            !contains_event(old(self).model(), ev.event_id@),
        ensures
            final(self).wf(),
            final(self).settings == old(self).settings,
            final(self).next_internal_id == old(self).next_internal_id,
            final(self).model() == old(self).model().update(
                i as int,
                remote_item(*ev, old(self).model()[i as int].internal_id),
            ),
            apply_diff_model(old(self).model(), d@) == final(self).model(),
            final(self).model() != old(self).model(),
    {
        let ghost s = self.model();
        assert(s[i as int] == self.items@[i as int]@);
        let item = remote_item_of(ev, self.items[i].internal_id);
        proof {
            lemma_update_wf(s, self.next_internal_id, i as int, item@);
        }
        let d = self.replace_at(i, item);
        assert(self.model()[i as int] != s[i as int]);
        d
    }
}


impl Timeline {
    fn handle_event(&mut self, ev: &RawEvent, accepted: bool, at_front: bool) -> (d: Option<VectorDiff>)
        requires
            old(self).wf(),
            old(self).has_room(),
        ensures
            final(self).wf(),
            final(self).spec_settings() == old(self).spec_settings(),
            handled(
                old(self).model(),
                old(self).next_id(),
                old(self).spec_settings(),
                *ev,
                accepted,
                at_front,
                final(self).model(),
                final(self).next_id(),
            ),
            apply_opt_diff(old(self).model(), opt_diff_model(d)) == final(self).model(),
            d is None <==> final(self).model() == old(self).model(),
    {
        let ghost s = self.model();
        if self.find_event(&ev.event_id).is_some() || self.find_reaction(&ev.event_id).is_some() {
            return None;
        }
        if ev.content.is_malformed() {
            if !self.settings.add_failed_to_parse {
                return None;
            }
            let item = remote_item_of(ev, self.next_internal_id);
            proof {
                lemma_add_wf(s, self.next_internal_id, item@, at_front);
            }
            let d = self.add(item, at_front);
            assert(self.model().len() != s.len());
            return Some(d);
        }
        if !accepted || !self.settings.event_type_filter.filter(ev.content.event_type()) {
            return None;
        }
        match &ev.content {
            RawContent::Edit { target, body } => self.apply_edit(ev, target, body),
            RawContent::Reaction { target, key } => self.apply_reaction(ev, target, key),
            RawContent::Redaction { target } => {
                if self.find_event(target).is_some() {
                    self.redact_item(target)
                } else {
                    self.remove_reaction(target)
                }
            },
            _ => {
                match &ev.transaction_id {
                    Some(t) => {
                        match self.find_echo(t) {
                            Some(i) => {
                                let d = self.confirm_echo(ev, i);
                                return Some(d);
                            },
                            None => {},
                        }
                    },
                    None => {},
                }
                let item = remote_item_of(ev, self.next_internal_id);
                proof {
                    lemma_add_wf(s, self.next_internal_id, item@, at_front);
                }
                let d = self.add(item, at_front);
                assert(self.model().len() != s.len());
                Some(d)
            },
        }
    }

    /// Applies an event that arrived live: a new item goes to the end.
    /// `accepted` is the verdict of the timeline's acceptance predicate on
    /// the event; a malformed event is not judged by it.
    pub fn handle_live_event(&mut self, ev: &RawEvent, accepted: bool) -> (d: Option<VectorDiff>)
        requires
            old(self).wf(),
            old(self).has_room(),
        ensures
            final(self).wf(),
            final(self).spec_settings() == old(self).spec_settings(),
            handled(
                old(self).model(),
                old(self).next_id(),
                old(self).spec_settings(),
                *ev,
                accepted,
                false,
                final(self).model(),
                final(self).next_id(),
            ),
            apply_opt_diff(old(self).model(), opt_diff_model(d)) == final(self).model(),
            d is None <==> final(self).model() == old(self).model(),
    {
        self.handle_event(ev, accepted, false)
    }

    /// Applies an event of older history: a new item goes to the front.
    /// `accepted` is as for `handle_live_event`.
    pub fn handle_back_paginated_event(&mut self, ev: &RawEvent, accepted: bool) -> (d: Option<VectorDiff>)
        requires
            old(self).wf(),
            old(self).has_room(),
        ensures
            final(self).wf(),
            final(self).spec_settings() == old(self).spec_settings(),
            handled(
                old(self).model(),
                old(self).next_id(),
                old(self).spec_settings(),
                *ev,
                accepted,
                true,
                final(self).model(),
                final(self).next_id(),
            ),
            apply_opt_diff(old(self).model(), opt_diff_model(d)) == final(self).model(),
            d is None <==> final(self).model() == old(self).model(),
    {
        self.handle_event(ev, accepted, true)
    }
}


/// The placeholder of a local send, before the protocol has confirmed it.
pub open spec fn local_item(sender: String, body: String, txn: String, timestamp: u64, id: u64) -> ItemModel {
    ItemModel {
        internal_id: id,
        sender,
        timestamp,
        event_id: None,
        transaction_id: Some(txn),
        send_state: SendState::Sending,
        content: ContentModel::Message { body, edited: false, reactions: Seq::empty() },
    }
}

pub open spec fn with_send_state(m: ItemModel, st: SendState) -> ItemModel {
    ItemModel { send_state: st, ..m }
}

impl Timeline {
    /// Shows a message that is being sent locally under `transaction_id`,
    /// before the protocol has echoed it back.
    pub fn send_local(&mut self, sender: String, body: String, transaction_id: String, timestamp: u64) -> (d: VectorDiff)
        requires
            old(self).wf(),
            old(self).has_room(),
        ensures
            final(self).wf(),
            final(self).spec_settings() == old(self).spec_settings(),
            final(self).model() == old(self).model().push(
                local_item(sender, body, transaction_id, timestamp, old(self).next_id()),
            ),
            final(self).next_id() == old(self).next_id() + 1,
            apply_diff_model(old(self).model(), d@) == final(self).model(),
    {
        let ghost s = self.model();
        let reactions: Vec<ReactionEntry> = Vec::new();
        assert(reactions@ =~= Seq::<ReactionEntry>::empty());
        let item = TimelineItem {
            internal_id: self.next_internal_id,
            sender,
            timestamp,
            event_id: None,
            transaction_id: Some(transaction_id),
            send_state: SendState::Sending,
            content: TimelineItemContent::Message { body, edited: false, reactions },
        };
        proof {
            lemma_add_wf(s, self.next_internal_id, item@, false);
        }
        self.add(item, false)
    }

    /// Records that the local send `transaction_id` failed: its placeholder
    /// stays, in state `SendError`.
    pub fn mark_send_failed(&mut self, transaction_id: &String) -> (d: Option<VectorDiff>)
        requires
            old(self).wf(),
        ensures
            final(self).wf(),
            final(self).spec_settings() == old(self).spec_settings(),
            final(self).next_id() == old(self).next_id(),
            forall|i: int|
                first_echo(old(self).model(), transaction_id@, i) ==> final(self).model()
                    == old(self).model().update(
                    i,
                    with_send_state(old(self).model()[i], SendState::SendError),
                ),
            !has_echo(old(self).model(), transaction_id@) ==> final(self).model() == old(self).model(),
            apply_opt_diff(old(self).model(), opt_diff_model(d)) == final(self).model(),
            d is None <==> final(self).model() == old(self).model(),
    {
        let ghost s = self.model();
        match self.find_echo(transaction_id) {
            None => None,
            Some(i) => {
                assert(s[i as int] == self.items@[i as int]@);
                let it = &self.items[i];
                if it.send_state == SendState::SendError {
                    assert(with_send_state(s[i as int], SendState::SendError) == s[i as int]);
                    assert(s.update(i as int, s[i as int]) =~= s);
                    return None;
                }
                let item = TimelineItem {
                    internal_id: it.internal_id,
                    sender: it.sender.clone(),
                    timestamp: it.timestamp,
                    event_id: None,
                    transaction_id: copy_string_opt(&it.transaction_id),
                    send_state: SendState::SendError,
                    content: it.content.duplicate(),
                };
                assert(item@ == with_send_state(s[i as int], SendState::SendError));
                proof {
                    lemma_update_wf(s, self.next_internal_id, i as int, item@);
                }
                let d = self.replace_at(i, item);
                assert(self.model()[i as int] != s[i as int]);
                assert forall|j: int| first_echo(s, transaction_id@, j) implies j == i by {
                    if j < i {
                    } else if i < j {
                    }
                }
                Some(d)
            },
        }
    }
}


/// `s` (next internal id `next`) is what handling the live events `evs` in
/// order, with the acceptance verdicts `acc`, gives from an empty timeline.
pub open spec fn replayed(
    settings: TimelineSettings,
    evs: Seq<RawEvent>,
    acc: Seq<bool>,
    s: Seq<ItemModel>,
    next: u64,
) -> bool
    decreases evs.len(),
{
    if evs.len() == 0 {
        s == Seq::<ItemModel>::empty() && next == 0
    } else {
        exists|p: Seq<ItemModel>, pn: u64|
            replayed(settings, evs.drop_last(), acc.drop_last(), p, pn) && #[trigger] handled(
                p,
                pn,
                settings,
                evs.last(),
                acc.last(),
                false,
                s,
                next,
            )
    }
}

impl Timeline {
    /// A timeline with new settings, rebuilt from the retained raw history:
    /// every event is filtered and applied again, as if it arrived live.
    /// `verdicts[i]` is the acceptance verdict on `history[i]`.
    pub fn rebuild(settings: TimelineSettings, history: &Vec<RawEvent>, verdicts: &Vec<bool>) -> (r: Timeline)
        requires
            history@.len() == verdicts@.len(),
            history@.len() < u64::MAX,
        ensures
            r.wf(),
            r.spec_settings() == settings,
            replayed(settings, history@, verdicts@, r.model(), r.next_id()),
    {
        let ghost st = settings;
        let mut t = Timeline::new(settings);
        let mut i: usize = 0;
        assert(history@.subrange(0, 0) =~= Seq::<RawEvent>::empty());
        while i < history.len()
            invariant
                0 <= i <= history@.len(),
                history@.len() == verdicts@.len(),
                history@.len() < u64::MAX,
                t.wf(),
                t.spec_settings() == st,
                t.next_id() <= i,
                replayed(
                    st,
                    history@.subrange(0, i as int),
                    verdicts@.subrange(0, i as int),
                    t.model(),
                    t.next_id(),
                ),
            decreases history@.len() - i,
        {
            let ghost p = t.model();
            let ghost pn = t.next_id();
            let _ = t.handle_live_event(&history[i], verdicts[i]);
            let ghost evs = history@.subrange(0, i + 1);
            let ghost acc = verdicts@.subrange(0, i + 1);
            assert(evs.drop_last() =~= history@.subrange(0, i as int));
            assert(acc.drop_last() =~= verdicts@.subrange(0, i as int));
            assert(evs.last() == history@[i as int]);
            assert(acc.last() == verdicts@[i as int]);
            assert(handled(p, pn, st, evs.last(), acc.last(), false, t.model(), t.next_id()));
            i = i + 1;
        }
        assert(history@.subrange(0, i as int) =~= history@);
        assert(verdicts@.subrange(0, i as int) =~= verdicts@);
        t
    }
}

} // verus!
