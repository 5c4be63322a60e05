//! Display items of a timeline, their mathematical model, and the diffs that
//! carry one state of an item list to the next.

use vstd::prelude::*;
use crate::event::TimelineEventType;

verus! {

/// Where a locally sent item stands.
#[derive(PartialEq, Eq, Structural, Clone, Copy, Debug)]
pub enum SendState {
    NotSent,
    Sending,
    Sent,
    SendError,
}

/// One application of a reaction `key` by `sender`, made by the event `event_id`.
#[derive(Clone, Debug)]
pub struct ReactionEntry {
    pub key: String,
    pub sender: String,
    pub timestamp: u64,
    pub event_id: String,
}

/// The typed content of a state event other than a membership change.
#[derive(Clone, Debug)]
pub enum OtherStateContent {
    RoomName(String),
    RoomTopic(String),
}

/// What an item shows.
#[derive(Clone, Debug)]
pub enum TimelineItemContent {
    Message { body: String, edited: bool, reactions: Vec<ReactionEntry> },
    Redacted,
    MembershipChange { state_key: String, membership: String },
    OtherState { content: OtherStateContent },
    FailedToParse { event_type: TimelineEventType },
}

/// An item of the timeline. `internal_id` addresses it whether or not the
/// protocol has given it an event id yet.
#[derive(Clone, Debug)]
pub struct TimelineItem {
    pub internal_id: u64,
    pub sender: String,
    pub timestamp: u64,
    pub event_id: Option<String>,
    pub transaction_id: Option<String>,
    pub send_state: SendState,
    pub content: TimelineItemContent,
}

/// An incremental change of an item list.
#[derive(Clone, Debug)]
pub enum VectorDiff {
    PushBack { value: TimelineItem },
    PushFront { value: TimelineItem },
    Insert { index: usize, value: TimelineItem },
    SetAt { index: usize, value: TimelineItem },
    Remove { index: usize },
    Clear,
    Reset { values: Vec<TimelineItem> },
}

pub ghost enum ContentModel {
    Message { body: String, edited: bool, reactions: Seq<ReactionEntry> },
    Redacted,
    MembershipChange { state_key: String, membership: String },
    OtherState { content: OtherStateContent },
    FailedToParse { event_type: TimelineEventType },
}

pub ghost struct ItemModel {
    pub internal_id: u64,
    pub sender: String,
    pub timestamp: u64,
    pub event_id: Option<String>,
    pub transaction_id: Option<String>,
    pub send_state: SendState,
    pub content: ContentModel,
}

pub ghost enum DiffModel {
    PushBack { value: ItemModel },
    PushFront { value: ItemModel },
    Insert { index: int, value: ItemModel },
    SetAt { index: int, value: ItemModel },
    Remove { index: int },
    Clear,
    Reset { values: Seq<ItemModel> },
}

impl View for TimelineItemContent {
    type V = ContentModel;

    open spec fn view(&self) -> ContentModel {
        match self {
            TimelineItemContent::Message { body, edited, reactions } => ContentModel::Message {
                body: *body,
                edited: *edited,
                reactions: reactions@,
            },
            TimelineItemContent::Redacted => ContentModel::Redacted,
            TimelineItemContent::MembershipChange { state_key, membership } => {
                ContentModel::MembershipChange { state_key: *state_key, membership: *membership }
            },
            TimelineItemContent::OtherState { content } => ContentModel::OtherState {
                content: *content,
            },
            TimelineItemContent::FailedToParse { event_type } => ContentModel::FailedToParse {
                event_type: *event_type,
            },
        }
    }
}

impl View for TimelineItem {
    type V = ItemModel;

    open spec fn view(&self) -> ItemModel {
        ItemModel {
            internal_id: self.internal_id,
            sender: self.sender,
            timestamp: self.timestamp,
            event_id: self.event_id,
            transaction_id: self.transaction_id,
            send_state: self.send_state,
            content: self.content@,
        }
    }
}

/// The models of a list of items.
pub open spec fn items_model(v: Seq<TimelineItem>) -> Seq<ItemModel> {
    Seq::new(v.len(), |i: int| v[i]@)
}

impl View for VectorDiff {
    type V = DiffModel;

    open spec fn view(&self) -> DiffModel {
        match self {
            VectorDiff::PushBack { value } => DiffModel::PushBack { value: value@ },
            VectorDiff::PushFront { value } => DiffModel::PushFront { value: value@ },
            VectorDiff::Insert { index, value } => DiffModel::Insert {
                index: *index as int,
                value: value@,
            },
            VectorDiff::SetAt { index, value } => DiffModel::SetAt { index: *index as int, value: value@ },
            VectorDiff::Remove { index } => DiffModel::Remove { index: *index as int },
            VectorDiff::Clear => DiffModel::Clear,
            VectorDiff::Reset { values } => DiffModel::Reset { values: items_model(values@) },
        }
    }
}

/// Whether the positions that `d` names exist in a list of length `len`.
pub open spec fn diff_fits(d: DiffModel, len: int) -> bool {
    match d {
        DiffModel::Insert { index, .. } => 0 <= index <= len,
        DiffModel::SetAt { index, .. } => 0 <= index < len,
        DiffModel::Remove { index } => 0 <= index < len,
        _ => true,
    }
}

/// The list that applying `d` to `s` gives.
pub open spec fn apply_diff_model(s: Seq<ItemModel>, d: DiffModel) -> Seq<ItemModel> {
    match d {
        DiffModel::PushBack { value } => s.push(value),
        DiffModel::PushFront { value } => seq![value] + s,
        DiffModel::Insert { index, value } => s.insert(index, value),
        DiffModel::SetAt { index, value } => s.update(index, value),
        DiffModel::Remove { index } => s.remove(index),
        DiffModel::Clear => Seq::empty(),
        DiffModel::Reset { values } => values,
    }
}

pub(crate) fn copy_string_opt(o: &Option<String>) -> (r: Option<String>)
    ensures
        r == *o,
{
    match o {
        Some(s) => Some(s.clone()),
        None => None,
    }
}

impl ReactionEntry {
    /// A copy equal to this entry.
    pub fn duplicate(&self) -> (r: ReactionEntry)
        ensures
            r == *self,
    {
        ReactionEntry {
            key: self.key.clone(),
            sender: self.sender.clone(),
            timestamp: self.timestamp,
            event_id: self.event_id.clone(),
        }
    }
}

impl OtherStateContent {
    /// A copy equal to this content.
    pub fn duplicate(&self) -> (r: OtherStateContent)
        ensures
            r == *self,
    {
        match self {
            OtherStateContent::RoomName(s) => OtherStateContent::RoomName(s.clone()),
            OtherStateContent::RoomTopic(s) => OtherStateContent::RoomTopic(s.clone()),
        }
    }
}

/// A copy of a list of reaction entries.
pub fn duplicate_reactions(v: &Vec<ReactionEntry>) -> (r: Vec<ReactionEntry>)
    ensures
        r@ == v@,
{
    let mut r: Vec<ReactionEntry> = Vec::new();
    let mut i: usize = 0;
    while i < v.len()
        invariant
            0 <= i <= v@.len(),
            r@ == v@.subrange(0, i as int),
        decreases v@.len() - i,
    {
        r.push(v[i].duplicate());
        i = i + 1;
        assert(r@ =~= v@.subrange(0, i as int));
    }
    assert(v@.subrange(0, v@.len() as int) =~= v@);
    r
}

impl TimelineItemContent {
    /// A copy with the same model.
    pub fn duplicate(&self) -> (r: TimelineItemContent)
        ensures
            r@ == self@,
    {
        match self {
            TimelineItemContent::Message { body, edited, reactions } => TimelineItemContent::Message {
                body: body.clone(),
                edited: *edited,
                reactions: duplicate_reactions(reactions),
            },
            TimelineItemContent::Redacted => TimelineItemContent::Redacted,
            TimelineItemContent::MembershipChange { state_key, membership } => {
                TimelineItemContent::MembershipChange {
                    state_key: state_key.clone(),
                    membership: membership.clone(),
                }
            },
            TimelineItemContent::OtherState { content } => TimelineItemContent::OtherState {
                content: content.duplicate(),
            },
            TimelineItemContent::FailedToParse { event_type } => TimelineItemContent::FailedToParse {
                event_type: *event_type,
            },
        }
    }

    /// Whether this content is `Redacted`.
    pub fn is_redacted(&self) -> (r: bool)
        ensures
            r == (self@ is Redacted),
    {
        match self {
            TimelineItemContent::Redacted => true,
            _ => false,
        }
    }

    /// The number of reaction applications aggregated here.
    pub fn reaction_count(&self) -> (r: usize)
        ensures
            r == (match self@ {
                ContentModel::Message { reactions, .. } => reactions.len(),
                _ => 0,
            }),
    {
        match self {
            TimelineItemContent::Message { reactions, .. } => reactions.len(),
            _ => 0,
        }
    }
}

impl TimelineItem {
    /// A copy with the same model.
    pub fn duplicate(&self) -> (r: TimelineItem)
        ensures
            r@ == self@,
    {
        TimelineItem {
            internal_id: self.internal_id,
            sender: self.sender.clone(),
            timestamp: self.timestamp,
            event_id: copy_string_opt(&self.event_id),
            transaction_id: copy_string_opt(&self.transaction_id),
            send_state: self.send_state,
            content: self.content.duplicate(),
        }
    }
}

/// A copy of a list of items.
pub fn duplicate_items(v: &Vec<TimelineItem>) -> (r: Vec<TimelineItem>)
    ensures
        items_model(r@) == items_model(v@),
{
    let mut r: Vec<TimelineItem> = Vec::new();
    let mut i: usize = 0;
    while i < v.len()
        invariant
            0 <= i <= v@.len(),
            r@.len() == i,
            forall|j: int| 0 <= j < i ==> (#[trigger] r@[j])@ == v@[j]@,
        decreases v@.len() - i,
    {
        r.push(v[i].duplicate());
        i = i + 1;
    }
    assert(items_model(r@) =~= items_model(v@));
    r
}

impl VectorDiff {
    /// A copy with the same model.
    pub fn duplicate(&self) -> (r: VectorDiff)
        ensures
            r@ == self@,
    {
        match self {
            VectorDiff::PushBack { value } => VectorDiff::PushBack { value: value.duplicate() },
            VectorDiff::PushFront { value } => VectorDiff::PushFront { value: value.duplicate() },
            VectorDiff::Insert { index, value } => VectorDiff::Insert {
                index: *index,
                value: value.duplicate(),
            },
            VectorDiff::SetAt { index, value } => VectorDiff::SetAt {
                index: *index,
                value: value.duplicate(),
            },
            VectorDiff::Remove { index } => VectorDiff::Remove { index: *index },
            VectorDiff::Clear => VectorDiff::Clear,
            VectorDiff::Reset { values } => VectorDiff::Reset { values: duplicate_items(values) },
        }
    }
}

/// Applies `d` to `list`, as a subscriber that mirrors the timeline does.
pub fn apply_diff(list: &mut Vec<TimelineItem>, d: VectorDiff)
    requires
        diff_fits(d@, old(list)@.len() as int),
    ensures
        items_model(final(list)@) == apply_diff_model(items_model(old(list)@), d@),
{
    let ghost s0 = items_model(list@);
    match d {
        VectorDiff::PushBack { value } => {
            list.push(value);
            assert(items_model(list@) =~= s0.push(value@));
        },
        VectorDiff::PushFront { value } => {
            list.insert(0, value);
            assert(items_model(list@) =~= seq![value@] + s0);
        },
        VectorDiff::Insert { index, value } => {
            list.insert(index, value);
            assert(items_model(list@) =~= s0.insert(index as int, value@));
        },
        VectorDiff::SetAt { index, value } => {
            list.set(index, value);
            assert(items_model(list@) =~= s0.update(index as int, value@));
        },
        VectorDiff::Remove { index } => {
            list.remove(index);
            assert(items_model(list@) =~= s0.remove(index as int));
        },
        VectorDiff::Clear => {
            list.clear();
            assert(items_model(list@) =~= Seq::<ItemModel>::empty());
        },
        VectorDiff::Reset { values } => {
            *list = values;
        },
    }
}

} // verus!
