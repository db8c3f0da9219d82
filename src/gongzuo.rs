//! Time entries ("gongzuo") and the contents they are labelled with: the
//! content registry, the overlap guard, and the entry store whose mutations
//! are checked against ownership and applied all at once or not at all.

use vstd::prelude::*;
use crate::query::{
    first_index,
    select,
    lemma_first_index_step,
    lemma_select_step,
    lemma_first_index_push,
    lemma_first_index_meaning,
    lemma_first_index_prefix,
    lemma_first_index_update,
};
use crate::user::{UserHandler, UserTable};
use crate::time::{UtcTime, ZonedTime, JST_OFFSET_SECONDS, into_jst};

verus! {

/// What a content is about.
#[derive(Clone, Copy, Debug, PartialEq, Eq, Structural)]
pub enum ContentKind {
    Work,
    NotWork,
}

impl ContentKind {
    /// The integer that stands for the kind in storage and on the wire.
    pub open spec fn spec_code(self) -> i32 {
        match self {
            ContentKind::Work => 0,
            ContentKind::NotWork => 1,
        }
    }

    pub fn code(self) -> (r: i32)
        ensures
            r == self.spec_code(),
    {
        match self {
            ContentKind::Work => 0,
            ContentKind::NotWork => 1,
        }
    }

    /// The kind with the given code; only 0 and 1 are codes.
    pub fn from_code(value: i32) -> (r: ContentKind)
        requires
            value == 0 || value == 1,
        ensures
            r.spec_code() == value,
    {
        if value == 0 {
            ContentKind::Work
        } else {
            ContentKind::NotWork
        }
    }
}

/// A deduplicated (kind, label) pair.
#[derive(Debug)]
pub struct Content {
    pub id: i32,
    pub kind: ContentKind,
    pub label: String,
}

/// A stored time entry: who, which content, and when.
#[derive(Clone, Copy, Debug, PartialEq, Eq, Structural)]
pub struct EntryRow {
    pub id: i32,
    pub user_id: i32,
    pub content_id: i32,
    pub started_at: UtcTime,
    /// `None` while the entry is still running.
    pub ended_at: Option<UtcTime>,
}

/// A time entry joined with its content.
#[derive(Debug)]
pub struct GongzuoRaw {
    pub id: i32,
    pub user_id: i32,
    pub content_id: i32,
    pub started_at: UtcTime,
    pub ended_at: Option<UtcTime>,
    pub content_kind: ContentKind,
    pub content: String,
}

/// A joined time entry with its instants shown in Japan Standard Time.
#[derive(Debug)]
pub struct Gongzuo {
    pub id: i32,
    pub user_id: i32,
    pub content_id: i32,
    pub started_at: ZonedTime,
    pub ended_at: Option<ZonedTime>,
    pub content_kind: ContentKind,
    pub content: String,
}

impl Gongzuo {
    /// The entry as shown: its instants at UTC+09:00.
    pub open spec fn shown(value: GongzuoRaw) -> Gongzuo {
        Gongzuo {
            id: value.id,
            user_id: value.user_id,
            content_id: value.content_id,
            started_at: ZonedTime { utc: value.started_at, offset_seconds: JST_OFFSET_SECONDS },
            ended_at: match value.ended_at {
                Some(t) => Some(ZonedTime { utc: t, offset_seconds: JST_OFFSET_SECONDS }),
                None => None,
            },
            content_kind: value.content_kind,
            content: value.content,
        }
    }

    /// Entries as shown, in the same order.
    pub open spec fn shown_rows(rows: Seq<GongzuoRaw>) -> Seq<Gongzuo> {
        rows.map_values(|g: GongzuoRaw| Gongzuo::shown(g))
    }

    pub fn from_raw(value: GongzuoRaw) -> (r: Gongzuo)
        ensures
            r == Gongzuo::shown(value),
    {
        let ended_at = match value.ended_at {
            Some(t) => Some(into_jst(t)),
            None => None,
        };
        Gongzuo {
            id: value.id,
            user_id: value.user_id,
            content_id: value.content_id,
            started_at: into_jst(value.started_at),
            ended_at,
            content_kind: value.content_kind,
            content: value.content,
        }
    }
}

impl GongzuoRaw {
    pub fn duplicate(&self) -> (r: GongzuoRaw)
        ensures
            r == *self,
    {
        GongzuoRaw {
            id: self.id,
            user_id: self.user_id,
            content_id: self.content_id,
            started_at: self.started_at,
            ended_at: self.ended_at,
            content_kind: self.content_kind,
            content: self.content.clone(),
        }
    }
}

/// What a caller asks an entry to hold.
#[derive(Debug)]
pub struct GongzuoPayload {
    pub started_at: UtcTime,
    pub ended_at: Option<UtcTime>,
    pub content_kind: ContentKind,
    pub content: String,
}

/// Why the store turned a request down.
#[derive(Clone, Copy, Debug, PartialEq, Eq, Structural)]
pub enum EntryError {
    /// Another entry of the user is running at the requested start.
    Conflict,
    /// No entry has this identifier.
    NotFound(i32),
    /// The entry belongs to another user.
    Ownership,
    /// The requested end is not after the requested start.
    InvalidPeriod,
    /// The store cannot take the write (its identifiers are used up).
    Store,
}

/// The period from `start` to `end` (if any) is proper: a present end is
/// strictly after the start.
pub open spec fn proper_period(start: UtcTime, end: Option<UtcTime>) -> bool {
    match end {
        Some(e) => start.micros < e.micros,
        None => true,
    }
}

/// Whether a present end is strictly after the start.
pub fn is_proper_period(start: UtcTime, end: Option<UtcTime>) -> (r: bool)
    ensures
        r == proper_period(start, end),
{
    match end {
        Some(e) => start.micros < e.micros,
        None => true,
    }
}

/// `e` is running at `t`: started at or before it, and not ended by then.
pub open spec fn is_active_at(e: EntryRow, t: UtcTime) -> bool {
    &&& e.started_at.micros <= t.micros
    &&& match e.ended_at {
        None => true,
        Some(end) => end.micros > t.micros,
    }
}

/// `e` is an entry of `user_id`, other than `exclude`, running at `t`.
pub open spec fn conflicting(e: EntryRow, user_id: i32, t: UtcTime, exclude: Option<i32>) -> bool {
    &&& e.user_id == user_id
    &&& exclude != Some(e.id)
    &&& is_active_at(e, t)
}

pub open spec fn content_with_id(id: i32) -> spec_fn(Content) -> bool {
    |c: Content| c.id == id
}

pub open spec fn content_with_pair(kind: ContentKind, label: Seq<char>) -> spec_fn(Content) -> bool {
    |c: Content| c.kind == kind && c.label@ == label
}

pub open spec fn entry_with_id(id: i32) -> spec_fn(EntryRow) -> bool {
    |e: EntryRow| e.id == id
}

pub open spec fn owned_by(user_id: i32) -> spec_fn(EntryRow) -> bool {
    |e: EntryRow| e.user_id == user_id
}

pub open spec fn owned_by_regular(users: UserTable) -> spec_fn(EntryRow) -> bool {
    |e: EntryRow| users.is_regular(e.user_id)
}

pub open spec fn active_for(user_id: i32, t: UtcTime) -> spec_fn(EntryRow) -> bool {
    |e: EntryRow| e.user_id == user_id && is_active_at(e, t)
}

/// The abstract content of an entry store.
pub struct StoreState {
    pub contents: Seq<Content>,
    pub entries: Seq<EntryRow>,
    /// The identifier the next content row gets.
    pub next_content_id: int,
    /// The identifier the next entry row gets.
    pub next_entry_id: int,
}

impl StoreState {
    /// Identifiers are positive, ascending in row order and below the next
    /// one handed out; no two contents share kind and label; every entry's
    /// end, if any, is after its start; every entry's content exists.
    pub open spec fn wf(self) -> bool {
        &&& 1 <= self.next_content_id <= i32::MAX
        &&& 1 <= self.next_entry_id <= i32::MAX
        &&& forall|i: int, j: int|
            0 <= i < j < self.contents.len() ==> #[trigger] self.contents[i].id
                < #[trigger] self.contents[j].id
        &&& forall|i: int|
            0 <= i < self.contents.len() ==> 1 <= #[trigger] self.contents[i].id
                < self.next_content_id
        &&& forall|i: int, j: int|
            0 <= i < j < self.contents.len() ==> !(#[trigger] self.contents[i].kind
                == #[trigger] self.contents[j].kind && self.contents[i].label@
                == self.contents[j].label@)
        &&& forall|i: int, j: int|
            0 <= i < j < self.entries.len() ==> #[trigger] self.entries[i].id
                < #[trigger] self.entries[j].id
        &&& forall|i: int|
            0 <= i < self.entries.len() ==> 1 <= #[trigger] self.entries[i].id
                < self.next_entry_id
        &&& forall|i: int|
            0 <= i < self.entries.len() ==> proper_period(
                #[trigger] self.entries[i].started_at,
                self.entries[i].ended_at,
            )
        &&& forall|i: int|
            0 <= i < self.entries.len() ==> first_index(
                self.contents,
                content_with_id(#[trigger] self.entries[i].content_id),
            ) is Some
    }

    /// Row of the first content with this kind and label.
    pub open spec fn content_slot(self, kind: ContentKind, label: Seq<char>) -> Option<int> {
        first_index(self.contents, content_with_pair(kind, label))
    }

    /// The pair exists already, or a new content identifier is left.
    pub open spec fn can_resolve(self, kind: ContentKind, label: Seq<char>) -> bool {
        self.content_slot(kind, label) is Some || self.next_content_id < i32::MAX
    }

    /// Identifier the registry answers for the pair.
    pub open spec fn resolved_id(self, kind: ContentKind, label: Seq<char>) -> i32 {
        match self.content_slot(kind, label) {
            Some(i) => self.contents[i].id,
            None => self.next_content_id as i32,
        }
    }

    /// The store after the registry has answered for the pair: unchanged if
    /// the pair exists, else with one new content row at the end.
    pub open spec fn resolve(self, kind: ContentKind, label: String) -> StoreState {
        match self.content_slot(kind, label@) {
            Some(_) => self,
            None => StoreState {
                contents: self.contents.push(
                    Content { id: self.next_content_id as i32, kind, label },
                ),
                next_content_id: self.next_content_id + 1,
                ..self
            },
        }
    }

    /// Some entry of `user_id` other than `exclude` is running at `t`.
    pub open spec fn conflicts(self, user_id: i32, t: UtcTime, exclude: Option<i32>) -> bool {
        exists|i: int|
            0 <= i < self.entries.len() && #[trigger] conflicting(
                self.entries[i],
                user_id,
                t,
                exclude,
            )
    }

    pub open spec fn entry_slot(self, id: i32) -> Option<int> {
        first_index(self.entries, entry_with_id(id))
    }

    /// Result of creating an entry: a proper period and room for the rows;
    /// no overlap check.
    pub open spec fn create_result(self, user_id: i32, p: GongzuoPayload) -> Result<i32, EntryError> {
        if !proper_period(p.started_at, p.ended_at) {
            Err(EntryError::InvalidPeriod)
        } else if self.can_resolve(p.content_kind, p.content@) && self.next_entry_id < i32::MAX {
            Ok(self.next_entry_id as i32)
        } else {
            Err(EntryError::Store)
        }
    }

    /// The store after a successful create.
    pub open spec fn created(self, user_id: i32, p: GongzuoPayload) -> StoreState {
        let s = self.resolve(p.content_kind, p.content);
        StoreState {
            entries: s.entries.push(
                EntryRow {
                    id: self.next_entry_id as i32,
                    user_id,
                    content_id: self.resolved_id(p.content_kind, p.content@),
                    started_at: p.started_at,
                    ended_at: p.ended_at,
                },
            ),
            next_entry_id: self.next_entry_id + 1,
            ..s
        }
    }

    /// Result of an update: overlap first, then existence, then ownership,
    /// then a proper period, then room for a new content.
    pub open spec fn update_result(self, id: i32, user_id: i32, p: GongzuoPayload) -> Result<
        (),
        EntryError,
    > {
        if self.conflicts(user_id, p.started_at, Some(id)) {
            Err(EntryError::Conflict)
        } else {
            match self.entry_slot(id) {
                None => Err(EntryError::NotFound(id)),
                Some(k) => if self.entries[k].user_id != user_id {
                    Err(EntryError::Ownership)
                } else if !proper_period(p.started_at, p.ended_at) {
                    Err(EntryError::InvalidPeriod)
                } else if !self.can_resolve(p.content_kind, p.content@) {
                    Err(EntryError::Store)
                } else {
                    Ok(())
                },
            }
        }
    }

    /// The store after a successful update: the content resolved and the
    /// entry's content, start and end replaced.
    pub open spec fn updated(self, id: i32, user_id: i32, p: GongzuoPayload) -> StoreState {
        let s = self.resolve(p.content_kind, p.content);
        match self.entry_slot(id) {
            Some(k) => StoreState {
                entries: s.entries.update(
                    k,
                    EntryRow {
                        id,
                        user_id,
                        content_id: self.resolved_id(p.content_kind, p.content@),
                        started_at: p.started_at,
                        ended_at: p.ended_at,
                    },
                ),
                ..s
            },
            None => self,
        }
    }

    /// Result of a delete: existence, then ownership.
    pub open spec fn delete_result(self, id: i32, user_id: i32) -> Result<(), EntryError> {
        match self.entry_slot(id) {
            None => Err(EntryError::NotFound(id)),
            Some(k) => if self.entries[k].user_id != user_id {
                Err(EntryError::Ownership)
            } else {
                Ok(())
            },
        }
    }

    /// The store after a successful delete.
    pub open spec fn deleted(self, id: i32) -> StoreState {
        match self.entry_slot(id) {
            Some(k) => StoreState { entries: self.entries.remove(k), ..self },
            None => self,
        }
    }

    /// An entry joined with its content.
    pub open spec fn materialize(self, e: EntryRow) -> GongzuoRaw {
        let c = self.contents[first_index(self.contents, content_with_id(e.content_id)).unwrap()];
        GongzuoRaw {
            id: e.id,
            user_id: e.user_id,
            content_id: e.content_id,
            started_at: e.started_at,
            ended_at: e.ended_at,
            content_kind: c.kind,
            content: c.label,
        }
    }

    pub open spec fn rows_of(self, s: Seq<EntryRow>) -> Seq<GongzuoRaw> {
        s.map_values(|e: EntryRow| self.materialize(e))
    }

    /// The joined entry with this identifier.
    pub open spec fn entry_view(self, id: i32) -> Option<GongzuoRaw> {
        match self.entry_slot(id) {
            Some(k) => Some(self.materialize(self.entries[k])),
            None => None,
        }
    }

    /// The first entry of `user_id` (the one with the lowest identifier)
    /// running at `t`.
    pub open spec fn active_entry(self, user_id: i32, t: UtcTime) -> Option<GongzuoRaw> {
        match first_index(self.entries, active_for(user_id, t)) {
            Some(k) => Some(self.materialize(self.entries[k])),
            None => None,
        }
    }

    /// The joined entries of users who are not admins, in identifier order.
    pub open spec fn rows_for_regular(self, users: UserTable) -> Seq<GongzuoRaw> {
        self.rows_of(select(self.entries, owned_by_regular(users)))
    }

    /// The joined entries of `user_id`, in identifier order.
    pub open spec fn rows_for_user(self, user_id: i32) -> Seq<GongzuoRaw> {
        self.rows_of(select(self.entries, owned_by(user_id)))
    }
}

/// The registry answers with a content that exists, and resolving keeps the
/// store well formed.
pub proof fn lemma_resolve_wf(s: StoreState, kind: ContentKind, label: String)
    requires
        s.wf(),
        s.can_resolve(kind, label@),
    ensures
        s.resolve(kind, label).wf(),
        s.resolve(kind, label).entries == s.entries,
        s.resolve(kind, label).next_entry_id == s.next_entry_id,
        first_index(s.resolve(kind, label).contents, content_with_id(s.resolved_id(kind, label@)))
            is Some,
{
    let r = s.resolve(kind, label);
    match s.content_slot(kind, label@) {
        Some(i) => {
            lemma_first_index_meaning(s.contents, content_with_pair(kind, label@));
            lemma_first_index_meaning(s.contents, content_with_id(s.contents[i].id));
        },
        None => {
            let x = Content { id: s.next_content_id as i32, kind, label };
            lemma_first_index_meaning(s.contents, content_with_pair(kind, label@));
            assert forall|i: int, j: int| 0 <= i < j < r.contents.len() implies !(
            #[trigger] r.contents[i].kind == #[trigger] r.contents[j].kind && r.contents[i].label@
                == r.contents[j].label@) by {
                if j == s.contents.len() {
                    assert(!content_with_pair(kind, label@)(s.contents[i]));
                }
            }
            assert forall|i: int| 0 <= i < r.entries.len() implies first_index(
                r.contents,
                content_with_id(#[trigger] r.entries[i].content_id),
            ) is Some by {
                lemma_first_index_push(s.contents, content_with_id(s.entries[i].content_id), x);
            }
            lemma_first_index_push(s.contents, content_with_id(x.id), x);
        },
    }
}


/// In a well-formed store an identifier names at most one entry: the entry
/// at row `k` is the one `entry_slot` finds.
pub proof fn lemma_entry_slot_of_row(s: StoreState, k: int)
    requires
        s.wf(),
        0 <= k < s.entries.len(),
    ensures
        s.entry_slot(s.entries[k].id) == Some(k),
{
    let p = entry_with_id(s.entries[k].id);
    lemma_first_index_meaning(s.entries, p);
    match first_index(s.entries, p) {
        Some(j) => {
            if j < k {
                assert(s.entries[j].id < s.entries[k].id);
            } else if j > k {
                assert(p(s.entries[k]));
            }
        },
        None => {
            assert(p(s.entries[k]));
        },
    }
}

/// Moving an entry of a user so that its start falls inside the period of
/// another entry of that user (at or after its start, before its end, or
/// anywhere after the start of a running one) is turned down as a conflict;
/// `update_gongzuo` then leaves the store as it was.
pub proof fn lemma_update_into_other_entry_conflicts(
    s: StoreState,
    user_id: i32,
    other: int,
    moved_id: i32,
    p: GongzuoPayload,
)
    requires
        s.wf(),
        0 <= other < s.entries.len(),
        s.entries[other].user_id == user_id,
        s.entries[other].id != moved_id,
        s.entries[other].started_at.micros <= p.started_at.micros,
        match s.entries[other].ended_at {
            Some(end) => p.started_at.micros < end.micros,
            None => true,
        },
    ensures
        s.update_result(moved_id, user_id, p) == Err::<(), EntryError>(EntryError::Conflict),
{
    assert(conflicting(s.entries[other], user_id, p.started_at, Some(moved_id)));
}

/// Creating never looks for overlaps: two creates for one user succeed
/// whatever their (proper) periods, identical or overlapping ones included,
/// as long as identifiers are left; both entries are then stored with the
/// periods asked for.
pub proof fn lemma_create_ignores_overlap(s: StoreState, user_id: i32, p1: GongzuoPayload, p2: GongzuoPayload)
    requires
        s.wf(),
        s.next_content_id < i32::MAX - 1,
        s.next_entry_id < i32::MAX - 1,
        proper_period(p1.started_at, p1.ended_at),
        proper_period(p2.started_at, p2.ended_at),
    ensures
        s.create_result(user_id, p1) is Ok,
        s.created(user_id, p1).create_result(user_id, p2) is Ok,
        ({
            let s2 = s.created(user_id, p1).created(user_id, p2);
            let n = s.entries.len() as int;
            &&& s2.entries.len() == n + 2
            &&& s2.entries[n].user_id == user_id
            &&& s2.entries[n].started_at == p1.started_at
            &&& s2.entries[n].ended_at == p1.ended_at
            &&& s2.entries[n + 1].user_id == user_id
            &&& s2.entries[n + 1].started_at == p2.started_at
            &&& s2.entries[n + 1].ended_at == p2.ended_at
        }),
{
    let s1 = s.created(user_id, p1);
    assert(s1.next_content_id <= s.next_content_id + 1);
}

/// Updating or deleting an entry that belongs to another user is turned
/// down as an ownership error (for an update: when the overlap check does
/// not turn it down first); the store is then left as it was.
pub proof fn lemma_foreign_entry_rejected(s: StoreState, k: int, user_id: i32, p: GongzuoPayload)
    requires
        s.wf(),
        0 <= k < s.entries.len(),
        s.entries[k].user_id != user_id,
    ensures
        s.delete_result(s.entries[k].id, user_id) == Err::<(), EntryError>(EntryError::Ownership),
        !s.conflicts(user_id, p.started_at, Some(s.entries[k].id)) ==> s.update_result(s.entries[k].id, user_id, p) == Err::<(), EntryError>(
            EntryError::Ownership,
        ),
{
    lemma_entry_slot_of_row(s, k);
}

/// Updating or deleting an identifier that no entry has is turned down as
/// not found (for an update: when the overlap check does not turn it down
/// first).
pub proof fn lemma_missing_entry_rejected(s: StoreState, id: i32, user_id: i32, p: GongzuoPayload)
    requires
        s.wf(),
        forall|k: int| 0 <= k < s.entries.len() ==> #[trigger] s.entries[k].id != id,
    ensures
        s.delete_result(id, user_id) == Err::<(), EntryError>(EntryError::NotFound(id)),
        !s.conflicts(user_id, p.started_at, Some(id)) ==> s.update_result(id, user_id, p) == Err::<(), EntryError>(EntryError::NotFound(id)),
{
    lemma_first_index_meaning(s.entries, entry_with_id(id));
    if let Some(j) = s.entry_slot(id) {
        assert(entry_with_id(id)(s.entries[j]));
    }
}

/// Resolving the same kind and label twice answers the same identifier; the
/// second call changes nothing, the two together add one content row when
/// the pair was new and none otherwise, and afterwards exactly one content
/// row holds the pair.
pub proof fn lemma_resolve_twice(s: StoreState, kind: ContentKind, label: String)
    requires
        s.wf(),
        s.can_resolve(kind, label@),
    ensures
        ({
            let s1 = s.resolve(kind, label);
            &&& s1.can_resolve(kind, label@)
            &&& s1.resolved_id(kind, label@) == s.resolved_id(kind, label@)
            &&& s1.resolve(kind, label) == s1
            &&& s1.contents.len() == s.contents.len() + (if s.content_slot(kind, label@) is None {
                1int
            } else {
                0int
            })
            &&& s1.content_slot(kind, label@) matches Some(i) && forall|j: int|
                0 <= j < s1.contents.len() && j != i ==> !content_with_pair(kind, label@)(
                    #[trigger] s1.contents[j],
                )
        }),
{
    let x = Content { id: s.next_content_id as i32, kind, label };
    let p = content_with_pair(kind, label@);
    lemma_first_index_push(s.contents, p, x);
    lemma_resolve_wf(s, kind, label);
    let s1 = s.resolve(kind, label);
    lemma_first_index_meaning(s1.contents, p);
    if let Some(i) = s1.content_slot(kind, label@) {
        assert forall|j: int| 0 <= j < s1.contents.len() && j != i implies !p(#[trigger] s1.contents[j]) by {
            if p(s1.contents[j]) {
                assert(p(s1.contents[i]));
                if i < j {
                    assert(s1.contents[i].kind == s1.contents[j].kind);
                } else {
                    assert(s1.contents[j].kind == s1.contents[i].kind);
                }
            }
        }
    }
}

/// Two creates with the same kind and label (for one user or two) refer
/// to one content: the registry answers the same identifier both times,
/// at most the first create adds a content row, and afterwards exactly one
/// row holds the pair.
pub proof fn lemma_creates_share_content(
    s: StoreState,
    u1: i32,
    p1: GongzuoPayload,
    u2: i32,
    p2: GongzuoPayload,
)
    requires
        s.wf(),
        s.next_content_id < i32::MAX,
        s.next_entry_id < i32::MAX - 1,
        proper_period(p1.started_at, p1.ended_at),
        proper_period(p2.started_at, p2.ended_at),
        p1.content_kind == p2.content_kind,
        p1.content@ == p2.content@,
    ensures
        s.create_result(u1, p1) is Ok,
        s.created(u1, p1).create_result(u2, p2) is Ok,
        ({
            let s2 = s.created(u1, p1).created(u2, p2);
            let n = s.entries.len() as int;
            &&& s2.entries.len() == n + 2
            &&& s2.entries[n].content_id == s2.entries[n + 1].content_id
            &&& s2.contents.len() <= s.contents.len() + 1
            &&& s2.contents.len() == s.contents.len() + (if s.content_slot(p1.content_kind, p1.content@)
                is None {
                1int
            } else {
                0int
            })
            &&& s2.content_slot(p1.content_kind, p1.content@) matches Some(i) && forall|j: int|
                0 <= j < s2.contents.len() && j != i ==> !content_with_pair(p1.content_kind, p1.content@)(
                    #[trigger] s2.contents[j],
                )
        }),
{
    lemma_resolve_twice(s, p1.content_kind, p1.content);
    lemma_resolve_twice(s, p1.content_kind, p2.content);
    let s1 = s.created(u1, p1);
    let r1 = s.resolve(p1.content_kind, p1.content);
    assert(s1.contents == r1.contents);
    assert(s.created(u1, p1).created(u2, p2).contents == s1.contents);
}

/// Ending an entry that succeeds leaves it retrievable by its identifier,
/// with the end asked for, after its start.
pub proof fn lemma_ended_entry_ends_after_start(s: StoreState, id: i32, user_id: i32, p: GongzuoPayload)
    requires
        s.wf(),
        s.entry_view(id) matches Some(g) && p.started_at == g.started_at,
        p.ended_at is Some,
        s.update_result(id, user_id, p) is Ok,
    ensures
        s.updated(id, user_id, p).entry_view(id) matches Some(g) && g.started_at == p.started_at
            && g.ended_at == p.ended_at && g.started_at.micros < g.ended_at.unwrap().micros,
{
    let k = s.entry_slot(id).unwrap();
    lemma_first_index_meaning(s.entries, entry_with_id(id));
    assert(entry_with_id(id)(s.entries[k]));
    let r = s.resolve(p.content_kind, p.content);
    let row = EntryRow {
        id,
        user_id,
        content_id: s.resolved_id(p.content_kind, p.content@),
        started_at: p.started_at,
        ended_at: p.ended_at,
    };
    lemma_resolve_wf(s, p.content_kind, p.content);
    lemma_first_index_update(r.entries, entry_with_id(id), k, row);
}

/// The entry running at `t` for a user is one of that user's entries that
/// started at or before `t` and has not ended by then, the one with the
/// lowest identifier among them; there is none exactly when no entry of the
/// user is running at `t`.
pub proof fn lemma_active_entry_meaning(s: StoreState, user_id: i32, t: UtcTime)
    requires
        s.wf(),
    ensures
        match s.active_entry(user_id, t) {
            Some(g) => exists|k: int|
                0 <= k < s.entries.len() && #[trigger] s.entries[k].user_id == user_id && is_active_at(
                    s.entries[k],
                    t,
                ) && g == s.materialize(s.entries[k]) && forall|j: int|
                    0 <= j < s.entries.len() && s.entries[j].user_id == user_id && is_active_at(
                        s.entries[j],
                        t,
                    ) ==> s.entries[k].id <= #[trigger] s.entries[j].id,
            None => forall|k: int|
                0 <= k < s.entries.len() ==> !(#[trigger] s.entries[k].user_id == user_id
                    && is_active_at(s.entries[k], t)),
        },
{
    let p = active_for(user_id, t);
    lemma_first_index_meaning(s.entries, p);
    match first_index(s.entries, p) {
        Some(k) => {
            assert(p(s.entries[k]));
            assert forall|j: int|
                0 <= j < s.entries.len() && s.entries[j].user_id == user_id && is_active_at(
                    s.entries[j],
                    t,
                ) implies s.entries[k].id <= #[trigger] s.entries[j].id by {
                if j < k {
                    assert(p(s.entries[j]));
                }
            }
        },
        None => {
            assert forall|k: int| 0 <= k < s.entries.len() implies !(#[trigger] s.entries[k].user_id
                == user_id && is_active_at(s.entries[k], t)) by {
                if s.entries[k].user_id == user_id && is_active_at(s.entries[k], t) {
                    assert(p(s.entries[k]));
                }
            }
        },
    }
}

/// The entry store: contents and time entries, with the identifier counters
/// that stand in for the database's sequences.
pub struct GongzuoHandler {
    contents: Vec<Content>,
    entries: Vec<EntryRow>,
    next_content_id: i32,
    next_entry_id: i32,
}

impl View for GongzuoHandler {
    type V = StoreState;

    closed spec fn view(&self) -> StoreState {
        StoreState {
            contents: self.contents@,
            entries: self.entries@,
            next_content_id: self.next_content_id as int,
            next_entry_id: self.next_entry_id as int,
        }
    }
}

impl GongzuoHandler {
    /// An empty store.
    pub fn new() -> (r: GongzuoHandler)
        ensures
            r@.wf(),
            r@.contents.len() == 0,
            r@.entries.len() == 0,
            r@.next_content_id == 1,
            r@.next_entry_id == 1,
    {
        GongzuoHandler { contents: Vec::new(), entries: Vec::new(), next_content_id: 1, next_entry_id: 1 }
    }

    fn find_content_by_pair(&self, kind: ContentKind, label: &String) -> (r: Option<usize>)
        ensures
            r matches Some(i) ==> self@.content_slot(kind, label@) == Some(i as int) && i < self@.contents.len(),
            r is None ==> self@.content_slot(kind, label@) is None,
    {
        let mut i: usize = 0;
        while i < self.contents.len()
            invariant
                0 <= i <= self.contents@.len(),
                first_index(self.contents@.take(i as int), content_with_pair(kind, label@)) is None,
            decreases self.contents@.len() - i,
        {
            proof {
                lemma_first_index_step(self.contents@, content_with_pair(kind, label@), i as int);
            }
            if self.contents[i].kind == kind && self.contents[i].label == *label {
                assert(content_with_pair(kind, label@)(self.contents@[i as int]));
                proof {
                    lemma_first_index_prefix(self.contents@, content_with_pair(kind, label@), i + 1);
                }
                return Some(i);
            }
            i = i + 1;
        }
        assert(self.contents@.take(i as int) =~= self.contents@);
        None
    }

    fn find_content_by_id(&self, id: i32) -> (r: Option<usize>)
        ensures
            r matches Some(i) ==> first_index(self@.contents, content_with_id(id)) == Some(i as int) && i < self@.contents.len(),
            r is None ==> first_index(self@.contents, content_with_id(id)) is None,
    {
        let mut i: usize = 0;
        while i < self.contents.len()
            invariant
                0 <= i <= self.contents@.len(),
                first_index(self.contents@.take(i as int), content_with_id(id)) is None,
            decreases self.contents@.len() - i,
        {
            proof {
                lemma_first_index_step(self.contents@, content_with_id(id), i as int);
            }
            if self.contents[i].id == id {
                assert(content_with_id(id)(self.contents@[i as int]));
                proof {
                    lemma_first_index_prefix(self.contents@, content_with_id(id), i + 1);
                }
                return Some(i);
            }
            i = i + 1;
        }
        assert(self.contents@.take(i as int) =~= self.contents@);
        None
    }

    fn find_entry(&self, id: i32) -> (r: Option<usize>)
        ensures
            r matches Some(i) ==> self@.entry_slot(id) == Some(i as int) && i < self@.entries.len(),
            r is None ==> self@.entry_slot(id) is None,
    {
        let mut i: usize = 0;
        while i < self.entries.len()
            invariant
                0 <= i <= self.entries@.len(),
                first_index(self.entries@.take(i as int), entry_with_id(id)) is None,
            decreases self.entries@.len() - i,
        {
            proof {
                lemma_first_index_step(self.entries@, entry_with_id(id), i as int);
            }
            if self.entries[i].id == id {
                assert(entry_with_id(id)(self.entries@[i as int]));
                proof {
                    lemma_first_index_prefix(self.entries@, entry_with_id(id), i + 1);
                }
                return Some(i);
            }
            i = i + 1;
        }
        assert(self.entries@.take(i as int) =~= self.entries@);
        None
    }

    /// Content registry: the identifier of the content with this kind and
    /// label, creating the content if there is none.
    pub fn resolve_or_create(&mut self, kind: ContentKind, label: String) -> (r: Result<i32, EntryError>)
        requires
            old(self)@.wf(),
        ensures
            final(self)@.wf(),
            r is Ok <==> old(self)@.can_resolve(kind, label@),
            r is Ok ==> r == Ok::<i32, EntryError>(old(self)@.resolved_id(kind, label@))
                && final(self)@ == old(self)@.resolve(kind, label),
            r is Err ==> r == Err::<i32, EntryError>(EntryError::Store) && final(self)@ == old(self)@,
    {
        match self.find_content_by_pair(kind, &label) {
            Some(i) => Ok(self.contents[i].id),
            None => {
                if self.next_content_id == i32::MAX {
                    return Err(EntryError::Store);
                }
                proof {
                    lemma_resolve_wf(self@, kind, label);
                }
                let id = self.next_content_id;
                self.contents.push(Content { id, kind, label });
                self.next_content_id = id + 1;
                Ok(id)
            },
        }
    }

    /// Overlap guard: some entry of `user_id` other than `exclude` has
    /// started at or before `start` and not ended by then.
    pub fn has_conflict(&self, user_id: i32, start: UtcTime, exclude: Option<i32>) -> (r: bool)
        ensures
            r == self@.conflicts(user_id, start, exclude),
    {
        let mut i: usize = 0;
        while i < self.entries.len()
            invariant
                0 <= i <= self.entries@.len(),
                forall|j: int| 0 <= j < i ==> !conflicting(#[trigger] self.entries@[j], user_id, start, exclude),
            decreases self.entries@.len() - i,
        {
            let e = self.entries[i];
            let excluded = match exclude {
                Some(x) => x == e.id,
                None => false,
            };
            let running = match e.ended_at {
                Some(end) => end.micros > start.micros,
                None => true,
            };
            if e.user_id == user_id && !excluded && e.started_at.micros <= start.micros && running {
                assert(conflicting(self@.entries[i as int], user_id, start, exclude));
                return true;
            }
            i = i + 1;
        }
        false
    }

    /// Creates an entry for `user_id`; turned down when the end is not after
    /// the start. Unlike `update_gongzuo`, this makes no overlap check: two
    /// entries of one user may be created over the same period. That is a
    /// known gap of the one-sided overlap rule, kept as is.
    pub fn create_gongzuo(&mut self, user_id: i32, payload: GongzuoPayload) -> (r: Result<i32, EntryError>)
        requires
            old(self)@.wf(),
        ensures
            final(self)@.wf(),
            r == old(self)@.create_result(user_id, payload),
            r is Ok ==> final(self)@ == old(self)@.created(user_id, payload),
            r is Err ==> final(self)@ == old(self)@,
    {
        if !is_proper_period(payload.started_at, payload.ended_at) {
            return Err(EntryError::InvalidPeriod);
        }
        if self.next_entry_id == i32::MAX {
            return Err(EntryError::Store);
        }
        let ghost label = payload.content;
        let GongzuoPayload { started_at, ended_at, content_kind, content } = payload;
        let content_id = match self.resolve_or_create(content_kind, content) {
            Ok(c) => c,
            Err(e) => {
                return Err(e);
            },
        };
        proof {
            lemma_resolve_wf(old(self)@, content_kind, label);
        }
        let id = self.next_entry_id;
        self.entries.push(EntryRow { id, user_id, content_id, started_at, ended_at });
        self.next_entry_id = id + 1;
        assert forall|i: int| 0 <= i < self@.entries.len() implies first_index(
            self@.contents,
            content_with_id(#[trigger] self@.entries[i].content_id),
        ) is Some by {
            if i < self@.entries.len() - 1 {
                assert(self@.entries[i] == old(self)@.entries[i]);
            }
        }
        Ok(id)
    }

    /// Replaces the content, start and end of entry `gongzuo_id` on behalf of
    /// `user_id`. Turned down, with nothing changed, when another entry of
    /// the user is running at the new start, when the new end is not after
    /// the new start, when the entry does not exist, or when it belongs to
    /// someone else.
    pub fn update_gongzuo(&mut self, gongzuo_id: i32, user_id: i32, payload: GongzuoPayload) -> (r: Result<(), EntryError>)
        requires
            old(self)@.wf(),
        ensures
            final(self)@.wf(),
            r == old(self)@.update_result(gongzuo_id, user_id, payload),
            r is Ok ==> final(self)@ == old(self)@.updated(gongzuo_id, user_id, payload),
            r is Err ==> final(self)@ == old(self)@,
    {
        if self.has_conflict(user_id, payload.started_at, Some(gongzuo_id)) {
            return Err(EntryError::Conflict);
        }
        let k = match self.find_entry(gongzuo_id) {
            Some(k) => k,
            None => {
                return Err(EntryError::NotFound(gongzuo_id));
            },
        };
        if self.entries[k].user_id != user_id {
            return Err(EntryError::Ownership);
        }
        if !is_proper_period(payload.started_at, payload.ended_at) {
            return Err(EntryError::InvalidPeriod);
        }
        match self.find_content_by_pair(payload.content_kind, &payload.content) {
            Some(_) => {},
            None => {
                if self.next_content_id == i32::MAX {
                    return Err(EntryError::Store);
                }
            },
        }
        let ghost label = payload.content;
        let GongzuoPayload { started_at, ended_at, content_kind, content } = payload;
        let content_id = match self.resolve_or_create(content_kind, content) {
            Ok(c) => c,
            Err(e) => {
                return Err(e);
            },
        };
        proof {
            lemma_resolve_wf(old(self)@, content_kind, label);
            lemma_first_index_meaning(old(self)@.entries, entry_with_id(gongzuo_id));
        }
        self.entries.set(k, EntryRow { id: gongzuo_id, user_id, content_id, started_at, ended_at });
        assert forall|i: int| 0 <= i < self@.entries.len() implies first_index(
            self@.contents,
            content_with_id(#[trigger] self@.entries[i].content_id),
        ) is Some by {
            if i != k {
                assert(self@.entries[i] == old(self)@.entries[i]);
            }
        }
        assert forall|i: int| 0 <= i < self@.entries.len() implies #[trigger] self@.entries[i].id
            == old(self)@.entries[i].id by {
            if i != k {
                assert(self@.entries[i] == old(self)@.entries[i]);
            }
        }
        Ok(())
    }

    /// Deletes entry `gongzuo_id` on behalf of `user_id`. Turned down, with
    /// nothing changed, when the entry does not exist or belongs to someone
    /// else.
    pub fn delete_gongzuo(&mut self, gongzuo_id: i32, user_id: i32) -> (r: Result<(), EntryError>)
        requires
            old(self)@.wf(),
        ensures
            final(self)@.wf(),
            r == old(self)@.delete_result(gongzuo_id, user_id),
            r is Ok ==> final(self)@ == old(self)@.deleted(gongzuo_id),
            r is Err ==> final(self)@ == old(self)@,
    {
        let k = match self.find_entry(gongzuo_id) {
            Some(k) => k,
            None => {
                return Err(EntryError::NotFound(gongzuo_id));
            },
        };
        if self.entries[k].user_id != user_id {
            return Err(EntryError::Ownership);
        }
        let ghost before = self.entries@;
        self.entries.remove(k);
        assert forall|i: int| 0 <= i < self.entries@.len() implies #[trigger] self.entries@[i] == (
        if i < k {
            before[i]
        } else {
            before[i + 1]
        }) by {}
        Ok(())
    }

    /// Joins a stored entry with its content.
    fn row_view(&self, e: EntryRow) -> (r: GongzuoRaw)
        requires
            self@.wf(),
            first_index(self@.contents, content_with_id(e.content_id)) is Some,
        ensures
            r == self@.materialize(e),
    {
        match self.find_content_by_id(e.content_id) {
            Some(c) => GongzuoRaw {
                id: e.id,
                user_id: e.user_id,
                content_id: e.content_id,
                started_at: e.started_at,
                ended_at: e.ended_at,
                content_kind: self.contents[c].kind,
                content: self.contents[c].label.clone(),
            },
            None => {
                assert(false);
                GongzuoRaw {
                    id: e.id,
                    user_id: e.user_id,
                    content_id: e.content_id,
                    started_at: e.started_at,
                    ended_at: e.ended_at,
                    content_kind: ContentKind::Work,
                    content: String::new(),
                }
            },
        }
    }

    /// The entry with this identifier, joined with its content.
    pub fn gongzuo_by_gongzuo_id(&self, gongzuo_id: i32) -> (r: Option<GongzuoRaw>)
        requires
            self@.wf(),
        ensures
            r == self@.entry_view(gongzuo_id),
    {
        match self.find_entry(gongzuo_id) {
            Some(k) => Some(self.row_view(self.entries[k])),
            None => None,
        }
    }

    /// The entry of `user_id` running at `at` (started at or before it and
    /// not ended by then); of several, the one with the lowest identifier.
    pub fn gongzuo_at(&self, user_id: i32, at: UtcTime) -> (r: Option<GongzuoRaw>)
        requires
            self@.wf(),
        ensures
            r == self@.active_entry(user_id, at),
    {
        let mut i: usize = 0;
        while i < self.entries.len()
            invariant
                0 <= i <= self.entries@.len(),
                self@.wf(),
                first_index(self.entries@.take(i as int), active_for(user_id, at)) is None,
            decreases self.entries@.len() - i,
        {
            proof {
                lemma_first_index_step(self.entries@, active_for(user_id, at), i as int);
            }
            let e = self.entries[i];
            let running = match e.ended_at {
                Some(end) => end.micros > at.micros,
                None => true,
            };
            if e.user_id == user_id && e.started_at.micros <= at.micros && running {
                assert(active_for(user_id, at)(self.entries@[i as int]));
                proof {
                    lemma_first_index_prefix(self.entries@, active_for(user_id, at), i + 1);
                }
                return Some(self.row_view(e));
            }
            i = i + 1;
        }
        assert(self.entries@.take(i as int) =~= self.entries@);
        None
    }

    /// The entries of `user_id`, joined with their contents, in identifier
    /// order.
    pub fn gongzuos_by_user_id(&self, user_id: i32) -> (r: Vec<GongzuoRaw>)
        requires
            self@.wf(),
        ensures
            r@ == self@.rows_for_user(user_id),
    {
        let mut out: Vec<GongzuoRaw> = Vec::new();
        let mut i: usize = 0;
        while i < self.entries.len()
            invariant
                0 <= i <= self.entries@.len(),
                self@.wf(),
                out@ == self@.rows_of(select(self.entries@.take(i as int), owned_by(user_id))),
            decreases self.entries@.len() - i,
        {
            proof {
                lemma_select_step(self.entries@, owned_by(user_id), i as int);
            }
            let e = self.entries[i];
            if e.user_id == user_id {
                assert(owned_by(user_id)(self.entries@[i as int]));
                let row = self.row_view(e);
                let ghost prev = select(self.entries@.take(i as int), owned_by(user_id));
                out.push(row);
                assert(self@.rows_of(prev.push(e)) =~= self@.rows_of(prev).push(self@.materialize(e)));
            }
            i = i + 1;
        }
        assert(self.entries@.take(i as int) =~= self.entries@);
        out
    }

    /// The entries of users who are not admins, joined with their contents,
    /// in identifier order.
    pub fn all_gongzuos(&self, users: &UserHandler) -> (r: Vec<GongzuoRaw>)
        requires
            self@.wf(),
        ensures
            r@ == self@.rows_for_regular(users@),
    {
        let mut out: Vec<GongzuoRaw> = Vec::new();
        let mut i: usize = 0;
        while i < self.entries.len()
            invariant
                0 <= i <= self.entries@.len(),
                self@.wf(),
                out@ == self@.rows_of(select(self.entries@.take(i as int), owned_by_regular(users@))),
            decreases self.entries@.len() - i,
        {
            proof {
                lemma_select_step(self.entries@, owned_by_regular(users@), i as int);
            }
            let e = self.entries[i];
            if users.is_regular_user(e.user_id) {
                assert(owned_by_regular(users@)(self.entries@[i as int]));
                let row = self.row_view(e);
                let ghost prev = select(self.entries@.take(i as int), owned_by_regular(users@));
                out.push(row);
                assert(self@.rows_of(prev.push(e)) =~= self@.rows_of(prev).push(self@.materialize(e)));
            }
            i = i + 1;
        }
        assert(self.entries@.take(i as int) =~= self.entries@);
        out
    }
}

/// The operations of an entry store, over its abstract content. Any
/// storage that keeps these contracts can stand in for the in-memory one.
pub trait GongzuoHandlerTrait {
    spec fn store(&self) -> StoreState;

    fn all_gongzuos(&self, users: &UserHandler) -> (r: Vec<GongzuoRaw>)
        requires
            self.store().wf(),
        ensures
            r@ == self.store().rows_for_regular(users@),
    ;

    fn gongzuos_by_user_id(&self, user_id: i32) -> (r: Vec<GongzuoRaw>)
        requires
            self.store().wf(),
        ensures
            r@ == self.store().rows_for_user(user_id),
    ;

    fn create_gongzuo(&mut self, user_id: i32, payload: GongzuoPayload) -> (r: Result<i32, EntryError>)
        requires
            old(self).store().wf(),
        ensures
            final(self).store().wf(),
            r == old(self).store().create_result(user_id, payload),
            r is Ok ==> final(self).store() == old(self).store().created(user_id, payload),
            r is Err ==> final(self).store() == old(self).store(),
    ;

    fn update_gongzuo(&mut self, gongzuo_id: i32, user_id: i32, payload: GongzuoPayload) -> (r: Result<(), EntryError>)
        requires
            old(self).store().wf(),
        ensures
            final(self).store().wf(),
            r == old(self).store().update_result(gongzuo_id, user_id, payload),
            r is Ok ==> final(self).store() == old(self).store().updated(gongzuo_id, user_id, payload),
            r is Err ==> final(self).store() == old(self).store(),
    ;

    fn delete_gongzuo(&mut self, gongzuo_id: i32, user_id: i32) -> (r: Result<(), EntryError>)
        requires
            old(self).store().wf(),
        ensures
            final(self).store().wf(),
            r == old(self).store().delete_result(gongzuo_id, user_id),
            r is Ok ==> final(self).store() == old(self).store().deleted(gongzuo_id),
            r is Err ==> final(self).store() == old(self).store(),
    ;

    fn gongzuo_by_gongzuo_id(&self, gongzuo_id: i32) -> (r: Option<GongzuoRaw>)
        requires
            self.store().wf(),
        ensures
            r == self.store().entry_view(gongzuo_id),
    ;

    fn gongzuo_at(&self, user_id: i32, at: UtcTime) -> (r: Option<GongzuoRaw>)
        requires
            self.store().wf(),
        ensures
            r == self.store().active_entry(user_id, at),
    ;
}

impl GongzuoHandlerTrait for GongzuoHandler {
    open spec fn store(&self) -> StoreState {
        self@
    }

    fn all_gongzuos(&self, users: &UserHandler) -> (r: Vec<GongzuoRaw>) {
        GongzuoHandler::all_gongzuos(self, users)
    }

    fn gongzuos_by_user_id(&self, user_id: i32) -> (r: Vec<GongzuoRaw>) {
        GongzuoHandler::gongzuos_by_user_id(self, user_id)
    }

    fn create_gongzuo(&mut self, user_id: i32, payload: GongzuoPayload) -> (r: Result<i32, EntryError>) {
        GongzuoHandler::create_gongzuo(self, user_id, payload)
    }

    fn update_gongzuo(&mut self, gongzuo_id: i32, user_id: i32, payload: GongzuoPayload) -> (r: Result<(), EntryError>) {
        GongzuoHandler::update_gongzuo(self, gongzuo_id, user_id, payload)
    }

    fn delete_gongzuo(&mut self, gongzuo_id: i32, user_id: i32) -> (r: Result<(), EntryError>) {
        GongzuoHandler::delete_gongzuo(self, gongzuo_id, user_id)
    }

    fn gongzuo_by_gongzuo_id(&self, gongzuo_id: i32) -> (r: Option<GongzuoRaw>) {
        GongzuoHandler::gongzuo_by_gongzuo_id(self, gongzuo_id)
    }

    fn gongzuo_at(&self, user_id: i32, at: UtcTime) -> (r: Option<GongzuoRaw>) {
        GongzuoHandler::gongzuo_at(self, user_id, at)
    }
}

} // verus!
