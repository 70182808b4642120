//! The `m.room.power_levels` content model and the capability queries
//! derived from it.
//!
//! A power level is an `i64`; the protocol places no 0–100 bound on levels
//! and none is assumed here.  The per-event-type and per-user mappings are
//! association lists of `(UTF-8 key bytes, level)` pairs; a lookup takes
//! the first entry with the given key.  Field defaults follow the protocol:
//! `ban`, `kick`, `redact` and `state_default` default to 50, the other
//! numeric fields to 0, and the mappings to empty (with an implicit
//! `room -> 0` notification level).

use vstd::prelude::*;

verus! {

/// The default level (50) shared by `ban`, `kick`, `redact` and
/// `state_default`.
pub const DEFAULT_POWER_LEVEL: i64 = 50;

/// A mapping from UTF-8 key bytes to a power level, in insertion order.
pub type LevelMap = Vec<(Vec<u8>, i64)>;

/// The abstraction of a [`LevelMap`]: the same pairs with the keys as byte
/// sequences.
pub open spec fn pairs_view(m: Seq<(Vec<u8>, i64)>) -> Seq<(Seq<u8>, i64)> {
    Seq::new(m.len(), |i: int| (m[i].0@, m[i].1))
}

/// The level of the first pair whose key is `k`, if any.
pub open spec fn spec_level_get(m: Seq<(Seq<u8>, i64)>, k: Seq<u8>) -> Option<i64>
    decreases m.len(),
{
    if m.len() == 0 {
        None
    } else if m[0].0 == k {
        Some(m[0].1)
    } else {
        spec_level_get(m.drop_first(), k)
    }
}

/// Whether a power level of `l` suffices where `m[k]` (or `dflt`, when `k`
/// is absent) is required.
pub open spec fn spec_meets(l: i64, m: Seq<(Seq<u8>, i64)>, k: Seq<u8>, dflt: i64) -> bool {
    match spec_level_get(m, k) {
        Some(t) => l >= t,
        None => l >= dflt,
    }
}

/// Looks `key` up in `m`, returning the level of the first pair with that
/// key.
pub fn level_get(m: &LevelMap, key: &[u8]) -> (r: Option<i64>)
    ensures
        r == spec_level_get(pairs_view(m@), key@),
{
    let ghost pv = pairs_view(m@);
    proof {
        assert(pv.skip(0) =~= pv);
    }
    let mut i: usize = 0;
    while i < m.len()
        invariant
            i <= m.len(),
            pv == pairs_view(m@),
            pv.len() == m@.len(),
            forall|k: int| 0 <= k < pv.len() ==> pv[k] == (m@[k].0@, m@[k].1),
            spec_level_get(pv, key@) == spec_level_get(pv.skip(i as int), key@),
        decreases m.len() - i,
    {
        proof {
            assert(pv.skip(i as int)[0] == pv[i as int]);
            assert(pv.skip(i as int).drop_first() =~= pv.skip(i as int + 1));
        }
        if crate::json::bytes_eq(m[i].0.as_slice(), key) {
            return Some(m[i].1);
        }
        i = i + 1;
    }
    proof {
        assert(pv.skip(i as int).len() == 0);
    }
    None
}

/// The per-key notification requirements.  The protocol currently defines
/// one key, `room`, defaulting to level 0.
#[derive(Debug)]
pub struct NotificationPowerLevels {
    /// The level required to trigger an `@room` notification.
    pub room: i64,
}

impl NotificationPowerLevels {
    /// Creates the all-default value, with `room` at 0.
    pub fn new() -> (r: Self)
        ensures
            r.room == 0,
    {
        NotificationPowerLevels { room: 0 }
    }

    /// Whether every field holds its default.
    pub fn is_default(&self) -> (r: bool)
        ensures
            r == (self.room == 0),
    {
        self.room == 0
    }
}

impl Default for NotificationPowerLevels {
    fn default() -> (r: Self)
        ensures
            r.room == 0,
    {
        NotificationPowerLevels { room: 0 }
    }
}

/// A room protocol version, as far as redaction rules distinguish them:
/// the eleven numbered versions, or any other (custom) version name.
#[derive(Debug)]
pub enum RoomVersionId {
    V1,
    V2,
    V3,
    V4,
    V5,
    V6,
    V7,
    V8,
    V9,
    V10,
    V11,
    /// A version outside the numbered ones, by its wire name.
    Custom(Vec<u8>),
}

/// Whether redaction forces the `invite` level to 0 under `v`: true for
/// the first ten numbered versions, false from the eleventh on (and for
/// custom versions).
pub open spec fn spec_redacts_invite(v: RoomVersionId) -> bool {
    !(v is V11 || v is Custom)
}

/// Used with the default-skipping encoder to omit default power levels.
pub fn is_default_power_level(l: &i64) -> (r: bool)
    ensures
        r == (*l == 50),
{
    *l == 50
}

/// The content of an `m.room.power_levels` state event.
#[derive(Debug)]
pub struct RoomPowerLevelsEventContent {
    /// The level required to ban a user.
    pub ban: i64,
    /// The level required to send specific event types, by wire type tag.
    pub events: LevelMap,
    /// The default level required to send message-like events.
    pub events_default: i64,
    /// The level required to invite a user.
    pub invite: i64,
    /// The level required to kick a user.
    pub kick: i64,
    /// The level required to redact an event.
    pub redact: i64,
    /// The default level required to send state events.
    pub state_default: i64,
    /// The levels of specific users, by user identifier.
    pub users: LevelMap,
    /// The default level of every user not named in `users`.
    pub users_default: i64,
    /// The per-key notification requirements.
    pub notifications: NotificationPowerLevels,
}

/// The mathematical abstraction of a power-levels content value, shared by
/// the full and redacted forms (`notifications_room` is the effective
/// `room` notification level, 0 for a redacted source).
#[verifier::ext_equal]
pub struct SpecPowerLevels {
    pub ban: i64,
    pub events: Seq<(Seq<u8>, i64)>,
    pub events_default: i64,
    pub invite: i64,
    pub kick: i64,
    pub redact: i64,
    pub state_default: i64,
    pub users: Seq<(Seq<u8>, i64)>,
    pub users_default: i64,
    pub notifications_room: i64,
}

impl View for RoomPowerLevelsEventContent {
    type V = SpecPowerLevels;

    open spec fn view(&self) -> SpecPowerLevels {
        SpecPowerLevels {
            ban: self.ban,
            events: pairs_view(self.events@),
            events_default: self.events_default,
            invite: self.invite,
            kick: self.kick,
            redact: self.redact,
            state_default: self.state_default,
            users: pairs_view(self.users@),
            users_default: self.users_default,
            notifications_room: self.notifications.room,
        }
    }
}

/// The all-default abstraction: `ban`, `kick`, `redact` and
/// `state_default` at 50, everything else at 0 or empty.
pub open spec fn spec_default_power_levels() -> SpecPowerLevels {
    SpecPowerLevels {
        ban: 50,
        events: Seq::empty(),
        events_default: 0,
        invite: 0,
        kick: 50,
        redact: 50,
        state_default: 50,
        users: Seq::empty(),
        users_default: 0,
        notifications_room: 0,
    }
}

impl RoomPowerLevelsEventContent {
    /// Creates a content value with every field at its protocol default.
    pub fn new() -> (r: Self)
        ensures
            r@ == spec_default_power_levels(),
    {
        let r = RoomPowerLevelsEventContent {
            ban: DEFAULT_POWER_LEVEL,
            events: Vec::new(),
            events_default: 0,
            invite: 0,
            kick: DEFAULT_POWER_LEVEL,
            redact: DEFAULT_POWER_LEVEL,
            state_default: DEFAULT_POWER_LEVEL,
            users: Vec::new(),
            users_default: 0,
            notifications: NotificationPowerLevels::new(),
        };
        proof {
            assert(r@.events =~= Seq::<(Seq<u8>, i64)>::empty());
            assert(r@.users =~= Seq::<(Seq<u8>, i64)>::empty());
            assert(r@ == spec_default_power_levels());
        }
        r
    }

    /// Redacts this content under room version `version`: every field is
    /// kept exactly except `notifications`, which is dropped, and
    /// `invite`, which is forced to 0 under the first ten numbered room
    /// versions and kept exactly from the eleventh on.
    pub fn redact(self, version: &RoomVersionId) -> (r: RedactedRoomPowerLevelsEventContent)
        ensures
            r.ban == self.ban,
            pairs_view(r.events@) == pairs_view(self.events@),
            r.events_default == self.events_default,
            r.kick == self.kick,
            r.redact == self.redact,
            r.state_default == self.state_default,
            pairs_view(r.users@) == pairs_view(self.users@),
            r.users_default == self.users_default,
            r.invite == if spec_redacts_invite(*version) {
                0
            } else {
                self.invite
            },
    {
        let invite: i64 = match version {
            RoomVersionId::V11 => self.invite,
            RoomVersionId::Custom(_) => self.invite,
            _ => 0,
        };
        RedactedRoomPowerLevelsEventContent {
            ban: self.ban,
            events: self.events,
            events_default: self.events_default,
            invite,
            kick: self.kick,
            redact: self.redact,
            state_default: self.state_default,
            users: self.users,
            users_default: self.users_default,
        }
    }

    /// The effective power levels seen through this (unredacted) content:
    /// every field carries over.
    pub fn power_levels(self) -> (r: RoomPowerLevels)
        ensures
            r@ == self@,
    {
        RoomPowerLevels {
            ban: self.ban,
            events: self.events,
            events_default: self.events_default,
            invite: self.invite,
            kick: self.kick,
            redact: self.redact,
            state_default: self.state_default,
            users: self.users,
            users_default: self.users_default,
            notifications: self.notifications,
        }
    }
}

impl Default for RoomPowerLevelsEventContent {
    fn default() -> (r: Self)
        ensures
            r@ == spec_default_power_levels(),
    {
        RoomPowerLevelsEventContent::new()
    }
}

/// The redacted form of [`RoomPowerLevelsEventContent`]: the same fields
/// minus `notifications`.
#[derive(Debug)]
pub struct RedactedRoomPowerLevelsEventContent {
    /// The level required to ban a user.
    pub ban: i64,
    /// The level required to send specific event types, by wire type tag.
    pub events: LevelMap,
    /// The default level required to send message-like events.
    pub events_default: i64,
    /// The level required to invite a user.  Forced to 0 by redaction
    /// under the first ten numbered room versions, preserved afterwards.
    pub invite: i64,
    /// The level required to kick a user.
    pub kick: i64,
    /// The level required to redact an event.
    pub redact: i64,
    /// The default level required to send state events.
    pub state_default: i64,
    /// The levels of specific users, by user identifier.
    pub users: LevelMap,
    /// The default level of every user not named in `users`.
    pub users_default: i64,
}

impl View for RedactedRoomPowerLevelsEventContent {
    type V = SpecPowerLevels;

    open spec fn view(&self) -> SpecPowerLevels {
        SpecPowerLevels {
            ban: self.ban,
            events: pairs_view(self.events@),
            events_default: self.events_default,
            invite: self.invite,
            kick: self.kick,
            redact: self.redact,
            state_default: self.state_default,
            users: pairs_view(self.users@),
            users_default: self.users_default,
            notifications_room: 0,
        }
    }
}

impl RedactedRoomPowerLevelsEventContent {
    /// The wire type tag of the event this content belongs to.
    pub fn event_type(&self) -> (r: &'static str)
        ensures
            r@ == "m.room.power_levels"@,
    {
        "m.room.power_levels"
    }

    /// The effective power levels seen through this redacted content: the
    /// shared fields carry over and the missing `notifications` takes its
    /// all-default value.
    pub fn power_levels(self) -> (r: RoomPowerLevels)
        ensures
            r@ == self@,
    {
        RoomPowerLevels {
            ban: self.ban,
            events: self.events,
            events_default: self.events_default,
            invite: self.invite,
            kick: self.kick,
            redact: self.redact,
            state_default: self.state_default,
            users: self.users,
            users_default: self.users_default,
            notifications: NotificationPowerLevels::new(),
        }
    }
}

/// The effective power levels of a room, derived from a full or redacted
/// power-levels content (the latter with `notifications` defaulted).
#[derive(Debug)]
pub struct RoomPowerLevels {
    /// The level required to ban a user.
    pub ban: i64,
    /// The level required to send specific event types, by wire type tag.
    pub events: LevelMap,
    /// The default level required to send message-like events.
    pub events_default: i64,
    /// The level required to invite a user.
    pub invite: i64,
    /// The level required to kick a user.
    pub kick: i64,
    /// The level required to redact an event.
    pub redact: i64,
    /// The default level required to send state events.
    pub state_default: i64,
    /// The levels of specific users, by user identifier.
    pub users: LevelMap,
    /// The default level of every user not named in `users`.
    pub users_default: i64,
    /// The per-key notification requirements.
    pub notifications: NotificationPowerLevels,
}

impl View for RoomPowerLevels {
    type V = SpecPowerLevels;

    open spec fn view(&self) -> SpecPowerLevels {
        SpecPowerLevels {
            ban: self.ban,
            events: pairs_view(self.events@),
            events_default: self.events_default,
            invite: self.invite,
            kick: self.kick,
            redact: self.redact,
            state_default: self.state_default,
            users: pairs_view(self.users@),
            users_default: self.users_default,
            notifications_room: self.notifications.room,
        }
    }
}

/// The level `view` gives the user `u`: the user's own entry, or
/// `users_default` where `u` is absent from `users`.
pub open spec fn spec_level_of(view: SpecPowerLevels, u: Seq<u8>) -> i64 {
    match spec_level_get(view.users, u) {
        Some(l) => l,
        None => view.users_default,
    }
}

/// The actions that can be limited by power levels.
pub enum PowerLevelAction {
    /// Ban a user.
    Ban,
    /// Invite a user.
    Invite,
    /// Kick a user.
    Kick,
    /// Redact an event.
    Redact,
    /// Send a message-like event with the given wire type tag.
    SendMessage(Vec<u8>),
    /// Send a state event with the given wire type tag.
    SendState(Vec<u8>),
    /// Trigger a notification of the given kind.
    TriggerNotification(NotificationPowerLevelType),
}

/// The notification types that can be limited by power levels.
pub enum NotificationPowerLevelType {
    /// `@room` notifications.
    Room,
}

/// The threshold `view` sets for `action`: the matching scalar field for
/// the simple actions; for `SendMessage(t)` and `SendState(t)` the shared
/// `events[t]` entry, falling back to `events_default` and
/// `state_default` respectively; for a room notification the `room`
/// notification level.
pub open spec fn spec_threshold(view: SpecPowerLevels, action: PowerLevelAction) -> i64 {
    match action {
        PowerLevelAction::Ban => view.ban,
        PowerLevelAction::Invite => view.invite,
        PowerLevelAction::Kick => view.kick,
        PowerLevelAction::Redact => view.redact,
        PowerLevelAction::SendMessage(t) => match spec_level_get(view.events, t@) {
            Some(l) => l,
            None => view.events_default,
        },
        PowerLevelAction::SendState(t) => match spec_level_get(view.events, t@) {
            Some(l) => l,
            None => view.state_default,
        },
        PowerLevelAction::TriggerNotification(NotificationPowerLevelType::Room) =>
            view.notifications_room,
    }
}

/// Whether `view` lets the user `u` perform `action`.
pub open spec fn spec_can(view: SpecPowerLevels, u: Seq<u8>, action: PowerLevelAction) -> bool {
    spec_level_of(view, u) >= spec_threshold(view, action)
}

impl RoomPowerLevels {
    /// The power level of `user_id`: its `users` entry, or `users_default`
    /// where it has none.
    pub fn for_user(&self, user_id: &[u8]) -> (r: i64)
        ensures
            r == spec_level_of(self@, user_id@),
            spec_level_get(self@.users, user_id@) is None ==> r == self.users_default,
    {
        match level_get(&self.users, user_id) {
            Some(l) => l,
            None => self.users_default,
        }
    }

    /// Whether `user_id` can ban other users.
    pub fn user_can_ban(&self, user_id: &[u8]) -> (r: bool)
        ensures
            r == spec_can(self@, user_id@, PowerLevelAction::Ban),
    {
        self.for_user(user_id) >= self.ban
    }

    /// Whether `user_id` can invite other users.
    pub fn user_can_invite(&self, user_id: &[u8]) -> (r: bool)
        ensures
            r == spec_can(self@, user_id@, PowerLevelAction::Invite),
    {
        self.for_user(user_id) >= self.invite
    }

    /// Whether `user_id` can kick other users.
    pub fn user_can_kick(&self, user_id: &[u8]) -> (r: bool)
        ensures
            r == spec_can(self@, user_id@, PowerLevelAction::Kick),
    {
        self.for_user(user_id) >= self.kick
    }

    /// Whether `user_id` can redact events.
    pub fn user_can_redact(&self, user_id: &[u8]) -> (r: bool)
        ensures
            r == spec_can(self@, user_id@, PowerLevelAction::Redact),
    {
        self.for_user(user_id) >= self.redact
    }

    /// Whether `user_id` can send message-like events with type tag
    /// `msg_type`: the `events[msg_type]` threshold, falling back to
    /// `events_default`.
    pub fn user_can_send_message(&self, user_id: &[u8], msg_type: &[u8]) -> (r: bool)
        ensures
            r == spec_meets(
                spec_level_of(self@, user_id@),
                self@.events,
                msg_type@,
                self.events_default,
            ),
    {
        let threshold = match level_get(&self.events, msg_type) {
            Some(l) => l,
            None => self.events_default,
        };
        self.for_user(user_id) >= threshold
    }

    /// Whether `user_id` can send state events with type tag
    /// `state_type`: the same `events[state_type]` threshold as for
    /// messages, falling back to `state_default`.
    pub fn user_can_send_state(&self, user_id: &[u8], state_type: &[u8]) -> (r: bool)
        ensures
            r == spec_meets(
                spec_level_of(self@, user_id@),
                self@.events,
                state_type@,
                self.state_default,
            ),
    {
        let threshold = match level_get(&self.events, state_type) {
            Some(l) => l,
            None => self.state_default,
        };
        self.for_user(user_id) >= threshold
    }

    /// Whether `user_id` can notify the whole room with `@room`.
    pub fn user_can_trigger_room_notification(&self, user_id: &[u8]) -> (r: bool)
        ensures
            r == spec_can(
                self@,
                user_id@,
                PowerLevelAction::TriggerNotification(NotificationPowerLevelType::Room),
            ),
    {
        self.for_user(user_id) >= self.notifications.room
    }

    /// Whether `user_id` can perform `action`.
    pub fn user_can_do(&self, user_id: &[u8], action: &PowerLevelAction) -> (r: bool)
        ensures
            r == spec_can(self@, user_id@, *action),
    {
        match action {
            PowerLevelAction::Ban => self.user_can_ban(user_id),
            PowerLevelAction::Invite => self.user_can_invite(user_id),
            PowerLevelAction::Kick => self.user_can_kick(user_id),
            PowerLevelAction::Redact => self.user_can_redact(user_id),
            PowerLevelAction::SendMessage(t) => self.user_can_send_message(
                user_id,
                t.as_slice(),
            ),
            PowerLevelAction::SendState(t) => self.user_can_send_state(user_id, t.as_slice()),
            PowerLevelAction::TriggerNotification(NotificationPowerLevelType::Room) =>
                self.user_can_trigger_room_notification(user_id),
        }
    }

    /// The greatest power level any user can have under this view: the
    /// maximum of `users_default` and every explicit `users` entry.  No
    /// clamping to any range is performed.
    pub fn max(&self) -> (r: i64)
        ensures
            r >= self.users_default,
            forall|k: int| 0 <= k < self@.users.len() ==> r >= self@.users[k].1,
            r == self.users_default || exists|k: int|
                0 <= k < self@.users.len() && r == self@.users[k].1,
    {
        let mut r: i64 = self.users_default;
        let mut i: usize = 0;
        while i < self.users.len()
            invariant
                i <= self.users.len(),
                self@.users.len() == self.users@.len(),
                forall|k: int|
                    0 <= k < self.users@.len() ==> self@.users[k] == (
                    self.users@[k].0@,
                    self.users@[k].1,
                    ),
                r >= self.users_default,
                forall|k: int| 0 <= k < i ==> r >= self@.users[k].1,
                r == self.users_default || exists|k: int|
                    0 <= k < i && r == self@.users[k].1,
            decreases self.users.len() - i,
        {
            if self.users[i].1 > r {
                r = self.users[i].1;
                proof {
                    assert(r == self@.users[i as int].1);
                }
            }
            i = i + 1;
        }
        r
    }
}

impl RoomPowerLevels {
    /// Rebuilds a content value from this effective view: every field
    /// carries over, the `notifications` value included.
    pub fn into_content(self) -> (r: RoomPowerLevelsEventContent)
        ensures
            r@ == self@,
    {
        RoomPowerLevelsEventContent {
            ban: self.ban,
            events: self.events,
            events_default: self.events_default,
            invite: self.invite,
            kick: self.kick,
            redact: self.redact,
            state_default: self.state_default,
            users: self.users,
            users_default: self.users_default,
            notifications: self.notifications,
        }
    }
}

/// A power-levels state event that may stand in a room's timeline either
/// in its original form or redacted.
pub enum RoomPowerLevelsEvent {
    /// The unredacted event, carrying its full content.
    Original(RoomPowerLevelsEventContent),
    /// The redacted event, carrying what redaction preserved.
    Redacted(RedactedRoomPowerLevelsEventContent),
}

impl RoomPowerLevelsEvent {
    /// The effective power levels, whether or not the event is redacted.
    pub fn power_levels(self) -> (r: RoomPowerLevels)
        ensures
            r@ == match self {
                RoomPowerLevelsEvent::Original(c) => c@,
                RoomPowerLevelsEvent::Redacted(c) => c@,
            },
    {
        match self {
            RoomPowerLevelsEvent::Original(c) => c.power_levels(),
            RoomPowerLevelsEvent::Redacted(c) => c.power_levels(),
        }
    }
}

/// The form of [`RoomPowerLevelsEvent`] received inside a sync for a
/// joined room; it carries the same alternatives.
pub enum SyncRoomPowerLevelsEvent {
    /// The unredacted event, carrying its full content.
    Original(RoomPowerLevelsEventContent),
    /// The redacted event, carrying what redaction preserved.
    Redacted(RedactedRoomPowerLevelsEventContent),
}

impl SyncRoomPowerLevelsEvent {
    /// The effective power levels, whether or not the event is redacted.
    pub fn power_levels(self) -> (r: RoomPowerLevels)
        ensures
            r@ == match self {
                SyncRoomPowerLevelsEvent::Original(c) => c@,
                SyncRoomPowerLevelsEvent::Redacted(c) => c@,
            },
    {
        match self {
            SyncRoomPowerLevelsEvent::Original(c) => c.power_levels(),
            SyncRoomPowerLevelsEvent::Redacted(c) => c.power_levels(),
        }
    }
}

/// The stripped form of a power-levels event, as shown to a user invited
/// to a room: only the content survives stripping.
pub struct StrippedRoomPowerLevelsEvent {
    /// The content of the event.
    pub content: RoomPowerLevelsEventContent,
}

impl StrippedRoomPowerLevelsEvent {
    /// The effective power levels from this event.
    pub fn power_levels(self) -> (r: RoomPowerLevels)
        ensures
            r@ == self.content@,
    {
        self.content.power_levels()
    }
}

/// Sending a state event and sending a message-like event with the same
/// type tag consult the same `events` entry and differ only in their
/// fallback: where `events` names the tag `t`, the two thresholds agree;
/// where it does not, they are `state_default` and `events_default`
/// respectively.
pub proof fn lemma_send_thresholds_share_events_entry(
    view: SpecPowerLevels,
    t: Vec<u8>,
)
    ensures
        spec_level_get(view.events, t@) matches Some(l) ==> spec_threshold(
            view,
            PowerLevelAction::SendMessage(t),
        ) == l && spec_threshold(view, PowerLevelAction::SendState(t)) == l,
        spec_level_get(view.events, t@) is None ==> spec_threshold(
            view,
            PowerLevelAction::SendMessage(t),
        ) == view.events_default && spec_threshold(view, PowerLevelAction::SendState(t))
            == view.state_default,
{
}

/// A user absent from `users` holds exactly the default user level, and
/// so can perform an action exactly when `users_default` meets its
/// threshold.
pub proof fn lemma_absent_user_has_default_level(
    view: SpecPowerLevels,
    u: Seq<u8>,
    action: PowerLevelAction,
)
    requires
        spec_level_get(view.users, u) is None,
    ensures
        spec_level_of(view, u) == view.users_default,
        spec_can(view, u, action) == (view.users_default >= spec_threshold(view, action)),
{
}

} // verus!
