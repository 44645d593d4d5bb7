//! Object Lock state: what holds a version, and until when.

use vstd::prelude::*;

use crate::time::Timestamp;

verus! {

/// How firmly a retention holds.
#[derive(Debug, Clone, Copy, PartialEq, Eq, Structural)]
pub enum RetentionMode {
    /// An authorized bypass releases it early.
    Governance,
    /// Nothing releases it early.
    Compliance,
}

/// A retention: the version may not be removed before its date.
#[derive(Debug, Clone, Copy, PartialEq, Eq)]
pub struct Retention {
    /// How firmly it holds.
    pub mode: RetentionMode,
    /// The first instant at which it no longer holds.
    pub retain_until: Timestamp,
}

/// What holds a version: a retention, a legal hold, both or neither.
#[derive(Debug, Clone, Copy, PartialEq, Eq)]
pub struct ObjectLockState {
    /// The retention, if any.
    pub retention: Option<Retention>,
    /// Whether a legal hold is placed.
    pub legal_hold: bool,
}

/// Why a version may not be removed.
#[derive(Debug, Clone, Copy, PartialEq, Eq)]
pub enum DeletionBlock {
    /// A legal hold is placed on it.
    LegalHold,
    /// A retention has not run out.
    Retained(Retention),
}

/// How long a default retention lasts.
#[derive(Debug, Clone, Copy, PartialEq, Eq, Structural)]
pub enum RetentionPeriod {
    /// A number of days.
    Days(u32),
}

/// The retention of a version that named none.
#[derive(Debug, Clone, Copy, PartialEq, Eq, Structural)]
pub struct DefaultRetention {
    /// How firmly it holds.
    pub mode: RetentionMode,
    /// How long it lasts.
    pub period: RetentionPeriod,
}

/// A bucket's Object Lock configuration.
#[derive(Debug, Clone, Copy, PartialEq, Eq)]
pub struct ObjectLockConfiguration {
    /// The default rule; a bucket may have Object Lock without one.
    pub default_retention: Option<DefaultRetention>,
}

/// The end of a default retention lies beyond the calendar.
#[derive(Debug, Clone, Copy, PartialEq, Eq)]
pub struct RetentionOutOfRange;

/// Nothing is held.
pub open spec fn unlocked() -> ObjectLockState {
    ObjectLockState { retention: None, legal_hold: false }
}

impl DeletionBlock {
    /// Whether an authorized governance bypass overrides this block: only a
    /// governance retention gives way.
    pub open spec fn bypassable(self) -> bool {
        self matches DeletionBlock::Retained(retention) && retention.mode
            == RetentionMode::Governance
    }

    /// Returns whether an authorized governance bypass overrides this block.
    pub fn is_bypassable(&self) -> (bypassable: bool)
        ensures
            bypassable == self.bypassable(),
    {
        match self {
            DeletionBlock::LegalHold => false,
            DeletionBlock::Retained(retention) => match retention.mode {
                RetentionMode::Governance => true,
                RetentionMode::Compliance => false,
            },
        }
    }
}

impl ObjectLockState {
    /// What stands in the way of removing the version at `now`. A legal hold
    /// stands on its own, whatever retention lies beneath it.
    pub open spec fn block_at(self, now: Timestamp) -> Option<DeletionBlock> {
        if self.legal_hold {
            Some(DeletionBlock::LegalHold)
        } else {
            match self.retention {
                Some(retention) if now.before(retention.retain_until) => Some(
                    DeletionBlock::Retained(retention),
                ),
                _ => None,
            }
        }
    }

    /// Returns whether nothing is held.
    pub fn is_unlocked(&self) -> (free: bool)
        ensures
            free == (*self == unlocked()),
    {
        self.retention.is_none() && !self.legal_hold
    }

    /// Returns the same state with the legal hold placed or removed.
    pub fn with_legal_hold(self, legal_hold: bool) -> (state: ObjectLockState)
        ensures
            state == (ObjectLockState { legal_hold, ..self }),
    {
        ObjectLockState { retention: self.retention, legal_hold }
    }

    /// Returns what stands in the way of removing the version at `now`.
    pub fn deletion_block_at(&self, now: Timestamp) -> (block: Option<DeletionBlock>)
        ensures
            block == self.block_at(now),
    {
        if self.legal_hold {
            return Some(DeletionBlock::LegalHold);
        }
        match self.retention {
            Some(retention) => if now.is_before(&retention.retain_until) {
                Some(DeletionBlock::Retained(retention))
            } else {
                None
            },
            None => None,
        }
    }
}

impl Default for ObjectLockState {
    fn default() -> (state: ObjectLockState)
        ensures
            state == unlocked(),
    {
        ObjectLockState { retention: None, legal_hold: false }
    }
}

impl ObjectLockConfiguration {
    /// Whether this is what the default rule gives a version written at `now`:
    /// nothing is held where there is no rule, else the version is retained for
    /// the rule's period, which has to end on the calendar.
    pub open spec fn gives(
        self,
        now: Timestamp,
        state: Result<ObjectLockState, RetentionOutOfRange>,
    ) -> bool {
        match self.default_retention {
            None => state == Ok::<_, RetentionOutOfRange>(unlocked()),
            Some(rule) => {
                let RetentionPeriod::Days(days) = rule.period;
                let end = now.seconds() + days * 86_400;
                &&& state is Ok <==> end <= crate::time::MAX_SECONDS
                &&& state matches Ok(born) ==> {
                    &&& !born.legal_hold
                    &&& born.retention matches Some(retention)
                    &&& retention.mode == rule.mode
                    &&& retention.retain_until.seconds() == end
                    &&& retention.retain_until.nanos() == now.nanos()
                }
            },
        }
    }

    /// Returns the state a version written at `now` is born with under the
    /// default rule.
    pub fn initial_state_at(&self, now: Timestamp) -> (state: Result<
        ObjectLockState,
        RetentionOutOfRange,
    >)
        ensures
            self.gives(now, state),
    {
        match self.default_retention {
            None => Ok(ObjectLockState { retention: None, legal_hold: false }),
            Some(rule) => {
                let RetentionPeriod::Days(days) = rule.period;
                match now.plus_days(days) {
                    Some(retain_until) => Ok(
                        ObjectLockState {
                            retention: Some(Retention { mode: rule.mode, retain_until }),
                            legal_hold: false,
                        },
                    ),
                    None => Err(RetentionOutOfRange),
                }
            },
        }
    }
}

/// A state in which nothing is held has neither a retention nor a legal hold,
/// and nothing else has that.
pub proof fn law_unlocked_holds_nothing(state: ObjectLockState)
    ensures
        state == unlocked() <==> state.retention is None && !state.legal_hold,
{
}

/// What blocks a removal, told by the clock alone: a legal hold always; a
/// retention at every instant before the one it ends at, and at none from then
/// on.
pub proof fn law_retention_blocks_by_the_clock(state: ObjectLockState, now: Timestamp)
    ensures
        state.legal_hold ==> state.block_at(now) == Some(DeletionBlock::LegalHold),
        !state.legal_hold && state.retention is None ==> state.block_at(now) is None,
        !state.legal_hold ==> (state.retention matches Some(held) ==> {
            let end = held.retain_until;
            &&& now.seconds() > end.seconds() ==> state.block_at(now) is None
            &&& now.seconds() == end.seconds() && now.nanos() >= end.nanos() ==> state.block_at(
                now,
            ) is None
            &&& now.seconds() == end.seconds() && now.nanos() < end.nanos() ==> state.block_at(now)
                == Some(DeletionBlock::Retained(held))
            &&& now.seconds() < end.seconds() ==> state.block_at(now) == Some(
                DeletionBlock::Retained(held),
            )
        }),
{
}

/// Of all that can block a removal, a bypass overrides a governance retention
/// only.
pub proof fn law_only_governance_gives_way(held: Retention)
    ensures
        !DeletionBlock::LegalHold.bypassable(),
        DeletionBlock::Retained(held).bypassable() <==> held.mode == RetentionMode::Governance,
{
}

/// What a default rule gives, in numbers: without a rule nothing is held. A rule
/// of so many days places a retention of the rule's mode and no legal hold, which
/// ends exactly so many times 86 400 seconds after the write, and fails exactly
/// where the calendar does not reach that far.
pub proof fn law_default_rule_in_numbers(
    configuration: ObjectLockConfiguration,
    now: Timestamp,
    given: Result<ObjectLockState, RetentionOutOfRange>,
)
    requires
        configuration.gives(now, given),
    ensures
        configuration.default_retention is None ==> given is Ok && given->Ok_0.retention is None
            && !given->Ok_0.legal_hold,
        configuration.default_retention matches Some(
            DefaultRetention { mode, period: RetentionPeriod::Days(days) },
        ) ==> {
            &&& given is Err <==> now.seconds() + days * 86_400 > 8_210_266_876_799
            &&& given matches Ok(state) ==> {
                &&& !state.legal_hold
                &&& state.retention is Some
                &&& state.retention->0.mode == mode
                &&& state.retention->0.retain_until.seconds() - now.seconds() == days * 86_400
                &&& state.retention->0.retain_until.nanos() == now.nanos()
            }
        },
{
}

} // verus!
