//! Partial commands and the persistent drive state they merge into.
//!
//! A decoded frame yields an [`RxMessage`]: three independently optional
//! fields.  Merging overwrites exactly the fields that are present and
//! leaves the rest untouched; the caller actuates with the full merged
//! triple only when at least one field was present.

use vstd::prelude::*;
use crate::units::{Angle, Power, Turn};

verus! {

/// Mathematical model of a partial command: each field, when present,
/// is the commanded value in thousandths.
pub struct MsgModel {
    pub p: Option<int>,
    pub th: Option<int>,
    pub tu: Option<int>,
}

/// Mathematical model of the drive state, in thousandths.
pub struct DriveModel {
    pub power: int,
    pub heading: int,
    pub turn: int,
}

/// One decoded command message; absent fields mean "no change requested".
#[derive(Clone, Copy, Debug, PartialEq, Eq)]
pub struct RxMessage {
    pub p: Option<Power>,
    pub th: Option<Angle>,
    pub tu: Option<Turn>,
}

impl RxMessage {
    /// The message as a mathematical record.
    pub open spec fn model(&self) -> MsgModel {
        MsgModel {
            p: match self.p {
                Some(v) => Some(v.spec_millis()),
                None => None,
            },
            th: match self.th {
                Some(v) => Some(v.spec_millis()),
                None => None,
            },
            tu: match self.tu {
                Some(v) => Some(v.spec_millis()),
                None => None,
            },
        }
    }

    /// Every present field lies within its range.
    pub open spec fn wf(&self) -> bool {
        &&& (self.p is Some ==> self.p.unwrap().wf())
        &&& (self.th is Some ==> self.th.unwrap().wf())
        &&& (self.tu is Some ==> self.tu.unwrap().wf())
    }

    /// A message requesting no change at all.
    pub fn empty() -> (r: RxMessage)
        ensures
            r.model() == (MsgModel { p: None, th: None, tu: None }),
            r.wf(),
    {
        RxMessage { p: None, th: None, tu: None }
    }

    /// Whether at least one field is present.
    pub fn any_present(&self) -> (r: bool)
        ensures
            r == (self.model().p is Some || self.model().th is Some || self.model().tu
                is Some),
    {
        self.p.is_some() || self.th.is_some() || self.tu.is_some()
    }
}

/// Field-wise merge: present fields overwrite, absent fields persist.
pub open spec fn merge_model(s: DriveModel, m: MsgModel) -> DriveModel {
    DriveModel {
        power: if m.p is Some {
            m.p.unwrap()
        } else {
            s.power
        },
        heading: if m.th is Some {
            m.th.unwrap()
        } else {
            s.heading
        },
        turn: if m.tu is Some {
            m.tu.unwrap()
        } else {
            s.turn
        },
    }
}

/// The persistent drive state: the full triple commanded to the robot.
#[derive(Clone, Copy, Debug, PartialEq, Eq)]
pub struct DriveState {
    pub power: Power,
    pub heading: Angle,
    pub turn: Turn,
}

impl DriveState {
    /// The state as a mathematical record, in thousandths.
    pub open spec fn model(&self) -> DriveModel {
        DriveModel {
            power: self.power.spec_millis(),
            heading: self.heading.spec_millis(),
            turn: self.turn.spec_millis(),
        }
    }

    /// Every field lies within its range.
    pub open spec fn wf(&self) -> bool {
        self.power.wf() && self.heading.wf() && self.turn.wf()
    }

    /// The startup state: all three quantities at their neutral value.
    pub fn neutral() -> (r: DriveState)
        ensures
            r.model() == (DriveModel { power: 0, heading: 0, turn: 0 }),
            r.wf(),
    {
        DriveState { power: Power::zero(), heading: Angle::zero(), turn: Turn::zero() }
    }

    /// Merge one partial command into the state, field by field.
    ///
    /// Returns whether any field was present — exactly the condition
    /// under which the caller issues a fresh `drive` with the full
    /// merged triple.
    pub fn merge(&mut self, msg: &RxMessage) -> (changed: bool)
        requires
            old(self).wf(),
            msg.wf(),
        ensures
            final(self).wf(),
            final(self).model() == merge_model(old(self).model(), msg.model()),
            final(self).power == (if msg.p is Some {
                msg.p.unwrap()
            } else {
                old(self).power
            }),
            final(self).heading == (if msg.th is Some {
                msg.th.unwrap()
            } else {
                old(self).heading
            }),
            final(self).turn == (if msg.tu is Some {
                msg.tu.unwrap()
            } else {
                old(self).turn
            }),
            changed == (msg.model().p is Some || msg.model().th is Some || msg.model().tu
                is Some),
    {
        let mut changed = false;
        if let Some(v) = msg.p {
            self.power = v;
            changed = true;
        }
        if let Some(v) = msg.th {
            self.heading = v;
            changed = true;
        }
        if let Some(v) = msg.tu {
            self.turn = v;
            changed = true;
        }
        changed
    }
}

/// Merging is exact and idempotent: a present field lands exactly once,
/// an absent field never disturbs the state, and merging the same
/// partial command twice yields the same drive state as merging it once.
pub proof fn lemma_merge_exact_and_idempotent(s: DriveModel, m: MsgModel)
    ensures
        m.p is Some ==> merge_model(s, m).power == m.p.unwrap(),
        m.p is None ==> merge_model(s, m).power == s.power,
        m.th is Some ==> merge_model(s, m).heading == m.th.unwrap(),
        m.th is None ==> merge_model(s, m).heading == s.heading,
        m.tu is Some ==> merge_model(s, m).turn == m.tu.unwrap(),
        m.tu is None ==> merge_model(s, m).turn == s.turn,
        merge_model(merge_model(s, m), m) == merge_model(s, m),
{
}

} // verus!
