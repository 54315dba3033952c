use vstd::prelude::*;
use crate::decode::MessageBody;

verus! {

/// Whether a single-precision bit pattern stands for a number greater than
/// zero: sign bit clear, not zero, and not a NaN (positive infinity counts).
pub open spec fn is_positive(bits: u32) -> bool {
    0 < bits <= 0x7f80_0000
}

pub fn positive(bits: u32) -> (r: bool)
    ensures
        r == is_positive(bits),
{
    0 < bits && bits <= 0x7f80_0000
}

/// The latest positive reading of each kind, as single-precision bit
/// patterns; zero until one arrives.
#[derive(Debug, Clone, Copy, PartialEq, Eq, Structural)]
pub struct Data {
    pub respiratory: u32,
    pub distance: u32,
    pub heartbeat: u32,
}

/// The readings after `m`: a positive respiratory rate, present distance or
/// heartbeat rate replaces the reading of its kind; anything else changes
/// nothing.
pub open spec fn updated(d: Data, m: MessageBody) -> Data {
    match m {
        MessageBody::Respiratory(r) => if is_positive(r) {
            Data { respiratory: r, ..d }
        } else {
            d
        },
        MessageBody::Distance(Some(v)) => if is_positive(v) {
            Data { distance: v, ..d }
        } else {
            d
        },
        MessageBody::Heartbeat(r) => if is_positive(r) {
            Data { heartbeat: r, ..d }
        } else {
            d
        },
        _ => d,
    }
}

impl Default for Data {
    fn default() -> (r: Data)
        ensures
            r == (Data { respiratory: 0, distance: 0, heartbeat: 0 }),
    {
        Data { respiratory: 0, distance: 0, heartbeat: 0 }
    }
}

impl Data {
    pub fn update(&mut self, message: MessageBody)
        ensures
            *final(self) == updated(*old(self), message),
    {
        match message {
            MessageBody::Respiratory(rate) => {
                if positive(rate) {
                    self.respiratory = rate;
                }
            },
            MessageBody::Distance(Some(distance)) => {
                if positive(distance) {
                    self.distance = distance;
                }
            },
            MessageBody::Heartbeat(rate) => {
                if positive(rate) {
                    self.heartbeat = rate;
                }
            },
            _ => {},
        }
    }
}

} // verus!
