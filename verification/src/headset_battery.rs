//! The resilient headset-battery poller. The bus work — discovering the
//! device and reading its charge — happens outside; this is the state
//! machine that decides it: unbound until a discovery succeeds, bound until
//! a read fails, and any failure unbinds so that the next tick discovers
//! again. Each finished tick publishes its sample, overwriting the last one.

use vstd::prelude::*;

use crate::text::{dec_str, u64_to_string};
use crate::widget::{plain_block, plain_style, Block, BlockView};

verus! {

/// What the poller asks its collaborator to do next.
#[derive(Clone, Copy, PartialEq, Eq, Structural, Debug)]
pub enum AccessoryAction {
    /// Enumerate the bus and bind the first matching device.
    Discover,
    /// Read the bound device's charge percentage.
    ReadCharge,
}

/// What the collaborator reports back.
#[derive(Clone, Copy, PartialEq, Eq, Structural, Debug)]
pub enum AccessoryEvent {
    /// A matching device was found and bound.
    DiscoverOk,
    /// Enumeration failed or no device matched.
    DiscoverFailed,
    /// The charge was read, as a whole percentage.
    ReadOk(u64),
    /// The bound device did not answer.
    ReadFailed,
}

/// Mathematical model of the poller: whether a device handle is believed
/// valid, and the last published sample.
pub struct PollerView {
    pub bound: bool,
    pub last: Option<BlockView>,
}

/// The headset-battery poller's state.
pub struct HeadsetBattery {
    pub bound: bool,
    pub last_sample: Option<Block>,
}

impl View for HeadsetBattery {
    type V = PollerView;

    open spec fn view(&self) -> PollerView {
        PollerView { bound: self.bound, last: self.last_sample.deep_view() }
    }
}

/// The block published for a charge percentage.
pub open spec fn charge_block_view(p: nat) -> BlockView {
    BlockView { icon: "\u{f7cc}"@, text: dec_str(p) + "%"@, color: plain_style() }
}

/// Unbound pollers discover; bound pollers read.
pub open spec fn next_action_spec(s: PollerView) -> AccessoryAction {
    if s.bound {
        AccessoryAction::ReadCharge
    } else {
        AccessoryAction::Discover
    }
}

/// An event can only answer the action the state asks for.
pub open spec fn event_fits(s: PollerView, ev: AccessoryEvent) -> bool {
    match ev {
        AccessoryEvent::DiscoverOk => !s.bound,
        AccessoryEvent::DiscoverFailed => !s.bound,
        AccessoryEvent::ReadOk(_) => s.bound,
        AccessoryEvent::ReadFailed => s.bound,
    }
}

/// The state after an event: a successful discovery binds, a successful
/// read publishes, and any failure unbinds and publishes absence.
pub open spec fn step_state(s: PollerView, ev: AccessoryEvent) -> PollerView {
    match ev {
        AccessoryEvent::DiscoverOk => PollerView { bound: true, last: s.last },
        AccessoryEvent::DiscoverFailed => PollerView { bound: false, last: None },
        AccessoryEvent::ReadOk(p) => PollerView {
            bound: true,
            last: Some(charge_block_view(p as nat)),
        },
        AccessoryEvent::ReadFailed => PollerView { bound: false, last: None },
    }
}

/// The tick's outcome for an event: `None` while the tick continues (a
/// successful discovery goes on to read), otherwise the tick's sample.
pub open spec fn step_output(s: PollerView, ev: AccessoryEvent) -> Option<Option<BlockView>> {
    match ev {
        AccessoryEvent::DiscoverOk => None,
        AccessoryEvent::DiscoverFailed => Some(None),
        AccessoryEvent::ReadOk(p) => Some(Some(charge_block_view(p as nat))),
        AccessoryEvent::ReadFailed => Some(None),
    }
}

/// Recovery law: a failed read never leaves the poller stuck — it unbinds
/// the device, the very next action is discovery again, and a successful
/// discovery rebinds it.
pub proof fn lemma_read_failure_recovers(s: PollerView)
    requires
        s.bound,
    ensures
        !step_state(s, AccessoryEvent::ReadFailed).bound,
        next_action_spec(step_state(s, AccessoryEvent::ReadFailed)) == AccessoryAction::Discover,
        step_state(step_state(s, AccessoryEvent::ReadFailed), AccessoryEvent::DiscoverOk).bound,
{
}

/// The block for a charge percentage.
pub fn charge_block(p: u64) -> (b: Block)
    ensures
        b@ == charge_block_view(p as nat),
{
    let mut text = u64_to_string(p);
    text.append("%");
    plain_block("\u{f7cc}", text.as_str())
}

impl HeadsetBattery {
    /// A fresh poller: unbound, nothing published yet.
    pub fn new() -> (r: HeadsetBattery)
        ensures
            !r@.bound,
            r@.last is None,
    {
        HeadsetBattery { bound: false, last_sample: None }
    }

    /// What the collaborator should do on this tick.
    pub fn next_action(&self) -> (a: AccessoryAction)
        ensures
            a == next_action_spec(self@),
    {
        if self.bound {
            AccessoryAction::ReadCharge
        } else {
            AccessoryAction::Discover
        }
    }

    /// Advances on the collaborator's answer. Returns `None` while the tick
    /// continues, otherwise the tick's sample, which is also published.
    pub fn step(&mut self, ev: AccessoryEvent) -> (out: Option<Option<Block>>)
        requires
            event_fits(old(self)@, ev),
        ensures
            final(self)@ == step_state(old(self)@, ev),
            out.deep_view() == step_output(old(self)@, ev),
    {
        match ev {
            AccessoryEvent::DiscoverOk => {
                self.bound = true;
                None
            },
            AccessoryEvent::DiscoverFailed => {
                self.bound = false;
                self.last_sample = None;
                Some(None)
            },
            AccessoryEvent::ReadOk(p) => {
                self.bound = true;
                let b = charge_block(p);
                self.last_sample = Some(b.clone());
                Some(Some(b))
            },
            AccessoryEvent::ReadFailed => {
                self.bound = false;
                self.last_sample = None;
                Some(None)
            },
        }
    }

    /// The last published sample, without waiting: the reader's side of the
    /// latest-value cell.
    pub fn current(&self) -> (r: Option<Block>)
        ensures
            r.deep_view() == self@.last,
    {
        match &self.last_sample {
            Some(b) => Some(b.clone()),
            None => None,
        }
    }
}

} // verus!
