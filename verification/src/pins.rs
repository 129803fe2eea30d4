//! The capability state of every physical pin.

use vstd::prelude::*;

verus! {

/// A logic level.
#[derive(Clone, Copy, Debug, PartialEq, Eq, Structural)]
pub enum Level {
    /// Logic low.
    Low,
    /// Logic high.
    High,
}

/// The handle of one physical pin, held in memory: it remembers the level that
/// the line is at. It cannot be copied: a pin has one owner.
#[derive(Debug, PartialEq, Eq, Structural)]
pub struct Pin {
    /// The level that the line is at.
    pub level: Level,
}

impl Pin {
    /// A pin whose line is at `level`.
    pub fn new(level: Level) -> (pin: Self)
        ensures
            pin == (Pin { level }),
    {
        Pin { level }
    }

    /// Whether the line is at logic high.
    pub fn is_high(&self) -> (high: bool)
        ensures
            high == (self.level == Level::High),
    {
        self.level == Level::High
    }

    /// Puts the line at `level`.
    pub fn drive(&mut self, level: Level)
        ensures
            *final(self) == (Pin { level }),
    {
        self.level = level;
    }
}

/// Pin can be in one of states.
#[derive(Debug, PartialEq, Eq, Structural)]
pub enum PinState {
    /// Pin is reserved for a reason.
    Reserved,
    /// Pin input configured without internal pull-up.
    InputFloating(Pin),
    /// Pin configured as a digital input with internal pull-up.
    InputPullUp(Pin),
    /// Pin configured as an analog input.
    InputAnalog(Pin),
    /// Pin configured as a digital output.
    Output(Pin),
    /// Pin configured in open drain mode.
    TriState(Pin),
}

impl PinState {
    /// Whether the level of the pin can be read: it is an input of any kind, or
    /// in open drain mode.
    pub open spec fn readable(self) -> bool {
        self is InputFloating || self is InputPullUp || self is InputAnalog || self is TriState
    }

    /// Whether the pin can be driven: it is an output, or in open drain mode.
    pub open spec fn writable(self) -> bool {
        self is Output || self is TriState
    }

    /// The level that the line of the pin is at; low for a reserved pin, which
    /// has no handle.
    pub open spec fn level(self) -> Level {
        match self {
            PinState::Reserved => Level::Low,
            PinState::InputFloating(pin) => pin.level,
            PinState::InputPullUp(pin) => pin.level,
            PinState::InputAnalog(pin) => pin.level,
            PinState::Output(pin) => pin.level,
            PinState::TriState(pin) => pin.level,
        }
    }

    /// The state after the pin was driven to `level`: a writable pin is at that
    /// level and in the same mode; any other is as before.
    pub open spec fn driven(self, level: Level) -> PinState {
        match self {
            PinState::Output(_) => PinState::Output(Pin { level }),
            PinState::TriState(_) => PinState::TriState(Pin { level }),
            _ => self,
        }
    }

    /// Whether the level of the pin can be read.
    pub fn is_readable(&self) -> (readable: bool)
        ensures
            readable == self.readable(),
    {
        match self {
            PinState::InputFloating(_) => true,
            PinState::InputPullUp(_) => true,
            PinState::InputAnalog(_) => true,
            PinState::TriState(_) => true,
            _ => false,
        }
    }

    /// Whether the pin can be driven.
    pub fn is_writable(&self) -> (writable: bool)
        ensures
            writable == self.writable(),
    {
        match self {
            PinState::Output(_) => true,
            PinState::TriState(_) => true,
            _ => false,
        }
    }

    /// Whether the line of the pin is at logic high. A reserved pin reads low.
    pub fn is_high(&self) -> (high: bool)
        ensures
            high == (self.level() == Level::High),
    {
        match self {
            PinState::Reserved => false,
            PinState::InputFloating(pin) => pin.is_high(),
            PinState::InputPullUp(pin) => pin.is_high(),
            PinState::InputAnalog(pin) => pin.is_high(),
            PinState::Output(pin) => pin.is_high(),
            PinState::TriState(pin) => pin.is_high(),
        }
    }

    /// Drives the pin to `level` if it is writable, and leaves it alone if not.
    pub fn drive(&mut self, level: Level)
        ensures
            *final(self) == old(self).driven(level),
    {
        match self {
            PinState::Output(pin) => {
                pin.drive(level);
            },
            PinState::TriState(pin) => {
                pin.drive(level);
            },
            _ => {},
        }
    }
}

/// What every pin of a bank is at startup: reserved if `reserved` names its
/// index, and in open drain mode at logic low if not.
pub open spec fn startup_state(reserved: Seq<usize>, index: int) -> PinState {
    if exists|k: int| 0 <= k < reserved.len() && reserved[k] == index {
        PinState::Reserved
    } else {
        PinState::TriState(Pin { level: Level::Low })
    }
}

/// One slot for every physical pin, in the order of the pin numbers. The
/// number of slots never changes.
#[derive(Debug)]
pub struct PinBank {
    pins: Vec<PinState>,
}

impl View for PinBank {
    type V = Seq<PinState>;

    closed spec fn view(&self) -> Seq<PinState> {
        self.pins@
    }
}

impl PinBank {
    /// A bank with the given slots.
    pub fn new(pins: Vec<PinState>) -> (bank: Self)
        ensures
            bank@ == pins@,
    {
        PinBank { pins }
    }

    /// The bank as it is at startup: `count` pins, of which those that
    /// `reserved` names are reserved (for the serial link) and all others are
    /// in open drain mode.
    pub fn startup(count: usize, reserved: &[usize]) -> (bank: Self)
        ensures
            bank@.len() == count,
            forall|i: int| 0 <= i < count ==> #[trigger] bank@[i] == startup_state(reserved@, i),
    {
        let mut pins: Vec<PinState> = Vec::new();
        let mut index: usize = 0;
        while index < count
            invariant
                index <= count,
                pins@.len() == index,
                forall|i: int| 0 <= i < index ==> #[trigger] pins@[i] == startup_state(reserved@, i),
            decreases count - index,
        {
            let mut is_reserved = false;
            let mut k: usize = 0;
            while k < reserved.len()
                invariant
                    k <= reserved.len(),
                    is_reserved == (exists|j: int| 0 <= j < k && reserved@[j] == index),
                decreases reserved.len() - k,
            {
                if reserved[k] == index {
                    is_reserved = true;
                }
                k += 1;
            }
            if is_reserved {
                pins.push(PinState::Reserved);
            } else {
                pins.push(PinState::TriState(Pin::new(Level::Low)));
            }
            index += 1;
        }
        PinBank { pins }
    }

    /// The number of pins.
    pub fn len(&self) -> (count: usize)
        ensures
            count == self@.len(),
    {
        self.pins.len()
    }

    /// The state of the pin `index`, if there is such a pin.
    pub fn get(&self, index: usize) -> (state: Option<&PinState>)
        ensures
            state == (if index < self@.len() {
                Some(&self@[index as int])
            } else {
                None::<&PinState>
            }),
    {
        if index < self.pins.len() {
            Some(&self.pins[index])
        } else {
            None
        }
    }

    /// Drives the pin `index` to `level` if there is such a pin and it is
    /// writable. No other pin changes.
    pub fn drive(&mut self, index: usize, level: Level)
        ensures
            final(self)@ == (if index < old(self)@.len() {
                old(self)@.update(index as int, old(self)@[index as int].driven(level))
            } else {
                old(self)@
            }),
    {
        if index < self.pins.len() {
            self.pins[index].drive(level);
        }
    }
}

} // verus!
