//! The pin table: one slot per line of the board, the direction each line is
//! in, the watch registry and the round-robin cursor that sweeps it.

use crate::text::{bit, bit_str, decimal, truncated, Line};
use vstd::prelude::*;
use vstd::string::*;
use vstd::utf8::*;

verus! {

/// Number of slots in the pin table.
pub const PIN_COUNT: usize = 49;

/// What a line can do. It never changes.
#[derive(Clone, Copy, Debug, PartialEq, Eq, Structural)]
pub enum Capability {
    Analog,
    Digital,
}

/// The direction a line is in at the moment.
#[derive(Clone, Copy, Debug, PartialEq, Eq, Structural)]
pub enum Mode {
    Unconfigured,
    Input,
    Output,
}

/// The kind of access that failed.
#[derive(Clone, Copy, Debug, PartialEq, Eq, Structural)]
pub enum PinAccess {
    Read,
    Write,
}

/// Why an operation on a pin failed.
#[derive(Clone, Copy, Debug, PartialEq, Eq, Structural)]
pub enum PinError {
    /// The number names no line of the board.
    PinAbsent,
    /// The line is not in the direction that the access needs.
    WrongDirection(PinAccess),
    /// The line's hardware refused the access.
    HardwareFault(PinAccess),
}

/// One line of the board.
///
/// `level` is the level on the line: what the pin drives while it is an
/// output, what reaches it from outside otherwise. `faulty` says that the
/// hardware behind the line refuses to be read or set.
#[derive(Clone, Copy, Debug, PartialEq, Eq, Structural)]
pub struct RushAnyPin {
    pub number: u8,
    pub capability: Capability,
    pub mode: Mode,
    pub level: bool,
    pub faulty: bool,
}

/// A slot of the table: the pin, if the board has one at this number, and
/// the level last seen on it if it is watched.
#[derive(Clone, Copy, Debug, PartialEq, Eq, Structural)]
pub struct PinManagerCompoundPin {
    pub pin: Option<RushAnyPin>,
    pub last_state_if_watched: Option<bool>,
}

/// What one step of the sweep found.
#[derive(Clone, Copy, Debug, PartialEq, Eq, Structural)]
pub enum Outcome {
    /// The watched pin now carries `state`, which differs from the level
    /// last seen.
    Changed { pin: u8, state: bool },
    /// The watched pin could not be read and is no longer watched.
    Stopped { pin: u8, error: PinError },
    /// A sweep is complete with nothing to report: wait for the quantum
    /// before the next step.
    Suspend,
    /// Nothing to report: take the next step at once.
    Continue,
}

/// Milliseconds to wait after a sweep that found nothing.
pub const POLL_QUANTUM_MS: u64 = 100;

/// Whether the board has a line with this number.
pub open spec fn pin_exists(n: int) -> bool {
    0 <= n < 22 || 26 <= n < 49
}

/// The capability of line `n`.
pub open spec fn capability_of(n: int) -> Capability {
    if n < 22 {
        Capability::Analog
    } else {
        Capability::Digital
    }
}

/// The slot that the table starts with at number `n`.
pub open spec fn initial_slot(n: int) -> PinManagerCompoundPin {
    PinManagerCompoundPin {
        pin: if pin_exists(n) {
            Some(
                RushAnyPin {
                    number: n as u8,
                    capability: capability_of(n),
                    mode: Mode::Unconfigured,
                    level: false,
                    faulty: false,
                },
            )
        } else {
            None
        },
        last_state_if_watched: None,
    }
}

/// A slot is sound at number `n` when it holds a pin exactly where the board
/// has one, the pin knows its number and capability, and only an input is
/// watched.
pub open spec fn slot_wf(slot: PinManagerCompoundPin, n: int) -> bool {
    &&& slot.pin.is_some() <==> pin_exists(n)
    &&& slot.pin.is_some() ==> {
        &&& slot.pin.unwrap().number == n
        &&& slot.pin.unwrap().capability == capability_of(n)
    }
    &&& slot.last_state_if_watched.is_some() ==> {
        &&& slot.pin.is_some()
        &&& slot.pin.unwrap().mode == Mode::Input
    }
}

impl RushAnyPin {
    /// The pin as an input: only the mode changes.
    pub open spec fn as_input(self) -> RushAnyPin {
        RushAnyPin { mode: Mode::Input, ..self }
    }

    /// The pin as an output: only the mode changes.
    pub open spec fn as_output(self) -> RushAnyPin {
        RushAnyPin { mode: Mode::Output, ..self }
    }

    /// What reading the pin gives, without any change of direction.
    pub open spec fn reading(self) -> Result<bool, PinError> {
        if self.mode != Mode::Input {
            Err(PinError::WrongDirection(PinAccess::Read))
        } else if self.faulty {
            Err(PinError::HardwareFault(PinAccess::Read))
        } else {
            Ok(self.level)
        }
    }

    /// Why the pin cannot be set, if it cannot.
    pub open spec fn setting(self) -> Result<(), PinError> {
        if self.mode != Mode::Output {
            Err(PinError::WrongDirection(PinAccess::Write))
        } else if self.faulty {
            Err(PinError::HardwareFault(PinAccess::Write))
        } else {
            Ok(())
        }
    }

    /// Turns the pin into an input. An input stays as it is.
    pub fn to_input(&mut self)
        ensures
            *final(self) == old(self).as_input(),
    {
        self.mode = Mode::Input;
    }

    /// Turns the pin into an output. An output stays as it is.
    pub fn to_output(&mut self)
        ensures
            *final(self) == old(self).as_output(),
    {
        self.mode = Mode::Output;
    }

    /// Reads the level of an input.
    pub fn read_state(&self) -> (result: Result<bool, PinError>)
        ensures
            result == self.reading(),
    {
        match self.mode {
            Mode::Input => {
                if self.faulty {
                    Err(PinError::HardwareFault(PinAccess::Read))
                } else {
                    Ok(self.level)
                }
            },
            _ => Err(PinError::WrongDirection(PinAccess::Read)),
        }
    }

    /// Drives an output to `high`. On failure the pin is unchanged.
    pub fn set_state(&mut self, high: bool) -> (result: Result<(), PinError>)
        ensures
            result == old(self).setting(),
            result.is_ok() ==> *final(self) == (RushAnyPin { level: high, ..*old(self) }),
            result.is_err() ==> *final(self) == *old(self),
    {
        match self.mode {
            Mode::Output => {
                if self.faulty {
                    Err(PinError::HardwareFault(PinAccess::Write))
                } else {
                    self.level = high;
                    Ok(())
                }
            },
            _ => Err(PinError::WrongDirection(PinAccess::Write)),
        }
    }
}

/// What can be done with the pin of a slot, whether the slot holds one or
/// not. Where it holds none, changes of direction do nothing and every
/// access reports the pin absent.
pub trait RushPinOperations {
    /// The pin, if there is one.
    spec fn held(&self) -> Option<RushAnyPin>;

    /// Turns the pin into an input.
    fn to_input(&mut self)
        ensures
            final(self).held() == input_of(old(self).held()),
    ;

    /// Turns the pin into an output.
    fn to_output(&mut self)
        ensures
            final(self).held() == output_of(old(self).held()),
    ;

    /// Reads the level of the pin.
    fn read_state(&self) -> (result: Result<bool, PinError>)
        ensures
            result == reading_of(self.held()),
    ;

    /// Drives the pin to `high`. On failure nothing changes.
    fn set_state(&mut self, high: bool) -> (result: Result<(), PinError>)
        ensures
            result == setting_of(old(self).held()),
            final(self).held() == driven(old(self).held(), high),
    ;
}

/// The pin of a slot as an input.
pub open spec fn input_of(held: Option<RushAnyPin>) -> Option<RushAnyPin> {
    match held {
        Some(pin) => Some(pin.as_input()),
        None => None,
    }
}

/// The pin of a slot as an output.
pub open spec fn output_of(held: Option<RushAnyPin>) -> Option<RushAnyPin> {
    match held {
        Some(pin) => Some(pin.as_output()),
        None => None,
    }
}

/// What reading the pin of a slot gives.
pub open spec fn reading_of(held: Option<RushAnyPin>) -> Result<bool, PinError> {
    match held {
        Some(pin) => pin.reading(),
        None => Err(PinError::PinAbsent),
    }
}

/// Why the pin of a slot cannot be set, if it cannot.
pub open spec fn setting_of(held: Option<RushAnyPin>) -> Result<(), PinError> {
    match held {
        Some(pin) => pin.setting(),
        None => Err(PinError::PinAbsent),
    }
}

/// The pin of a slot after it was asked to drive `high`: it does where it
/// can be set, and is as before where it cannot.
pub open spec fn driven(held: Option<RushAnyPin>, high: bool) -> Option<RushAnyPin> {
    match held {
        Some(pin) => if pin.setting().is_ok() {
            Some(RushAnyPin { level: high, ..pin })
        } else {
            Some(pin)
        },
        None => None,
    }
}

impl RushPinOperations for Option<RushAnyPin> {
    open spec fn held(&self) -> Option<RushAnyPin> {
        *self
    }

    fn to_input(&mut self) {
        match *self {
            None => (),
            Some(mut pin) => {
                pin.to_input();
                *self = Some(pin);
            },
        }
        assert(self.held() == input_of(old(self).held()));
    }

    fn to_output(&mut self) {
        match *self {
            None => (),
            Some(mut pin) => {
                pin.to_output();
                *self = Some(pin);
            },
        }
        assert(self.held() == output_of(old(self).held()));
    }

    fn read_state(&self) -> (result: Result<bool, PinError>) {
        let result = match *self {
            None => Err(PinError::PinAbsent),
            Some(pin) => pin.read_state(),
        };
        assert(result == reading_of(self.held()));
        result
    }

    fn set_state(&mut self, high: bool) -> (result: Result<(), PinError>) {
        let result = match *self {
            None => Err(PinError::PinAbsent),
            Some(mut pin) => {
                let result = pin.set_state(high);
                *self = Some(pin);
                result
            },
        };
        assert(result == setting_of(old(self).held()));
        assert(self.held() == driven(old(self).held(), high));
        result
    }
}

/// The pin table as a mathematical value: the slots in order and the number
/// of the slot that the sweep visits next.
pub struct PinTable {
    pub slots: Seq<PinManagerCompoundPin>,
    pub cursor: nat,
}

impl Outcome {
    /// The pin that the outcome reports on, if it reports on one.
    pub open spec fn reported_pin(self) -> Option<u8> {
        match self {
            Outcome::Changed { pin, .. } => Some(pin),
            Outcome::Stopped { pin, .. } => Some(pin),
            Outcome::Suspend => None,
            Outcome::Continue => None,
        }
    }
}

impl PinError {
    /// The reason as it is shown to the client.
    pub open spec fn text(self) -> Seq<char> {
        match self {
            PinError::PinAbsent => "pin does not exist"@,
            PinError::WrongDirection(PinAccess::Read) => {
                "read_state() was called on a non-input pin"@
            },
            PinError::WrongDirection(PinAccess::Write) => {
                "set_state() was called on a non-output pin"@
            },
            PinError::HardwareFault(PinAccess::Read) => {
                "esp_hal_common::gpio::GpioPin.is_high() failed"@
            },
            PinError::HardwareFault(PinAccess::Write) => {
                "embedded_hal::digital::v2::OutputPin.set_state() failed"@
            },
        }
    }

    /// Every reason is ASCII.
    pub proof fn text_is_ascii(self)
        ensures
            is_ascii_chars(self.text()),
    {
        reveal_strlit("pin does not exist");
        reveal_strlit("read_state() was called on a non-input pin");
        reveal_strlit("set_state() was called on a non-output pin");
        reveal_strlit("esp_hal_common::gpio::GpioPin.is_high() failed");
        reveal_strlit("embedded_hal::digital::v2::OutputPin.set_state() failed");
    }

    /// The reason as it is shown to the client.
    pub fn message(&self) -> (s: &'static str)
        ensures
            s@ == self.text(),
            is_ascii(s),
    {
        proof {
            self.text_is_ascii();
        }
        match self {
            PinError::PinAbsent => "pin does not exist",
            PinError::WrongDirection(PinAccess::Read) => {
                "read_state() was called on a non-input pin"
            },
            PinError::WrongDirection(PinAccess::Write) => {
                "set_state() was called on a non-output pin"
            },
            PinError::HardwareFault(PinAccess::Read) => {
                "esp_hal_common::gpio::GpioPin.is_high() failed"
            },
            PinError::HardwareFault(PinAccess::Write) => {
                "embedded_hal::digital::v2::OutputPin.set_state() failed"
            },
        }
    }
}

impl Outcome {
    /// The line pushed to the client for this outcome, before truncation.
    /// A step that found nothing pushes nothing.
    pub open spec fn text(self) -> Option<Seq<char>> {
        match self {
            Outcome::Changed { pin, state } => Some(
                "gpio."@ + decimal(pin as nat) + " = "@ + bit(state) + "\n"@,
            ),
            Outcome::Stopped { pin, error } => Some(
                error.text() + "\n  => stopped watching gpio."@ + decimal(pin as nat) + "\n"@,
            ),
            Outcome::Suspend => None,
            Outcome::Continue => None,
        }
    }

    /// The line as it comes out of a buffer of `capacity` bytes.
    pub open spec fn pushed(self, capacity: nat) -> Option<Seq<char>> {
        match self.text() {
            Some(text) => Some(truncated(text, capacity)),
            None => None,
        }
    }

    /// Formats the line to push for this outcome into `fmt_buffer`, cut to
    /// the buffer's length.
    pub fn message<'b>(&self, fmt_buffer: &'b mut [u8]) -> (line: Option<&'b str>)
        ensures
            line.is_some() == self.text().is_some(),
            line.is_some() ==> Some(line.unwrap()@) == self.pushed(old(fmt_buffer)@.len()),
            line.is_some() ==> line.unwrap()@.len() <= old(fmt_buffer)@.len(),
    {
        match self {
            Outcome::Changed { pin, state } => {
                proof {
                    reveal_strlit("gpio.");
                    reveal_strlit(" = ");
                    reveal_strlit("\n");
                }
                let mut line = Line::begin(Ghost(fmt_buffer@));
                line.push(fmt_buffer, "gpio.");
                line.push_decimal(fmt_buffer, *pin);
                line.push(fmt_buffer, " = ");
                line.push(fmt_buffer, bit_str(*state));
                line.push(fmt_buffer, "\n");
                assert(line.text() =~= self.text().unwrap());
                Some(line.finish(fmt_buffer))
            },
            Outcome::Stopped { pin, error } => {
                proof {
                    reveal_strlit("\n  => stopped watching gpio.");
                    reveal_strlit("\n");
                }
                let mut line = Line::begin(Ghost(fmt_buffer@));
                line.push(fmt_buffer, error.message());
                line.push(fmt_buffer, "\n  => stopped watching gpio.");
                line.push_decimal(fmt_buffer, *pin);
                line.push(fmt_buffer, "\n");
                assert(line.text() =~= self.text().unwrap());
                Some(line.finish(fmt_buffer))
            },
            Outcome::Suspend => None,
            Outcome::Continue => None,
        }
    }
}

impl PinTable {
    /// The table right after start: every line of the board unconfigured,
    /// nothing watched, the sweep at slot 0.
    pub open spec fn initial() -> PinTable {
        PinTable { slots: Seq::new(PIN_COUNT as nat, |n: int| initial_slot(n)), cursor: 0 }
    }

    /// Every slot is sound at its own index and the cursor names a slot.
    pub open spec fn wf(self) -> bool {
        &&& self.slots.len() == PIN_COUNT
        &&& self.cursor < PIN_COUNT
        &&& forall|n: int| 0 <= n < PIN_COUNT ==> slot_wf(#[trigger] self.slots[n], n)
    }

    /// The pin with number `n`, if the board has one.
    pub open spec fn pin_at(self, n: int) -> Option<RushAnyPin> {
        if 0 <= n < self.slots.len() {
            self.slots[n].pin
        } else {
            None
        }
    }

    /// The level last seen on pin `n`, where it is watched.
    pub open spec fn watched(self, n: int) -> Option<bool> {
        if 0 <= n < self.slots.len() {
            self.slots[n].last_state_if_watched
        } else {
            None
        }
    }

    /// The table with slot `n` replaced.
    pub open spec fn with_slot(self, n: int, slot: PinManagerCompoundPin) -> PinTable {
        PinTable { slots: self.slots.update(n, slot), ..self }
    }

    /// The table after pin `n` was asked to be an input. A watch on it
    /// stays. Without such a pin nothing changes.
    pub open spec fn coerce_input(self, n: int) -> PinTable {
        match self.pin_at(n) {
            Some(pin) => self.with_slot(
                n,
                PinManagerCompoundPin { pin: Some(pin.as_input()), ..self.slots[n] },
            ),
            None => self,
        }
    }

    /// The table after pin `n` was asked to be an output. An output is not
    /// watched, so a watch on the pin ends. Without such a pin nothing
    /// changes.
    pub open spec fn coerce_output(self, n: int) -> PinTable {
        match self.pin_at(n) {
            Some(pin) => self.with_slot(
                n,
                PinManagerCompoundPin { pin: Some(pin.as_output()), last_state_if_watched: None },
            ),
            None => self,
        }
    }

    /// Whether a pin with number `n` is there to be reconfigured.
    pub open spec fn presence(self, n: int) -> Result<(), PinError> {
        match self.pin_at(n) {
            Some(_) => Ok(()),
            None => Err(PinError::PinAbsent),
        }
    }

    /// What reading pin `n` returns: the level of the pin once it is an
    /// input.
    pub open spec fn read_result(self, n: int) -> Result<bool, PinError> {
        match self.pin_at(n) {
            Some(pin) => pin.as_input().reading(),
            None => Err(PinError::PinAbsent),
        }
    }

    /// What writing to pin `n` returns.
    pub open spec fn write_result(self, n: int) -> Result<(), PinError> {
        match self.pin_at(n) {
            Some(pin) => pin.as_output().setting(),
            None => Err(PinError::PinAbsent),
        }
    }

    /// The table after `value` was written to pin `n`: the pin is an output
    /// and, unless its hardware refused, carries `value`.
    pub open spec fn write(self, n: int, value: bool) -> PinTable {
        let turned = self.coerce_output(n);
        match turned.pin_at(n) {
            Some(pin) => if pin.setting().is_ok() {
                turned.with_slot(
                    n,
                    PinManagerCompoundPin {
                        pin: Some(RushAnyPin { level: value, ..pin }),
                        ..turned.slots[n]
                    },
                )
            } else {
                turned
            },
            None => turned,
        }
    }

    /// The table after a watch on pin `n` was asked for: the pin is an
    /// input and, if it could be read, the level read is the one last seen.
    pub open spec fn watch(self, n: int) -> PinTable {
        let turned = self.coerce_input(n);
        match self.read_result(n) {
            Ok(level) => turned.with_slot(
                n,
                PinManagerCompoundPin { last_state_if_watched: Some(level), ..turned.slots[n] },
            ),
            Err(_) => turned,
        }
    }

    /// The table after the watch on pin `n` was lifted.
    pub open spec fn unwatch(self, n: int) -> PinTable {
        match self.pin_at(n) {
            Some(_) => self.with_slot(
                n,
                PinManagerCompoundPin { last_state_if_watched: None, ..self.slots[n] },
            ),
            None => self,
        }
    }

    /// The table after the line of pin `n` took `level` from outside.
    pub open spec fn sense(self, n: int, level: bool) -> PinTable {
        match self.pin_at(n) {
            Some(pin) => self.with_slot(
                n,
                PinManagerCompoundPin { pin: Some(RushAnyPin { level, ..pin }), ..self.slots[n] },
            ),
            None => self,
        }
    }

    /// The table after the hardware of pin `n` began (`faulty`) or ceased
    /// to refuse access.
    pub open spec fn set_fault(self, n: int, faulty: bool) -> PinTable {
        match self.pin_at(n) {
            Some(pin) => self.with_slot(
                n,
                PinManagerCompoundPin { pin: Some(RushAnyPin { faulty, ..pin }), ..self.slots[n] },
            ),
            None => self,
        }
    }

    /// What a step reports when the slot it visited, number `n`, had
    /// nothing to say.
    pub open spec fn quiet(n: int) -> Outcome {
        if n == 0 {
            Outcome::Suspend
        } else {
            Outcome::Continue
        }
    }

    /// What the next step of the sweep reports. It visits the slot under
    /// the cursor. A watched pin that cannot be read is reported as
    /// stopped, one whose level differs from the level last seen as
    /// changed.
    pub open spec fn step_outcome(self) -> Outcome {
        let n = self.cursor as int;
        let slot = self.slots[n];
        match slot.last_state_if_watched {
            Some(last) => match slot.pin {
                Some(pin) => match pin.reading() {
                    Ok(state) => if state != last {
                        Outcome::Changed { pin: n as u8, state }
                    } else {
                        Self::quiet(n)
                    },
                    Err(error) => Outcome::Stopped { pin: n as u8, error },
                },
                None => Outcome::Stopped { pin: n as u8, error: PinError::PinAbsent },
            },
            None => Self::quiet(n),
        }
    }

    /// The table after the next step of the sweep: the cursor has moved on
    /// by one slot, wrapping after the last, and the visited slot remembers
    /// a changed level or has lost its watch.
    pub open spec fn step(self) -> PinTable {
        let n = self.cursor as int;
        let moved = PinTable { cursor: ((self.cursor + 1) % 49) as nat, ..self };
        match self.step_outcome() {
            Outcome::Changed { state, .. } => moved.with_slot(
                n,
                PinManagerCompoundPin { last_state_if_watched: Some(state), ..self.slots[n] },
            ),
            Outcome::Stopped { .. } => moved.with_slot(
                n,
                PinManagerCompoundPin { last_state_if_watched: None, ..self.slots[n] },
            ),
            _ => moved,
        }
    }

    /// How many further steps a run can take at most before it must stop.
    pub open spec fn steps_left(self) -> nat {
        if self.cursor == 0 || self.cursor >= PIN_COUNT {
            0
        } else {
            (PIN_COUNT - self.cursor) as nat
        }
    }

    /// What a run of the sweep reports: the outcome of the first step that
    /// has something to report or completes a sweep.
    pub open spec fn run_outcome(self) -> Outcome
        decreases self.steps_left(),
    {
        if self.step_outcome() == Outcome::Continue && 0 < self.cursor < PIN_COUNT {
            self.step().run_outcome()
        } else {
            self.step_outcome()
        }
    }

    /// The table after a run of the sweep: after the first step that has
    /// something to report or completes a sweep.
    pub open spec fn run(self) -> PinTable
        decreases self.steps_left(),
    {
        if self.step_outcome() == Outcome::Continue && 0 < self.cursor < PIN_COUNT {
            self.step().run()
        } else {
            self.step()
        }
    }
}

/// The pin table of the board, with the watch registry and the cursor of
/// the sweep.
pub struct RushPinManager {
    pins: [PinManagerCompoundPin; 49],
    next_pin_to_poll: u8,
}

impl View for RushPinManager {
    type V = PinTable;

    closed spec fn view(&self) -> PinTable {
        PinTable { slots: self.pins@, cursor: self.next_pin_to_poll as nat }
    }
}

impl RushPinManager {
    /// The table is sound.
    pub open spec fn wf(&self) -> bool {
        self@.wf()
    }

    /// The table of a board that has just started.
    pub fn new() -> (manager: Self)
        ensures
            manager.wf(),
            manager@ == PinTable::initial(),
    {
        let mut pins = [PinManagerCompoundPin { pin: None, last_state_if_watched: None }; 49];
        let mut n: u8 = 0;
        while n < 49
            invariant
                n <= 49,
                forall|i: int| 0 <= i < n ==> #[trigger] pins@[i] == initial_slot(i),
            decreases 49 - n,
        {
            let pin = if n < 22 {
                Some(
                    RushAnyPin {
                        number: n,
                        capability: Capability::Analog,
                        mode: Mode::Unconfigured,
                        level: false,
                        faulty: false,
                    },
                )
            } else if n < 26 {
                None
            } else {
                Some(
                    RushAnyPin {
                        number: n,
                        capability: Capability::Digital,
                        mode: Mode::Unconfigured,
                        level: false,
                        faulty: false,
                    },
                )
            };
            pins[n as usize] = PinManagerCompoundPin { pin, last_state_if_watched: None };
            n += 1;
        }
        let manager = RushPinManager { pins, next_pin_to_poll: 0 };
        assert(manager@.slots =~= PinTable::initial().slots);
        manager
    }

    /// Looks up pin `pin`. That the board has no such pin is an answer, not
    /// a failure.
    pub fn get_pin(&self, pin: u8) -> (found: Option<RushAnyPin>)
        requires
            self.wf(),
        ensures
            found == self@.pin_at(pin as int),
            found.is_some() <==> pin_exists(pin as int),
    {
        if (pin as usize) < PIN_COUNT {
            self.pins[pin as usize].pin
        } else {
            None
        }
    }

    /// The number of the slot that the sweep visits next.
    pub fn next_pin_to_poll(&self) -> (n: u8)
        ensures
            n == self@.cursor,
    {
        self.next_pin_to_poll
    }

    /// The level last seen on pin `pin`, where it is watched.
    pub fn last_state_if_watched(&self, pin: u8) -> (last: Option<bool>)
        requires
            self.wf(),
        ensures
            last == self@.watched(pin as int),
    {
        if (pin as usize) < PIN_COUNT {
            self.pins[pin as usize].last_state_if_watched
        } else {
            None
        }
    }

    /// The slot of pin `pin`, or a slot without a pin where the number is
    /// beyond the table.
    fn slot(&self, pin: u8) -> (slot: PinManagerCompoundPin)
        requires
            self.wf(),
        ensures
            slot.pin == self@.pin_at(pin as int),
            slot.last_state_if_watched == self@.watched(pin as int),
            pin < PIN_COUNT ==> slot == self@.slots[pin as int],
    {
        if (pin as usize) < PIN_COUNT {
            self.pins[pin as usize]
        } else {
            PinManagerCompoundPin { pin: None, last_state_if_watched: None }
        }
    }

    /// Puts `slot` in the place of pin `pin`, where the table has one.
    fn store(&mut self, pin: u8, slot: PinManagerCompoundPin)
        requires
            old(self).wf(),
            pin < PIN_COUNT ==> slot_wf(slot, pin as int),
        ensures
            final(self).wf(),
            pin < PIN_COUNT ==> final(self)@ == old(self)@.with_slot(pin as int, slot),
            pin >= PIN_COUNT ==> final(self)@ == old(self)@,
    {
        if (pin as usize) < PIN_COUNT {
            self.pins[pin as usize] = slot;
        }
    }

    /// Makes pin `pin` an input, whatever it was.
    pub fn coerce_input(&mut self, pin: u8) -> (result: Result<(), PinError>)
        requires
            old(self).wf(),
        ensures
            final(self).wf(),
            result == old(self)@.presence(pin as int),
            final(self)@ == old(self)@.coerce_input(pin as int),
    {
        let mut slot = self.slot(pin);
        if slot.pin.is_none() {
            return Err(PinError::PinAbsent);
        }
        slot.pin.to_input();
        self.store(pin, slot);
        Ok(())
    }

    /// Makes pin `pin` an output, whatever it was. A watch on it ends.
    pub fn coerce_output(&mut self, pin: u8) -> (result: Result<(), PinError>)
        requires
            old(self).wf(),
        ensures
            final(self).wf(),
            result == old(self)@.presence(pin as int),
            final(self)@ == old(self)@.coerce_output(pin as int),
    {
        let mut slot = self.slot(pin);
        if slot.pin.is_none() {
            return Err(PinError::PinAbsent);
        }
        slot.pin.to_output();
        slot.last_state_if_watched = None;
        self.store(pin, slot);
        Ok(())
    }

    /// Reads the level of pin `pin`, turning it into an input first.
    pub fn read(&mut self, pin: u8) -> (result: Result<bool, PinError>)
        requires
            old(self).wf(),
        ensures
            final(self).wf(),
            result == old(self)@.read_result(pin as int),
            final(self)@ == old(self)@.coerce_input(pin as int),
    {
        let mut slot = self.slot(pin);
        slot.pin.to_input();
        let result = slot.pin.read_state();
        if slot.pin.is_some() {
            self.store(pin, slot);
        }
        result
    }

    /// Drives pin `pin` to `value`, turning it into an output first.
    pub fn write(&mut self, pin: u8, value: bool) -> (result: Result<(), PinError>)
        requires
            old(self).wf(),
        ensures
            final(self).wf(),
            result == old(self)@.write_result(pin as int),
            final(self)@ == old(self)@.write(pin as int, value),
    {
        let mut slot = self.slot(pin);
        slot.pin.to_output();
        slot.last_state_if_watched = None;
        let result = slot.pin.set_state(value);
        if slot.pin.is_some() {
            self.store(pin, slot);
            assert(self@.slots =~= old(self)@.write(pin as int, value).slots);
        }
        result
    }

    /// Starts, or starts anew, the watch on pin `pin`: reads it as an input
    /// and keeps the level as the one last seen. Where the pin cannot be
    /// read, an earlier watch stays as it was.
    pub fn watch_pin(&mut self, pin: u8) -> (result: Result<bool, PinError>)
        requires
            old(self).wf(),
        ensures
            final(self).wf(),
            result == old(self)@.read_result(pin as int),
            final(self)@ == old(self)@.watch(pin as int),
    {
        let current_state = self.read(pin)?;
        let mut slot = self.slot(pin);
        slot.last_state_if_watched = Some(current_state);
        self.store(pin, slot);
        Ok(current_state)
    }

    /// Ends the watch on pin `pin`, if there is one.
    pub fn unwatch_pin(&mut self, pin: u8) -> (result: Result<(), PinError>)
        requires
            old(self).wf(),
        ensures
            final(self).wf(),
            result == old(self)@.presence(pin as int),
            final(self)@ == old(self)@.unwatch(pin as int),
    {
        let mut slot = self.slot(pin);
        match slot.pin {
            None => Err(PinError::PinAbsent),
            Some(_) => {
                slot.last_state_if_watched = None;
                self.store(pin, slot);
                Ok(())
            },
        }
    }

    /// Records that the line of pin `pin` has taken `level` from outside.
    pub fn sense(&mut self, pin: u8, level: bool) -> (result: Result<(), PinError>)
        requires
            old(self).wf(),
        ensures
            final(self).wf(),
            result == old(self)@.presence(pin as int),
            final(self)@ == old(self)@.sense(pin as int, level),
    {
        let mut slot = self.slot(pin);
        match slot.pin {
            None => Err(PinError::PinAbsent),
            Some(mut held) => {
                held.level = level;
                slot.pin = Some(held);
                self.store(pin, slot);
                Ok(())
            },
        }
    }

    /// Records that the hardware of pin `pin` refuses access (`faulty`) or
    /// grants it again.
    pub fn set_fault(&mut self, pin: u8, faulty: bool) -> (result: Result<(), PinError>)
        requires
            old(self).wf(),
        ensures
            final(self).wf(),
            result == old(self)@.presence(pin as int),
            final(self)@ == old(self)@.set_fault(pin as int, faulty),
    {
        let mut slot = self.slot(pin);
        match slot.pin {
            None => Err(PinError::PinAbsent),
            Some(mut held) => {
                held.faulty = faulty;
                slot.pin = Some(held);
                self.store(pin, slot);
                Ok(())
            },
        }
    }

    /// One step of the sweep: visits the slot under the cursor and moves
    /// the cursor on.
    pub fn poll_step(&mut self) -> (outcome: Outcome)
        requires
            old(self).wf(),
        ensures
            final(self).wf(),
            outcome == old(self)@.step_outcome(),
            final(self)@ == old(self)@.step(),
    {
        let pin_num = self.next_pin_to_poll;
        self.next_pin_to_poll = (pin_num + 1) % 49;
        let mut slot = self.slot(pin_num);
        let quiet = if pin_num == 0 {
            Outcome::Suspend
        } else {
            Outcome::Continue
        };
        match slot.last_state_if_watched {
            Some(laststate) => match slot.pin.read_state() {
                Err(error) => {
                    slot.last_state_if_watched = None;
                    self.store(pin_num, slot);
                    Outcome::Stopped { pin: pin_num, error }
                },
                Ok(state) => {
                    if state != laststate {
                        slot.last_state_if_watched = Some(state);
                        self.store(pin_num, slot);
                        Outcome::Changed { pin: pin_num, state }
                    } else {
                        quiet
                    }
                },
            },
            None => quiet,
        }
    }

    /// Runs the sweep from where it stands until a watched pin has
    /// something to report or a sweep is complete, and says which. The
    /// cursor stays in the table, so a run that is not followed up loses
    /// nothing.
    pub fn poll_run(&mut self) -> (outcome: Outcome)
        requires
            old(self).wf(),
        ensures
            final(self).wf(),
            final(self)@ == old(self)@.run(),
            outcome == old(self)@.run_outcome(),
            outcome != Outcome::Continue,
    {
        let ghost start = self@;
        let mut outcome = self.poll_step();
        while outcome == Outcome::Continue
            invariant
                self.wf(),
                outcome == Outcome::Continue ==> {
                    &&& start.run() == self@.run()
                    &&& start.run_outcome() == self@.run_outcome()
                    &&& self@.cursor != 1
                },
                outcome != Outcome::Continue ==> {
                    &&& start.run() == self@
                    &&& start.run_outcome() == outcome
                },
            decreases
                    (if outcome == Outcome::Continue {
                        1 + self@.steps_left()
                    } else {
                        0
                    }),
        {
            outcome = self.poll_step();
        }
        outcome
    }

    /// Runs the sweep as `poll_run` does and formats the line to push into
    /// `fmt_buffer`, cut to the buffer's length. `None` says that the sweep
    /// is complete with nothing to report: the caller waits for the quantum
    /// and calls again.
    pub fn poll_watched_pins<'b>(&mut self, fmt_buffer: &'b mut [u8]) -> (line: Option<&'b str>)
        requires
            old(self).wf(),
        ensures
            final(self).wf(),
            final(self)@ == old(self)@.run(),
            line.is_some() == old(self)@.run_outcome().text().is_some(),
            line.is_some() ==> Some(line.unwrap()@) == old(self)@.run_outcome().pushed(
                old(fmt_buffer)@.len(),
            ),
            line.is_some() ==> line.unwrap()@.len() <= old(fmt_buffer)@.len(),
    {
        let outcome = self.poll_run();
        outcome.message(fmt_buffer)
    }
}

} // verus!
