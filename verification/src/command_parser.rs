//! The commands of the line protocol and their grammar.
//!
//! ```text
//! read    gpio.N
//! write   gpio.N VALUE
//! watch   gpio.N
//! unwatch gpio.N
//! ```
//!
//! Fields are separated by one or more spaces. `N` is a decimal number that
//! fits in eight bits. `VALUE` is one of `high on h 1 true t` or of
//! `low off l 0 false f`. The command is the whole line: after its last field
//! nothing may follow but a single line end.

use crate::rush_pin_manager::{slot_wf, PinError, PinTable, RushPinManager};
use crate::text::{ascii, decimal, truncated, truth, truth_str, Line};
use vstd::prelude::*;
use vstd::slice::slice_subrange;
use vstd::string::*;
use vstd::utf8::*;

verus! {

/// What a command addresses.
#[derive(Clone, Copy, Debug, PartialEq, Eq, Structural)]
pub enum Id {
    Gpio(u8),
}

/// What a command writes.
#[derive(Clone, Copy, Debug, PartialEq, Eq, Structural)]
pub enum Value {
    Gpio(bool),
}

#[derive(Clone, Copy, Debug, PartialEq, Eq, Structural)]
pub struct ReadCommand {
    pub id: Id,
}

#[derive(Clone, Copy, Debug, PartialEq, Eq, Structural)]
pub struct WatchCommand {
    pub id: Id,
}

#[derive(Clone, Copy, Debug, PartialEq, Eq, Structural)]
pub struct UnwatchCommand {
    pub id: Id,
}

#[derive(Clone, Copy, Debug, PartialEq, Eq, Structural)]
pub struct WriteCommand {
    pub id: Id,
    pub value: Value,
}

/// A command of the line protocol.
#[derive(Clone, Copy, Debug, PartialEq, Eq, Structural)]
pub enum CommandEnum {
    Read(ReadCommand),
    Watch(WatchCommand),
    Unwatch(UnwatchCommand),
    Write(WriteCommand),
}

/// The line is no command. Nothing more is said about why.
#[derive(Clone, Copy, Debug, PartialEq, Eq, Structural)]
pub struct ParseError;

/// The byte of a space.
pub const SPACE: u8 = 32;

/// The byte that ends a line.
pub const NEWLINE: u8 = 10;

/// The byte of the digit zero.
pub const ZERO: u8 = 48;

/// The byte of the digit nine.
pub const NINE: u8 = 57;

/// What follows `word` where the input begins with it.
pub open spec fn tagged(input: Seq<u8>, word: Seq<char>) -> Option<Seq<u8>> {
    if ascii(word).is_prefix_of(input) {
        Some(input.skip(word.len() as int))
    } else {
        None
    }
}

/// The number of spaces that the input begins with.
pub open spec fn leading_spaces(input: Seq<u8>) -> nat
    decreases input.len(),
{
    if input.len() > 0 && input[0] == SPACE {
        1 + leading_spaces(input.drop_first())
    } else {
        0
    }
}

/// Whether the byte is a decimal digit.
pub open spec fn is_digit(byte: u8) -> bool {
    ZERO <= byte <= NINE
}

/// The number of decimal digits that the input begins with.
pub open spec fn leading_digits(input: Seq<u8>) -> nat
    decreases input.len(),
{
    if input.len() > 0 && is_digit(input[0]) {
        1 + leading_digits(input.drop_first())
    } else {
        0
    }
}

/// The number that a run of decimal digits stands for.
pub open spec fn number(digits: Seq<u8>) -> nat
    decreases digits.len(),
{
    if digits.len() == 0 {
        0
    } else {
        number(digits.drop_last()) * 10 + (digits.last() - ZERO) as nat
    }
}

/// What follows the spaces where the input begins with at least one.
pub open spec fn spaced(input: Seq<u8>) -> Option<Seq<u8>> {
    if leading_spaces(input) >= 1 {
        Some(input.skip(leading_spaces(input) as int))
    } else {
        None
    }
}

/// The pin named at the beginning of the input, `gpio.` and a decimal
/// number of at most 255, with what follows the number.
pub open spec fn gpio_id(input: Seq<u8>) -> Option<(Seq<u8>, Id)> {
    match tagged(input, "gpio."@) {
        Some(rest) => {
            let count = leading_digits(rest) as int;
            if count >= 1 && number(rest.take(count)) <= 255 {
                Some((rest.skip(count), Id::Gpio(number(rest.take(count)) as u8)))
            } else {
                None
            }
        },
        None => None,
    }
}

/// Whether nothing is left of the line: no byte, or a single line end.
pub open spec fn ends_line(rest: Seq<u8>) -> bool {
    rest.len() == 0 || (rest.len() == 1 && rest[0] == NEWLINE)
}

/// Whether the input is `word` and the end of the line.
pub open spec fn is_word(input: Seq<u8>, word: Seq<char>) -> bool {
    match tagged(input, word) {
        Some(rest) => ends_line(rest),
        None => false,
    }
}

/// Whether the input is a word for a high level and the end of the line.
pub open spec fn gpio_value_true(input: Seq<u8>) -> bool {
    ||| is_word(input, "high"@)
    ||| is_word(input, "on"@)
    ||| is_word(input, "h"@)
    ||| is_word(input, "1"@)
    ||| is_word(input, "true"@)
    ||| is_word(input, "t"@)
}

/// Whether the input is a word for a low level and the end of the line.
pub open spec fn gpio_value_false(input: Seq<u8>) -> bool {
    ||| is_word(input, "low"@)
    ||| is_word(input, "off"@)
    ||| is_word(input, "l"@)
    ||| is_word(input, "0"@)
    ||| is_word(input, "false"@)
    ||| is_word(input, "f"@)
}

/// The value that the input names, where it names one and the line ends
/// after it.
pub open spec fn gpio_value(input: Seq<u8>) -> Option<Value> {
    if gpio_value_true(input) {
        Some(Value::Gpio(true))
    } else if gpio_value_false(input) {
        Some(Value::Gpio(false))
    } else {
        None
    }
}

/// The pin that a command of one argument addresses: after `word`, spaces
/// and the pin.
pub open spec fn addressed(input: Seq<u8>, word: Seq<char>) -> Option<(Seq<u8>, Id)> {
    match tagged(input, word) {
        Some(rest) => match spaced(rest) {
            Some(rest) => gpio_id(rest),
            None => None,
        },
        None => None,
    }
}

/// The line as a `read` command.
pub open spec fn read_command(input: Seq<u8>) -> Option<CommandEnum> {
    match addressed(input, "read"@) {
        Some((rest, id)) => if ends_line(rest) {
            Some(CommandEnum::Read(ReadCommand { id }))
        } else {
            None
        },
        None => None,
    }
}

/// The line as a `watch` command.
pub open spec fn watch_command(input: Seq<u8>) -> Option<CommandEnum> {
    match addressed(input, "watch"@) {
        Some((rest, id)) => if ends_line(rest) {
            Some(CommandEnum::Watch(WatchCommand { id }))
        } else {
            None
        },
        None => None,
    }
}

/// The line as an `unwatch` command.
pub open spec fn unwatch_command(input: Seq<u8>) -> Option<CommandEnum> {
    match addressed(input, "unwatch"@) {
        Some((rest, id)) => if ends_line(rest) {
            Some(CommandEnum::Unwatch(UnwatchCommand { id }))
        } else {
            None
        },
        None => None,
    }
}

/// The line as a `write` command.
pub open spec fn write_command(input: Seq<u8>) -> Option<CommandEnum> {
    match addressed(input, "write"@) {
        Some((rest, id)) => match spaced(rest) {
            Some(rest) => match gpio_value(rest) {
                Some(value) => Some(CommandEnum::Write(WriteCommand { id, value })),
                None => None,
            },
            None => None,
        },
        None => None,
    }
}

/// The command that a line holds: that of the four forms which the whole
/// line matches.
pub open spec fn command(input: Seq<u8>) -> Option<CommandEnum> {
    if read_command(input).is_some() {
        read_command(input)
    } else if watch_command(input).is_some() {
        watch_command(input)
    } else if unwatch_command(input).is_some() {
        unwatch_command(input)
    } else {
        write_command(input)
    }
}

/// What reading a line gives: its command, or the error.
pub open spec fn parsed(input: Seq<u8>) -> Result<CommandEnum, ParseError> {
    match command(input) {
        Some(found) => Ok(found),
        None => Err(ParseError),
    }
}

/// A count of leading spaces is right if spaces fill it and none follows.
pub proof fn leading_spaces_counted(input: Seq<u8>, count: nat)
    requires
        count <= input.len(),
        forall|i: int| 0 <= i < count ==> input[i] == SPACE,
        count == input.len() || input[count as int] != SPACE,
    ensures
        leading_spaces(input) == count,
    decreases count,
{
    if count > 0 {
        leading_spaces_counted(input.drop_first(), (count - 1) as nat);
    }
}

/// A count of leading digits is right if digits fill it and none follows.
pub proof fn leading_digits_counted(input: Seq<u8>, count: nat)
    requires
        count <= input.len(),
        forall|i: int| 0 <= i < count ==> is_digit(#[trigger] input[i]),
        count == input.len() || !is_digit(input[count as int]),
    ensures
        leading_digits(input) == count,
    decreases count,
{
    if count > 0 {
        leading_digits_counted(input.drop_first(), (count - 1) as nat);
    }
}

/// Takes `word` off the beginning of the input.
pub fn tag<'a>(input: &'a [u8], word: &str) -> (rest: Option<&'a [u8]>)
    requires
        is_ascii(word),
    ensures
        rest.is_some() == tagged(input@, word@).is_some(),
        rest.is_some() ==> Some(rest.unwrap()@) == tagged(input@, word@),
{
    broadcast use is_ascii_spec_bytes;

    let bytes = word.as_bytes();
    assert(bytes@ =~= ascii(word@));
    if bytes.len() > input.len() {
        return None;
    }
    let mut i: usize = 0;
    while i < bytes.len()
        invariant
            i <= bytes.len() <= input.len(),
            bytes@ == ascii(word@),
            forall|j: int| 0 <= j < i ==> input@[j] == bytes@[j],
        decreases bytes.len() - i,
    {
        if input[i] != bytes[i] {
            return None;
        }
        i += 1;
    }
    assert(ascii(word@).is_prefix_of(input@));
    let rest = slice_subrange(input, bytes.len(), input.len());
    Some(rest)
}

/// Takes one or more spaces off the beginning of the input.
pub fn space1<'a>(input: &'a [u8]) -> (rest: Option<&'a [u8]>)
    ensures
        rest.is_some() == spaced(input@).is_some(),
        rest.is_some() ==> Some(rest.unwrap()@) == spaced(input@),
{
    let mut i: usize = 0;
    while i < input.len() && input[i] == SPACE
        invariant
            i <= input.len(),
            forall|j: int| 0 <= j < i ==> input@[j] == SPACE,
        decreases input.len() - i,
    {
        i += 1;
    }
    proof {
        leading_spaces_counted(input@, i as nat);
    }
    if i == 0 {
        None
    } else {
        Some(slice_subrange(input, i, input.len()))
    }
}

/// Takes `gpio.` and a pin number off the beginning of the input.
pub fn gpio_id_parser<'a>(input: &'a [u8]) -> (found: Option<(&'a [u8], Id)>)
    ensures
        found.is_some() == gpio_id(input@).is_some(),
        found.is_some() ==> (found.unwrap().0@, found.unwrap().1) == gpio_id(input@).unwrap(),
{
    proof {
        reveal_strlit("gpio.");
    }
    let rest = match tag(input, "gpio.") {
        Some(rest) => rest,
        None => {
            return None;
        },
    };
    let mut i: usize = 0;
    let mut value: u16 = 0;
    while i < rest.len() && ZERO <= rest[i] && rest[i] <= NINE
        invariant
            i <= rest.len(),
            forall|j: int| 0 <= j < i ==> is_digit(#[trigger] rest@[j]),
            value <= 256,
            value <= 255 ==> value == number(rest@.take(i as int)),
            value == 256 ==> number(rest@.take(i as int)) > 255,
        decreases rest.len() - i,
    {
        proof {
            assert(rest@.take(i + 1).drop_last() =~= rest@.take(i as int));
        }
        let digit: u16 = (rest[i] - ZERO) as u16;
        if value <= 25 {
            value = value * 10 + digit;
            if value > 255 {
                value = 256;
            }
        } else {
            value = 256;
        }
        i += 1;
    }
    proof {
        leading_digits_counted(rest@, i as nat);
    }
    if i == 0 || value > 255 {
        None
    } else {
        Some((slice_subrange(rest, i, rest.len()), Id::Gpio(value as u8)))
    }
}

/// Takes what a command addresses off the beginning of the input.
pub fn id_parser<'a>(input: &'a [u8]) -> (found: Option<(&'a [u8], Id)>)
    ensures
        found.is_some() == gpio_id(input@).is_some(),
        found.is_some() ==> (found.unwrap().0@, found.unwrap().1) == gpio_id(input@).unwrap(),
{
    gpio_id_parser(input)
}

/// Whether nothing is left of the line: no byte, or a single line end.
pub fn line_ends(rest: &[u8]) -> (ended: bool)
    ensures
        ended == ends_line(rest@),
{
    rest.len() == 0 || (rest.len() == 1 && rest[0] == NEWLINE)
}

/// Whether the input is `word` and the end of the line.
pub fn word_parser(input: &[u8], word: &str) -> (found: bool)
    requires
        is_ascii(word),
    ensures
        found == is_word(input@, word@),
{
    match tag(input, word) {
        Some(rest) => line_ends(rest),
        None => false,
    }
}

/// Whether the input is a word for a high level and the end of the line.
pub fn gpio_value_true_parser(input: &[u8]) -> (found: bool)
    ensures
        found == gpio_value_true(input@),
{
    proof {
        reveal_strlit("high");
        reveal_strlit("on");
        reveal_strlit("h");
        reveal_strlit("1");
        reveal_strlit("true");
        reveal_strlit("t");
    }
    word_parser(input, "high") || word_parser(input, "on") || word_parser(input, "h")
        || word_parser(input, "1") || word_parser(input, "true") || word_parser(input, "t")
}

/// Whether the input is a word for a low level and the end of the line.
pub fn gpio_value_false_parser(input: &[u8]) -> (found: bool)
    ensures
        found == gpio_value_false(input@),
{
    proof {
        reveal_strlit("low");
        reveal_strlit("off");
        reveal_strlit("l");
        reveal_strlit("0");
        reveal_strlit("false");
        reveal_strlit("f");
    }
    word_parser(input, "low") || word_parser(input, "off") || word_parser(input, "l")
        || word_parser(input, "0") || word_parser(input, "false") || word_parser(input, "f")
}

/// Reads the value that the input names up to the end of the line.
pub fn gpio_value_parser(input: &[u8]) -> (found: Option<Value>)
    ensures
        found == gpio_value(input@),
{
    if gpio_value_true_parser(input) {
        Some(Value::Gpio(true))
    } else if gpio_value_false_parser(input) {
        Some(Value::Gpio(false))
    } else {
        None
    }
}

/// Reads the value that the input names up to the end of the line.
pub fn value_parser(input: &[u8]) -> (found: Option<Value>)
    ensures
        found == gpio_value(input@),
{
    gpio_value_parser(input)
}

/// Takes `word`, spaces and a pin off the beginning of the input.
fn addressed_parser<'a>(input: &'a [u8], word: &str) -> (found: Option<(&'a [u8], Id)>)
    requires
        is_ascii(word),
    ensures
        found.is_some() == addressed(input@, word@).is_some(),
        found.is_some() ==> (found.unwrap().0@, found.unwrap().1) == addressed(
            input@,
            word@,
        ).unwrap(),
{
    match tag(input, word) {
        Some(rest) => match space1(rest) {
            Some(rest) => id_parser(rest),
            None => None,
        },
        None => None,
    }
}

/// Reads the line as a `read` command.
pub fn read_command_parser(input: &[u8]) -> (found: Option<CommandEnum>)
    ensures
        found == read_command(input@),
{
    proof {
        reveal_strlit("read");
    }
    match addressed_parser(input, "read") {
        Some((rest, id)) => if line_ends(rest) {
            Some(CommandEnum::Read(ReadCommand { id }))
        } else {
            None
        },
        None => None,
    }
}

/// Reads the line as a `watch` command.
pub fn watch_command_parser(input: &[u8]) -> (found: Option<CommandEnum>)
    ensures
        found == watch_command(input@),
{
    proof {
        reveal_strlit("watch");
    }
    match addressed_parser(input, "watch") {
        Some((rest, id)) => if line_ends(rest) {
            Some(CommandEnum::Watch(WatchCommand { id }))
        } else {
            None
        },
        None => None,
    }
}

/// Reads the line as an `unwatch` command.
pub fn unwatch_command_parser(input: &[u8]) -> (found: Option<CommandEnum>)
    ensures
        found == unwatch_command(input@),
{
    proof {
        reveal_strlit("unwatch");
    }
    match addressed_parser(input, "unwatch") {
        Some((rest, id)) => if line_ends(rest) {
            Some(CommandEnum::Unwatch(UnwatchCommand { id }))
        } else {
            None
        },
        None => None,
    }
}

/// Reads the line as a `write` command.
pub fn write_command_parser(input: &[u8]) -> (found: Option<CommandEnum>)
    ensures
        found == write_command(input@),
{
    proof {
        reveal_strlit("write");
    }
    match addressed_parser(input, "write") {
        Some((rest, id)) => match space1(rest) {
            Some(rest) => match value_parser(rest) {
                Some(value) => Some(CommandEnum::Write(WriteCommand { id, value })),
                None => None,
            },
            None => None,
        },
        None => None,
    }
}

/// Reads the command that the bytes of a line hold.
pub fn parse_bytes(input: &[u8]) -> (result: Result<CommandEnum, ParseError>)
    ensures
        result == parsed(input@),
{
    if let Some(found) = read_command_parser(input) {
        return Ok(found);
    }
    if let Some(found) = watch_command_parser(input) {
        return Ok(found);
    }
    if let Some(found) = unwatch_command_parser(input) {
        return Ok(found);
    }
    match write_command_parser(input) {
        Some(found) => Ok(found),
        None => Err(ParseError),
    }
}

/// Reads the command that a line holds.
pub fn parse(input: &str) -> (result: Result<CommandEnum, ParseError>)
    ensures
        result == parsed(input.spec_bytes()),
{
    parse_bytes(input.as_bytes())
}

impl Id {
    /// The number of the pin.
    pub open spec fn pin(self) -> u8 {
        match self {
            Id::Gpio(pin) => pin,
        }
    }
}

impl Value {
    /// The level to drive.
    pub open spec fn level(self) -> bool {
        match self {
            Value::Gpio(level) => level,
        }
    }
}

/// The reply to `read gpio.<pin>`, before truncation.
pub open spec fn read_reply(pin: u8, result: Result<bool, PinError>) -> Seq<char> {
    match result {
        Ok(state) => "state of gpio."@ + decimal(pin as nat) + ": "@ + truth(state) + "\n"@,
        Err(error) => "error: could not read state of gpio."@ + decimal(pin as nat) + ": "@
            + error.text() + "\n"@,
    }
}

/// The reply to `write gpio.<pin> <value>`, before truncation.
pub open spec fn write_reply(pin: u8, value: bool, result: Result<(), PinError>) -> Seq<char> {
    match result {
        Ok(_) => "writing "@ + truth(value) + " to gpio."@ + decimal(pin as nat) + "\n"@,
        Err(error) => "error: could not write to gpio."@ + decimal(pin as nat) + ": "@
            + error.text() + "\n"@,
    }
}

/// The reply to `watch gpio.<pin>`, before truncation.
pub open spec fn watch_reply(pin: u8, result: Result<bool, PinError>) -> Seq<char> {
    match result {
        Ok(state) => "watching gpio."@ + decimal(pin as nat) + ", initial state: "@ + truth(state)
            + "\n"@,
        Err(error) => "error: could not watch gpio."@ + decimal(pin as nat) + ": "@ + error.text()
            + "\n"@,
    }
}

/// The reply to `unwatch gpio.<pin>`, before truncation.
pub open spec fn unwatch_reply(pin: u8, result: Result<(), PinError>) -> Seq<char> {
    match result {
        Ok(_) => "stopped watching gpio."@ + decimal(pin as nat) + "\n"@,
        Err(error) => "error: could not unwatch gpio."@ + decimal(pin as nat) + ": "@
            + error.text() + "\n"@,
    }
}

/// A command that can be carried out on the pin table.
pub trait Command {
    /// The pin table after the command was carried out on `table`.
    spec fn effect(&self, table: PinTable) -> PinTable;

    /// The reply to the command carried out on `table`, before truncation.
    spec fn reply(&self, table: PinTable) -> Seq<char>;

    /// Carries the command out on the pin table and formats the reply into
    /// `fmt_buffer`, cut to the buffer's length. A failure of the pin is
    /// told in the reply.
    fn execute<'a>(&self, fmt_buffer: &'a mut [u8], pin_manager: &mut RushPinManager) -> (reply:
        &'a str)
        requires
            old(pin_manager).wf(),
        ensures
            final(pin_manager).wf(),
            final(pin_manager)@ == self.effect(old(pin_manager)@),
            reply@ == truncated(self.reply(old(pin_manager)@), old(fmt_buffer)@.len()),
            reply@.len() <= old(fmt_buffer)@.len(),
    ;
}

/// Appends a colon, the reason of `error` and a line end to the line.
fn push_reason(line: &mut Line, buffer: &mut [u8], error: PinError)
    requires
        old(line).spells(old(buffer)@),
    ensures
        final(line).spells(final(buffer)@),
        final(line).text() == old(line).text() + ": "@ + error.text() + "\n"@,
        final(buffer)@.len() == old(buffer)@.len(),
{
    proof {
        reveal_strlit(": ");
        reveal_strlit("\n");
    }
    line.push(buffer, ": ");
    line.push(buffer, error.message());
    line.push(buffer, "\n");
}

impl Command for ReadCommand {
    open spec fn effect(&self, table: PinTable) -> PinTable {
        table.coerce_input(self.id.pin() as int)
    }

    open spec fn reply(&self, table: PinTable) -> Seq<char> {
        read_reply(self.id.pin(), table.read_result(self.id.pin() as int))
    }

    fn execute<'a>(&self, fmt_buffer: &'a mut [u8], pin_manager: &mut RushPinManager) -> (reply:
        &'a str) {
        let Id::Gpio(pin) = self.id;
        let mut line = Line::begin(Ghost(fmt_buffer@));
        match pin_manager.read(pin) {
            Ok(state) => {
                proof {
                    reveal_strlit("state of gpio.");
                    reveal_strlit(": ");
                    reveal_strlit("\n");
                }
                line.push(fmt_buffer, "state of gpio.");
                line.push_decimal(fmt_buffer, pin);
                line.push(fmt_buffer, ": ");
                line.push(fmt_buffer, truth_str(state));
                line.push(fmt_buffer, "\n");
            },
            Err(error) => {
                proof {
                    reveal_strlit("error: could not read state of gpio.");
                }
                line.push(fmt_buffer, "error: could not read state of gpio.");
                line.push_decimal(fmt_buffer, pin);
                push_reason(&mut line, fmt_buffer, error);
            },
        }
        assert(line.text() =~= self.reply(old(pin_manager)@));
        line.finish(fmt_buffer)
    }
}

impl Command for WatchCommand {
    open spec fn effect(&self, table: PinTable) -> PinTable {
        table.watch(self.id.pin() as int)
    }

    open spec fn reply(&self, table: PinTable) -> Seq<char> {
        watch_reply(self.id.pin(), table.read_result(self.id.pin() as int))
    }

    fn execute<'a>(&self, fmt_buffer: &'a mut [u8], pin_manager: &mut RushPinManager) -> (reply:
        &'a str) {
        let Id::Gpio(pin) = self.id;
        let mut line = Line::begin(Ghost(fmt_buffer@));
        match pin_manager.watch_pin(pin) {
            Ok(state) => {
                proof {
                    reveal_strlit("watching gpio.");
                    reveal_strlit(", initial state: ");
                    reveal_strlit("\n");
                }
                line.push(fmt_buffer, "watching gpio.");
                line.push_decimal(fmt_buffer, pin);
                line.push(fmt_buffer, ", initial state: ");
                line.push(fmt_buffer, truth_str(state));
                line.push(fmt_buffer, "\n");
            },
            Err(error) => {
                proof {
                    reveal_strlit("error: could not watch gpio.");
                }
                line.push(fmt_buffer, "error: could not watch gpio.");
                line.push_decimal(fmt_buffer, pin);
                push_reason(&mut line, fmt_buffer, error);
            },
        }
        assert(line.text() =~= self.reply(old(pin_manager)@));
        line.finish(fmt_buffer)
    }
}

impl Command for UnwatchCommand {
    open spec fn effect(&self, table: PinTable) -> PinTable {
        table.unwatch(self.id.pin() as int)
    }

    open spec fn reply(&self, table: PinTable) -> Seq<char> {
        unwatch_reply(self.id.pin(), table.presence(self.id.pin() as int))
    }

    fn execute<'a>(&self, fmt_buffer: &'a mut [u8], pin_manager: &mut RushPinManager) -> (reply:
        &'a str) {
        let Id::Gpio(pin) = self.id;
        let mut line = Line::begin(Ghost(fmt_buffer@));
        match pin_manager.unwatch_pin(pin) {
            Ok(_) => {
                proof {
                    reveal_strlit("stopped watching gpio.");
                    reveal_strlit("\n");
                }
                line.push(fmt_buffer, "stopped watching gpio.");
                line.push_decimal(fmt_buffer, pin);
                line.push(fmt_buffer, "\n");
            },
            Err(error) => {
                proof {
                    reveal_strlit("error: could not unwatch gpio.");
                }
                line.push(fmt_buffer, "error: could not unwatch gpio.");
                line.push_decimal(fmt_buffer, pin);
                push_reason(&mut line, fmt_buffer, error);
            },
        }
        assert(line.text() =~= self.reply(old(pin_manager)@));
        line.finish(fmt_buffer)
    }
}

impl Command for WriteCommand {
    open spec fn effect(&self, table: PinTable) -> PinTable {
        table.write(self.id.pin() as int, self.value.level())
    }

    open spec fn reply(&self, table: PinTable) -> Seq<char> {
        write_reply(self.id.pin(), self.value.level(), table.write_result(self.id.pin() as int))
    }

    fn execute<'a>(&self, fmt_buffer: &'a mut [u8], pin_manager: &mut RushPinManager) -> (reply:
        &'a str) {
        let Id::Gpio(pin) = self.id;
        let Value::Gpio(value) = self.value;
        let mut line = Line::begin(Ghost(fmt_buffer@));
        match pin_manager.write(pin, value) {
            Ok(_) => {
                proof {
                    reveal_strlit("writing ");
                    reveal_strlit(" to gpio.");
                    reveal_strlit("\n");
                }
                line.push(fmt_buffer, "writing ");
                line.push(fmt_buffer, truth_str(value));
                line.push(fmt_buffer, " to gpio.");
                line.push_decimal(fmt_buffer, pin);
                line.push(fmt_buffer, "\n");
            },
            Err(error) => {
                proof {
                    reveal_strlit("error: could not write to gpio.");
                }
                line.push(fmt_buffer, "error: could not write to gpio.");
                line.push_decimal(fmt_buffer, pin);
                push_reason(&mut line, fmt_buffer, error);
            },
        }
        assert(line.text() =~= self.reply(old(pin_manager)@));
        line.finish(fmt_buffer)
    }
}

impl Command for CommandEnum {
    open spec fn effect(&self, table: PinTable) -> PinTable {
        match self {
            CommandEnum::Read(command) => command.effect(table),
            CommandEnum::Watch(command) => command.effect(table),
            CommandEnum::Unwatch(command) => command.effect(table),
            CommandEnum::Write(command) => command.effect(table),
        }
    }

    open spec fn reply(&self, table: PinTable) -> Seq<char> {
        match self {
            CommandEnum::Read(command) => command.reply(table),
            CommandEnum::Watch(command) => command.reply(table),
            CommandEnum::Unwatch(command) => command.reply(table),
            CommandEnum::Write(command) => command.reply(table),
        }
    }

    fn execute<'a>(&self, fmt_buffer: &'a mut [u8], pin_manager: &mut RushPinManager) -> (reply:
        &'a str) {
        match self {
            CommandEnum::Read(command) => command.execute(fmt_buffer, pin_manager),
            CommandEnum::Watch(command) => command.execute(fmt_buffer, pin_manager),
            CommandEnum::Unwatch(command) => command.execute(fmt_buffer, pin_manager),
            CommandEnum::Write(command) => command.execute(fmt_buffer, pin_manager),
        }
    }
}

impl CommandEnum {
    /// The pin that the command addresses.
    pub open spec fn pin(self) -> u8 {
        match self {
            CommandEnum::Read(command) => command.id.pin(),
            CommandEnum::Watch(command) => command.id.pin(),
            CommandEnum::Unwatch(command) => command.id.pin(),
            CommandEnum::Write(command) => command.id.pin(),
        }
    }

    /// The pin table once the pin that the command addresses is ready for
    /// the command: an input to be read or watched, an output that drives
    /// the value to be written.
    pub open spec fn preparation(self, table: PinTable) -> PinTable {
        match self {
            CommandEnum::Read(_) => table.coerce_input(self.pin() as int),
            CommandEnum::Watch(_) => table.coerce_input(self.pin() as int),
            CommandEnum::Unwatch(_) => table,
            CommandEnum::Write(command) => table.write(
                self.pin() as int,
                command.value.level(),
            ),
        }
    }

    /// Makes the pin that the command addresses ready for the command, and
    /// gives no reply. A caller that stands between the table and the
    /// hardware prepares a command, brings the hardware in line, records
    /// the levels of the inputs and what the hardware refused, and then
    /// carries the command out: the reply then tells what the hardware did.
    pub fn prepare(&self, pin_manager: &mut RushPinManager)
        requires
            old(pin_manager).wf(),
        ensures
            final(pin_manager).wf(),
            final(pin_manager)@ == self.preparation(old(pin_manager)@),
    {
        match self {
            CommandEnum::Read(command) => {
                let Id::Gpio(pin) = command.id;
                let _ = pin_manager.coerce_input(pin);
            },
            CommandEnum::Watch(command) => {
                let Id::Gpio(pin) = command.id;
                let _ = pin_manager.coerce_input(pin);
            },
            CommandEnum::Unwatch(_) => {},
            CommandEnum::Write(command) => {
                let Id::Gpio(pin) = command.id;
                let Value::Gpio(value) = command.value;
                let _ = pin_manager.write(pin, value);
            },
        }
    }
}

/// To prepare a command before it is carried out changes neither its
/// reply nor what it leaves behind.
pub proof fn preparation_is_part_of_the_command(command: CommandEnum, table: PinTable)
    requires
        table.wf(),
    ensures
        command.preparation(table).wf(),
        command.reply(command.preparation(table)) == command.reply(table),
        command.effect(command.preparation(table)) == command.effect(table),
{
    let pin = command.pin() as int;
    let prepared = command.preparation(table);
    if 0 <= pin < table.slots.len() {
        assert(slot_wf(table.slots[pin], pin));
    }
    assert(command.effect(prepared).slots =~= command.effect(table).slots);
}

} // verus!
