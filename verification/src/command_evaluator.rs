//! From a line of the client to the reply that goes back.

use crate::command_parser::{parse, parsed, Command, CommandEnum};
use crate::rush_pin_manager::{PinTable, RushPinManager};
use crate::text::{fmt_truncate, truncated, truncated_fits};
use vstd::prelude::*;
use vstd::string::*;

verus! {

/// The reply to a line of text, before truncation: that of its command, or
/// the notice that it holds none.
pub open spec fn evaluation(line: Seq<u8>, table: PinTable) -> Seq<char> {
    match parsed(line) {
        Ok(command) => command.reply(table),
        Err(_) => "invalid command\n"@,
    }
}

/// The pin table after a line of text was dealt with: a line that holds no
/// command changes nothing.
pub open spec fn evaluation_effect(line: Seq<u8>, table: PinTable) -> PinTable {
    match parsed(line) {
        Ok(command) => command.effect(table),
        Err(_) => table,
    }
}

/// Carries `command` out on the pin table and formats the reply into
/// `fmt_buffer`.
pub fn run_command<'a>(
    command: CommandEnum,
    fmt_buffer: &'a mut [u8],
    pin_manager: &mut RushPinManager,
) -> (reply: &'a str)
    requires
        old(pin_manager).wf(),
    ensures
        final(pin_manager).wf(),
        final(pin_manager)@ == command.effect(old(pin_manager)@),
        reply@ == truncated(command.reply(old(pin_manager)@), old(fmt_buffer)@.len()),
        reply@.len() <= old(fmt_buffer)@.len(),
{
    command.execute(fmt_buffer, pin_manager)
}

/// Reads the command that `command` holds, carries it out on the pin table
/// and formats the reply into `fmt_buffer`. A line that holds no command is
/// answered with a notice and changes nothing.
pub fn evaluate_command<'a>(
    command: &str,
    fmt_buffer: &'a mut [u8],
    pin_manager: &mut RushPinManager,
) -> (reply: &'a str)
    requires
        old(pin_manager).wf(),
    ensures
        final(pin_manager).wf(),
        final(pin_manager)@ == evaluation_effect(command.spec_bytes(), old(pin_manager)@),
        reply@ == truncated(
            evaluation(command.spec_bytes(), old(pin_manager)@),
            old(fmt_buffer)@.len(),
        ),
        reply@.len() <= old(fmt_buffer)@.len(),
{
    proof {
        truncated_fits(evaluation(command.spec_bytes(), pin_manager@), fmt_buffer@.len());
    }
    match parse(command) {
        Ok(parsed_command) => run_command(parsed_command, fmt_buffer, pin_manager),
        Err(_) => {
            proof {
                reveal_strlit("invalid command\n");
            }
            fmt_truncate(fmt_buffer, "invalid command\n")
        },
    }
}

} // verus!
