use rush::command_evaluator::{evaluate_command, run_command};
use rush::command_parser::{
    Command, CommandEnum, Id, ReadCommand, UnwatchCommand, Value, WatchCommand, WriteCommand,
};
use rush::rush_pin_manager::{Mode, RushPinManager};
use rush::text::{bit_str, truth_str};

fn reply_to(line: &str, manager: &mut RushPinManager) -> String {
    let mut buffer = [0u8; 1024];
    evaluate_command(line, &mut buffer, manager).to_string()
}

#[test]
fn pin_numbers_are_written_in_decimal() {
    for n in 0u8..=255 {
        let mut manager = RushPinManager::new();
        let reply = reply_to(&format!("unwatch gpio.{}", n), &mut manager);
        if manager.get_pin(n).is_some() {
            assert_eq!(reply, format!("stopped watching gpio.{}\n", n));
        } else {
            assert_eq!(
                reply,
                format!("error: could not unwatch gpio.{}: pin does not exist\n", n)
            );
        }
    }
}

#[test]
fn words_for_values() {
    assert_eq!(truth_str(true), "true");
    assert_eq!(truth_str(false), "false");
    assert_eq!(bit_str(true), "1");
    assert_eq!(bit_str(false), "0");
}

#[test]
fn reply_leaves_the_rest_of_the_buffer_alone() {
    let mut manager = RushPinManager::new();
    let mut buffer = [0xaau8; 32];
    let length = evaluate_command("read gpio.5", &mut buffer, &mut manager).len();
    assert_eq!(length, 23);
    assert_eq!(&buffer[..length], b"state of gpio.5: false\n");
    assert!(buffer[length..].iter().all(|byte| *byte == 0xaa));
}

#[test]
fn read_replies() {
    let mut manager = RushPinManager::new();
    assert_eq!(reply_to("read gpio.5", &mut manager), "state of gpio.5: false\n");
    manager.sense(5, true).unwrap();
    assert_eq!(reply_to("read gpio.5", &mut manager), "state of gpio.5: true\n");
    assert_eq!(
        reply_to("read gpio.22", &mut manager),
        "error: could not read state of gpio.22: pin does not exist\n"
    );
    assert_eq!(
        reply_to("read gpio.255", &mut manager),
        "error: could not read state of gpio.255: pin does not exist\n"
    );
    manager.set_fault(6, true).unwrap();
    assert_eq!(
        reply_to("read gpio.6", &mut manager),
        "error: could not read state of gpio.6: esp_hal_common::gpio::GpioPin.is_high() failed\n"
    );
}

#[test]
fn write_replies() {
    let mut manager = RushPinManager::new();
    assert_eq!(reply_to("write gpio.6 true", &mut manager), "writing true to gpio.6\n");
    assert_eq!(manager.get_pin(6).unwrap().mode, Mode::Output);
    assert!(manager.get_pin(6).unwrap().level);
    assert_eq!(reply_to("write gpio.6 off", &mut manager), "writing false to gpio.6\n");
    assert!(!manager.get_pin(6).unwrap().level);
    assert_eq!(
        reply_to("write gpio.25 1", &mut manager),
        "error: could not write to gpio.25: pin does not exist\n"
    );
    manager.set_fault(7, true).unwrap();
    assert_eq!(
        reply_to("write gpio.7 1", &mut manager),
        "error: could not write to gpio.7: \
         embedded_hal::digital::v2::OutputPin.set_state() failed\n"
    );
}

#[test]
fn watch_replies() {
    let mut manager = RushPinManager::new();
    assert_eq!(
        reply_to("watch gpio.7", &mut manager),
        "watching gpio.7, initial state: false\n"
    );
    assert_eq!(manager.last_state_if_watched(7), Some(false));
    manager.sense(8, true).unwrap();
    assert_eq!(reply_to("watch gpio.8", &mut manager), "watching gpio.8, initial state: true\n");
    assert_eq!(
        reply_to("watch gpio.49", &mut manager),
        "error: could not watch gpio.49: pin does not exist\n"
    );
    manager.set_fault(9, true).unwrap();
    assert_eq!(
        reply_to("watch gpio.9", &mut manager),
        "error: could not watch gpio.9: esp_hal_common::gpio::GpioPin.is_high() failed\n"
    );
}

#[test]
fn unwatch_replies() {
    let mut manager = RushPinManager::new();
    manager.watch_pin(7).unwrap();
    assert_eq!(reply_to("unwatch gpio.7", &mut manager), "stopped watching gpio.7\n");
    assert_eq!(manager.last_state_if_watched(7), None);
    assert_eq!(reply_to("unwatch gpio.7", &mut manager), "stopped watching gpio.7\n");
    assert_eq!(
        reply_to("unwatch gpio.23", &mut manager),
        "error: could not unwatch gpio.23: pin does not exist\n"
    );
}

#[test]
fn what_is_no_command_is_answered_and_changes_nothing() {
    let mut manager = RushPinManager::new();
    assert_eq!(reply_to("dance gpio.7", &mut manager), "invalid command\n");
    assert_eq!(reply_to("", &mut manager), "invalid command\n");
    assert_eq!(reply_to("write gpio.3 maybe", &mut manager), "invalid command\n");
    for n in 0u8..49 {
        assert_eq!(manager.get_pin(n), RushPinManager::new().get_pin(n));
    }
}

#[test]
fn commands_carry_themselves_out() {
    let mut manager = RushPinManager::new();
    let mut buffer = [0u8; 1024];
    let write = WriteCommand { id: Id::Gpio(40), value: Value::Gpio(true) };
    assert_eq!(write.execute(&mut buffer, &mut manager), "writing true to gpio.40\n");
    let read = ReadCommand { id: Id::Gpio(40) };
    assert_eq!(read.execute(&mut buffer, &mut manager), "state of gpio.40: true\n");
    let watch = WatchCommand { id: Id::Gpio(40) };
    assert_eq!(watch.execute(&mut buffer, &mut manager), "watching gpio.40, initial state: true\n");
    let unwatch = UnwatchCommand { id: Id::Gpio(40) };
    assert_eq!(unwatch.execute(&mut buffer, &mut manager), "stopped watching gpio.40\n");
    assert_eq!(
        CommandEnum::Read(read).execute(&mut buffer, &mut manager),
        "state of gpio.40: true\n"
    );
    assert_eq!(
        run_command(CommandEnum::Write(write), &mut buffer, &mut manager),
        "writing true to gpio.40\n"
    );
    assert_eq!(
        run_command(CommandEnum::Watch(watch), &mut buffer, &mut manager),
        "watching gpio.40, initial state: true\n"
    );
    assert_eq!(
        run_command(CommandEnum::Unwatch(unwatch), &mut buffer, &mut manager),
        "stopped watching gpio.40\n"
    );
}

#[test]
fn reply_is_cut_to_the_buffer() {
    let mut manager = RushPinManager::new();
    let full = "state of gpio.5: false\n";
    for capacity in 0..=full.len() + 3 {
        let mut buffer = vec![0u8; capacity];
        let reply = evaluate_command("read gpio.5", &mut buffer, &mut manager);
        let expected = &full[..capacity.min(full.len())];
        assert_eq!(reply, expected);
        assert!(reply.len() <= capacity);
    }
    let mut buffer = [0u8; 4];
    assert_eq!(evaluate_command("bogus", &mut buffer, &mut manager), "inva");
    let mut buffer = [0u8; 20];
    assert_eq!(
        evaluate_command("read gpio.22", &mut buffer, &mut manager),
        "error: could not rea"
    );
}

#[test]
fn cut_reply_still_carries_the_command_out() {
    let mut manager = RushPinManager::new();
    let mut buffer = [0u8; 3];
    assert_eq!(evaluate_command("write gpio.2 on", &mut buffer, &mut manager), "wri");
    assert_eq!(manager.get_pin(2).unwrap().mode, Mode::Output);
    assert!(manager.get_pin(2).unwrap().level);
}

#[test]
fn prepare_makes_the_pin_ready() {
    let mut manager = RushPinManager::new();
    manager.sense(4, true).unwrap();
    CommandEnum::Read(ReadCommand { id: Id::Gpio(4) }).prepare(&mut manager);
    let pin = manager.get_pin(4).unwrap();
    assert_eq!(pin.mode, Mode::Input);
    assert!(pin.level);
    CommandEnum::Write(WriteCommand { id: Id::Gpio(4), value: Value::Gpio(false) })
        .prepare(&mut manager);
    let pin = manager.get_pin(4).unwrap();
    assert_eq!(pin.mode, Mode::Output);
    assert!(!pin.level);
    CommandEnum::Watch(WatchCommand { id: Id::Gpio(5) }).prepare(&mut manager);
    assert_eq!(manager.get_pin(5).unwrap().mode, Mode::Input);
    assert_eq!(manager.last_state_if_watched(5), None);
    manager.watch_pin(6).unwrap();
    CommandEnum::Unwatch(UnwatchCommand { id: Id::Gpio(6) }).prepare(&mut manager);
    assert_eq!(manager.last_state_if_watched(6), Some(false));
    CommandEnum::Read(ReadCommand { id: Id::Gpio(23) }).prepare(&mut manager);
    assert_eq!(manager.get_pin(23), None);
}

#[test]
fn prepared_command_replies_as_an_unprepared_one() {
    for line in ["read gpio.3", "write gpio.3 on", "watch gpio.3", "unwatch gpio.3", "read gpio.24"]
    {
        let mut plain = RushPinManager::new();
        let mut prepared = RushPinManager::new();
        let command = rush::command_parser::parse(line).unwrap();
        command.prepare(&mut prepared);
        let mut first = [0u8; 128];
        let mut second = [0u8; 128];
        assert_eq!(
            command.execute(&mut first, &mut plain),
            command.execute(&mut second, &mut prepared)
        );
        for n in 0u8..49 {
            assert_eq!(plain.get_pin(n), prepared.get_pin(n));
            assert_eq!(plain.last_state_if_watched(n), prepared.last_state_if_watched(n));
        }
    }
}

#[test]
fn level_sensed_after_preparing_is_the_level_read() {
    let mut manager = RushPinManager::new();
    let command = rush::command_parser::parse("read gpio.3").unwrap();
    command.prepare(&mut manager);
    manager.sense(3, true).unwrap();
    let mut buffer = [0u8; 128];
    assert_eq!(command.execute(&mut buffer, &mut manager), "state of gpio.3: true\n");
}

#[test]
fn refusal_recorded_after_preparing_is_told_in_the_reply() {
    let mut manager = RushPinManager::new();
    let command = rush::command_parser::parse("write gpio.3 on").unwrap();
    command.prepare(&mut manager);
    assert!(manager.get_pin(3).unwrap().level);
    manager.set_fault(3, true).unwrap();
    let mut buffer = [0u8; 128];
    assert_eq!(
        command.execute(&mut buffer, &mut manager),
        "error: could not write to gpio.3: \
         embedded_hal::digital::v2::OutputPin.set_state() failed\n"
    );
}
