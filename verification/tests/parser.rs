use rush::command_parser::{
    gpio_id_parser, gpio_value_false_parser, gpio_value_parser, gpio_value_true_parser, id_parser,
    line_ends, parse, parse_bytes, read_command_parser, space1, tag, unwatch_command_parser,
    value_parser, watch_command_parser, word_parser, write_command_parser, CommandEnum, Id,
    ParseError, ReadCommand, UnwatchCommand, Value, WatchCommand, WriteCommand,
};

fn read(pin: u8) -> CommandEnum {
    CommandEnum::Read(ReadCommand { id: Id::Gpio(pin) })
}

fn watch(pin: u8) -> CommandEnum {
    CommandEnum::Watch(WatchCommand { id: Id::Gpio(pin) })
}

fn unwatch(pin: u8) -> CommandEnum {
    CommandEnum::Unwatch(UnwatchCommand { id: Id::Gpio(pin) })
}

fn write(pin: u8, value: bool) -> CommandEnum {
    CommandEnum::Write(WriteCommand { id: Id::Gpio(pin), value: Value::Gpio(value) })
}

#[test]
fn the_four_forms() {
    assert_eq!(parse("read gpio.5"), Ok(read(5)));
    assert_eq!(parse("watch gpio.7"), Ok(watch(7)));
    assert_eq!(parse("unwatch gpio.48"), Ok(unwatch(48)));
    assert_eq!(parse("write gpio.6 true"), Ok(write(6, true)));
    assert_eq!(parse("write gpio.6 false"), Ok(write(6, false)));
}

#[test]
fn spellings_of_true_give_the_same_command() {
    assert_eq!(parse("write gpio.3 1\n"), Ok(write(3, true)));
    assert_eq!(parse("write gpio.3 on\n"), Ok(write(3, true)));
    assert_eq!(parse("write gpio.3 true\n"), Ok(write(3, true)));
    assert_eq!(parse("write gpio.3 maybe\n"), Err(ParseError));
}

#[test]
fn every_word_for_a_level() {
    for word in ["high", "on", "h", "1", "true", "t"] {
        assert_eq!(parse(&format!("write gpio.3 {}", word)), Ok(write(3, true)), "{}", word);
    }
    for word in ["low", "off", "l", "0", "false", "f"] {
        assert_eq!(parse(&format!("write gpio.3 {}", word)), Ok(write(3, false)), "{}", word);
    }
    for word in ["", "maybe", "yes", "no", "2", "-1", "High", "TRUE", "On", "o", "x"] {
        assert_eq!(parse(&format!("write gpio.3 {}", word)), Err(ParseError), "{}", word);
    }
}

#[test]
fn fields_are_separated_by_one_or_more_spaces() {
    assert_eq!(parse("read  gpio.5"), Ok(read(5)));
    assert_eq!(parse("read      gpio.5"), Ok(read(5)));
    assert_eq!(parse("write   gpio.5    on"), Ok(write(5, true)));
    assert_eq!(parse("readgpio.5"), Err(ParseError));
    assert_eq!(parse("write gpio.5on"), Err(ParseError));
    assert_eq!(parse("read\tgpio.5"), Err(ParseError));
    assert_eq!(parse("read \tgpio.5"), Err(ParseError));
    assert_eq!(parse(" read gpio.5"), Err(ParseError));
}

#[test]
fn pin_numbers_fit_in_eight_bits() {
    assert_eq!(parse("read gpio.0"), Ok(read(0)));
    assert_eq!(parse("read gpio.9"), Ok(read(9)));
    assert_eq!(parse("read gpio.10"), Ok(read(10)));
    assert_eq!(parse("read gpio.99"), Ok(read(99)));
    assert_eq!(parse("read gpio.100"), Ok(read(100)));
    assert_eq!(parse("read gpio.255"), Ok(read(255)));
    assert_eq!(parse("read gpio.256"), Err(ParseError));
    assert_eq!(parse("read gpio.260"), Err(ParseError));
    assert_eq!(parse("read gpio.999"), Err(ParseError));
    assert_eq!(parse("read gpio.1000"), Err(ParseError));
    assert_eq!(parse("read gpio.99999999999999999999999999"), Err(ParseError));
    assert_eq!(parse("read gpio.007"), Ok(read(7)));
    assert_eq!(parse("read gpio.0000000000000000000000255"), Ok(read(255)));
    assert_eq!(parse("read gpio.0000000000000000000000256"), Err(ParseError));
    assert_eq!(parse("write gpio.300 on"), Err(ParseError));
}

#[test]
fn what_is_no_command() {
    for line in [
        "",
        " ",
        "read",
        "read ",
        "read gpio",
        "read gpio.",
        "read gpio.x",
        "read gpio.-1",
        "read gpio.+1",
        "read gpio 5",
        "read uart.5",
        "read led.5",
        "write gpio.5",
        "write gpio.5 ",
        "write 5 on",
        "Read gpio.5",
        "READ gpio.5",
        "read GPIO.5",
        "rea gpio.5",
        "wat",
        "shout gpio.5",
        "list gpio.5",
        "toggle gpio.5",
        "gpio.5",
        "\n",
    ] {
        assert_eq!(parse(line), Err(ParseError), "{:?}", line);
    }
}

#[test]
fn a_single_line_end_may_follow_the_command() {
    assert_eq!(parse("read gpio.5\n"), Ok(read(5)));
    assert_eq!(parse("watch gpio.5\n"), Ok(watch(5)));
    assert_eq!(parse("unwatch gpio.5\n"), Ok(unwatch(5)));
    assert_eq!(parse("write gpio.5 off\n"), Ok(write(5, false)));
    assert_eq!(parse("write gpio.5 t\n"), Ok(write(5, true)));
}

#[test]
fn nothing_else_may_follow_the_command() {
    for line in [
        "read gpio.5 ",
        "read gpio.5 and more",
        "read gpio.5x",
        "read gpio.5\n\n",
        "read gpio.5\nx",
        "read gpio.5\r",
        "read gpio.5\r\n",
        "read gpio.5 \n",
        "watch gpio.5\u{e9}",
        "unwatch gpio.5 now",
        "write gpio.3 hi",
        "write gpio.5 truely",
        "write gpio.5 tea",
        "write gpio.5 lower",
        "write gpio.5 fine",
        "write gpio.5 10",
        "write gpio.5 01",
        "write gpio.5 on ",
        "write gpio.5 on off",
        "write gpio.5 on\n\n",
        "write gpio.5 on\nx",
        "write gpio.5 truefalse",
    ] {
        assert_eq!(parse(line), Err(ParseError), "{:?}", line);
    }
}

#[test]
fn unwatch_is_not_taken_for_watch() {
    assert_eq!(parse("unwatch gpio.1"), Ok(unwatch(1)));
    assert_eq!(parse("watch gpio.1"), Ok(watch(1)));
    assert_eq!(parse("unwatchgpio.1"), Err(ParseError));
    assert_eq!(parse("un watch gpio.1"), Err(ParseError));
}

#[test]
fn bytes_and_text_parse_alike() {
    for line in ["read gpio.5", "write gpio.6 off", "watch gpio.300", "nonsense", ""] {
        assert_eq!(parse_bytes(line.as_bytes()), parse(line), "{:?}", line);
    }
    assert_eq!(parse_bytes(b"read gpio.5\n"), Ok(read(5)));
    assert_eq!(parse_bytes(b"read gpio.5\xff"), Err(ParseError));
    assert_eq!(parse_bytes(b"\xffread gpio.5"), Err(ParseError));
}

#[test]
fn tag_takes_a_word_off() {
    assert_eq!(tag(b"read gpio.5", "read"), Some(&b" gpio.5"[..]));
    assert_eq!(tag(b"read", "read"), Some(&b""[..]));
    assert_eq!(tag(b"rea", "read"), None);
    assert_eq!(tag(b"", "read"), None);
    assert_eq!(tag(b"anything", ""), Some(&b"anything"[..]));
    assert_eq!(tag(b"Read", "read"), None);
}

#[test]
fn space1_takes_all_leading_spaces_off() {
    assert_eq!(space1(b" x"), Some(&b"x"[..]));
    assert_eq!(space1(b"    x "), Some(&b"x "[..]));
    assert_eq!(space1(b"   "), Some(&b""[..]));
    assert_eq!(space1(b"x "), None);
    assert_eq!(space1(b""), None);
    assert_eq!(space1(b"\t"), None);
}

#[test]
fn id_parsers_hand_back_the_rest() {
    assert_eq!(gpio_id_parser(b"gpio.12 on"), Some((&b" on"[..], Id::Gpio(12))));
    assert_eq!(id_parser(b"gpio.12"), Some((&b""[..], Id::Gpio(12))));
    assert_eq!(gpio_id_parser(b"gpio.12abc"), Some((&b"abc"[..], Id::Gpio(12))));
    assert_eq!(gpio_id_parser(b"gpio."), None);
    assert_eq!(gpio_id_parser(b"gpio.256"), None);
    assert_eq!(id_parser(b"gpio12"), None);
}

#[test]
fn value_parsers() {
    assert!(gpio_value_true_parser(b"high"));
    assert!(gpio_value_true_parser(b"high\n"));
    assert!(!gpio_value_true_parser(b"higher"));
    assert!(!gpio_value_true_parser(b"hi"));
    assert!(!gpio_value_true_parser(b"high "));
    assert!(!gpio_value_false_parser(b"fine"));
    assert!(line_ends(b""));
    assert!(line_ends(b"\n"));
    assert!(!line_ends(b"\n\n"));
    assert!(!line_ends(b" "));
    assert!(word_parser(b"on", "on"));
    assert!(word_parser(b"on\n", "on"));
    assert!(!word_parser(b"one", "on"));
    assert!(!word_parser(b"o", "on"));
    assert!(gpio_value_true_parser(b"t"));
    assert!(!gpio_value_true_parser(b"low"));
    assert!(!gpio_value_true_parser(b""));
    assert!(gpio_value_false_parser(b"off"));
    assert!(gpio_value_false_parser(b"0"));
    assert!(!gpio_value_false_parser(b"on"));
    assert!(!gpio_value_false_parser(b"o"));
    assert_eq!(gpio_value_parser(b"on"), Some(Value::Gpio(true)));
    assert_eq!(gpio_value_parser(b"off"), Some(Value::Gpio(false)));
    assert_eq!(gpio_value_parser(b"o"), None);
    assert_eq!(value_parser(b"1"), Some(Value::Gpio(true)));
    assert_eq!(value_parser(b"f"), Some(Value::Gpio(false)));
    assert_eq!(value_parser(b"maybe"), None);
}

#[test]
fn each_form_has_its_own_parser() {
    assert_eq!(read_command_parser(b"read gpio.1"), Some(read(1)));
    assert_eq!(read_command_parser(b"watch gpio.1"), None);
    assert_eq!(watch_command_parser(b"watch gpio.1"), Some(watch(1)));
    assert_eq!(watch_command_parser(b"unwatch gpio.1"), None);
    assert_eq!(unwatch_command_parser(b"unwatch gpio.1"), Some(unwatch(1)));
    assert_eq!(unwatch_command_parser(b"watch gpio.1"), None);
    assert_eq!(write_command_parser(b"write gpio.1 h"), Some(write(1, true)));
    assert_eq!(write_command_parser(b"write gpio.1"), None);
    assert_eq!(write_command_parser(b"write gpio.1 hi"), None);
    assert_eq!(read_command_parser(b"read gpio.1 "), None);
    assert_eq!(watch_command_parser(b"watch gpio.1x"), None);
    assert_eq!(unwatch_command_parser(b"unwatch gpio.1\n"), Some(unwatch(1)));
    assert_eq!(write_command_parser(b"read gpio.1"), None);
}
