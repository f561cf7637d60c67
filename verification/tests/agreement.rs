use nom::branch::alt;
use nom::bytes::complete::tag;
use nom::character::complete::{char, digit1};
use nom::IResult;
use rush::command_parser::{
    parse, CommandEnum, Id, ParseError, ReadCommand, UnwatchCommand, Value, WatchCommand,
    WriteCommand,
};

fn spaces(input: &str) -> IResult<&str, &str> {
    nom::bytes::complete::take_while1(|c| c == ' ')(input)
}

fn pin(input: &str) -> IResult<&str, u8> {
    let (input, _) = tag("gpio")(input)?;
    let (input, _) = char('.')(input)?;
    let (input, digits) = digit1(input)?;
    match digits.parse::<u8>() {
        Ok(number) => Ok((input, number)),
        Err(_) => Err(nom::Err::Error(nom::error::Error::new(
            input,
            nom::error::ErrorKind::Digit,
        ))),
    }
}

fn level(input: &str) -> IResult<&str, bool> {
    let high: IResult<&str, &str> =
        alt((tag("high"), tag("on"), tag("h"), tag("1"), tag("true"), tag("t")))(input);
    if let Ok((rest, _)) = high {
        if ends(rest) {
            return Ok((rest, true));
        }
    }
    let low: IResult<&str, &str> =
        alt((tag("low"), tag("off"), tag("l"), tag("0"), tag("false"), tag("f")))(input);
    if let Ok((rest, _)) = low {
        if ends(rest) {
            return Ok((rest, false));
        }
    }
    for (word, value) in [("h", true), ("t", true), ("l", false), ("f", false)] {
        let short: IResult<&str, &str> = tag(word)(input);
        if let Ok((rest, _)) = short {
            if ends(rest) {
                return Ok((rest, value));
            }
        }
    }
    Err(nom::Err::Error(nom::error::Error::new(input, nom::error::ErrorKind::Tag)))
}

fn ends(rest: &str) -> bool {
    rest.is_empty() || rest == "\n"
}

fn addressed<'a>(word: &'static str, input: &'a str) -> IResult<&'a str, u8> {
    let (input, _) = tag(word)(input)?;
    let (input, _) = spaces(input)?;
    pin(input)
}

fn with_combinators(input: &str) -> Result<CommandEnum, ParseError> {
    if let Ok((rest, n)) = addressed("read", input) {
        if ends(rest) {
            return Ok(CommandEnum::Read(ReadCommand { id: Id::Gpio(n) }));
        }
    }
    if let Ok((rest, n)) = addressed("watch", input) {
        if ends(rest) {
            return Ok(CommandEnum::Watch(WatchCommand { id: Id::Gpio(n) }));
        }
    }
    if let Ok((rest, n)) = addressed("unwatch", input) {
        if ends(rest) {
            return Ok(CommandEnum::Unwatch(UnwatchCommand { id: Id::Gpio(n) }));
        }
    }
    if let Ok((rest, n)) = addressed("write", input) {
        if let Ok((rest, _)) = spaces(rest) {
            if let Ok((_, value)) = level(rest) {
                return Ok(CommandEnum::Write(WriteCommand {
                    id: Id::Gpio(n),
                    value: Value::Gpio(value),
                }));
            }
        }
    }
    Err(ParseError)
}

#[test]
fn grammar_agrees_with_parser_combinators() {
    let words = ["read", "watch", "unwatch", "write", "rea", "reads", "Write", "", "list"];
    let gaps = ["", " ", "  ", "\t", " \t", "   "];
    let ids = [
        "gpio.0", "gpio.5", "gpio.48", "gpio.255", "gpio.256", "gpio.999", "gpio.0042", "gpio.",
        "gpio", "gpio.x", "gpio.5x", "gpio.-5", "uart.5", "GPIO.5", "5", "",
    ];
    let values = [
        "high", "on", "h", "1", "true", "t", "low", "off", "l", "0", "false", "f", "maybe", "o",
        "of", "tr", "hi", "2", "", "ON", "truefalse", "10",
    ];
    let mut compared = 0;
    for word in words {
        for gap in gaps {
            for id in ids {
                let line = format!("{}{}{}", word, gap, id);
                assert_eq!(parse(&line), with_combinators(&line), "{:?}", line);
                compared += 1;
                for second_gap in gaps {
                    for value in values {
                        let line = format!("{}{}{}{}{}", word, gap, id, second_gap, value);
                        assert_eq!(parse(&line), with_combinators(&line), "{:?}", line);
                        for tail in ["\n", "\n\n", " ", "x"] {
                            let line = format!("{}{}", line, tail);
                            assert_eq!(parse(&line), with_combinators(&line), "{:?}", line);
                        }
                        compared += 5;
                    }
                }
            }
        }
    }
    assert!(compared > 100_000);
}
