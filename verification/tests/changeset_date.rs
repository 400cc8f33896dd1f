use cross::changeset::date::{Converter, Date, Item, Pattern, Placeholder};
use cross::changeset::stream::{consume_if_bytes, consume_if_str, take_while};
use cross::errors::Error;

#[test]
fn date_test_pattern_parse() -> Result<(), Error> {
    assert_eq!(
        Pattern::parse("{year}-{month}-{day}")?,
        Pattern(vec![
            Item::Placeholder(Placeholder::Year),
            Item::Str("-"),
            Item::Placeholder(Placeholder::Month),
            Item::Str("-"),
            Item::Placeholder(Placeholder::Day),
        ]),
    );

    assert_eq!(
        Pattern::parse("{day}/{month}/{year}")?,
        Pattern(vec![
            Item::Placeholder(Placeholder::Day),
            Item::Str("/"),
            Item::Placeholder(Placeholder::Month),
            Item::Str("/"),
            Item::Placeholder(Placeholder::Year),
        ]),
    );

    Ok(())
}

#[test]
fn test_convert_date() -> Result<(), Error> {
    let conv = Converter::new(Pattern::parse("{day}/{month}/{year}")?);
    let string = "23/4/2012".to_owned();
    let date = Date {
        year: 2012,
        month: 4,
        day: 23,
    };
    assert_eq!(conv.to_string(&date)?, string);
    assert_eq!(conv.parse(&string)?, (date, "".to_owned()));
    assert_eq!(
        conv.parse(&format!("{string} some trail"))?,
        (date, " some trail".to_owned())
    );

    let conv = Converter::new(Pattern::parse("{year}-{month}-{day}")?);
    let string = "2012-4-23".to_owned();
    assert_eq!(conv.to_string(&date)?, string);
    assert_eq!(conv.parse(&string)?, (date, "".to_owned()));
    assert_eq!(
        conv.parse(&format!("{string} some trail"))?,
        (date, " some trail".to_owned())
    );

    let conv = Converter::new(Pattern::parse("{year}-{month}-{day}")?);
    assert!(conv.parse("23/4/2012").is_err());

    Ok(())
}

#[test]
fn dates_are_written_to_a_sink() {
    let conv = Converter::new(Pattern::parse("on {day}.{month}.{year}!").unwrap());
    let mut sink = b"seen ".to_vec();
    let date = Date { year: -44, month: 3, day: 15 };
    conv.write(&mut sink, &date).unwrap();
    assert_eq!(sink, b"seen on 15.3.-44!".to_vec());
    let zero = Date { year: 0, month: 0, day: 0 };
    assert_eq!(conv.to_string(&zero).unwrap(), "on 0.0.0!");
    let far = Date { year: i32::MIN, month: u32::MAX, day: 10 };
    assert_eq!(conv.to_string(&far).unwrap(), "on 10.4294967295.-2147483648!");
}

#[test]
fn date_fields_must_be_numbers_that_fit() {
    let conv = Converter::new(Pattern::parse("{year}-{month}").unwrap());
    assert_eq!(conv.parse("-3"), Err(Error::InvalidNumber("".to_owned())));
    assert_eq!(conv.parse("2012/4"), Err(Error::NoPrefix));
    assert_eq!(
        conv.parse("2147483648-1"),
        Err(Error::InvalidNumber("2147483648".to_owned()))
    );
    assert_eq!(
        conv.parse("2147483647-4294967295x"),
        Ok((Date { year: 2147483647, month: 4294967295, day: 0 }, "x".to_owned()))
    );
    assert_eq!(
        conv.parse("1-4294967296"),
        Err(Error::InvalidNumber("4294967296".to_owned()))
    );
    assert_eq!(
        conv.parse("1-99999999999999999999999"),
        Err(Error::InvalidNumber("99999999999999999999999".to_owned()))
    );
}

#[test]
fn unknown_date_placeholders_are_refused() {
    assert_eq!(Placeholder::parse("day"), Ok(Placeholder::Day));
    assert_eq!(
        Placeholder::parse("hour"),
        Err(Error::UnsupportedPlaceholder("hour".to_owned()))
    );
    assert_eq!(
        Pattern::parse("{year}T{hour}"),
        Err(Error::UnsupportedPlaceholder("hour".to_owned()))
    );
    assert_eq!(Pattern::parse("{year").err(), Some(Error::StartWithoutEnd));
    assert_eq!(Pattern::new(), Pattern(vec![]));
    assert_eq!(
        Pattern::parse("{day}/{month}").unwrap().to_string(),
        "{day}/{month}"
    );
}

#[test]
fn prefixes_are_consumed() {
    assert_eq!(consume_if_bytes(b"abcdef", b"abc"), Ok(&b"def"[..]));
    assert_eq!(consume_if_bytes(b"abcdef", b""), Ok(&b"abcdef"[..]));
    assert_eq!(consume_if_bytes(b"ab", b"abc"), Err(Error::NoPrefix));
    assert_eq!(consume_if_bytes(b"abd", b"abc"), Err(Error::NoPrefix));
    assert_eq!(consume_if_str("2012-4", "2012"), Ok("-4".to_owned()));
    assert_eq!(consume_if_str("2012-4", "2013"), Err(Error::NoPrefix));
    assert_eq!(consume_if_str("né", "n"), Ok("é".to_owned()));
}

#[test]
fn take_while_stops_at_the_first_refusal() {
    assert_eq!(
        take_while("123abc4", |c| c.is_ascii_digit()),
        ("123".to_owned(), "abc4".to_owned())
    );
    assert_eq!(
        take_while("abc", |c| c.is_ascii_digit()),
        ("".to_owned(), "abc".to_owned())
    );
    assert_eq!(
        take_while("123", |c| c.is_ascii_digit()),
        ("123".to_owned(), "".to_owned())
    );
    assert_eq!(
        take_while("ééx", |c| *c == 'é'),
        ("éé".to_owned(), "x".to_owned())
    );
}
