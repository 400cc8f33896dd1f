use cross::changeset::pattern::{
    extract_escaped, extract_unescaped, extract_unescaped_at_end, parse_pattern, scan_pattern,
    Item, Pattern, Piece, Placeholder,
};
use cross::errors::Error;

#[test]
fn test_placeholder_parse() -> Result<(), Error> {
    let sep = ",";
    let parse = |s| Placeholder::parse(s, sep);
    assert_eq!(parse("id")?, Placeholder::AnyIdentifier(sep));
    assert_eq!(parse("number")?, Placeholder::NumberIdentifier(sep));
    assert_eq!(parse("commit")?, Placeholder::CommitIdentifier(sep));
    assert_eq!(parse("other")?, Placeholder::OtherIdentifier);
    assert_eq!(parse("issues")?, Placeholder::Issues(sep));
    assert_eq!(parse("commits")?, Placeholder::Commits(sep));
    assert_eq!(parse("breaking")?, Placeholder::Breaking);
    assert_eq!(parse("description")?, Placeholder::Description);

    assert_eq!(parse("id[-]")?, Placeholder::AnyIdentifier("-"));
    assert_eq!(parse("number[_]")?, Placeholder::NumberIdentifier("_"));
    assert_eq!(parse("commit[/]")?, Placeholder::CommitIdentifier("/"));
    assert_eq!(parse("issues[-_]")?, Placeholder::Issues("-_"));
    assert_eq!(parse("commits[//]")?, Placeholder::Commits("//"));

    assert!(parse("other[/]").is_err());
    assert!(parse("breaking[/]").is_err());
    assert!(parse("description[/]").is_err());

    assert!(parse("idx").is_err());
    assert!(parse("others").is_err());
    assert!(parse("hey[,]").is_err());

    Ok(())
}

#[test]
fn placeholder_errors_are_told_apart() {
    let parse = |s| Placeholder::parse(s, ",");
    assert_eq!(parse("date"), Ok(Placeholder::Date));
    assert_eq!(parse("*"), Ok(Placeholder::Wildcard));
    assert_eq!(parse("other[/]"), Err(Error::UnexpectedSeparator));
    assert_eq!(parse("idx"), Err(Error::UnsupportedPlaceholder("idx".to_owned())));
    assert_eq!(parse("id[x]y"), Err(Error::GroupNotAtEnd));
    assert_eq!(parse("id[[x]"), Err(Error::NestedStart));
    assert_eq!(parse("id[x"), Err(Error::StartWithoutEnd));
    assert_eq!(parse("id]"), Err(Error::EndWithoutStart));
    assert_eq!(parse("id[]"), Err(Error::EmptyPlaceholder));
}

#[test]
fn test_placeholder_to_string() {
    assert_eq!(Placeholder::AnyIdentifier(",").to_string(), "id[,]".to_owned());
    assert_eq!(Placeholder::NumberIdentifier("/").to_string(), "number[/]".to_owned());
    assert_eq!(Placeholder::CommitIdentifier("-").to_string(), "commit[-]".to_owned());
    assert_eq!(Placeholder::OtherIdentifier.to_string(), "other".to_owned());
    assert_eq!(Placeholder::Issues("//").to_string(), "issues[//]".to_owned());
    assert_eq!(Placeholder::Commits("+").to_string(), "commits[+]".to_owned());
    assert_eq!(Placeholder::Breaking.to_string(), "breaking".to_owned());
    assert_eq!(Placeholder::Description.to_string(), "description".to_owned());
}

#[test]
fn test_pattern_item_to_string() {
    assert_eq!(Item::Str("prefix").to_string(), "prefix".to_owned());
    assert_eq!(
        Item::Placeholder(Placeholder::Commits("+")).to_string(),
        "{commits[+]}".to_owned()
    );
}

#[test]
fn pattern_test_pattern_parse() -> Result<(), Error> {
    let sep = ",";
    let parse = |s| Pattern::parse(s, sep);
    assert_eq!(
        parse("issue{id}suffix")?,
        Pattern(vec![
            Item::Str("issue"),
            Item::Placeholder(Placeholder::AnyIdentifier(",")),
            Item::Str("suffix"),
        ]),
    );

    assert_eq!(
        parse("issue{number[/]}suffix")?,
        Pattern(vec![
            Item::Str("issue"),
            Item::Placeholder(Placeholder::NumberIdentifier("/")),
            Item::Str("suffix"),
        ]),
    );

    Ok(())
}

#[test]
fn test_pattern_to_string() {
    assert_eq!(
        Pattern(vec![
            Item::Str("issue"),
            Item::Placeholder(Placeholder::AnyIdentifier(",")),
            Item::Str("suffix"),
        ])
        .to_string(),
        "issue{id[,]}suffix".to_owned()
    );

    assert_eq!(
        Pattern(vec![
            Item::Str("issue"),
            Item::Placeholder(Placeholder::NumberIdentifier("/")),
            Item::Str("suffix"),
        ])
        .to_string(),
        "issue{number[/]}suffix".to_owned()
    );
}

#[test]
fn test_extract_unescaped() -> Result<(), Error> {
    let extract = |bytes| extract_unescaped(bytes, b'[', b']');
    assert_eq!(extract(b"pr[x]")?, Some((2, 4)));
    assert_eq!(extract(b"[x]aaa")?, Some((0, 2)));
    assert!(extract(b"[]").is_err());
    assert!(extract(b"[aaaaa").is_err());
    assert!(extract(b"[aaa[aa]]").is_err());
    assert!(extract(b"aaa]bbb").is_err());
    assert!(extract(b"]bbb").is_err());
    assert!(extract(b"]b[b]b").is_err());
    assert!(extract(b"abgahaha")?.is_none());

    // these are fine, since they extract the first one.
    assert_eq!(extract(b"[x]aa]a")?, Some((0, 2)));
    assert_eq!(extract(b"[x]aa[a")?, Some((0, 2)));

    Ok(())
}

#[test]
fn unescaped_errors_are_told_apart() {
    let extract = |bytes| extract_unescaped(bytes, b'[', b']');
    assert_eq!(extract(b"[]"), Err(Error::EmptyPlaceholder));
    assert_eq!(extract(b"[aaaaa"), Err(Error::StartWithoutEnd));
    assert_eq!(extract(b"[aaa[aa]]"), Err(Error::NestedStart));
    assert_eq!(extract(b"aaa]bbb"), Err(Error::EndWithoutStart));
    assert_eq!(extract(b""), Ok(None));
    assert_eq!(extract_unescaped(b"a|b|c", b'|', b'|'), Ok(None));
}

#[test]
fn test_extract_unescaped_at_end() -> Result<(), Error> {
    let extract = |bytes| extract_unescaped_at_end(bytes, b'[', b']');
    assert_eq!(extract(b"pr[x]")?, Some(2));
    assert_eq!(extract(b"[x]")?, Some(0));
    assert!(extract(b"[x]aaa").is_err());
    assert!(extract(b"[]").is_err());
    assert!(extract(b"[aaaaa").is_err());
    assert!(extract(b"[aaa[aa]]").is_err());
    assert!(extract(b"aaa]bbb").is_err());
    assert!(extract(b"]bbb").is_err());
    assert!(extract(b"]b[b]b").is_err());
    assert!(extract(b"abgahaha")?.is_none());

    Ok(())
}

#[test]
fn test_extract_escaped() -> Result<(), Error> {
    let extract = |bytes| extract_escaped(bytes, b'{', b'}');
    assert_eq!(extract(b"pr{x}")?, Some((2, 4)));
    assert_eq!(extract(b"pr{{x")?, None);
    assert_eq!(extract(b"pr{{x}}")?, None);
    assert_eq!(extract(b"pr{{{x}")?, Some((4, 6)));
    assert_eq!(extract(b"pr}}")?, None);
    assert_eq!(extract(b"pr{[x]}")?, Some((2, 6)));

    assert!(extract(b"pr}").is_err());
    assert!(extract(b"pr{{}").is_err());
    assert!(extract(b"pr{{{").is_err());
    assert!(extract(b"pr}}{").is_err());
    assert!(extract(b"pr{").is_err());
    assert!(extract(b"pr{x{}").is_err());
    assert!(extract(b"pr{x{}").is_err());
    assert!(extract(b"abgahaha")?.is_none());

    // these are fine, since they extract the first one.
    assert_eq!(extract(b"{x}aa}a")?, Some((0, 2)));
    assert_eq!(extract(b"{x}aa{a")?, Some((0, 2)));
    assert_eq!(extract(b"pr}}{x}{a")?, Some((4, 6)));

    Ok(())
}

#[test]
fn escaped_errors_are_told_apart() {
    let extract = |bytes| extract_escaped(bytes, b'{', b'}');
    assert_eq!(extract(b"pr}"), Err(Error::EndWithoutStart));
    assert_eq!(extract(b"pr{"), Err(Error::StartWithoutEnd));
    assert_eq!(extract(b"pr{x{}"), Err(Error::NestedStart));
    assert_eq!(extract(b"{}"), Err(Error::EmptyPlaceholder));
    assert_eq!(extract(b"pr}x"), Err(Error::EndWithoutStart));
}

#[test]
fn patterns_are_split_into_pieces() {
    assert_eq!(
        parse_pattern("issue{id}suffix"),
        Ok(vec![Piece::Text("issue"), Piece::Hole("id"), Piece::Text("suffix")])
    );
    assert_eq!(parse_pattern("{a}{b}"), Ok(vec![Piece::Hole("a"), Piece::Hole("b")]));
    assert_eq!(parse_pattern(""), Ok(vec![]));
    assert_eq!(parse_pattern("plain"), Ok(vec![Piece::Text("plain")]));
    assert_eq!(parse_pattern("a{b"), Err(Error::StartWithoutEnd));
    assert_eq!(
        scan_pattern("x{a}y{b"),
        (
            vec![Piece::Text("x"), Piece::Hole("a")],
            Some(Error::StartWithoutEnd)
        )
    );
}

#[test]
fn an_unknown_placeholder_is_reported_before_a_later_fault() {
    assert_eq!(
        Pattern::parse("{nope}{open", ","),
        Err(Error::UnsupportedPlaceholder("nope".to_owned()))
    );
    assert_eq!(Pattern::parse("{id}{open", ","), Err(Error::StartWithoutEnd));
}
