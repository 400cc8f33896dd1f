use std::cmp::Ordering;

use cross::changeset::git::{get_commit_map, parse_commits, sort_by, Commit, CommitMap};
use cross::changeset::id::{Identifier, Placeholder};
use cross::changeset::util::{sorted_order, SortOrder, Utf8};
use cross::errors::Error;

const HASH1: &str = "5bb63ae9b7f222a495d75c2975e3c0d12f76f748";
const HASH2: &str = "a60d4864ff641091a01f6317c7d9348265eb4463";
const HASH3: &str = "531a8b8880178df2480a240ed4261263f78c51c0";

fn history() -> CommitMap {
    let text = format!("{HASH1}\n{HASH2}\n{HASH3}\n");
    get_commit_map(&parse_commits(&text).unwrap())
}

#[test]
fn test_to_from_hex() -> Result<(), Error> {
    let expected = Commit::new(*b"5bb63ae9b7f222a495d75c2975e3c0d12f76f748", 40).unwrap();
    assert_eq!(Commit::from_hex(HASH1)?, expected);
    assert_eq!(expected.to_hex()?, HASH1);

    Ok(())
}

#[test]
fn test_short_hash() -> Result<(), Error> {
    let commit1 = Commit::from_hex(HASH1)?;
    let short1 = Commit::from_hex(&HASH1[..9])?;
    assert_eq!(Some(short1), commit1.short_hash(9));

    Ok(())
}

#[test]
fn test_get_commit_map() -> Result<(), Error> {
    let map = history();
    let commit1 = Commit::from_hex(HASH1)?;
    let commit2 = Commit::from_hex(HASH2)?;
    let commit3 = Commit::from_hex(HASH3)?;
    let short1 = Commit::from_hex(&HASH1[..9])?;
    let short2 = Commit::from_hex(&HASH2[..7])?;
    let short3 = Commit::from_hex(&HASH2[..12])?;

    // full commits
    assert!(map.contains_key(&commit1));
    assert!(map.contains_key(&commit2));
    assert!(map.contains_key(&commit3));

    // let's try short commits
    assert!(map.contains_key(&short1));
    assert!(map.contains_key(&short2));
    assert!(map.contains_key(&short3));

    // test invalid hashes
    let invalid1 = Commit::from_hex("1234567890abcdef")?;
    assert!(!map.contains_key(&invalid1));

    Ok(())
}

#[test]
fn test_sort_by() -> Result<(), Error> {
    let map = history();
    let commit1 = Commit::from_hex(HASH1)?;
    let commit2 = Commit::from_hex(HASH2)?;
    let commit3 = Commit::from_hex(HASH3)?;
    assert_eq!(sort_by(&map, &commit1, &commit2), Ordering::Greater);
    assert_eq!(sort_by(&map, &commit2, &commit3), Ordering::Greater);

    Ok(())
}

#[test]
fn commits_are_numbered_latest_first() {
    let map = history();
    assert_eq!(map.get(&Commit::from_hex(HASH1).unwrap()), Some(usize::MAX));
    assert_eq!(map.get(&Commit::from_hex(&HASH2[..7]).unwrap()), Some(usize::MAX - 1));
    assert_eq!(map.get(&Commit::from_hex(HASH3).unwrap()), Some(usize::MAX - 2));
    assert_eq!(map.get(&Commit::from_hex("ffffffff").unwrap()), None);
    let unknown = Commit::from_hex("0000000").unwrap();
    assert_eq!(sort_by(&map, &unknown, &Commit::from_hex(HASH3).unwrap()), Ordering::Less);
    assert_eq!(sort_by(&map, &unknown, &unknown), Ordering::Equal);
    // upper and lower case digits name the same commit
    assert!(map.contains_key(&Commit::from_hex("5BB63AE").unwrap()));
}

#[test]
fn a_short_hash_finds_the_first_commit_in_its_range() {
    let commits = parse_commits("abc1230000\nabc1229999\nabc1240000\n").unwrap();
    let map = get_commit_map(&commits);
    // both of the first two begin with abc12; the lower one is found
    assert_eq!(map.get(&Commit::from_hex("abc1200").unwrap()), None);
    let by_prefix = Commit::from_hex("abc1229").unwrap();
    assert_eq!(map.get(&by_prefix), Some(usize::MAX - 1));
    let wider = Commit::from_hex("abc1230").unwrap();
    assert_eq!(map.get(&wider), Some(usize::MAX));
}

#[test]
fn hashes_are_checked() {
    assert_eq!(
        Commit::from_hex("abcdef"),
        Err(Error::InvalidHash("abcdef".to_owned()))
    );
    assert_eq!(
        Commit::from_hex("abcdefg"),
        Err(Error::InvalidHash("abcdefg".to_owned()))
    );
    let long = "0".repeat(41);
    assert_eq!(Commit::from_hex(&long), Err(Error::InvalidHash(long.clone())));
    assert!(Commit::from_hex(&"0".repeat(40)).is_ok());
    assert!(Commit::from_hex("abcdefé").is_err());
    let commit = Commit::from_hex("0123abCD").unwrap();
    assert_eq!(commit.as_bytes(), b"0123abCD");
    assert_eq!(
        commit.to_digits(),
        vec![Some(0), Some(1), Some(2), Some(3), Some(10), Some(11), Some(12), Some(13)]
    );
    assert_eq!(commit.short_hash(9), None);
    assert_eq!(commit.short_hash(3).unwrap().as_bytes(), b"012");
    assert_eq!(
        commit.max_long_hash().as_bytes(),
        b"0123abCDffffffffffffffffffffffffffffffff"
    );
    assert!(commit.precedes(&commit.max_long_hash()));
    assert!(!commit.max_long_hash().precedes(&commit));
    assert_eq!(Commit::new([b'0'; 40], 41), None);
    assert!(parse_commits("abcdef0\nnothex!\n").is_err());
}

#[test]
fn bytes_become_text() {
    assert_eq!(b"abc"[..].to_utf8(), Ok("abc"));
    assert_eq!([0xffu8, 0xfe][..].to_utf8(), Err(Error::NotUtf8));
    assert_eq!(<[u8] as Utf8>::from_ut8("né"), Ok("né".as_bytes()));
}

#[test]
fn sort_orders_turn_comparisons() {
    let asc = SortOrder::Ascending;
    let desc = SortOrder::Descending;
    assert_eq!(asc.sort_by(&1, &2, |x: &i32, y: &i32| x.cmp(y)), Ordering::Less);
    assert_eq!(desc.sort_by(&1, &2, |x: &i32, y: &i32| x.cmp(y)), Ordering::Greater);
    assert_eq!(desc.sort_by(&2, &2, |x: &i32, y: &i32| x.cmp(y)), Ordering::Equal);
    assert_eq!(desc.sort_by(&3, &2, |x: &i32, y: &i32| x.cmp(y)), Ordering::Less);
}

#[test]
fn sorted_order_is_stable() {
    assert_eq!(sorted_order(&vec![3, 1, 2, 1], false), vec![1, 3, 2, 0]);
    assert_eq!(sorted_order(&vec![3, 1, 2, 1, 3], true), vec![0, 4, 2, 1, 3]);
    assert_eq!(sorted_order(&vec![], true), Vec::<usize>::new());
}

#[test]
fn identifiers_are_sorted() {
    let map = history();
    let mut numbers = Identifier::Number(vec![437, 12, 900, 12]);
    assert!(numbers.is_number() && !numbers.is_commit() && !numbers.is_other());
    numbers.sort(SortOrder::Ascending, &map);
    assert_eq!(numbers, Identifier::Number(vec![12, 12, 437, 900]));
    numbers.sort(SortOrder::Descending, &map);
    assert_eq!(numbers, Identifier::Number(vec![900, 437, 12, 12]));

    let c1 = Commit::from_hex(HASH1).unwrap();
    let c2 = Commit::from_hex(HASH2).unwrap();
    let c3 = Commit::from_hex(HASH3).unwrap();
    let unknown = Commit::from_hex("0000000").unwrap();
    let mut commits = Identifier::Commit(vec![c1, unknown, c3, c2]);
    assert!(commits.is_commit());
    commits.sort(SortOrder::Ascending, &map);
    assert_eq!(commits, Identifier::Commit(vec![unknown, c3, c2, c1]));
    commits.sort(SortOrder::Descending, &map);
    assert_eq!(commits, Identifier::Commit(vec![c1, c2, c3, unknown]));

    let mut other = Identifier::Other("name");
    assert!(other.is_other());
    other.sort(SortOrder::Descending, &map);
    assert_eq!(other, Identifier::Other("name"));
}

#[test]
fn identifier_placeholders_are_not_yet_known() {
    assert_eq!(
        Placeholder::parse("id", ","),
        Err(Error::UnsupportedPlaceholder("id".to_owned()))
    );
    assert_eq!(
        Placeholder::parse("number[/]", ","),
        Err(Error::UnsupportedPlaceholder("number[/]".to_owned()))
    );
    assert_eq!(Placeholder::parse("number[/", ","), Err(Error::StartWithoutEnd));
}
