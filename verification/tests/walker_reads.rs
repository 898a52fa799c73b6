use header_manifest::walker::Walker;
use header_manifest::tokens::CommentBlock;
use header_manifest::Error;

#[test]
fn driver_read_until() {
    let sample = "this is\nsome\ndata\n";
    let mut walker = Walker::new(sample);

    // Returns the value multiple times until `next` is called.
    assert_eq!("this is", walker.read_until('\n').unwrap());
    assert_eq!("this is", walker.read_until('\n').unwrap());
    assert_eq!("this is", walker.read_until('\n').unwrap());
    walker.next();

    assert_eq!("some", walker.read_until('\n').unwrap());
    walker.next();

    assert_eq!("data", walker.read_until('\n').unwrap());
    walker.next();
}

#[test]
fn read_until_token_first() {
    let sample = " some\n";
    let mut walker = Walker::new(sample);

    assert_eq!("some", walker.read_until_separator().unwrap());
    walker.next();

    // Returns empty value after
    assert_eq!("", walker.read_until_separator().unwrap());
    walker.next();
}

#[test]
fn read_until_eof_error() {
    let sample = "this is some data";
    let mut walker = Walker::new(sample);

    assert_eq!(Error::Eof, walker.read_until('\n').unwrap_err());
}

#[test]
fn drive_comment_block() {
    let mut walker = Walker::new("/// This is a comment");
    assert_eq!(
        CommentBlock("This is a comment".to_string()),
        CommentBlock::drive(&mut walker).unwrap()
    );

    let mut walker = Walker::new("/// This is a comment\n");
    assert_eq!(
        CommentBlock("This is a comment".to_string()),
        CommentBlock::drive(&mut walker).unwrap()
    );
}

#[test]
fn peek_is_reentrant() {
    let mut walker = Walker::new("first second\nthird");

    // Without a commit, the same read re-scans from the same position.
    assert_eq!("first", walker.read_until_separator().unwrap());
    assert_eq!("first", walker.read_until_separator().unwrap());
    assert_eq!("first second", walker.read_until('\n').unwrap());
    assert_eq!("first", walker.read_until_separator().unwrap());
    walker.next();
    assert_eq!("second", walker.read_until_separator().unwrap());
}
