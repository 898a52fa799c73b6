use header_manifest::walker::Walker;
use header_manifest::walker_two::WalkerTwo;
use header_manifest::tokens::Primitive;

#[test]
fn drive_primitives_drive_primitives_token_strictness_check() {
    let mut walker = Walker::new(" char");
    assert!(Primitive::drive(&mut walker).is_err());

    let mut walker = Walker::new("char ");
    assert!(Primitive::drive(&mut walker).is_err());

    let mut walker = Walker::new("\nchar");
    assert!(Primitive::drive(&mut walker).is_err());

    let mut walker = Walker::new("char\n");
    assert!(Primitive::drive(&mut walker).is_err());
}

#[test]
fn drive_primitives_drive_primitives() {
    // Char
    let mut walker = Walker::new("char");
    assert_eq!(Primitive::Char, Primitive::drive(&mut walker).unwrap());

    // UnsignedChar
    let mut walker = Walker::new("unsigned char");
    assert_eq!(
        Primitive::UnsignedChar,
        Primitive::drive(&mut walker).unwrap()
    );

    // Int
    let mut walker = Walker::new("int");
    assert_eq!(Primitive::Int, Primitive::drive(&mut walker).unwrap());

    // UnsignedInt
    let mut walker = Walker::new("unsigned int");
    assert_eq!(
        Primitive::UnsignedInt,
        Primitive::drive(&mut walker).unwrap()
    );

    // Short
    let mut walker = Walker::new("short");
    assert_eq!(Primitive::Short, Primitive::drive(&mut walker).unwrap());

    // UnsignedShort
    let mut walker = Walker::new("unsigned short");
    assert_eq!(
        Primitive::UnsignedShort,
        Primitive::drive(&mut walker).unwrap()
    );

    // Long
    let mut walker = Walker::new("long");
    assert_eq!(Primitive::Long, Primitive::drive(&mut walker).unwrap());

    // UnsignedLong
    let mut walker = Walker::new("unsigned long");
    assert_eq!(
        Primitive::UnsignedLong,
        Primitive::drive(&mut walker).unwrap()
    );

    // Bool
    let mut walker = Walker::new("bool");
    assert_eq!(Primitive::Bool, Primitive::drive(&mut walker).unwrap());
}

#[test]
fn drive_types_drive_primitives() {
    let walker = WalkerTwo::new("int");
    assert_eq!(Primitive::Int, Primitive::drive_two(walker).unwrap());
}

#[test]
fn primitive_round_trip() {
    let all = [
        Primitive::Char,
        Primitive::UnsignedChar,
        Primitive::Int,
        Primitive::UnsignedInt,
        Primitive::Short,
        Primitive::UnsignedShort,
        Primitive::Long,
        Primitive::UnsignedLong,
        Primitive::Bool,
    ];
    for p in all {
        let keywords = p.keyword_string();
        let mut walker = Walker::new(keywords.as_str());
        assert_eq!(p, Primitive::drive(&mut walker).unwrap());
    }
}

#[test]
fn qualified_bool_rejected() {
    let mut walker = Walker::new("unsigned bool");
    assert!(Primitive::drive(&mut walker).is_err());

    let mut walker = Walker::new("signed bool");
    assert!(Primitive::drive(&mut walker).is_err());
}

#[test]
fn signed_keeps_plain_variants() {
    let mut walker = Walker::new("signed char");
    assert_eq!(Primitive::Char, Primitive::drive(&mut walker).unwrap());

    let mut walker = Walker::new("signed int");
    assert_eq!(Primitive::Int, Primitive::drive(&mut walker).unwrap());

    let mut walker = Walker::new("signed short");
    assert_eq!(Primitive::Short, Primitive::drive(&mut walker).unwrap());

    let mut walker = Walker::new("signed long");
    assert_eq!(Primitive::Long, Primitive::drive(&mut walker).unwrap());
}
