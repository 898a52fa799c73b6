use header_manifest::walker::Walker;
use header_manifest::tokens::{Other, Primitive, Struct, Type};
use header_manifest::Error;

#[test]
fn drive_other() {
    let mut walker = Walker::new("this");
    assert_eq!(
        Other("this".to_string()),
        Other::drive(&mut walker).unwrap()
    );

    let mut walker = Walker::new("_is");
    assert_eq!(Other("_is".to_string()), Other::drive(&mut walker).unwrap());

    let mut walker = Walker::new("some-data");
    assert_eq!(
        Other("some-data".to_string()),
        Other::drive(&mut walker).unwrap()
    );

    let mut walker = Walker::new("-to");
    assert_eq!(Other("-to".to_string()), Other::drive(&mut walker).unwrap());

    let mut walker = Walker::new("parse_8");
    assert_eq!(
        Other("parse_8".to_string()),
        Other::drive(&mut walker).unwrap()
    );
}

#[test]
fn drive_type() {
    let mut walker = Walker::new("int");
    assert_eq!(
        Type::Primitive(Primitive::Int),
        Type::drive(&mut walker).unwrap()
    );

    let mut walker = Walker::new("unsigned char");
    assert_eq!(
        Type::Primitive(Primitive::UnsignedChar),
        Type::drive(&mut walker).unwrap()
    );

    let mut walker = Walker::new("struct MyStruct");
    assert_eq!(
        Type::Struct(Struct("MyStruct".to_string())),
        Type::drive(&mut walker).unwrap()
    );

    let mut walker = Walker::new("some-data");
    assert_eq!(
        Type::Custom(Other("some-data".to_string())),
        Type::drive(&mut walker).unwrap()
    );

    let mut walker = Walker::new("bool");
    assert_eq!(
        Type::Primitive(Primitive::Bool),
        Type::drive(&mut walker).unwrap()
    );
}

#[test]
fn drive_other_token_strictness_check() {
    let mut walker = Walker::new("some ");
    assert_eq!(
        Other("some".to_string()),
        Other::drive(&mut walker).unwrap()
    );

    let mut walker = Walker::new(" \nsome");
    assert_eq!(
        Other("some".to_string()),
        Other::drive(&mut walker).unwrap()
    );

    // No spaces allowed in `Other`.
    let mut walker = Walker::new("some other");
    assert!(Other::drive(&mut walker).is_err());

    // No newlines allowed in`Other`.
    let mut walker = Walker::new("some\nother");
    assert!(Other::drive(&mut walker).is_err());
}

#[test]
fn drive_other_valid_drives() {
    let mut walker = Walker::new("this");
    assert_eq!(
        Other("this".to_string()),
        Other::drive(&mut walker).unwrap()
    );

    let mut walker = Walker::new("_is");
    assert_eq!(Other("_is".to_string()), Other::drive(&mut walker).unwrap());

    let mut walker = Walker::new("some-data");
    assert_eq!(
        Other("some-data".to_string()),
        Other::drive(&mut walker).unwrap()
    );

    let mut walker = Walker::new("-to");
    assert_eq!(Other("-to".to_string()), Other::drive(&mut walker).unwrap());

    let mut walker = Walker::new("8_parse");
    assert_eq!(
        Other("8_parse".to_string()),
        Other::drive(&mut walker).unwrap()
    );
}

#[test]
fn drive_types_token_strictness_check() {
    let mut walker = Walker::new("int ");
    assert!(Type::drive(&mut walker).is_err());

    let mut walker = Walker::new(" char");
    assert!(Type::drive(&mut walker).is_err());

    // This is allowed.
    let mut walker = Walker::new("unsigned\nchar");
    assert_eq!(
        Type::Primitive(Primitive::UnsignedChar),
        Type::drive(&mut walker).unwrap()
    );
}

#[test]
fn drive_type_valid_types() {
    let mut walker = Walker::new("int");
    assert_eq!(
        Type::Primitive(Primitive::Int),
        Type::drive(&mut walker).unwrap()
    );

    let mut walker = Walker::new("unsigned char");
    assert_eq!(
        Type::Primitive(Primitive::UnsignedChar),
        Type::drive(&mut walker).unwrap()
    );

    let mut walker = Walker::new("struct MyStruct");
    assert_eq!(
        Type::Struct(Struct("MyStruct".to_string())),
        Type::drive(&mut walker).unwrap()
    );

    let mut walker = Walker::new("some-data");
    assert_eq!(
        Type::Custom(Other("some-data".to_string())),
        Type::drive(&mut walker).unwrap()
    );

    let mut walker = Walker::new("bool");
    assert_eq!(
        Type::Primitive(Primitive::Bool),
        Type::drive(&mut walker).unwrap()
    );
}

#[test]
fn drive_types_drive_primitives_token_strictness_check() {
    let mut walker = Walker::new("char ");
    assert!(Primitive::drive(&mut walker).is_err());

    let mut walker = Walker::new(" char");
    assert!(Primitive::drive(&mut walker).is_err());

    let mut walker = Walker::new("\nunsigned int");
    assert!(Primitive::drive(&mut walker).is_err());

    // Some invalid primitives.
    let mut walker = Walker::new("some");
    assert!(Primitive::drive(&mut walker).is_err());

    let mut walker = Walker::new("some other");
    assert!(Primitive::drive(&mut walker).is_err());
}

#[test]
fn drive_primitives_valid_drives() {
    // Char
    let mut walker = Walker::new("char");
    assert_eq!(Primitive::Char, Primitive::drive(&mut walker).unwrap());

    // UnsignedChar
    let mut walker = Walker::new("unsigned char");
    assert_eq!(
        Primitive::UnsignedChar,
        Primitive::drive(&mut walker).unwrap()
    );

    // Int
    let mut walker = Walker::new("int");
    assert_eq!(Primitive::Int, Primitive::drive(&mut walker).unwrap());

    // UnsignedInt
    let mut walker = Walker::new("unsigned int");
    assert_eq!(
        Primitive::UnsignedInt,
        Primitive::drive(&mut walker).unwrap()
    );

    // Short
    let mut walker = Walker::new("short");
    assert_eq!(Primitive::Short, Primitive::drive(&mut walker).unwrap());

    // UnsignedShort
    let mut walker = Walker::new("unsigned short");
    assert_eq!(
        Primitive::UnsignedShort,
        Primitive::drive(&mut walker).unwrap()
    );

    // Long
    let mut walker = Walker::new("long");
    assert_eq!(Primitive::Long, Primitive::drive(&mut walker).unwrap());

    // UnsignedLong
    let mut walker = Walker::new("unsigned long");
    assert_eq!(
        Primitive::UnsignedLong,
        Primitive::drive(&mut walker).unwrap()
    );

    // Bool
    let mut walker = Walker::new("bool");
    assert_eq!(Primitive::Bool, Primitive::drive(&mut walker).unwrap());
}

#[test]
fn drive_types_const() {
    let mut walker = Walker::new("const int");
    assert_eq!(
        Type::ConstPrimitive(Primitive::Int),
        Type::drive(&mut walker).unwrap()
    );

    let mut walker = Walker::new("const char*");
    assert_eq!(
        Type::ConstOther(Other("char*".to_string())),
        Type::drive(&mut walker).unwrap()
    );

    let mut walker = Walker::new("const some");
    assert_eq!(
        Type::ConstOther(Other("some".to_string())),
        Type::drive(&mut walker).unwrap()
    );
}

#[test]
fn type_errors_are_malformed() {
    let mut walker = Walker::new("char ");
    assert_eq!(Error::Malformed, Primitive::drive(&mut walker).unwrap_err());

    let mut walker = Walker::new("struct");
    assert_eq!(Error::Malformed, Type::drive(&mut walker).unwrap_err());
}
