use header_manifest::walker::Walker;
use header_manifest::tokens::{Marker, Other, Primitive, Type};
use header_manifest::function::{Function, FunctionNameWithParams, FunctionParam};
use header_manifest::ast::{Ast, AstVariants};

#[test]
fn drive_function_name_with_params() {
    let expected = FunctionNameWithParams {
        name: "some_func".to_string(),
        params: vec![
            FunctionParam {
                name: "my_var".to_string(),
                ty: Type::Primitive(Primitive::Int),
                markers: vec![],
            },
            FunctionParam {
                name: "some".to_string(),
                ty: Type::Primitive(Primitive::Bool),
                markers: vec![],
            },
        ],
    };

    let sample = "some_func(int my_var, bool some)";
    let mut walker = Walker::new(sample);
    assert_eq!(
        expected,
        FunctionNameWithParams::drive(&mut walker).unwrap()
    );

    let sample = "some_func (  int\nmy_var,\nbool some  \n)";
    let mut walker = Walker::new(sample);
    assert_eq!(
        expected,
        FunctionNameWithParams::drive(&mut walker).unwrap()
    );

    let sample = "some_func(int my_var, bool some) \n";
    let mut walker = Walker::new(sample);
    assert_eq!(
        expected,
        FunctionNameWithParams::drive(&mut walker).unwrap()
    );

    let sample = "\nsome_func(int my_var, bool some)";
    let mut walker = Walker::new(sample);
    assert_eq!(
        expected,
        FunctionNameWithParams::drive(&mut walker).unwrap()
    );
}

#[test]
fn drive_function_name_with_markers_params() {
    let expected = FunctionNameWithParams {
        name: "some_func".to_string(),
        params: vec![
            FunctionParam {
                name: "my_var".to_string(),
                ty: Type::Primitive(Primitive::Int),
                markers: vec![Marker::Other("_Nonnull".to_string())],
            },
            FunctionParam {
                name: "some".to_string(),
                ty: Type::Primitive(Primitive::Bool),
                markers: vec![],
            },
        ],
    };

    let sample = "some_func(int _Nonnull my_var, bool some)";
    let mut walker = Walker::new(sample);
    assert_eq!(
        expected,
        FunctionNameWithParams::drive(&mut walker).unwrap()
    );
}

#[test]
fn drive_function_full() {
    let expected = Function {
        name: "TWStringGet".to_string(),
        params: vec![
            FunctionParam {
                name: "string".to_string(),
                ty: Type::Custom(Other("TWString*".to_string())),
                markers: vec![Marker::Other("_Nonnull".to_string())],
            },
            FunctionParam {
                name: "index".to_string(),
                ty: Type::Custom(Other("size_t".to_string())),
                markers: vec![],
            },
        ],
        return_ty: Type::Primitive(Primitive::Char),
        markers: vec![Marker::Other("TW_VISIBILITY_DEFAULT".to_string())],
    };

    let sample = "char TWStringGet(TWString* _Nonnull string, size_t index) TW_VISIBILITY_DEFAULT;";
    let mut walker = Walker::new(sample);
    assert_eq!(expected, Function::drive(&mut walker).unwrap());
}

#[test]
fn trailing_space_fails_name_with_params() {
    let sample = "some_func(int my_var, bool some) ";
    let mut walker = Walker::new(sample);
    assert!(FunctionNameWithParams::drive(&mut walker).is_err());
}

#[test]
fn semicolon_strictness() {
    let mut walker = Walker::new("int foo(void);");
    let f = Function::drive(&mut walker).unwrap();
    assert_eq!("foo", f.name);
    assert_eq!(0, f.params.len());
    assert_eq!(Type::Primitive(Primitive::Int), f.return_ty);

    // A doubled semicolon fails even though the first one alone would
    // have been valid.
    let mut walker = Walker::new("int foo(void);;");
    assert!(Function::drive(&mut walker).is_err());

    // A missing semicolon fails too.
    let mut walker = Walker::new("int foo(void)");
    assert!(Function::drive(&mut walker).is_err());
}

#[test]
fn resilient_file_scan() {
    let sample = "int foo(void);\ngarbage _here;\nint bar(void);\n";
    let mut walker = Walker::new(sample);
    let ast = Ast::drive(&mut walker).unwrap();

    assert_eq!(3, ast.list.len());
    match &ast.list[0] {
        AstVariants::Function(f) => assert_eq!("foo", f.name),
        other => panic!("expected a function, got {:?}", other),
    }
    match &ast.list[1] {
        AstVariants::Other(o) => assert_eq!(Other("garbage".to_string()), *o),
        other => panic!("expected an opaque item, got {:?}", other),
    }
    match &ast.list[2] {
        AstVariants::Function(f) => assert_eq!("bar", f.name),
        other => panic!("expected a function, got {:?}", other),
    }
}

#[test]
fn scan_skips_comments_and_preprocessor_lines() {
    let sample = "// a comment line\n#define X 1\nint foo(void);\n";
    let mut walker = Walker::new(sample);
    let ast = Ast::drive(&mut walker).unwrap();

    assert_eq!(1, ast.list.len());
    match &ast.list[0] {
        AstVariants::Function(f) => assert_eq!("foo", f.name),
        other => panic!("expected a function, got {:?}", other),
    }
}

#[test]
fn leading_markers_before_name() {
    let sample = "int TW_DEPRECATED foo(bool flag);";
    let mut walker = Walker::new(sample);
    let f = Function::drive(&mut walker).unwrap();
    assert_eq!("foo", f.name);
    assert_eq!(Type::Primitive(Primitive::Int), f.return_ty);
    assert_eq!(vec![Marker::Other("TW_DEPRECATED".to_string())], f.markers);
    assert_eq!(1, f.params.len());
    assert_eq!("flag", f.params[0].name);
    assert_eq!(Type::Primitive(Primitive::Bool), f.params[0].ty);
}
