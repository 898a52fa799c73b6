use header_manifest::grammar::{
    CHeaderDirectory, GEnumDecl, GFunctionDecl, GHeaderFileItem, GHeaderInclude, GKeyword, GMarker,
    GMarkers, GParamItem, GPrimitive, GReturnValue, GStructDecl, GStructName, GType, GTypeCategory,
    GTypedef,
};
use header_manifest::manifest::{
    process_c_grammar, DeinitInfo, EnumInfo, Error, FunctionInfo, ImportInfo, InitInfo,
    PropertyInfo, ProtoInfo, StructInfo, TypeInfo, TypeVariant,
};
use header_manifest::camel::{coin_fix, replace_str};

fn kw(s: &str) -> GKeyword {
    GKeyword(s.to_string())
}

fn uint32() -> GType {
    GType::Mutable(GTypeCategory::Scalar(GPrimitive::UInt32T))
}

fn data_pointer() -> GType {
    GType::Mutable(GTypeCategory::Pointer(Box::new(GTypeCategory::Unrecognized(kw("TWData")))))
}

fn no_markers() -> GMarkers {
    GMarkers(vec![])
}

#[test]
fn enum_variant_derivation() {
    let decl = GEnumDecl {
        name: kw("TWFooBar"),
        variants: vec![
            (kw("TWFooBarFirst"), None),
            (kw("TWFooBarSecond"), None),
            (kw("TWFooBarBazQux"), None),
        ],
        markers: GMarkers(vec![GMarker::TwExportEnum(uint32())]),
    };
    let info = EnumInfo::from_g_type(&decl).unwrap();
    assert_eq!("TWFooBar", info.name);
    assert!(info.is_public);
    assert_eq!(TypeVariant::UInt32T, info.value_type);
    assert_eq!(3, info.variants.len());
    assert_eq!("first", info.variants[0].name);
    assert_eq!(0, info.variants[0].value);
    assert_eq!("bazQux", info.variants[2].name);
    assert_eq!(2, info.variants[2].value);
}

#[test]
fn enum_explicit_values_kept() {
    let decl = GEnumDecl {
        name: kw("TWFooBar"),
        variants: vec![(kw("TWFooBarOne"), Some(7)), (kw("TWFooBarTwo"), None)],
        markers: GMarkers(vec![GMarker::TwExportEnum(uint32())]),
    };
    let info = EnumInfo::from_g_type(&decl).unwrap();
    assert_eq!(7, info.variants[0].value);
    assert_eq!(1, info.variants[1].value);
}

#[test]
fn enum_requires_one_export_marker() {
    let decl = GEnumDecl {
        name: kw("TWFooBar"),
        variants: vec![],
        markers: no_markers(),
    };
    assert_eq!(Error::BadObject, EnumInfo::from_g_type(&decl).unwrap_err());
}

#[test]
fn enum_coin_type_casing_table() {
    let decl = GEnumDecl {
        name: kw("TWCoinType"),
        variants: vec![(kw("TWCoinTypeXDai"), None)],
        markers: GMarkers(vec![GMarker::TwExportEnum(uint32())]),
    };
    let info = EnumInfo::from_g_type(&decl).unwrap();
    assert_eq!("xdai", info.variants[0].name);
}

#[test]
fn enum_named_exceptions() {
    let stellar = GEnumDecl {
        name: kw("TWStellarPassphrase"),
        variants: vec![],
        markers: no_markers(),
    };
    let info = EnumInfo::from_g_type(&stellar).unwrap();
    assert_eq!("TWStellarPassphrase", info.name);
    assert_eq!(2, info.variants.len());
    assert_eq!("stellar", info.variants[0].name);
    assert_eq!(
        Some("Public Global Stellar Network ; September 2015".to_string()),
        info.variants[0].as_string
    );

    let hrp = GEnumDecl { name: kw("TWHRP"), variants: vec![], markers: no_markers() };
    let info = EnumInfo::from_g_type(&hrp).unwrap();
    assert_eq!("TWHRP", info.name);
    assert_eq!("unknown", info.variants[0].name);
    assert_eq!(None, info.variants[0].as_string);
    assert_eq!("bitcoin", info.variants[1].name);
    assert_eq!(Some("bc".to_string()), info.variants[1].as_string);
}

#[test]
fn type_info_opaque_handles() {
    let ti = TypeInfo::from_g_type(&data_pointer(), &no_markers()).unwrap();
    assert_eq!(TypeVariant::Data, ti.variant);
    assert!(!ti.is_nullable);

    let string_ptr = GType::Const(GTypeCategory::Pointer(Box::new(
        GTypeCategory::Unrecognized(kw("TWString")),
    )));
    let ti = TypeInfo::from_g_type(&string_ptr, &GMarkers(vec![GMarker::Nullable])).unwrap();
    assert_eq!(TypeVariant::StringHandle, ti.variant);
    assert!(ti.is_nullable);
}

#[test]
fn type_info_rejects_other_pointers() {
    let int_ptr = GType::Mutable(GTypeCategory::Pointer(Box::new(GTypeCategory::Scalar(
        GPrimitive::Int,
    ))));
    assert_eq!(
        Error::BadType,
        TypeInfo::from_g_type(&int_ptr, &no_markers()).unwrap_err()
    );
}

#[test]
fn type_info_struct_pointer_resolves() {
    let struct_ptr = GType::Mutable(GTypeCategory::Pointer(Box::new(GTypeCategory::Struct(
        GStructName(kw("TWFoo")),
    ))));
    let ti = TypeInfo::from_g_type(&struct_ptr, &no_markers()).unwrap();
    assert_eq!(TypeVariant::Struct("TWFoo".to_string()), ti.variant);
}

#[test]
fn import_info_normalizes_path() {
    let inc = GHeaderInclude("TrustWalletCore/TWString.h".to_string());
    let im = ImportInfo::from_g_type(&inc).unwrap();
    assert_eq!(vec!["TrustWalletCore".to_string(), "TWString".to_string()], im.path);

    let bad = GHeaderInclude("TrustWalletCore/TWString".to_string());
    assert_eq!(Error::BadImport, ImportInfo::from_g_type(&bad).unwrap_err());
}

#[test]
fn proto_info_requires_data_pointer() {
    let td = GTypedef { name: "TWFooProto".to_string(), ty: data_pointer() };
    let p = ProtoInfo::from_g_type(&td).unwrap();
    assert_eq!("TWFooProto", p.0);

    let other = GTypedef { name: "TWFooProto".to_string(), ty: uint32() };
    assert_eq!(Error::BadObject, ProtoInfo::from_g_type(&other).unwrap_err());
}

#[test]
fn struct_info_flags_and_fields() {
    let decl = GStructDecl {
        name: GStructName(kw("TWFoo")),
        fields: vec![(kw("count"), uint32())],
        markers: GMarkers(vec![GMarker::TwExportStruct]),
    };
    let si = StructInfo::from_g_type(&decl).unwrap();
    assert_eq!("TWFoo", si.name);
    assert!(si.is_public);
    assert!(!si.is_class);
    assert_eq!(1, si.fields.len());
    assert_eq!("count", si.fields[0].0);
    assert_eq!(TypeVariant::UInt32T, si.fields[0].1.variant);

    let class_decl = GStructDecl {
        name: GStructName(kw("TWFoo")),
        fields: vec![],
        markers: GMarkers(vec![GMarker::TwExportClass]),
    };
    let si = StructInfo::from_g_type(&class_decl).unwrap();
    assert!(si.is_public);
    assert!(si.is_class);

    let bad = GStructDecl {
        name: GStructName(kw("TWFoo")),
        fields: vec![],
        markers: GMarkers(vec![GMarker::Nullable]),
    };
    assert_eq!(Error::BadObject, StructInfo::from_g_type(&bad).unwrap_err());
}

fn method_decl(name: &str, markers: Vec<GMarker>) -> GFunctionDecl {
    GFunctionDecl {
        name: kw(name),
        params: vec![GParamItem {
            name: kw("value"),
            ty: uint32(),
            markers: no_markers(),
        }],
        return_value: GReturnValue { ty: data_pointer(), markers: no_markers() },
        markers: GMarkers(markers),
    }
}

#[test]
fn property_info_checks_markers() {
    let decl = method_decl("TWFooValue", vec![GMarker::TwExportProperty]);
    let p = PropertyInfo::from_g_type(&decl).unwrap();
    assert_eq!("TWFooValue", p.name);
    assert!(p.is_public);
    assert_eq!(TypeVariant::Data, p.return_type.variant);

    let two = method_decl(
        "TWFooValue",
        vec![GMarker::TwExportProperty, GMarker::TwExportProperty],
    );
    assert_eq!(Error::BadProperty, PropertyInfo::from_g_type(&two).unwrap_err());

    let wrong = method_decl("TWFooValue", vec![GMarker::TwExportMethod]);
    assert_eq!(Error::BadObject, PropertyInfo::from_g_type(&wrong).unwrap_err());
}

#[test]
fn function_info_flags() {
    let decl = method_decl("TWFooBars", vec![GMarker::TwExportMethod]);
    let f = FunctionInfo::from_g_type(&decl).unwrap();
    assert_eq!("TWFooBars", f.name);
    assert!(f.is_public);
    assert!(!f.is_static);
    assert_eq!(1, f.params.len());
    assert_eq!("value", f.params[0].name);

    let stat = method_decl("TWFooBars", vec![GMarker::TwExportStaticMethod]);
    let f = FunctionInfo::from_g_type(&stat).unwrap();
    assert!(f.is_static);

    let bare = method_decl("TWFooBars", vec![]);
    let f = FunctionInfo::from_g_type(&bare).unwrap();
    assert!(!f.is_public);
    assert!(!f.is_static);
}

#[test]
fn init_and_deinit_info() {
    let decl = method_decl("TWFooCreate", vec![GMarker::TwExportStaticMethod]);
    let ini = InitInfo::from_g_type(&decl).unwrap();
    assert_eq!("TWFooCreate", ini.name);
    assert!(ini.is_public);
    assert!(!ini.is_nullable);
    assert_eq!(1, ini.params.len());

    let decl = method_decl("TWFooDelete", vec![]);
    let de = DeinitInfo::from_g_type(&decl).unwrap();
    assert_eq!("TWFooDelete", de.name);
}

#[test]
fn process_c_grammar_builds_manifests() {
    let dir = CHeaderDirectory {
        map: vec![
            (
                "TWTest.h".to_string(),
                vec![
                    GHeaderFileItem::HeaderInclude(GHeaderInclude(
                        "TrustWalletCore/TWBase.h".to_string(),
                    )),
                    GHeaderFileItem::FunctionDecl(method_decl(
                        "TWTestCreate",
                        vec![GMarker::TwExportStaticMethod],
                    )),
                    GHeaderFileItem::FunctionDecl(method_decl(
                        "TWTestDelete",
                        vec![],
                    )),
                    GHeaderFileItem::FunctionDecl(method_decl(
                        "TWTestBars",
                        vec![GMarker::TwExportMethod],
                    )),
                    GHeaderFileItem::FunctionDecl(method_decl(
                        "TWTestValue",
                        vec![GMarker::TwExportProperty],
                    )),
                    GHeaderFileItem::Comment("a doc line".to_string()),
                ],
            ),
            // Excluded upfront by name prefix.
            ("TWStringExtra.h".to_string(), vec![]),
            // Fails extraction and is skipped.
            (
                "TWBad.h".to_string(),
                vec![GHeaderFileItem::StructDecl(GStructDecl {
                    name: GStructName(kw("TWBad")),
                    fields: vec![],
                    markers: GMarkers(vec![GMarker::Nullable]),
                })],
            ),
        ],
    };
    let out = process_c_grammar(&dir);
    assert_eq!(1, out.len());
    let fi = &out[0];
    assert_eq!("TWTest", fi.name);
    assert_eq!(1, fi.imports.len());
    assert_eq!(vec!["TrustWalletCore".to_string(), "TWBase".to_string()], fi.imports[0].path);
    assert_eq!(1, fi.inits.len());
    assert_eq!("TWTestCreate", fi.inits[0].name);
    assert_eq!(1, fi.deinits.len());
    assert_eq!("TWTestDelete", fi.deinits[0].name);
    assert_eq!(1, fi.functions.len());
    assert_eq!("TWTestBars", fi.functions[0].name);
    assert_eq!(1, fi.properties.len());
    assert_eq!("TWTestValue", fi.properties[0].name);
    assert_eq!(0, fi.structs.len());
}

#[test]
fn process_c_grammar_struct_indicator_and_proto() {
    let dir = CHeaderDirectory {
        map: vec![(
            "TWThing.h".to_string(),
            vec![
                GHeaderFileItem::StructIndicator(header_manifest::grammar::GStructInd {
                    name: GStructName(kw("TWThing")),
                    markers: GMarkers(vec![GMarker::TwExportClass]),
                }),
                GHeaderFileItem::Typedef(GTypedef {
                    name: "TWThingProto".to_string(),
                    ty: data_pointer(),
                }),
                GHeaderFileItem::Typedef(GTypedef {
                    name: "TWOtherAlias".to_string(),
                    ty: uint32(),
                }),
            ],
        )],
    };
    let out = process_c_grammar(&dir);
    assert_eq!(1, out.len());
    let fi = &out[0];
    assert_eq!(1, fi.structs.len());
    assert_eq!("TWThing", fi.structs[0].name);
    assert!(fi.structs[0].is_class);
    assert_eq!(0, fi.structs[0].fields.len());
    assert_eq!(1, fi.protos.len());
    assert_eq!("TWThingProto", fi.protos[0].0);
}

#[test]
fn replace_and_coin_fix() {
    assert_eq!("aYbYc", replace_str("aXbXc", "X", "Y"));
    assert_eq!("abc", replace_str("abc", "zz", "Y"));
    assert_eq!("ecash", coin_fix("eCash"));
    assert_eq!("thorchain", coin_fix("thorChain"));
    assert_eq!("plain", coin_fix("plain"));
}
