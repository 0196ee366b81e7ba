use autocxx_core::api::{Api, ApiName, ConvertError, TypedefKind};
use autocxx_core::config::{
    Concrete, ExternCppType, IncludeCppConfig, KnownTypes, OriginalName, ParseCallbackResults, RustFun, RustPath,
    Subclass,
};
use autocxx_core::decl::{Decl, Field, UseLeaf};
use autocxx_core::ident::{validate_ident_ok_for_cxx, InvalidIdentError};
use autocxx_core::parse_bindgen::{ParseBindgen, ParseOutput};
use autocxx_core::types::{split_cpp_path, Namespace, QualifiedName};

fn s(x: &str) -> String {
    x.to_string()
}

fn strs(xs: &[&str]) -> Vec<String> {
    xs.iter().map(|x| x.to_string()).collect()
}

fn empty_config() -> IncludeCppConfig {
    IncludeCppConfig {
        exclude_utilities: false,
        make_string_name: s("make_string"),
        allowlist: None,
        pod_requests: vec![],
        blocklist: vec![],
        rust_types: vec![],
        subclasses: vec![],
        extern_rust_funs: vec![],
        concretes: vec![],
        externs: vec![],
    }
}

fn no_callbacks() -> ParseCallbackResults {
    ParseCallbackResults { original_names: vec![], unused_template_params: vec![] }
}

fn no_known() -> KnownTypes {
    KnownTypes { substitutes: vec![], known: vec![] }
}

fn qn(ns: &[&str], id: &str) -> QualifiedName {
    QualifiedName { ns: Namespace { segs: strs(ns) }, id: s(id) }
}

fn name(ns: &[&str], id: &str) -> ApiName {
    ApiName { name: qn(ns, id), cpp_name: None }
}

fn field(id: &str) -> Field {
    Field { ident: Some(s(id)), ty: s("u32"), ty_path: strs(&["u32"]) }
}

fn root(items: Vec<Decl>) -> Vec<Decl> {
    vec![Decl::Mod { ident: s("root"), content: Some(items) }]
}

fn run(
    config: &IncludeCppConfig,
    callbacks: &ParseCallbackResults,
    known: &KnownTypes,
    items: Vec<Decl>,
) -> Result<ParseOutput, ConvertError> {
    ParseBindgen::new(config, callbacks, known).parse_items(items)
}

fn run_plain(config: &IncludeCppConfig, items: Vec<Decl>) -> ParseOutput {
    run(config, &no_callbacks(), &no_known(), items).unwrap()
}

fn quiet_config() -> IncludeCppConfig {
    let mut c = empty_config();
    c.exclude_utilities = true;
    c
}

#[test]
fn empty_tree_gives_only_utilities() {
    let out = run_plain(&empty_config(), vec![]);
    assert_eq!(out.apis, vec![Api::StringConstructor { name: name(&[], "make_string") }]);
    assert!(out.errors.is_empty());
}

#[test]
fn utilities_can_be_left_out() {
    let out = run_plain(&quiet_config(), vec![]);
    assert!(out.apis.is_empty());
}

#[test]
fn nested_scope_struct_gets_its_path() {
    let items = root(vec![Decl::Mod {
        ident: s("a"),
        content: Some(vec![Decl::Mod {
            ident: s("b"),
            content: Some(vec![Decl::Struct { ident: s("Foo"), fields: vec![field("x")] }]),
        }]),
    }]);
    let out = run_plain(&quiet_config(), items);
    assert_eq!(
        out.apis,
        vec![Api::Struct { name: name(&["a", "b"], "Foo"), fields: vec![field("x")], has_rvalue_reference_fields: false }]
    );
}

#[test]
fn const_of_anonymous_enum_type_is_dropped_silently() {
    let items = root(vec![
        Decl::Const { ident: s("A"), ty_last: Some(s("_bindgen_ty_1")), value: s("1") },
        Decl::Const { ident: s("B"), ty_last: Some(s("Color")), value: s("2") },
    ]);
    let out = run_plain(&quiet_config(), items);
    assert_eq!(out.apis, vec![Api::Const { name: name(&[], "B"), value: s("2") }]);
    assert!(out.errors.is_empty());
}

#[test]
fn blocked_struct_and_enum_are_left_out() {
    let mut c = quiet_config();
    c.blocklist = strs(&["ns::Bad", "Worse"]);
    let items = root(vec![
        Decl::Mod { ident: s("ns"), content: Some(vec![Decl::Struct { ident: s("Bad"), fields: vec![] }]) },
        Decl::Enum { ident: s("Worse"), variants: strs(&["A"]) },
        Decl::Enum { ident: s("Fine"), variants: strs(&["B"]) },
    ]);
    let out = run_plain(&c, items);
    assert_eq!(out.apis, vec![Api::Enum { name: name(&[], "Fine"), variants: strs(&["B"]) }]);
}

#[test]
fn missing_must_generate_fails_the_pass() {
    let mut c = quiet_config();
    c.allowlist = Some(strs(&["Present", "Missing"]));
    let items = root(vec![Decl::Struct { ident: s("Present"), fields: vec![] }]);
    let r = run(&c, &no_callbacks(), &no_known(), items);
    assert_eq!(r, Err(ConvertError::DidNotGenerateAnything(s("Missing"))));
}

#[test]
fn must_generate_met_passes() {
    let mut c = quiet_config();
    c.allowlist = Some(strs(&["Present"]));
    c.pod_requests = strs(&["n::Pod"]);
    let items = root(vec![
        Decl::Struct { ident: s("Present"), fields: vec![] },
        Decl::Mod { ident: s("n"), content: Some(vec![Decl::Struct { ident: s("Pod"), fields: vec![] }]) },
    ]);
    let out = run_plain(&c, items);
    assert_eq!(out.apis.len(), 2);
}

#[test]
fn unused_marker_gives_forward_declaration() {
    let items = root(vec![Decl::Struct { ident: s("Opaque"), fields: vec![field("_unused")] }]);
    let out = run_plain(&quiet_config(), items);
    assert_eq!(out.apis, vec![Api::ForwardDeclaration { name: name(&[], "Opaque"), err: None }]);
}

#[test]
fn forward_declared_nested_type_carries_an_error() {
    let cb = ParseCallbackResults {
        original_names: vec![OriginalName { name: qn(&[], "Outer_Inner"), original: s("Outer::Inner") }],
        unused_template_params: vec![],
    };
    let items = root(vec![Decl::Struct { ident: s("Outer_Inner"), fields: vec![field("_unused")] }]);
    let out = run(&quiet_config(), &cb, &no_known(), items).unwrap();
    assert_eq!(
        out.apis,
        vec![Api::ForwardDeclaration {
            name: ApiName { name: qn(&[], "Outer_Inner"), cpp_name: Some(s("Outer::Inner")) },
            err: Some(ConvertError::ForwardDeclaredNestedType),
        }]
    );
}

#[test]
fn templated_placeholder_with_unused_parameter_is_forward_declared() {
    let cb = ParseCallbackResults { original_names: vec![], unused_template_params: vec![qn(&[], "Tmpl")] };
    let items = root(vec![
        Decl::Struct { ident: s("Tmpl"), fields: vec![field("_address")] },
        Decl::Struct { ident: s("Plain"), fields: vec![field("_address")] },
    ]);
    let out = run(&quiet_config(), &cb, &no_known(), items).unwrap();
    assert_eq!(
        out.apis,
        vec![
            Api::ForwardDeclaration { name: name(&[], "Tmpl"), err: Some(ConvertError::UnusedTemplateParam) },
            Api::Struct {
                name: name(&[], "Plain"),
                fields: vec![field("_address")],
                has_rvalue_reference_fields: false
            },
        ]
    );
}

#[test]
fn rvalue_reference_field_is_flagged() {
    let f = Field {
        ident: Some(s("r")),
        ty: s("__bindgen_marker_RValueReference<T>"),
        ty_path: strs(&["__bindgen_marker_RValueReference"]),
    };
    let items = root(vec![Decl::Struct { ident: s("Holder"), fields: vec![field("a"), f] }]);
    let out = run_plain(&quiet_config(), items);
    match &out.apis[0] {
        Api::Struct { has_rvalue_reference_fields, .. } => assert!(*has_rvalue_reference_fields),
        other => panic!("unexpected {:?}", other),
    }
}

#[test]
fn self_alias_is_an_error_and_siblings_go_on() {
    let items = root(vec![
        Decl::Use { path: strs(&["self", "super"]), leaf: UseLeaf::Rename { ident: s("Foo"), rename: s("Foo") } },
        Decl::Enum { ident: s("After"), variants: vec![] },
    ]);
    let out = run_plain(&quiet_config(), items);
    assert_eq!(out.apis, vec![Api::Enum { name: name(&[], "After"), variants: vec![] }]);
    assert_eq!(out.errors.len(), 1);
    assert_eq!(out.errors[0].item, Some(s("Foo")));
    assert_eq!(out.errors[0].err, ConvertError::InfinitelyRecursiveTypedef(qn(&[], "Foo")));
}

#[test]
fn renamed_import_gives_alias() {
    let items = root(vec![Decl::Mod {
        ident: s("a"),
        content: Some(vec![Decl::Use {
            path: strs(&["self", "super", "b"]),
            leaf: UseLeaf::Rename { ident: s("Orig"), rename: s("Alias") },
        }]),
    }]);
    let out = run_plain(&quiet_config(), items);
    assert_eq!(
        out.apis,
        vec![Api::Typedef {
            name: name(&["a"], "Alias"),
            kind: TypedefKind::Use(strs(&["b", "Orig"])),
            old_tyname: Some(qn(&["b"], "Orig")),
        }]
    );
}

#[test]
fn other_imports_give_nothing() {
    let items = root(vec![
        Decl::Use { path: strs(&["self", "super"]), leaf: UseLeaf::Name(s("root")) },
        Decl::Use { path: vec![], leaf: UseLeaf::Other },
        Decl::Use { path: vec![], leaf: UseLeaf::Rename { ident: s("u16"), rename: s("bindgen_cchar16_t") } },
    ]);
    let out = run_plain(&quiet_config(), items);
    assert!(out.apis.is_empty());
    assert!(out.errors.is_empty());
}

#[test]
fn override_supersedes_parsed_struct() {
    let mut c = quiet_config();
    c.externs = vec![ExternCppType { cpp_definition: s("Widget"), details: s("by hand") }];
    c.pod_requests = strs(&["Widget"]);
    let items = root(vec![
        Decl::Struct { ident: s("Widget"), fields: vec![field("w")] },
        Decl::Struct { ident: s("Other"), fields: vec![] },
    ]);
    let out = run_plain(&c, items);
    assert_eq!(
        out.apis,
        vec![
            Api::Struct { name: name(&[], "Other"), fields: vec![], has_rvalue_reference_fields: false },
            Api::ExternCppType { name: name(&[], "Widget"), details: s("by hand"), pod: true },
        ]
    );
}

#[test]
fn repeated_override_keeps_one_entry_with_last_details() {
    let mut c = quiet_config();
    c.externs = vec![
        ExternCppType { cpp_definition: s("a::T"), details: s("first") },
        ExternCppType { cpp_definition: s("U"), details: s("u") },
        ExternCppType { cpp_definition: s("a::T"), details: s("second") },
    ];
    let out = run_plain(&c, vec![]);
    assert_eq!(
        out.apis,
        vec![
            Api::ExternCppType { name: name(&["a"], "T"), details: s("second"), pod: false },
            Api::ExternCppType { name: name(&[], "U"), details: s("u"), pod: false },
        ]
    );
}

#[test]
fn runs_are_deterministic() {
    let mut c = empty_config();
    c.rust_types = vec![RustPath { segs: strs(&["crate", "R"]) }];
    let make = || {
        root(vec![
            Decl::Struct { ident: s("S"), fields: vec![field("x")] },
            Decl::Type { ident: s("T"), target: s("u8") },
            Decl::ForeignMod { fns: strs(&["f"]) },
        ])
    };
    let a = run_plain(&c, make());
    let b = run_plain(&c, make());
    assert_eq!(a, b);
}

#[test]
fn config_entries_come_before_parsed_ones() {
    let mut c = empty_config();
    c.subclasses = vec![Subclass { subclass: s("Sub"), superclass: s("ns::Base") }];
    c.extern_rust_funs = vec![RustFun { ident: s("go"), sig_types: strs(&["A", "B", "A"]) }];
    c.rust_types = vec![
        RustPath { segs: strs(&["crate", "R"]) },
        RustPath { segs: strs(&["crate", "R"]) },
        RustPath { segs: strs(&["other", "R"]) },
    ];
    c.concretes = vec![Concrete { cpp_definition: s("std::vector<int>"), rust_id: s("IntVec") }];
    let out = run_plain(&c, root(vec![Decl::Enum { ident: s("E"), variants: vec![] }]));
    assert_eq!(
        out.apis,
        vec![
            Api::StringConstructor { name: name(&[], "make_string") },
            Api::Subclass { name: name(&[], "Sub"), superclass: qn(&["ns"], "Base") },
            Api::RustFn { name: name(&[], "go"), deps: strs(&["A", "B"]) },
            Api::RustType { name: name(&[], "R"), path: strs(&["other", "R"]) },
            Api::ConcreteType { name: name(&[], "IntVec"), cpp_definition: s("std::vector<int>") },
            Api::Enum { name: name(&[], "E"), variants: vec![] },
        ]
    );
}

#[test]
fn skipped_structs() {
    let mut c = quiet_config();
    c.rust_types = vec![RustPath { segs: strs(&["crate", "RustSide"]) }];
    c.subclasses = vec![Subclass { subclass: s("Sub"), superclass: s("Base") }];
    let known = KnownTypes { substitutes: vec![qn(&[], "string")], known: vec![qn(&["std"], "vector")] };
    let items = root(vec![
        Decl::Struct { ident: s("Foo__bindgen_vtable"), fields: vec![] },
        Decl::Struct { ident: s("string"), fields: vec![] },
        Decl::Struct { ident: s("RustSide"), fields: vec![] },
        Decl::Struct { ident: s("SubHolder"), fields: vec![] },
        Decl::Mod { ident: s("std"), content: Some(vec![Decl::Struct { ident: s("vector"), fields: vec![] }]) },
    ]);
    let out = run(&c, &no_callbacks(), &known, items).unwrap();
    assert_eq!(
        out.apis,
        vec![
            Api::Subclass { name: name(&[], "Sub"), superclass: qn(&[], "Base") },
            Api::RustType { name: name(&[], "RustSide"), path: strs(&["crate", "RustSide"]) },
        ]
    );
    assert!(out.errors.is_empty());
}

#[test]
fn invalid_names_and_unexpected_items_are_reported() {
    let items = root(vec![
        Decl::Struct { ident: s("a__b"), fields: vec![] },
        Decl::Other,
        Decl::Mod { ident: s("inner"), content: Some(vec![Decl::Enum { ident: s("_bindgen_ty_2"), variants: vec![] }]) },
        Decl::Type { ident: s("T"), target: s("int") },
        Decl::Type { ident: s("T"), target: s("int") },
    ]);
    let out = run_plain(&quiet_config(), items);
    let t = Api::Typedef { name: name(&[], "T"), kind: TypedefKind::Type(s("int")), old_tyname: None };
    assert_eq!(out.apis, vec![t]);
    assert_eq!(out.errors.len(), 3);
    assert_eq!(out.errors[0].err, ConvertError::InvalidIdent(InvalidIdentError::TooManyUnderscores));
    assert_eq!(out.errors[0].item, Some(s("a__b")));
    assert_eq!(out.errors[1].err, ConvertError::UnexpectedItemInMod);
    assert_eq!(out.errors[1].item, None);
    assert_eq!(out.errors[2].ns, Namespace { segs: strs(&["inner"]) });
    assert_eq!(out.errors[2].err, ConvertError::InvalidIdent(InvalidIdentError::BindgenTy));
}

#[test]
fn functions_come_after_their_scope() {
    let items = root(vec![
        Decl::ForeignMod { fns: strs(&["free", "method"]) },
        Decl::Impl { self_ty: s("Cls"), methods: strs(&["method"]) },
        Decl::Struct { ident: s("Cls"), fields: vec![field("x")] },
    ]);
    let out = run_plain(&quiet_config(), items);
    assert_eq!(
        out.apis,
        vec![
            Api::Struct { name: name(&[], "Cls"), fields: vec![field("x")], has_rvalue_reference_fields: false },
            Api::Function { name: name(&[], "free"), method_of: None },
            Api::Function { name: name(&[], "method"), method_of: Some(s("Cls")) },
        ]
    );
}

#[test]
fn tree_without_root_scope_is_empty() {
    let items = vec![Decl::Struct { ident: s("Outside"), fields: vec![] }];
    let out = run_plain(&quiet_config(), items);
    assert!(out.apis.is_empty());
}

#[test]
fn identifier_checks() {
    assert_eq!(validate_ident_ok_for_cxx("Foo"), Ok(()));
    assert_eq!(validate_ident_ok_for_cxx("fn"), Err(InvalidIdentError::ReservedName));
    assert_eq!(validate_ident_ok_for_cxx("1abc"), Err(InvalidIdentError::ReservedName));
    assert_eq!(validate_ident_ok_for_cxx("a__b"), Err(InvalidIdentError::TooManyUnderscores));
    assert_eq!(validate_ident_ok_for_cxx("_bindgen_ty_3"), Err(InvalidIdentError::BindgenTy));
}

#[test]
fn cpp_names_join_segments() {
    assert_eq!(qn(&["a", "b"], "C").to_cpp_name(), "a::b::C");
    assert_eq!(qn(&[], "C").to_cpp_name(), "C");
}

#[test]
fn cpp_paths_split_at_separators() {
    assert_eq!(split_cpp_path("a::b::C"), strs(&["a", "b", "C"]));
    assert_eq!(split_cpp_path("C"), strs(&["C"]));
    assert_eq!(split_cpp_path(""), strs(&[""]));
    assert_eq!(split_cpp_path("a:::b"), strs(&["a", ":b"]));
    assert_eq!(QualifiedName::new_from_cpp_name("std::string"), qn(&["std"], "string"));
}

#[test]
fn repeated_alias_replaces_earlier_entry_in_place() {
    let items = root(vec![
        Decl::Type { ident: s("T"), target: s("int") },
        Decl::Enum { ident: s("E"), variants: vec![] },
        Decl::Type { ident: s("T"), target: s("long") },
    ]);
    let out = run_plain(&quiet_config(), items);
    assert_eq!(
        out.apis,
        vec![
            Api::Typedef { name: name(&[], "T"), kind: TypedefKind::Type(s("long")), old_tyname: None },
            Api::Enum { name: name(&[], "E"), variants: vec![] },
        ]
    );
}

#[test]
fn pod_requests_must_be_generated_without_allowlist() {
    let mut c = quiet_config();
    c.pod_requests = strs(&["Pod"]);
    let r = run(&c, &no_callbacks(), &no_known(), root(vec![]));
    assert_eq!(r, Err(ConvertError::DidNotGenerateAnything(s("Pod"))));
    let out = run_plain(&c, root(vec![Decl::Struct { ident: s("Pod"), fields: vec![field("x")] }]));
    assert_eq!(out.apis.len(), 1);
}
