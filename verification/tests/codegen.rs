use rapace::codegen::{
    check_method_ids, extract_streaming_return_type, first_char, method_id_const_name,
    method_id_field_name, plan_service, rapace_cell_path, rapace_crate_path,
    select_stream_item_type, service_names, split_top_level, type_has_lifetime, CodegenError,
    Delimiter, MethodInfo, MethodKind, ParsedArg, ParsedMethod, TokenTree,
};
use rapace::crate_name::{Error, FoundCrate};
use rapace::protocol::compute_method_id;

fn ident(s: &str) -> TokenTree {
    TokenTree::Ident(s.to_string())
}

fn punct(c: char) -> TokenTree {
    TokenTree::Punct(c)
}

/// `Streaming<T>` written with the given tokens between the brackets.
fn streaming_of(inner: Vec<TokenTree>) -> Vec<TokenTree> {
    let mut v = vec![ident("Streaming"), punct('<')];
    v.extend(inner);
    v.push(punct('>'));
    v
}

fn texts(tokens: &[TokenTree]) -> Vec<String> {
    tokens
        .iter()
        .map(|t| match t {
            TokenTree::Ident(s) | TokenTree::Literal(s) => s.clone(),
            TokenTree::Punct(c) => c.to_string(),
            TokenTree::Group(_, inner) => format!("({})", texts(inner).join(" ")),
        })
        .collect()
}

fn method(name: &str, return_type: Vec<TokenTree>) -> ParsedMethod {
    ParsedMethod {
        name: name.to_string(),
        args: vec![ParsedArg { name: "n".to_string(), ty: vec![ident("u32")] }],
        return_type,
        doc: String::new(),
    }
}

fn info(name: &str) -> MethodInfo {
    MethodInfo::try_from_parsed(method(name, vec![ident("u32")])).unwrap()
}

#[test]
fn lifetime_in_reference_type() {
    // &'a str
    let ty = vec![punct('&'), punct('\''), ident("a"), ident("str")];
    assert!(type_has_lifetime(&ty));
}

#[test]
fn underscore_lifetime_inside_group() {
    // (Cow<'_ , str>) as a parenthesized group
    let inner = vec![ident("Cow"), punct('<'), punct('\''), punct('_'), punct(','), ident("str"), punct('>')];
    let ty = vec![TokenTree::Group(Delimiter::Parenthesis, inner)];
    assert!(type_has_lifetime(&ty));
}

#[test]
fn char_literal_is_no_lifetime() {
    let ty = vec![TokenTree::Literal("'c'".to_string()), ident("u8")];
    assert!(!type_has_lifetime(&ty));
    // A quote at the very end has nothing after it.
    let ty = vec![ident("u8"), punct('\'')];
    assert!(!type_has_lifetime(&ty));
}

#[test]
fn split_ignores_commas_inside_angle_brackets() {
    // HashMap<K, V>, u32
    let tokens = vec![
        ident("HashMap"),
        punct('<'),
        ident("K"),
        punct(','),
        ident("V"),
        punct('>'),
        punct(','),
        ident("u32"),
    ];
    let parts = split_top_level(tokens, ',');
    assert_eq!(parts.len(), 2);
    assert_eq!(texts(&parts[0]), vec!["HashMap", "<", "K", ",", "V", ">"]);
    assert_eq!(texts(&parts[1]), vec!["u32"]);
}

#[test]
fn split_of_nothing_is_one_empty_part() {
    let parts = split_top_level(Vec::new(), ',');
    assert_eq!(parts.len(), 1);
    assert!(parts[0].is_empty());
}

#[test]
fn split_with_trailing_delimiter() {
    let parts = split_top_level(vec![ident("a"), punct(','), ident("b"), punct(',')], ',');
    assert_eq!(parts.len(), 3);
    assert!(parts[2].is_empty());
}

#[test]
fn first_char_of_tokens() {
    assert_eq!(first_char(&vec![]), None);
    assert_eq!(first_char(&vec![ident("u32")]), Some('u'));
    assert_eq!(first_char(&vec![TokenTree::Group(Delimiter::Bracket, vec![])]), Some('['));
    let hidden = TokenTree::Group(Delimiter::Invisible, vec![]);
    assert_eq!(first_char(&vec![hidden, punct('\'')]), Some('\''));
}

#[test]
fn stream_item_skips_lifetimes_and_empty_arguments() {
    // 'a, Item<T>,
    let inner = vec![
        punct('\''),
        ident("a"),
        punct(','),
        ident("Item"),
        punct('<'),
        ident("T"),
        punct('>'),
        punct(','),
    ];
    let item = select_stream_item_type(inner).unwrap();
    assert_eq!(texts(&item), vec!["Item", "<", "T", ">"]);
    assert!(select_stream_item_type(vec![punct('\''), ident("a")]).is_none());
}

#[test]
fn streaming_return_type_gives_item() {
    let ty = streaming_of(vec![ident("u32")]);
    let item = extract_streaming_return_type(&ty).unwrap();
    assert_eq!(texts(&item), vec!["u32"]);
}

#[test]
fn streaming_path_and_nested_generics() {
    // rapace::Streaming<Vec<u8>>
    let ty = vec![
        ident("rapace"),
        punct(':'),
        punct(':'),
        ident("Streaming"),
        punct('<'),
        ident("Vec"),
        punct('<'),
        ident("u8"),
        punct('>'),
        punct('>'),
    ];
    let item = extract_streaming_return_type(&ty).unwrap();
    assert_eq!(texts(&item), vec!["Vec", "<", "u8", ">"]);
}

#[test]
fn unary_return_types() {
    let ty = vec![ident("Result"), punct('<'), ident("u32"), punct(','), ident("E"), punct('>')];
    assert!(extract_streaming_return_type(&ty).is_none());
    // `Streaming` not followed by `<` is passed over.
    let ty = vec![ident("Streaming"), ident("u32")];
    assert!(extract_streaming_return_type(&ty).is_none());
    // Brackets that never close.
    let ty = vec![ident("Streaming"), punct('<'), ident("u32")];
    assert!(extract_streaming_return_type(&ty).is_none());
}

#[test]
fn method_kind_from_return_type() {
    let streaming = MethodInfo::try_from_parsed(method("range", streaming_of(vec![ident("u32")])))
        .unwrap();
    assert_eq!(streaming.name, "range");
    match &streaming.kind {
        MethodKind::ServerStreaming { item_type } => assert_eq!(texts(item_type), vec!["u32"]),
        MethodKind::Unary => panic!("expected a streaming method"),
    }
    assert!(matches!(info("add").kind, MethodKind::Unary));
}

#[test]
fn method_ids_in_order() {
    let methods = vec![info("add"), info("subtract")];
    let ids = check_method_ids("Calculator", &methods).unwrap();
    assert_eq!(ids, vec![0x193f_a158, 0xff96_5c5d]);
    assert_eq!(ids[0], compute_method_id("Calculator", "add"));
}

#[test]
fn method_id_collision_is_reported() {
    let methods = vec![info("add"), info("sub"), info("add")];
    let err = check_method_ids("Calculator", &methods).unwrap_err();
    let id = compute_method_id("Calculator", "add");
    match &err {
        CodegenError::HashCollision { method, collision_with, method_id } => {
            assert_eq!(method, "add");
            assert_eq!(collision_with, "unknown");
            assert_eq!(*method_id, id);
        }
        other => panic!("unexpected error {:?}", other),
    }
    assert_eq!(
        err.to_string(),
        format!(
            "Hash collision detected: methods 'add' and 'unknown' both hash to method_id {}. \
             This is extremely rare but indicates you need to rename one of these methods.",
            id
        )
    );
}

#[test]
fn rapace_path_choices() {
    assert_eq!(rapace_crate_path(&Ok(FoundCrate::Itself), false).unwrap(), "rapace");
    assert_eq!(
        rapace_crate_path(&Ok(FoundCrate::Name("my_rapace".to_string())), true).unwrap(),
        "my_rapace"
    );
    let internal = rapace_crate_path(&Err(Error::CargoManifestDirNotSet), true).unwrap_err();
    assert!(matches!(internal, CodegenError::InternalCrate));
    assert_eq!(
        internal.to_string(),
        "Internal crates using rapace_macros must add `rapace` as a dependency, or you can create \
         a facade module. See rapace-testkit for an example."
    );
    let missing = rapace_crate_path(&Err(Error::CargoManifestDirNotSet), false).unwrap_err();
    assert_eq!(
        missing.to_string(),
        "rapace crate not found in dependencies. Add `rapace = \"...\"` to your Cargo.toml"
    );
}

#[test]
fn rapace_cell_path_choices() {
    let none = || Err(Error::CargoManifestDirNotSet);
    assert_eq!(
        rapace_cell_path(&Ok(FoundCrate::Itself), &none()),
        Some(("crate".to_string(), true))
    );
    assert_eq!(
        rapace_cell_path(&none(), &Ok(FoundCrate::Name("cell".to_string()))),
        Some(("cell".to_string(), false))
    );
    assert_eq!(rapace_cell_path(&none(), &none()), None);
}

#[test]
fn generated_item_names() {
    let names = service_names("TracingSink");
    assert_eq!(names.client, "TracingSinkClient");
    assert_eq!(names.server, "TracingSinkServer");
    assert_eq!(names.registry_client, "TracingSinkRegistryClient");
    assert_eq!(names.register_fn, "tracing_sink_register");
    assert_eq!(method_id_const_name("TracingSink", "new_span"), "TRACING_SINK_METHOD_ID_NEW_SPAN");
    assert_eq!(method_id_field_name("new_span"), "new_span_method_id");
}

#[test]
fn plan_of_a_service() {
    let methods = vec![
        method("add", vec![ident("i32")]),
        method("range", streaming_of(vec![ident("u32")])),
    ];
    let plan = plan_service(
        "Calculator",
        methods,
        &Ok(FoundCrate::Itself),
        false,
        &Err(Error::CargoManifestDirNotSet),
        &Err(Error::CargoManifestDirNotSet),
    )
    .unwrap();
    assert_eq!(plan.rapace_crate, "rapace");
    assert_eq!(plan.methods.len(), 2);
    assert!(matches!(plan.methods[1].kind, MethodKind::ServerStreaming { .. }));
    assert_eq!(
        plan.method_ids,
        vec![compute_method_id("Calculator", "add"), compute_method_id("Calculator", "range")]
    );
    assert_eq!(
        plan.method_id_consts,
        vec!["CALCULATOR_METHOD_ID_ADD".to_string(), "CALCULATOR_METHOD_ID_RANGE".to_string()]
    );
    assert_eq!(plan.names.register_fn, "calculator_register");
    assert_eq!(plan.rapace_cell, None);
}

#[test]
fn plan_fails_without_rapace() {
    let err = plan_service(
        "Calculator",
        vec![method("add", vec![ident("i32")])],
        &Err(Error::CargoManifestDirNotSet),
        false,
        &Ok(FoundCrate::Itself),
        &Ok(FoundCrate::Itself),
    )
    .unwrap_err();
    assert!(matches!(err, CodegenError::RapaceNotFound));
}

#[test]
fn split_then_join_gives_tokens_back() {
    let make = || {
        vec![
            ident("A"),
            punct(','),
            ident("Map"),
            punct('<'),
            ident("K"),
            punct(','),
            ident("V"),
            punct('>'),
            punct(','),
            punct(','),
            ident("z"),
        ]
    };
    let parts = split_top_level(make(), ',');
    assert_eq!(parts.len(), 4);
    let mut joined: Vec<String> = Vec::new();
    for (i, part) in parts.iter().enumerate() {
        if i > 0 {
            joined.push(",".to_string());
        }
        joined.extend(texts(part));
    }
    assert_eq!(joined, texts(&make()));
}
