use rpc_gen::model::{SourceItem, SourceParam};
use rpc_gen::emit::CapabilityMarkers;
use rpc_gen::generate::generate_tree;
use rpc_gen::model::RpcError;
use rpc_gen::syntax::{
    is_marker, parse_items, print_items, read_items, sanitize_tree, sanitized_definitions,
};

fn marker(name: &str) -> Option<String> {
    Some(name.to_string())
}

#[test]
fn items_are_read_as_they_stand() {
    let src = "#[rpc] #[doc = \"d\"] #[path::to::rpc] #[cfg(test)]
               fn get(#[rpc_binding] #[allow(unused)] conn: &mut Conn, key: Vec<u8>, mut n: u8, (a, b): P) {}
               struct Other;
               impl T { #[rpc] fn inner(&self) {} }
               fn bare(self: Box<Self>, _: u8) {}";
    let items = parse_items(src).unwrap();
    let expected = vec![
        SourceItem {
            name: marker("get"),
            markers: vec![marker("rpc"), None, marker("rpc"), None],
            params: vec![
                SourceParam {
                    markers: vec![marker("rpc_binding"), None],
                    name: marker("conn"),
                    ty: "& mut Conn".to_string(),
                },
                SourceParam { markers: vec![], name: marker("key"), ty: "Vec < u8 >".to_string() },
                SourceParam { markers: vec![], name: None, ty: "u8".to_string() },
                SourceParam { markers: vec![], name: None, ty: "P".to_string() },
            ],
        },
        SourceItem { name: None, markers: vec![], params: vec![] },
        SourceItem { name: None, markers: vec![], params: vec![] },
        SourceItem {
            name: marker("bare"),
            markers: vec![],
            params: vec![
                SourceParam { markers: vec![], name: None, ty: "Box < Self >".to_string() },
                SourceParam { markers: vec![], name: None, ty: "u8".to_string() },
            ],
        },
    ];
    assert_eq!(items, expected);
    let file = syn::parse_str::<syn::File>(src).unwrap();
    assert_eq!(read_items(&file), expected);
}

#[test]
fn tree_is_sanitized_in_place() {
    let src = "#[rpc] #[inline] #[rpc] fn a(#[rpc_binding] c: C, #[x] #[rpc_binding] #[y] d: D) {}
               #[rpc] struct S;
               #[z::rpc] fn b(#[rpc_binding] self) {}";
    let mut file = syn::parse_str::<syn::File>(src).unwrap();
    let definitions = sanitized_definitions(&mut file);
    assert_eq!(
        definitions,
        vec![
            "# [inline] fn a (c : C , # [x] # [y] d : D) { }",
            "# [rpc] struct S ;",
            "fn b (self) { }",
        ]
    );
    let again = read_items(&file);
    assert_eq!(again[0].markers, vec![marker("inline")]);
    assert_eq!(again[0].params[0].markers, vec![]);
    assert_eq!(again[0].params[1].markers, vec![marker("x"), marker("y")]);
    assert_eq!(again[2].markers, vec![]);
    assert_eq!(sanitized_definitions(&mut file), definitions);
}

#[test]
fn marker_is_told_by_its_name() {
    assert!(is_marker(&marker("rpc"), "rpc"));
    assert!(!is_marker(&marker("rpc_binding"), "rpc"));
    assert!(!is_marker(&None, "rpc"));
}

#[test]
fn tree_is_sanitized_and_printed_in_two_steps() {
    let src = "#[rpc] #[inline] fn a(#[rpc_binding] c: C, d: D) {} #[rpc] fn b(#[rpc_binding] c: C) {}";
    let mut file = syn::parse_str::<syn::File>(src).unwrap();
    assert_eq!(
        print_items(&file),
        vec![
            "# [rpc] # [inline] fn a (# [rpc_binding] c : C , d : D) { }",
            "# [rpc] fn b (# [rpc_binding] c : C) { }",
        ]
    );
    sanitize_tree(&mut file);
    assert_eq!(print_items(&file), vec!["# [inline] fn a (c : C , d : D) { }", "fn b (c : C) { }"]);
    assert_eq!(file.items.len(), 2);
}

#[test]
fn generator_sanitizes_an_accepted_tree_and_leaves_a_rejected_one() {
    let markers = CapabilityMarkers::serde();
    let mut good = syn::parse_str::<syn::File>("#[rpc] fn ping() {}").unwrap();
    let out = generate_tree(&mut good, &markers).unwrap();
    assert!(out.starts_with("fn ping () { }\n#[derive(Serialize, Deserialize)]\npub enum RpcArgs {\n    Ping(),\n}\n"));
    assert_eq!(print_items(&good), vec!["fn ping () { }"]);
    let mut bad = syn::parse_str::<syn::File>("#[rpc] fn ping() {} #[rpc] fn ping() {}").unwrap();
    assert_eq!(
        generate_tree(&mut bad, &markers),
        Err(RpcError::DuplicateProcedure { first: 0, second: 1 })
    );
    assert_eq!(print_items(&bad), vec!["# [rpc] fn ping () { }", "# [rpc] fn ping () { }"]);
}
