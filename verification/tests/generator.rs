use rpc_gen::emit::CapabilityMarkers;
use rpc_gen::generate::{expand, generate, plan, rpc_functions};
use rpc_gen::model::RpcError;
use rpc_gen::syntax::parse_items;
use rpc_gen::template::{dispatch, encode, Call, UnionValue};

fn strings(list: &[&str]) -> Vec<String> {
    list.iter().map(|s| s.to_string()).collect()
}

fn call(procedure: &str, args: &[&str]) -> Call {
    Call { procedure: procedure.to_string(), args: strings(args) }
}

fn value(variant: &str, payload: &[&str]) -> UnionValue {
    UnionValue { variant: variant.to_string(), payload: strings(payload) }
}

const DISPATCH_HEAD: &str = "#[macro_export]\nmacro_rules! rpc_dispatch {\n    ($args:expr) => {\n        match $args {\n";
const DISPATCH_MID: &str = "        }\n    };\n    ([$($bindings:expr),*] $args:expr) => {\n        match $args {\n";
const DISPATCH_TAIL: &str = "        }\n    };\n}\n";

#[test]
fn two_procedures_without_payload() {
    let src = "#[rpc] fn ping() {} #[rpc] fn shutdown() {}";
    let out = rpc_functions(src).unwrap();
    let expected = String::new()
        + "fn ping () { }\n"
        + "fn shutdown () { }\n"
        + "#[derive(Serialize, Deserialize)]\npub enum RpcArgs {\n    Ping(),\n    Shutdown(),\n}\n"
        + DISPATCH_HEAD
        + "            RpcArgs::Ping() => ping(),\n"
        + "            RpcArgs::Shutdown() => shutdown(),\n"
        + DISPATCH_MID
        + "            RpcArgs::Ping() => ping($($bindings,)* ),\n"
        + "            RpcArgs::Shutdown() => shutdown($($bindings,)* ),\n"
        + DISPATCH_TAIL
        + "#[macro_export]\nmacro_rules! rpc_encode {\n"
        + "    (ping($($args:expr),*)) => {\n        RpcArgs::Ping($($args),*)\n    };\n"
        + "    (shutdown($($args:expr),*)) => {\n        RpcArgs::Shutdown($($args),*)\n    };\n"
        + "}\n";
    assert_eq!(out, expected);

    let schema = plan(&parse_items(src).unwrap()).unwrap();
    assert_eq!(schema.variants.len(), 2);
    assert_eq!(schema.variants[0].variant, "Ping");
    assert_eq!(schema.variants[1].variant, "Shutdown");
    assert!(schema.variants[0].payload_types.is_empty());
    assert!(schema.variants[1].payload_types.is_empty());
    let encoded = encode(&schema, &call("ping", &[])).unwrap();
    assert_eq!(encoded, value("Ping", &[]));
    assert_eq!(dispatch(&schema, None, &encoded), Some(call("ping", &[])));
}

#[test]
fn one_procedure_with_two_arguments() {
    let src = "#[rpc] fn add(a: I32, b: I32) -> I32 { a + b }";
    let out = rpc_functions(src).unwrap();
    let expected = String::new()
        + "fn add (a : I32 , b : I32) -> I32 { a + b }\n"
        + "#[derive(Serialize, Deserialize)]\npub enum RpcArgs {\n    Add(I32, I32),\n}\n"
        + DISPATCH_HEAD
        + "            RpcArgs::Add(a, b) => add(a, b),\n"
        + DISPATCH_MID
        + "            RpcArgs::Add(a, b) => add($($bindings,)* a, b),\n"
        + DISPATCH_TAIL
        + "#[macro_export]\nmacro_rules! rpc_encode {\n"
        + "    (add($($args:expr),*)) => {\n        RpcArgs::Add($($args),*)\n    };\n"
        + "}\n";
    assert_eq!(out, expected);

    let schema = plan(&parse_items(src).unwrap()).unwrap();
    let encoded = encode(&schema, &call("add", &["2", "3"])).unwrap();
    assert_eq!(encoded, value("Add", &["2", "3"]));
    assert_eq!(dispatch(&schema, None, &encoded), Some(call("add", &["2", "3"])));
}

#[test]
fn variant_name_and_payload_of_send_packet() {
    let src = "#[rpc] fn send_packet(dst: String, payload: Bytes) {}";
    let schema = plan(&parse_items(src).unwrap()).unwrap();
    assert_eq!(schema.variants.len(), 1);
    assert_eq!(schema.variants[0].variant, "SendPacket");
    assert_eq!(schema.variants[0].procedure, "send_packet");
    assert_eq!(schema.variants[0].payload_types, strings(&["String", "Bytes"]));
    assert_eq!(schema.variants[0].payload_names, strings(&["dst", "payload"]));
    let out = rpc_functions(src).unwrap();
    assert!(out.contains("pub enum RpcArgs {\n    SendPacket(String, Bytes),\n}\n"));
}

#[test]
fn procedures_with_one_binding_each() {
    let src = "#[rpc] fn get(#[rpc_binding] conn: Conn, key: String) -> Value { conn.get(key) }
               #[rpc] fn put(#[rpc_binding] conn: Conn, key: String, v: Value) { conn.put(key, v) }";
    let out = rpc_functions(src).unwrap();
    let expected = String::new()
        + "fn get (conn : Conn , key : String) -> Value { conn . get (key) }\n"
        + "fn put (conn : Conn , key : String , v : Value) { conn . put (key , v) }\n"
        + "#[derive(Serialize, Deserialize)]\npub enum RpcArgs {\n    Get(String),\n    Put(String, Value),\n}\n"
        + DISPATCH_HEAD
        + "            RpcArgs::Get(key) => get(key),\n"
        + "            RpcArgs::Put(key, v) => put(key, v),\n"
        + DISPATCH_MID
        + "            RpcArgs::Get(key) => get($($bindings,)* key),\n"
        + "            RpcArgs::Put(key, v) => put($($bindings,)* key, v),\n"
        + DISPATCH_TAIL
        + "#[macro_export]\nmacro_rules! rpc_encode {\n"
        + "    (get($($args:expr),*)) => {\n        RpcArgs::Get($($args),*)\n    };\n"
        + "    (put($($args:expr),*)) => {\n        RpcArgs::Put($($args),*)\n    };\n"
        + "}\n";
    assert_eq!(out, expected);

    let schema = plan(&parse_items(src).unwrap()).unwrap();
    assert_eq!(schema.variants[0].binding_names, strings(&["conn"]));
    assert_eq!(schema.variants[1].binding_names, strings(&["conn"]));
    let encoded = encode(&schema, &call("get", &["x"])).unwrap();
    assert_eq!(encoded, value("Get", &["x"]));
    let bindings = strings(&["c"]);
    assert_eq!(dispatch(&schema, Some(&bindings), &encoded), Some(call("get", &["c", "x"])));
    assert_eq!(dispatch(&schema, None, &encoded), None);
    let two = strings(&["c", "d"]);
    assert_eq!(dispatch(&schema, Some(&two), &encoded), None);
}

#[test]
fn procedure_without_marker_is_rejected() {
    let src = "#[rpc] fn a() {} fn b() {}";
    assert_eq!(rpc_functions(src), Err(RpcError::MissingRpcMarker { item: 1 }));
    assert_eq!(rpc_functions("#[inline] fn b() {}"), Err(RpcError::MissingRpcMarker { item: 0 }));
    assert_eq!(rpc_functions("#[rpc(x)] fn b() {}"), Err(RpcError::MissingRpcMarker { item: 0 }));
    assert_eq!(rpc_functions("#[rpc = 1] fn b() {}"), Err(RpcError::MissingRpcMarker { item: 0 }));
}

#[test]
fn repeated_name_is_rejected() {
    let src = "#[rpc] fn foo(a: u32) {} #[rpc] fn foo(a: u32, b: u32) {}";
    assert_eq!(rpc_functions(src), Err(RpcError::DuplicateProcedure { first: 0, second: 1 }));
}

#[test]
fn colliding_variant_names_are_rejected() {
    let src = "#[rpc] fn do_it() {} #[rpc] fn doIt() {}";
    assert_eq!(rpc_functions(src), Err(RpcError::VariantNameCollision { first: 0, second: 1 }));
    let src = "#[rpc] fn a() {} #[rpc] fn send_packet() {} #[rpc] fn b() {} #[rpc] fn sendPacket() {}";
    assert_eq!(rpc_functions(src), Err(RpcError::VariantNameCollision { first: 1, second: 3 }));
}

#[test]
fn distinct_variant_names_are_accepted() {
    let src = "#[rpc] fn do_it() {} #[rpc] fn do_at() {} #[rpc] fn doit() {}";
    let schema = plan(&parse_items(src).unwrap()).unwrap();
    assert_eq!(schema.variants[0].variant, "DoIt");
    assert_eq!(schema.variants[1].variant, "DoAt");
    assert_eq!(schema.variants[2].variant, "Doit");
    assert!(rpc_functions(src).is_ok());
}

#[test]
fn other_items_are_rejected() {
    assert_eq!(rpc_functions("struct S;"), Err(RpcError::NonProcedureItem { item: 0 }));
    assert_eq!(
        rpc_functions("#[rpc] fn a() {} use std::fmt; #[rpc] fn b() {}"),
        Err(RpcError::NonProcedureItem { item: 1 })
    );
    assert_eq!(
        rpc_functions("#[rpc] fn a() {} const X: u8 = 1;"),
        Err(RpcError::NonProcedureItem { item: 1 })
    );
}

#[test]
fn unsupported_parameters_are_rejected() {
    assert_eq!(
        rpc_functions("#[rpc] fn a(self) {}"),
        Err(RpcError::UnsupportedParameterForm { item: 0, param: 0 })
    );
    assert_eq!(
        rpc_functions("#[rpc] fn a(&mut self, x: u8) {}"),
        Err(RpcError::UnsupportedParameterForm { item: 0, param: 0 })
    );
    assert_eq!(
        rpc_functions("#[rpc] fn ok(x: u8) {} #[rpc] fn a(x: u8, (y, z): (u8, u8), _: u8) {}"),
        Err(RpcError::UnsupportedParameterForm { item: 1, param: 1 })
    );
    assert_eq!(
        rpc_functions("#[rpc] fn a(#[rpc_binding] _: Conn) {}"),
        Err(RpcError::UnsupportedParameterForm { item: 0, param: 0 })
    );
    assert_eq!(
        rpc_functions("#[rpc] fn a(x: u8, mut y: u8) {}"),
        Err(RpcError::UnsupportedParameterForm { item: 0, param: 1 })
    );
    assert_eq!(
        rpc_functions("#[rpc] fn a(ref x: u8) {}"),
        Err(RpcError::UnsupportedParameterForm { item: 0, param: 0 })
    );
    assert_eq!(
        rpc_functions("#[rpc] fn a(x @ Some(_): Option<u8>) {}"),
        Err(RpcError::UnsupportedParameterForm { item: 0, param: 0 })
    );
}

#[test]
fn differing_binding_counts_are_rejected() {
    let src = "#[rpc] fn a(#[rpc_binding] c: Conn) {}
               #[rpc] fn b(#[rpc_binding] c: Conn, x: u8) {}
               #[rpc] fn d(x: u8) {}
               #[rpc] fn e(#[rpc_binding] c: Conn, #[rpc_binding] t: Token) {}";
    assert_eq!(rpc_functions(src), Err(RpcError::BindingArityMismatch { item: 2 }));
}

#[test]
fn malformed_input_is_rejected() {
    assert_eq!(rpc_functions("#[rpc] fn a( {}"), Err(RpcError::MalformedInput));
    assert_eq!(rpc_functions("fn"), Err(RpcError::MalformedInput));
    assert_eq!(rpc_functions("#[rpc] fn a() { \" }"), Err(RpcError::MalformedInput));
    assert_eq!(parse_items("let x = ;"), Err(RpcError::MalformedInput));
}

#[test]
fn earliest_item_and_earliest_check_win() {
    assert_eq!(
        rpc_functions("fn a(self) {} struct S;"),
        Err(RpcError::MissingRpcMarker { item: 0 })
    );
    assert_eq!(
        rpc_functions("#[rpc] fn a(x: u8) {} #[rpc] fn a(#[rpc_binding] c: Conn, (p, q): P) {}"),
        Err(RpcError::UnsupportedParameterForm { item: 1, param: 1 })
    );
    assert_eq!(
        rpc_functions("#[rpc] fn a(x: u8) {} #[rpc] fn a(#[rpc_binding] c: Conn) {}"),
        Err(RpcError::BindingArityMismatch { item: 1 })
    );
    assert_eq!(
        rpc_functions("#[rpc] fn do_it() {} #[rpc] fn doIt() {} #[rpc] fn do_it() {}"),
        Err(RpcError::DuplicateProcedure { first: 0, second: 2 })
    );
}

#[test]
fn empty_input_gives_empty_union() {
    let out = rpc_functions("").unwrap();
    let expected = String::new()
        + "#[derive(Serialize, Deserialize)]\npub enum RpcArgs {\n}\n"
        + DISPATCH_HEAD
        + DISPATCH_MID
        + DISPATCH_TAIL
        + "#[macro_export]\nmacro_rules! rpc_encode {\n}\n";
    assert_eq!(out, expected);
}

#[test]
fn markers_are_stripped_and_the_rest_is_kept() {
    let src = "/// Adds.
               #[rpc] #[inline] #[some::rpc] #[rpc]
               pub(crate) async unsafe fn add<'a, T: Copy>(
                   #[rpc_binding] #[allow(unused)] conn: &'a mut Conn,
                   #[cfg(x)] #[other::rpc_binding] a: T,
                   #[rpc] b: Vec<u8>,
               ) -> Option<T> where T: Send { #![allow(dead_code)] let c = a; Some(c) }";
    let out = rpc_functions(src).unwrap();
    let definition = out.lines().next().unwrap();
    assert_eq!(
        definition,
        "# [doc = \" Adds.\"] # [inline] pub (crate) async unsafe fn add < 'a , T : Copy > \
         (# [allow (unused)] conn : & 'a mut Conn , # [cfg (x)] a : T , # [rpc] b : Vec < u8 > ,) \
         -> Option < T > where T : Send { # ! [allow (dead_code)] let c = a ; Some (c) }"
    );
    assert!(out.contains("    Add(Vec < u8 >),\n"));
    assert!(out.contains("            RpcArgs::Add(b) => add($($bindings,)* b),\n"));
}

#[test]
fn sanitized_definitions_are_printed_the_same_again() {
    let src = "#[rpc] #[inline] fn get(#[rpc_binding] conn: Conn, key: String) -> Value { conn.get(key) }";
    let out = rpc_functions(src).unwrap();
    let definition = out.lines().next().unwrap();
    let again = rpc_functions(&format!("#[rpc] {}", definition)).unwrap();
    assert_eq!(again.lines().next().unwrap(), definition);
    assert_eq!(
        rpc_functions(definition),
        Err(RpcError::MissingRpcMarker { item: 0 })
    );
}

#[test]
fn order_of_procedures_is_the_order_of_variants_and_arms() {
    let a = "#[rpc] fn alpha(x: u8) {}";
    let b = "#[rpc] fn beta() {}";
    let c = "#[rpc] fn gamma(y: String, z: bool) {}";
    let first = plan(&parse_items(&format!("{a} {b} {c}")).unwrap()).unwrap();
    let second = plan(&parse_items(&format!("{c} {a} {b}")).unwrap()).unwrap();
    assert_eq!(second.variants[0], first.variants[2]);
    assert_eq!(second.variants[1], first.variants[0]);
    assert_eq!(second.variants[2], first.variants[1]);
    let out = rpc_functions(&format!("{c} {a} {b}")).unwrap();
    let gamma = out.find("            RpcArgs::Gamma(y, z) => gamma(y, z),\n").unwrap();
    let alpha = out.find("            RpcArgs::Alpha(x) => alpha(x),\n").unwrap();
    let beta = out.find("            RpcArgs::Beta() => beta(),\n").unwrap();
    assert!(gamma < alpha && alpha < beta);
    assert!(out.contains("    Gamma(String, bool),\n    Alpha(u8),\n    Beta(),\n"));
}

#[test]
fn output_is_a_sequence_of_items_again() {
    let src = "#[rpc] fn get(#[rpc_binding] conn: Conn, key: String) -> Value { conn.get(key) }
               #[rpc] fn put(#[rpc_binding] conn: Conn, key: String, v: Value) { conn.put(key, v) }";
    let out = rpc_functions(src).unwrap();
    let file = syn::parse_str::<syn::File>(&out).unwrap();
    assert_eq!(file.items.len(), 5);
    assert!(matches!(file.items[0], syn::Item::Fn(_)));
    assert!(matches!(file.items[1], syn::Item::Fn(_)));
    assert!(matches!(file.items[2], syn::Item::Enum(_)));
    assert!(matches!(file.items[3], syn::Item::Macro(_)));
    assert!(matches!(file.items[4], syn::Item::Macro(_)));
}

#[test]
fn markers_of_the_union_are_the_given_pair() {
    let markers = CapabilityMarkers {
        serializable: "Encode".to_string(),
        deserializable: "Decode".to_string(),
    };
    let out = generate("#[rpc] fn ping() {}", &markers).unwrap();
    assert!(out.starts_with("fn ping () { }\n#[derive(Encode, Decode)]\npub enum RpcArgs {\n    Ping(),\n}\n"));
    assert_eq!(CapabilityMarkers::serde().serializable, "Serialize");
    assert_eq!(CapabilityMarkers::serde().deserializable, "Deserialize");
}

#[test]
fn expand_takes_items_and_definitions_as_they_are() {
    let items = parse_items("#[rpc] fn ping() {}").unwrap();
    let definitions = strings(&["fn ping() {}"]);
    let out = expand(&items, &definitions, &CapabilityMarkers::serde()).unwrap();
    assert!(out.starts_with("fn ping() {}\n#[derive(Serialize, Deserialize)]\n"));
    let bad = parse_items("fn ping() {}").unwrap();
    assert_eq!(
        expand(&bad, &definitions, &CapabilityMarkers::serde()),
        Err(RpcError::MissingRpcMarker { item: 0 })
    );
}
