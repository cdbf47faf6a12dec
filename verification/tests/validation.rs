use rpc_gen::model::{
    count_role, Parameter, ProcedureDecl, Role, RpcError, SourceItem, SourceParam,
};
use rpc_gen::schema::{build_schema, build_variant, find_variant, names_with_role, types_with_role};
use rpc_gen::validate::{find_procedure, has_marker_word, param_role, read_parameters, validate};

fn marker(name: &str) -> Option<String> {
    Some(name.to_string())
}

fn param(name: &str, ty: &str, markers: Vec<Option<String>>) -> SourceParam {
    SourceParam { markers, name: Some(name.to_string()), ty: ty.to_string() }
}

fn procedure(name: &str, params: Vec<SourceParam>) -> SourceItem {
    SourceItem { name: Some(name.to_string()), markers: vec![marker("rpc")], params }
}

fn parameter(name: &str, ty: &str, role: Role) -> Parameter {
    Parameter { name: name.to_string(), ty: ty.to_string(), role }
}

#[test]
fn marker_is_found_among_other_attributes() {
    assert!(has_marker_word(&vec![None, marker("inline"), marker("rpc")], "rpc"));
    assert!(!has_marker_word(&vec![None, marker("inline"), marker("rpc_binding")], "rpc"));
    assert!(!has_marker_word(&vec![], "rpc"));
    assert!(!has_marker_word(&vec![marker("Rpc")], "rpc"));
}

#[test]
fn role_follows_the_binding_marker() {
    assert_eq!(param_role(&param("c", "Conn", vec![marker("rpc_binding")])), Role::Binding);
    assert_eq!(param_role(&param("c", "Conn", vec![None, marker("rpc_binding")])), Role::Binding);
    assert_eq!(param_role(&param("c", "Conn", vec![marker("rpc")])), Role::Payload);
    assert_eq!(param_role(&param("c", "Conn", vec![])), Role::Payload);
}

#[test]
fn parameters_are_read_in_order_with_their_roles() {
    let item = procedure(
        "put",
        vec![
            param("conn", "Conn", vec![marker("rpc_binding")]),
            param("key", "String", vec![]),
            param("v", "Value", vec![marker("allow")]),
        ],
    );
    assert_eq!(
        read_parameters(&item),
        Ok(vec![
            parameter("conn", "Conn", Role::Binding),
            parameter("key", "String", Role::Payload),
            parameter("v", "Value", Role::Payload),
        ])
    );
}

#[test]
fn first_parameter_without_a_name_is_reported() {
    let unnamed = SourceParam { markers: vec![], name: None, ty: "T".to_string() };
    let item = procedure(
        "f",
        vec![param("a", "A", vec![]), unnamed.clone(), param("b", "B", vec![]), unnamed],
    );
    assert_eq!(read_parameters(&item), Err(1));
}

#[test]
fn valid_items_give_their_declarations() {
    let items = vec![
        procedure("get", vec![param("conn", "Conn", vec![marker("rpc_binding")]), param("k", "K", vec![])]),
        procedure("len", vec![param("conn", "Conn", vec![marker("rpc_binding")])]),
    ];
    let set = validate(&items).unwrap();
    assert_eq!(set.len(), 2);
    assert_eq!(set.binding_count(), 1);
    assert_eq!(
        set.procedures(),
        &vec![
            ProcedureDecl {
                name: "get".to_string(),
                params: vec![parameter("conn", "Conn", Role::Binding), parameter("k", "K", Role::Payload)],
                origin: 0,
            },
            ProcedureDecl {
                name: "len".to_string(),
                params: vec![parameter("conn", "Conn", Role::Binding)],
                origin: 1,
            },
        ]
    );
}

#[test]
fn empty_input_is_a_valid_empty_set() {
    let set = validate(&vec![]).unwrap();
    assert_eq!(set.len(), 0);
    assert_eq!(set.binding_count(), 0);
    assert!(build_schema(&set).unwrap().variants.is_empty());
}

#[test]
fn every_fault_is_reported_at_its_item() {
    let other = SourceItem { name: None, markers: vec![], params: vec![] };
    assert_eq!(
        validate(&vec![procedure("a", vec![]), other]).unwrap_err(),
        RpcError::NonProcedureItem { item: 1 }
    );
    let unmarked = SourceItem { name: Some("b".to_string()), markers: vec![marker("inline"), None], params: vec![] };
    assert_eq!(
        validate(&vec![procedure("a", vec![]), unmarked]).unwrap_err(),
        RpcError::MissingRpcMarker { item: 1 }
    );
    let receiver = SourceParam { markers: vec![], name: None, ty: "Self".to_string() };
    assert_eq!(
        validate(&vec![procedure("a", vec![param("x", "X", vec![]), receiver])]).unwrap_err(),
        RpcError::UnsupportedParameterForm { item: 0, param: 1 }
    );
    assert_eq!(
        validate(&vec![
            procedure("a", vec![param("c", "C", vec![marker("rpc_binding")])]),
            procedure("b", vec![param("c", "C", vec![marker("rpc_binding")])]),
            procedure("d", vec![param("c", "C", vec![])]),
        ])
        .unwrap_err(),
        RpcError::BindingArityMismatch { item: 2 }
    );
    assert_eq!(
        validate(&vec![procedure("a", vec![]), procedure("b", vec![]), procedure("a", vec![]), procedure("b", vec![])])
            .unwrap_err(),
        RpcError::DuplicateProcedure { first: 0, second: 2 }
    );
}

#[test]
fn collision_is_reported_with_both_procedures() {
    let set = validate(&vec![
        procedure("x", vec![]),
        procedure("read_all", vec![]),
        procedure("readAll", vec![]),
        procedure("Read_all", vec![]),
    ])
    .unwrap();
    assert_eq!(
        build_schema(&set).unwrap_err(),
        RpcError::VariantNameCollision { first: 1, second: 2 }
    );
}

#[test]
fn names_and_types_are_split_by_role() {
    let params = vec![
        parameter("a", "A", Role::Payload),
        parameter("c", "C", Role::Binding),
        parameter("b", "B", Role::Payload),
        parameter("d", "D", Role::Binding),
    ];
    assert_eq!(names_with_role(&params, Role::Payload), vec!["a", "b"]);
    assert_eq!(names_with_role(&params, Role::Binding), vec!["c", "d"]);
    assert_eq!(types_with_role(&params, Role::Payload), vec!["A", "B"]);
    assert_eq!(types_with_role(&params, Role::Binding), vec!["C", "D"]);
    assert_eq!(count_role(&params, Role::Binding), 2);
    assert_eq!(count_role(&params[..1].to_vec(), Role::Binding), 0);
}

#[test]
fn variant_holds_what_the_templates_need() {
    let decl = ProcedureDecl {
        name: "send_packet".to_string(),
        params: vec![
            parameter("conn", "Conn", Role::Binding),
            parameter("dst", "String", Role::Payload),
            parameter("payload", "Bytes", Role::Payload),
        ],
        origin: 3,
    };
    let v = build_variant(&decl);
    assert_eq!(v.variant, "SendPacket");
    assert_eq!(v.procedure, "send_packet");
    assert_eq!(v.payload_types, vec!["String", "Bytes"]);
    assert_eq!(v.payload_names, vec!["dst", "payload"]);
    assert_eq!(v.binding_names, vec!["conn"]);
    let variants = vec![build_variant(&ProcedureDecl { name: "a".to_string(), params: vec![], origin: 0 }), v];
    assert_eq!(find_variant(&variants, &"SendPacket".to_string()), Some(1));
    assert_eq!(find_variant(&variants, &"A".to_string()), Some(0));
    assert_eq!(find_variant(&variants, &"send_packet".to_string()), None);
    let procedures = vec![decl];
    assert_eq!(find_procedure(&procedures, &"send_packet".to_string()), Some(0));
    assert_eq!(find_procedure(&procedures, &"SendPacket".to_string()), None);
}
