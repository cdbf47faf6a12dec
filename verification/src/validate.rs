//! The validator: from the items as they were read to a procedure set, or to
//! the first fault in source order.

use crate::model::{
    count_role, has_role, opt_texts, parameter_views, procedure_views, set_valid, shapes,
    ItemShape, ParamShape, Parameter, ParameterView, ProcedureDecl, ProcedureSet, ProcedureView,
    Role, RpcError, SourceItem, SourceParam,
};
use crate::search::{least, lemma_least_absent, lemma_least_found, lemma_least_result};
use vstd::prelude::*;

verus! {

/// The name of the marker that every procedure carries.
pub open spec fn rpc_word() -> Seq<char> {
    "rpc"@
}

/// The name of the marker that makes a parameter a binding.
pub open spec fn binding_word() -> Seq<char> {
    "rpc_binding"@
}

/// One of the attributes is the marker named `word`.
pub open spec fn has_marker(markers: Seq<Option<Seq<char>>>, word: Seq<char>) -> bool {
    markers.contains(Some(word))
}

/// A parameter with the binding marker is a binding, any other is payload.
pub open spec fn role_of(p: ParamShape) -> Role {
    if has_marker(p.markers, binding_word()) {
        Role::Binding
    } else {
        Role::Payload
    }
}

/// The validated form of a named parameter.
pub open spec fn parameter_of(p: ParamShape) -> ParameterView {
    ParameterView { name: p.name->0, ty: p.ty, role: role_of(p) }
}

/// The validated forms of a list of named parameters.
pub open spec fn parameters_of(params: Seq<ParamShape>) -> Seq<ParameterView> {
    params.map_values(|p: ParamShape| parameter_of(p))
}

/// The declaration that the procedure definition at position `origin`
/// stands for.
pub open spec fn declaration_of(item: ItemShape, origin: int) -> ProcedureView {
    ProcedureView { name: item.name->0, params: parameters_of(item.params), origin: origin as nat }
}

/// The declarations of a list of procedure definitions, in source order.
pub open spec fn declarations(items: Seq<ItemShape>) -> Seq<ProcedureView> {
    Seq::new(items.len(), |i: int| declaration_of(items[i], i))
}

/// The number of binding parameters of an item.
pub open spec fn binding_count(item: ItemShape) -> nat {
    parameters_of(item.params).filter(has_role(Role::Binding)).len()
}

/// The test for a parameter that is not of the form `name: Type`.
pub open spec fn unnamed(params: Seq<ParamShape>) -> spec_fn(int) -> bool {
    |p: int| params[p].name is None
}

/// The test for an item with the name of item `i`.
pub open spec fn namesake(items: Seq<ItemShape>, i: int) -> spec_fn(int) -> bool {
    |j: int| items[j].name == items[i].name
}

/// What is wrong with item `i`, if anything. The checks are made in this
/// order: the item is a procedure definition, it carries the `rpc` marker,
/// each parameter has the form `name: Type`, it has as many bindings as the first
/// item, and no earlier item has its name.
pub open spec fn item_fault(items: Seq<ItemShape>, i: int) -> Option<RpcError> {
    let item = items[i];
    if item.name is None {
        Some(RpcError::NonProcedureItem { item: i as usize })
    } else if !has_marker(item.markers, rpc_word()) {
        Some(RpcError::MissingRpcMarker { item: i as usize })
    } else {
        match least(unnamed(item.params), item.params.len() as int) {
            Some(p) => Some(
                RpcError::UnsupportedParameterForm { item: i as usize, param: p as usize },
            ),
            None => if binding_count(item) != binding_count(items[0]) {
                Some(RpcError::BindingArityMismatch { item: i as usize })
            } else {
                match least(namesake(items, i), i) {
                    Some(j) => Some(
                        RpcError::DuplicateProcedure { first: j as usize, second: i as usize },
                    ),
                    None => None,
                }
            },
        }
    }
}

/// The test for an item with a fault.
pub open spec fn faulty(items: Seq<ItemShape>) -> spec_fn(int) -> bool {
    |i: int| item_fault(items, i) is Some
}

/// The fault of the first faulty item in source order, if there is one.
pub open spec fn first_fault(items: Seq<ItemShape>) -> Option<RpcError> {
    match least(faulty(items), items.len() as int) {
        Some(i) => item_fault(items, i),
        None => None,
    }
}

/// Tells whether one of the attributes is the marker named `word`.
pub fn has_marker_word(markers: &Vec<Option<String>>, word: &str) -> (r: bool)
    ensures
        r == has_marker(opt_texts(markers@), word@),
{
    let w = String::from_str(word);
    let ghost ms = opt_texts(markers@);
    let mut k: usize = 0;
    while k < markers.len()
        invariant
            k <= markers.len(),
            w@ == word@,
            ms == opt_texts(markers@),
            forall|j: int| 0 <= j < k ==> ms[j] != Some(word@),
        decreases markers.len() - k,
    {
        match &markers[k] {
            Some(m) => {
                if *m == w {
                    assert(ms[k as int] == Some(word@));
                    return true;
                }
            },
            None => {},
        }
        k += 1;
    }
    false
}

/// The role of a parameter as it was read.
pub fn param_role(param: &SourceParam) -> (r: Role)
    ensures
        r == role_of(param@),
{
    if has_marker_word(&param.markers, "rpc_binding") {
        Role::Binding
    } else {
        Role::Payload
    }
}

/// Reads the parameters of an item: the validated parameters, or the
/// position of the first one that is not of the form `name: Type`.
pub fn read_parameters(item: &SourceItem) -> (r: Result<Vec<Parameter>, usize>)
    ensures
        match r {
            Ok(params) => {
                &&& least(unnamed(item@.params), item@.params.len() as int) is None
                &&& parameter_views(params@) == parameters_of(item@.params)
            },
            Err(p) => least(unnamed(item@.params), item@.params.len() as int) == Some(p as int),
        },
{
    let ghost shape = item@.params;
    let mut out: Vec<Parameter> = Vec::new();
    let mut p: usize = 0;
    while p < item.params.len()
        invariant
            p <= item.params.len(),
            shape == item@.params,
            shape.len() == item.params.len(),
            forall|q: int| 0 <= q < p ==> !#[trigger] unnamed(shape)(q),
            out@.len() == p,
            parameter_views(out@) =~= parameters_of(shape).take(p as int),
        decreases item.params.len() - p,
    {
        let param = &item.params[p];
        assert(shape[p as int] == param@);
        match &param.name {
            None => {
                proof {
                    assert(unnamed(shape)(p as int));
                    lemma_least_found(unnamed(shape), shape.len() as int, p as int);
                }
                return Err(p);
            },
            Some(name) => {
                let role = param_role(param);
                let ghost before = out@;
                out.push(Parameter { name: name.clone(), ty: param.ty.clone(), role });
                proof {
                    assert(out@.last()@ == parameter_of(shape[p as int]));
                    assert forall|q: int| 0 <= q <= p implies parameter_views(out@)[q]
                        == parameters_of(shape)[q] by {
                        if q < p {
                            assert(parameter_views(before)[q] == parameters_of(shape).take(
                                p as int,
                            )[q]);
                        }
                    }
                }
            },
        }
        p += 1;
    }
    proof {
        lemma_least_absent(unnamed(shape), shape.len() as int);
        assert(parameters_of(shape).take(p as int) =~= parameters_of(shape));
    }
    Ok(out)
}

/// Finds the first procedure with the given name.
pub fn find_procedure(procedures: &Vec<ProcedureDecl>, name: &String) -> (r: Option<usize>)
    ensures
        match r {
            Some(j) => {
                &&& j < procedures.len()
                &&& procedures[j as int].name@ == name@
                &&& forall|k: int| 0 <= k < j ==> procedures[k].name@ != name@
            },
            None => forall|k: int| 0 <= k < procedures.len() ==> procedures[k].name@ != name@,
        },
{
    let mut j: usize = 0;
    while j < procedures.len()
        invariant
            j <= procedures.len(),
            forall|k: int| 0 <= k < j ==> procedures[k].name@ != name@,
        decreases procedures.len() - j,
    {
        if procedures[j].name == *name {
            return Some(j);
        }
        j += 1;
    }
    None
}

/// Checks item `i` against the procedures before it: its declaration, or
/// what is wrong with it. `expected` is the binding count of the first item.
fn check_item(
    items: &Vec<SourceItem>,
    i: usize,
    earlier: &Vec<ProcedureDecl>,
    expected: usize,
) -> (r: Result<ProcedureDecl, RpcError>)
    requires
        i < items.len(),
        procedure_views(earlier@) == declarations(shapes(items@)).take(i as int),
        forall|k: int| 0 <= k < i ==> item_fault(shapes(items@), k) is None,
        i > 0 ==> expected == binding_count(shapes(items@)[0]),
    ensures
        match r {
            Ok(decl) => {
                &&& item_fault(shapes(items@), i as int) is None
                &&& decl@ == declaration_of(shapes(items@)[i as int], i as int)
            },
            Err(e) => item_fault(shapes(items@), i as int) == Some(e),
        },
{
    let ghost v = shapes(items@);
    let item = &items[i];
    assert(v[i as int] == item@);
    let name = match &item.name {
        None => {
            return Err(RpcError::NonProcedureItem { item: i });
        },
        Some(name) => name,
    };
    if !has_marker_word(&item.markers, "rpc") {
        return Err(RpcError::MissingRpcMarker { item: i });
    }
    let params = match read_parameters(item) {
        Err(p) => {
            return Err(RpcError::UnsupportedParameterForm { item: i, param: p });
        },
        Ok(params) => params,
    };
    let count = count_role(&params, Role::Binding);
    if i > 0 && count != expected {
        return Err(RpcError::BindingArityMismatch { item: i });
    }
    assert(earlier@.len() == i) by {
        assert(procedure_views(earlier@).len() == declarations(v).take(i as int).len());
    }
    assert forall|k: int| 0 <= k < i implies (earlier[k].name@ == name@) == #[trigger] namesake(
        v,
        i as int,
    )(k) by {
        assert(procedure_views(earlier@)[k] == declarations(v).take(i as int)[k]);
        assert(item_fault(v, k) is None);
    }
    match find_procedure(earlier, name) {
        Some(j) => {
            proof {
                assert(namesake(v, i as int)(j as int));
                lemma_least_found(namesake(v, i as int), i as int, j as int);
            }
            Err(RpcError::DuplicateProcedure { first: j, second: i })
        },
        None => {
            proof {
                lemma_least_absent(namesake(v, i as int), i as int);
            }
            Ok(ProcedureDecl { name: name.clone(), params, origin: i })
        },
    }
}

/// Items without a fault declare a valid procedure set.
pub proof fn lemma_faultless_items_form_a_set(items: Seq<ItemShape>)
    requires
        forall|i: int| 0 <= i < items.len() ==> item_fault(items, i) is None,
    ensures
        set_valid(declarations(items)),
{
    let procedures = declarations(items);
    assert forall|i: int, j: int| 0 <= i < j < procedures.len() implies (
    #[trigger] procedures[i]).name != (#[trigger] procedures[j]).name by {
        assert(item_fault(items, i) is None);
        assert(item_fault(items, j) is None);
        lemma_least_result(namesake(items, j), j);
        assert(!namesake(items, j)(i));
    }
    assert forall|i: int| 0 <= i < procedures.len() implies (
    #[trigger] procedures[i]).bindings().len() == procedures[0].bindings().len() by {
        assert(item_fault(items, i) is None);
        assert(item_fault(items, 0) is None);
    }
}

/// Validates the items in source order: the procedure set that they
/// declare, or the fault of the first faulty item.
pub fn validate(items: &Vec<SourceItem>) -> (r: Result<ProcedureSet, RpcError>)
    ensures
        match r {
            Ok(set) => {
                &&& first_fault(shapes(items@)) is None
                &&& set@ == declarations(shapes(items@))
            },
            Err(e) => first_fault(shapes(items@)) == Some(e),
        },
{
    let ghost v = shapes(items@);
    let mut procedures: Vec<ProcedureDecl> = Vec::new();
    let mut expected: usize = 0;
    let mut i: usize = 0;
    while i < items.len()
        invariant
            i <= items.len(),
            v == shapes(items@),
            procedures@.len() == i,
            forall|k: int| 0 <= k < i ==> item_fault(v, k) is None,
            procedure_views(procedures@) =~= declarations(v).take(i as int),
            i > 0 ==> expected == binding_count(v[0]),
        decreases items.len() - i,
    {
        match check_item(items, i, &procedures, expected) {
            Err(e) => {
                proof {
                    assert(faulty(v)(i as int));
                    assert forall|k: int| 0 <= k < i implies !#[trigger] faulty(v)(k) by {
                        assert(item_fault(v, k) is None);
                    }
                    lemma_least_found(faulty(v), v.len() as int, i as int);
                }
                return Err(e);
            },
            Ok(decl) => {
                if i == 0 {
                    expected = count_role(&decl.params, Role::Binding);
                }
                let ghost before = procedures@;
                procedures.push(decl);
                proof {
                    assert forall|k: int| 0 <= k <= i implies procedure_views(procedures@)[k]
                        == declarations(v)[k] by {
                        if k < i {
                            assert(procedure_views(before)[k] == declarations(v).take(i as int)[k]);
                        }
                    }
                }
            },
        }
        i += 1;
    }
    proof {
        assert(declarations(v).take(i as int) =~= declarations(v));
        assert forall|k: int| 0 <= k < v.len() implies !#[trigger] faulty(v)(k) by {
            assert(item_fault(v, k) is None);
        }
        lemma_least_absent(faulty(v), v.len() as int);
        lemma_faultless_items_form_a_set(v);
    }
    Ok(ProcedureSet::from_valid(procedures))
}

} // verus!
