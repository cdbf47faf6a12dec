//! What holds of every input that the generator accepts.

use crate::emit::{piece_text, Piece};
use crate::generate::checked_schema;
use crate::model::{parameter_names, parameter_types, set_valid, ItemShape};
use crate::naming::variant_name_of;
use crate::schema::{
    clash, collides, procedures_distinct, schema_of, variants_distinct, VariantView,
};
use crate::search::{least, lemma_least_absent, lemma_least_found, lemma_least_result};
use crate::template::{dispatched, encoded, stands_for, tagged, CallView, UnionValueView};
use crate::validate::{
    binding_count, declaration_of, declarations, faulty, item_fault,
    lemma_faultless_items_form_a_set, namesake,
};
use vstd::prelude::*;

verus! {

/// The items are accepted: none has a fault and no two variant names
/// collide.
pub open spec fn accepted(items: Seq<ItemShape>) -> bool {
    checked_schema(items) is Ok
}

/// The schema of accepted items.
pub open spec fn schema_for(items: Seq<ItemShape>) -> Seq<VariantView> {
    checked_schema(items)->Ok_0
}

/// Accepted items have no fault, declare a valid procedure set, and their
/// schema is that of the procedures they declare, with distinct tags and
/// distinct procedures.
pub proof fn lemma_accepted(items: Seq<ItemShape>)
    requires
        accepted(items),
    ensures
        forall|i: int| 0 <= i < items.len() ==> item_fault(items, i) is None,
        set_valid(declarations(items)),
        schema_for(items) == schema_of(declarations(items)),
        variants_distinct(schema_for(items)),
        procedures_distinct(schema_for(items)),
{
    let procedures = declarations(items);
    let schema = schema_of(procedures);
    lemma_least_result(faulty(items), items.len() as int);
    assert forall|i: int| 0 <= i < items.len() implies item_fault(items, i) is None by {
        assert(!faulty(items)(i));
    }
    lemma_faultless_items_form_a_set(items);
    lemma_least_result(collides(procedures), procedures.len() as int);
    assert forall|i: int, j: int| 0 <= i < j < schema.len() implies (#[trigger] schema[i]).variant
        != (#[trigger] schema[j]).variant by {
        assert(!collides(procedures)(j));
        lemma_least_result(clash(procedures, j), j);
        assert(!clash(procedures, j)(i));
    }
    assert forall|i: int, j: int| 0 <= i < j < schema.len() implies (
    #[trigger] schema[i]).procedure != (#[trigger] schema[j]).procedure by {
        assert(procedures[i].name != procedures[j].name);
    }
}

/// The union has exactly one variant for each procedure of an accepted
/// input, in source order; the tag of each is the variant name of its
/// procedure, and no two procedures share a tag.
pub proof fn law_one_variant_per_procedure(items: Seq<ItemShape>)
    requires
        accepted(items),
    ensures
        schema_for(items).len() == items.len(),
        forall|i: int|
            0 <= i < items.len() ==> {
                &&& (#[trigger] schema_for(items)[i]).procedure == items[i].name->0
                &&& schema_for(items)[i].variant == variant_name_of(items[i].name->0)
            },
        variants_distinct(schema_for(items)),
{
    lemma_accepted(items);
}

/// The payload types of each variant are the types of the payload
/// parameters of its procedure, in source order, and the payload names of
/// the templates are the names of those same parameters.
pub proof fn law_payload_aligned(items: Seq<ItemShape>, i: int)
    requires
        accepted(items),
        0 <= i < items.len(),
    ensures
        schema_for(items)[i].payload_types == parameter_types(
            declaration_of(items[i], i).payload(),
        ),
        schema_for(items)[i].payload_names == parameter_names(
            declaration_of(items[i], i).payload(),
        ),
        schema_for(items)[i].binding_names == parameter_names(
            declaration_of(items[i], i).bindings(),
        ),
        schema_for(items)[i].payload_types.len() == schema_for(items)[i].payload_names.len(),
        schema_for(items)[i].binding_names.len() == binding_count(items[0]),
{
    lemma_accepted(items);
    assert(item_fault(items, i) is None);
    assert(item_fault(items, 0) is None);
}

/// Encoding a call of a procedure of an accepted input and dispatching the
/// result with a list of as many bindings as the procedures have makes the
/// call of that procedure with the bindings first and the arguments after
/// them.
pub proof fn law_round_trip_with_bindings<V>(
    items: Seq<ItemShape>,
    i: int,
    bindings: Seq<V>,
    args: Seq<V>,
)
    requires
        accepted(items),
        0 <= i < items.len(),
        args.len() == schema_for(items)[i].payload_types.len(),
        bindings.len() == binding_count(items[0]),
    ensures
        encoded(schema_for(items), CallView { procedure: items[i].name->0, args }) is Some,
        dispatched(
            schema_for(items),
            Some(bindings),
            encoded(schema_for(items), CallView { procedure: items[i].name->0, args })->0,
        ) == Some(CallView { procedure: items[i].name->0, args: bindings + args }),
{
    let schema = schema_for(items);
    let name = items[i].name->0;
    lemma_accepted(items);
    law_payload_aligned(items, i);
    assert(schema[i].procedure == name);
    assert forall|k: int| 0 <= k < i implies !#[trigger] stands_for(schema, name)(k) by {
        assert(schema[k].procedure != schema[i].procedure);
    }
    lemma_least_found(stands_for(schema, name), schema.len() as int, i);
    let tag = schema[i].variant;
    assert forall|k: int| 0 <= k < i implies !#[trigger] tagged(schema, tag)(k) by {
        assert(schema[k].variant != schema[i].variant);
    }
    lemma_least_found(tagged(schema, tag), schema.len() as int, i);
}

/// Where the procedures of an accepted input have no binding parameter,
/// encoding a call and dispatching the result without a list of bindings
/// makes that same call.
pub proof fn law_round_trip<V>(items: Seq<ItemShape>, i: int, args: Seq<V>)
    requires
        accepted(items),
        0 <= i < items.len(),
        args.len() == schema_for(items)[i].payload_types.len(),
        binding_count(items[0]) == 0,
    ensures
        encoded(schema_for(items), CallView { procedure: items[i].name->0, args }) is Some,
        dispatched(
            schema_for(items),
            None,
            encoded(schema_for(items), CallView { procedure: items[i].name->0, args })->0,
        ) == Some(CallView { procedure: items[i].name->0, args }),
{
    law_round_trip_with_bindings(items, i, Seq::<V>::empty(), args);
    assert(Seq::<V>::empty() + args =~= args);
}

/// Where the procedures of an accepted input have binding parameters,
/// dispatching without a list of bindings makes no call of any value.
pub proof fn law_bindings_are_required<V>(items: Seq<ItemShape>, value: UnionValueView<V>)
    requires
        accepted(items),
        items.len() > 0,
        binding_count(items[0]) > 0,
    ensures
        dispatched(schema_for(items), None, value) is None,
{
    let schema = schema_for(items);
    lemma_accepted(items);
    lemma_least_result(tagged(schema, value.variant), schema.len() as int);
    match least(tagged(schema, value.variant), schema.len() as int) {
        Some(i) => {
            law_payload_aligned(items, i);
        },
        None => {},
    }
}

/// Each variant and each arm of the templates depends on its own procedure
/// alone: where the items are put in another order, the variants and the
/// arms come in that order. `from[i]` is the position that item `i` of
/// `moved` had in `items`.
pub proof fn law_order_preserved(items: Seq<ItemShape>, moved: Seq<ItemShape>, from: Seq<int>)
    requires
        moved.len() == from.len(),
        forall|i: int|
            0 <= i < moved.len() ==> 0 <= #[trigger] from[i] < items.len() && moved[i]
                == items[from[i]],
    ensures
        schema_of(declarations(moved)).len() == moved.len(),
        forall|i: int|
            0 <= i < moved.len() ==> #[trigger] schema_of(declarations(moved))[i] == schema_of(
                declarations(items),
            )[from[i]],
        forall|i: int, piece: Piece|
            0 <= i < moved.len() ==> #[trigger] piece_text(
                piece,
                schema_of(declarations(moved))[i],
            ) == piece_text(piece, schema_of(declarations(items))[from[i]]),
{
    assert forall|i: int| 0 <= i < moved.len() implies #[trigger] schema_of(
        declarations(moved),
    )[i] == schema_of(declarations(items))[from[i]] by {
        let j = from[i];
        assert(declarations(moved)[i].params == declarations(items)[j].params);
        assert(declarations(moved)[i].name == declarations(items)[j].name);
    }
}

/// Whether an input is accepted does not depend on the order of its items:
/// where accepted items are permuted, they are accepted again, and the
/// variants of the schema are permuted as the items are. `from[i]` is the
/// position that item `i` of `moved` had in `items`.
pub proof fn law_permuted_input_is_accepted(
    items: Seq<ItemShape>,
    moved: Seq<ItemShape>,
    from: Seq<int>,
)
    requires
        accepted(items),
        moved.len() == from.len(),
        forall|i: int|
            0 <= i < moved.len() ==> 0 <= #[trigger] from[i] < items.len() && moved[i]
                == items[from[i]],
        forall|i: int, j: int| 0 <= i < j < from.len() ==> from[i] != from[j],
    ensures
        accepted(moved),
        schema_for(moved).len() == moved.len(),
        forall|i: int|
            0 <= i < moved.len() ==> #[trigger] schema_for(moved)[i] == schema_for(items)[from[i]],
{
    lemma_accepted(items);
    let schema = schema_for(items);
    assert forall|i: int| 0 <= i < moved.len() implies item_fault(moved, i) is None by {
        let a = from[i];
        assert(item_fault(items, a) is None);
        assert(item_fault(items, from[0]) is None);
        assert(item_fault(items, 0) is None);
        assert forall|j: int| 0 <= j < i implies !#[trigger] namesake(moved, i)(j) by {
            let b = from[j];
            assert(item_fault(items, b) is None);
            if a < b {
                assert(declarations(items)[a].name != declarations(items)[b].name);
            } else {
                assert(declarations(items)[b].name != declarations(items)[a].name);
            }
        }
        lemma_least_absent(namesake(moved, i), i);
    }
    assert forall|i: int| 0 <= i < moved.len() implies !#[trigger] faulty(moved)(i) by {
        assert(item_fault(moved, i) is None);
    }
    lemma_least_absent(faulty(moved), moved.len() as int);
    let procedures = declarations(moved);
    assert forall|j: int| 0 <= j < procedures.len() implies !#[trigger] collides(procedures)(
        j,
    ) by {
        assert forall|i: int| 0 <= i < j implies !#[trigger] clash(procedures, j)(i) by {
            let a = from[i];
            let b = from[j];
            assert(item_fault(items, a) is None);
            assert(item_fault(items, b) is None);
            if a < b {
                assert(schema[a].variant != schema[b].variant);
            } else {
                assert(schema[b].variant != schema[a].variant);
            }
        }
        lemma_least_absent(clash(procedures, j), j);
    }
    lemma_least_absent(collides(procedures), procedures.len() as int);
    law_order_preserved(items, moved, from);
}

} // verus!
