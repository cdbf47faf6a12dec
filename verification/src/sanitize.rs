//! Sanitizing: taking the generator's markers off a definition.

use crate::generate::checked_schema;
use crate::laws::{accepted, lemma_accepted};
use crate::model::{
    opt_text, opt_texts, shapes, ItemShape, ParamShape, RpcError, SourceItem, SourceParam,
};
use crate::search::lemma_least_found;
use crate::syntax::{
    all_sanitized_syntax, definitions_of, item_shape, markers_of, param_shape,
    sanitized_param_syntax, sanitized_syntax, without_marker, AttrSyntax, ItemSyntax,
};
use crate::validate::{binding_word, faulty, has_marker, item_fault, rpc_word};
use vstd::prelude::*;

verus! {

/// The test for an attribute marker that is not the marker named `word`.
pub open spec fn unmarked(word: Seq<char>) -> spec_fn(Option<Seq<char>>) -> bool {
    |m: Option<Seq<char>>| m != Some(word)
}

/// The parameter without its binding markers.
pub open spec fn sanitized_param(p: ParamShape) -> ParamShape {
    ParamShape { markers: p.markers.filter(unmarked(binding_word())), ..p }
}

/// The sanitized copy of an item: the item without its `rpc` markers and
/// without the binding markers of its parameters. Every other attribute
/// stays, in its order, and so do the name and the parameters.
pub open spec fn sanitized(item: ItemShape) -> ItemShape {
    ItemShape {
        markers: item.markers.filter(unmarked(rpc_word())),
        params: item.params.map_values(|p: ParamShape| sanitized_param(p)),
        ..item
    }
}

/// The sanitized copies of a list of items.
pub open spec fn all_sanitized(items: Seq<ItemShape>) -> Seq<ItemShape> {
    items.map_values(|item: ItemShape| sanitized(item))
}

/// Copies the attribute markers that are not the marker named `word`.
pub fn strip_marker_word(markers: &Vec<Option<String>>, word: &str) -> (r: Vec<Option<String>>)
    ensures
        opt_texts(r@) == opt_texts(markers@).filter(unmarked(word@)),
{
    let ghost ms = opt_texts(markers@);
    let w = String::from_str(word);
    let mut out: Vec<Option<String>> = Vec::new();
    let mut k: usize = 0;
    proof {
        assert(ms.take(0) =~= Seq::empty());
        reveal(Seq::filter);
    }
    while k < markers.len()
        invariant
            k <= markers.len(),
            w@ == word@,
            ms == opt_texts(markers@),
            opt_texts(out@) =~= ms.take(k as int).filter(unmarked(word@)),
        decreases markers.len() - k,
    {
        proof {
            assert(ms.take(k as int + 1) =~= ms.take(k as int).push(ms[k as int]));
            ms.take(k as int).lemma_filter_push(ms[k as int], unmarked(word@));
        }
        let ghost before = out@;
        match &markers[k] {
            Some(name) => {
                if !(*name == w) {
                    out.push(Some(name.clone()));
                    assert(opt_texts(out@) =~= opt_texts(before).push(ms[k as int]));
                }
            },
            None => {
                out.push(None);
                assert(opt_texts(out@) =~= opt_texts(before).push(ms[k as int]));
            },
        }
        k += 1;
    }
    proof {
        assert(ms.take(k as int) =~= ms);
    }
    out
}

/// Copies an optional string.
pub fn copy_opt_text(s: &Option<String>) -> (r: Option<String>)
    ensures
        opt_text(r) == opt_text(*s),
{
    match s {
        Some(t) => Some(t.clone()),
        None => None,
    }
}

/// Makes the sanitized copy of a parameter.
pub fn sanitize_param(p: &SourceParam) -> (r: SourceParam)
    ensures
        r@ == sanitized_param(p@),
{
    SourceParam {
        markers: strip_marker_word(&p.markers, "rpc_binding"),
        name: copy_opt_text(&p.name),
        ty: p.ty.clone(),
    }
}

/// Makes the sanitized copy of an item.
pub fn sanitize(item: &SourceItem) -> (r: SourceItem)
    ensures
        r@ == sanitized(item@),
{
    let mut params: Vec<SourceParam> = Vec::new();
    let mut p: usize = 0;
    while p < item.params.len()
        invariant
            p <= item.params.len(),
            params@.len() == p,
            forall|q: int| 0 <= q < p ==> (#[trigger] params@[q])@ == sanitized_param(
                item.params@[q]@,
            ),
        decreases item.params.len() - p,
    {
        params.push(sanitize_param(&item.params[p]));
        p += 1;
    }
    let r = SourceItem {
        name: copy_opt_text(&item.name),
        markers: strip_marker_word(&item.markers, "rpc"),
        params,
    };
    assert(r@.params =~= sanitized(item@).params);
    r
}

/// Makes the sanitized copies of the items, in order.
pub fn sanitize_all(items: &Vec<SourceItem>) -> (r: Vec<SourceItem>)
    ensures
        shapes(r@) == all_sanitized(shapes(items@)),
{
    let mut out: Vec<SourceItem> = Vec::new();
    let mut i: usize = 0;
    while i < items.len()
        invariant
            i <= items.len(),
            out@.len() == i,
            forall|k: int| 0 <= k < i ==> (#[trigger] out@[k])@ == sanitized(items@[k]@),
        decreases items.len() - i,
    {
        out.push(sanitize(&items[i]));
        i += 1;
    }
    assert(shapes(out@) =~= all_sanitized(shapes(items@)));
    out
}

/// Filtering a second time by the same test changes nothing.
pub proof fn lemma_filter_twice<A>(s: Seq<A>, keep: spec_fn(A) -> bool)
    ensures
        s.filter(keep).filter(keep) == s.filter(keep),
    decreases s.len(),
{
    reveal(Seq::filter);
    if s.len() > 0 {
        lemma_filter_twice(s.drop_last(), keep);
        if keep(s.last()) {
            s.drop_last().filter(keep).lemma_filter_push(s.last(), keep);
        }
    }
}

/// Nothing that passed the filter fails its test.
pub proof fn lemma_filtered_all_pass<A>(s: Seq<A>, keep: spec_fn(A) -> bool, k: int)
    requires
        0 <= k < s.filter(keep).len(),
    ensures
        keep(s.filter(keep)[k]),
    decreases s.len(),
{
    reveal(Seq::filter);
    if s.len() > 0 {
        if k < s.drop_last().filter(keep).len() {
            lemma_filtered_all_pass(s.drop_last(), keep, k);
        }
    }
}

/// The markers of the attributes that stay are the markers that stay.
pub proof fn lemma_markers_of_filtered(attrs: Seq<AttrSyntax>, word: Seq<char>)
    ensures
        markers_of(attrs.filter(without_marker(word))) == markers_of(attrs).filter(unmarked(word)),
    decreases attrs.len(),
{
    reveal(Seq::filter);
    if attrs.len() == 0 {
        assert(markers_of(attrs.filter(without_marker(word))) =~= markers_of(attrs).filter(
            unmarked(word),
        ));
    } else {
        let front = attrs.drop_last();
        lemma_markers_of_filtered(front, word);
        assert(markers_of(attrs).drop_last() =~= markers_of(front));
        assert(markers_of(attrs).last() == attrs.last().marker);
        assert(markers_of(attrs.filter(without_marker(word))) =~= markers_of(attrs).filter(
            unmarked(word),
        ));
    }
}

/// Sanitizing is idempotent: the sanitized copy of a sanitized copy is that
/// copy.
pub proof fn law_sanitize_idempotent(item: ItemShape)
    ensures
        sanitized(sanitized(item)) == sanitized(item),
{
    lemma_filter_twice(item.markers, unmarked(rpc_word()));
    assert forall|p: int| 0 <= p < item.params.len() implies sanitized_param(
        sanitized_param(#[trigger] item.params[p]),
    ) == sanitized_param(item.params[p]) by {
        lemma_filter_twice(item.params[p].markers, unmarked(binding_word()));
    }
    assert(sanitized(sanitized(item)).params =~= sanitized(item).params);
}

/// A sanitized copy carries neither marker, and has the name, the
/// parameter names and the types of the item it was made from.
pub proof fn law_sanitized_carries_no_marker(item: ItemShape)
    ensures
        !has_marker(sanitized(item).markers, rpc_word()),
        sanitized(item).name == item.name,
        sanitized(item).params.len() == item.params.len(),
        forall|p: int|
            0 <= p < item.params.len() ==> {
                &&& !has_marker((#[trigger] sanitized(item).params[p]).markers, binding_word())
                &&& sanitized(item).params[p].name == item.params[p].name
                &&& sanitized(item).params[p].ty == item.params[p].ty
            },
{
    let kept = item.markers.filter(unmarked(rpc_word()));
    assert forall|k: int| 0 <= k < kept.len() implies kept[k] != Some(rpc_word()) by {
        lemma_filtered_all_pass(item.markers, unmarked(rpc_word()), k);
    }
    assert forall|p: int| 0 <= p < item.params.len() implies !has_marker(
        (#[trigger] sanitized(item).params[p]).markers,
        binding_word(),
    ) by {
        let markers = item.params[p].markers;
        let stay = markers.filter(unmarked(binding_word()));
        assert forall|k: int| 0 <= k < stay.len() implies stay[k] != Some(binding_word()) by {
            lemma_filtered_all_pass(markers, unmarked(binding_word()), k);
        }
    }
}

/// What the generator reads of the sanitized copy of a syntax tree's item
/// is the sanitized copy of what it reads of the item.
pub proof fn law_sanitized_syntax_is_sanitized(item: ItemSyntax)
    ensures
        item_shape(sanitized_syntax(item)) == sanitized(item_shape(item)),
{
    lemma_markers_of_filtered(item.attrs, rpc_word());
    assert forall|p: int| 0 <= p < item.params.len() implies param_shape(
        sanitized_param_syntax(#[trigger] item.params[p]),
    ) == sanitized_param(param_shape(item.params[p])) by {
        lemma_markers_of_filtered(item.params[p].attrs, binding_word());
    }
    assert(item_shape(sanitized_syntax(item)).params =~= sanitized(item_shape(item)).params);
}

/// The definitions that the generator writes for sanitized items are those
/// that it writes for the items themselves.
pub proof fn law_definitions_of_sanitized(items: Seq<ItemSyntax>)
    ensures
        definitions_of(all_sanitized_syntax(items)) == definitions_of(items),
{
    assert forall|i: int| 0 <= i < items.len() implies sanitized_syntax(
        sanitized_syntax(#[trigger] items[i]),
    ) == sanitized_syntax(items[i]) by {
        let item = items[i];
        lemma_filter_twice(item.attrs, without_marker(rpc_word()));
        assert forall|p: int| 0 <= p < item.params.len() implies sanitized_param_syntax(
            sanitized_param_syntax(#[trigger] item.params[p]),
        ) == sanitized_param_syntax(item.params[p]) by {
            lemma_filter_twice(item.params[p].attrs, without_marker(binding_word()));
        }
        assert(sanitized_syntax(sanitized_syntax(item)).params =~= sanitized_syntax(item).params);
    }
    assert(definitions_of(all_sanitized_syntax(items)) =~= definitions_of(items));
}

/// The generator takes no sanitized input: where accepted items are
/// sanitized, the first of them lacks its `rpc` marker.
pub proof fn law_sanitized_input_is_rejected(items: Seq<ItemShape>)
    requires
        accepted(items),
        items.len() > 0,
    ensures
        checked_schema(all_sanitized(items)) == Err::<Seq<crate::schema::VariantView>, RpcError>(
            RpcError::MissingRpcMarker { item: 0 },
        ),
{
    let clean = all_sanitized(items);
    lemma_accepted(items);
    assert(item_fault(items, 0) is None);
    law_sanitized_carries_no_marker(items[0]);
    assert(item_fault(clean, 0) == Some(RpcError::MissingRpcMarker { item: 0 }));
    assert(faulty(clean)(0));
    lemma_least_found(faulty(clean), clean.len() as int, 0);
}

} // verus!
