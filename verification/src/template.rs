//! What the two templates mean: which union value the encoder template makes
//! of a call, and which call the dispatch template makes of a union value.

use crate::model::texts;
use crate::schema::{UnionSchema, VariantView};
use crate::search::{least, lemma_least_found};
use vstd::prelude::*;

verus! {

/// A call of a procedure, its arguments written as expressions.
#[derive(Debug, Clone, PartialEq, Eq)]
pub struct Call {
    pub procedure: String,
    pub args: Vec<String>,
}

/// A call of a procedure with arguments of any kind.
pub struct CallView<V> {
    pub procedure: Seq<char>,
    pub args: Seq<V>,
}

impl View for Call {
    type V = CallView<Seq<char>>;

    open spec fn view(&self) -> CallView<Seq<char>> {
        CallView { procedure: self.procedure@, args: texts(self.args@) }
    }
}

/// A value of the union, its payload written as expressions.
#[derive(Debug, Clone, PartialEq, Eq)]
pub struct UnionValue {
    pub variant: String,
    pub payload: Vec<String>,
}

/// A value of the union with a payload of any kind.
pub struct UnionValueView<V> {
    pub variant: Seq<char>,
    pub payload: Seq<V>,
}

impl View for UnionValue {
    type V = UnionValueView<Seq<char>>;

    open spec fn view(&self) -> UnionValueView<Seq<char>> {
        UnionValueView { variant: self.variant@, payload: texts(self.payload@) }
    }
}

/// The test for the variant that stands for the procedure `name`.
pub open spec fn stands_for(schema: Seq<VariantView>, name: Seq<char>) -> spec_fn(int) -> bool {
    |i: int| schema[i].procedure == name
}

/// The test for the variant with the tag `tag`.
pub open spec fn tagged(schema: Seq<VariantView>, tag: Seq<char>) -> spec_fn(int) -> bool {
    |i: int| schema[i].variant == tag
}

/// What the encoder template makes of a call: the first rule with the
/// name of the procedure takes it and builds that rule's variant around the
/// arguments. Where no rule has the name, or the variant has another number
/// of payload fields, the call is rejected when the output is compiled.
pub open spec fn encoded<V>(schema: Seq<VariantView>, call: CallView<V>) -> Option<
    UnionValueView<V>,
> {
    match least(stands_for(schema, call.procedure), schema.len() as int) {
        Some(i) => if call.args.len() == schema[i].payload_types.len() {
            Some(UnionValueView { variant: schema[i].variant, payload: call.args })
        } else {
            None
        },
        None => None,
    }
}

/// What the dispatch template makes of a union value: the first arm with
/// the tag of the value takes its payload apart and calls the procedure of
/// that arm, with the bindings before the payload. Without a list of
/// bindings the call has the payload alone, which is rejected when the
/// output is compiled unless the procedure has no binding parameter; so is a
/// list of bindings of another length than the procedure's.
pub open spec fn dispatched<V>(
    schema: Seq<VariantView>,
    bindings: Option<Seq<V>>,
    value: UnionValueView<V>,
) -> Option<CallView<V>> {
    match least(tagged(schema, value.variant), schema.len() as int) {
        Some(i) => {
            let given = match bindings {
                Some(list) => list,
                None => Seq::empty(),
            };
            if value.payload.len() == schema[i].payload_names.len() && given.len()
                == schema[i].binding_names.len() {
                Some(CallView { procedure: schema[i].procedure, args: given + value.payload })
            } else {
                None
            }
        },
        None => None,
    }
}

/// Finds the first variant that stands for the procedure `name`.
pub fn find_rule(schema: &UnionSchema, name: &String) -> (r: Option<usize>)
    ensures
        match r {
            Some(i) => i < schema@.len() && least(
                stands_for(schema@, name@),
                schema@.len() as int,
            ) == Some(i as int),
            None => least(stands_for(schema@, name@), schema@.len() as int) is None,
        },
{
    let mut i: usize = 0;
    while i < schema.variants.len()
        invariant
            i <= schema.variants.len(),
            forall|k: int| 0 <= k < i ==> !#[trigger] stands_for(schema@, name@)(k),
        decreases schema.variants.len() - i,
    {
        assert(schema@[i as int] == schema.variants[i as int]@);
        if schema.variants[i].procedure == *name {
            proof {
                lemma_least_found(stands_for(schema@, name@), schema@.len() as int, i as int);
            }
            return Some(i);
        }
        i += 1;
    }
    None
}

/// Finds the first variant with the tag `tag`.
pub fn find_arm(schema: &UnionSchema, tag: &String) -> (r: Option<usize>)
    ensures
        match r {
            Some(i) => i < schema@.len() && least(tagged(schema@, tag@), schema@.len() as int)
                == Some(i as int),
            None => least(tagged(schema@, tag@), schema@.len() as int) is None,
        },
{
    let mut i: usize = 0;
    while i < schema.variants.len()
        invariant
            i <= schema.variants.len(),
            forall|k: int| 0 <= k < i ==> !#[trigger] tagged(schema@, tag@)(k),
        decreases schema.variants.len() - i,
    {
        assert(schema@[i as int] == schema.variants[i as int]@);
        if schema.variants[i].variant == *tag {
            proof {
                lemma_least_found(tagged(schema@, tag@), schema@.len() as int, i as int);
            }
            return Some(i);
        }
        i += 1;
    }
    None
}

/// Copies a list of strings.
pub fn copy_texts(list: &Vec<String>) -> (r: Vec<String>)
    ensures
        texts(r@) == texts(list@),
{
    let mut out: Vec<String> = Vec::new();
    let mut k: usize = 0;
    while k < list.len()
        invariant
            k <= list.len(),
            out@.len() == k,
            forall|j: int| 0 <= j < k ==> (#[trigger] out@[j])@ == list@[j]@,
        decreases list.len() - k,
    {
        out.push(list[k].clone());
        k += 1;
    }
    assert(texts(out@) =~= texts(list@));
    out
}

/// Makes the union value that the encoder template makes of the call;
/// `None` where the output would not compile with it.
pub fn encode(schema: &UnionSchema, call: &Call) -> (r: Option<UnionValue>)
    ensures
        match r {
            Some(value) => encoded(schema@, call@) == Some(value@),
            None => encoded(schema@, call@) is None,
        },
{
    match find_rule(schema, &call.procedure) {
        None => None,
        Some(i) => {
            let rule = &schema.variants[i];
            assert(schema@[i as int] == rule@);
            if call.args.len() == rule.payload_types.len() {
                Some(UnionValue { variant: rule.variant.clone(), payload: copy_texts(&call.args) })
            } else {
                None
            }
        },
    }
}

/// Makes the call that the dispatch template makes of the union value, with
/// the list of bindings if one is given; `None` where the output would not
/// compile with it.
pub fn dispatch(schema: &UnionSchema, bindings: Option<&Vec<String>>, value: &UnionValue) -> (r:
    Option<Call>)
    ensures
        match r {
            Some(call) => dispatched(
                schema@,
                match bindings {
                    Some(list) => Some(texts(list@)),
                    None => None,
                },
                value@,
            ) == Some(call@),
            None => dispatched(
                schema@,
                match bindings {
                    Some(list) => Some(texts(list@)),
                    None => None,
                },
                value@,
            ) is None,
        },
{
    match find_arm(schema, &value.variant) {
        None => None,
        Some(i) => {
            let arm = &schema.variants[i];
            assert(schema@[i as int] == arm@);
            let mut args: Vec<String> = match bindings {
                Some(list) => copy_texts(list),
                None => Vec::new(),
            };
            if value.payload.len() == arm.payload_names.len() && args.len()
                == arm.binding_names.len() {
                let ghost given = texts(args@);
                let mut k: usize = 0;
                while k < value.payload.len()
                    invariant
                        k <= value.payload.len(),
                        texts(args@) =~= given + texts(value.payload@).take(k as int),
                    decreases value.payload.len() - k,
                {
                    let ghost before = args@;
                    args.push(value.payload[k].clone());
                    assert(texts(args@) =~= texts(before).push(value.payload[k as int]@));
                    k += 1;
                }
                assert(texts(value.payload@).take(k as int) =~= texts(value.payload@));
                Some(Call { procedure: arm.procedure.clone(), args })
            } else {
                None
            }
        },
    }
}

} // verus!
