//! The schema builder: the variants of the union and the parameter name
//! lists that the templates use.

use crate::model::{
    has_role, parameter_names, parameter_types, parameter_views, procedure_views, texts, Parameter,
    ProcedureDecl, ProcedureSet, ProcedureView, Role, RpcError,
};
use crate::naming::{variant_name, variant_name_of};
use crate::search::{least, lemma_least_absent, lemma_least_found};
use vstd::prelude::*;

verus! {

/// One variant of the union, with what the templates need of its procedure.
#[derive(Debug, Clone, PartialEq, Eq)]
pub struct Variant {
    /// The tag of the variant.
    pub variant: String,
    /// The name of the procedure that the variant stands for.
    pub procedure: String,
    /// The types of the payload parameters, in source order.
    pub payload_types: Vec<String>,
    /// The names of the payload parameters, in source order.
    pub payload_names: Vec<String>,
    /// The names of the binding parameters, in source order.
    pub binding_names: Vec<String>,
}

/// The mathematical form of a [`Variant`].
pub struct VariantView {
    pub variant: Seq<char>,
    pub procedure: Seq<char>,
    pub payload_types: Seq<Seq<char>>,
    pub payload_names: Seq<Seq<char>>,
    pub binding_names: Seq<Seq<char>>,
}

impl View for Variant {
    type V = VariantView;

    open spec fn view(&self) -> VariantView {
        VariantView {
            variant: self.variant@,
            procedure: self.procedure@,
            payload_types: texts(self.payload_types@),
            payload_names: texts(self.payload_names@),
            binding_names: texts(self.binding_names@),
        }
    }
}

/// The schema of the union: its variants in the order of the procedures.
#[derive(Debug, Clone, PartialEq, Eq)]
pub struct UnionSchema {
    pub variants: Vec<Variant>,
}

impl View for UnionSchema {
    type V = Seq<VariantView>;

    open spec fn view(&self) -> Seq<VariantView> {
        self.variants@.map_values(|v: Variant| v@)
    }
}

/// The variant of a procedure.
pub open spec fn variant_of(p: ProcedureView) -> VariantView {
    VariantView {
        variant: variant_name_of(p.name),
        procedure: p.name,
        payload_types: parameter_types(p.payload()),
        payload_names: parameter_names(p.payload()),
        binding_names: parameter_names(p.bindings()),
    }
}

/// The schema of a list of procedures: one variant for each, in order.
pub open spec fn schema_of(procedures: Seq<ProcedureView>) -> Seq<VariantView> {
    procedures.map_values(|p: ProcedureView| variant_of(p))
}

/// The test for a procedure with the variant name of procedure `j`.
pub open spec fn clash(procedures: Seq<ProcedureView>, j: int) -> spec_fn(int) -> bool {
    |i: int| variant_name_of(procedures[i].name) == variant_name_of(procedures[j].name)
}

/// The test for a procedure whose variant name an earlier one has too.
pub open spec fn collides(procedures: Seq<ProcedureView>) -> spec_fn(int) -> bool {
    |j: int| least(clash(procedures, j), j) is Some
}

/// The first collision of variant names: the first procedure whose variant
/// name an earlier one has, with the first such earlier one.
pub open spec fn first_collision(procedures: Seq<ProcedureView>) -> Option<RpcError> {
    match least(collides(procedures), procedures.len() as int) {
        Some(j) => Some(
            RpcError::VariantNameCollision {
                first: procedures[least(clash(procedures, j), j)->0].origin as usize,
                second: procedures[j].origin as usize,
            },
        ),
        None => None,
    }
}

/// No two variants of the list share a tag.
pub open spec fn variants_distinct(schema: Seq<VariantView>) -> bool {
    forall|i: int, j: int|
        0 <= i < j < schema.len() ==> (#[trigger] schema[i]).variant != (
        #[trigger] schema[j]).variant
}

/// No two variants of the list stand for the same procedure.
pub open spec fn procedures_distinct(schema: Seq<VariantView>) -> bool {
    forall|i: int, j: int|
        0 <= i < j < schema.len() ==> (#[trigger] schema[i]).procedure != (
        #[trigger] schema[j]).procedure
}

/// The names of the parameters that have the given role, in source order.
pub fn names_with_role(params: &Vec<Parameter>, role: Role) -> (r: Vec<String>)
    ensures
        texts(r@) == parameter_names(parameter_views(params@).filter(has_role(role))),
{
    let ghost views = parameter_views(params@);
    let mut out: Vec<String> = Vec::new();
    let mut k: usize = 0;
    proof {
        assert(views.take(0) =~= Seq::empty());
        reveal(Seq::filter);
    }
    while k < params.len()
        invariant
            k <= params.len(),
            views == parameter_views(params@),
            texts(out@) =~= parameter_names(views.take(k as int).filter(has_role(role))),
        decreases params.len() - k,
    {
        proof {
            assert(views.take(k as int + 1) =~= views.take(k as int).push(views[k as int]));
            views.take(k as int).lemma_filter_push(views[k as int], has_role(role));
        }
        if params[k].role == role {
            let ghost before = out@;
            out.push(params[k].name.clone());
            assert(texts(out@) =~= texts(before).push(views[k as int].name));
        }
        k += 1;
    }
    proof {
        assert(views.take(k as int) =~= views);
    }
    out
}

/// The types of the parameters that have the given role, in source order.
pub fn types_with_role(params: &Vec<Parameter>, role: Role) -> (r: Vec<String>)
    ensures
        texts(r@) == parameter_types(parameter_views(params@).filter(has_role(role))),
{
    let ghost views = parameter_views(params@);
    let mut out: Vec<String> = Vec::new();
    let mut k: usize = 0;
    proof {
        assert(views.take(0) =~= Seq::empty());
        reveal(Seq::filter);
    }
    while k < params.len()
        invariant
            k <= params.len(),
            views == parameter_views(params@),
            texts(out@) =~= parameter_types(views.take(k as int).filter(has_role(role))),
        decreases params.len() - k,
    {
        proof {
            assert(views.take(k as int + 1) =~= views.take(k as int).push(views[k as int]));
            views.take(k as int).lemma_filter_push(views[k as int], has_role(role));
        }
        if params[k].role == role {
            let ghost before = out@;
            out.push(params[k].ty.clone());
            assert(texts(out@) =~= texts(before).push(views[k as int].ty));
        }
        k += 1;
    }
    proof {
        assert(views.take(k as int) =~= views);
    }
    out
}

/// The variant of one procedure.
pub fn build_variant(procedure: &ProcedureDecl) -> (r: Variant)
    ensures
        r@ == variant_of(procedure@),
{
    Variant {
        variant: variant_name(procedure.name.as_str()),
        procedure: procedure.name.clone(),
        payload_types: types_with_role(&procedure.params, Role::Payload),
        payload_names: names_with_role(&procedure.params, Role::Payload),
        binding_names: names_with_role(&procedure.params, Role::Binding),
    }
}

/// Finds the first variant with the given tag.
pub fn find_variant(variants: &Vec<Variant>, tag: &String) -> (r: Option<usize>)
    ensures
        match r {
            Some(i) => {
                &&& i < variants.len()
                &&& variants[i as int].variant@ == tag@
                &&& forall|k: int| 0 <= k < i ==> variants[k].variant@ != tag@
            },
            None => forall|k: int| 0 <= k < variants.len() ==> variants[k].variant@ != tag@,
        },
{
    let mut i: usize = 0;
    while i < variants.len()
        invariant
            i <= variants.len(),
            forall|k: int| 0 <= k < i ==> variants[k].variant@ != tag@,
        decreases variants.len() - i,
    {
        if variants[i].variant == *tag {
            return Some(i);
        }
        i += 1;
    }
    None
}

/// Builds the schema of a procedure set, or reports the first collision of
/// variant names.
pub fn build_schema(set: &ProcedureSet) -> (r: Result<UnionSchema, RpcError>)
    ensures
        match r {
            Ok(schema) => first_collision(set@) is None && schema@ == schema_of(set@),
            Err(e) => first_collision(set@) == Some(e),
        },
{
    let procedures = set.procedures();
    let ghost ps = set@;
    let mut variants: Vec<Variant> = Vec::new();
    let mut j: usize = 0;
    while j < procedures.len()
        invariant
            j <= procedures.len(),
            ps == set@,
            ps == procedure_views(procedures@),
            variants@.len() == j,
            forall|k: int| 0 <= k < j ==> !#[trigger] collides(ps)(k),
            forall|k: int| 0 <= k < j ==> (#[trigger] variants[k])@ == variant_of(ps[k]),
        decreases procedures.len() - j,
    {
        let variant = build_variant(&procedures[j]);
        assert(ps[j as int] == procedures[j as int]@);
        assert forall|k: int| 0 <= k < j implies (variants[k].variant@ == variant.variant@)
            == #[trigger] clash(ps, j as int)(k) by {
            assert(variants[k]@ == variant_of(ps[k]));
        }
        match find_variant(&variants, &variant.variant) {
            Some(i) => {
                proof {
                    assert(clash(ps, j as int)(i as int));
                    lemma_least_found(clash(ps, j as int), j as int, i as int);
                    assert(collides(ps)(j as int));
                    lemma_least_found(collides(ps), ps.len() as int, j as int);
                    assert(ps[i as int] == procedures[i as int]@);
                    assert(ps[j as int] == procedures[j as int]@);
                }
                return Err(
                    RpcError::VariantNameCollision {
                        first: procedures[i].origin,
                        second: procedures[j].origin,
                    },
                );
            },
            None => {
                proof {
                    lemma_least_absent(clash(ps, j as int), j as int);
                }
                variants.push(variant);
            },
        }
        j += 1;
    }
    proof {
        lemma_least_absent(collides(ps), ps.len() as int);
    }
    let schema = UnionSchema { variants };
    assert(schema@ =~= schema_of(ps));
    Ok(schema)
}

} // verus!
