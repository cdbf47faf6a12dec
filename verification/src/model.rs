//! The data the generator works on: the items as they were read, the errors,
//! and the validated procedure set.

use vstd::prelude::*;

verus! {

/// The view of an optional string.
pub open spec fn opt_text(s: Option<String>) -> Option<Seq<char>> {
    match s {
        Some(t) => Some(t@),
        None => None,
    }
}

/// The views of a list of strings.
pub open spec fn texts(v: Seq<String>) -> Seq<Seq<char>> {
    v.map_values(|s: String| s@)
}

/// The views of a list of optional strings.
pub open spec fn opt_texts(v: Seq<Option<String>>) -> Seq<Option<Seq<char>>> {
    v.map_values(|s: Option<String>| opt_text(s))
}

/// One parameter of an item as it was read.
#[derive(Debug, Clone, PartialEq, Eq)]
pub struct SourceParam {
    /// One entry per attribute of the parameter, in source order: the last
    /// path segment of an attribute that is a bare path, `None` for any other
    /// attribute.
    pub markers: Vec<Option<String>>,
    /// The name of a parameter of the form `name: Type`; `None` for a
    /// receiver and for a pattern that is more than an identifier.
    pub name: Option<String>,
    /// The declared type, as uninterpreted text.
    pub ty: String,
}

/// The mathematical form of a [`SourceParam`].
pub struct ParamShape {
    pub markers: Seq<Option<Seq<char>>>,
    pub name: Option<Seq<char>>,
    pub ty: Seq<char>,
}

impl View for SourceParam {
    type V = ParamShape;

    open spec fn view(&self) -> ParamShape {
        ParamShape {
            markers: opt_texts(self.markers@),
            name: opt_text(self.name),
            ty: self.ty@,
        }
    }
}

/// One top-level item as it was read.
#[derive(Debug, Clone, PartialEq, Eq)]
pub struct SourceItem {
    /// The identifier of a procedure definition; `None` for any other item.
    pub name: Option<String>,
    /// One entry per attribute of the item, as in [`SourceParam::markers`].
    pub markers: Vec<Option<String>>,
    /// The parameters in source order.
    pub params: Vec<SourceParam>,
}

/// The mathematical form of a [`SourceItem`].
pub struct ItemShape {
    pub name: Option<Seq<char>>,
    pub markers: Seq<Option<Seq<char>>>,
    pub params: Seq<ParamShape>,
}

impl View for SourceItem {
    type V = ItemShape;

    open spec fn view(&self) -> ItemShape {
        ItemShape {
            name: opt_text(self.name),
            markers: opt_texts(self.markers@),
            params: self.params@.map_values(|p: SourceParam| p@),
        }
    }
}

/// The mathematical forms of a list of items.
pub open spec fn shapes(items: Seq<SourceItem>) -> Seq<ItemShape> {
    items.map_values(|item: SourceItem| item@)
}

/// Why an input was rejected. Items and parameters are named by their
/// position in the input, counted from zero.
#[derive(Debug, Clone, Copy, PartialEq, Eq, Structural)]
pub enum RpcError {
    /// The input is no sequence of items.
    MalformedInput,
    /// The item is no procedure definition.
    NonProcedureItem { item: usize },
    /// The procedure lacks the `rpc` marker.
    MissingRpcMarker { item: usize },
    /// The parameter is a receiver, or its pattern is more than an
    /// identifier.
    UnsupportedParameterForm { item: usize, param: usize },
    /// The procedure has another number of binding parameters than the
    /// first procedure.
    BindingArityMismatch { item: usize },
    /// The procedure `second` has the name of the earlier procedure `first`.
    DuplicateProcedure { first: usize, second: usize },
    /// The procedure `second` has the variant name of the earlier
    /// procedure `first`.
    VariantNameCollision { first: usize, second: usize },
}

/// What a parameter is for.
#[derive(Debug, Clone, Copy, PartialEq, Eq, Structural)]
pub enum Role {
    /// A serializable argument, carried inside the union.
    Payload,
    /// Context that the caller supplies when dispatching.
    Binding,
}

/// A parameter of a validated procedure.
#[derive(Debug, Clone, PartialEq, Eq)]
pub struct Parameter {
    pub name: String,
    pub ty: String,
    pub role: Role,
}

/// The mathematical form of a [`Parameter`].
pub struct ParameterView {
    pub name: Seq<char>,
    pub ty: Seq<char>,
    pub role: Role,
}

impl View for Parameter {
    type V = ParameterView;

    open spec fn view(&self) -> ParameterView {
        ParameterView { name: self.name@, ty: self.ty@, role: self.role }
    }
}

/// A validated procedure declaration.
#[derive(Debug, Clone, PartialEq, Eq)]
pub struct ProcedureDecl {
    pub name: String,
    /// The parameters in source order.
    pub params: Vec<Parameter>,
    /// The position of the definition in the input.
    pub origin: usize,
}

/// The mathematical form of a [`ProcedureDecl`].
pub struct ProcedureView {
    pub name: Seq<char>,
    pub params: Seq<ParameterView>,
    pub origin: nat,
}

/// The mathematical forms of a list of parameters.
pub open spec fn parameter_views(params: Seq<Parameter>) -> Seq<ParameterView> {
    params.map_values(|p: Parameter| p@)
}

impl View for ProcedureDecl {
    type V = ProcedureView;

    open spec fn view(&self) -> ProcedureView {
        ProcedureView {
            name: self.name@,
            params: parameter_views(self.params@),
            origin: self.origin as nat,
        }
    }
}

/// The mathematical forms of a list of procedures.
pub open spec fn procedure_views(procedures: Seq<ProcedureDecl>) -> Seq<ProcedureView> {
    procedures.map_values(|p: ProcedureDecl| p@)
}

/// The test for a parameter's role.
pub open spec fn has_role(role: Role) -> spec_fn(ParameterView) -> bool {
    |p: ParameterView| p.role == role
}

impl ProcedureView {
    /// The parameters with the given role, in source order.
    pub open spec fn with_role(self, role: Role) -> Seq<ParameterView> {
        self.params.filter(has_role(role))
    }

    /// The payload parameters, in source order.
    pub open spec fn payload(self) -> Seq<ParameterView> {
        self.with_role(Role::Payload)
    }

    /// The binding parameters, in source order.
    pub open spec fn bindings(self) -> Seq<ParameterView> {
        self.with_role(Role::Binding)
    }
}

/// The names of a list of parameters.
pub open spec fn parameter_names(params: Seq<ParameterView>) -> Seq<Seq<char>> {
    params.map_values(|p: ParameterView| p.name)
}

/// The types of a list of parameters.
pub open spec fn parameter_types(params: Seq<ParameterView>) -> Seq<Seq<char>> {
    params.map_values(|p: ParameterView| p.ty)
}

/// No two procedures of the list share a name.
pub open spec fn names_distinct(procedures: Seq<ProcedureView>) -> bool {
    forall|i: int, j: int|
        0 <= i < j < procedures.len() ==> (#[trigger] procedures[i]).name != (
        #[trigger] procedures[j]).name
}

/// Every procedure of the list has as many binding parameters as the first.
pub open spec fn bindings_uniform(procedures: Seq<ProcedureView>) -> bool {
    forall|i: int|
        0 <= i < procedures.len() ==> (#[trigger] procedures[i]).bindings().len()
            == procedures[0].bindings().len()
}

/// What holds of every procedure set: the names are unique and all
/// procedures have the same number of binding parameters.
pub open spec fn set_valid(procedures: Seq<ProcedureView>) -> bool {
    names_distinct(procedures) && bindings_uniform(procedures)
}

/// The number of binding parameters that the procedures of a list share;
/// zero for the empty list.
pub open spec fn shared_binding_count(procedures: Seq<ProcedureView>) -> nat {
    if procedures.len() == 0 {
        0
    } else {
        procedures[0].bindings().len()
    }
}

/// An ordered set of validated procedures. Their names are unique and they
/// all have the same number of binding parameters.
#[derive(Debug)]
pub struct ProcedureSet {
    procedures: Vec<ProcedureDecl>,
}

impl View for ProcedureSet {
    type V = Seq<ProcedureView>;

    closed spec fn view(&self) -> Seq<ProcedureView> {
        procedure_views(self.procedures@)
    }
}

impl ProcedureSet {
    #[verifier::type_invariant]
    spec fn valid(self) -> bool {
        set_valid(procedure_views(self.procedures@))
    }

    /// Makes a set of procedures that are known to form one.
    pub(crate) fn from_valid(procedures: Vec<ProcedureDecl>) -> (set: ProcedureSet)
        requires
            set_valid(procedure_views(procedures@)),
        ensures
            set@ == procedure_views(procedures@),
    {
        ProcedureSet { procedures }
    }

    /// The procedures in source order.
    pub fn procedures(&self) -> (r: &Vec<ProcedureDecl>)
        ensures
            procedure_views(r@) == self@,
            set_valid(self@),
    {
        proof {
            use_type_invariant(self);
        }
        &self.procedures
    }

    /// The number of procedures.
    pub fn len(&self) -> (n: usize)
        ensures
            n == self@.len(),
    {
        self.procedures.len()
    }

    /// The number of binding parameters that every procedure of the set has.
    pub fn binding_count(&self) -> (n: usize)
        ensures
            n == shared_binding_count(self@),
    {
        if self.procedures.len() == 0 {
            0
        } else {
            count_role(&self.procedures[0].params, Role::Binding)
        }
    }
}

/// Counts the parameters that have the given role.
pub fn count_role(params: &Vec<Parameter>, role: Role) -> (n: usize)
    ensures
        n == parameter_views(params@).filter(has_role(role)).len(),
{
    let ghost views = parameter_views(params@);
    let mut n: usize = 0;
    let mut k: usize = 0;
    proof {
        assert(views.take(0) =~= Seq::empty());
        reveal(Seq::filter);
    }
    while k < params.len()
        invariant
            k <= params.len(),
            views == parameter_views(params@),
            n <= k,
            n == views.take(k as int).filter(has_role(role)).len(),
        decreases params.len() - k,
    {
        proof {
            assert(views.take(k as int + 1) =~= views.take(k as int).push(views[k as int]));
            views.take(k as int).lemma_filter_push(views[k as int], has_role(role));
        }
        if params[k].role == role {
            n += 1;
        }
        k += 1;
    }
    proof {
        assert(views.take(k as int) =~= views);
    }
    n
}

} // verus!
