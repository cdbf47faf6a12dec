//! The generator: from the source text of the annotated procedures to the
//! text that takes their place.

use crate::emit::{
    assemble, dispatch_text, emit_dispatch, emit_encoder, emit_union, encoder_text, output_text,
    union_text, CapabilityMarkers,
};
use crate::model::{shapes, texts, ItemShape, RpcError, SourceItem};
use crate::schema::{build_schema, first_collision, schema_of, UnionSchema, VariantView};
use crate::syntax::{
    all_sanitized_syntax, definitions_of, file_items, item_shapes, parse_source, read_items,
    sanitized_definitions, ItemSyntax,
};
use crate::validate::{declarations, first_fault, validate};
use vstd::prelude::*;

verus! {

/// The schema of a list of items: the fault of the first faulty item, else
/// the first collision of variant names, else the schema of the procedures
/// that the items declare.
pub open spec fn checked_schema(items: Seq<ItemShape>) -> Result<Seq<VariantView>, RpcError> {
    match first_fault(items) {
        Some(e) => Err(e),
        None => match first_collision(declarations(items)) {
            Some(e) => Err(e),
            None => Ok(schema_of(declarations(items))),
        },
    }
}

/// The output for the given definitions and schema: the definitions, the
/// union, the dispatch template and the encoder template.
pub open spec fn rendered(
    definitions: Seq<Seq<char>>,
    schema: Seq<VariantView>,
    serializable: Seq<char>,
    deserializable: Seq<char>,
) -> Seq<char> {
    output_text(
        definitions,
        union_text(schema, serializable, deserializable),
        dispatch_text(schema),
        encoder_text(schema),
    )
}

/// What the generator makes of items and the texts of their sanitized
/// definitions: nothing but the error where the items are rejected.
pub open spec fn expanded(
    items: Seq<ItemShape>,
    definitions: Seq<Seq<char>>,
    serializable: Seq<char>,
    deserializable: Seq<char>,
) -> Result<Seq<char>, RpcError> {
    match checked_schema(items) {
        Err(e) => Err(e),
        Ok(schema) => Ok(rendered(definitions, schema, serializable, deserializable)),
    }
}

/// The result is what the generator makes of the items of a syntax tree:
/// the output for them, or the error that rejects them.
pub open spec fn made_of(
    r: Result<String, RpcError>,
    tree: Seq<ItemSyntax>,
    serializable: Seq<char>,
    deserializable: Seq<char>,
) -> bool {
    match r {
        Ok(text) => expanded(item_shapes(tree), definitions_of(tree), serializable, deserializable)
            == Ok::<Seq<char>, RpcError>(text@),
        Err(e) => expanded(item_shapes(tree), definitions_of(tree), serializable, deserializable)
            == Err::<Seq<char>, RpcError>(e),
    }
}

/// Validates the items and builds the schema of the union.
pub fn plan(items: &Vec<SourceItem>) -> (r: Result<UnionSchema, RpcError>)
    ensures
        match r {
            Ok(schema) => checked_schema(shapes(items@)) == Ok::<Seq<VariantView>, RpcError>(
                schema@,
            ),
            Err(e) => checked_schema(shapes(items@)) == Err::<Seq<VariantView>, RpcError>(e),
        },
{
    match validate(items) {
        Err(e) => Err(e),
        Ok(set) => build_schema(&set),
    }
}

/// Writes the output for the given definitions and schema.
pub fn render(definitions: &Vec<String>, schema: &UnionSchema, markers: &CapabilityMarkers) -> (r:
    String)
    ensures
        r@ == rendered(
            texts(definitions@),
            schema@,
            markers.serializable@,
            markers.deserializable@,
        ),
{
    let union_decl = emit_union(schema, markers);
    let dispatch = emit_dispatch(schema);
    let encoder = emit_encoder(schema);
    assemble(definitions, union_decl.as_str(), dispatch.as_str(), encoder.as_str())
}

/// Runs the generator on items that were read already and on the texts of
/// their sanitized definitions.
pub fn expand(items: &Vec<SourceItem>, definitions: &Vec<String>, markers: &CapabilityMarkers) -> (r:
    Result<String, RpcError>)
    ensures
        match r {
            Ok(text) => expanded(
                shapes(items@),
                texts(definitions@),
                markers.serializable@,
                markers.deserializable@,
            ) == Ok::<Seq<char>, RpcError>(text@),
            Err(e) => expanded(
                shapes(items@),
                texts(definitions@),
                markers.serializable@,
                markers.deserializable@,
            ) == Err::<Seq<char>, RpcError>(e),
        },
{
    match plan(items) {
        Err(e) => Err(e),
        Ok(schema) => Ok(render(definitions, &schema, markers)),
    }
}

/// Runs the generator on a syntax tree, with the given pair of markers on
/// the union. Nothing is written and the tree is not touched before all of
/// it is validated; where it is accepted, its items are sanitized in place.
pub fn generate_tree(file: &mut syn::File, markers: &CapabilityMarkers) -> (r: Result<
    String,
    RpcError,
>)
    ensures
        made_of(r, file_items(*old(file)), markers.serializable@, markers.deserializable@),
        r is Err ==> file_items(*final(file)) == file_items(*old(file)),
        r is Ok ==> file_items(*final(file)) == all_sanitized_syntax(file_items(*old(file))),
{
    let items = read_items(file);
    match plan(&items) {
        Err(e) => Err(e),
        Ok(schema) => {
            let definitions = sanitized_definitions(file);
            Ok(render(&definitions, &schema, markers))
        },
    }
}

/// Runs the generator on a source text, with the given pair of markers on
/// the union: `MalformedInput` where the parser gives no syntax tree, else
/// what the generator makes of the tree that it gives.
pub fn generate(input: &str, markers: &CapabilityMarkers) -> (r: Result<String, RpcError>)
    ensures
        r == Err::<String, RpcError>(RpcError::MalformedInput) || exists|tree: Seq<ItemSyntax>|
            #[trigger] made_of(r, tree, markers.serializable@, markers.deserializable@),
{
    match parse_source(input) {
        Err(_) => Err(RpcError::MalformedInput),
        Ok(file) => {
            let mut file = file;
            let ghost tree = file_items(file);
            let r = generate_tree(&mut file, markers);
            assert(made_of(r, tree, markers.serializable@, markers.deserializable@));
            r
        },
    }
}

/// Runs the generator on a source text: the sanitized procedure
/// definitions, the union `RpcArgs` with the markers `Serialize` and
/// `Deserialize`, and the templates `rpc_dispatch` and `rpc_encode`.
pub fn rpc_functions(input: &str) -> (r: Result<String, RpcError>)
    ensures
        r == Err::<String, RpcError>(RpcError::MalformedInput) || exists|tree: Seq<ItemSyntax>|
            #[trigger] made_of(r, tree, "Serialize"@, "Deserialize"@),
{
    generate(input, &CapabilityMarkers::serde())
}

} // verus!
