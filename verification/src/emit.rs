//! The emitter: the text of the union, of the two templates, and of the
//! whole output.

use crate::model::texts;
use crate::schema::{UnionSchema, Variant, VariantView};
use vstd::prelude::*;

verus! {

/// The pair of serialization markers that the union is decorated with.
#[derive(Debug, Clone, PartialEq, Eq)]
pub struct CapabilityMarkers {
    /// The marker of a type that can be serialized.
    pub serializable: String,
    /// The marker of a type that can be deserialized.
    pub deserializable: String,
}

impl CapabilityMarkers {
    /// The pair `Serialize`, `Deserialize`.
    pub fn serde() -> (r: CapabilityMarkers)
        ensures
            r.serializable@ == "Serialize"@,
            r.deserializable@ == "Deserialize"@,
    {
        CapabilityMarkers {
            serializable: String::from_str("Serialize"),
            deserializable: String::from_str("Deserialize"),
        }
    }
}

/// The parts in order, with `sep` between each two.
pub open spec fn joined(parts: Seq<Seq<char>>, sep: Seq<char>) -> Seq<char>
    decreases parts.len(),
{
    if parts.len() == 0 {
        Seq::empty()
    } else if parts.len() == 1 {
        parts[0]
    } else {
        joined(parts.drop_last(), sep) + sep + parts.last()
    }
}

/// A list in round brackets, its parts separated by commas.
pub open spec fn tuple_text(parts: Seq<Seq<char>>) -> Seq<char> {
    "("@ + joined(parts, ", "@) + ")"@
}

/// The pieces of the output that are made once for each variant.
#[derive(Debug, Clone, Copy, PartialEq, Eq, Structural)]
pub enum Piece {
    /// The declaration of the variant inside the union.
    Declaration,
    /// The arm of the dispatch template that takes no bindings.
    DirectArm,
    /// The arm of the dispatch template that takes the bindings first.
    BoundArm,
    /// The arm of the encoder template.
    EncoderArm,
}

/// The text of one piece for one variant.
pub open spec fn piece_text(piece: Piece, v: VariantView) -> Seq<char> {
    match piece {
        Piece::Declaration => "    "@ + v.variant + tuple_text(v.payload_types) + ",\n"@,
        Piece::DirectArm => "            RpcArgs::"@ + v.variant + tuple_text(v.payload_names)
            + " => "@ + v.procedure + tuple_text(v.payload_names) + ",\n"@,
        Piece::BoundArm => "            RpcArgs::"@ + v.variant + tuple_text(v.payload_names)
            + " => "@ + v.procedure + "($($bindings,)* "@ + joined(v.payload_names, ", "@)
            + "),\n"@,
        Piece::EncoderArm => "    ("@ + v.procedure + "($($args:expr),*)) => {\n        RpcArgs::"@
            + v.variant + "($($args),*)\n    };\n"@,
    }
}

/// The texts of one piece for every variant, in order.
pub open spec fn pieces_text(piece: Piece, schema: Seq<VariantView>) -> Seq<char>
    decreases schema.len(),
{
    if schema.len() == 0 {
        Seq::empty()
    } else {
        pieces_text(piece, schema.drop_last()) + piece_text(piece, schema.last())
    }
}

/// The declaration of the union `RpcArgs`: one variant for each entry of
/// the schema, in order, each wrapping the tuple of its payload types.
pub open spec fn union_text(
    schema: Seq<VariantView>,
    serializable: Seq<char>,
    deserializable: Seq<char>,
) -> Seq<char> {
    "#[derive("@ + serializable + ", "@ + deserializable + ")]\npub enum RpcArgs {\n"@
        + pieces_text(Piece::Declaration, schema) + "}\n"@
}

/// The dispatch template `rpc_dispatch`, with one rule that takes the
/// arguments alone and one that takes a list of bindings before them.
pub open spec fn dispatch_text(schema: Seq<VariantView>) -> Seq<char> {
    "#[macro_export]\nmacro_rules! rpc_dispatch {\n    ($args:expr) => {\n        match $args {\n"@
        + pieces_text(Piece::DirectArm, schema)
        + "        }\n    };\n    ([$($bindings:expr),*] $args:expr) => {\n        match $args {\n"@
        + pieces_text(Piece::BoundArm, schema) + "        }\n    };\n}\n"@
}

/// The encoder template `rpc_encode`, with one rule for each procedure.
pub open spec fn encoder_text(schema: Seq<VariantView>) -> Seq<char> {
    "#[macro_export]\nmacro_rules! rpc_encode {\n"@ + pieces_text(Piece::EncoderArm, schema)
        + "}\n"@
}

/// The definitions in order, each on a line of its own.
pub open spec fn definitions_text(definitions: Seq<Seq<char>>) -> Seq<char>
    decreases definitions.len(),
{
    if definitions.len() == 0 {
        Seq::empty()
    } else {
        definitions_text(definitions.drop_last()) + definitions.last() + "\n"@
    }
}

/// The whole output: the definitions, the union, the dispatch template, the
/// encoder template, in this order and nothing else.
pub open spec fn output_text(
    definitions: Seq<Seq<char>>,
    union_decl: Seq<char>,
    dispatch: Seq<char>,
    encoder: Seq<char>,
) -> Seq<char> {
    definitions_text(definitions) + union_decl + dispatch + encoder
}

/// Joins the parts with `sep` between each two.
pub fn join(parts: &Vec<String>, sep: &str) -> (r: String)
    ensures
        r@ == joined(texts(parts@), sep@),
{
    let ghost ts = texts(parts@);
    let mut out = String::new();
    let mut k: usize = 0;
    while k < parts.len()
        invariant
            k <= parts.len(),
            ts == texts(parts@),
            out@ == joined(ts.take(k as int), sep@),
        decreases parts.len() - k,
    {
        proof {
            assert(ts.take(k as int + 1).drop_last() =~= ts.take(k as int));
            assert(ts.take(k as int + 1).last() == parts[k as int]@);
        }
        if k > 0 {
            out.append(sep);
        }
        out.append(parts[k].as_str());
        proof {
            if k == 0 {
                assert(out@ =~= parts[k as int]@);
            }
        }
        k += 1;
    }
    proof {
        assert(ts.take(k as int) =~= ts);
    }
    out
}

/// Writes a list in round brackets, its parts separated by commas.
pub fn tuple(parts: &Vec<String>) -> (r: String)
    ensures
        r@ == tuple_text(texts(parts@)),
{
    let mut out = String::from_str("(");
    let inner = join(parts, ", ");
    out.append(inner.as_str());
    out.append(")");
    out
}

/// Writes one piece for one variant.
pub fn emit_piece(piece: Piece, v: &Variant) -> (r: String)
    ensures
        r@ == piece_text(piece, v@),
{
    match piece {
        Piece::Declaration => {
            let mut out = String::from_str("    ");
            out.append(v.variant.as_str());
            out.append(tuple(&v.payload_types).as_str());
            out.append(",\n");
            out
        },
        Piece::DirectArm => {
            let names = tuple(&v.payload_names);
            let mut out = String::from_str("            RpcArgs::");
            out.append(v.variant.as_str());
            out.append(names.as_str());
            out.append(" => ");
            out.append(v.procedure.as_str());
            out.append(names.as_str());
            out.append(",\n");
            out
        },
        Piece::BoundArm => {
            let mut out = String::from_str("            RpcArgs::");
            out.append(v.variant.as_str());
            out.append(tuple(&v.payload_names).as_str());
            out.append(" => ");
            out.append(v.procedure.as_str());
            out.append("($($bindings,)* ");
            out.append(join(&v.payload_names, ", ").as_str());
            out.append("),\n");
            out
        },
        Piece::EncoderArm => {
            let mut out = String::from_str("    (");
            out.append(v.procedure.as_str());
            out.append("($($args:expr),*)) => {\n        RpcArgs::");
            out.append(v.variant.as_str());
            out.append("($($args),*)\n    };\n");
            out
        },
    }
}

/// Writes one piece for every variant of the schema, in order.
pub fn emit_pieces(piece: Piece, schema: &UnionSchema) -> (r: String)
    ensures
        r@ == pieces_text(piece, schema@),
{
    let ghost vs = schema@;
    let mut out = String::new();
    let mut k: usize = 0;
    while k < schema.variants.len()
        invariant
            k <= schema.variants.len(),
            vs == schema@,
            out@ == pieces_text(piece, vs.take(k as int)),
        decreases schema.variants.len() - k,
    {
        proof {
            assert(vs.take(k as int + 1).drop_last() =~= vs.take(k as int));
            assert(vs.take(k as int + 1).last() == schema.variants[k as int]@);
        }
        out.append(emit_piece(piece, &schema.variants[k]).as_str());
        k += 1;
    }
    proof {
        assert(vs.take(k as int) =~= vs);
    }
    out
}

/// Writes the declaration of the union.
pub fn emit_union(schema: &UnionSchema, markers: &CapabilityMarkers) -> (r: String)
    ensures
        r@ == union_text(schema@, markers.serializable@, markers.deserializable@),
{
    let mut out = String::from_str("#[derive(");
    out.append(markers.serializable.as_str());
    out.append(", ");
    out.append(markers.deserializable.as_str());
    out.append(")]\npub enum RpcArgs {\n");
    out.append(emit_pieces(Piece::Declaration, schema).as_str());
    out.append("}\n");
    out
}

/// Writes the dispatch template.
pub fn emit_dispatch(schema: &UnionSchema) -> (r: String)
    ensures
        r@ == dispatch_text(schema@),
{
    let mut out = String::from_str(
        "#[macro_export]\nmacro_rules! rpc_dispatch {\n    ($args:expr) => {\n        match $args {\n",
    );
    out.append(emit_pieces(Piece::DirectArm, schema).as_str());
    out.append(
        "        }\n    };\n    ([$($bindings:expr),*] $args:expr) => {\n        match $args {\n",
    );
    out.append(emit_pieces(Piece::BoundArm, schema).as_str());
    out.append("        }\n    };\n}\n");
    out
}

/// Writes the encoder template.
pub fn emit_encoder(schema: &UnionSchema) -> (r: String)
    ensures
        r@ == encoder_text(schema@),
{
    let mut out = String::from_str("#[macro_export]\nmacro_rules! rpc_encode {\n");
    out.append(emit_pieces(Piece::EncoderArm, schema).as_str());
    out.append("}\n");
    out
}

/// Puts the output together: the definitions in order, then the union, the
/// dispatch template and the encoder template.
pub fn assemble(definitions: &Vec<String>, union_decl: &str, dispatch: &str, encoder: &str) -> (r:
    String)
    ensures
        r@ == output_text(texts(definitions@), union_decl@, dispatch@, encoder@),
{
    let ghost ds = texts(definitions@);
    let mut out = String::new();
    let mut k: usize = 0;
    while k < definitions.len()
        invariant
            k <= definitions.len(),
            ds == texts(definitions@),
            out@ == definitions_text(ds.take(k as int)),
        decreases definitions.len() - k,
    {
        proof {
            assert(ds.take(k as int + 1).drop_last() =~= ds.take(k as int));
            assert(ds.take(k as int + 1).last() == definitions[k as int]@);
        }
        out.append(definitions[k].as_str());
        out.append("\n");
        k += 1;
    }
    proof {
        assert(ds.take(k as int) =~= ds);
    }
    out.append(union_decl);
    out.append(dispatch);
    out.append(encoder);
    out
}

} // verus!
