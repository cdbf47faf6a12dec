//! The syntax tree of the input, which the `syn` crate parses, holds and
//! prints. Nothing in this file but the loops is proved: each function
//! without a proof says in its comment what is believed of `syn`.

use crate::model::{
    opt_text, opt_texts, shapes, texts, ItemShape, ParamShape, RpcError, SourceItem, SourceParam,
};
use crate::validate::{binding_word, rpc_word};
use quote::ToTokens;
use vstd::prelude::*;

verus! {

/// The syntax tree of a whole input, `syn::File`.
#[verifier::external_type_specification]
#[verifier::external_body]
pub struct ExFile(syn::File);

/// The error of `syn`'s parser, `syn::Error`.
#[verifier::external_type_specification]
#[verifier::external_body]
pub struct ExParseError(syn::Error);

/// What a syntax tree holds of one attribute.
pub struct AttrSyntax {
    /// The last path segment of an attribute that is a bare path, as
    /// `#[rpc]` or `#[some::rpc]`; `None` for any other attribute.
    pub marker: Option<Seq<char>>,
    /// The tokens of the attribute.
    pub text: Seq<char>,
}

/// What a syntax tree holds of one parameter of a function.
pub struct ParamSyntax {
    /// The attributes in source order.
    pub attrs: Seq<AttrSyntax>,
    /// The identifier that an identifier pattern binds, as `x` in `x`,
    /// `mut x` and `x @ Some(_)`; `None` for a receiver and for any other
    /// pattern.
    pub binding: Option<Seq<char>>,
    /// The tokens of the pattern; of a receiver, the word `self`.
    pub pattern: Seq<char>,
    /// The tokens of the type.
    pub ty: Seq<char>,
}

/// What a syntax tree holds of one top-level item. An item that is no
/// function definition has no name, and its attributes and parameters are
/// not told apart from the rest of it.
pub struct ItemSyntax {
    /// The identifier of a function definition; `None` for any other item.
    pub name: Option<Seq<char>>,
    /// The attributes of a function definition in source order.
    pub attrs: Seq<AttrSyntax>,
    /// The parameters of a function definition in source order.
    pub params: Seq<ParamSyntax>,
    /// The tokens of all the rest, in source order: of a function
    /// definition the visibility, the qualifiers, the generics, what a
    /// receiver holds besides its `self` and its type, the return type, the
    /// where clause and the body.
    pub rest: Seq<char>,
}

/// The top-level items that a syntax tree holds, in source order, each
/// read as its name, its attributes, its parameters and the rest of its
/// tokens, as this process prints tokens.
pub uninterp spec fn file_items(file: syn::File) -> Seq<ItemSyntax>;

/// The attribute markers of a list of attributes.
pub open spec fn markers_of(attrs: Seq<AttrSyntax>) -> Seq<Option<Seq<char>>> {
    attrs.map_values(|a: AttrSyntax| a.marker)
}

/// The name of a parameter of the form `name: Type`: the identifier of a
/// pattern that is that identifier and nothing else.
pub open spec fn bare_name(p: ParamSyntax) -> Option<Seq<char>> {
    if p.binding == Some(p.pattern) {
        p.binding
    } else {
        None
    }
}

/// What the generator reads of a parameter.
pub open spec fn param_shape(p: ParamSyntax) -> ParamShape {
    ParamShape { markers: markers_of(p.attrs), name: bare_name(p), ty: p.ty }
}

/// What the generator reads of an item.
pub open spec fn item_shape(item: ItemSyntax) -> ItemShape {
    ItemShape {
        name: item.name,
        markers: markers_of(item.attrs),
        params: item.params.map_values(|p: ParamSyntax| param_shape(p)),
    }
}

/// What the generator reads of a list of items.
pub open spec fn item_shapes(items: Seq<ItemSyntax>) -> Seq<ItemShape> {
    items.map_values(|item: ItemSyntax| item_shape(item))
}

/// The text that `syn` prints for an item, as this process prints tokens.
pub uninterp spec fn printed(item: ItemSyntax) -> Seq<char>;

/// The test for an attribute that is not the marker named `word`.
pub open spec fn without_marker(word: Seq<char>) -> spec_fn(AttrSyntax) -> bool {
    |a: AttrSyntax| a.marker != Some(word)
}

/// The item without its attribute at position `attr`.
pub open spec fn without_attr(item: ItemSyntax, attr: int) -> ItemSyntax {
    ItemSyntax { attrs: item.attrs.remove(attr), ..item }
}

/// The item without the attribute at position `attr` of its parameter at
/// position `param`.
pub open spec fn without_param_attr(item: ItemSyntax, param: int, attr: int) -> ItemSyntax {
    ItemSyntax {
        params: item.params.update(
            param,
            ParamSyntax { attrs: item.params[param].attrs.remove(attr), ..item.params[param] },
        ),
        ..item
    }
}

/// The parameter without its binding markers.
pub open spec fn sanitized_param_syntax(p: ParamSyntax) -> ParamSyntax {
    ParamSyntax { attrs: p.attrs.filter(without_marker(binding_word())), ..p }
}

/// The sanitized copy of an item: the item without its `rpc` markers and
/// without the binding markers of its parameters, and otherwise unchanged.
pub open spec fn sanitized_syntax(item: ItemSyntax) -> ItemSyntax {
    ItemSyntax {
        attrs: item.attrs.filter(without_marker(rpc_word())),
        params: item.params.map_values(|p: ParamSyntax| sanitized_param_syntax(p)),
        ..item
    }
}

/// The sanitized definitions of a list of items, as `syn` prints them.
pub open spec fn definitions_of(items: Seq<ItemSyntax>) -> Seq<Seq<char>> {
    items.map_values(|item: ItemSyntax| printed(sanitized_syntax(item)))
}

/// `syn::parse_str` for `syn::File`: parses the text as a sequence of items
/// or fails. Nothing is said of the result: which texts parse, and into
/// what, depends on more than the text, since inside a macro expansion the
/// compiler's lexer is at work and elsewhere that of `proc_macro2`.
#[verifier::external_body]
pub(crate) fn parse_source(src: &str) -> (r: Result<syn::File, syn::Error>) {
    syn::parse_str::<syn::File>(src)
}

/// The length of the field `items` of `syn::File`.
#[verifier::external_body]
fn item_count(file: &syn::File) -> (n: usize)
    ensures
        n == file_items(*file).len(),
{
    file.items.len()
}

/// The identifier in the signature of an item that is `syn::Item::Fn`,
/// as `Ident::to_string` of `proc_macro2` gives it; `None` for an item of
/// another kind.
#[verifier::external_body]
fn item_name(file: &syn::File, item: usize) -> (r: Option<String>)
    requires
        item < file_items(*file).len(),
    ensures
        opt_text(r) == file_items(*file)[item as int].name,
{
    match &file.items[item] {
        syn::Item::Fn(f) => Some(f.sig.ident.to_string()),
        _ => None,
    }
}

/// The length of the field `attrs` of `syn::ItemFn`; zero for an item of
/// another kind, of which the tree's view tells no attributes apart.
#[verifier::external_body]
fn attr_count(file: &syn::File, item: usize) -> (n: usize)
    requires
        item < file_items(*file).len(),
    ensures
        n == file_items(*file)[item as int].attrs.len(),
{
    match &file.items[item] {
        syn::Item::Fn(f) => f.attrs.len(),
        _ => 0,
    }
}

/// The field `meta` of one `syn::Attribute` of a function: for
/// `syn::Meta::Path` the identifier of the last segment of the path.
#[verifier::external_body]
fn attr_marker(file: &syn::File, item: usize, attr: usize) -> (r: Option<String>)
    requires
        item < file_items(*file).len(),
        attr < file_items(*file)[item as int].attrs.len(),
    ensures
        opt_text(r) == file_items(*file)[item as int].attrs[attr as int].marker,
{
    let syn::Item::Fn(f) = &file.items[item] else { return None };
    match &f.attrs[attr].meta {
        syn::Meta::Path(path) => match path.segments.last() {
            Some(segment) => Some(segment.ident.to_string()),
            None => None,
        },
        _ => None,
    }
}

/// The length of the field `inputs` of `syn::Signature`; zero for an item
/// that is no function definition.
#[verifier::external_body]
fn param_count(file: &syn::File, item: usize) -> (n: usize)
    requires
        item < file_items(*file).len(),
    ensures
        n == file_items(*file)[item as int].params.len(),
{
    match &file.items[item] {
        syn::Item::Fn(f) => f.sig.inputs.len(),
        _ => 0,
    }
}

/// The length of the field `attrs` of one `syn::FnArg` of a function.
#[verifier::external_body]
fn param_attr_count(file: &syn::File, item: usize, param: usize) -> (n: usize)
    requires
        item < file_items(*file).len(),
        param < file_items(*file)[item as int].params.len(),
    ensures
        n == file_items(*file)[item as int].params[param as int].attrs.len(),
{
    let syn::Item::Fn(f) = &file.items[item] else { return 0 };
    match &f.sig.inputs[param] {
        syn::FnArg::Typed(typed) => typed.attrs.len(),
        syn::FnArg::Receiver(receiver) => receiver.attrs.len(),
    }
}

/// The field `meta` of one `syn::Attribute` of a parameter, read as
/// `attr_marker` reads that of a function.
#[verifier::external_body]
fn param_attr_marker(file: &syn::File, item: usize, param: usize, attr: usize) -> (r: Option<
    String,
>)
    requires
        item < file_items(*file).len(),
        param < file_items(*file)[item as int].params.len(),
        attr < file_items(*file)[item as int].params[param as int].attrs.len(),
    ensures
        opt_text(r) == file_items(*file)[item as int].params[param as int].attrs[attr as int].marker,
{
    let syn::Item::Fn(f) = &file.items[item] else { return None };
    let attrs = match &f.sig.inputs[param] {
        syn::FnArg::Typed(typed) => &typed.attrs,
        syn::FnArg::Receiver(receiver) => &receiver.attrs,
    };
    match &attrs[attr].meta {
        syn::Meta::Path(path) => match path.segments.last() {
            Some(segment) => Some(segment.ident.to_string()),
            None => None,
        },
        _ => None,
    }
}

/// The tokens of the pattern of a parameter, printed by
/// `ToTokens::to_token_stream` of `quote` and `to_string`; of a receiver,
/// those of its `self`.
#[verifier::external_body]
fn param_pattern(file: &syn::File, item: usize, param: usize) -> (r: String)
    requires
        item < file_items(*file).len(),
        param < file_items(*file)[item as int].params.len(),
    ensures
        r@ == file_items(*file)[item as int].params[param as int].pattern,
{
    let syn::Item::Fn(f) = &file.items[item] else { return String::new() };
    match &f.sig.inputs[param] {
        syn::FnArg::Typed(typed) => typed.pat.to_token_stream().to_string(),
        syn::FnArg::Receiver(receiver) => receiver.self_token.to_token_stream().to_string(),
    }
}

/// The identifier of a parameter that is `syn::FnArg::Typed` with a
/// pattern that is `syn::Pat::Ident`, as `Ident::to_string` of
/// `proc_macro2` gives it; `None` for any other parameter.
#[verifier::external_body]
fn param_binding(file: &syn::File, item: usize, param: usize) -> (r: Option<String>)
    requires
        item < file_items(*file).len(),
        param < file_items(*file)[item as int].params.len(),
    ensures
        opt_text(r) == file_items(*file)[item as int].params[param as int].binding,
{
    let syn::Item::Fn(f) = &file.items[item] else { return None };
    match &f.sig.inputs[param] {
        syn::FnArg::Typed(typed) => match &*typed.pat {
            syn::Pat::Ident(binding) => Some(binding.ident.to_string()),
            _ => None,
        },
        syn::FnArg::Receiver(_) => None,
    }
}

/// The tokens of the field `ty` of a parameter, printed by
/// `ToTokens::to_token_stream` of `quote` and `to_string`.
#[verifier::external_body]
fn param_type(file: &syn::File, item: usize, param: usize) -> (r: String)
    requires
        item < file_items(*file).len(),
        param < file_items(*file)[item as int].params.len(),
    ensures
        r@ == file_items(*file)[item as int].params[param as int].ty,
{
    let syn::Item::Fn(f) = &file.items[item] else { return String::new() };
    match &f.sig.inputs[param] {
        syn::FnArg::Typed(typed) => typed.ty.to_token_stream().to_string(),
        syn::FnArg::Receiver(receiver) => receiver.ty.to_token_stream().to_string(),
    }
}

/// `Vec::remove` on the field `attrs` of a function: the attribute at the
/// position leaves, the others keep their order, and nothing else of the
/// tree changes.
#[verifier::external_body]
fn remove_attr(file: &mut syn::File, item: usize, attr: usize)
    requires
        item < file_items(*old(file)).len(),
        attr < file_items(*old(file))[item as int].attrs.len(),
    ensures
        file_items(*final(file)) == file_items(*old(file)).update(
            item as int,
            without_attr(file_items(*old(file))[item as int], attr as int),
        ),
{
    if let syn::Item::Fn(f) = &mut file.items[item] {
        f.attrs.remove(attr);
    }
}

/// `Vec::remove` on the field `attrs` of a parameter of a function, as
/// `remove_attr` on that of the function.
#[verifier::external_body]
fn remove_param_attr(file: &mut syn::File, item: usize, param: usize, attr: usize)
    requires
        item < file_items(*old(file)).len(),
        param < file_items(*old(file))[item as int].params.len(),
        attr < file_items(*old(file))[item as int].params[param as int].attrs.len(),
    ensures
        file_items(*final(file)) == file_items(*old(file)).update(
            item as int,
            without_param_attr(file_items(*old(file))[item as int], param as int, attr as int),
        ),
{
    if let syn::Item::Fn(f) = &mut file.items[item] {
        match &mut f.sig.inputs[param] {
            syn::FnArg::Typed(typed) => typed.attrs.remove(attr),
            syn::FnArg::Receiver(receiver) => receiver.attrs.remove(attr),
        };
    }
}

/// The tokens of an item, printed by `ToTokens::to_token_stream` of `quote`
/// and `to_string`. The text depends on what the item holds alone,
/// `printed` is its name.
#[verifier::external_body]
fn item_text(file: &syn::File, item: usize) -> (r: String)
    requires
        item < file_items(*file).len(),
    ensures
        r@ == printed(file_items(*file)[item as int]),
{
    file.items[item].to_token_stream().to_string()
}

/// Reads the markers of the attributes of a function.
fn read_markers(file: &syn::File, item: usize) -> (r: Vec<Option<String>>)
    requires
        item < file_items(*file).len(),
    ensures
        opt_texts(r@) == markers_of(file_items(*file)[item as int].attrs),
{
    let ghost attrs = file_items(*file)[item as int].attrs;
    let n = attr_count(file, item);
    let mut out: Vec<Option<String>> = Vec::new();
    let mut k: usize = 0;
    while k < n
        invariant
            k <= n,
            item < file_items(*file).len(),
            attrs == file_items(*file)[item as int].attrs,
            n == attrs.len(),
            out@.len() == k,
            forall|j: int| 0 <= j < k ==> opt_text(#[trigger] out@[j]) == attrs[j].marker,
        decreases n - k,
    {
        out.push(attr_marker(file, item, k));
        k += 1;
    }
    assert(opt_texts(out@) =~= markers_of(attrs));
    out
}

/// Reads the markers of the attributes of a parameter.
fn read_param_markers(file: &syn::File, item: usize, param: usize) -> (r: Vec<Option<String>>)
    requires
        item < file_items(*file).len(),
        param < file_items(*file)[item as int].params.len(),
    ensures
        opt_texts(r@) == markers_of(file_items(*file)[item as int].params[param as int].attrs),
{
    let ghost attrs = file_items(*file)[item as int].params[param as int].attrs;
    let n = param_attr_count(file, item, param);
    let mut out: Vec<Option<String>> = Vec::new();
    let mut k: usize = 0;
    while k < n
        invariant
            k <= n,
            item < file_items(*file).len(),
            param < file_items(*file)[item as int].params.len(),
            attrs == file_items(*file)[item as int].params[param as int].attrs,
            n == attrs.len(),
            out@.len() == k,
            forall|j: int| 0 <= j < k ==> opt_text(#[trigger] out@[j]) == attrs[j].marker,
        decreases n - k,
    {
        out.push(param_attr_marker(file, item, param, k));
        k += 1;
    }
    assert(opt_texts(out@) =~= markers_of(attrs));
    out
}

/// Reads the name of a parameter of the form `name: Type`.
fn read_param_name(file: &syn::File, item: usize, param: usize) -> (r: Option<String>)
    requires
        item < file_items(*file).len(),
        param < file_items(*file)[item as int].params.len(),
    ensures
        opt_text(r) == bare_name(file_items(*file)[item as int].params[param as int]),
{
    match param_binding(file, item, param) {
        Some(name) => {
            if name == param_pattern(file, item, param) {
                Some(name)
            } else {
                None
            }
        },
        None => None,
    }
}

/// Reads one item of a syntax tree.
fn read_item(file: &syn::File, item: usize) -> (r: SourceItem)
    requires
        item < file_items(*file).len(),
    ensures
        r@ == item_shape(file_items(*file)[item as int]),
{
    let ghost syntax = file_items(*file)[item as int];
    let n = param_count(file, item);
    let mut params: Vec<SourceParam> = Vec::new();
    let mut p: usize = 0;
    while p < n
        invariant
            p <= n,
            item < file_items(*file).len(),
            syntax == file_items(*file)[item as int],
            n == syntax.params.len(),
            params@.len() == p,
            forall|q: int| 0 <= q < p ==> (#[trigger] params@[q])@ == param_shape(syntax.params[q]),
        decreases n - p,
    {
        params.push(
            SourceParam {
                markers: read_param_markers(file, item, p),
                name: read_param_name(file, item, p),
                ty: param_type(file, item, p),
            },
        );
        p += 1;
    }
    let r = SourceItem {
        name: item_name(file, item),
        markers: read_markers(file, item),
        params,
    };
    assert(r@.params =~= item_shape(syntax).params);
    r
}

/// Reads the items of a syntax tree, in source order.
pub fn read_items(file: &syn::File) -> (r: Vec<SourceItem>)
    ensures
        shapes(r@) == item_shapes(file_items(*file)),
{
    let n = item_count(file);
    let mut out: Vec<SourceItem> = Vec::new();
    let mut i: usize = 0;
    while i < n
        invariant
            i <= n,
            n == file_items(*file).len(),
            out@.len() == i,
            forall|k: int| 0 <= k < i ==> (#[trigger] out@[k])@ == item_shape(file_items(*file)[k]),
        decreases n - i,
    {
        out.push(read_item(file, i));
        i += 1;
    }
    assert(shapes(out@) =~= item_shapes(file_items(*file)));
    out
}

/// Parses a source text and reads its items, in source order: what the
/// generator reads of some syntax tree, or `MalformedInput` where the parser
/// gives none.
pub fn parse_items(src: &str) -> (r: Result<Vec<SourceItem>, RpcError>)
    ensures
        match r {
            Ok(items) => exists|tree: Seq<ItemSyntax>| shapes(items@) == #[trigger] item_shapes(tree),
            Err(e) => e == RpcError::MalformedInput,
        },
{
    match parse_source(src) {
        Ok(file) => Ok(read_items(&file)),
        Err(_) => Err(RpcError::MalformedInput),
    }
}

/// Tells whether an attribute is the marker named `word`.
pub fn is_marker(marker: &Option<String>, word: &str) -> (r: bool)
    ensures
        r == (opt_text(*marker) == Some(word@)),
{
    match marker {
        Some(name) => *name == String::from_str(word),
        None => false,
    }
}

/// One step of stripping: where the first `j` attributes are stripped and
/// `k` of them were kept, the next one stands at position `k`; it stays
/// there if it is kept and is removed from there if it is not.
pub proof fn lemma_strip_step<A>(attrs: Seq<A>, keep: spec_fn(A) -> bool, j: int)
    requires
        0 <= j < attrs.len(),
    ensures
        ({
            let now = attrs.take(j).filter(keep) + attrs.skip(j);
            let next = attrs.take(j + 1).filter(keep) + attrs.skip(j + 1);
            let k = attrs.take(j).filter(keep).len() as int;
            &&& k <= j
            &&& k < now.len()
            &&& now[k] == attrs[j]
            &&& keep(attrs[j]) ==> next == now && attrs.take(j + 1).filter(keep).len() == k + 1
            &&& !keep(attrs[j]) ==> next == now.remove(k) && attrs.take(j + 1).filter(keep).len()
                == k
        }),
{
    let kept = attrs.take(j).filter(keep);
    attrs.take(j).lemma_filter_len(keep);
    assert(attrs.take(j + 1) =~= attrs.take(j).push(attrs[j]));
    attrs.take(j).lemma_filter_push(attrs[j], keep);
    let now = kept + attrs.skip(j);
    let next = attrs.take(j + 1).filter(keep) + attrs.skip(j + 1);
    if keep(attrs[j]) {
        assert(next =~= now);
    } else {
        assert(next =~= now.remove(kept.len() as int));
    }
}

/// Removes from a function every attribute that is the marker `word`.
fn strip_markers(file: &mut syn::File, item: usize, word: &str)
    requires
        item < file_items(*old(file)).len(),
    ensures
        file_items(*final(file)) == file_items(*old(file)).update(
            item as int,
            ItemSyntax {
                attrs: file_items(*old(file))[item as int].attrs.filter(without_marker(word@)),
                ..file_items(*old(file))[item as int]
            },
        ),
{
    let ghost orig = file_items(*file);
    let ghost attrs = orig[item as int].attrs;
    let ghost keep = without_marker(word@);
    let n = attr_count(file, item);
    let mut j: usize = 0;
    let mut k: usize = 0;
    proof {
        reveal(Seq::filter);
        assert(attrs.take(0) =~= Seq::empty());
        assert(attrs.take(0).filter(keep) + attrs.skip(0) =~= attrs);
        assert(orig.update(item as int, orig[item as int]) =~= orig);
    }
    while j < n
        invariant
            j <= n,
            k <= j,
            n == attrs.len(),
            item < orig.len(),
            attrs == orig[item as int].attrs,
            keep == without_marker(word@),
            k == attrs.take(j as int).filter(keep).len(),
            file_items(*file) == orig.update(
                item as int,
                ItemSyntax {
                    attrs: attrs.take(j as int).filter(keep) + attrs.skip(j as int),
                    ..orig[item as int]
                },
            ),
        decreases n - j,
    {
        proof {
            lemma_strip_step(attrs, keep, j as int);
        }
        let ghost before = file_items(*file);
        let marker = attr_marker(file, item, k);
        if is_marker(&marker, word) {
            remove_attr(file, item, k);
            assert(file_items(*file) =~= orig.update(
                item as int,
                without_attr(before[item as int], k as int),
            ));
        } else {
            k += 1;
        }
        j += 1;
    }
    proof {
        assert(attrs.take(n as int) =~= attrs);
        assert(attrs.filter(keep) + attrs.skip(n as int) =~= attrs.filter(keep));
    }
}

/// Removes from a parameter of a function every attribute that is the
/// marker `word`.
fn strip_param_markers(file: &mut syn::File, item: usize, param: usize, word: &str)
    requires
        item < file_items(*old(file)).len(),
        param < file_items(*old(file))[item as int].params.len(),
    ensures
        file_items(*final(file)) == file_items(*old(file)).update(
            item as int,
            ItemSyntax {
                params: file_items(*old(file))[item as int].params.update(
                    param as int,
                    ParamSyntax {
                        attrs: file_items(*old(file))[item as int].params[param as int].attrs.filter(
                            without_marker(word@),
                        ),
                        ..file_items(*old(file))[item as int].params[param as int]
                    },
                ),
                ..file_items(*old(file))[item as int]
            },
        ),
{
    let ghost orig = file_items(*file);
    let ghost whole = orig[item as int];
    let ghost one = whole.params[param as int];
    let ghost attrs = one.attrs;
    let ghost keep = without_marker(word@);
    let n = param_attr_count(file, item, param);
    let mut j: usize = 0;
    let mut k: usize = 0;
    proof {
        reveal(Seq::filter);
        assert(attrs.take(0) =~= Seq::empty());
        assert(attrs.take(0).filter(keep) + attrs.skip(0) =~= attrs);
        assert(whole.params.update(param as int, one) =~= whole.params);
        assert(orig.update(item as int, whole) =~= orig);
    }
    while j < n
        invariant
            j <= n,
            k <= j,
            n == attrs.len(),
            item < orig.len(),
            whole == orig[item as int],
            param < whole.params.len(),
            one == whole.params[param as int],
            attrs == one.attrs,
            keep == without_marker(word@),
            k == attrs.take(j as int).filter(keep).len(),
            file_items(*file) == orig.update(
                item as int,
                ItemSyntax {
                    params: whole.params.update(
                        param as int,
                        ParamSyntax {
                            attrs: attrs.take(j as int).filter(keep) + attrs.skip(j as int),
                            ..one
                        },
                    ),
                    ..whole
                },
            ),
        decreases n - j,
    {
        proof {
            lemma_strip_step(attrs, keep, j as int);
        }
        let ghost before = file_items(*file);
        let marker = param_attr_marker(file, item, param, k);
        if is_marker(&marker, word) {
            remove_param_attr(file, item, param, k);
            proof {
                let now = attrs.take(j as int).filter(keep) + attrs.skip(j as int);
                assert(without_param_attr(before[item as int], param as int, k as int).params
                    =~= whole.params.update(
                    param as int,
                    ParamSyntax { attrs: now.remove(k as int), ..one },
                ));
                assert(file_items(*file) =~= orig.update(
                    item as int,
                    without_param_attr(before[item as int], param as int, k as int),
                ));
            }
        } else {
            k += 1;
        }
        j += 1;
    }
    proof {
        assert(attrs.take(n as int) =~= attrs);
        assert(attrs.filter(keep) + attrs.skip(n as int) =~= attrs.filter(keep));
    }
}

/// Turns an item of the tree into its sanitized copy.
fn sanitize_item(file: &mut syn::File, item: usize)
    requires
        item < file_items(*old(file)).len(),
    ensures
        file_items(*final(file)) == file_items(*old(file)).update(
            item as int,
            sanitized_syntax(file_items(*old(file))[item as int]),
        ),
{
    let ghost orig = file_items(*file);
    let ghost whole = orig[item as int];
    strip_markers(file, item, "rpc");
    let ghost stripped = ItemSyntax { attrs: whole.attrs.filter(without_marker(rpc_word())), ..whole };
    let n = param_count(file, item);
    let mut p: usize = 0;
    proof {
        let params = Seq::new(
            whole.params.len(),
            |q: int|
                if q < 0 {
                    sanitized_param_syntax(whole.params[q])
                } else {
                    whole.params[q]
                },
        );
        assert(params =~= whole.params);
        assert(stripped == ItemSyntax { params, ..stripped });
    }
    while p < n
        invariant
            p <= n,
            n == whole.params.len(),
            item < orig.len(),
            whole == orig[item as int],
            stripped == (ItemSyntax {
                attrs: whole.attrs.filter(without_marker(rpc_word())),
                ..whole
            }),
            file_items(*file) == orig.update(
                item as int,
                ItemSyntax {
                    params: Seq::new(
                        whole.params.len(),
                        |q: int|
                            if q < p {
                                sanitized_param_syntax(whole.params[q])
                            } else {
                                whole.params[q]
                            },
                    ),
                    ..stripped
                },
            ),
        decreases n - p,
    {
        let ghost before = file_items(*file);
        strip_param_markers(file, item, p, "rpc_binding");
        proof {
            let params = Seq::new(
                whole.params.len(),
                |q: int|
                    if q < p + 1 {
                        sanitized_param_syntax(whole.params[q])
                    } else {
                        whole.params[q]
                    },
            );
            assert(before[item as int].params.update(
                p as int,
                sanitized_param_syntax(whole.params[p as int]),
            ) =~= params);
            assert(file_items(*file) =~= orig.update(
                item as int,
                ItemSyntax { params, ..stripped },
            ));
        }
        p += 1;
    }
    proof {
        assert(Seq::new(
            whole.params.len(),
            |q: int|
                if q < p {
                    sanitized_param_syntax(whole.params[q])
                } else {
                    whole.params[q]
                },
        ) =~= sanitized_syntax(whole).params);
    }
}

/// The sanitized copies of a list of items.
pub open spec fn all_sanitized_syntax(items: Seq<ItemSyntax>) -> Seq<ItemSyntax> {
    items.map_values(|item: ItemSyntax| sanitized_syntax(item))
}

/// Turns every item of the tree into its sanitized copy.
pub fn sanitize_tree(file: &mut syn::File)
    ensures
        file_items(*final(file)) == all_sanitized_syntax(file_items(*old(file))),
{
    let ghost orig = file_items(*file);
    let n = item_count(file);
    let mut i: usize = 0;
    while i < n
        invariant
            i <= n,
            n == orig.len(),
            file_items(*file).len() == n,
            forall|k: int| i <= k < n ==> file_items(*file)[k] == orig[k],
            forall|k: int| 0 <= k < i ==> file_items(*file)[k] == sanitized_syntax(orig[k]),
        decreases n - i,
    {
        sanitize_item(file, i);
        i += 1;
    }
    assert(file_items(*file) =~= all_sanitized_syntax(orig));
}

/// The texts that `syn` prints for a list of items.
pub open spec fn all_printed(items: Seq<ItemSyntax>) -> Seq<Seq<char>> {
    items.map_values(|item: ItemSyntax| printed(item))
}

/// Prints every item of the tree, in source order.
pub fn print_items(file: &syn::File) -> (r: Vec<String>)
    ensures
        texts(r@) == all_printed(file_items(*file)),
{
    let n = item_count(file);
    let mut out: Vec<String> = Vec::new();
    let mut i: usize = 0;
    while i < n
        invariant
            i <= n,
            n == file_items(*file).len(),
            out@.len() == i,
            forall|k: int| 0 <= k < i ==> (#[trigger] out@[k])@ == printed(file_items(*file)[k]),
        decreases n - i,
    {
        out.push(item_text(file, i));
        i += 1;
    }
    assert(texts(out@) =~= all_printed(file_items(*file)));
    out
}

/// Sanitizes every item of the tree and prints it: the sanitized
/// definitions in source order.
pub fn sanitized_definitions(file: &mut syn::File) -> (r: Vec<String>)
    ensures
        file_items(*final(file)) == all_sanitized_syntax(file_items(*old(file))),
        texts(r@) == definitions_of(file_items(*old(file))),
{
    let ghost orig = file_items(*file);
    sanitize_tree(file);
    let out = print_items(file);
    assert(all_printed(all_sanitized_syntax(orig)) =~= definitions_of(orig));
    out
}

} // verus!
