//! The items of a parsed Rust file as plain values (types, paths, `use`
//! trees, attributes, visibility), and the syntax events the source analysis
//! reads from them: compact type text, last path segments, derive names,
//! `#[param(...)]` tokens and `use` text.
use vstd::prelude::*;

use crate::ast::{FieldInput, SyntaxEvent};
use crate::text::{join, join_strings, lemma_strs_push, owned, push_str, strs};

verus! {

/// A type, as far as the analysis reads it.
#[derive(Debug)]
pub enum TypeTree {
    /// A path type: its segments.
    Path(Vec<PathSeg>),
    /// `&T` / `&mut T`.
    Reference(Box<TypeTree>),
    /// `(A, B)`.
    Tuple(Vec<TypeTree>),
    /// `[T; N]`.
    Array(Box<TypeTree>),
    /// `[T]`.
    Slice(Box<TypeTree>),
    /// Any other type.
    Other,
}

/// One path segment: its name and, for `<...>` arguments, each argument.
#[derive(Debug)]
pub struct PathSeg {
    pub ident: String,
    pub angle_args: Option<Vec<GenericArg>>,
}

/// One `<...>` argument: a type, or anything else (lifetime, const, …).
#[derive(Debug)]
pub enum GenericArg {
    Type(TypeTree),
    Other,
}

/// The compact text of a type: last path segment with its type arguments,
/// references, tuples, arrays and slices spelled out; `…` for the rest.
pub open spec fn compact(t: TypeTree) -> Seq<char>
    decreases t, 2nat,
{
    match t {
        TypeTree::Path(segs) => if segs@.len() == 0 {
            Seq::empty()
        } else {
            seg_text(segs@.last())
        },
        TypeTree::Reference(e) => "&"@ + compact(*e),
        TypeTree::Tuple(es) => "("@ + join(compact_list(es@), ", "@) + ")"@,
        TypeTree::Array(e) => "["@ + compact(*e) + "]"@,
        TypeTree::Slice(e) => "["@ + compact(*e) + "]"@,
        TypeTree::Other => "…"@,
    }
}

/// Compact texts of a list of types.
pub open spec fn compact_list(ts: Seq<TypeTree>) -> Seq<Seq<char>>
    decreases ts, 1nat,
{
    if ts.len() == 0 {
        Seq::empty()
    } else {
        compact_list(ts.drop_last()).push(compact(ts.last()))
    }
}

/// A segment's name, with `<a,b>` when it has type arguments.
pub open spec fn seg_text(s: PathSeg) -> Seq<char>
    decreases s, 1nat,
{
    let ts = match s.angle_args {
        Some(a) => type_args(a@),
        None => Seq::empty(),
    };
    s.ident@ + if ts.len() > 0 {
        "<"@ + join(ts, ","@) + ">"@
    } else {
        Seq::empty()
    }
}

/// Compact texts of the type arguments among `args`.
pub open spec fn type_args(args: Seq<GenericArg>) -> Seq<Seq<char>>
    decreases args, 0nat,
{
    if args.len() == 0 {
        Seq::empty()
    } else {
        type_args(args.drop_last()) + match args.last() {
            GenericArg::Type(t) => seq![compact(t)],
            GenericArg::Other => Seq::empty(),
        }
    }
}

/// The compact text of a type (see [`compact`]).
pub fn compact_type(t: &TypeTree) -> (r: String)
    ensures
        r@ == compact(*t),
    decreases t, 2nat,
{
    match t {
        TypeTree::Path(segs) => if segs.len() == 0 {
            String::new()
        } else {
            segment_text(&segs[segs.len() - 1])
        },
        TypeTree::Reference(e) => {
            let mut r = owned("&");
            push_str(&mut r, compact_type(e).as_str());
            r
        },
        TypeTree::Tuple(es) => {
            let v = compact_types(es);
            let mut r = owned("(");
            push_str(&mut r, join_strings(&v, ", ").as_str());
            push_str(&mut r, ")");
            r
        },
        TypeTree::Array(e) => {
            let mut r = owned("[");
            push_str(&mut r, compact_type(e).as_str());
            push_str(&mut r, "]");
            r
        },
        TypeTree::Slice(e) => {
            let mut r = owned("[");
            push_str(&mut r, compact_type(e).as_str());
            push_str(&mut r, "]");
            r
        },
        TypeTree::Other => owned("…"),
    }
}

fn compact_types(ts: &Vec<TypeTree>) -> (r: Vec<String>)
    ensures
        strs(r@) == compact_list(ts@),
    decreases ts, 1nat,
{
    let mut r: Vec<String> = Vec::new();
    let mut i: usize = 0;
    while i < ts.len()
        invariant
            i <= ts@.len(),
            strs(r@) == compact_list(ts@.take(i as int)),
        decreases ts@.len() - i,
    {
        assert(ts@.take(i + 1).drop_last() =~= ts@.take(i as int));
        let c = compact_type(&ts[i]);
        let ghost r0 = r@;
        r.push(c);
        proof {
            lemma_strs_push(r0, c);
        }
        i = i + 1;
    }
    assert(ts@.take(ts@.len() as int) =~= ts@);
    r
}

/// A segment's text (see [`seg_text`]).
pub fn segment_text(s: &PathSeg) -> (r: String)
    ensures
        r@ == seg_text(*s),
    decreases s, 1nat,
{
    let ts = match &s.angle_args {
        Some(a) => type_arg_texts(a),
        None => Vec::new(),
    };
    let mut r = s.ident.clone();
    if ts.len() > 0 {
        push_str(&mut r, "<");
        push_str(&mut r, join_strings(&ts, ",").as_str());
        push_str(&mut r, ">");
    }
    r
}

fn type_arg_texts(args: &Vec<GenericArg>) -> (r: Vec<String>)
    ensures
        strs(r@) == type_args(args@),
    decreases args, 0nat,
{
    let mut r: Vec<String> = Vec::new();
    let mut i: usize = 0;
    while i < args.len()
        invariant
            i <= args@.len(),
            strs(r@) == type_args(args@.take(i as int)),
        decreases args@.len() - i,
    {
        assert(args@.take(i + 1).drop_last() =~= args@.take(i as int));
        match &args[i] {
            GenericArg::Type(t) => {
                let c = compact_type(t);
                let ghost r0 = r@;
                r.push(c);
                proof {
                    lemma_strs_push(r0, c);
                }
            },
            GenericArg::Other => {},
        }
        i = i + 1;
    }
    assert(args@.take(args@.len() as int) =~= args@);
    r
}

// ---------------------------------------------------------------------------
// `use` trees
// ---------------------------------------------------------------------------

/// A `use` tree.
#[derive(Debug)]
pub enum UseTreeItem {
    /// `a::…`
    Path { ident: String, tree: Box<UseTreeItem> },
    /// `a`
    Name(String),
    /// `a as b`
    Rename { ident: String, rename: String },
    /// `*`
    Glob,
    /// `{…, …}`
    Group(Vec<UseTreeItem>),
}

/// A `use` tree as text (`a::b::{c,d}` written `a::b::c,d`).
pub open spec fn use_text(t: UseTreeItem) -> Seq<char>
    decreases t, 1nat,
{
    match t {
        UseTreeItem::Path { ident, tree } => ident@ + "::"@ + use_text(*tree),
        UseTreeItem::Name(n) => n@,
        UseTreeItem::Rename { ident, rename } => ident@,
        UseTreeItem::Glob => "*"@,
        UseTreeItem::Group(items) => join(use_texts(items@), ","@),
    }
}

pub open spec fn use_texts(ts: Seq<UseTreeItem>) -> Seq<Seq<char>>
    decreases ts, 0nat,
{
    if ts.len() == 0 {
        Seq::empty()
    } else {
        use_texts(ts.drop_last()).push(use_text(ts.last()))
    }
}

/// A `use` tree as text (see [`use_text`]).
pub fn use_tree_text(t: &UseTreeItem) -> (r: String)
    ensures
        r@ == use_text(*t),
    decreases t, 1nat,
{
    match t {
        UseTreeItem::Path { ident, tree } => {
            let mut r = ident.clone();
            push_str(&mut r, "::");
            push_str(&mut r, use_tree_text(tree).as_str());
            r
        },
        UseTreeItem::Name(n) => n.clone(),
        UseTreeItem::Rename { ident, .. } => ident.clone(),
        UseTreeItem::Glob => owned("*"),
        UseTreeItem::Group(items) => {
            let v = use_tree_texts(items);
            join_strings(&v, ",")
        },
    }
}

fn use_tree_texts(ts: &Vec<UseTreeItem>) -> (r: Vec<String>)
    ensures
        strs(r@) == use_texts(ts@),
    decreases ts, 0nat,
{
    let mut r: Vec<String> = Vec::new();
    let mut i: usize = 0;
    while i < ts.len()
        invariant
            i <= ts@.len(),
            strs(r@) == use_texts(ts@.take(i as int)),
        decreases ts@.len() - i,
    {
        assert(ts@.take(i + 1).drop_last() =~= ts@.take(i as int));
        let c = use_tree_text(&ts[i]);
        let ghost r0 = r@;
        r.push(c);
        proof {
            lemma_strs_push(r0, c);
        }
        i = i + 1;
    }
    assert(ts@.take(ts@.len() as int) =~= ts@);
    r
}

// ---------------------------------------------------------------------------
// Attributes, visibility, paths
// ---------------------------------------------------------------------------

/// An attribute: its path's segments, its token text when it is a list
/// (`#[a(...)]`), and its arguments read as comma-separated paths (each as
/// its segments) when they read so.
#[derive(Debug)]
pub struct AttrInfo {
    pub path: Vec<String>,
    pub list_tokens: Option<String>,
    pub arg_paths: Option<Vec<Vec<String>>>,
}

/// Visibility of an item.
#[derive(Debug, Clone, Copy, PartialEq, Eq, Structural)]
pub enum Vis {
    Public,
    Restricted,
    Inherited,
}

/// A path's segments joined by `::`.
pub open spec fn path_of(segs: Seq<String>) -> Seq<char> {
    join(strs(segs), "::"@)
}

/// A path's last segment (empty for an empty path).
pub open spec fn last_seg(segs: Seq<String>) -> Seq<char> {
    if segs.len() == 0 {
        Seq::empty()
    } else {
        segs.last()@
    }
}

fn last_segment(segs: &Vec<String>) -> (r: String)
    ensures
        r@ == last_seg(segs@),
{
    if segs.len() == 0 {
        String::new()
    } else {
        segs[segs.len() - 1].clone()
    }
}

/// Last segments of the paths.
pub open spec fn last_segs(ps: Seq<Vec<String>>) -> Seq<Seq<char>>
    decreases ps.len(),
{
    if ps.len() == 0 {
        Seq::empty()
    } else {
        last_segs(ps.drop_last()).push(last_seg(ps.last()@))
    }
}

/// The names a struct's `#[derive(...)]` attributes list (last segments,
/// in order).
pub open spec fn derive_list(attrs: Seq<AttrInfo>) -> Seq<Seq<char>>
    decreases attrs.len(),
{
    if attrs.len() == 0 {
        Seq::empty()
    } else {
        let a = attrs.last();
        derive_list(attrs.drop_last()) + if path_of(a.path@) == "derive"@ {
            match a.arg_paths {
                Some(ps) => last_segs(ps@),
                None => Seq::empty(),
            }
        } else {
            Seq::empty()
        }
    }
}

/// The tokens of the first `#[param(...)]` list attribute.
pub open spec fn param_of(attrs: Seq<AttrInfo>) -> Option<Seq<char>>
    decreases attrs.len(),
{
    if attrs.len() == 0 {
        None
    } else if path_of(attrs[0].path@) == "param"@ && attrs[0].list_tokens is Some {
        Some(attrs[0].list_tokens->0@)
    } else {
        param_of(attrs.drop_first())
    }
}

fn derive_names(attrs: &Vec<AttrInfo>) -> (r: Vec<String>)
    ensures
        strs(r@) == derive_list(attrs@),
{
    let mut r: Vec<String> = Vec::new();
    let mut i: usize = 0;
    while i < attrs.len()
        invariant
            i <= attrs@.len(),
            strs(r@) == derive_list(attrs@.take(i as int)),
        decreases attrs@.len() - i,
    {
        assert(attrs@.take(i + 1).drop_last() =~= attrs@.take(i as int));
        let a = &attrs[i];
        let p = join_strings(&a.path, "::");
        if crate::text::str_eq(p.as_str(), "derive") {
            match &a.arg_paths {
                Some(ps) => {
                    let ghost r0 = strs(r@);
                    let mut j: usize = 0;
                    while j < ps.len()
                        invariant
                            j <= ps@.len(),
                            strs(r@) == r0 + last_segs(ps@.take(j as int)),
                        decreases ps@.len() - j,
                    {
                        assert(ps@.take(j + 1).drop_last() =~= ps@.take(j as int));
                        let l = last_segment(&ps[j]);
                        let ghost rr = r@;
                        r.push(l);
                        proof {
                            lemma_strs_push(rr, l);
                        }
                        j = j + 1;
                    }
                    assert(ps@.take(ps@.len() as int) =~= ps@);
                },
                None => {
                    assert(strs(r@) =~= strs(r@) + Seq::<Seq<char>>::empty());
                },
            }
        } else {
            assert(strs(r@) =~= strs(r@) + Seq::<Seq<char>>::empty());
        }
        i = i + 1;
    }
    assert(attrs@.take(attrs@.len() as int) =~= attrs@);
    r
}

fn param_tokens(attrs: &Vec<AttrInfo>) -> (r: Option<String>)
    ensures
        crate::text::opt_view(r) == param_of(attrs@),
{
    let mut i: usize = 0;
    assert(attrs@.skip(0) =~= attrs@);
    while i < attrs.len()
        invariant
            i <= attrs@.len(),
            param_of(attrs@) == param_of(attrs@.skip(i as int)),
        decreases attrs@.len() - i,
    {
        assert(attrs@.skip(i as int)[0] == attrs@[i as int]);
        assert(attrs@.skip(i as int).drop_first() =~= attrs@.skip(i + 1));
        let p = join_strings(&attrs[i].path, "::");
        if crate::text::str_eq(p.as_str(), "param") {
            match &attrs[i].list_tokens {
                Some(t) => {
                    return Some(t.clone());
                },
                None => {},
            }
        }
        i = i + 1;
    }
    None
}

// ---------------------------------------------------------------------------
// Items and the events read from them
// ---------------------------------------------------------------------------

/// A struct field: its name (none for tuple fields), type and attributes.
#[derive(Debug)]
pub struct FieldItem {
    pub ident: Option<String>,
    pub ty: TypeTree,
    pub attrs: Vec<AttrInfo>,
}

/// One item of a walk over a parsed Rust file, in walk order (the items of
/// an `impl` block come between its `ImplStart` and `ImplEnd`).
#[derive(Debug)]
pub enum SyntaxItem {
    /// An `impl` block opens: the trait's path segments (trait impls) and
    /// the self type.
    ImplStart { trait_path: Option<Vec<String>>, self_ty: TypeTree },
    /// The innermost `impl` block closes.
    ImplEnd,
    /// An item macro: its path segments and its token text.
    Macro { path: Vec<String>, tokens: String },
    /// A free function.
    Fn { name: String, vis: Vis },
    /// A function inside an `impl` block.
    ImplFn { name: String },
    /// A struct: name, visibility, attributes, and its fields when they are
    /// named.
    Struct { name: String, vis: Vis, attrs: Vec<AttrInfo>, named_fields: Option<Vec<FieldItem>> },
    Enum { name: String, vis: Vis },
    Trait { name: String, vis: Vis },
    Use { tree: UseTreeItem },
}

/// The field records of named fields (a field without a name is skipped).
pub open spec fn fields_of(fs: Seq<FieldItem>) -> Seq<(Seq<char>, Seq<char>, Option<Seq<char>>)>
    decreases fs.len(),
{
    if fs.len() == 0 {
        Seq::empty()
    } else {
        let f = fs.last();
        fields_of(fs.drop_last()) + match f.ident {
            Some(n) => seq![(n@, compact(f.ty), param_of(f.attrs@))],
            None => Seq::empty(),
        }
    }
}

pub open spec fn field_views(fs: Seq<FieldInput>) -> Seq<(Seq<char>, Seq<char>, Option<Seq<char>>)> {
    fs.map_values(|f: FieldInput| (f.name@, f.ty@, crate::text::opt_view(f.param_tokens)))
}

/// The event read from one item.
pub open spec fn event_of(it: SyntaxItem, e: SyntaxEvent) -> bool {
    match it {
        SyntaxItem::ImplStart { trait_path, self_ty } => e matches SyntaxEvent::ImplStart { trait_name, self_name }
            && crate::text::opt_view(trait_name) == (match trait_path {
            Some(p) => Some(last_seg(p@)),
            None => None,
        }) && crate::text::opt_view(self_name) == (match self_ty {
            TypeTree::Path(segs) => Some(
                if segs@.len() == 0 {
                    Seq::<char>::empty()
                } else {
                    segs@.last().ident@
                },
            ),
            _ => None,
        }),
        SyntaxItem::ImplEnd => e is ImplEnd,
        SyntaxItem::Macro { path, tokens } => e matches SyntaxEvent::Macro { path: p, tokens: t } && p@ == path_of(
            path@,
        ) && t@ == tokens@,
        SyntaxItem::Fn { name, vis } => e matches SyntaxEvent::Fn { name: n, is_pub } && n@ == name@ && is_pub == (vis
            == Vis::Public),
        SyntaxItem::ImplFn { name } => e matches SyntaxEvent::ImplFn { name: n } && n@ == name@,
        SyntaxItem::Struct { name, vis, attrs, named_fields } => e matches SyntaxEvent::Struct {
            name: n,
            is_pub,
            derives,
            fields,
        } && n@ == name@ && is_pub == (vis == Vis::Public) && strs(derives@) == derive_list(attrs@) && field_views(
            fields@,
        ) == match named_fields {
            Some(fs) => fields_of(fs@),
            None => Seq::empty(),
        },
        SyntaxItem::Enum { name, vis } => e matches SyntaxEvent::Enum { name: n, is_pub } && n@ == name@ && is_pub == (
        vis == Vis::Public),
        SyntaxItem::Trait { name, vis } => e matches SyntaxEvent::Trait { name: n, is_pub } && n@ == name@ && is_pub
            == (vis == Vis::Public),
        SyntaxItem::Use { tree } => e matches SyntaxEvent::Use { path } && path@ == use_text(tree),
    }
}

fn field_inputs(fs: &Vec<FieldItem>) -> (r: Vec<FieldInput>)
    ensures
        field_views(r@) == fields_of(fs@),
{
    let mut r: Vec<FieldInput> = Vec::new();
    let mut i: usize = 0;
    while i < fs.len()
        invariant
            i <= fs@.len(),
            field_views(r@) == fields_of(fs@.take(i as int)),
        decreases fs@.len() - i,
    {
        assert(fs@.take(i + 1).drop_last() =~= fs@.take(i as int));
        let f = &fs[i];
        match &f.ident {
            Some(n) => {
                let fi = FieldInput { name: n.clone(), ty: compact_type(&f.ty), param_tokens: param_tokens(&f.attrs) };
                let ghost r0 = r@;
                r.push(fi);
                assert(field_views(r@) =~= field_views(r0).push((n@, compact(f.ty), param_of(f.attrs@))));
            },
            None => {
                assert(fields_of(fs@.take(i + 1)) =~= fields_of(fs@.take(i as int)));
            },
        }
        i = i + 1;
    }
    assert(fs@.take(fs@.len() as int) =~= fs@);
    r
}

/// The event of one item (see [`event_of`]).
pub fn item_event(it: &SyntaxItem) -> (e: SyntaxEvent)
    ensures
        event_of(*it, e),
{
    match it {
        SyntaxItem::ImplStart { trait_path, self_ty } => {
            let trait_name = match trait_path {
                Some(p) => Some(last_segment(p)),
                None => None,
            };
            let self_name = match self_ty {
                TypeTree::Path(segs) => Some(
                    if segs.len() == 0 {
                        String::new()
                    } else {
                        segs[segs.len() - 1].ident.clone()
                    },
                ),
                _ => None,
            };
            let e = SyntaxEvent::ImplStart { trait_name, self_name };
            assert(event_of(*it, e));
            e
        },
        SyntaxItem::ImplEnd => SyntaxEvent::ImplEnd,
        SyntaxItem::Macro { path, tokens } => {
            let e = SyntaxEvent::Macro { path: join_strings(path, "::"), tokens: tokens.clone() };
            assert(event_of(*it, e));
            e
        },
        SyntaxItem::Fn { name, vis } => SyntaxEvent::Fn { name: name.clone(), is_pub: *vis == Vis::Public },
        SyntaxItem::ImplFn { name } => SyntaxEvent::ImplFn { name: name.clone() },
        SyntaxItem::Struct { name, vis, attrs, named_fields } => {
            let fields = match named_fields {
                Some(fs) => field_inputs(fs),
                None => {
                    let v: Vec<FieldInput> = Vec::new();
                    assert(field_views(v@) =~= Seq::empty());
                    v
                },
            };
            let e = SyntaxEvent::Struct {
                name: name.clone(),
                is_pub: *vis == Vis::Public,
                derives: derive_names(attrs),
                fields,
            };
            assert(event_of(*it, e));
            e
        },
        SyntaxItem::Enum { name, vis } => SyntaxEvent::Enum { name: name.clone(), is_pub: *vis == Vis::Public },
        SyntaxItem::Trait { name, vis } => SyntaxEvent::Trait { name: name.clone(), is_pub: *vis == Vis::Public },
        SyntaxItem::Use { tree } => SyntaxEvent::Use { path: use_tree_text(tree) },
    }
}

/// The events the source analysis reads from a file's items, one per item,
/// in order.
pub fn syntax_events(items: &Vec<SyntaxItem>) -> (r: Vec<SyntaxEvent>)
    ensures
        r@.len() == items@.len(),
        forall|i: int| 0 <= i < items@.len() ==> event_of(#[trigger] items@[i], r@[i]),
{
    let mut r: Vec<SyntaxEvent> = Vec::new();
    let mut i: usize = 0;
    while i < items.len()
        invariant
            i <= items@.len(),
            r@.len() == i,
            forall|j: int| 0 <= j < i ==> event_of(#[trigger] items@[j], r@[j]),
        decreases items@.len() - i,
    {
        let e = item_event(&items[i]);
        r.push(e);
        i = i + 1;
    }
    r
}

} // verus!
