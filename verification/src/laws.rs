//! Laws of the lowering, proved once for every input tree: placeholder/value
//! parity, pre-order placement of the values, void-element child dropping,
//! fragment transparency, and the literalness of doctype and raw-text nodes.

use vstd::prelude::*;

use crate::node::{Attribute, CodeFragment, Node, Span};
use crate::node::is_void_name;
use crate::visitor::{attr_spec, attrs_spec, cat_spec, empty_spec, node_spec, nodes_spec};
use crate::visitor::{void_warning, LowerSpec};

verus! {

/// How many placeholder markers `"{}"` a piece of template text holds: the
/// number of positions where a `'{'` is immediately followed by a `'}'`.
pub open spec fn count_placeholders(s: Seq<char>) -> nat
    decreases s.len(),
{
    if s.len() < 2 {
        0
    } else {
        (if s[0] == '{' && s[1] == '}' {
            1nat
        } else {
            0nat
        }) + count_placeholders(s.subrange(1, s.len() as int))
    }
}

/// Text that holds no brace at all, so it can never form or break a
/// placeholder marker.
pub open spec fn brace_free(s: Seq<char>) -> bool {
    forall|i: int| 0 <= i < s.len() ==> s[i] != '{' && s[i] != '}'
}

/// An attribute whose literal text (its key) is brace-free.
pub open spec fn clean_attr(a: Attribute) -> bool {
    match a {
        Attribute::KeyValue { key, value } => brace_free(key@),
        Attribute::CodeBlock { fragment } => true,
    }
}

/// A node all of whose literal text (tag names, attribute keys, text, raw
/// text, doctype renderings) is brace-free. Fragments carried as placeholder
/// values are not constrained: they never enter the template.
pub open spec fn clean_node(n: Node) -> bool
    decreases n,
{
    match n {
        Node::Text { value } => brace_free(value@),
        Node::Block { fragment } => true,
        Node::Doctype { value } => brace_free(value.text@),
        Node::RawText { content } => brace_free(content@),
        Node::Fragment { children } => clean_nodes(children@),
        Node::Element { name, attributes, children, span } => brace_free(name@) && (forall|i: int|
            0 <= i < attributes@.len() ==> clean_attr(#[trigger] attributes@[i])) && clean_nodes(
            children@,
        ),
    }
}

/// Every node of the sequence is clean.
pub open spec fn clean_nodes(ns: Seq<Node>) -> bool
    decreases ns,
{
    forall|i: int| 0 <= i < ns.len() ==> clean_node(#[trigger] ns[i])
}

/// A result whose template holds exactly one marker per value and does not
/// begin with a closing brace.
pub open spec fn tidy(sp: LowerSpec) -> bool {
    &&& count_placeholders(sp.template) == sp.values.len()
    &&& (sp.template.len() > 0 ==> sp.template[0] != '}')
}

/// The extra marker, if any, that the seam of a concatenation contributes.
pub open spec fn seam_count(a: Seq<char>, b: Seq<char>) -> nat {
    if a.len() > 0 && b.len() > 0 && a[a.len() - 1] == '{' && b[0] == '}' {
        1nat
    } else {
        0nat
    }
}

/// Counting markers distributes over concatenation, up to the seam.
pub proof fn lemma_count_cat(a: Seq<char>, b: Seq<char>)
    ensures
        count_placeholders(a + b) == count_placeholders(a) + count_placeholders(b) + seam_count(
            a,
            b,
        ),
    decreases a.len(),
{
    if a.len() == 0 {
        assert(a + b =~= b);
    } else if b.len() == 0 {
        assert(a + b =~= a);
    } else if a.len() == 1 {
        assert((a + b).subrange(1, (a + b).len() as int) =~= b);
        assert((a + b)[0] == a[0] && (a + b)[1] == b[0]);
    } else {
        let a1 = a.subrange(1, a.len() as int);
        assert((a + b).subrange(1, (a + b).len() as int) =~= a1 + b);
        lemma_count_cat(a1, b);
        assert(a1[a1.len() - 1] == a[a.len() - 1]);
        assert(seam_count(a1, b) == seam_count(a, b));
    }
}

/// Brace-free text holds no marker.
pub proof fn lemma_count_brace_free(s: Seq<char>)
    requires
        brace_free(s),
    ensures
        count_placeholders(s) == 0,
    decreases s.len(),
{
    if s.len() >= 2 {
        let s1 = s.subrange(1, s.len() as int);
        assert(brace_free(s1));
        lemma_count_brace_free(s1);
    }
}

/// Tidiness is preserved by merging accumulators.
pub proof fn lemma_tidy_cat(a: LowerSpec, b: LowerSpec)
    requires
        tidy(a),
        tidy(b),
    ensures
        tidy(cat_spec(a, b)),
{
    lemma_count_cat(a.template, b.template);
    assert(seam_count(a.template, b.template) == 0);
}

/// One attribute lowers to a tidy result.
pub proof fn lemma_attr_tidy(a: Attribute)
    requires
        clean_attr(a),
    ensures
        tidy(attr_spec(a)),
{
    reveal_strlit(" ");
    match a {
        Attribute::KeyValue { key, value } => {
            lemma_count_cat(" "@, key@);
            lemma_count_brace_free(" "@);
            lemma_count_brace_free(key@);
            match value {
                Some(v) => {
                    reveal_strlit("=\"{}\"");
                    assert(count_placeholders("=\"{}\""@) == 1) by {
                        reveal_with_fuel(count_placeholders, 6);
                        reveal_strlit("=\"{}\"");
                    }
                    lemma_count_cat(" "@ + key@, "=\"{}\""@);
                },
                None => {},
            }
        },
        Attribute::CodeBlock { fragment } => {
            reveal_strlit(" {}");
            assert(count_placeholders(" {}"@) == 1) by {
                reveal_with_fuel(count_placeholders, 4);
                reveal_strlit(" {}");
            }
        },
    }
}

/// A sequence of attributes lowers to a tidy result.
pub proof fn lemma_attrs_tidy(attrs: Seq<Attribute>)
    requires
        forall|i: int| 0 <= i < attrs.len() ==> clean_attr(#[trigger] attrs[i]),
    ensures
        tidy(attrs_spec(attrs)),
    decreases attrs.len(),
{
    if attrs.len() > 0 {
        lemma_attr_tidy(attrs[0]);
        lemma_attrs_tidy(attrs.subrange(1, attrs.len() as int));
        lemma_tidy_cat(attr_spec(attrs[0]), attrs_spec(attrs.subrange(1, attrs.len() as int)));
    }
}

/// A sequence of attributes never produces a diagnostic.
pub proof fn lemma_attrs_no_diagnostics(attrs: Seq<Attribute>)
    ensures
        attrs_spec(attrs).diagnostics == Seq::<crate::node::DiagnosticView>::empty(),
    decreases attrs.len(),
{
    if attrs.len() > 0 {
        lemma_attrs_no_diagnostics(attrs.subrange(1, attrs.len() as int));
        assert(attrs_spec(attrs).diagnostics =~= Seq::<crate::node::DiagnosticView>::empty());
    }
}

/// One clean node lowers to a tidy result.
pub proof fn lemma_node_tidy(voids: Seq<Seq<char>>, n: Node)
    requires
        clean_node(n),
    ensures
        tidy(node_spec(voids, n)),
    decreases n,
{
    reveal_strlit("<");
    reveal_strlit(">");
    reveal_strlit("</");
    reveal_strlit("/>");
    match n {
        Node::Text { value } => {
            lemma_count_brace_free(value@);
        },
        Node::Block { fragment } => {
            reveal_strlit("{}");
            assert(count_placeholders("{}"@) == 1) by {
                reveal_with_fuel(count_placeholders, 3);
                reveal_strlit("{}");
            }
        },
        Node::Doctype { value } => {
            reveal_strlit("<!doctype ");
            lemma_count_brace_free("<!doctype "@);
            lemma_count_brace_free(value.text@);
            lemma_count_brace_free(">"@);
            lemma_count_cat("<!doctype "@, value.text@);
            lemma_count_cat("<!doctype "@ + value.text@, ">"@);
        },
        Node::RawText { content } => {
            lemma_count_brace_free(content@);
        },
        Node::Fragment { children } => {
            lemma_nodes_tidy(voids, children@);
        },
        Node::Element { name, attributes, children, span } => {
            let attrs = attrs_spec(attributes@);
            lemma_attrs_tidy(attributes@);
            lemma_count_brace_free("<"@);
            lemma_count_brace_free(name@);
            lemma_count_cat("<"@, name@);
            let t1 = "<"@ + name@;
            lemma_count_cat(t1, attrs.template);
            let open_tag = t1 + attrs.template;
            assert(count_placeholders(open_tag) == attrs.values.len());
            if is_void_name(voids, name@) {
                lemma_count_cat(open_tag, "/>"@);
                lemma_count_brace_free("/>"@);
            } else {
                let body = nodes_spec(voids, children@);
                lemma_nodes_tidy(voids, children@);
                lemma_count_brace_free(">"@);
                lemma_count_brace_free("</"@);
                lemma_count_cat(open_tag, ">"@);
                let t2 = open_tag + ">"@;
                lemma_count_cat(t2, body.template);
                let t3 = t2 + body.template;
                lemma_count_cat(t3, "</"@);
                let t4 = t3 + "</"@;
                lemma_count_cat(t4, name@);
                let t5 = t4 + name@;
                lemma_count_cat(t5, ">"@);
            }
        },
    }
}

/// A sequence of clean nodes lowers to a tidy result.
pub proof fn lemma_nodes_tidy(voids: Seq<Seq<char>>, ns: Seq<Node>)
    requires
        clean_nodes(ns),
    ensures
        tidy(nodes_spec(voids, ns)),
    decreases ns,
{
    if ns.len() > 0 {
        let rest = ns.subrange(1, ns.len() as int);
        lemma_node_tidy(voids, ns[0]);
        assert(clean_nodes(rest)) by {
            assert(forall|i: int| 0 <= i < rest.len() ==> rest[i] == ns[i + 1]);
        }
        lemma_nodes_tidy(voids, rest);
        lemma_tidy_cat(node_spec(voids, ns[0]), nodes_spec(voids, rest));
    }
}

/// Placeholder/value parity: for every clean tree, the template holds exactly
/// one `"{}"` marker per entry of the value list.
pub proof fn lemma_placeholder_value_parity(voids: Seq<Seq<char>>, ns: Seq<Node>)
    requires
        clean_nodes(ns),
    ensures
        count_placeholders(nodes_spec(voids, ns).template) == nodes_spec(voids, ns).values.len(),
{
    lemma_nodes_tidy(voids, ns);
}

/// The fragments an attribute contributes, in order.
pub open spec fn attr_fragments(a: Attribute) -> Seq<CodeFragment> {
    match a {
        Attribute::KeyValue { key, value } => match value {
            Some(v) => seq![v],
            None => Seq::empty(),
        },
        Attribute::CodeBlock { fragment } => seq![fragment],
    }
}

/// The fragments of a sequence of attributes, in declaration order.
pub open spec fn attrs_fragments(attrs: Seq<Attribute>) -> Seq<CodeFragment>
    decreases attrs,
{
    if attrs.len() == 0 {
        Seq::empty()
    } else {
        attr_fragments(attrs[0]) + attrs_fragments(attrs.subrange(1, attrs.len() as int))
    }
}

/// The fragments a node contributes, in a pre-order walk with attributes
/// before children; a void element's children contribute nothing.
pub open spec fn node_fragments(voids: Seq<Seq<char>>, n: Node) -> Seq<CodeFragment>
    decreases n,
{
    match n {
        Node::Text { value } => Seq::empty(),
        Node::Block { fragment } => seq![fragment],
        Node::Doctype { value } => Seq::empty(),
        Node::RawText { content } => Seq::empty(),
        Node::Fragment { children } => nodes_fragments(voids, children@),
        Node::Element { name, attributes, children, span } => attrs_fragments(attributes@) + if
        is_void_name(voids, name@) {
            Seq::<CodeFragment>::empty()
        } else {
            nodes_fragments(voids, children@)
        },
    }
}

/// The fragments of a sequence of nodes, in order.
pub open spec fn nodes_fragments(voids: Seq<Seq<char>>, ns: Seq<Node>) -> Seq<CodeFragment>
    decreases ns,
{
    if ns.len() == 0 {
        Seq::empty()
    } else {
        node_fragments(voids, ns[0]) + nodes_fragments(voids, ns.subrange(1, ns.len() as int))
    }
}

proof fn lemma_attrs_values_preorder(attrs: Seq<Attribute>)
    ensures
        attrs_spec(attrs).values == attrs_fragments(attrs),
    decreases attrs.len(),
{
    if attrs.len() > 0 {
        lemma_attrs_values_preorder(attrs.subrange(1, attrs.len() as int));
        assert(attrs_spec(attrs).values =~= attrs_fragments(attrs));
    } else {
        assert(attrs_spec(attrs).values =~= attrs_fragments(attrs));
    }
}

proof fn lemma_node_values_preorder(voids: Seq<Seq<char>>, n: Node)
    ensures
        node_spec(voids, n).values == node_fragments(voids, n),
    decreases n,
{
    match n {
        Node::Fragment { children } => {
            lemma_nodes_values_preorder(voids, children@);
        },
        Node::Element { name, attributes, children, span } => {
            lemma_attrs_values_preorder(attributes@);
            if is_void_name(voids, name@) {
                assert(node_spec(voids, n).values =~= node_fragments(voids, n));
            } else {
                lemma_nodes_values_preorder(voids, children@);
            }
        },
        _ => {},
    }
}

/// Ordering: the value list of a lowering is exactly the fragments of the
/// tree read in pre-order, attributes before children, void children
/// skipped; together with parity, the i-th marker of the template is the
/// slot of `values[i]`.
pub proof fn lemma_nodes_values_preorder(voids: Seq<Seq<char>>, ns: Seq<Node>)
    ensures
        nodes_spec(voids, ns).values == nodes_fragments(voids, ns),
    decreases ns,
{
    if ns.len() > 0 {
        lemma_node_values_preorder(voids, ns[0]);
        lemma_nodes_values_preorder(voids, ns.subrange(1, ns.len() as int));
    }
    assert(nodes_spec(voids, ns).values =~= nodes_fragments(voids, ns));
}

/// Void-element drop: a void element's template and values do not depend on
/// its children at all, and when the children are non-empty the element
/// produces exactly one warning, anchored at the element's span.
pub proof fn lemma_void_element_drops_children(
    voids: Seq<Seq<char>>,
    name: String,
    attributes: Vec<Attribute>,
    c1: Vec<Node>,
    c2: Vec<Node>,
    span: Span,
)
    requires
        is_void_name(voids, name@),
    ensures
        node_spec(voids, Node::Element { name, attributes, children: c1, span }).template
            == node_spec(voids, Node::Element { name, attributes, children: c2, span }).template,
        node_spec(voids, Node::Element { name, attributes, children: c1, span }).values
            == node_spec(voids, Node::Element { name, attributes, children: c2, span }).values,
        c1@.len() > 0 ==> node_spec(
            voids,
            Node::Element { name, attributes, children: c1, span },
        ).diagnostics == seq![void_warning(span)],
        c1@.len() == 0 ==> node_spec(
            voids,
            Node::Element { name, attributes, children: c1, span },
        ).diagnostics == Seq::<crate::node::DiagnosticView>::empty(),
{
    lemma_attrs_no_diagnostics(attributes@);
    if c1@.len() > 0 {
        assert(node_spec(voids, Node::Element { name, attributes, children: c1, span }).diagnostics
            =~= seq![void_warning(span)]);
    } else {
        assert(node_spec(voids, Node::Element { name, attributes, children: c1, span }).diagnostics
            =~= Seq::<crate::node::DiagnosticView>::empty());
    }
}

/// Lowering distributes over concatenation of node sequences.
pub proof fn lemma_nodes_spec_concat(voids: Seq<Seq<char>>, a: Seq<Node>, b: Seq<Node>)
    ensures
        nodes_spec(voids, a + b) == cat_spec(nodes_spec(voids, a), nodes_spec(voids, b)),
    decreases a.len(),
{
    if a.len() == 0 {
        assert(a + b =~= b);
        assert(cat_spec(empty_spec(), nodes_spec(voids, b)) =~= nodes_spec(voids, b));
    } else {
        let a1 = a.subrange(1, a.len() as int);
        assert((a + b).subrange(1, (a + b).len() as int) =~= a1 + b);
        assert((a + b)[0] == a[0]);
        lemma_nodes_spec_concat(voids, a1, b);
        assert(nodes_spec(voids, a + b) =~= cat_spec(nodes_spec(voids, a), nodes_spec(voids, b)));
    }
}

/// Fragment transparency: a grouping node is invisible — lowering it among
/// siblings gives exactly the result of splicing its children in its place.
pub proof fn lemma_fragment_transparent(
    voids: Seq<Seq<char>>,
    before: Seq<Node>,
    children: Vec<Node>,
    after: Seq<Node>,
)
    ensures
        nodes_spec(voids, before + seq![Node::Fragment { children }] + after) == nodes_spec(
            voids,
            before + children@ + after,
        ),
{
    let middle = seq![Node::Fragment { children }];
    lemma_nodes_spec_concat(voids, before + middle, after);
    lemma_nodes_spec_concat(voids, before, middle);
    lemma_nodes_spec_concat(voids, before + children@, after);
    lemma_nodes_spec_concat(voids, before, children@);
    assert(middle[0] == Node::Fragment { children });
    assert(node_spec(voids, middle[0]) == nodes_spec(voids, children@));
    assert(middle.subrange(1, 1) =~= Seq::<Node>::empty());
    assert(nodes_spec(voids, middle.subrange(1, 1)) == empty_spec());
    assert(nodes_spec(voids, middle) == cat_spec(
        node_spec(voids, middle[0]),
        nodes_spec(voids, middle.subrange(1, 1)),
    ));
    assert(nodes_spec(voids, middle) =~= nodes_spec(voids, children@)) by {
        assert(cat_spec(nodes_spec(voids, children@), empty_spec()) =~= nodes_spec(
            voids,
            children@,
        ));
    }
    assert(nodes_spec(voids, before + middle + after) =~= nodes_spec(
        voids,
        before + children@ + after,
    ));
}

/// Positional substitution, as the emission collaborator performs it: scan
/// the template left to right and replace each `"{}"` marker with the next
/// unused rendering, in order.
pub open spec fn substitute(t: Seq<char>, vs: Seq<Seq<char>>) -> Seq<char>
    decreases t.len(),
{
    if t.len() == 0 {
        Seq::empty()
    } else if t.len() >= 2 && t[0] == '{' && t[1] == '}' && vs.len() > 0 {
        vs[0] + substitute(t.subrange(2, t.len() as int), vs.subrange(1, vs.len() as int))
    } else {
        seq![t[0]] + substitute(t.subrange(1, t.len() as int), vs)
    }
}

/// With no renderings left, substitution leaves the text unchanged.
pub proof fn lemma_substitute_empty(t: Seq<char>)
    ensures
        substitute(t, Seq::<Seq<char>>::empty()) == t,
    decreases t.len(),
{
    if t.len() > 0 {
        lemma_substitute_empty(t.subrange(1, t.len() as int));
        assert(substitute(t, Seq::<Seq<char>>::empty()) =~= t);
    } else {
        assert(substitute(t, Seq::<Seq<char>>::empty()) =~= t);
    }
}

/// A lone marker is replaced by exactly its one rendering.
pub proof fn lemma_substitute_single_marker(r: Seq<char>)
    ensures
        substitute("{}"@, seq![r]) == r,
{
    reveal_strlit("{}");
    assert("{}"@.subrange(2, 2) =~= Seq::<char>::empty());
    assert(seq![r].subrange(1, 1) =~= Seq::<Seq<char>>::empty());
    lemma_substitute_empty(Seq::<char>::empty());
    assert(substitute("{}"@, seq![r]) =~= r);
}

/// Substitution splits at a seam when the left part holds exactly one marker
/// per left rendering and the right part does not begin with a closing brace:
/// the left renderings fill the left markers, in order, and the right
/// renderings the right markers.
pub proof fn lemma_substitute_cat(a: Seq<char>, b: Seq<char>, va: Seq<Seq<char>>, vb: Seq<
    Seq<char>,
>)
    requires
        count_placeholders(a) == va.len(),
        b.len() > 0 ==> b[0] != '}',
    ensures
        substitute(a + b, va + vb) == substitute(a, va) + substitute(b, vb),
    decreases a.len(),
{
    if a.len() == 0 {
        assert(va =~= Seq::<Seq<char>>::empty());
        assert(a + b =~= b);
        assert(va + vb =~= vb);
        assert(substitute(a, va) =~= Seq::<char>::empty());
        assert(substitute(a + b, va + vb) =~= substitute(a, va) + substitute(b, vb));
    } else if a.len() == 1 {
        assert(va =~= Seq::<Seq<char>>::empty());
        assert(va + vb =~= vb);
        if b.len() == 0 {
            assert(a + b =~= a);
            assert(b =~= Seq::<char>::empty());
            assert((a + b).subrange(1, (a + b).len() as int) =~= Seq::<char>::empty());
            lemma_substitute_empty(Seq::<char>::empty());
            assert(substitute(a + b, va + vb) =~= substitute(a, va) + substitute(b, vb));
        } else {
            assert((a + b)[1] == b[0]);
            assert((a + b).subrange(1, (a + b).len() as int) =~= b);
            assert(a.subrange(1, 1) =~= Seq::<char>::empty());
            assert(substitute(a + b, va + vb) =~= substitute(a, va) + substitute(b, vb));
        }
    } else {
        let a1 = a.subrange(1, a.len() as int);
        if a[0] == '{' && a[1] == '}' {
            let a2 = a.subrange(2, a.len() as int);
            assert(count_placeholders(a1) == (va.len() - 1) as nat && count_placeholders(a2)
                == (va.len() - 1) as nat) by {
                assert(a1[0] == '}');
                assert(a1.subrange(1, a1.len() as int) =~= a2);
            }
            let va1 = va.subrange(1, va.len() as int);
            assert((a + b).subrange(2, (a + b).len() as int) =~= a2 + b);
            assert((va + vb).subrange(1, (va + vb).len() as int) =~= va1 + vb);
            lemma_substitute_cat(a2, b, va1, vb);
            assert(substitute(a + b, va + vb) == (va + vb)[0] + (substitute(a2, va1) + substitute(
                b,
                vb,
            )));
            assert(substitute(a, va) == va[0] + substitute(a2, va1));
            assert(substitute(a + b, va + vb) =~= substitute(a, va) + substitute(b, vb));
        } else {
            assert(count_placeholders(a1) == va.len());
            assert((a + b).subrange(1, (a + b).len() as int) =~= a1 + b);
            lemma_substitute_cat(a1, b, va, vb);
            assert(substitute(a + b, va + vb) == seq![a[0]] + (substitute(a1, va) + substitute(
                b,
                vb,
            )));
            assert(substitute(a, va) == seq![a[0]] + substitute(a1, va));
            assert(substitute(a + b, va + vb) =~= substitute(a, va) + substitute(b, vb));
        }
    }
}

/// Ordering, read through the output contract: in the template of clean
/// sibling sequences `a + b`, the markers contributed by `a` are filled by
/// the first renderings — one per value of `a`, in order — and the markers
/// of `b` by the rest. So the i-th marker of a lowered template is the slot
/// of `values[i]`.
pub proof fn lemma_values_fill_markers_in_order(
    voids: Seq<Seq<char>>,
    a: Seq<Node>,
    b: Seq<Node>,
    ra: Seq<Seq<char>>,
    rb: Seq<Seq<char>>,
)
    requires
        clean_nodes(a),
        clean_nodes(b),
        ra.len() == nodes_spec(voids, a).values.len(),
    ensures
        substitute(nodes_spec(voids, a + b).template, ra + rb) == substitute(
            nodes_spec(voids, a).template,
            ra,
        ) + substitute(nodes_spec(voids, b).template, rb),
{
    lemma_nodes_spec_concat(voids, a, b);
    lemma_nodes_tidy(voids, a);
    lemma_nodes_tidy(voids, b);
    lemma_substitute_cat(
        nodes_spec(voids, a).template,
        nodes_spec(voids, b).template,
        ra,
        rb,
    );
}

/// Doctype and raw-text literalness: neither kind ever contributes a value
/// or a diagnostic, whatever its content.
pub proof fn lemma_doctype_rawtext_literal(
    voids: Seq<Seq<char>>,
    value: CodeFragment,
    content: String,
)
    ensures
        node_spec(voids, Node::Doctype { value }).values == Seq::<CodeFragment>::empty(),
        node_spec(voids, Node::Doctype { value }).diagnostics == Seq::<
            crate::node::DiagnosticView,
        >::empty(),
        node_spec(voids, Node::RawText { content }).values == Seq::<CodeFragment>::empty(),
        node_spec(voids, Node::RawText { content }).diagnostics == Seq::<
            crate::node::DiagnosticView,
        >::empty(),
{
}

} // verus!
