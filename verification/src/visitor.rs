//! The lowering visitor: walks the node tree and accumulates the template
//! string, the ordered fragment list, and the diagnostics.
//!
//! The exec functions mirror the spec functions [`node_spec`], [`nodes_spec`]
//! and [`attrs_spec`] exactly: every function's result is the spec value of
//! its input, so the template text, the placeholder/value pairing and the
//! diagnostics are pinned down for every tree.

use vstd::prelude::*;
use vstd::string::StringExecFns;

use crate::node::{Attribute, CodeFragment, Diagnostic, LoweringConfig, Node, Severity, Span};
use crate::node::{is_void_name, void_set_view};

verus! {

/// The lowering accumulator: the template string built so far, the code
/// fragments to substitute for its placeholders, and the diagnostics found.
pub struct WalkNodes {
    /// The template: literal text plus placeholder markers.
    pub string: String,
    /// One entry per placeholder, in placeholder order.
    pub values: Vec<CodeFragment>,
    /// Diagnostics, in traversal order.
    pub diagnostics: Vec<Diagnostic>,
}

/// The mathematical value of a [`WalkNodes`] accumulator.
#[verifier::ext_equal]
pub ghost struct LowerSpec {
    pub template: Seq<char>,
    pub values: Seq<CodeFragment>,
    pub diagnostics: Seq<crate::node::DiagnosticView>,
}

impl View for WalkNodes {
    type V = LowerSpec;

    open spec fn view(&self) -> LowerSpec {
        LowerSpec {
            template: self.string@,
            values: self.values@,
            diagnostics: self.diagnostics@.map_values(|d: Diagnostic| d@),
        }
    }
}

/// The result of lowering nothing at all.
pub open spec fn empty_spec() -> LowerSpec {
    LowerSpec { template: Seq::empty(), values: Seq::empty(), diagnostics: Seq::empty() }
}

/// Merging a child result into a parent: concatenation of all three parts.
pub open spec fn cat_spec(a: LowerSpec, b: LowerSpec) -> LowerSpec {
    LowerSpec {
        template: a.template + b.template,
        values: a.values + b.values,
        diagnostics: a.diagnostics + b.diagnostics,
    }
}

/// The warning recorded for a void element that has children.
pub open spec fn void_warning(span: Span) -> crate::node::DiagnosticView {
    crate::node::DiagnosticView {
        severity: Severity::Warning,
        message: "void element cannot have children"@,
        span,
    }
}

/// What lowering one attribute produces.
pub open spec fn attr_spec(a: Attribute) -> LowerSpec {
    match a {
        Attribute::KeyValue { key, value } => match value {
            Some(v) => LowerSpec {
                template: " "@ + key@ + "=\"{}\""@,
                values: seq![v],
                diagnostics: Seq::empty(),
            },
            None => LowerSpec {
                template: " "@ + key@,
                values: Seq::empty(),
                diagnostics: Seq::empty(),
            },
        },
        Attribute::CodeBlock { fragment } => LowerSpec {
            template: " {}"@,
            values: seq![fragment],
            diagnostics: Seq::empty(),
        },
    }
}

/// What lowering a sequence of attributes, in declaration order, produces.
pub open spec fn attrs_spec(attrs: Seq<Attribute>) -> LowerSpec
    decreases attrs,
{
    if attrs.len() == 0 {
        empty_spec()
    } else {
        cat_spec(attr_spec(attrs[0]), attrs_spec(attrs.subrange(1, attrs.len() as int)))
    }
}

/// What lowering one node produces: the template text, the fragments for its
/// placeholders in left-to-right order, and the diagnostics, for every node
/// kind. A void element renders self-closed; its children are never lowered,
/// and if there are any, exactly one warning is recorded.
pub open spec fn node_spec(voids: Seq<Seq<char>>, n: Node) -> LowerSpec
    decreases n,
{
    match n {
        Node::Text { value } => LowerSpec {
            template: value@,
            values: Seq::empty(),
            diagnostics: Seq::empty(),
        },
        Node::Block { fragment } => LowerSpec {
            template: "{}"@,
            values: seq![fragment],
            diagnostics: Seq::empty(),
        },
        Node::Doctype { value } => LowerSpec {
            template: "<!doctype "@ + value.text@ + ">"@,
            values: Seq::empty(),
            diagnostics: Seq::empty(),
        },
        Node::RawText { content } => LowerSpec {
            template: content@,
            values: Seq::empty(),
            diagnostics: Seq::empty(),
        },
        Node::Fragment { children } => nodes_spec(voids, children@),
        Node::Element { name, attributes, children, span } => {
            let attrs = attrs_spec(attributes@);
            let open_tag = "<"@ + name@ + attrs.template;
            if is_void_name(voids, name@) {
                LowerSpec {
                    template: open_tag + "/>"@,
                    values: attrs.values,
                    diagnostics: attrs.diagnostics + if children@.len() > 0 {
                        seq![void_warning(span)]
                    } else {
                        Seq::empty()
                    },
                }
            } else {
                let body = nodes_spec(voids, children@);
                LowerSpec {
                    template: open_tag + ">"@ + body.template + "</"@ + name@ + ">"@,
                    values: attrs.values + body.values,
                    diagnostics: attrs.diagnostics + body.diagnostics,
                }
            }
        },
    }
}

/// What lowering a sequence of nodes, in order, produces.
pub open spec fn nodes_spec(voids: Seq<Seq<char>>, ns: Seq<Node>) -> LowerSpec
    decreases ns,
{
    if ns.len() == 0 {
        empty_spec()
    } else {
        cat_spec(node_spec(voids, ns[0]), nodes_spec(voids, ns.subrange(1, ns.len() as int)))
    }
}

impl WalkNodes {
    /// A fresh, empty accumulator.
    pub fn new() -> (r: WalkNodes)
        ensures
            r@ == empty_spec(),
    {
        let r = WalkNodes { string: String::new(), values: Vec::new(), diagnostics: Vec::new() };
        proof {
            assert(r@ =~= empty_spec());
        }
        r
    }

    /// Extends this accumulator with the given one: the template, value and
    /// diagnostic sequences of `other` are appended, in order, after this
    /// accumulator's own.
    pub fn extend(&mut self, other: WalkNodes)
        ensures
            final(self)@ == cat_spec(old(self)@, other@),
    {
        let ghost other0 = other@;
        let mut other = other;
        self.string.append(other.string.as_str());
        self.values.append(&mut other.values);
        self.diagnostics.append(&mut other.diagnostics);
        proof {
            assert(self@ =~= cat_spec(old(self)@, other0));
        }
    }
}

/// Lowers one attribute: `" key"`, plus `="{}"` and the value fragment when
/// there is a value; a computed-attributes block becomes `" {}"` plus its
/// fragment.
pub fn lower_attribute(a: Attribute) -> (r: WalkNodes)
    ensures
        r@ == attr_spec(a),
{
    let ghost a0 = a;
    let mut r = WalkNodes::new();
    match a {
        Attribute::KeyValue { key, value } => {
            r.string.append(" ");
            r.string.append(key.as_str());
            match value {
                Some(v) => {
                    r.string.append("=\"{}\"");
                    r.values.push(v);
                },
                None => {},
            }
        },
        Attribute::CodeBlock { fragment } => {
            r.string.append(" {}");
            r.values.push(fragment);
        },
    }
    proof {
        assert(r@ =~= attr_spec(a0));
    }
    r
}

/// Lowers a sequence of attributes in declaration order.
pub fn lower_attributes(attrs: Vec<Attribute>) -> (r: WalkNodes)
    ensures
        r@ == attrs_spec(attrs@),
    decreases attrs@.len(),
{
    let ghost attrs0 = attrs@;
    let mut attrs = attrs;
    if attrs.len() == 0 {
        return WalkNodes::new();
    }
    let first = attrs.remove(0);
    let mut r = lower_attribute(first);
    let rest = lower_attributes(attrs);
    r.extend(rest);
    proof {
        assert(r@ =~= attrs_spec(attrs0));
    }
    r
}

/// Lowers one node, dispatching on its kind; see [`node_spec`].
pub fn lower_node(cfg: &LoweringConfig, n: Node) -> (r: WalkNodes)
    ensures
        r@ == node_spec(void_set_view(cfg), n),
    decreases n,
{
    let ghost n0 = n;
    match n {
        Node::Text { value } => {
            let mut r = WalkNodes::new();
            r.string.append(value.as_str());
            proof {
                assert(r@ =~= node_spec(void_set_view(cfg), n0));
            }
            r
        },
        Node::Block { fragment } => {
            let mut r = WalkNodes::new();
            r.string.append("{}");
            r.values.push(fragment);
            proof {
                assert(r@ =~= node_spec(void_set_view(cfg), n0));
            }
            r
        },
        Node::Doctype { value } => {
            let mut r = WalkNodes::new();
            r.string.append("<!doctype ");
            r.string.append(value.text.as_str());
            r.string.append(">");
            proof {
                assert(r@ =~= node_spec(void_set_view(cfg), n0));
            }
            r
        },
        Node::RawText { content } => {
            let mut r = WalkNodes::new();
            r.string.append(content.as_str());
            proof {
                assert(r@ =~= node_spec(void_set_view(cfg), n0));
            }
            r
        },
        Node::Fragment { children } => {
            let r = lower_nodes(cfg, children);
            proof {
                assert(r@ =~= node_spec(void_set_view(cfg), n0));
            }
            r
        },
        Node::Element { name, attributes, children, span } => {
            let mut r = WalkNodes::new();
            r.string.append("<");
            r.string.append(name.as_str());
            let attrs = lower_attributes(attributes);
            r.extend(attrs);
            if cfg.is_void(&name) {
                r.string.append("/>");
                if children.len() > 0 {
                    r.diagnostics.push(Diagnostic {
                        severity: Severity::Warning,
                        message: String::from_str("void element cannot have children"),
                        span,
                    });
                }
            } else {
                r.string.append(">");
                let body = lower_nodes(cfg, children);
                r.extend(body);
                r.string.append("</");
                r.string.append(name.as_str());
                r.string.append(">");
            }
            proof {
                assert(r@ =~= node_spec(void_set_view(cfg), n0));
            }
            r
        },
    }
}

/// Lowers a sequence of nodes in order, merging each node's result into one
/// accumulator.
pub fn lower_nodes(cfg: &LoweringConfig, nodes: Vec<Node>) -> (r: WalkNodes)
    ensures
        r@ == nodes_spec(void_set_view(cfg), nodes@),
    decreases nodes@,
{
    let ghost nodes0 = nodes@;
    let mut nodes = nodes;
    if nodes.len() == 0 {
        return WalkNodes::new();
    }
    let first = nodes.remove(0);
    let mut r = lower_node(cfg, first);
    let rest = lower_nodes(cfg, nodes);
    r.extend(rest);
    proof {
        assert(r@ =~= nodes_spec(void_set_view(cfg), nodes0));
    }
    r
}

/// The driver: lowers the root node sequence and places the upstream parse
/// diagnostics before the structural diagnostics found during lowering. The
/// template and values are exactly those of lowering the roots.
pub fn template(cfg: &LoweringConfig, nodes: Vec<Node>, parse_diagnostics: Vec<Diagnostic>) -> (r:
    WalkNodes)
    ensures
        r@.template == nodes_spec(void_set_view(cfg), nodes@).template,
        r@.values == nodes_spec(void_set_view(cfg), nodes@).values,
        r@.diagnostics == parse_diagnostics@.map_values(|d: Diagnostic| d@) + nodes_spec(
            void_set_view(cfg),
            nodes@,
        ).diagnostics,
{
    let ghost nodes0 = nodes@;
    let lowered = lower_nodes(cfg, nodes);
    let WalkNodes { string, values, diagnostics } = lowered;
    let mut all_diagnostics = parse_diagnostics;
    let mut structural = diagnostics;
    all_diagnostics.append(&mut structural);
    let r = WalkNodes { string, values, diagnostics: all_diagnostics };
    proof {
        assert(r@.diagnostics =~= parse_diagnostics@.map_values(|d: Diagnostic| d@) + nodes_spec(
            void_set_view(cfg),
            nodes0,
        ).diagnostics);
    }
    r
}

} // verus!
