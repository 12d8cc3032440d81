use template_lowering::node::{Attribute, CodeFragment, Diagnostic, LoweringConfig, Node};
use template_lowering::node::{Severity, Span};
use template_lowering::visitor::{lower_attribute, lower_nodes, template, WalkNodes};

fn html_config() -> LoweringConfig {
    let voids = [
        "area", "base", "br", "col", "embed", "hr", "img", "input", "link", "meta", "param",
        "source", "track", "wbr",
    ];
    let raws = ["script", "style"];
    LoweringConfig::new(
        voids.iter().map(|s| s.to_string()).collect(),
        raws.iter().map(|s| s.to_string()).collect(),
    )
}

fn frag(text: &str, start: usize, end: usize) -> CodeFragment {
    CodeFragment { text: text.to_string(), span: Span { start, end } }
}

fn count_markers(s: &str) -> usize {
    s.as_bytes().windows(2).filter(|w| w == b"{}").count()
}

#[test]
fn scenario_a_element_with_attribute_and_text() {
    let x = frag("user.class", 5, 15);
    let nodes = vec![Node::Element {
        name: "div".to_string(),
        attributes: vec![Attribute::KeyValue { key: "class".to_string(), value: Some(x.clone()) }],
        children: vec![Node::Text { value: "hi".to_string() }],
        span: Span { start: 0, end: 20 },
    }];
    let r = lower_nodes(&html_config(), nodes);
    assert_eq!(r.string, "<div class=\"{}\">hi</div>");
    assert_eq!(r.values, vec![x]);
    assert_eq!(r.diagnostics, vec![]);
}

#[test]
fn scenario_b_void_element_with_children() {
    let span = Span { start: 3, end: 7 };
    let nodes = vec![Node::Element {
        name: "br".to_string(),
        attributes: vec![],
        children: vec![Node::Text { value: "oops".to_string() }],
        span,
    }];
    let r = lower_nodes(&html_config(), nodes);
    assert_eq!(r.string, "<br/>");
    assert!(r.values.is_empty());
    assert_eq!(r.diagnostics.len(), 1);
    assert_eq!(r.diagnostics[0].severity, Severity::Warning);
    assert_eq!(r.diagnostics[0].message, "void element cannot have children");
    assert_eq!(r.diagnostics[0].span, span);
}

#[test]
fn scenario_c_top_level_block() {
    let y = frag("answer()", 1, 9);
    let nodes = vec![Node::Block { fragment: y.clone() }];
    let r = lower_nodes(&html_config(), nodes);
    assert_eq!(r.string, "{}");
    assert_eq!(r.values, vec![y]);
    assert!(r.diagnostics.is_empty());
}

#[test]
fn scenario_d_fragment_is_transparent() {
    let z = frag("z", 2, 3);
    let nodes = vec![Node::Fragment {
        children: vec![
            Node::Text { value: "a".to_string() },
            Node::Block { fragment: z.clone() },
            Node::Text { value: "b".to_string() },
        ],
    }];
    let r = lower_nodes(&html_config(), nodes);
    assert_eq!(r.string, "a{}b");
    assert_eq!(r.values, vec![z]);
    assert!(r.diagnostics.is_empty());
}

#[test]
fn placeholder_value_parity_on_mixed_tree() {
    let nodes = vec![
        Node::Doctype { value: frag("html", 0, 4) },
        Node::Element {
            name: "section".to_string(),
            attributes: vec![
                Attribute::KeyValue { key: "id".to_string(), value: Some(frag("sid", 10, 13)) },
                Attribute::KeyValue { key: "hidden".to_string(), value: None },
                Attribute::CodeBlock { fragment: frag("extra_attrs", 14, 25) },
            ],
            children: vec![
                Node::Text { value: "count: ".to_string() },
                Node::Block { fragment: frag("n + 1", 30, 35) },
                Node::Element {
                    name: "img".to_string(),
                    attributes: vec![Attribute::KeyValue {
                        key: "src".to_string(),
                        value: Some(frag("url", 40, 43)),
                    }],
                    children: vec![],
                    span: Span { start: 36, end: 44 },
                },
            ],
            span: Span { start: 5, end: 50 },
        },
    ];
    let r = lower_nodes(&html_config(), nodes);
    assert_eq!(count_markers(&r.string), r.values.len());
    assert_eq!(r.values.len(), 4);
    assert!(r.diagnostics.is_empty());
}

#[test]
fn values_follow_preorder_attributes_before_children() {
    let f1 = frag("one", 0, 3);
    let f2 = frag("two", 4, 7);
    let f3 = frag("three", 8, 13);
    let nodes = vec![Node::Element {
        name: "a".to_string(),
        attributes: vec![
            Attribute::KeyValue { key: "x".to_string(), value: Some(f1.clone()) },
            Attribute::CodeBlock { fragment: f2.clone() },
        ],
        children: vec![Node::Block { fragment: f3.clone() }],
        span: Span { start: 0, end: 1 },
    }];
    let r = lower_nodes(&html_config(), nodes);
    assert_eq!(r.string, "<a x=\"{}\" {}>{}</a>");
    assert_eq!(r.values, vec![f1, f2, f3]);
}

#[test]
fn substitution_fills_markers_with_values_in_order() {
    let nodes = vec![Node::Element {
        name: "a".to_string(),
        attributes: vec![
            Attribute::KeyValue { key: "x".to_string(), value: Some(frag("one", 0, 3)) },
            Attribute::CodeBlock { fragment: frag("two", 4, 7) },
        ],
        children: vec![Node::Block { fragment: frag("three", 8, 13) }],
        span: Span { start: 0, end: 1 },
    }];
    let r = lower_nodes(&html_config(), nodes);
    let mut rendered = String::new();
    let mut rest = r.string.as_str();
    let mut next = r.values.iter();
    while let Some(i) = rest.find("{}") {
        rendered.push_str(&rest[..i]);
        rendered.push_str(&next.next().expect("a value per marker").text);
        rest = &rest[i + 2..];
    }
    rendered.push_str(rest);
    assert!(next.next().is_none());
    assert_eq!(rendered, "<a x=\"one\" two>three</a>");
}

#[test]
fn void_element_children_leave_no_trace() {
    let nodes = vec![Node::Element {
        name: "input".to_string(),
        attributes: vec![],
        children: vec![
            Node::Text { value: "gone".to_string() },
            Node::Block { fragment: frag("lost", 0, 4) },
        ],
        span: Span { start: 0, end: 7 },
    }];
    let r = lower_nodes(&html_config(), nodes);
    assert_eq!(r.string, "<input/>");
    assert!(r.values.is_empty());
    assert_eq!(r.diagnostics.len(), 1);
    assert_eq!(r.diagnostics[0].severity, Severity::Warning);
}

#[test]
fn void_element_without_children_gets_no_diagnostic() {
    let nodes = vec![Node::Element {
        name: "hr".to_string(),
        attributes: vec![],
        children: vec![],
        span: Span { start: 0, end: 4 },
    }];
    let r = lower_nodes(&html_config(), nodes);
    assert_eq!(r.string, "<hr/>");
    assert!(r.values.is_empty());
    assert!(r.diagnostics.is_empty());
}

#[test]
fn fragment_equals_children_spliced_at_parent_level() {
    let make_children = || {
        vec![
            Node::Text { value: "x".to_string() },
            Node::Block { fragment: frag("v", 0, 1) },
        ]
    };
    let grouped = vec![Node::Fragment { children: make_children() }];
    let spliced = make_children();
    let a = lower_nodes(&html_config(), grouped);
    let b = lower_nodes(&html_config(), spliced);
    assert_eq!(a.string, b.string);
    assert_eq!(a.values, b.values);
    assert_eq!(a.diagnostics, b.diagnostics);
}

#[test]
fn doctype_and_raw_text_contribute_no_values() {
    let nodes = vec![
        Node::Doctype { value: frag("html", 0, 4) },
        Node::Element {
            name: "script".to_string(),
            attributes: vec![],
            children: vec![Node::RawText { content: "let a = 1; if (a < 2) go();".to_string() }],
            span: Span { start: 5, end: 40 },
        },
    ];
    let r = lower_nodes(&html_config(), nodes);
    assert_eq!(r.string, "<!doctype html><script>let a = 1; if (a < 2) go();</script>");
    assert!(r.values.is_empty());
    assert!(r.diagnostics.is_empty());
}

#[test]
fn attribute_without_value_appends_only_key() {
    let r = lower_attribute(Attribute::KeyValue { key: "hidden".to_string(), value: None });
    assert_eq!(r.string, " hidden");
    assert!(r.values.is_empty());
}

#[test]
fn custom_void_set_is_honoured() {
    let cfg = LoweringConfig::new(vec!["glyph".to_string()], vec![]);
    let nodes = vec![Node::Element {
        name: "glyph".to_string(),
        attributes: vec![],
        children: vec![],
        span: Span { start: 0, end: 7 },
    }];
    let r = lower_nodes(&cfg, nodes);
    assert_eq!(r.string, "<glyph/>");

    let html = vec![Node::Element {
        name: "glyph".to_string(),
        attributes: vec![],
        children: vec![],
        span: Span { start: 0, end: 7 },
    }];
    let r2 = lower_nodes(&html_config(), html);
    assert_eq!(r2.string, "<glyph></glyph>");
}

#[test]
fn nested_void_diagnostic_is_reported_exactly_once() {
    let nodes = vec![Node::Element {
        name: "div".to_string(),
        attributes: vec![],
        children: vec![Node::Element {
            name: "br".to_string(),
            attributes: vec![],
            children: vec![Node::Text { value: "deep".to_string() }],
            span: Span { start: 5, end: 9 },
        }],
        span: Span { start: 0, end: 12 },
    }];
    let r = lower_nodes(&html_config(), nodes);
    assert_eq!(r.string, "<div><br/></div>");
    assert_eq!(r.diagnostics.len(), 1);
    assert_eq!(r.diagnostics[0].span, Span { start: 5, end: 9 });
}

#[test]
fn empty_input_lowers_to_empty_result() {
    let r = lower_nodes(&html_config(), vec![]);
    assert_eq!(r.string, "");
    assert!(r.values.is_empty());
    assert!(r.diagnostics.is_empty());
}

#[test]
fn driver_puts_parse_diagnostics_first() {
    let parse_diag = Diagnostic {
        severity: Severity::Error,
        message: "unexpected token".to_string(),
        span: Span { start: 1, end: 2 },
    };
    let nodes = vec![Node::Element {
        name: "br".to_string(),
        attributes: vec![],
        children: vec![Node::Text { value: "x".to_string() }],
        span: Span { start: 3, end: 8 },
    }];
    let r = template(&html_config(), nodes, vec![parse_diag]);
    assert_eq!(r.string, "<br/>");
    assert_eq!(r.diagnostics.len(), 2);
    assert_eq!(r.diagnostics[0].severity, Severity::Error);
    assert_eq!(r.diagnostics[0].message, "unexpected token");
    assert_eq!(r.diagnostics[1].severity, Severity::Warning);
    assert_eq!(r.diagnostics[1].message, "void element cannot have children");
}

#[test]
fn extend_concatenates_in_order() {
    let cfg = html_config();
    let mut a = lower_nodes(&cfg, vec![Node::Text { value: "left".to_string() }]);
    let b = lower_nodes(&cfg, vec![Node::Block { fragment: frag("right", 0, 5) }]);
    a.extend(b);
    assert_eq!(a.string, "left{}");
    assert_eq!(a.values.len(), 1);
    assert_eq!(a.values[0].text, "right");
}

#[test]
fn accumulator_starts_empty() {
    let w = WalkNodes::new();
    assert_eq!(w.string, "");
    assert!(w.values.is_empty());
    assert!(w.diagnostics.is_empty());
}
