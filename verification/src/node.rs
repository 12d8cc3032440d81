//! The node model: the tagged-union tree that the lowering consumes, plus the
//! configuration (void and raw-text element names) and the diagnostic shape.

use vstd::prelude::*;

verus! {

/// A source location, as two plain integers (byte offsets, or any other
/// coordinates the caller chooses).
///
/// The lowering never interprets a span; it only carries it from the node
/// that produced a diagnostic into the diagnostic record.
#[derive(Clone, Copy, Debug, PartialEq, Eq, Structural)]
pub struct Span {
    /// Where the covered region begins.
    pub start: usize,
    /// Where the covered region ends.
    pub end: usize,
}

/// How serious a diagnostic is.
#[derive(Clone, Copy, Debug, PartialEq, Eq, Structural)]
pub enum Severity {
    Warning,
    Error,
}

/// An opaque unit of embedded expression content.
///
/// The lowering never parses or evaluates a fragment: it either passes the
/// whole value through unchanged (placeholders) or renders `text`, its
/// literal source rendering, into the template (doctype declarations).
#[derive(Clone, Debug, PartialEq, Eq)]
pub struct CodeFragment {
    /// The fragment's literal source text.
    pub text: String,
    /// Where the fragment came from.
    pub span: Span,
}

/// A non-fatal message with a severity and a source span.
#[derive(Debug, PartialEq, Eq)]
pub struct Diagnostic {
    pub severity: Severity,
    pub message: String,
    pub span: Span,
}

/// The mathematical value of a [`Diagnostic`].
pub ghost struct DiagnosticView {
    pub severity: Severity,
    pub message: Seq<char>,
    pub span: Span,
}

impl View for Diagnostic {
    type V = DiagnosticView;

    open spec fn view(&self) -> DiagnosticView {
        DiagnosticView { severity: self.severity, message: self.message@, span: self.span }
    }
}

/// One attribute of an element.
#[derive(Debug, PartialEq, Eq)]
pub enum Attribute {
    /// A named attribute, possibly with an expression value.
    KeyValue { key: String, value: Option<CodeFragment> },
    /// A spread / computed-attributes placeholder.
    CodeBlock { fragment: CodeFragment },
}

/// One node of the markup tree.
#[derive(Debug, PartialEq, Eq)]
pub enum Node {
    /// An element with a tag name, attributes and children, plus the span of
    /// its opening tag (used to anchor structural diagnostics).
    Element { name: String, attributes: Vec<Attribute>, children: Vec<Node>, span: Span },
    /// Literal text.
    Text { value: String },
    /// An embedded expression standing alone as content.
    Block { fragment: CodeFragment },
    /// A doctype declaration; its value is rendered as literal text.
    Doctype { value: CodeFragment },
    /// The body of an element whose content is not re-parsed as markup.
    RawText { content: String },
    /// A grouping node with no surface representation of its own.
    Fragment { children: Vec<Node> },
}

/// The two parser policies the lowering is parameterized by: which element
/// names are void (self-closing, childless) and which element bodies are
/// kept as raw, unparsed text. Only the void set is consulted during
/// lowering; the raw-text set is carried for the parsing collaborator.
pub struct LoweringConfig {
    pub void_elements: Vec<String>,
    pub raw_text_elements: Vec<String>,
}

/// The void-element names as a sequence of character sequences.
pub open spec fn void_set_view(cfg: &LoweringConfig) -> Seq<Seq<char>> {
    cfg.void_elements@.map_values(|s: String| s@)
}

/// Whether `name` is one of the void-element names.
pub open spec fn is_void_name(voids: Seq<Seq<char>>, name: Seq<char>) -> bool {
    voids.contains(name)
}

impl LoweringConfig {
    pub fn new(void_elements: Vec<String>, raw_text_elements: Vec<String>) -> (cfg: Self)
        ensures
            cfg.void_elements == void_elements,
            cfg.raw_text_elements == raw_text_elements,
    {
        LoweringConfig { void_elements, raw_text_elements }
    }

    /// Whether `name` is in the configured void-element set.
    pub fn is_void(&self, name: &String) -> (r: bool)
        ensures
            r == is_void_name(void_set_view(self), name@),
    {
        let mut i: usize = 0;
        while i < self.void_elements.len()
            invariant
                0 <= i <= self.void_elements.len(),
                forall|j: int| 0 <= j < i ==> self.void_elements@[j]@ != name@,
            decreases self.void_elements.len() - i,
        {
            if self.void_elements[i].eq(name) {
                assert(void_set_view(self)[i as int] == name@);
                return true;
            }
            i += 1;
        }
        assert(forall|j: int|
            0 <= j < void_set_view(self).len() ==> void_set_view(self)[j] != name@);
        false
    }
}

} // verus!
