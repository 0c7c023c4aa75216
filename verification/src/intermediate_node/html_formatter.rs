//! HTML of an intermediate tree, with the CSS of each node inlined.
use crate::intermediate_node::css::naive_css;
use crate::intermediate_node::{
    forest_view, lemma_frame_view, IntermediateNode, IntermediateNodeType, NodeTypeView, NodeView,
};
use crate::text::{push_text, texts_view};
use lightningcss::stylesheet::{MinifyOptions, ParserOptions, PrinterOptions, StyleAttribute};
use vstd::prelude::*;
use vstd::string::StringExecFns;

verus! {

/// Why CSS declarations could not be minified.
#[derive(Debug, PartialEq, Eq)]
pub enum CssFormatError {
    /// The declarations could not be read. Holds what the parser said.
    Parse(String),
    /// A declaration could not be written. Holds what the printer said.
    Print(String),
}

/// The mathematical value of a [`CssFormatError`].
pub ghost enum CssFormatErrorView {
    Parse(Seq<char>),
    Print(Seq<char>),
}

impl View for CssFormatError {
    type V = CssFormatErrorView;

    open spec fn view(&self) -> CssFormatErrorView {
        match self {
            CssFormatError::Parse(message) => CssFormatErrorView::Parse(message@),
            CssFormatError::Print(message) => CssFormatErrorView::Print(message@),
        }
    }
}

/// What an error says.
pub open spec fn error_text(error: CssFormatErrorView) -> Seq<char> {
    match error {
        CssFormatErrorView::Parse(message) => "Failed to parse CSS\n"@ + message,
        CssFormatErrorView::Print(message) => "Failed to write CSS property\n"@ + message,
    }
}

impl CssFormatError {
    /// What the error says.
    pub fn to_text(&self) -> (r: String)
        ensures
            r@ == error_text(self@),
    {
        match self {
            CssFormatError::Parse(message) => {
                let mut s = String::from_str("Failed to parse CSS\n");
                push_text(&mut s, message.as_str());
                s
            },
            CssFormatError::Print(message) => {
                let mut s = String::from_str("Failed to write CSS property\n");
                push_text(&mut s, message.as_str());
                s
            },
        }
    }
}

/// The declarations of a style attribute after `lightningcss` has parsed and
/// minified them, each one printed on its own; or why that failed.
pub uninterp spec fn minified_declarations(naive_css: Seq<char>) -> Result<
    Seq<Seq<char>>,
    CssFormatErrorView,
>;

/// The value of the result of minifying.
pub open spec fn minified_view(r: Result<Vec<String>, CssFormatError>) -> Result<
    Seq<Seq<char>>,
    CssFormatErrorView,
> {
    match r {
        Ok(declarations) => Ok(texts_view(declarations@)),
        Err(e) => Err(e@),
    }
}

/// `StyleAttribute::parse`, `StyleAttribute::minify` and
/// `Property::to_css_string` of `lightningcss`, with default options: the
/// declarations of `naive_css`, minified, each one printed without a
/// semicolon. What comes out is taken on trust to depend on `naive_css`
/// alone; nothing else is claimed of it.
#[verifier::external_body]
pub(crate) fn minify_declarations(naive_css: &str) -> (r: Result<Vec<String>, CssFormatError>)
    ensures
        minified_view(r) == minified_declarations(naive_css@),
{
    let mut style = StyleAttribute::parse(naive_css, ParserOptions::default())
        .map_err(|e| CssFormatError::Parse(e.to_string()))?;
    style.minify(MinifyOptions::default());
    let printed = style.declarations.declarations.iter().map(|d| {
        d.to_css_string(false, PrinterOptions::default())
            .map_err(|e| CssFormatError::Print(e.to_string()))
    });
    printed.collect()
}

/// A text in which `&`, `<` and `>`, and `"` where `quotes` holds, are
/// written as character references.
pub open spec fn escaped(text: Seq<char>, quotes: bool) -> Seq<char>
    decreases text.len(),
{
    if text.len() == 0 {
        Seq::empty()
    } else {
        let c = text.last();
        let end = if c == '&' {
            "&amp;"@
        } else if c == '<' {
            "&lt;"@
        } else if c == '>' {
            "&gt;"@
        } else if c == '"' && quotes {
            "&quot;"@
        } else {
            seq![c]
        };
        escaped(text.drop_last(), quotes) + end
    }
}

/// `html_escape::encode_text`: `&`, `<` and `>` are written as character
/// references, all else stays. Taken on trust from the documentation of
/// `html-escape`.
#[verifier::external_body]
pub(crate) fn encode_text(text: &str) -> (r: String)
    ensures
        r@ == escaped(text@, false),
{
    html_escape::encode_text(text).into_owned()
}

/// `html_escape::encode_double_quoted_attribute`: `&`, `<`, `>` and `"` are
/// written as character references, all else stays. Taken on trust from the
/// documentation of `html-escape`.
#[verifier::external_body]
pub(crate) fn encode_double_quoted_attribute(text: &str) -> (r: String)
    ensures
        r@ == escaped(text@, true),
{
    html_escape::encode_double_quoted_attribute(text).into_owned()
}

/// A style sheet as `html-escape` writes it into a `style` element, so that
/// nothing in it ends the element.
pub uninterp spec fn style_encoded(text: Seq<char>) -> Seq<char>;

/// `html_escape::encode_style`. What comes out is taken on trust to depend
/// on `text` alone; nothing else is claimed of it.
#[verifier::external_body]
pub(crate) fn encode_style(text: &str) -> (r: String)
    ensures
        r@ == style_encoded(text@),
{
    html_escape::encode_style(text).into_owned()
}

/// Two spaces for each level.
pub open spec fn indentation(level: nat) -> Seq<char>
    decreases level,
{
    if level == 0 {
        Seq::empty()
    } else {
        indentation((level - 1) as nat) + "  "@
    }
}

/// The level below `level`. Levels stop at the largest number there is.
pub open spec fn deeper(level: u64) -> u64 {
    if level < u64::MAX {
        (level + 1) as u64
    } else {
        level
    }
}

/// Each declaration on a line of its own, one level below `level`, with a
/// semicolon.
pub open spec fn declaration_lines(declarations: Seq<Seq<char>>, level: u64) -> Seq<char>
    decreases declarations.len(),
{
    if declarations.len() == 0 {
        Seq::empty()
    } else {
        declaration_lines(declarations.drop_last(), level) + "\n"@ + indentation(
            deeper(level) as nat,
        ) + declarations.last() + ";"@
    }
}

/// Declarations laid out as the value of a `style` attribute at `level`:
/// each one on a line of its own, and the end of the value on a new line.
pub open spec fn laid_out(declarations: Seq<Seq<char>>, level: u64) -> Seq<char> {
    declaration_lines(declarations, level) + "\n"@ + indentation(level as nat)
}

/// The declarations `naive_css`, minified and laid out at `level`.
pub open spec fn formatted_css(level: u64, naive_css: Seq<char>) -> Result<
    Seq<char>,
    CssFormatErrorView,
> {
    match minified_declarations(naive_css) {
        Ok(declarations) => Ok(laid_out(declarations, level)),
        Err(e) => Err(e),
    }
}

fn indent(s: &mut String, level: u64)
    ensures
        final(s)@ == old(s)@ + indentation(level as nat),
{
    let mut i: u64 = 0;
    while i < level
        invariant
            i <= level,
            s@ == old(s)@ + indentation(i as nat),
        decreases level - i,
    {
        push_text(s, "  ");
        i += 1;
        proof {
            assert(s@ =~= old(s)@ + indentation(i as nat));
        }
    }
}

fn next_level(level: u64) -> (r: u64)
    ensures
        r == deeper(level),
{
    if level < u64::MAX {
        level + 1
    } else {
        level
    }
}

fn lay_out(declarations: &Vec<String>, level: u64) -> (r: String)
    ensures
        r@ == laid_out(texts_view(declarations@), level),
{
    let mut s = String::new();
    let ghost texts = texts_view(declarations@);
    let mut i: usize = 0;
    while i < declarations.len()
        invariant
            i <= declarations.len(),
            texts == texts_view(declarations@),
            s@ == declaration_lines(texts.take(i as int), level),
        decreases declarations.len() - i,
    {
        proof {
            assert(texts.take(i + 1).drop_last() == texts.take(i as int));
            assert(texts.take(i + 1).last() == declarations@[i as int]@);
        }
        let ghost before = s@;
        push_text(&mut s, "\n");
        indent(&mut s, next_level(level));
        push_text(&mut s, declarations[i].as_str());
        push_text(&mut s, ";");
        proof {
            assert(s@ =~= before + "\n"@ + indentation(deeper(level) as nat)
                + declarations@[i as int]@ + ";"@);
        }
        i += 1;
    }
    proof {
        assert(texts.take(i as int) == texts);
    }
    push_text(&mut s, "\n");
    indent(&mut s, level);
    proof {
        assert(s@ =~= laid_out(texts, level));
    }
    s
}

/// The value of a text or an error.
pub open spec fn text_result(r: Result<String, CssFormatError>) -> Result<
    Seq<char>,
    CssFormatErrorView,
> {
    match r {
        Ok(text) => Ok(text@),
        Err(e) => Err(e@),
    }
}

/// The declarations `naive_css`, minified and laid out as the value of a
/// `style` attribute at `level`.
pub fn format_css(level: u16, naive_css: &str) -> (r: Result<String, CssFormatError>)
    ensures
        text_result(r) == formatted_css(level as u64, naive_css@),
{
    match minify_declarations(naive_css) {
        Ok(declarations) => Ok(lay_out(&declarations, level as u64)),
        Err(e) => Err(e),
    }
}

/// An attribute on a line of its own, one level below `level`.
pub open spec fn attribute_text(level: u64, name: Seq<char>, value: Seq<char>) -> Seq<char> {
    indentation(deeper(level) as nat) + name + "=\""@ + escaped(value, true) + "\"\n"@
}

/// An attribute, where it has a value.
pub open spec fn optional_attribute(level: u64, name: Seq<char>, value: Option<Seq<char>>) -> Seq<
    char,
> {
    match value {
        Some(v) => attribute_text(level, name, v),
        None => Seq::empty(),
    }
}

/// The `style` attribute of a node: its declarations, minified, where any
/// are left.
pub open spec fn style_attribute(node: NodeView, level: u64) -> Result<
    Seq<char>,
    CssFormatErrorView,
> {
    match minified_declarations(naive_css(node)) {
        Ok(declarations) => if declarations.len() == 0 {
            Ok(Seq::empty())
        } else {
            Ok(attribute_text(level, "style"@, laid_out(declarations, deeper(level))))
        },
        Err(e) => Err(e),
    }
}

/// The attributes that every element has: name and id of the node that it
/// was made from, what it links to, and its style.
pub open spec fn common_attributes_text(node: NodeView, level: u64) -> Result<
    Seq<char>,
    CssFormatErrorView,
> {
    let identity = match node.figma {
        Some(f) => attribute_text(level, "data-figma-name"@, f.name) + attribute_text(
            level,
            "data-figma-id"@,
            f.id,
        ),
        None => Seq::empty(),
    };
    match style_attribute(node, level) {
        Ok(style) => Ok(identity + optional_attribute(level, "href"@, node.href) + style),
        Err(e) => Err(e),
    }
}

/// The name of the element of a node that is no vector graphic.
pub open spec fn container_name(node: NodeView) -> Seq<char> {
    if node.href.is_some() {
        "a"@
    } else {
        "div"@
    }
}

/// The beginning of a start tag.
pub open spec fn open_start_tag_text(name: Seq<char>) -> Seq<char> {
    "<"@ + name + "\n"@
}

/// The end of the tag of an element without content.
pub open spec fn close_self_closing_tag_text(level: u64) -> Seq<char> {
    indentation(level as nat) + "/>"@
}

/// The end of a start tag.
pub open spec fn close_start_tag_text(level: u64) -> Seq<char> {
    indentation(deeper(level) as nat) + ">"@
}

/// An end tag.
pub open spec fn end_tag_text(level: u64, name: Seq<char>) -> Seq<char> {
    "</"@ + name + "\n"@ + indentation(level as nat) + ">"@
}

/// What stands for a vector graphic: a square.
pub open spec fn placeholder(level: u64) -> Seq<char> {
    let inner = deeper(level);
    open_start_tag_text("rect"@) + attribute_text(inner, "x"@, "-0.2"@) + attribute_text(
        inner,
        "y"@,
        "-0.2"@,
    ) + attribute_text(inner, "width"@, "1.4"@) + attribute_text(inner, "height"@, "1.4"@)
        + close_self_closing_tag_text(inner)
}

/// The HTML of a tree at `level`, or the first failure to minify the CSS of
/// one of its nodes, each node coming before its children.
pub open spec fn rendered(node: NodeView, level: u64) -> Result<Seq<char>, CssFormatErrorView>
    decreases node, 1int,
{
    match common_attributes_text(node, level) {
        Err(e) => Err(e),
        Ok(attributes) => match node.node_type {
            NodeTypeView::Vector => Ok(
                open_start_tag_text("svg"@) + attributes + attribute_text(
                    level,
                    "viewBox"@,
                    "0 0 1 1"@,
                )
                    + close_start_tag_text(level) + placeholder(level) + end_tag_text(level, "svg"@),
            ),
            NodeTypeView::Text { text } => Ok(
                open_start_tag_text(container_name(node)) + attributes + close_start_tag_text(level)
                    + escaped(text, false) + end_tag_text(level, container_name(node)),
            ),
            NodeTypeView::Frame { children } => match rendered_each(children, deeper(level)) {
                Err(e) => Err(e),
                Ok(inner) => Ok(
                    open_start_tag_text(container_name(node)) + attributes + close_start_tag_text(
                        level,
                    )
                        + inner + end_tag_text(level, container_name(node)),
                ),
            },
        },
    }
}

/// The HTML of some trees, one after the other.
pub open spec fn rendered_each(nodes: Seq<NodeView>, level: u64) -> Result<
    Seq<char>,
    CssFormatErrorView,
>
    decreases nodes, 0int,
{
    if nodes.len() == 0 {
        Ok(Seq::empty())
    } else {
        match rendered_each(nodes.drop_last(), level) {
            Err(e) => Err(e),
            Ok(before) => match rendered(nodes.last(), level) {
                Err(e) => Err(e),
                Ok(last) => Ok(before + last),
            },
        }
    }
}

fn open_start_tag(s: &mut String, name: &str)
    ensures
        final(s)@ == old(s)@ + open_start_tag_text(name@),
{
    push_text(s, "<");
    push_text(s, name);
    push_text(s, "\n");
    proof {
        assert(s@ =~= old(s)@ + open_start_tag_text(name@));
    }
}

fn close_self_closing_tag(s: &mut String, level: u64)
    ensures
        final(s)@ == old(s)@ + close_self_closing_tag_text(level),
{
    indent(s, level);
    push_text(s, "/>");
    proof {
        assert(s@ =~= old(s)@ + close_self_closing_tag_text(level));
    }
}

fn text(s: &mut String, value: &str)
    ensures
        final(s)@ == old(s)@ + escaped(value@, false),
{
    push_text(s, encode_text(value).as_str());
}

fn attribute(s: &mut String, level: u64, name: &str, value: &str)
    ensures
        final(s)@ == old(s)@ + attribute_text(level, name@, value@),
{
    indent(s, next_level(level));
    push_text(s, name);
    push_text(s, "=\"");
    push_text(s, encode_double_quoted_attribute(value).as_str());
    push_text(s, "\"\n");
    proof {
        assert(s@ =~= old(s)@ + attribute_text(level, name@, value@));
    }
}

fn common_attributes(s: &mut String, level: u64, node: &IntermediateNode) -> (r: Result<
    (),
    CssFormatError,
>)
    ensures
        match r {
            Ok(_) => common_attributes_text(node@, level).is_ok() && final(s)@ == old(s)@
                + common_attributes_text(node@, level)->Ok_0,
            Err(e) => common_attributes_text(node@, level) == Err::<Seq<char>, CssFormatErrorView>(e@),
        },
{
    let naive = node.naive_css_string();
    let declarations = match minify_declarations(naive.as_str()) {
        Ok(d) => d,
        Err(e) => {
            return Err(e);
        },
    };
    match &node.figma {
        Some(figma) => {
            attribute(s, level, "data-figma-name", figma.name.as_str());
            attribute(s, level, "data-figma-id", figma.id.as_str());
        },
        None => {},
    }
    match &node.href {
        Some(href) => {
            attribute(s, level, "href", href.as_str());
        },
        None => {},
    }
    if declarations.len() > 0 {
        let css = lay_out(&declarations, next_level(level));
        attribute(s, level, "style", css.as_str());
    }
    proof {
        assert(s@ =~= old(s)@ + common_attributes_text(node@, level)->Ok_0);
    }
    Ok(())
}

fn end_tag(s: &mut String, level: u64, name: &str)
    ensures
        final(s)@ == old(s)@ + end_tag_text(level, name@),
{
    push_text(s, "</");
    push_text(s, name);
    push_text(s, "\n");
    indent(s, level);
    push_text(s, ">");
    proof {
        assert(s@ =~= old(s)@ + end_tag_text(level, name@));
    }
}

fn close_start_tag(s: &mut String, level: u64)
    ensures
        final(s)@ == old(s)@ + close_start_tag_text(level),
{
    indent(s, next_level(level));
    push_text(s, ">");
    proof {
        assert(s@ =~= old(s)@ + close_start_tag_text(level));
    }
}

fn placeholder_tag(s: &mut String, level: u64)
    ensures
        final(s)@ == old(s)@ + placeholder(level),
{
    let inner = next_level(level);
    open_start_tag(s, "rect");
    attribute(s, inner, "x", "-0.2");
    attribute(s, inner, "y", "-0.2");
    attribute(s, inner, "width", "1.4");
    attribute(s, inner, "height", "1.4");
    close_self_closing_tag(s, inner);
    proof {
        assert(s@ =~= old(s)@ + placeholder(level));
    }
}

fn render_each(nodes: &Vec<IntermediateNode>, level: u64) -> (r: Result<String, CssFormatError>)
    ensures
        text_result(r) == rendered_each(forest_view(nodes@), level),
    decreases nodes, 0int,
{
    let mut s = String::new();
    let ghost views = forest_view(nodes@);
    let mut i: usize = 0;
    while i < nodes.len()
        invariant
            i <= nodes.len(),
            views == forest_view(nodes@),
            rendered_each(views.take(i as int), level) == Ok::<Seq<char>, CssFormatErrorView>(s@),
        decreases nodes.len() - i,
    {
        proof {
            assert(views.take(i + 1).drop_last() == views.take(i as int));
            assert(views.take(i + 1).last() == nodes@[i as int]@);
        }
        match render(&nodes[i], level) {
            Ok(text) => {
                push_text(&mut s, text.as_str());
            },
            Err(e) => {
                proof {
                    lemma_render_failure_stays(views, level, i + 1);
                }
                return Err(e);
            },
        }
        i += 1;
    }
    proof {
        assert(views.take(i as int) == views);
    }
    Ok(s)
}

/// A failure among the first `n` trees is the failure of them all.
proof fn lemma_render_failure_stays(nodes: Seq<NodeView>, level: u64, n: int)
    requires
        0 <= n <= nodes.len(),
        rendered_each(nodes.take(n), level).is_err(),
    ensures
        rendered_each(nodes, level) == rendered_each(nodes.take(n), level),
    decreases nodes.len() - n,
{
    if n < nodes.len() {
        assert(nodes.take(n + 1).drop_last() == nodes.take(n));
        lemma_render_failure_stays(nodes, level, n + 1);
    } else {
        assert(nodes.take(n) == nodes);
    }
}

fn render(node: &IntermediateNode, level: u64) -> (r: Result<String, CssFormatError>)
    ensures
        text_result(r) == rendered(node@, level),
    decreases node, 1int,
{
    let mut attributes = String::new();
    match common_attributes(&mut attributes, level, node) {
        Ok(_) => {},
        Err(e) => {
            return Err(e);
        },
    }
    let name = if node.href.is_some() {
        "a"
    } else {
        "div"
    };
    let mut s = String::new();
    match &node.node_type {
        IntermediateNodeType::Vector => {
            open_start_tag(&mut s, "svg");
            push_text(&mut s, attributes.as_str());
            attribute(&mut s, level, "viewBox", "0 0 1 1");
            close_start_tag(&mut s, level);
            placeholder_tag(&mut s, level);
            end_tag(&mut s, level, "svg");
            proof {
                assert(s@ =~= rendered(node@, level)->Ok_0);
            }
            Ok(s)
        },
        IntermediateNodeType::Text { text: inner_text } => {
            open_start_tag(&mut s, name);
            push_text(&mut s, attributes.as_str());
            close_start_tag(&mut s, level);
            text(&mut s, inner_text.as_str());
            end_tag(&mut s, level, name);
            proof {
                assert(s@ =~= rendered(node@, level)->Ok_0);
            }
            Ok(s)
        },
        IntermediateNodeType::Frame { children } => {
            proof {
                lemma_frame_view(*node);
            }
            let inner = match render_each(children, next_level(level)) {
                Ok(inner) => inner,
                Err(e) => {
                    return Err(e);
                },
            };
            open_start_tag(&mut s, name);
            push_text(&mut s, attributes.as_str());
            close_start_tag(&mut s, level);
            push_text(&mut s, inner.as_str());
            end_tag(&mut s, level, name);
            proof {
                assert(s@ =~= rendered(node@, level)->Ok_0);
            }
            Ok(s)
        },
    }
}

/// An intermediate tree that is to be written as HTML at some level of
/// indentation.
pub struct HtmlFormatter<'a> {
    pub intermediate_node: &'a IntermediateNode,
    pub nesting_depth: u16,
}

impl<'a> HtmlFormatter<'a> {
    /// The HTML of the tree: every node an element with the name and id of
    /// the node that it was made from, its link and its minified CSS as
    /// attributes; a vector graphic a placeholder, a text its escaped
    /// characters, a frame its children one level deeper.
    pub fn to_html(&self) -> (r: Result<String, CssFormatError>)
        ensures
            text_result(r) == rendered(self.intermediate_node@, self.nesting_depth as u64),
    {
        render(self.intermediate_node, self.nesting_depth as u64)
    }
}

} // verus!
