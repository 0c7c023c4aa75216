//! Conversion of a design document tree into HTML with inlined CSS.
//!
//! The heart of the crate is the layout pipeline: an intermediate tree of
//! layout and appearance facts, an algebra of symbolic CSS lengths and insets,
//! and a set of rewrite passes that merge, fold and prune intermediate nodes
//! without changing what is rendered.
pub mod css_properties;
pub mod decimal;
pub mod inherited_properties;
pub mod intermediate_node;
pub mod mutator;
pub mod ordered_map;
pub mod schema;
pub mod text;

use crate::intermediate_node::from_figma::built;
use crate::intermediate_node::html_formatter::{
    encode_style, encode_text, escaped, formatted_css, rendered, style_encoded, text_result,
    CssFormatErrorView,
};
use crate::intermediate_node::{
    format_css, CSSVariable, CssFormatError, HtmlFormatter, IntermediateNode, NodeView,
};
use crate::ordered_map::{
    put, style_entries, style_names, variable_entries, variables_insert, variables_new,
    variables_values, VariableEntries, VariableView,
};
use crate::schema::{depth_first_each, first_with_id, File, Node, Style};
use crate::text::{char_is_alphanumeric, is_alphanumeric, push_char, push_text};
use indexmap::IndexMap;
use vstd::prelude::*;
use vstd::string::StringExecFns;

verus! {

/// The custom properties that stand for the shared styles of a document, by
/// the id of the style.
pub type CSSVariablesMap = IndexMap<String, CSSVariable>;

/// The node with the id `node_id` below the root of the document: the first
/// one, where each node comes before its children and these before its next
/// sibling.
pub fn find_figma_node_by_id<'a>(file: &'a File, node_id: &str) -> (r: Option<&'a Node>)
    ensures
        r.is_some() == first_with_id(
            depth_first_each(file.document.spec_children()),
            node_id@,
        ).is_some(),
        r.is_some() ==> *r.unwrap() == first_with_id(
            depth_first_each(file.document.spec_children()),
            node_id@,
        ).unwrap(),
{
    let id = String::from_str(node_id);
    let mut walk = file.document.depth_first_stack_iter();
    let ghost all = depth_first_each(file.document.spec_children());
    loop
        invariant
            walk.well_formed(),
            id@ == node_id@,
            all == depth_first_each(file.document.spec_children()),
            first_with_id(all, id@) == first_with_id(walk.remaining(), id@),
        decreases walk.remaining().len(),
    {
        match walk.next() {
            Some((node, _)) => {
                if node.id == id {
                    return Some(node);
                }
            },
            None => {
                return None;
            },
        }
    }
}

/// A name in which every character that is no letter or digit gives way to a
/// hyphen.
pub open spec fn sanitized(name: Seq<char>) -> Seq<char>
    decreases name.len(),
{
    if name.len() == 0 {
        Seq::empty()
    } else {
        sanitized(name.drop_last()).push(
            if is_alphanumeric(name.last()) {
                name.last()
            } else {
                '-'
            },
        )
    }
}

/// The custom properties of some shared styles, none of them with a value
/// yet: each is named after its style, with two hyphens in front.
pub open spec fn collected(styles: Seq<(Seq<char>, Style)>) -> VariableEntries
    decreases styles.len(),
{
    if styles.len() == 0 {
        Seq::empty()
    } else {
        put(
            collected(styles.drop_last()),
            styles.last().0,
            VariableView { name: "--"@ + sanitized(styles.last().1.name@), value: None },
        )
    }
}

#[verifier::loop_isolation(false)]
fn property_name(style_name: &str) -> (r: String)
    ensures
        r@ == "--"@ + sanitized(style_name@),
{
    let mut s = String::from_str("--");
    for c in it: style_name.chars()
        invariant
            it.seq() == style_name@,
            s@ == "--"@ + sanitized(style_name@.take(it.index())),
    {
        let ghost k = it.index();
        proof {
            assert(style_name@.take(k + 1).drop_last() == style_name@.take(k));
            assert(style_name@.take(k + 1).last() == c);
        }
        if char_is_alphanumeric(c) {
            push_char(&mut s, c);
        } else {
            push_char(&mut s, '-');
        }
        proof {
            assert(s@ =~= "--"@ + sanitized(style_name@.take(k + 1)));
        }
    }
    proof {
        assert(style_name@.take(style_name@.len() as int) == style_name@);
    }
    s
}

/// The registry of custom properties of a document: one for each of its
/// shared styles, under the id of the style and without a value.
pub fn file_collect_css_variables(file: &File) -> (r: CSSVariablesMap)
    ensures
        variable_entries(r) == collected(style_entries(file.styles)),
{
    let mut variables = variables_new();
    let names = style_names(&file.styles);
    let ghost styles = style_entries(file.styles);
    let mut i: usize = 0;
    while i < names.len()
        invariant
            i <= names.len(),
            names@.len() == styles.len(),
            forall|j: int|
                0 <= j < names@.len() ==> (#[trigger] names@[j]).0@ == styles[j].0 && names@[j].1@
                    == styles[j].1.name@,
            variable_entries(variables) == collected(styles.take(i as int)),
        decreases names.len() - i,
    {
        proof {
            assert(styles.take(i + 1).drop_last() == styles.take(i as int));
            assert(styles.take(i + 1).last() == styles[i as int]);
            assert(names@[i as int].0@ == styles[i as int].0);
        }
        let name = property_name(names[i].1.as_str());
        variables_insert(&mut variables, names[i].0.clone(), CSSVariable { name, value: None });
        i += 1;
    }
    proof {
        assert(styles.take(i as int) == styles);
    }
    variables
}

/// The intermediate tree of `node` as the root of a page. A shared style
/// that `node` or a node below it uses gets its value in the registry.
pub fn figma_node_to_intermediate_node(node: &Node, css_variables: &mut CSSVariablesMap) -> (r:
    IntermediateNode)
    ensures
        r@ == built(*node, None, variable_entries(*old(css_variables))).view,
        variable_entries(*final(css_variables)) == built(
            *node,
            None,
            variable_entries(*old(css_variables)),
        ).entries,
{
    IntermediateNode::from_figma_node(node, None, css_variables)
}

/// The declarations of the custom properties that have a value.
pub open spec fn variable_declarations(entries: VariableEntries) -> Seq<char>
    decreases entries.len(),
{
    if entries.len() == 0 {
        Seq::empty()
    } else {
        variable_declarations(entries.drop_last()) + match entries.last().1.value {
            Some(value) => entries.last().1.name + ": "@ + value + ";"@,
            None => Seq::empty(),
        }
    }
}

/// The CSS of the body of a page: no margin, and the custom properties;
/// nothing where that cannot be minified.
pub open spec fn body_css(entries: VariableEntries) -> Seq<char> {
    match formatted_css(3, "margin: 0;"@ + variable_declarations(entries)) {
        Ok(css) => css,
        Err(_) => Seq::empty(),
    }
}

/// The name of the node that a tree was made from, or nothing.
pub open spec fn title_of(node: NodeView) -> Seq<char> {
    match node.figma {
        Some(f) => f.name,
        None => Seq::empty(),
    }
}

/// The page of a tree: a head with the name of the tree as title and the CSS
/// of the body, and a body with the HTML of the tree.
pub open spec fn page(node: NodeView, entries: VariableEntries) -> Result<
    Seq<char>,
    CssFormatErrorView,
> {
    match rendered(node, 2) {
        Ok(body) => Ok(
            "<!DOCTYPE html>\n<html\n  ><head\n    ><meta charset=\"utf-8\" /><title>"@ + escaped(
                title_of(node),
                false,
            ) + "</title\n    ><style type=\"text/css\">\n      body {"@ + style_encoded(
                body_css(entries),
            ) + "}\n    </style></head\n  ><body\n    >"@ + body + "</body\n  ></html\n>\n"@,
        ),
        Err(e) => Err(e),
    }
}

fn body_css_text(css_variables: &CSSVariablesMap) -> (r: String)
    ensures
        r@ == body_css(variable_entries(*css_variables)),
{
    let mut naive = String::from_str("margin: 0;");
    let values = variables_values(css_variables);
    let ghost entries = variable_entries(*css_variables);
    let mut i: usize = 0;
    while i < values.len()
        invariant
            i <= values.len(),
            values@.len() == entries.len(),
            forall|j: int| 0 <= j < values@.len() ==> (#[trigger] values@[j])@ == entries[j].1,
            naive@ == "margin: 0;"@ + variable_declarations(entries.take(i as int)),
        decreases values.len() - i,
    {
        proof {
            assert(entries.take(i + 1).drop_last() == entries.take(i as int));
            assert(entries.take(i + 1).last() == entries[i as int]);
            assert(values@[i as int]@ == entries[i as int].1);
        }
        let ghost before = naive@;
        match &values[i].value {
            Some(value) => {
                push_text(&mut naive, values[i].name.as_str());
                push_text(&mut naive, ": ");
                push_text(&mut naive, value.as_str());
                push_text(&mut naive, ";");
                proof {
                    assert(naive@ =~= before + (values@[i as int].name@ + ": "@ + value@ + ";"@));
                }
            },
            None => {},
        }
        proof {
            assert(naive@ =~= "margin: 0;"@ + variable_declarations(entries.take(i + 1)));
        }
        i += 1;
    }
    proof {
        assert(entries.take(i as int) == entries);
    }
    match format_css(3, naive.as_str()) {
        Ok(css) => css,
        Err(_) => String::new(),
    }
}

/// Writes the page of `node` at the end of `writer`, and nothing where the
/// CSS of a node cannot be minified.
pub fn intermediate_node_to_html_writer(
    writer: &mut String,
    node: &IntermediateNode,
    css_variables: &CSSVariablesMap,
) -> (r: Result<(), CssFormatError>)
    ensures
        match r {
            Ok(_) => page(node@, variable_entries(*css_variables)).is_ok() && final(writer)@ == old(
                writer,
            )@ + page(node@, variable_entries(*css_variables))->Ok_0,
            Err(e) => page(node@, variable_entries(*css_variables)) == Err::<
                Seq<char>,
                CssFormatErrorView,
            >(e@) && final(writer)@ == old(writer)@,
        },
{
    let formatter = HtmlFormatter { intermediate_node: node, nesting_depth: 2 };
    let body = match formatter.to_html() {
        Ok(body) => body,
        Err(e) => {
            return Err(e);
        },
    };
    let css = body_css_text(css_variables);
    let title = match &node.figma {
        Some(f) => encode_text(f.name.as_str()),
        None => encode_text(""),
    };
    push_text(writer, "<!DOCTYPE html>\n<html\n  ><head\n    ><meta charset=\"utf-8\" /><title>");
    push_text(writer, title.as_str());
    push_text(writer, "</title\n    ><style type=\"text/css\">\n      body {");
    push_text(writer, encode_style(css.as_str()).as_str());
    push_text(writer, "}\n    </style></head\n  ><body\n    >");
    push_text(writer, body.as_str());
    push_text(writer, "</body\n  ></html\n>\n");
    proof {
        reveal_strlit("");
        assert(""@ =~= Seq::<char>::empty());
        assert(writer@ =~= old(writer)@ + page(node@, variable_entries(*css_variables))->Ok_0);
    }
    Ok(())
}

/// The intermediate tree of the node with the id `node_id` below the root of
/// the document, as the root of a page; nothing where the document has no
/// such node. A shared style that the tree uses gets its value in the
/// registry.
pub fn build_ir(file: &File, node_id: &str, css_variables: &mut CSSVariablesMap) -> (r: Option<
    IntermediateNode,
>)
    ensures
        match first_with_id(depth_first_each(file.document.spec_children()), node_id@) {
            Some(node) => r.is_some() && r.unwrap()@ == built(
                node,
                None,
                variable_entries(*old(css_variables)),
            ).view && variable_entries(*final(css_variables)) == built(
                node,
                None,
                variable_entries(*old(css_variables)),
            ).entries,
            None => r.is_none() && *final(css_variables) == *old(css_variables),
        },
{
    match find_figma_node_by_id(file, node_id) {
        Some(node) => Some(figma_node_to_intermediate_node(node, css_variables)),
        None => None,
    }
}

/// The page of `node`: a complete HTML document with the CSS of every node
/// inlined and minified.
pub fn render(node: &IntermediateNode, css_variables: &CSSVariablesMap) -> (r: Result<
    String,
    CssFormatError,
>)
    ensures
        text_result(r) == page(node@, variable_entries(*css_variables)),
{
    let mut html = String::new();
    match intermediate_node_to_html_writer(&mut html, node, css_variables) {
        Ok(_) => Ok(html),
        Err(e) => Err(e),
    }
}

} // verus!
