//! The linter: which elements of a document lack which required attributes.

use vstd::prelude::*;
use crate::config::{Config, Rule};
use crate::error::Error;
use crate::requirements::{
    names_view,
    requirements_view,
    resolve,
    resolved_rules,
    Requirements,
    ResolvedName,
    ResolvedView,
};
use crate::violation::{all_placed, violation_views, Violation, ViolationView};
use crate::xml::{
    descendants,
    document_view,
    has_attribute_in,
    has_plain_attribute,
    is_element,
    node_view,
    parse_document,
    parsed_text,
    position,
    tag_name,
    DocumentView,
    NodeView,
};

verus! {

/// Whether a node carries an attribute: whether one of its attributes has
/// the attribute's namespace and local name.
pub open spec fn carries(node: NodeView, name: ResolvedView) -> bool {
    node.attributes.contains((name.namespace, name.name))
}

/// The violation that reports that a node lacks an attribute. It gives the
/// node's place and tag, and the requirement as it was written.
pub open spec fn violation_of(path: Seq<char>, node: NodeView, name: ResolvedView) -> ViolationView {
    ViolationView {
        path,
        line_num: node.line,
        col_num: node.column,
        tag: node.tag,
        attribute: name.raw,
    }
}

/// One violation for each of the given attributes that a node lacks, in the
/// order of the attributes.
pub open spec fn missing(path: Seq<char>, node: NodeView, names: Seq<ResolvedView>) -> Seq<ViolationView>
    decreases names.len(),
{
    if names.len() == 0 {
        Seq::empty()
    } else if carries(node, names.last()) {
        missing(path, node, names.drop_last())
    } else {
        missing(path, node, names.drop_last()).push(violation_of(path, node, names.last()))
    }
}

/// The violations of one node: none where the node is no element or no rule
/// names its tag; else one for each attribute of the rule that it lacks.
pub open spec fn node_violations(
    path: Seq<char>,
    node: NodeView,
    requirements: Map<Seq<char>, Seq<ResolvedView>>,
) -> Seq<ViolationView> {
    if node.element && requirements.contains_key(node.tag) {
        missing(path, node, requirements[node.tag])
    } else {
        Seq::empty()
    }
}

/// The violations of a list of nodes: those of each node, in the order of
/// the nodes.
pub open spec fn nodes_violations(
    path: Seq<char>,
    nodes: Seq<NodeView>,
    requirements: Map<Seq<char>, Seq<ResolvedView>>,
) -> Seq<ViolationView>
    decreases nodes.len(),
{
    if nodes.len() == 0 {
        Seq::empty()
    } else {
        nodes_violations(path, nodes.drop_last(), requirements) + node_violations(
            path,
            nodes.last(),
            requirements,
        )
    }
}

/// The violations of a document under the rules of a run: the rules are
/// resolved under the bindings of the document's root element, and every
/// node is held against them, in document order.
pub open spec fn document_violations(path: Seq<char>, doc: DocumentView, rules: Map<Seq<char>, Rule>) -> Seq<
    ViolationView,
> {
    nodes_violations(path, doc.nodes, resolved_rules(rules, doc.root_namespaces))
}

/// Whether a node carries an attribute.
fn has_attribute(node: &roxmltree::Node, name: &ResolvedName) -> (found: bool)
    ensures
        found == carries(node_view(*node), name@),
{
    match &name.namespace {
        Some(uri) => has_attribute_in(node, uri.as_str(), name.name.as_str()),
        None => has_plain_attribute(node, name.name.as_str()),
    }
}

/// Adds to a list one violation for each of the given attributes that a node
/// lacks.
fn push_missing(
    out: &mut Vec<Violation>,
    path: &String,
    node: &roxmltree::Node,
    tag: &String,
    names: &Vec<ResolvedName>,
)
    requires
        tag@ == node_view(*node).tag,
        all_placed(old(out)@),
    ensures
        violation_views(final(out)@) == violation_views(old(out)@) + missing(
            path@,
            node_view(*node),
            names_view(*names),
        ),
        all_placed(final(out)@),
{
    let ghost before = violation_views(out@);
    let ghost all = names_view(*names);
    let mut i: usize = 0;
    assert(violation_views(out@) =~= before + missing(path@, node_view(*node), all.take(0)));
    while i < names.len()
        invariant
            i <= names.len(),
            all == names_view(*names),
            tag@ == node_view(*node).tag,
            violation_views(out@) == before + missing(path@, node_view(*node), all.take(i as int)),
            all_placed(out@),
        decreases names.len() - i,
    {
        let name = &names[i];
        proof {
            assert(all.take(i + 1).drop_last() =~= all.take(i as int));
            assert(all.take(i + 1).last() == name@);
        }
        if !has_attribute(node, name) {
            let at = position(node);
            let ghost old_views = violation_views(out@);
            out.push(Violation::new(path, at.0, at.1, tag.as_str(), name.raw.as_str()));
            assert(violation_views(out@) =~= old_views.push(violation_of(path@, node_view(*node), name@)));
            assert(violation_views(out@) =~= before + missing(
                path@,
                node_view(*node),
                all.take(i + 1),
            ));
        }
        i += 1;
    }
    assert(all.take(i as int) =~= all);
}

/// Finds what one node lacks: nothing where it is no element or no rule
/// names its tag; else one violation for each attribute of the rule that the
/// node does not carry, in the rule's order.
pub fn find_violations(path: &String, node: &roxmltree::Node, requirements: &Requirements) -> (violations:
    Vec<Violation>)
    requires
        requirements.wf(),
    ensures
        violation_views(violations@) == node_violations(
            path@,
            node_view(*node),
            requirements_view(*requirements),
        ),
        all_placed(violations@),
{
    let mut violations: Vec<Violation> = Vec::new();
    assert(violation_views(violations@) =~= Seq::<ViolationView>::empty());
    if is_element(node) {
        let tag = tag_name(node);
        match requirements.get(&tag) {
            Some(names) => {
                push_missing(&mut violations, path, node, &tag, names);
            },
            None => {},
        }
    }
    violations
}

/// Lints a document against resolved rules: the violations of all its nodes,
/// in document order.
pub fn find_all_violations(path: &String, doc: &roxmltree::Document, requirements: &Requirements) -> (violations:
    Vec<Violation>)
    requires
        requirements.wf(),
    ensures
        violation_views(violations@) == nodes_violations(
            path@,
            document_view(*doc).nodes,
            requirements_view(*requirements),
        ),
        all_placed(violations@),
{
    let nodes = descendants(doc);
    let ghost all = document_view(*doc).nodes;
    let ghost rules = requirements_view(*requirements);
    let mut violations: Vec<Violation> = Vec::new();
    let mut i: usize = 0;
    assert(violation_views(violations@) =~= nodes_violations(path@, all.take(0), rules));
    while i < nodes.len()
        invariant
            requirements.wf(),
            i <= nodes.len(),
            all == document_view(*doc).nodes,
            rules == requirements_view(*requirements),
            nodes@.len() == all.len(),
            forall|j: int| 0 <= j < nodes@.len() ==> node_view(#[trigger] nodes@[j]) == all[j],
            violation_views(violations@) == nodes_violations(path@, all.take(i as int), rules),
            all_placed(violations@),
        decreases nodes.len() - i,
    {
        let mut found = find_violations(path, &nodes[i], requirements);
        let ghost before = violation_views(violations@);
        let ghost added = violation_views(found@);
        violations.append(&mut found);
        proof {
            assert(all.take(i + 1).drop_last() =~= all.take(i as int));
            assert(all.take(i + 1).last() == node_view(nodes@[i as int]));
            assert(violation_views(violations@) =~= before + added);
        }
        i += 1;
    }
    assert(all.take(i as int) =~= all);
    violations
}

/// Lints a document against the rules of a run. The rules are resolved
/// against the document once; then every node is held against them.
pub fn lint_document(path: &String, doc: &roxmltree::Document, config: &Config) -> (violations: Vec<Violation>)
    requires
        config.wf(),
    ensures
        violation_views(violations@) == document_violations(path@, document_view(*doc), config@),
        all_placed(violations@),
{
    let requirements = resolve(config, doc);
    find_all_violations(path, doc, &requirements)
}

/// What the linter makes of a text once it has been parsed: the violations
/// of the document, or the error that names the file and gives the parser's
/// description as the cause.
pub fn lint_parsed(path: &String, parsed: Result<roxmltree::Document, String>, config: &Config) -> (outcome:
    Result<Vec<Violation>, Error>)
    requires
        config.wf(),
    ensures
        match parsed {
            Ok(doc) => outcome is Ok && violation_views(outcome->Ok_0@) == document_violations(
                path@,
                document_view(doc),
                config@,
            ) && all_placed(outcome->Ok_0@),
            Err(cause) => outcome is Err && outcome->Err_0 is ParseXML && outcome->Err_0->ParseXML_0@ == path@
                && outcome->Err_0->ParseXML_1@ == cause@,
        },
{
    match parsed {
        Ok(doc) => Ok(lint_document(path, &doc, config)),
        Err(cause) => Err(Error::ParseXML(path.clone(), cause)),
    }
}

/// Lints the text of a file. A text that is a document gives the violations
/// of that document; any other text gives an error that names the file.
pub fn lint_text(path: &String, text: &str, config: &Config) -> (outcome: Result<Vec<Violation>, Error>)
    requires
        config.wf(),
    ensures
        match parsed_text(text@) {
            Some(doc) => outcome is Ok && violation_views(outcome->Ok_0@) == document_violations(
                path@,
                doc,
                config@,
            ) && all_placed(outcome->Ok_0@),
            None => outcome is Err && outcome->Err_0 is ParseXML && outcome->Err_0->ParseXML_0@ == path@,
        },
{
    lint_parsed(path, parse_document(text), config)
}

} // verus!
