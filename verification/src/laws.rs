//! What holds of the linter, whatever the rules and the document.

use vstd::prelude::*;
use crate::config::{lemma_last_colon, requirement, AttributeView, Rule};
use crate::lint::{carries, document_violations, missing, node_violations, nodes_violations, violation_of};
use crate::requirements::{resolved, resolved_rules, ResolvedView};
use crate::run::{all_parse, files_violations};
use crate::violation::ViolationView;
use crate::xml::{parsed_text, DocumentView, NodeView};

verus! {

/// Linting is a function of the rules and the document: two runs over the
/// same path, document and rules report the same violations in the same
/// order.
pub proof fn lemma_lint_repeats(
    path: Seq<char>,
    doc: DocumentView,
    rules: Map<Seq<char>, Rule>,
    first: Seq<ViolationView>,
    second: Seq<ViolationView>,
)
    requires
        first == document_violations(path, doc, rules),
        second == document_violations(path, doc, rules),
    ensures
        first == second,
{
}

/// Nodes that are held against no rule have no violation.
pub proof fn lemma_no_rule_no_violation(path: Seq<char>, nodes: Seq<NodeView>)
    ensures
        nodes_violations(path, nodes, Map::empty()) == Seq::<ViolationView>::empty(),
    decreases nodes.len(),
{
    if nodes.len() > 0 {
        lemma_no_rule_no_violation(path, nodes.drop_last());
        assert(node_violations(path, nodes.last(), Map::empty()) == Seq::<ViolationView>::empty());
        assert(nodes_violations(path, nodes, Map::empty()) =~= Seq::<ViolationView>::empty());
    }
}

/// Without rules no document has a violation.
pub proof fn lemma_empty_rules(path: Seq<char>, doc: DocumentView)
    ensures
        document_violations(path, doc, Map::empty()) == Seq::<ViolationView>::empty(),
{
    assert(resolved_rules(Map::empty(), doc.root_namespaces) =~= Map::empty());
    lemma_no_rule_no_violation(path, doc.nodes);
}

/// A requirement without a colon names an attribute without namespace,
/// whatever the document binds: a node carries it exactly when it has an
/// attribute of that name in no namespace. An attribute of that name in a
/// namespace does not count.
pub proof fn lemma_unprefixed_requirement(raw: Seq<char>, bindings: Map<Seq<char>, Seq<char>>, node: NodeView)
    requires
        !raw.contains(':'),
    ensures
        resolved(requirement(raw), bindings).namespace is None,
        resolved(requirement(raw), bindings).name == raw,
        carries(node, resolved(requirement(raw), bindings)) <==> node.attributes.contains((None, raw)),
{
    lemma_last_colon(raw);
    assert(requirement(raw).name =~= raw);
}

/// A requirement whose prefix the root element binds names the attribute by
/// the bound URI: a node carries it exactly when it has an attribute of that
/// local name in the namespace of that URI, under whatever prefix.
pub proof fn lemma_bound_prefix(attribute: AttributeView, bindings: Map<Seq<char>, Seq<char>>, node: NodeView)
    requires
        attribute.ns is Some,
        bindings.contains_key(attribute.ns->0),
    ensures
        resolved(attribute, bindings).namespace == Some(bindings[attribute.ns->0]),
        carries(node, resolved(attribute, bindings)) <==> node.attributes.contains(
            (Some(bindings[attribute.ns->0]), attribute.name),
        ),
{
}

/// Two requirements with the same local name whose prefixes are bound to the
/// same URI are carried by the same nodes: the prefix that was written does
/// not count.
pub proof fn lemma_prefix_independence(
    one: AttributeView,
    other: AttributeView,
    bindings: Map<Seq<char>, Seq<char>>,
    node: NodeView,
)
    requires
        one.ns is Some,
        other.ns is Some,
        bindings.contains_key(one.ns->0),
        bindings.contains_key(other.ns->0),
        bindings[one.ns->0] == bindings[other.ns->0],
        one.name == other.name,
    ensures
        carries(node, resolved(one, bindings)) == carries(node, resolved(other, bindings)),
{
}

/// A requirement whose prefix the root element does not bind takes the
/// prefix itself for the namespace: a node carries it exactly when it has an
/// attribute of that local name whose namespace is the prefix's text.
pub proof fn lemma_unbound_prefix(attribute: AttributeView, bindings: Map<Seq<char>, Seq<char>>, node: NodeView)
    requires
        attribute.ns is Some,
        !bindings.contains_key(attribute.ns->0),
    ensures
        resolved(attribute, bindings).namespace == Some(attribute.ns->0),
        carries(node, resolved(attribute, bindings)) <==> node.attributes.contains(
            (Some(attribute.ns->0), attribute.name),
        ),
{
}

/// A node that carries none of the given attributes has one violation for
/// each of them, in their order.
pub proof fn lemma_missing_all(path: Seq<char>, node: NodeView, names: Seq<ResolvedView>)
    requires
        forall|i: int| 0 <= i < names.len() ==> !carries(node, #[trigger] names[i]),
    ensures
        missing(path, node, names).len() == names.len(),
        forall|i: int|
            0 <= i < names.len() ==> #[trigger] missing(path, node, names)[i] == violation_of(
                path,
                node,
                names[i],
            ),
    decreases names.len(),
{
    if names.len() > 0 {
        let front = names.drop_last();
        assert forall|i: int| 0 <= i < front.len() implies !carries(node, #[trigger] front[i]) by {
            assert(front[i] == names[i]);
        }
        lemma_missing_all(path, node, front);
        assert(!carries(node, names[names.len() - 1]));
        assert forall|i: int| 0 <= i < names.len() implies #[trigger] missing(path, node, names)[i]
            == violation_of(path, node, names[i]) by {
            if i < front.len() {
                assert(missing(path, node, front)[i] == violation_of(path, node, front[i]));
            }
        }
    }
}

/// A node that carries all of the given attributes has no violation.
pub proof fn lemma_missing_none(path: Seq<char>, node: NodeView, names: Seq<ResolvedView>)
    requires
        forall|i: int| 0 <= i < names.len() ==> carries(node, #[trigger] names[i]),
    ensures
        missing(path, node, names) == Seq::<ViolationView>::empty(),
    decreases names.len(),
{
    if names.len() > 0 {
        let front = names.drop_last();
        assert forall|i: int| 0 <= i < front.len() implies carries(node, #[trigger] front[i]) by {
            assert(front[i] == names[i]);
        }
        lemma_missing_none(path, node, front);
        assert(carries(node, names[names.len() - 1]));
    }
}

/// A run over files that are all documents finds no violation exactly when
/// no file has one: a violation in any file fails the run, whichever file
/// it is in.
pub proof fn lemma_run_passes_iff_every_file_passes(files: Seq<(String, String)>, rules: Map<Seq<char>, Rule>)
    requires
        all_parse(files),
    ensures
        files_violations(files, rules).len() == 0 <==> (forall|i: int|
            0 <= i < files.len() ==> document_violations(
                (#[trigger] files[i]).0@,
                parsed_text(files[i].1@)->0,
                rules,
            ).len() == 0),
    decreases files.len(),
{
    if files.len() > 0 {
        let front = files.drop_last();
        assert forall|i: int| 0 <= i < front.len() implies parsed_text((#[trigger] front[i]).1@) is Some by {
            assert(front[i] == files[i]);
        }
        lemma_run_passes_iff_every_file_passes(front, rules);
        let last = files.last();
        assert(parsed_text(last.1@) is Some);
        let of_last = document_violations(last.0@, parsed_text(last.1@)->0, rules);
        assert(files_violations(files, rules) == files_violations(front, rules) + of_last);
        if files_violations(files, rules).len() == 0 {
            assert forall|i: int| 0 <= i < files.len() implies document_violations(
                (#[trigger] files[i]).0@,
                parsed_text(files[i].1@)->0,
                rules,
            ).len() == 0 by {
                if i < front.len() {
                    assert(front[i] == files[i]);
                }
            }
        }
        if forall|i: int|
            0 <= i < files.len() ==> document_violations(
                (#[trigger] files[i]).0@,
                parsed_text(files[i].1@)->0,
                rules,
            ).len() == 0 {
            assert(files[files.len() - 1] == last);
            assert(of_last.len() == 0);
            assert forall|i: int| 0 <= i < front.len() implies document_violations(
                (#[trigger] front[i]).0@,
                parsed_text(front[i].1@)->0,
                rules,
            ).len() == 0 by {
                assert(front[i] == files[i]);
            }
        }
    }
}

} // verus!
