//! The rules of a run, resolved against one document: every namespace
//! prefix is replaced by the URI that the document's root element binds it to.

use vstd::prelude::*;
use crate::config::{Attribute, AttributeView, Config, Rule};
use crate::tag_map::TagMap;
use crate::xml::{bound, document_view, lookup_root_namespace, namespace_view};

verus! {

/// For each tag name, the resolved attributes that its elements must carry.
pub type Requirements = TagMap<Vec<ResolvedName>>;

/// A required attribute as one document names it: by namespace URI and local
/// name. Two of them name the same attribute when both of these agree.
#[derive(Debug, PartialEq)]
pub struct ResolvedName {
    /// The requirement as it was written.
    pub raw: String,
    /// The namespace of the attribute; none for a requirement without prefix.
    pub namespace: Option<String>,
    /// The local name of the attribute.
    pub name: String,
}

/// A resolved attribute as a mathematical value.
pub ghost struct ResolvedView {
    pub raw: Seq<char>,
    pub namespace: Option<Seq<char>>,
    pub name: Seq<char>,
}

impl View for ResolvedName {
    type V = ResolvedView;

    open spec fn view(&self) -> ResolvedView {
        ResolvedView { raw: self.raw@, namespace: namespace_view(self.namespace), name: self.name@ }
    }
}

/// The namespace that a prefix stands for under the bindings of a document's
/// root element: the bound URI, or the prefix itself where the root binds
/// none.
pub open spec fn namespace_of(prefix: Seq<char>, bindings: Map<Seq<char>, Seq<char>>) -> Seq<char> {
    match bound(bindings, prefix) {
        Some(uri) => uri,
        None => prefix,
    }
}

/// The attribute that a requirement names under the bindings of a document's
/// root element.
pub open spec fn resolved(attribute: AttributeView, bindings: Map<Seq<char>, Seq<char>>) -> ResolvedView {
    ResolvedView {
        raw: attribute.raw,
        namespace: match attribute.ns {
            Some(prefix) => Some(namespace_of(prefix, bindings)),
            None => None,
        },
        name: attribute.name,
    }
}

/// The attributes that the requirements of one rule name under given
/// bindings, in the rule's order.
pub open spec fn resolved_rule(rule: Seq<AttributeView>, bindings: Map<Seq<char>, Seq<char>>) -> Seq<
    ResolvedView,
> {
    Seq::new(rule.len(), |i: int| resolved(rule[i], bindings))
}

/// The rules of a run, resolved under given bindings.
pub open spec fn resolved_rules(rules: Map<Seq<char>, Rule>, bindings: Map<Seq<char>, Seq<char>>) -> Map<
    Seq<char>,
    Seq<ResolvedView>,
> {
    rules.map_values(|rule: Rule| resolved_rule(rule@, bindings))
}

/// A list of resolved attributes as mathematical values.
pub open spec fn names_view(names: Vec<ResolvedName>) -> Seq<ResolvedView> {
    Seq::new(names@.len(), |i: int| names@[i]@)
}

/// Resolved rules as a mathematical map.
pub open spec fn requirements_view(requirements: Requirements) -> Map<Seq<char>, Seq<ResolvedView>> {
    requirements@.map_values(|names: Vec<ResolvedName>| names_view(names))
}

impl ResolvedName {
    /// Whether two resolved names name the same attribute: whether they agree
    /// in namespace and local name, whatever was written.
    pub fn same_attribute(&self, other: &ResolvedName) -> (same: bool)
        ensures
            same == (self@.namespace == other@.namespace && self@.name == other@.name),
    {
        let same_namespace = match (&self.namespace, &other.namespace) {
            (Some(a), Some(b)) => *a == *b,
            (None, None) => true,
            _ => false,
        };
        same_namespace && self.name == other.name
    }
}

/// Resolves one requirement against a document. A requirement without prefix
/// names an attribute without namespace. A prefix stands for the URI that the
/// document's root element binds it to, and for itself where the root binds
/// none.
pub fn resolve_attr(attr: &Attribute, doc: &roxmltree::Document) -> (name: ResolvedName)
    ensures
        name@ == resolved(attr@, document_view(*doc).root_namespaces),
{
    let namespace = match &attr.ns {
        Some(prefix) => {
            match lookup_root_namespace(doc, prefix.as_str()) {
                Some(uri) => Some(uri),
                None => Some(prefix.clone()),
            }
        },
        None => None,
    };
    ResolvedName { raw: attr.raw.clone(), namespace, name: attr.name.clone() }
}

/// Resolves the requirements of one rule, in order.
pub fn resolve_rule(rule: &Rule, doc: &roxmltree::Document) -> (names: Vec<ResolvedName>)
    ensures
        names_view(names) == resolved_rule(rule@, document_view(*doc).root_namespaces),
{
    let mut names: Vec<ResolvedName> = Vec::new();
    let mut i: usize = 0;
    while i < rule.required.len()
        invariant
            i <= rule.required.len(),
            names@.len() == i,
            forall|j: int| 0 <= j < i ==> names@[j]@ == resolved(rule.required@[j]@, document_view(*doc).root_namespaces),
        decreases rule.required.len() - i,
    {
        names.push(resolve_attr(&rule.required[i], doc));
        i += 1;
    }
    assert(names_view(names) =~= resolved_rule(rule@, document_view(*doc).root_namespaces));
    names
}

/// Resolves every rule against a document: the result has the tags of the
/// rules, and for each tag the rule's requirements, resolved, in the rule's
/// order.
pub fn resolve(config: &Config, doc: &roxmltree::Document) -> (requirements: Requirements)
    requires
        config.wf(),
    ensures
        requirements.wf(),
        requirements_view(requirements) == resolved_rules(config@, document_view(*doc).root_namespaces),
{
    let mut requirements: Requirements = TagMap::new();
    let mut i: usize = 0;
    while i < config.len()
        invariant
            config.wf(),
            requirements.wf(),
            config.tags().no_duplicates(),
            config.tags().len() == config.values().len(),
            i <= config.tags().len(),
            requirements.tags() == config.tags().take(i as int),
            requirements.values().len() == i,
            forall|j: int| 0 <= j < i ==> names_view(#[trigger] requirements.values()[j]) == resolved_rule(
                config.values()[j]@,
                document_view(*doc).root_namespaces,
            ),
        decreases config.tags().len() - i,
    {
        let tag = config.tag_at(i).clone();
        let names = resolve_rule(config.value_at(i), doc);
        proof {
            if requirements.tags().contains(tag@) {
                let j = requirements.tags().index_of(tag@);
                assert(config.tags()[j] == tag@);
                assert(config.tags()[i as int] == tag@);
            }
            assert(config.tags().take(i as int).push(tag@) =~= config.tags().take(i + 1));
        }
        requirements.insert(tag, names);
        i += 1;
    }
    proof {
        assert(config.tags().take(i as int) =~= config.tags());
        assert forall|tag: Seq<char>| config.tags().contains(tag) implies #[trigger] requirements_view(
            requirements,
        )[tag] == resolved_rules(config@, document_view(*doc).root_namespaces)[tag] by {
            let j = config.tags().index_of(tag);
            assert(config.tags()[j] == tag);
        }
        assert(requirements_view(requirements) =~= resolved_rules(config@, document_view(*doc).root_namespaces));
    }
    requirements
}

} // verus!
