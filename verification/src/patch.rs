//! Laying the declared constraints of a type over its schema.
//!
//! The schema that synthesis gives knows the shape of a type but not its
//! constraints. For each property of the schema the checks declared for the
//! field of that name are gathered into a patch, and the patch is laid over
//! the property. A check whose field the schema does not have changes
//! nothing.

use crate::names::{distinct_names, NameMap};
use crate::openapi::{Property, PropertyModel, PropertyPatch, Schema, SchemaModel};
use crate::text::{copy_texts, text_of};
use crate::validation::{CheckModel, ConstraintSet, Rule, RuleModel};
use vstd::prelude::*;

verus! {

/// What a `PropertyPatch` holds.
pub struct PatchModel {
    pub min_length: Option<usize>,
    pub max_length: Option<usize>,
    pub minimum: Option<i64>,
    pub maximum: Option<i64>,
    pub pattern: Option<Seq<char>>,
    pub min_items: Option<usize>,
    pub format: Option<Seq<char>>,
}

impl View for PropertyPatch {
    type V = PatchModel;

    open spec fn view(&self) -> PatchModel {
        PatchModel {
            min_length: self.min_length,
            max_length: self.max_length,
            minimum: self.minimum,
            maximum: self.maximum,
            pattern: text_of(self.pattern),
            min_items: self.min_items,
            format: text_of(self.format),
        }
    }
}

/// The patch that changes nothing.
pub open spec fn no_patch() -> PatchModel {
    PatchModel {
        min_length: None,
        max_length: None,
        minimum: None,
        maximum: None,
        pattern: None,
        min_items: None,
        format: None,
    }
}

/// `patch` with what `rule` says written into it. The email rule is the
/// format `email`.
pub open spec fn with_rule(patch: PatchModel, rule: RuleModel) -> PatchModel {
    match rule {
        RuleModel::MinLength(n) => PatchModel { min_length: Some(n), ..patch },
        RuleModel::MaxLength(n) => PatchModel { max_length: Some(n), ..patch },
        RuleModel::Minimum(n) => PatchModel { minimum: Some(n), ..patch },
        RuleModel::Maximum(n) => PatchModel { maximum: Some(n), ..patch },
        RuleModel::Pattern(p) => PatchModel { pattern: Some(p), ..patch },
        RuleModel::MinItems(n) => PatchModel { min_items: Some(n), ..patch },
        RuleModel::Email => PatchModel { format: Some("email"@), ..patch },
    }
}

/// The patch for the field `field`: what the checks of that field say, a
/// later check of a kind replacing an earlier one.
pub open spec fn patch_of(checks: Seq<CheckModel>, field: Seq<char>) -> PatchModel
    decreases checks.len(),
{
    if checks.len() == 0 {
        no_patch()
    } else if checks.last().field == field {
        with_rule(patch_of(checks.drop_last(), field), checks.last().rule)
    } else {
        patch_of(checks.drop_last(), field)
    }
}

/// `node` with `patch` laid over it: each constraint that the patch holds
/// replaces the node's. A reference carries no constraints and is left as it
/// is.
pub open spec fn patched(node: PropertyModel, patch: PatchModel) -> PropertyModel {
    if node.ref_path is Some {
        node
    } else {
        constrained(node, patch)
    }
}

/// `node` with each constraint that `patch` holds in the place of its own.
pub open spec fn constrained(node: PropertyModel, patch: PatchModel) -> PropertyModel {
    PropertyModel {
        min_length: if patch.min_length is Some {
            patch.min_length
        } else {
            node.min_length
        },
        max_length: if patch.max_length is Some {
            patch.max_length
        } else {
            node.max_length
        },
        minimum: if patch.minimum is Some {
            patch.minimum
        } else {
            node.minimum
        },
        maximum: if patch.maximum is Some {
            patch.maximum
        } else {
            node.maximum
        },
        pattern: if patch.pattern is Some {
            patch.pattern
        } else {
            node.pattern
        },
        min_items: if patch.min_items is Some {
            patch.min_items
        } else {
            node.min_items
        },
        format: if patch.format is Some {
            patch.format
        } else {
            node.format
        },
        ..node
    }
}

/// Laying a patch over a node leaves the node well-formed.
pub proof fn lemma_patched_well_formed(node: PropertyModel, patch: PatchModel)
    requires
        node.well_formed(),
    ensures
        patched(node, patch).well_formed(),
{
}

/// Each property with the patch of its name laid over it.
pub open spec fn patched_properties(
    properties: Seq<(Seq<char>, PropertyModel)>,
    checks: Seq<CheckModel>,
) -> Seq<(Seq<char>, PropertyModel)> {
    properties.map_values(
        |e: (Seq<char>, PropertyModel)| (e.0, patched(e.1, patch_of(checks, e.0))),
    )
}

/// `schema` with the constraints of `checks` laid over its properties.
pub open spec fn patched_schema(schema: SchemaModel, checks: Seq<CheckModel>) -> SchemaModel {
    SchemaModel { properties: patched_properties(schema.properties, checks), ..schema }
}

/// The patch for the field `field`.
pub fn patch_for(constraints: &ConstraintSet, field: &str) -> (patch: PropertyPatch)
    ensures
        patch@ == patch_of(constraints@, field@),
{
    let key = String::from_str(field);
    let mut patch = PropertyPatch {
        min_length: None,
        max_length: None,
        minimum: None,
        maximum: None,
        pattern: None,
        min_items: None,
        format: None,
    };
    let mut i: usize = 0;
    while i < constraints.checks.len()
        invariant
            i <= constraints.checks.len(),
            key@ == field@,
            patch@ == patch_of(constraints@.take(i as int), field@),
        decreases constraints.checks.len() - i,
    {
        assert(constraints@.take(i + 1).drop_last() =~= constraints@.take(i as int));
        let check = &constraints.checks[i];
        if check.field == key {
            match &check.rule {
                Rule::MinLength(n) => {
                    patch.min_length = Some(*n);
                },
                Rule::MaxLength(n) => {
                    patch.max_length = Some(*n);
                },
                Rule::Minimum(n) => {
                    patch.minimum = Some(*n);
                },
                Rule::Maximum(n) => {
                    patch.maximum = Some(*n);
                },
                Rule::Pattern(p) => {
                    patch.pattern = Some(p.clone());
                },
                Rule::MinItems(n) => {
                    patch.min_items = Some(*n);
                },
                Rule::Email => {
                    patch.format = Some(String::from_str("email"));
                },
            }
        }
        i += 1;
    }
    assert(constraints@.take(i as int) =~= constraints@);
    patch
}

/// A copy of `node` with `patch` laid over it.
pub fn patch_property(node: &Property, patch: &PropertyPatch) -> (result: Property)
    ensures
        result@ == patched(node@, patch@),
{
    let mut result = node.duplicate();
    if node.ref_path.is_some() {
        return result;
    }
    if patch.min_length.is_some() {
        result.min_length = patch.min_length;
    }
    if patch.max_length.is_some() {
        result.max_length = patch.max_length;
    }
    if patch.minimum.is_some() {
        result.minimum = patch.minimum;
    }
    if patch.maximum.is_some() {
        result.maximum = patch.maximum;
    }
    if let Some(p) = &patch.pattern {
        result.pattern = Some(p.clone());
    }
    if patch.min_items.is_some() {
        result.min_items = patch.min_items;
    }
    if let Some(f) = &patch.format {
        result.format = Some(f.clone());
    }
    result
}

/// A copy of `schema` with the constraints of `constraints` laid over its
/// properties.
pub fn patch_schema(schema: &Schema, constraints: &ConstraintSet) -> (result: Schema)
    ensures
        result@ == patched_schema(schema@, constraints@),
{
    let mut properties: NameMap<Property> = NameMap::new();
    let n = schema.properties.len();
    let ghost wanted = patched_properties(schema@.properties, constraints@);
    let mut i: usize = 0;
    while i < n
        invariant
            i <= n,
            n == schema.properties.entries().len(),
            distinct_names(schema.properties.entries()),
            wanted == patched_properties(schema@.properties, constraints@),
            properties.models() == wanted.take(i as int),
        decreases n - i,
    {
        let name = schema.properties.name_at(i);
        let patch = patch_for(constraints, name.as_str());
        let node = patch_property(schema.properties.value_at(i), &patch);
        properties.store(name.clone(), node);
        i += 1;
    }
    assert(wanted.take(n as int) =~= wanted);
    Schema {
        kind: schema.kind.clone(),
        properties,
        required: copy_texts(&schema.required),
    }
}

} // verus!
