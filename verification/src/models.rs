//! Entity declarations: the descriptor record for one API entity type,
//! and what it contributes to a request — the field-name list and the
//! relation expansion strings.

use vstd::prelude::*;

use crate::text::{
    clone_names, join_all, join_with, lemma_views_of_concat, lemma_views_of_push, views_of,
};

verus! {

/// The per-entity declaration hook: a type that stands for one API
/// entity names its endpoint path and its selection metadata, exactly
/// what a [`Descriptor`] value holds. The library itself declares no
/// entities; all are caller-declared.
pub trait Model {
    fn endpoint() -> String;

    fn field_names() -> Vec<String>;

    fn opt_strings() -> Vec<String>;
}

/// One related entity type to expand inline on a response: its endpoint
/// path and its declared own-field names.
pub struct Relation {
    pub endpoint: String,
    pub fields: Vec<String>,
}

/// The declarative record for one API entity type: its endpoint path,
/// the declared own-field names in declaration order, and the related
/// entity types to expand inline.
pub struct Descriptor {
    pub endpoint: String,
    pub own_fields: Vec<String>,
    pub relations: Vec<Relation>,
}

/// The two field names every entity carries without being declared.
pub open spec fn is_implicit_name(k: Seq<char>) -> bool {
    k == "gid"@ || k == "resource_type"@
}

/// The declared own-field names of `d`, as character sequences.
pub open spec fn own_names(d: Descriptor) -> Seq<Seq<char>> {
    views_of(d.own_fields@)
}

/// The selectable field names of `d`: the discriminator first, then the
/// declared own fields in declaration order. The identifier field is
/// implicit and never listed.
pub open spec fn field_names_of(d: Descriptor) -> Seq<Seq<char>> {
    seq!["resource_type"@] + own_names(d)
}

/// The selectable field names a relation contributes, shaped as
/// [`field_names_of`].
pub open spec fn relation_names_of(rl: Relation) -> Seq<Seq<char>> {
    seq!["resource_type"@] + views_of(rl.fields@)
}

/// The expansion expression of one relation:
/// `{endpoint}.({field names joined by '|'})`.
pub open spec fn relation_expr(rl: Relation) -> Seq<char> {
    rl.endpoint@ + ".("@ + join_with(relation_names_of(rl), "|"@) + ")"@
}

/// The expansion expressions of all relations of `d`, in order.
pub open spec fn opt_strings_of(d: Descriptor) -> Seq<Seq<char>> {
    d.relations@.map_values(|rl: Relation| relation_expr(rl))
}

/// The whole field-selection value:
/// `this.({field names joined by '|'}),{relation expressions joined by ','}`.
/// The separator before the relation list stays even where that list is
/// empty, faithful to the wire format this client has always sent.
pub open spec fn opt_fields_of(d: Descriptor) -> Seq<char> {
    "this.("@ + join_with(field_names_of(d), "|"@) + "),"@ + join_with(opt_strings_of(d), ","@)
}

/// The discriminator name followed by copies of `fields`.
fn with_discriminator(fields: &Vec<String>) -> (r: Vec<String>)
    ensures
        views_of(r@) == seq!["resource_type"@] + views_of(fields@),
{
    let mut r: Vec<String> = Vec::new();
    r.push("resource_type".to_owned());
    let ghost r1 = r@;
    let mut rest = clone_names(fields);
    let ghost rest0 = rest@;
    r.append(&mut rest);
    proof {
        lemma_views_of_concat(r1, rest0);
        assert(views_of(r1) =~= seq!["resource_type"@]);
        assert(views_of(r@) =~= seq!["resource_type"@] + views_of(fields@));
    }
    r
}

impl Descriptor {
    /// Builds a descriptor. A malformed declaration — an empty endpoint
    /// path, a repeated field name, or a declared field shadowing one of
    /// the two implicit ones — is a mistake at declaration time, which
    /// callers rule out up front; no runtime error path exists here.
    pub fn new(endpoint: String, own_fields: Vec<String>, relations: Vec<Relation>) -> (d:
        Descriptor)
        requires
            endpoint@.len() > 0,
            forall|i: int, j: int|
                0 <= i < j < own_fields@.len() ==> own_fields@[i]@ != own_fields@[j]@,
            forall|i: int| 0 <= i < own_fields@.len() ==> !is_implicit_name(own_fields@[i]@),
        ensures
            d.endpoint == endpoint,
            d.own_fields == own_fields,
            d.relations == relations,
    {
        Descriptor { endpoint, own_fields, relations }
    }

    /// The endpoint path of this entity type.
    pub fn endpoint(&self) -> (r: String)
        ensures
            r@ == self.endpoint@,
    {
        self.endpoint.clone()
    }

    /// The selectable field names: the discriminator first, then the
    /// declared own fields in declaration order.
    pub fn field_names(&self) -> (r: Vec<String>)
        ensures
            views_of(r@) == field_names_of(*self),
    {
        with_discriminator(&self.own_fields)
    }

    /// The relation expansion expressions, one per declared relation, in
    /// declaration order.
    pub fn opt_strings(&self) -> (r: Vec<String>)
        ensures
            views_of(r@) == opt_strings_of(*self),
    {
        let ghost target = opt_strings_of(*self);
        let mut r: Vec<String> = Vec::new();
        let mut i: usize = 0;
        while i < self.relations.len()
            invariant
                0 <= i <= self.relations@.len(),
                target == opt_strings_of(*self),
                target.len() == self.relations@.len(),
                views_of(r@) == target.take(i as int),
            decreases self.relations@.len() - i,
        {
            let rl: &Relation = &self.relations[i];
            let s = relation_expr_value(rl);
            let ghost r0 = r@;
            r.push(s);
            proof {
                lemma_views_of_push(r0, s);
                assert(target[i as int] == relation_expr(self.relations@[i as int]));
                assert(target.take(i as int).push(target[i as int]) =~= target.take(i as int + 1));
            }
            i = i + 1;
        }
        proof {
            assert(target.take(self.relations@.len() as int) =~= target);
        }
        r
    }

    /// This entity type, as a relation another descriptor can expand.
    pub fn as_relation(&self) -> (r: Relation)
        ensures
            r.endpoint@ == self.endpoint@,
            views_of(r.fields@) == views_of(self.own_fields@),
    {
        Relation { endpoint: self.endpoint.clone(), fields: clone_names(&self.own_fields) }
    }

    /// The whole field-selection value carried as the `opt_fields` query
    /// parameter.
    pub fn opt_fields_value(&self) -> (r: String)
        ensures
            r@ == opt_fields_of(*self),
    {
        let mut r = String::from_str("this.(");
        let names = self.field_names();
        let joined = join_all(&names, "|");
        r.append(joined.as_str());
        r.append("),");
        let exprs = self.opt_strings();
        let joined_exprs = join_all(&exprs, ",");
        r.append(joined_exprs.as_str());
        proof {
            assert(r@ =~= opt_fields_of(*self));
        }
        r
    }
}

/// The expansion expression of one relation, as sent on the wire.
fn relation_expr_value(rl: &Relation) -> (r: String)
    ensures
        r@ == relation_expr(*rl),
{
    let mut r = rl.endpoint.clone();
    r.append(".(");
    let names = with_discriminator(&rl.fields);
    let joined = join_all(&names, "|");
    r.append(joined.as_str());
    r.append(")");
    proof {
        assert(r@ =~= relation_expr(*rl));
    }
    r
}

} // verus!
