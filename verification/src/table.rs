//! The component table builder: for every declared component type name, the
//! generation artifacts everything else is assembled from — the storage
//! field name, the collection name, and the fluent builder method name.
//!
//! A schema that names the same component type twice is deduplicated by type
//! name. Two distinct type names that collide after the collection name is
//! derived are rejected: silently overwriting one table entry with the other
//! would lose a component.

use vstd::prelude::*;

use crate::names::{camel_to_snake_case, collection_of, snake_of, type_to_collection_name};
use crate::schema::{GenError, GenErrorView};

verus! {

/// One component's derived generation artifacts.
#[derive(Debug)]
pub struct Component {
    /// The component's type name, as declared.
    pub name: String,
    /// The entity-record field name: the type name in snake case.
    pub var_name: String,
    /// The storage collection name: the field name pluralized.
    pub collection_name: String,
    /// The fluent builder method name on the entity record.
    pub builder_name: String,
}

/// The mathematical shape of a component table entry.
#[verifier::ext_equal]
pub struct ComponentView {
    pub name: Seq<char>,
    pub var_name: Seq<char>,
    pub collection_name: Seq<char>,
    pub builder_name: Seq<char>,
}

impl DeepView for Component {
    type V = ComponentView;

    open spec fn deep_view(&self) -> ComponentView {
        ComponentView {
            name: self.name@,
            var_name: self.var_name@,
            collection_name: self.collection_name@,
            builder_name: self.builder_name@,
        }
    }
}

/// The builder method name derived from a component type name.
pub open spec fn builder_of(name: Seq<char>) -> Seq<char> {
    "with_"@ + snake_of(name)
}

/// The table entry derived from a component type name.
pub open spec fn component_of(name: Seq<char>) -> ComponentView {
    ComponentView {
        name: name,
        var_name: snake_of(name),
        collection_name: collection_of(name),
        builder_name: builder_of(name),
    }
}

/// The declared names with repeats dropped: each name keeps its first
/// occurrence's position.
pub open spec fn dedup_names(names: Seq<Seq<char>>) -> Seq<Seq<char>>
    decreases names.len(),
{
    if names.len() == 0 {
        Seq::empty()
    } else {
        let rest = dedup_names(names.drop_last());
        if rest.contains(names.last()) {
            rest
        } else {
            rest.push(names.last())
        }
    }
}

/// Whether two distinct positions in `names` derive the same collection
/// name.
pub open spec fn has_collection_collision(names: Seq<Seq<char>>) -> bool {
    exists|a: int, b: int|
        0 <= a < b < names.len() && collection_of(names[a]) == collection_of(names[b])
}

/// The component table derived from a declared name sequence.
pub open spec fn spec_component_table(names: Seq<Seq<char>>) -> Seq<ComponentView> {
    dedup_names(names).map_values(|n: Seq<char>| component_of(n))
}

/// Whether `v` holds a string whose characters are `name`.
pub fn contains_name(v: &Vec<String>, name: &String) -> (b: bool)
    ensures
        b == v.deep_view().contains(name@),
{
    let mut j: usize = 0;
    while j < v.len()
        invariant
            j <= v.len(),
            forall|t: int| 0 <= t < j ==> v.deep_view()[t] != name@,
        decreases v.len() - j,
    {
        if v[j].eq(name) {
            assert(v.deep_view()[j as int] == name@);
            return true;
        }
        j += 1;
    }
    false
}

impl Component {
    /// Derives one component's table entry from its type name.
    pub fn generate(ty: &String) -> (c: Component)
        ensures
            c.deep_view() == component_of(ty@),
    {
        let var_name = camel_to_snake_case(ty.as_str());
        let collection_name = type_to_collection_name(ty.as_str());
        let mut builder_name = String::from_str("with_");
        builder_name.append(var_name.as_str());
        Component { name: ty.clone(), var_name, collection_name, builder_name }
    }
}

/// Builds the component table: deduplicates the declared names by type name,
/// derives each entry, and rejects a derived collection name that two
/// distinct type names share.
pub fn build_components(names: &Vec<String>) -> (r: Result<Vec<Component>, GenError>)
    ensures
        match r {
            Ok(table) => {
                &&& !has_collection_collision(dedup_names(names.deep_view()))
                &&& table.deep_view() == spec_component_table(names.deep_view())
            },
            Err(e) => {
                &&& has_collection_collision(dedup_names(names.deep_view()))
                &&& e.deep_view() matches GenErrorView::DuplicateCollectionName(n)
                    && dedup_names(names.deep_view()).contains(n)
            },
        },
{
    let ghost names_v = names.deep_view();

    // First pass: drop repeated type names, keeping first-occurrence order.
    let mut taken: Vec<String> = Vec::new();
    let mut i: usize = 0;
    proof {
        assert(taken.deep_view() =~= Seq::<Seq<char>>::empty());
        assert(names_v.take(0) =~= Seq::<Seq<char>>::empty());
    }
    while i < names.len()
        invariant
            i <= names.len(),
            names_v == names.deep_view(),
            names_v.len() == names.len(),
            taken.deep_view() == dedup_names(names_v.take(i as int)),
        decreases names.len() - i,
    {
        proof {
            assert(names_v.take(i + 1).drop_last() =~= names_v.take(i as int));
            assert(names_v.take(i + 1).last() == names_v[i as int]);
            assert(names_v[i as int] == names[i as int].deep_view());
        }
        let ghost before = taken.deep_view();
        let name = &names[i];
        if !contains_name(&taken, name) {
            let ghost before_v = taken@;
            taken.push(name.clone());
            proof {
                assert forall|t: int| 0 <= t < taken.deep_view().len() implies taken.deep_view()[t]
                    == before.push(names_v[i as int])[t] by {
                    assert(taken.deep_view()[t] == taken@[t].deep_view());
                    if t < before.len() {
                        assert(taken@[t] == before_v[t]);
                        assert(before[t] == before_v[t].deep_view());
                    }
                }
                assert(taken.deep_view() =~= before.push(names_v[i as int]));
            }
        }
        i += 1;
    }
    proof {
        assert(names_v.take(names_v.len() as int) =~= names_v);
    }
    let ghost dedup_v = dedup_names(names_v);

    // Second pass: derive each entry, rejecting a collection name already
    // derived from an earlier, distinct type name.
    let mut table: Vec<Component> = Vec::new();
    let mut collections: Vec<String> = Vec::new();
    let mut j: usize = 0;
    proof {
        assert(table.deep_view() =~= Seq::<ComponentView>::empty());
        assert(collections.deep_view() =~= Seq::<Seq<char>>::empty());
        assert(dedup_v.take(0) =~= Seq::<Seq<char>>::empty());
        assert(dedup_v.take(0).map_values(|n: Seq<char>| component_of(n)) =~= Seq::<
            ComponentView,
        >::empty());
    }
    while j < taken.len()
        invariant
            j <= taken.len(),
            dedup_v == dedup_names(names.deep_view()),
            names_v == names.deep_view(),
            taken.deep_view() == dedup_v,
            taken.len() == dedup_v.len(),
            table.deep_view() == dedup_v.take(j as int).map_values(
                |n: Seq<char>| component_of(n),
            ),
            collections.deep_view().len() == j,
            forall|t: int| 0 <= t < j ==> collections.deep_view()[t] == collection_of(
                dedup_v[t],
            ),
            !has_collection_collision(dedup_v.take(j as int)),
        decreases taken.len() - j,
    {
        proof {
            assert(dedup_v[j as int] == taken[j as int].deep_view());
        }
        let entry = Component::generate(&taken[j]);
        if contains_name(&collections, &entry.collection_name) {
            proof {
                let t = choose|t: int|
                    0 <= t < collections.deep_view().len() && collections.deep_view()[t]
                        == entry.collection_name@;
                assert(collection_of(dedup_v[t]) == collection_of(dedup_v[j as int]));
                assert(has_collection_collision(dedup_v));
            }
            return Err(GenError::DuplicateCollectionName(entry.name));
        }
        let ghost tbl_before = table.deep_view();
        let ghost tbl_before_v = table@;
        let ghost cols_before = collections.deep_view();
        let ghost cols_before_v = collections@;
        collections.push(entry.collection_name.clone());
        table.push(entry);
        proof {
            assert forall|t: int| 0 <= t < table.deep_view().len() implies table.deep_view()[t]
                == tbl_before.push(component_of(dedup_v[j as int]))[t] by {
                assert(table.deep_view()[t] == table@[t].deep_view());
                if t < tbl_before.len() {
                    assert(table@[t] == tbl_before_v[t]);
                    assert(tbl_before[t] == tbl_before_v[t].deep_view());
                }
            }
            assert(table.deep_view() =~= tbl_before.push(component_of(dedup_v[j as int])));
            assert(dedup_v.take(j + 1).drop_last() =~= dedup_v.take(j as int));
            assert(dedup_v.take(j + 1) =~= dedup_v.take(j as int).push(dedup_v[j as int]));
            assert(dedup_v.take(j + 1).map_values(|n: Seq<char>| component_of(n)) =~= dedup_v.take(
                j as int,
            ).map_values(|n: Seq<char>| component_of(n)).push(component_of(dedup_v[j as int])));
            assert forall|t: int| 0 <= t < collections.deep_view().len() implies
                collections.deep_view()[t] == cols_before.push(
                collection_of(dedup_v[j as int]),
            )[t] by {
                assert(collections.deep_view()[t] == collections@[t].deep_view());
                if t < cols_before.len() {
                    assert(collections@[t] == cols_before_v[t]);
                    assert(cols_before[t] == cols_before_v[t].deep_view());
                }
            }
            assert(collections.deep_view() =~= cols_before.push(collection_of(dedup_v[j as int])));
            assert forall|a: int, b: int|
                #![trigger dedup_v.take(j + 1)[a], dedup_v.take(j + 1)[b]]
                0 <= a < b < j + 1 implies collection_of(dedup_v.take(j + 1)[a]) != collection_of(
                dedup_v.take(j + 1)[b],
            ) by {
                if b < j {
                    assert(!has_collection_collision(dedup_v.take(j as int)));
                    assert(dedup_v.take(j as int)[a] == dedup_v[a]);
                    assert(dedup_v.take(j as int)[b] == dedup_v[b]);
                    if collection_of(dedup_v.take(j + 1)[a]) == collection_of(
                        dedup_v.take(j + 1)[b],
                    ) {
                        assert(has_collection_collision(dedup_v.take(j as int)));
                    }
                } else if b == j {
                    assert(cols_before[a] == collection_of(dedup_v[a]));
                    assert(!cols_before.contains(collection_of(dedup_v[j as int])));
                }
            }
            assert(!has_collection_collision(dedup_v.take(j + 1)));
        }
        j += 1;
    }
    proof {
        assert(dedup_v.take(dedup_v.len() as int) =~= dedup_v);
    }
    Ok(table)
}

} // verus!
