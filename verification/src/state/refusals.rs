//! When a block is accepted, and with which error it is refused, told from the positions of the
//! state diff and the rows of the tables.
use vstd::prelude::*;

use starknet_api::deprecated_contract_class::ContractClass as DeprecatedContractClass;
use starknet_api::state::ContractClass;
#[allow(unused_imports)]
use vstd::std_specs::cmp::PartialEqSpec;

use crate::block::BlockNumber;
use crate::db::DbError;
use crate::felt::{ClassHash, ContractAddress};
#[allow(unused_imports)]
use crate::felt::felt_lt;
#[allow(unused_imports)]
use crate::index_map::{distinct_keys, has_key, key_index, value_of};
use crate::state_diff::StateDiffView;
use crate::storage::{MarkerKind, StateView, StorageError};

#[allow(unused_imports)]
use super::laws::{lemma_all_accepted, lemma_append_accepted, lemma_no_first_error};
#[allow(unused_imports)]
use super::lemmas::{lemma_first_error_step, lemma_value_of};
#[allow(unused_imports)]
use super::merge::lemma_deprecated_classes;
#[allow(unused_imports)]
use super::model::{
    declare_deprecated_error, declare_error, deploy_error, deprecated_classes, first_error,
    replace_error, rows_at,
};

verus! {

/// A block that is not the next one is refused, with the next one and the given one.
pub proof fn law_other_block_refused(
    s: StateView,
    b: BlockNumber,
    diff: StateDiffView,
    definitions: Seq<(ClassHash, DeprecatedContractClass)>,
)
    ensures
        s.markers.contains_key(MarkerKind::State) && s.markers[MarkerKind::State] != b
            ==> s.append_error(b, diff, definitions) == Some(
            StorageError::MarkerMismatch { expected: s.markers[MarkerKind::State], found: b },
        ),
        !s.markers.contains_key(MarkerKind::State) && b.0 != 0 ==> s.append_error(
            b,
            diff,
            definitions,
        ) == Some(StorageError::MarkerMismatch { expected: BlockNumber(0), found: b }),
{
}

/// Whether the block is the next one, and nothing stands against the contracts that it deploys:
/// none has a class or a nonce of the block.
pub open spec fn deployments_free(s: StateView, b: BlockNumber, diff: StateDiffView) -> bool {
    &&& if s.markers.contains_key(MarkerKind::State) {
        s.markers[MarkerKind::State] == b
    } else {
        b.0 == 0
    }
    &&& forall|i: int|
        0 <= i < diff.deployed_contracts.len() ==> {
            &&& !s.deployed_contracts.contains_key(((#[trigger] diff.deployed_contracts[i]).0, b))
            &&& !s.nonces.contains_key((diff.deployed_contracts[i].0, b))
        }
}

/// Whether nothing stands against the replaced classes either: no contract has a class of the
/// block or is deployed by it; and the block has no state diff.
pub open spec fn replacements_free(s: StateView, b: BlockNumber, diff: StateDiffView) -> bool {
    &&& deployments_free(s, b, diff)
    &&& forall|i: int|
        0 <= i < diff.replaced_classes.len() ==> !s.deployed_contracts.contains_key(
            ((#[trigger] diff.replaced_classes[i]).0, b),
        )
    &&& forall|i: int, j: int|
        0 <= i < diff.replaced_classes.len() && 0 <= j < diff.deployed_contracts.len() ==> (
        #[trigger] diff.replaced_classes[i]).0 != (#[trigger] diff.deployed_contracts[j]).0
    &&& !s.state_diffs.contains_key(b)
}

/// Whether nothing stands against the declared Cairo 1 classes either: none has a definition or a
/// block.
pub open spec fn declarations_free(s: StateView, b: BlockNumber, diff: StateDiffView) -> bool {
    &&& replacements_free(s, b, diff)
    &&& forall|i: int|
        0 <= i < diff.declared_classes.len() ==> {
            &&& !s.declared_classes.contains_key((#[trigger] diff.declared_classes[i]).0)
            &&& !s.declared_classes_block.contains_key(diff.declared_classes[i].0)
        }
}

/// Whether the block brings the Cairo 0 definition: it declares the class with it, or is given it
/// and does not declare the class.
pub open spec fn brings(
    diff: StateDiffView,
    definitions: Seq<(ClassHash, DeprecatedContractClass)>,
    h: ClassHash,
    class: DeprecatedContractClass,
) -> bool {
    let declared = diff.deprecated_declared_classes;
    ||| exists|i: int| 0 <= i < declared.len() && #[trigger] declared[i] == (h, class)
    ||| (exists|i: int| 0 <= i < definitions.len() && #[trigger] definitions[i] == (h, class))
        && forall|i: int| 0 <= i < declared.len() ==> (#[trigger] declared[i]).0 != h
}

/// Whether the Cairo 0 class is stored with another definition.
pub open spec fn stored_otherwise(
    s: StateView,
    h: ClassHash,
    class: DeprecatedContractClass,
) -> bool {
    &&& s.deprecated_declared_classes.contains_key(h)
    &&& s.deprecated_declared_classes[h].contract_class != class
    &&& !s.deprecated_declared_classes[h].contract_class.eq_spec(&class)
}

/// The next block with free deployments has no error among them.
proof fn lemma_deployments(
    s: StateView,
    b: BlockNumber,
    diff: StateDiffView,
)
    requires
        deployments_free(s, b, diff),
    ensures
        s.marker(MarkerKind::State) == b,
        first_error(
            diff.deployed_contracts,
            |e: (ContractAddress, ClassHash)|
                deploy_error(s.deployed_contracts, s.nonces, e.0, b),
        ) is None,
{
    lemma_all_accepted(
        diff.deployed_contracts,
        |e: (ContractAddress, ClassHash)| deploy_error(s.deployed_contracts, s.nonces, e.0, b),
    );
}

/// Free replacements have no error among them.
proof fn lemma_replacements(
    s: StateView,
    b: BlockNumber,
    diff: StateDiffView,
)
    requires
        replacements_free(s, b, diff),
    ensures
        first_error(
            diff.replaced_classes,
            |e: (ContractAddress, ClassHash)|
                replace_error(
                    s.deployed_contracts.union_prefer_right(rows_at(diff.deployed_contracts, b)),
                    e.0,
                    b,
                ),
        ) is None,
{
    let rows = s.deployed_contracts.union_prefer_right(rows_at(diff.deployed_contracts, b));
    assert forall|i: int| 0 <= i < diff.replaced_classes.len() implies replace_error(
        rows,
        (#[trigger] diff.replaced_classes[i]).0,
        b,
    ) is None by {
        if has_key(diff.deployed_contracts, diff.replaced_classes[i].0) {
            let j = key_index(diff.deployed_contracts, diff.replaced_classes[i].0);
            assert(diff.deployed_contracts[j].0 == diff.replaced_classes[i].0);
        }
    }
    lemma_all_accepted(
        diff.replaced_classes,
        |e: (ContractAddress, ClassHash)| replace_error(rows, e.0, b),
    );
}

/// With free declarations only the Cairo 0 classes can stand against the block.
proof fn lemma_declarations(
    s: StateView,
    b: BlockNumber,
    diff: StateDiffView,
    definitions: Seq<(ClassHash, DeprecatedContractClass)>,
)
    requires
        declarations_free(s, b, diff),
    ensures
        s.append_error(b, diff, definitions) == first_error(
            deprecated_classes(definitions, diff.deprecated_declared_classes),
            |e: (ClassHash, DeprecatedContractClass)|
                declare_deprecated_error(s.deprecated_declared_classes, e.0, e.1),
        ),
{
    lemma_deployments(s, b, diff);
    lemma_replacements(s, b, diff);
    assert forall|i: int| 0 <= i < diff.class_definitions().len() implies declare_error(
        s.declared_classes,
        s.declared_classes_block,
        (#[trigger] diff.class_definitions()[i]).0,
    ) is None by {
        assert(diff.declared_classes[i].0 == diff.class_definitions()[i].0);
    }
    lemma_all_accepted(
        diff.class_definitions(),
        |e: (ClassHash, ContractClass)|
            declare_error(s.declared_classes, s.declared_classes_block, e.0),
    );
}

/// The first contract that already has a class of the block, or a nonce of the block, refuses the
/// block by its address; the class counts first.
pub proof fn law_deployment_refused(
    s: StateView,
    b: BlockNumber,
    diff: StateDiffView,
    definitions: Seq<(ClassHash, DeprecatedContractClass)>,
    i: int,
)
    requires
        if s.markers.contains_key(MarkerKind::State) {
            s.markers[MarkerKind::State] == b
        } else {
            b.0 == 0
        },
        0 <= i < diff.deployed_contracts.len(),
        forall|j: int|
            0 <= j < i ==> {
                &&& !s.deployed_contracts.contains_key(
                    ((#[trigger] diff.deployed_contracts[j]).0, b),
                )
                &&& !s.nonces.contains_key((diff.deployed_contracts[j].0, b))
            },
    ensures
        s.deployed_contracts.contains_key((diff.deployed_contracts[i].0, b)) ==> s.append_error(
            b,
            diff,
            definitions,
        ) == Some(
            StorageError::ContractAlreadyExists { address: diff.deployed_contracts[i].0 },
        ),
        !s.deployed_contracts.contains_key((diff.deployed_contracts[i].0, b))
            && s.nonces.contains_key((diff.deployed_contracts[i].0, b)) ==> s.append_error(
            b,
            diff,
            definitions,
        ) == Some(
            StorageError::NonceReWrite {
                contract_address: diff.deployed_contracts[i].0,
                nonce: (0u128, 0u128),
                block_number: b,
            },
        ),
{
    let f = |e: (ContractAddress, ClassHash)|
        deploy_error(s.deployed_contracts, s.nonces, e.0, b);
    let first = diff.deployed_contracts.take(i);
    assert forall|j: int| 0 <= j < first.len() implies f(#[trigger] first[j]) is None by {
        assert(first[j] == diff.deployed_contracts[j]);
    }
    lemma_all_accepted(first, f);
    lemma_first_error_step(diff.deployed_contracts, i, f);
}

/// A replaced class of a contract that has a class of the block, or that the block deploys, refuses
/// the block, and so does a state diff that the block has already.
pub proof fn law_replacement_refused(
    s: StateView,
    b: BlockNumber,
    diff: StateDiffView,
    definitions: Seq<(ClassHash, DeprecatedContractClass)>,
)
    requires
        deployments_free(s, b, diff),
        !replacements_free(s, b, diff),
    ensures
        s.append_error(b, diff, definitions) == Some(StorageError::InnerError(DbError::KeyExist)),
{
    let rows = s.deployed_contracts.union_prefer_right(rows_at(diff.deployed_contracts, b));
    let f = |e: (ContractAddress, ClassHash)| replace_error(rows, e.0, b);
    lemma_deployments(s, b, diff);
    lemma_replace_error_is_key_exist(diff.replaced_classes, rows, b);
    if first_error(diff.replaced_classes, f) is None {
        assert forall|i: int| 0 <= i < diff.replaced_classes.len() implies {
            &&& !s.deployed_contracts.contains_key(((#[trigger] diff.replaced_classes[i]).0, b))
            &&& !has_key(diff.deployed_contracts, diff.replaced_classes[i].0)
        } by {
            lemma_no_first_error(diff.replaced_classes, f, i);
            if has_key(diff.deployed_contracts, diff.replaced_classes[i].0) {
                assert(rows_at(diff.deployed_contracts, b).contains_key(
                    (diff.replaced_classes[i].0, b),
                ));
            }
        }
        assert forall|i: int, j: int|
            0 <= i < diff.replaced_classes.len() && 0 <= j < diff.deployed_contracts.len() implies (
        #[trigger] diff.replaced_classes[i]).0 != (#[trigger] diff.deployed_contracts[j]).0 by {
            assert(!has_key(diff.deployed_contracts, diff.replaced_classes[i].0));
        }
    }
}

/// Replaced classes have one error only.
proof fn lemma_replace_error_is_key_exist(
    replaced: Seq<(ContractAddress, ClassHash)>,
    rows: Map<(ContractAddress, BlockNumber), ClassHash>,
    b: BlockNumber,
)
    ensures
        first_error(
            replaced,
            |e: (ContractAddress, ClassHash)| replace_error(rows, e.0, b),
        ) matches Some(e) ==> e == StorageError::InnerError(DbError::KeyExist),
    decreases replaced.len(),
{
    if replaced.len() > 0 {
        lemma_replace_error_is_key_exist(replaced.drop_last(), rows, b);
    }
}

/// The first declared Cairo 1 class that already has a definition or a block refuses the block by
/// its hash.
pub proof fn law_declaration_refused(
    s: StateView,
    b: BlockNumber,
    diff: StateDiffView,
    definitions: Seq<(ClassHash, DeprecatedContractClass)>,
    i: int,
)
    requires
        replacements_free(s, b, diff),
        0 <= i < diff.declared_classes.len(),
        s.declared_classes.contains_key(diff.declared_classes[i].0)
            || s.declared_classes_block.contains_key(diff.declared_classes[i].0),
        forall|j: int|
            0 <= j < i ==> {
                &&& !s.declared_classes.contains_key((#[trigger] diff.declared_classes[j]).0)
                &&& !s.declared_classes_block.contains_key(diff.declared_classes[j].0)
            },
    ensures
        s.append_error(b, diff, definitions) == Some(
            StorageError::ClassAlreadyExists { class_hash: diff.declared_classes[i].0 },
        ),
{
    let classes = diff.class_definitions();
    let f = |e: (ClassHash, ContractClass)|
        declare_error(s.declared_classes, s.declared_classes_block, e.0);
    lemma_deployments(s, b, diff);
    lemma_replacements(s, b, diff);
    let first = classes.take(i);
    assert forall|j: int| 0 <= j < first.len() implies f(#[trigger] first[j]) is None by {
        assert(first[j].0 == diff.declared_classes[j].0);
    }
    lemma_all_accepted(first, f);
    assert(classes[i].0 == diff.declared_classes[i].0);
    lemma_first_error_step(classes, i, f);
}

/// Which definitions a block brings, by positions.
proof fn lemma_brought(
    diff: StateDiffView,
    definitions: Seq<(ClassHash, DeprecatedContractClass)>,
    p: int,
)
    requires
        distinct_keys(diff.deprecated_declared_classes),
        distinct_keys(definitions),
        0 <= p < deprecated_classes(definitions, diff.deprecated_declared_classes).len(),
    ensures
        ({
            let e = deprecated_classes(definitions, diff.deprecated_declared_classes)[p];
            brings(diff, definitions, e.0, e.1)
        }),
{
    let declared = diff.deprecated_declared_classes;
    let all = deprecated_classes(definitions, declared);
    let e = all[p];
    lemma_deprecated_classes(definitions, declared);
    lemma_value_of(all, p);
    assert(has_key(all, e.0));
    if has_key(declared, e.0) {
        let i = key_index(declared, e.0);
        assert(declared[i].0 == e.0);
        assert(value_of(all, e.0) == value_of(declared, e.0));
        assert(declared[i] == (e.0, e.1));
    } else {
        let i = key_index(definitions, e.0);
        assert(has_key(definitions, e.0));
        assert(definitions[i].0 == e.0);
        assert(value_of(all, e.0) == value_of(definitions, e.0));
        assert(definitions[i] == (e.0, e.1));
        assert forall|k: int| 0 <= k < declared.len() implies (#[trigger] declared[k]).0 != e.0 by {
            if declared[k].0 == e.0 {
                assert(has_key(declared, e.0));
            }
        }
    }
}

/// Where a brought definition stands among all that a block brings.
proof fn place_of_brought(
    diff: StateDiffView,
    definitions: Seq<(ClassHash, DeprecatedContractClass)>,
    h: ClassHash,
    class: DeprecatedContractClass,
) -> (p: int)
    requires
        distinct_keys(diff.deprecated_declared_classes),
        distinct_keys(definitions),
        brings(diff, definitions, h, class),
    ensures
        0 <= p < deprecated_classes(definitions, diff.deprecated_declared_classes).len(),
        deprecated_classes(definitions, diff.deprecated_declared_classes)[p] == (h, class),
{
    let declared = diff.deprecated_declared_classes;
    let all = deprecated_classes(definitions, declared);
    lemma_deprecated_classes(definitions, declared);
    if exists|i: int| 0 <= i < declared.len() && #[trigger] declared[i] == (h, class) {
        let i = choose|i: int| 0 <= i < declared.len() && #[trigger] declared[i] == (h, class);
        lemma_value_of(declared, i);
    } else {
        let i = choose|i: int|
            0 <= i < definitions.len() && #[trigger] definitions[i] == (h, class);
        lemma_value_of(definitions, i);
        assert(!has_key(declared, h));
    }
    assert(has_key(all, h));
    assert(value_of(all, h) == class);
    let p = key_index(all, h);
    assert(all[p].0 == h);
    p
}

/// A block is accepted exactly if it is the next one, no contract that it deploys has a class or a
/// nonce of the block, no contract whose class it replaces has a class of the block or is deployed
/// by it, it has no state diff, no Cairo 1 class that it declares has a definition or a block, and
/// no Cairo 0 class that it brings is stored with another definition.
pub proof fn law_append_accepted_exactly(
    s: StateView,
    b: BlockNumber,
    diff: StateDiffView,
    definitions: Seq<(ClassHash, DeprecatedContractClass)>,
)
    requires
        diff.valid(),
        distinct_keys(definitions),
    ensures
        s.append_error(b, diff, definitions) is None <==> declarations_free(s, b, diff) && forall|
            h: ClassHash,
            class: DeprecatedContractClass,
        |
            brings(diff, definitions, h, class) ==> !#[trigger] stored_otherwise(s, h, class),
{
    let all = deprecated_classes(definitions, diff.deprecated_declared_classes);
    let f = |e: (ClassHash, DeprecatedContractClass)|
        declare_deprecated_error(s.deprecated_declared_classes, e.0, e.1);
    if s.append_error(b, diff, definitions) is None {
        lemma_append_accepted(s, b, diff, definitions);
        assert forall|i: int| 0 <= i < diff.deployed_contracts.len() implies {
            &&& !s.deployed_contracts.contains_key(((#[trigger] diff.deployed_contracts[i]).0, b))
            &&& !s.nonces.contains_key((diff.deployed_contracts[i].0, b))
        } by {
            assert(has_key(diff.deployed_contracts, diff.deployed_contracts[i].0));
        }
        assert forall|i: int| 0 <= i < diff.replaced_classes.len() implies
            !s.deployed_contracts.contains_key(((#[trigger] diff.replaced_classes[i]).0, b)) by {
            assert(has_key(diff.replaced_classes, diff.replaced_classes[i].0));
        }
        assert forall|i: int, j: int|
            0 <= i < diff.replaced_classes.len() && 0 <= j < diff.deployed_contracts.len() implies (
        #[trigger] diff.replaced_classes[i]).0 != (#[trigger] diff.deployed_contracts[j]).0 by {
            assert(has_key(diff.replaced_classes, diff.replaced_classes[i].0));
            assert(!has_key(diff.deployed_contracts, diff.replaced_classes[i].0));
        }
        assert forall|i: int| 0 <= i < diff.declared_classes.len() implies {
            &&& !s.declared_classes.contains_key((#[trigger] diff.declared_classes[i]).0)
            &&& !s.declared_classes_block.contains_key(diff.declared_classes[i].0)
        } by {
            assert(has_key(diff.declared_classes, diff.declared_classes[i].0));
        }
        assert(declarations_free(s, b, diff));
        lemma_declarations(s, b, diff, definitions);
        assert forall|h: ClassHash, class: DeprecatedContractClass|
            brings(diff, definitions, h, class) implies !#[trigger] stored_otherwise(
            s,
            h,
            class,
        ) by {
            let p = place_of_brought(diff, definitions, h, class);
            lemma_no_first_error(all, f, p);
        }
    }
    if declarations_free(s, b, diff) && forall|h: ClassHash, class: DeprecatedContractClass|
        brings(diff, definitions, h, class) ==> !#[trigger] stored_otherwise(s, h, class) {
        lemma_declarations(s, b, diff, definitions);
        assert forall|p: int| 0 <= p < all.len() implies f(#[trigger] all[p]) is None by {
            lemma_brought(diff, definitions, p);
            assert(!stored_otherwise(s, all[p].0, all[p].1));
        }
        lemma_all_accepted(all, f);
    }
}

/// A Cairo 0 class that is stored with another definition refuses the block by its hash. With
/// definitions both declared and given it is the one with the smallest hash, as a number; else the
/// first one in the order that they are declared or given in.
pub proof fn law_deprecated_declaration_refused(
    s: StateView,
    b: BlockNumber,
    diff: StateDiffView,
    definitions: Seq<(ClassHash, DeprecatedContractClass)>,
    h: ClassHash,
    class: DeprecatedContractClass,
)
    requires
        diff.valid(),
        distinct_keys(definitions),
        declarations_free(s, b, diff),
        brings(diff, definitions, h, class),
        stored_otherwise(s, h, class),
    ensures
        diff.deprecated_declared_classes.len() > 0 && definitions.len() > 0 && (forall|
            k: ClassHash,
            other: DeprecatedContractClass,
        |
            brings(diff, definitions, k, other) && (k.0 < h.0 || (k.0 == h.0 && k.1 < h.1))
                ==> !#[trigger] stored_otherwise(s, k, other)) ==> s.append_error(
            b,
            diff,
            definitions,
        ) == Some(StorageError::ClassAlreadyExists { class_hash: h }),
        forall|i: int|
            definitions.len() == 0 && 0 <= i < diff.deprecated_declared_classes.len() && (
            #[trigger] diff.deprecated_declared_classes[i]) == (h, class) && (forall|j: int|
                0 <= j < i ==> !stored_otherwise(
                    s,
                    (#[trigger] diff.deprecated_declared_classes[j]).0,
                    diff.deprecated_declared_classes[j].1,
                )) ==> s.append_error(b, diff, definitions) == Some(
                StorageError::ClassAlreadyExists { class_hash: h },
            ),
        forall|i: int|
            diff.deprecated_declared_classes.len() == 0 && 0 <= i < definitions.len() && (
            #[trigger] definitions[i]) == (h, class) && (forall|j: int|
                0 <= j < i ==> !stored_otherwise(
                    s,
                    (#[trigger] definitions[j]).0,
                    definitions[j].1,
                )) ==> s.append_error(b, diff, definitions) == Some(
                StorageError::ClassAlreadyExists { class_hash: h },
            ),
{
    let declared = diff.deprecated_declared_classes;
    let all = deprecated_classes(definitions, declared);
    let f = |e: (ClassHash, DeprecatedContractClass)|
        declare_deprecated_error(s.deprecated_declared_classes, e.0, e.1);
    lemma_declarations(s, b, diff, definitions);
    lemma_deprecated_classes(definitions, declared);
    let p = place_of_brought(diff, definitions, h, class);
    let first = all.take(p);
    if declared.len() > 0 && definitions.len() > 0 && (forall|
        k: ClassHash,
        other: DeprecatedContractClass,
    |
        brings(diff, definitions, k, other) && (k.0 < h.0 || (k.0 == h.0 && k.1 < h.1))
            ==> !#[trigger] stored_otherwise(s, k, other)) {
        assert forall|j: int| 0 <= j < first.len() implies f(#[trigger] first[j]) is None by {
            assert(first[j] == all[j]);
            lemma_brought(diff, definitions, j);
            assert(felt_lt(all[j].0, all[p].0));
            assert(!stored_otherwise(s, all[j].0, all[j].1));
        }
        lemma_all_accepted(first, f);
        lemma_first_error_step(all, p, f);
    }
    assert forall|i: int|
        definitions.len() == 0 && 0 <= i < declared.len() && (#[trigger] declared[i]) == (h, class)
            && (forall|j: int|
            0 <= j < i ==> !stored_otherwise(s, (#[trigger] declared[j]).0, declared[j].1)) implies
        s.append_error(b, diff, definitions) == Some(
        StorageError::ClassAlreadyExists { class_hash: h },
    ) by {
        let front = declared.take(i);
        assert forall|j: int| 0 <= j < front.len() implies f(#[trigger] front[j]) is None by {
            assert(front[j] == declared[j]);
        }
        lemma_all_accepted(front, f);
        lemma_first_error_step(declared, i, f);
    }
    assert forall|i: int|
        declared.len() == 0 && 0 <= i < definitions.len() && (#[trigger] definitions[i]) == (
        h, class) && (forall|j: int|
            0 <= j < i ==> !stored_otherwise(s, (#[trigger] definitions[j]).0, definitions[j].1))
            implies s.append_error(b, diff, definitions) == Some(
        StorageError::ClassAlreadyExists { class_hash: h },
    ) by {
        let front = definitions.take(i);
        assert forall|j: int| 0 <= j < front.len() implies f(#[trigger] front[j]) is None by {
            assert(front[j] == definitions[j]);
        }
        lemma_all_accepted(front, f);
        if definitions.len() > 0 {
            assert(all == if definitions.len() == 0 { declared } else { definitions });
        }
        lemma_first_error_step(definitions, i, f);
    }
}

} // verus!
