//! Backend duplication: one block written for the primary backend, and a
//! copy of it for the secondary backend, each behind its own feature.
//!
//! The copy is made on the block's token text by literal replacement, so
//! every occurrence of the primary backend's name is rewritten, wherever it
//! stands: inside a longer name and inside a string too.

use crate::error::ExpandError;
use crate::expansion::{Expansion, Gate, GatedItem, GatedItemView};
use crate::parser::{is_item_fn, is_item_impl, parses_as_item_fn, parses_as_item_impl};
use crate::text::{
    count_before, lemma_replace_every, lemma_replace_idempotent, lemma_replace_leaves_none,
    lemma_replace_prefix, no_common_char, occurs_at, occurs_in, overlaps_itself, replace,
    replace_all,
};
use vstd::prelude::*;
use vstd::string::*;

verus! {

/// An implementation block with the secondary backend written for the
/// primary one.
pub open spec fn stack_impl_text(block: Seq<char>) -> Seq<char> {
    replace_all(block, "CPU"@, "Stack"@)
}

/// A test function for the secondary backend: its naming word replaced
/// first, then the constructor of the primary device, as token text prints
/// the call, then the name of the primary backend wherever it is left.
pub open spec fn stack_test_text(function: Seq<char>) -> Seq<char> {
    replace_all(
        replace_all(replace_all(function, "cpu"@, "stack"@), "CPU :: new ()"@, "custos::Stack"@),
        "CPU"@,
        "Stack"@,
    )
}

/// The block for the primary backend, then `copy` for the secondary one.
pub open spec fn both_backends(primary: Seq<char>, copy: Seq<char>) -> Seq<GatedItemView> {
    seq![
        GatedItemView { gate: Gate::Cpu, tokens: primary },
        GatedItemView { gate: Gate::Stack, tokens: copy },
    ]
}

/// The two items of a duplication.
fn duplicate(primary: &str, copy: String) -> (expansion: Expansion)
    ensures
        expansion@ == both_backends(primary@, copy@),
{
    let mut items: Vec<GatedItem> = Vec::new();
    items.push(GatedItem { gate: Gate::Cpu, tokens: String::from_str(primary) });
    items.push(GatedItem { gate: Gate::Stack, tokens: copy });
    let expansion = Expansion { items };
    proof {
        assert(expansion@ =~= both_backends(primary@, copy@));
    }
    expansion
}

/// Expands an implementation block for the primary backend into that block
/// and a copy for the secondary backend. Fails where the copy no longer
/// reads as an implementation block.
pub fn add_stack_impl_simple(impl_block: &str) -> (r: Result<Expansion, ExpandError>)
    ensures
        match r {
            Ok(expansion) => {
                &&& is_item_impl(stack_impl_text(impl_block@))
                &&& expansion@ == both_backends(impl_block@, stack_impl_text(impl_block@))
            },
            Err(e) => !is_item_impl(stack_impl_text(impl_block@)) && e
                == ExpandError::InvalidImplBlock,
        },
{
    let stack_impl_block = replace(impl_block, "CPU", "Stack");
    if !parses_as_item_impl(stack_impl_block.as_str()) {
        return Err(ExpandError::InvalidImplBlock);
    }
    Ok(duplicate(impl_block, stack_impl_block))
}

/// Expands a test function for the primary backend into that function and a
/// copy for the secondary backend. Fails where the copy no longer reads as a
/// function.
pub fn add_stack_cpu_test(input: &str) -> (r: Result<Expansion, ExpandError>)
    ensures
        match r {
            Ok(expansion) => {
                &&& is_item_fn(stack_test_text(input@))
                &&& expansion@ == both_backends(input@, stack_test_text(input@))
            },
            Err(e) => !is_item_fn(stack_test_text(input@)) && e == ExpandError::InvalidTestFn,
        },
{
    let renamed = replace(input, "cpu", "stack");
    let constructed = replace(renamed.as_str(), "CPU :: new ()", "custos::Stack");
    let stack_test_block = replace(constructed.as_str(), "CPU", "Stack");
    if !parses_as_item_fn(stack_test_block.as_str()) {
        return Err(ExpandError::InvalidTestFn);
    }
    Ok(duplicate(input, stack_test_block))
}

/// The two names are spelled as written here; they share no character, and
/// the primary one does not overlap itself.
proof fn lemma_backend_names()
    ensures
        "CPU"@ == seq!['C', 'P', 'U'],
        "Stack"@ == seq!['S', 't', 'a', 'c', 'k'],
        no_common_char("CPU"@, "Stack"@),
        !overlaps_itself("CPU"@),
{
    reveal_strlit("CPU");
    reveal_strlit("Stack");
    let cpu = "CPU"@;
    let stack = "Stack"@;
    assert(cpu =~= seq!['C', 'P', 'U']);
    assert(stack =~= seq!['S', 't', 'a', 'c', 'k']);
    assert forall|k: int| 0 < k < cpu.len() implies #[trigger] cpu.skip(k) != cpu.take(
        cpu.len() - k,
    ) by {
        assert(cpu.skip(k)[0] == cpu[k]);
        assert(cpu.take(cpu.len() - k)[0] == cpu[0]);
    }
}

/// An attribute of a feature holds no capital `C`.
proof fn lemma_attribute_lacks_capital(gate: Gate)
    ensures
        forall|i: int|
            0 <= i < gate.spec_attribute().len() ==> #[trigger] gate.spec_attribute()[i] != 'C',
{
    reveal_strlit("# [cfg (feature = \"cpu\")]");
    reveal_strlit("# [cfg (feature = \"stack\")]");
    reveal_strlit("# [cfg (feature = \"nnapi\")]");
    reveal_strlit("# [cfg (feature = \"autograd\")]");
    reveal_strlit("# [cfg (not (feature = \"autograd\"))]");
}

/// The expansion holds two items: the block as it was given, compiled with
/// the primary backend, and the copy, compiled with the secondary backend.
/// The two features differ.
pub proof fn law_copies_behind_their_features(primary: Seq<char>, copy: Seq<char>)
    ensures
        both_backends(primary, copy).len() == 2,
        both_backends(primary, copy)[0] == (GatedItemView { gate: Gate::Cpu, tokens: primary }),
        both_backends(primary, copy)[1] == (GatedItemView { gate: Gate::Stack, tokens: copy }),
        both_backends(primary, copy)[0].gate != both_backends(primary, copy)[1].gate,
{
}

/// Wherever the block names the primary backend, the copy names the
/// secondary one: the name that stood at `p` stands in the copy two
/// characters further right for each occurrence before `p`. The primary
/// backend's name does not occur in the copy.
pub proof fn law_every_primary_becomes_secondary(block: Seq<char>, p: int)
    ensures
        occurs_at(block, "CPU"@, p) ==> occurs_at(
            stack_impl_text(block),
            "Stack"@,
            p + 2 * count_before(block, "CPU"@, p),
        ),
        !occurs_in(stack_impl_text(block), "CPU"@),
{
    lemma_backend_names();
    lemma_replace_leaves_none(block, "CPU"@, "Stack"@);
    if occurs_at(block, "CPU"@, p) {
        lemma_replace_every(block, "CPU"@, "Stack"@, p);
        assert(count_before(block, "CPU"@, p) * ("Stack"@.len() - "CPU"@.len()) == 2
            * count_before(block, "CPU"@, p)) by (nonlinear_arith)
            requires
                "Stack"@.len() - "CPU"@.len() == 2,
        ;
    }
}

/// The copy of a test function does not name the primary backend.
pub proof fn law_test_copy_names_no_primary(function: Seq<char>)
    ensures
        !occurs_in(stack_test_text(function), "CPU"@),
{
    lemma_backend_names();
    lemma_replace_leaves_none(
        replace_all(replace_all(function, "cpu"@, "stack"@), "CPU :: new ()"@, "custos::Stack"@),
        "CPU"@,
        "Stack"@,
    );
}

/// To duplicate a copy again changes nothing in it.
pub proof fn law_copy_of_copy(block: Seq<char>)
    ensures
        stack_impl_text(stack_impl_text(block)) == stack_impl_text(block),
{
    lemma_backend_names();
    lemma_replace_idempotent(block, "CPU"@, "Stack"@);
}

/// A block that already stands behind the attribute of a feature keeps that
/// attribute when it is duplicated: the copy begins with the same attribute,
/// and only what follows it is rewritten.
pub proof fn law_attributes_survive(gate: Gate, rest: Seq<char>)
    ensures
        stack_impl_text(gate.spec_attribute() + rest) == gate.spec_attribute() + stack_impl_text(
            rest,
        ),
{
    lemma_backend_names();
    lemma_attribute_lacks_capital(gate);
    let attribute = gate.spec_attribute();
    let whole = attribute + rest;
    assert forall|j: int| 0 <= j < attribute.len() implies !occurs_at(whole, "CPU"@, j) by {
        if occurs_at(whole, "CPU"@, j) {
            assert(whole.subrange(j, j + 3)[0] == whole[j]);
            assert(whole[j] == attribute[j]);
        }
    }
    lemma_replace_prefix(whole, "CPU"@, "Stack"@, attribute.len() as int);
    assert(whole.take(attribute.len() as int) =~= attribute);
    assert(whole.skip(attribute.len() as int) =~= rest);
}

} // verus!
