//! The instruction table of a new processor, and what holds of it.

use vstd::prelude::*;
use super::i::base_set;
use super::isa::{
    first_match,
    install_all,
    lemma_first_match,
    lemma_install_all_append,
    lemma_lookup_is_scan,
    lemma_match_fixes_opcode,
    lookup_spec,
    instance_of,
    IsaDefine,
    IsaTable,
};
use super::m::m_set;
use crate::kit::insn::InsnType;

verus! {

/// The definitions of a new processor, in the order of their installation:
/// the base integer set, then the multiply and divide set.
pub open spec fn standard_set() -> Seq<IsaDefine> {
    base_set() + m_set()
}

/// The instruction table of a new processor: the base integer set, then
/// the multiply and divide set, installed in an empty table.
pub open spec fn standard_table() -> IsaTable {
    install_all(install_all(Map::<u32, Seq<IsaDefine>>::empty(), base_set()), m_set())
}

/// The encoding class of the instructions of each opcode in use.
pub open spec fn class_of(op: u32) -> InsnType {
    if op == 0x37 || op == 0x17 {
        InsnType::U
    } else if op == 0x6f {
        InsnType::J
    } else if op == 0x63 {
        InsnType::B
    } else if op == 0x23 {
        InsnType::S
    } else if op == 0x33 || op == 0x3b {
        InsnType::R
    } else {
        InsnType::I
    }
}

proof fn lemma_standard_opcodes()
    by (bit_vector)
    ensures
        0x37u32 & 0x7f == 0x37,
        0x17u32 & 0x7f == 0x17,
        0x6fu32 & 0x7f == 0x6f,
        0x67u32 & 0x7f == 0x67,
        0x63u32 & 0x7f == 0x63,
        0x1063u32 & 0x7f == 0x63,
        0x4063u32 & 0x7f == 0x63,
        0x5063u32 & 0x7f == 0x63,
        0x6063u32 & 0x7f == 0x63,
        0x7063u32 & 0x7f == 0x63,
        0x3u32 & 0x7f == 0x3,
        0x1003u32 & 0x7f == 0x3,
        0x2003u32 & 0x7f == 0x3,
        0x3003u32 & 0x7f == 0x3,
        0x4003u32 & 0x7f == 0x3,
        0x5003u32 & 0x7f == 0x3,
        0x6003u32 & 0x7f == 0x3,
        0x23u32 & 0x7f == 0x23,
        0x1023u32 & 0x7f == 0x23,
        0x2023u32 & 0x7f == 0x23,
        0x3023u32 & 0x7f == 0x23,
        0x13u32 & 0x7f == 0x13,
        0x2013u32 & 0x7f == 0x13,
        0x3013u32 & 0x7f == 0x13,
        0x4013u32 & 0x7f == 0x13,
        0x6013u32 & 0x7f == 0x13,
        0x7013u32 & 0x7f == 0x13,
        0x33u32 & 0x7f == 0x33,
        0x40000033u32 & 0x7f == 0x33,
        0x6033u32 & 0x7f == 0x33,
        0x7033u32 & 0x7f == 0x33,
        0x2000033u32 & 0x7f == 0x33,
        0x2003033u32 & 0x7f == 0x33,
        0x2004033u32 & 0x7f == 0x33,
        0x2005033u32 & 0x7f == 0x33,
        0x2006033u32 & 0x7f == 0x33,
        0x2007033u32 & 0x7f == 0x33,
        0x200003bu32 & 0x7f == 0x3b,
        0x200403bu32 & 0x7f == 0x3b,
        0x200503bu32 & 0x7f == 0x3b,
        0x200603bu32 & 0x7f == 0x3b,
        0x200703bu32 & 0x7f == 0x3b,
{
}

/// In the table of a new processor, a lookup finds what a scan of the
/// standard definitions from the front finds.
pub proof fn lemma_standard_lookup(word: u32)
    ensures
        lookup_spec(standard_table(), word) == first_match(standard_set(), word, 0),
{
    lemma_install_all_append(Map::empty(), base_set(), m_set());
    lemma_lookup_is_scan(standard_set(), word);
}

/// Each standard definition has the encoding class of its opcode, and its
/// opcode is not zero.
pub proof fn lemma_standard_classes(i: int)
    requires
        0 <= i < standard_set().len(),
    ensures
        standard_set().len() == 42,
        standard_set()[i].mtype == class_of(standard_set()[i].ident & 0x7f),
        standard_set()[i].ident & 0x7f != 0,
{
    lemma_standard_opcodes();
}

/// No two standard definitions have the same identity.
pub proof fn lemma_standard_distinct(i: int, j: int)
    requires
        0 <= i < j < standard_set().len(),
    ensures
        standard_set()[i].ident != standard_set()[j].ident,
{
}

/// No word is an instance of two standard definitions: which definition a
/// word selects does not depend on the order of installation.
pub proof fn lemma_standard_unambiguous(word: u32, i: int, j: int)
    requires
        0 <= i < standard_set().len(),
        0 <= j < standard_set().len(),
        instance_of(standard_set()[i], word),
        instance_of(standard_set()[j], word),
    ensures
        i == j,
{
    lemma_standard_classes(i);
    lemma_standard_classes(j);
    lemma_match_fixes_opcode(standard_set()[i], word);
    lemma_match_fixes_opcode(standard_set()[j], word);
    if i < j {
        lemma_standard_distinct(i, j);
    } else if j < i {
        lemma_standard_distinct(j, i);
    }
}

/// A word that is an instance of a standard definition selects that
/// definition in the table of a new processor.
pub proof fn lemma_standard_selects(word: u32, i: int)
    requires
        0 <= i < standard_set().len(),
        instance_of(standard_set()[i], word),
    ensures
        lookup_spec(standard_table(), word) == Some(standard_set()[i]),
{
    lemma_standard_lookup(word);
    lemma_first_match(standard_set(), word, 0);
    match first_match(standard_set(), word, 0) {
        Some(d) => {
            let k = choose|k: int|
                0 <= k < standard_set().len() && standard_set()[k] == d && instance_of(
                    standard_set()[k],
                    word,
                ) && forall|j: int| 0 <= j < k ==> !instance_of(#[trigger] standard_set()[j], word);
            lemma_standard_unambiguous(word, i, k);
        },
        None => {},
    }
}

/// A word that is an instance of no standard definition selects nothing in
/// the table of a new processor.
pub proof fn lemma_standard_rejects(word: u32)
    requires
        forall|i: int|
            0 <= i < standard_set().len() ==> !instance_of(#[trigger] standard_set()[i], word),
    ensures
        lookup_spec(standard_table(), word) is None,
{
    lemma_standard_lookup(word);
    lemma_first_match(standard_set(), word, 0);
}

/// The order of installation does not matter for the standard
/// definitions: a table built from the same definitions in any order, with
/// or without repeats, selects for every word what the table of a new
/// processor selects.
pub proof fn lemma_order_is_irrelevant(defs: Seq<IsaDefine>, word: u32)
    requires
        forall|d: IsaDefine| defs.contains(d) <==> standard_set().contains(d),
    ensures
        lookup_spec(install_all(Map::empty(), defs), word) == lookup_spec(standard_table(), word),
{
    lemma_lookup_is_scan(defs, word);
    lemma_standard_lookup(word);
    lemma_first_match(defs, word, 0);
    lemma_first_match(standard_set(), word, 0);
    match first_match(defs, word, 0) {
        Some(d) => {
            assert(defs.contains(d));
            assert(standard_set().contains(d));
            let k = choose|k: int| 0 <= k < standard_set().len() && standard_set()[k] == d;
            lemma_standard_selects(word, k);
        },
        None => {
            match first_match(standard_set(), word, 0) {
                Some(e) => {
                    assert(standard_set().contains(e));
                    assert(defs.contains(e));
                    let i = choose|i: int| 0 <= i < defs.len() && defs[i] == e;
                    assert(instance_of(defs[i], word));
                },
                None => {},
            }
        },
    }
}

/// A word whose opcode field is zero selects nothing in the table of a new
/// processor.
pub proof fn lemma_zero_opcode(word: u32)
    requires
        word & 0x7f == 0,
    ensures
        lookup_spec(standard_table(), word) is None,
{
    assert forall|i: int| 0 <= i < standard_set().len() implies !instance_of(
        #[trigger] standard_set()[i],
        word,
    ) by {
        lemma_standard_classes(i);
        if instance_of(standard_set()[i], word) {
            lemma_match_fixes_opcode(standard_set()[i], word);
        }
    }
    lemma_standard_rejects(word);
}

} // verus!
