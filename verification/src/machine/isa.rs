//! The instruction table: for each 7-bit opcode the instruction definitions
//! that share it, in the order in which they were installed.

use vstd::prelude::*;
use std::collections::HashMap;
use crate::kit::insn::InsnType;

verus! {

broadcast use vstd::std_specs::hash::group_hash_axioms;

/// The semantic handler of an instruction definition: which state change
/// the instruction makes.
#[derive(Clone, Copy, Debug, PartialEq, Eq, Structural)]
pub enum IsaProcessor {
    Lui,
    Auipc,
    Jal,
    Jalr,
    Beq,
    Bne,
    Blt,
    Bge,
    Bltu,
    Bgeu,
    Lb,
    Lh,
    Lw,
    Ld,
    Lbu,
    Lhu,
    Lwu,
    Sb,
    Sh,
    Sw,
    Sd,
    Addi,
    Slti,
    Sltiu,
    Xori,
    Ori,
    Andi,
    Add,
    Sub,
    Or,
    And,
    Mul,
    Mulhu,
    Div,
    Divu,
    Rem,
    Remu,
    Mulw,
    Divw,
    Divuw,
    Remw,
    Remuw,
}

/// One instruction: the bits that identify it, its encoding class, its
/// display name and its semantic handler.
#[derive(Clone, Copy, Debug)]
pub struct IsaDefine {
    pub ident: u32,
    pub mtype: InsnType,
    pub mnemonic: &'static str,
    pub processor: IsaProcessor,
}

impl IsaDefine {
    /// The definition with the given handler, display name, identity and
    /// encoding class.
    #[verifier::allow_in_spec]
    pub fn new(
        processor: IsaProcessor,
        mnemonic: &'static str,
        ident: u32,
        mtype: InsnType,
    ) -> IsaDefine
        returns
            (IsaDefine { ident, mtype, mnemonic, processor }),
    {
        Self { ident, mtype, mnemonic, processor }
    }
}

/// The instruction table as a map from opcode to the definitions installed
/// under it, oldest first.
pub type IsaTable = Map<u32, Seq<IsaDefine>>;

/// The mathematical content of an executable instruction table.
pub open spec fn table_view(map: HashMap<u32, Vec<IsaDefine>>) -> IsaTable {
    map@.map_values(|v: Vec<IsaDefine>| v@)
}

/// The bits of a word that are compared with a definition's identity, by
/// the definition's encoding class: opcode, funct3 and funct7 for class R;
/// opcode and funct3 for classes I, S and B; the opcode alone for U and J.
pub open spec fn match_mask(mtype: InsnType) -> u32 {
    match mtype {
        InsnType::R => 0xfe00707fu32,
        InsnType::I => 0x707fu32,
        InsnType::S => 0x707fu32,
        InsnType::B => 0x707fu32,
        InsnType::U => 0x7fu32,
        InsnType::J => 0x7fu32,
    }
}

/// Whether `word` is an instance of the instruction `def`.
pub open spec fn instance_of(def: IsaDefine, word: u32) -> bool {
    word & match_mask(def.mtype) == def.ident
}

/// The first definition among `defs[from..]` that `word` is an instance of.
pub open spec fn first_match(defs: Seq<IsaDefine>, word: u32, from: int) -> Option<IsaDefine>
    decreases defs.len() - from,
{
    if from < 0 || from >= defs.len() {
        None
    } else if instance_of(defs[from], word) {
        Some(defs[from])
    } else {
        first_match(defs, word, from + 1)
    }
}

/// The definition that `word` selects in `table`: the first match in the
/// list of the word's opcode, if that list exists and holds a match.
pub open spec fn lookup_spec(table: IsaTable, word: u32) -> Option<IsaDefine> {
    if table.contains_key(word & 0x7f) {
        first_match(table[word & 0x7f], word, 0)
    } else {
        None
    }
}

/// `table` with `def` appended to the list of its opcode.
pub open spec fn install_spec(table: IsaTable, def: IsaDefine) -> IsaTable {
    let op = def.ident & 0x7f;
    if table.contains_key(op) {
        table.insert(op, table[op].push(def))
    } else {
        table.insert(op, seq![def])
    }
}

/// `table` after installing `defs` one after the other.
pub open spec fn install_all(table: IsaTable, defs: Seq<IsaDefine>) -> IsaTable
    decreases defs.len(),
{
    if defs.len() == 0 {
        table
    } else {
        install_spec(install_all(table, defs.drop_last()), defs.last())
    }
}

/// Installing one more definition after a run of installations is the run
/// of installations with that definition at its end.
pub proof fn lemma_install_all_push(table: IsaTable, defs: Seq<IsaDefine>, def: IsaDefine)
    ensures
        install_all(table, defs.push(def)) == install_spec(install_all(table, defs), def),
{
    assert(defs.push(def).drop_last() =~= defs);
}

/// What `first_match` returns is a match, and nothing before it is one.
pub proof fn lemma_first_match(defs: Seq<IsaDefine>, word: u32, from: int)
    requires
        0 <= from,
    ensures
        match first_match(defs, word, from) {
            Some(d) => exists|i: int|
                from <= i < defs.len() && defs[i] == d && instance_of(defs[i], word) && forall|j: int|
                    from <= j < i ==> !instance_of(#[trigger] defs[j], word),
            None => forall|j: int| from <= j < defs.len() ==> !instance_of(#[trigger] defs[j], word),
        },
    decreases defs.len() - from,
{
    if from < defs.len() {
        if instance_of(defs[from], word) {
            assert(forall|j: int| from <= j < from ==> !instance_of(#[trigger] defs[j], word));
        } else {
            lemma_first_match(defs, word, from + 1);
            match first_match(defs, word, from + 1) {
                Some(d) => {
                    let i = choose|i: int|
                        from + 1 <= i < defs.len() && defs[i] == d && instance_of(defs[i], word)
                            && forall|j: int|
                            from + 1 <= j < i ==> !instance_of(#[trigger] defs[j], word);
                    assert(from <= i < defs.len() && defs[i] == d && instance_of(defs[i], word)
                        && forall|j: int| from <= j < i ==> !instance_of(#[trigger] defs[j], word));
                },
                None => {},
            }
        }
    }
}

/// A word whose opcode has no definitions in the table selects nothing.
pub proof fn lemma_unknown_opcode(table: IsaTable, word: u32)
    requires
        !table.contains_key(word & 0x7f) || table[word & 0x7f].len() == 0,
    ensures
        lookup_spec(table, word) is None,
{
}

/// The definitions among `defs` whose identity has the opcode `op`, in
/// their order.
pub open spec fn bucket(defs: Seq<IsaDefine>, op: u32) -> Seq<IsaDefine>
    decreases defs.len(),
{
    if defs.len() == 0 {
        Seq::empty()
    } else if defs.last().ident & 0x7f == op {
        bucket(defs.drop_last(), op).push(defs.last())
    } else {
        bucket(defs.drop_last(), op)
    }
}

proof fn lemma_mask_keeps_opcode(word: u32, m: u32, ident: u32)
    by (bit_vector)
    requires
        m == 0xfe00707fu32 || m == 0x707fu32 || m == 0x7fu32,
        word & m == ident,
    ensures
        word & 0x7f == ident & 0x7f,
{
}

/// A word that is an instance of a definition has the opcode of the
/// definition's identity.
pub proof fn lemma_match_fixes_opcode(def: IsaDefine, word: u32)
    requires
        instance_of(def, word),
    ensures
        word & 0x7f == def.ident & 0x7f,
{
    lemma_mask_keeps_opcode(word, match_mask(def.mtype), def.ident);
}

/// Installing two runs of definitions one after the other is installing
/// their concatenation.
pub proof fn lemma_install_all_append(table: IsaTable, a: Seq<IsaDefine>, b: Seq<IsaDefine>)
    ensures
        install_all(install_all(table, a), b) == install_all(table, a + b),
    decreases b.len(),
{
    if b.len() == 0 {
        assert(a + b =~= a);
    } else {
        lemma_install_all_append(table, a, b.drop_last());
        assert((a + b).drop_last() =~= a + b.drop_last());
        assert((a + b).last() == b.last());
    }
}

/// After installing `defs` in an empty table, the list of an opcode holds
/// the definitions of that opcode, in the order of `defs`; an opcode without
/// definitions has no list.
pub proof fn lemma_install_all_bucket(defs: Seq<IsaDefine>, op: u32)
    ensures
        install_all(Map::empty(), defs).contains_key(op) <==> bucket(defs, op).len() > 0,
        install_all(Map::empty(), defs).contains_key(op) ==> install_all(Map::empty(), defs)[op]
            == bucket(defs, op),
    decreases defs.len(),
{
    if defs.len() > 0 {
        lemma_install_all_bucket(defs.drop_last(), op);
        lemma_install_all_bucket(defs.drop_last(), defs.last().ident & 0x7f);
        let before = install_all(Map::<u32, Seq<IsaDefine>>::empty(), defs.drop_last());
        if defs.last().ident & 0x7f == op && !before.contains_key(op) {
            assert(bucket(defs.drop_last(), op) =~= Seq::<IsaDefine>::empty());
            assert(seq![defs.last()] =~= bucket(defs.drop_last(), op).push(defs.last()));
        }
    }
}

/// The first match in a list with one more definition at its end is the
/// first match in the list, or else that definition if it matches.
pub proof fn lemma_first_match_push(defs: Seq<IsaDefine>, def: IsaDefine, word: u32, from: int)
    requires
        0 <= from <= defs.len(),
    ensures
        first_match(defs.push(def), word, from) == match first_match(defs, word, from) {
            Some(d) => Some(d),
            None => if instance_of(def, word) {
                Some(def)
            } else {
                None
            },
        },
    decreases defs.len() - from,
{
    if from < defs.len() {
        if !instance_of(defs[from], word) {
            lemma_first_match_push(defs, def, word, from + 1);
        }
    } else {
        assert(first_match(defs.push(def), word, from + 1) is None);
    }
}

/// The first match among the definitions of the word's opcode is the first
/// match among all definitions.
pub proof fn lemma_first_match_bucket(defs: Seq<IsaDefine>, word: u32)
    ensures
        first_match(bucket(defs, word & 0x7f), word, 0) == first_match(defs, word, 0),
    decreases defs.len(),
{
    if defs.len() > 0 {
        let rest = defs.drop_last();
        let last = defs.last();
        lemma_first_match_bucket(rest, word);
        assert(rest.push(last) =~= defs);
        lemma_first_match_push(rest, last, word, 0);
        if last.ident & 0x7f == word & 0x7f {
            lemma_first_match_push(bucket(rest, word & 0x7f), last, word, 0);
        } else if instance_of(last, word) {
            lemma_match_fixes_opcode(last, word);
        }
    }
}

/// The table is an index of the definitions installed in it: looking a
/// word up in the table built from `defs` finds what a scan of `defs` from
/// the front finds.
pub proof fn lemma_lookup_is_scan(defs: Seq<IsaDefine>, word: u32)
    ensures
        lookup_spec(install_all(Map::empty(), defs), word) == first_match(defs, word, 0),
{
    lemma_install_all_bucket(defs, word & 0x7f);
    lemma_first_match_bucket(defs, word);
}

/// Whether `word` is an instance of `def`.
pub fn is_match(def: &IsaDefine, word: u32) -> (r: bool)
    ensures
        r == instance_of(*def, word),
{
    let m: u32 = match def.mtype {
        InsnType::R => 0xfe00707f,
        InsnType::I | InsnType::S | InsnType::B => 0x707f,
        InsnType::U | InsnType::J => 0x7f,
    };
    (word & m) == def.ident
}

/// Appends `def` to the list keyed by the low 7 bits of its identity.
pub fn install(map: &mut HashMap<u32, Vec<IsaDefine>>, def: IsaDefine)
    ensures
        table_view(*final(map)) == install_spec(table_view(*old(map)), def),
{
    let op: u32 = def.ident & 0x7f;
    let ghost before = table_view(*map);
    match map.remove(&op) {
        Some(mut v) => {
            v.push(def);
            map.insert(op, v);
        },
        None => {
            let mut v: Vec<IsaDefine> = Vec::new();
            v.push(def);
            map.insert(op, v);
        },
    }
    assert(table_view(*map) =~= install_spec(before, def));
}

/// Finds the definition that `word` is an instance of: the first match, in
/// installation order, among the definitions of the word's opcode.
pub fn lookup(map: &HashMap<u32, Vec<IsaDefine>>, word: u32) -> (r: Option<IsaDefine>)
    ensures
        r == lookup_spec(table_view(*map), word),
{
    let op: u32 = word & 0x7f;
    match map.get(&op) {
        Some(defs) => {
            let n: usize = defs.len();
            let mut i: usize = 0;
            assert(map@.contains_key(op) && map@[op] == *defs);
            while i < n
                invariant
                    i <= n == defs@.len(),
                    lookup_spec(table_view(*map), word) == first_match(defs@, word, 0),
                    first_match(defs@, word, 0) == first_match(defs@, word, i as int),
                decreases n - i,
            {
                if is_match(&defs[i], word) {
                    return Some(defs[i]);
                }
                i += 1;
            }
            None
        },
        None => None,
    }
}

} // verus!
