//! The behaviour toggles that select between historical variants of
//! individual instructions.

use vstd::prelude::*;
use vstd::string::StrSliceExecFns;

verus! {

/// One behaviour toggle.
#[derive(Clone, Copy, Debug, PartialEq, Eq, Structural)]
pub enum Quirk {
    /// The OR, AND and XOR instructions reset the flag register to zero.
    VfReset,
    /// The bulk save and load instructions advance the index register.
    Memory,
    /// Sprites stop at the right and bottom edges instead of wrapping around.
    Clipping,
    /// The shift instructions shift `vX` in place and ignore `vY`.
    Shifting,
    /// The jump-with-offset instruction adds `vX` instead of `v0`.
    Jumping,
}

/// The name under which `quirk` is configured.
pub open spec fn name_of(quirk: Quirk) -> Seq<char> {
    match quirk {
        Quirk::VfReset => "vf-reset"@,
        Quirk::Memory => "memory"@,
        Quirk::Clipping => "clipping"@,
        Quirk::Shifting => "shifting"@,
        Quirk::Jumping => "jumping"@,
    }
}

/// The quirk that is configured under `name`, if there is one.
pub open spec fn quirk_named(name: Seq<char>) -> Option<Quirk> {
    if name == "vf-reset"@ {
        Some(Quirk::VfReset)
    } else if name == "memory"@ {
        Some(Quirk::Memory)
    } else if name == "clipping"@ {
        Some(Quirk::Clipping)
    } else if name == "shifting"@ {
        Some(Quirk::Shifting)
    } else if name == "jumping"@ {
        Some(Quirk::Jumping)
    } else {
        None
    }
}

/// Whether two texts are the same, character by character.
fn same_text(a: &str, b: &str) -> (same: bool)
    ensures
        same == (a@ == b@),
{
    let n = a.unicode_len();
    if n != b.unicode_len() {
        return false;
    }
    let mut i: usize = 0;
    while i < n
        invariant
            i <= n,
            n == a@.len(),
            n == b@.len(),
            forall|j: int| 0 <= j < i ==> a@[j] == b@[j],
        decreases n - i,
    {
        if a.get_char(i) != b.get_char(i) {
            return false;
        }
        i += 1;
    }
    assert(a@ =~= b@);
    true
}

/// Every quirk is found again under its own name.
pub proof fn law_names_are_distinct(quirk: Quirk)
    ensures
        quirk_named(name_of(quirk)) == Some(quirk),
{
    reveal_strlit("vf-reset");
    reveal_strlit("memory");
    reveal_strlit("clipping");
    reveal_strlit("shifting");
    reveal_strlit("jumping");
    assert("vf-reset"@[0] == 'v' && "memory"@[0] == 'm' && "clipping"@[0] == 'c' && "shifting"@[0]
        == 's' && "jumping"@[0] == 'j');
}

impl Quirk {
    /// The name under which this quirk is configured.
    pub fn name(self) -> (name: &'static str)
        ensures
            name@ == name_of(self),
    {
        match self {
            Quirk::VfReset => "vf-reset",
            Quirk::Memory => "memory",
            Quirk::Clipping => "clipping",
            Quirk::Shifting => "shifting",
            Quirk::Jumping => "jumping",
        }
    }

    /// The quirk that is configured under `name`. Any other name, that of
    /// the reserved `display-wait` too, stands for none.
    pub fn from_name(name: &str) -> (quirk: Option<Quirk>)
        ensures
            quirk == quirk_named(name@),
    {
        if same_text(name, "vf-reset") {
            Some(Quirk::VfReset)
        } else if same_text(name, "memory") {
            Some(Quirk::Memory)
        } else if same_text(name, "clipping") {
            Some(Quirk::Clipping)
        } else if same_text(name, "shifting") {
            Some(Quirk::Shifting)
        } else if same_text(name, "jumping") {
            Some(Quirk::Jumping)
        } else {
            None
        }
    }

    /// The bit that stands for this quirk in a mask.
    pub open spec fn mask(self) -> u8 {
        match self {
            Quirk::VfReset => 0b00001u8,
            Quirk::Memory => 0b00010u8,
            Quirk::Clipping => 0b00100u8,
            Quirk::Shifting => 0b01000u8,
            Quirk::Jumping => 0b10000u8,
        }
    }

    /// The bit that stands for this quirk in a mask.
    pub fn bit(self) -> (b: u8)
        ensures
            b == self.mask(),
    {
        match self {
            Quirk::VfReset => 0b00001,
            Quirk::Memory => 0b00010,
            Quirk::Clipping => 0b00100,
            Quirk::Shifting => 0b01000,
            Quirk::Jumping => 0b10000,
        }
    }
}

/// A set of quirks, held as a bit mask. Its view is the set of the quirks
/// that are switched on.
#[derive(Clone, Copy, Debug, PartialEq, Eq, Structural)]
pub struct Quirks {
    bits: u8,
}

/// The quirks whose bit is set in `bits`.
pub open spec fn quirks_of(bits: u8) -> Set<Quirk> {
    Set::new(|q: Quirk| bits & q.mask() != 0)
}

/// The mask in which exactly the bits of the quirks of `quirks` are set.
pub open spec fn mask_of(quirks: Set<Quirk>) -> u8 {
    ((if quirks.contains(Quirk::VfReset) {
        1int
    } else {
        0int
    }) + (if quirks.contains(Quirk::Memory) {
        2int
    } else {
        0int
    }) + (if quirks.contains(Quirk::Clipping) {
        4int
    } else {
        0int
    }) + (if quirks.contains(Quirk::Shifting) {
        8int
    } else {
        0int
    }) + (if quirks.contains(Quirk::Jumping) {
        16int
    } else {
        0int
    })) as u8
}

/// The combination that most present-day interpreters implement.
pub open spec fn default_quirks() -> Set<Quirk> {
    set![Quirk::VfReset, Quirk::Clipping, Quirk::Memory]
}

proof fn lemma_mask_union(a: u8, b: u8, m: u8)
    by (bit_vector)
    ensures
        ((a | b) & m != 0) == (a & m != 0 || b & m != 0),
{
}

proof fn lemma_mask_known(a: u8)
    by (bit_vector)
    ensures
        (a & 0b11111u8) & 1u8 == a & 1u8,
        (a & 0b11111u8) & 2u8 == a & 2u8,
        (a & 0b11111u8) & 4u8 == a & 4u8,
        (a & 0b11111u8) & 8u8 == a & 8u8,
        (a & 0b11111u8) & 16u8 == a & 16u8,
        0u8 & 1u8 == 0 && 0u8 & 2u8 == 0 && 0u8 & 4u8 == 0 && 0u8 & 8u8 == 0 && 0u8 & 16u8 == 0,
        0b00111u8 & 1u8 != 0 && 0b00111u8 & 2u8 != 0 && 0b00111u8 & 4u8 != 0,
        0b00111u8 & 8u8 == 0 && 0b00111u8 & 16u8 == 0,
        1u8 & 1u8 != 0 && 1u8 & 2u8 == 0 && 1u8 & 4u8 == 0 && 1u8 & 8u8 == 0 && 1u8 & 16u8 == 0,
        2u8 & 1u8 == 0 && 2u8 & 2u8 != 0 && 2u8 & 4u8 == 0 && 2u8 & 8u8 == 0 && 2u8 & 16u8 == 0,
        4u8 & 1u8 == 0 && 4u8 & 2u8 == 0 && 4u8 & 4u8 != 0 && 4u8 & 8u8 == 0 && 4u8 & 16u8 == 0,
        8u8 & 1u8 == 0 && 8u8 & 2u8 == 0 && 8u8 & 4u8 == 0 && 8u8 & 8u8 != 0 && 8u8 & 16u8 == 0,
        16u8 & 1u8 == 0 && 16u8 & 2u8 == 0 && 16u8 & 4u8 == 0 && 16u8 & 8u8 == 0 && 16u8 & 16u8
            != 0,
{
}

proof fn lemma_mask_sum(a: u8)
    by (bit_vector)
    requires
        a < 32,
    ensures
        a == (if a & 1 != 0 {
            1u8
        } else {
            0u8
        }) + (if a & 2 != 0 {
            2u8
        } else {
            0u8
        }) + (if a & 4 != 0 {
            4u8
        } else {
            0u8
        }) + (if a & 8 != 0 {
            8u8
        } else {
            0u8
        }) + (if a & 16 != 0 {
            16u8
        } else {
            0u8
        }),
{
}

proof fn lemma_mask_small(a: u8, b: u8)
    by (bit_vector)
    ensures
        a & 0b11111 < 32,
        a < 32 && b < 32 ==> a | b < 32,
{
}

proof fn lemma_quirks_of_union(a: u8, b: u8)
    ensures
        quirks_of(a | b) == quirks_of(a).union(quirks_of(b)),
{
    assert forall|k: Quirk|
        quirks_of(a | b).contains(k) == (quirks_of(a).contains(k) || quirks_of(b).contains(
            k,
        )) by {
        lemma_mask_union(a, b, k.mask());
    }
    assert(quirks_of(a | b) =~= quirks_of(a).union(quirks_of(b)));
}

impl View for Quirks {
    type V = Set<Quirk>;

    closed spec fn view(&self) -> Set<Quirk> {
        quirks_of(self.bits)
    }
}

impl Quirks {
    /// Only the bits that stand for a quirk are ever set.
    #[verifier::type_invariant]
    spec fn inv(&self) -> bool {
        self.bits < 32
    }

    /// The set with no quirk switched on.
    pub fn empty() -> (q: Quirks)
        ensures
            q@ == Set::<Quirk>::empty(),
    {
        proof {
            lemma_mask_known(0);
            assert(quirks_of(0) =~= Set::<Quirk>::empty());
        }
        Quirks { bits: 0 }
    }

    /// The set that holds `quirk` alone.
    pub fn only(quirk: Quirk) -> (q: Quirks)
        ensures
            q@ == set![quirk],
    {
        let bits = quirk.bit();
        proof {
            lemma_mask_known(0);
            assert(quirks_of(bits) =~= set![quirk]);
        }
        Quirks { bits }
    }

    /// The set read from a mask; bits that stand for no quirk are dropped.
    pub fn from_bits_truncate(bits: u8) -> (q: Quirks)
        ensures
            q@ == quirks_of(bits),
    {
        proof {
            lemma_mask_known(bits);
            lemma_mask_small(bits, 0);
            assert(quirks_of(bits & 0b11111) =~= quirks_of(bits));
        }
        Quirks { bits: bits & 0b11111 }
    }

    /// The mask of this set: one bit per quirk, as `Quirk::bit` gives them.
    pub fn bits(&self) -> (b: u8)
        ensures
            b == mask_of(self@),
            quirks_of(b) == self@,
    {
        proof {
            use_type_invariant(self);
            lemma_mask_sum(self.bits);
        }
        self.bits
    }

    /// Whether `quirk` is switched on.
    pub fn contains(&self, quirk: Quirk) -> (b: bool)
        ensures
            b == self@.contains(quirk),
    {
        self.bits & quirk.bit() != 0
    }

    /// This set with `quirk` switched on as well.
    pub fn with(self, quirk: Quirk) -> (q: Quirks)
        ensures
            q@ == self@.insert(quirk),
    {
        let q = self.union(Quirks::only(quirk));
        assert(self@.union(set![quirk]) =~= self@.insert(quirk));
        q
    }

    /// The quirks that are in this set or in `other`.
    pub fn union(self, other: Quirks) -> (q: Quirks)
        ensures
            q@ == self@.union(other@),
    {
        proof {
            use_type_invariant(self);
            use_type_invariant(other);
            lemma_mask_small(self.bits, other.bits);
            lemma_quirks_of_union(self.bits, other.bits);
        }
        Quirks { bits: self.bits | other.bits }
    }
}

impl vstd::std_specs::ops::BitOrSpecImpl for Quirks {
    open spec fn obeys_bitor_spec() -> bool {
        true
    }

    open spec fn bitor_req(self, rhs: Quirks) -> bool {
        true
    }

    closed spec fn bitor_spec(self, rhs: Quirks) -> Quirks {
        Quirks { bits: self.bits | rhs.bits }
    }
}

impl core::ops::BitOr for Quirks {
    type Output = Quirks;

    /// The union of two sets, written `a | b`.
    fn bitor(self, rhs: Quirks) -> (q: Quirks)
        ensures
            q@ == self@.union(rhs@),
    {
        proof {
            use_type_invariant(self);
            use_type_invariant(rhs);
            lemma_mask_small(self.bits, rhs.bits);
            lemma_quirks_of_union(self.bits, rhs.bits);
        }
        Quirks { bits: self.bits | rhs.bits }
    }
}

impl Default for Quirks {
    fn default() -> (q: Quirks)
        ensures
            q@ == default_quirks(),
    {
        proof {
            lemma_mask_known(0);
            assert(quirks_of(0b00111) =~= default_quirks());
        }
        Quirks { bits: 0b00111 }
    }
}

} // verus!
