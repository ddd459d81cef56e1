//! The joule, its decimal multiples, and the labels that name them.

use vstd::prelude::*;

use crate::text;

verus! {

/// The number of units.
pub const UNIT_COUNT: usize = 25;

/// The unit of an energy reading: the joule with one of the decimal prefixes, or without.
#[derive(Clone, Copy, Debug, PartialEq, Eq, Structural)]
pub enum EnergyUnit {
    Quectojoule,
    Rontojoule,
    Yoctojoule,
    Zeptojoule,
    Attojoule,
    Femtojoule,
    Picojoule,
    Nanojoule,
    Microjoule,
    Millijoule,
    Centijoule,
    Decijoule,
    Joule,
    Decajoule,
    Hectojoule,
    Kilojoule,
    Megajoule,
    Gigajoule,
    Terajoule,
    Petajoule,
    Exajoule,
    Zettajoule,
    Yottajoule,
    Ronnajoule,
    Quettajoule,
}

impl EnergyUnit {
    /// The power of ten of the joule that the unit is.
    pub open spec fn power(self) -> int {
        match self {
            EnergyUnit::Quectojoule => -30,
            EnergyUnit::Rontojoule => -27,
            EnergyUnit::Yoctojoule => -24,
            EnergyUnit::Zeptojoule => -21,
            EnergyUnit::Attojoule => -18,
            EnergyUnit::Femtojoule => -15,
            EnergyUnit::Picojoule => -12,
            EnergyUnit::Nanojoule => -9,
            EnergyUnit::Microjoule => -6,
            EnergyUnit::Millijoule => -3,
            EnergyUnit::Centijoule => -2,
            EnergyUnit::Decijoule => -1,
            EnergyUnit::Joule => 0,
            EnergyUnit::Decajoule => 1,
            EnergyUnit::Hectojoule => 2,
            EnergyUnit::Kilojoule => 3,
            EnergyUnit::Megajoule => 6,
            EnergyUnit::Gigajoule => 9,
            EnergyUnit::Terajoule => 12,
            EnergyUnit::Petajoule => 15,
            EnergyUnit::Exajoule => 18,
            EnergyUnit::Zettajoule => 21,
            EnergyUnit::Yottajoule => 24,
            EnergyUnit::Ronnajoule => 27,
            EnergyUnit::Quettajoule => 30,
        }
    }

    /// The unit in quectojoules, the smallest of the units.
    pub open spec fn quectojoules(self) -> int {
        vstd::arithmetic::power::pow(10, (self.power() + 30) as nat)
    }

    /// The place of the unit, from the smallest to the largest.
    pub open spec fn place(self) -> int {
        match self {
            EnergyUnit::Quectojoule => 0,
            EnergyUnit::Rontojoule => 1,
            EnergyUnit::Yoctojoule => 2,
            EnergyUnit::Zeptojoule => 3,
            EnergyUnit::Attojoule => 4,
            EnergyUnit::Femtojoule => 5,
            EnergyUnit::Picojoule => 6,
            EnergyUnit::Nanojoule => 7,
            EnergyUnit::Microjoule => 8,
            EnergyUnit::Millijoule => 9,
            EnergyUnit::Centijoule => 10,
            EnergyUnit::Decijoule => 11,
            EnergyUnit::Joule => 12,
            EnergyUnit::Decajoule => 13,
            EnergyUnit::Hectojoule => 14,
            EnergyUnit::Kilojoule => 15,
            EnergyUnit::Megajoule => 16,
            EnergyUnit::Gigajoule => 17,
            EnergyUnit::Terajoule => 18,
            EnergyUnit::Petajoule => 19,
            EnergyUnit::Exajoule => 20,
            EnergyUnit::Zettajoule => 21,
            EnergyUnit::Yottajoule => 22,
            EnergyUnit::Ronnajoule => 23,
            EnergyUnit::Quettajoule => 24,
        }
    }

    /// The power of ten of the joule that the unit is.
    pub fn exponent(self) -> (r: i8)
        ensures
            r == self.power(),
    {
        match self {
            EnergyUnit::Quectojoule => -30,
            EnergyUnit::Rontojoule => -27,
            EnergyUnit::Yoctojoule => -24,
            EnergyUnit::Zeptojoule => -21,
            EnergyUnit::Attojoule => -18,
            EnergyUnit::Femtojoule => -15,
            EnergyUnit::Picojoule => -12,
            EnergyUnit::Nanojoule => -9,
            EnergyUnit::Microjoule => -6,
            EnergyUnit::Millijoule => -3,
            EnergyUnit::Centijoule => -2,
            EnergyUnit::Decijoule => -1,
            EnergyUnit::Joule => 0,
            EnergyUnit::Decajoule => 1,
            EnergyUnit::Hectojoule => 2,
            EnergyUnit::Kilojoule => 3,
            EnergyUnit::Megajoule => 6,
            EnergyUnit::Gigajoule => 9,
            EnergyUnit::Terajoule => 12,
            EnergyUnit::Petajoule => 15,
            EnergyUnit::Exajoule => 18,
            EnergyUnit::Zettajoule => 21,
            EnergyUnit::Yottajoule => 24,
            EnergyUnit::Ronnajoule => 27,
            EnergyUnit::Quettajoule => 30,
        }
    }

    /// The place of the unit, from the smallest to the largest.
    pub fn index(self) -> (r: usize)
        ensures
            r == self.place(),
            r < UNIT_COUNT,
    {
        match self {
            EnergyUnit::Quectojoule => 0,
            EnergyUnit::Rontojoule => 1,
            EnergyUnit::Yoctojoule => 2,
            EnergyUnit::Zeptojoule => 3,
            EnergyUnit::Attojoule => 4,
            EnergyUnit::Femtojoule => 5,
            EnergyUnit::Picojoule => 6,
            EnergyUnit::Nanojoule => 7,
            EnergyUnit::Microjoule => 8,
            EnergyUnit::Millijoule => 9,
            EnergyUnit::Centijoule => 10,
            EnergyUnit::Decijoule => 11,
            EnergyUnit::Joule => 12,
            EnergyUnit::Decajoule => 13,
            EnergyUnit::Hectojoule => 14,
            EnergyUnit::Kilojoule => 15,
            EnergyUnit::Megajoule => 16,
            EnergyUnit::Gigajoule => 17,
            EnergyUnit::Terajoule => 18,
            EnergyUnit::Petajoule => 19,
            EnergyUnit::Exajoule => 20,
            EnergyUnit::Zettajoule => 21,
            EnergyUnit::Yottajoule => 22,
            EnergyUnit::Ronnajoule => 23,
            EnergyUnit::Quettajoule => 24,
        }
    }

    /// All units, from the smallest to the largest.
    pub fn all() -> (r: [EnergyUnit; 25])
        ensures
            forall|i: int| 0 <= i < UNIT_COUNT ==> #[trigger] r@[i] == unit_at(i),
    {
        [
            EnergyUnit::Quectojoule,
            EnergyUnit::Rontojoule,
            EnergyUnit::Yoctojoule,
            EnergyUnit::Zeptojoule,
            EnergyUnit::Attojoule,
            EnergyUnit::Femtojoule,
            EnergyUnit::Picojoule,
            EnergyUnit::Nanojoule,
            EnergyUnit::Microjoule,
            EnergyUnit::Millijoule,
            EnergyUnit::Centijoule,
            EnergyUnit::Decijoule,
            EnergyUnit::Joule,
            EnergyUnit::Decajoule,
            EnergyUnit::Hectojoule,
            EnergyUnit::Kilojoule,
            EnergyUnit::Megajoule,
            EnergyUnit::Gigajoule,
            EnergyUnit::Terajoule,
            EnergyUnit::Petajoule,
            EnergyUnit::Exajoule,
            EnergyUnit::Zettajoule,
            EnergyUnit::Yottajoule,
            EnergyUnit::Ronnajoule,
            EnergyUnit::Quettajoule,
        ]
    }
}

/// The unit at a place.
pub open spec fn unit_at(place: int) -> EnergyUnit {
    if place == 0 {
        EnergyUnit::Quectojoule
    } else if place == 1 {
        EnergyUnit::Rontojoule
    } else if place == 2 {
        EnergyUnit::Yoctojoule
    } else if place == 3 {
        EnergyUnit::Zeptojoule
    } else if place == 4 {
        EnergyUnit::Attojoule
    } else if place == 5 {
        EnergyUnit::Femtojoule
    } else if place == 6 {
        EnergyUnit::Picojoule
    } else if place == 7 {
        EnergyUnit::Nanojoule
    } else if place == 8 {
        EnergyUnit::Microjoule
    } else if place == 9 {
        EnergyUnit::Millijoule
    } else if place == 10 {
        EnergyUnit::Centijoule
    } else if place == 11 {
        EnergyUnit::Decijoule
    } else if place == 12 {
        EnergyUnit::Joule
    } else if place == 13 {
        EnergyUnit::Decajoule
    } else if place == 14 {
        EnergyUnit::Hectojoule
    } else if place == 15 {
        EnergyUnit::Kilojoule
    } else if place == 16 {
        EnergyUnit::Megajoule
    } else if place == 17 {
        EnergyUnit::Gigajoule
    } else if place == 18 {
        EnergyUnit::Terajoule
    } else if place == 19 {
        EnergyUnit::Petajoule
    } else if place == 20 {
        EnergyUnit::Exajoule
    } else if place == 21 {
        EnergyUnit::Zettajoule
    } else if place == 22 {
        EnergyUnit::Yottajoule
    } else if place == 23 {
        EnergyUnit::Ronnajoule
    } else {
        EnergyUnit::Quettajoule
    }
}

/// Each unit is at its own place.
pub proof fn unit_places(unit: EnergyUnit, place: int)
    requires
        0 <= place < UNIT_COUNT,
    ensures
        unit_at(place).place() == place,
        unit_at(unit.place()) == unit,
        0 <= unit.place() < UNIT_COUNT,
{
}

/// The number of symbols of prefixed joules that are looked for in a label.
pub const SYMBOL_COUNT: usize = 26;

/// The symbols of prefixed joules with their units, in the order in which they are looked for.
/// Micro is written with a `u`, with the micro sign or with the Greek letter.
pub open spec fn known_symbol(i: int) -> (Seq<char>, EnergyUnit) {
    if i == 0 {
        ("mJ"@, EnergyUnit::Millijoule)
    } else if i == 1 {
        ("uJ"@, EnergyUnit::Microjoule)
    } else if i == 2 {
        ("\u{b5}J"@, EnergyUnit::Microjoule)
    } else if i == 3 {
        ("nJ"@, EnergyUnit::Nanojoule)
    } else if i == 4 {
        ("\u{3bc}J"@, EnergyUnit::Microjoule)
    } else if i == 5 {
        ("pJ"@, EnergyUnit::Picojoule)
    } else if i == 6 {
        ("fJ"@, EnergyUnit::Femtojoule)
    } else if i == 7 {
        ("daJ"@, EnergyUnit::Decajoule)
    } else if i == 8 {
        ("aJ"@, EnergyUnit::Attojoule)
    } else if i == 9 {
        ("zJ"@, EnergyUnit::Zeptojoule)
    } else if i == 10 {
        ("yJ"@, EnergyUnit::Yoctojoule)
    } else if i == 11 {
        ("rJ"@, EnergyUnit::Rontojoule)
    } else if i == 12 {
        ("qJ"@, EnergyUnit::Quectojoule)
    } else if i == 13 {
        ("cJ"@, EnergyUnit::Centijoule)
    } else if i == 14 {
        ("dJ"@, EnergyUnit::Decijoule)
    } else if i == 15 {
        ("hJ"@, EnergyUnit::Hectojoule)
    } else if i == 16 {
        ("kJ"@, EnergyUnit::Kilojoule)
    } else if i == 17 {
        ("MJ"@, EnergyUnit::Megajoule)
    } else if i == 18 {
        ("GJ"@, EnergyUnit::Gigajoule)
    } else if i == 19 {
        ("TJ"@, EnergyUnit::Terajoule)
    } else if i == 20 {
        ("PJ"@, EnergyUnit::Petajoule)
    } else if i == 21 {
        ("EJ"@, EnergyUnit::Exajoule)
    } else if i == 22 {
        ("ZJ"@, EnergyUnit::Zettajoule)
    } else if i == 23 {
        ("YJ"@, EnergyUnit::Yottajoule)
    } else if i == 24 {
        ("RJ"@, EnergyUnit::Ronnajoule)
    } else {
        ("QJ"@, EnergyUnit::Quettajoule)
    }
}

/// The unit of the first symbol from `from` on that `u` holds, if it holds one.
pub open spec fn symbol_unit(u: Seq<char>, from: int) -> Option<EnergyUnit>
    decreases SYMBOL_COUNT - from,
{
    if from >= SYMBOL_COUNT {
        None
    } else if text::has_substring(u, known_symbol(from).0) {
        Some(known_symbol(from).1)
    } else {
        symbol_unit(u, from + 1)
    }
}

/// The unit that a label names: that of the first known symbol of a prefixed joule that it
/// holds, or the joule if it is a bare `J`. Every other label counts as millijoules.
pub open spec fn unit_of(label: Seq<char>) -> EnergyUnit {
    let u = text::trimmed(label);
    match symbol_unit(u, 0) {
        Some(unit) => unit,
        None => if u == "J"@ {
            EnergyUnit::Joule
        } else {
            EnergyUnit::Millijoule
        },
    }
}

/// The symbols of prefixed joules with their units, in the order in which they are looked for.
fn known_symbols() -> (r: [(&'static str, EnergyUnit); 26])
    ensures
        forall|i: int|
            0 <= i < SYMBOL_COUNT ==> (#[trigger] r@[i]).0@ == known_symbol(i).0 && r@[i].1
                == known_symbol(i).1,
{
    [
        ("mJ", EnergyUnit::Millijoule),
        ("uJ", EnergyUnit::Microjoule),
        ("\u{b5}J", EnergyUnit::Microjoule),
        ("nJ", EnergyUnit::Nanojoule),
        ("\u{3bc}J", EnergyUnit::Microjoule),
        ("pJ", EnergyUnit::Picojoule),
        ("fJ", EnergyUnit::Femtojoule),
        ("daJ", EnergyUnit::Decajoule),
        ("aJ", EnergyUnit::Attojoule),
        ("zJ", EnergyUnit::Zeptojoule),
        ("yJ", EnergyUnit::Yoctojoule),
        ("rJ", EnergyUnit::Rontojoule),
        ("qJ", EnergyUnit::Quectojoule),
        ("cJ", EnergyUnit::Centijoule),
        ("dJ", EnergyUnit::Decijoule),
        ("hJ", EnergyUnit::Hectojoule),
        ("kJ", EnergyUnit::Kilojoule),
        ("MJ", EnergyUnit::Megajoule),
        ("GJ", EnergyUnit::Gigajoule),
        ("TJ", EnergyUnit::Terajoule),
        ("PJ", EnergyUnit::Petajoule),
        ("EJ", EnergyUnit::Exajoule),
        ("ZJ", EnergyUnit::Zettajoule),
        ("YJ", EnergyUnit::Yottajoule),
        ("RJ", EnergyUnit::Ronnajoule),
        ("QJ", EnergyUnit::Quettajoule),
    ]
}

/// The unit that a label names.
pub fn labeled_unit(label: &str) -> (r: EnergyUnit)
    ensures
        r == unit_of(label@),
{
    let u: &str = text::trim(label);
    let symbols = known_symbols();
    let mut i: usize = 0;
    while i < SYMBOL_COUNT
        invariant
            i <= SYMBOL_COUNT,
            u@ == text::trimmed(label@),
            symbol_unit(u@, 0) == symbol_unit(u@, i as int),
            forall|j: int|
                0 <= j < SYMBOL_COUNT ==> (#[trigger] symbols@[j]).0@ == known_symbol(j).0
                    && symbols@[j].1 == known_symbol(j).1,
        decreases SYMBOL_COUNT - i,
    {
        if text::contains(u, symbols[i].0) {
            return symbols[i].1;
        }
        i = i + 1;
    }
    if text::same_text(u, "J") {
        EnergyUnit::Joule
    } else {
        EnergyUnit::Millijoule
    }
}

/// White space around a label does not change its unit.
pub proof fn unit_ignores_outer_space(label: Seq<char>)
    ensures
        unit_of(text::trimmed(label)) == unit_of(label),
{
    text::trimmed_is_trimmed(label);
}

/// The letters that a symbol has before its `J`.
pub open spec fn prefix_letter(c: char) -> bool {
    ||| c == 'q'
    ||| c == 'r'
    ||| c == 'y'
    ||| c == 'z'
    ||| c == 'a'
    ||| c == 'f'
    ||| c == 'p'
    ||| c == 'n'
    ||| c == 'u'
    ||| c == '\u{b5}'
    ||| c == '\u{3bc}'
    ||| c == 'm'
    ||| c == 'c'
    ||| c == 'd'
    ||| c == 'h'
    ||| c == 'k'
    ||| c == 'M'
    ||| c == 'G'
    ||| c == 'T'
    ||| c == 'P'
    ||| c == 'E'
    ||| c == 'Z'
    ||| c == 'Y'
    ||| c == 'R'
    ||| c == 'Q'
}

proof fn lemma_two_characters(u: Seq<char>, k: int, pat: Seq<char>)
    requires
        0 < k < u.len(),
        u[k] == 'J',
        forall|j: int|
            0 < j < u.len() && j != k && #[trigger] u[j] == 'J' ==> !prefix_letter(u[j - 1]),
        pat.len() == 2,
        pat[1] == 'J',
        prefix_letter(pat[0]),
    ensures
        text::has_substring(u, pat) <==> u[k - 1] == pat[0],
{
    if text::has_substring(u, pat) {
        let i = choose|i: int| text::occurs_at(u, pat, i);
        assert(u.subrange(i, i + 2)[1] == u[i + 1]);
        assert(u.subrange(i, i + 2)[0] == u[i]);
    }
    if u[k - 1] == pat[0] {
        assert(u.subrange(k - 1, k + 1) =~= pat);
        assert(text::occurs_at(u, pat, k - 1));
    }
}

proof fn lemma_three_characters(u: Seq<char>, k: int, pat: Seq<char>)
    requires
        0 < k < u.len(),
        u[k] == 'J',
        forall|j: int|
            0 < j < u.len() && j != k && #[trigger] u[j] == 'J' ==> !prefix_letter(u[j - 1]),
        pat.len() == 3,
        pat[2] == 'J',
        prefix_letter(pat[1]),
    ensures
        text::has_substring(u, pat) <==> k >= 2 && u[k - 1] == pat[1] && u[k - 2] == pat[0],
{
    if text::has_substring(u, pat) {
        let i = choose|i: int| text::occurs_at(u, pat, i);
        assert(u.subrange(i, i + 3)[2] == u[i + 2]);
        assert(u.subrange(i, i + 3)[1] == u[i + 1]);
        assert(u.subrange(i, i + 3)[0] == u[i]);
    }
    if k >= 2 && u[k - 1] == pat[1] && u[k - 2] == pat[0] {
        assert(u.subrange(k - 2, k + 1) =~= pat);
        assert(text::occurs_at(u, pat, k - 2));
    }
}

/// In a label with a single `J` after a prefix letter that letter tells the unit. An `a` is atto,
/// but deca after a `d`.
#[verifier::rlimit(60)]
pub proof fn the_prefix_tells_the_unit(label: Seq<char>, k: int)
    requires
        0 < k < text::trimmed(label).len(),
        text::trimmed(label)[k] == 'J',
        forall|j: int|
            0 < j < text::trimmed(label).len() && j != k && #[trigger] text::trimmed(label)[j]
                == 'J' ==> !prefix_letter(text::trimmed(label)[j - 1]),
    ensures
        ({
            let u = text::trimmed(label);
            let c = u[k - 1];
            let power = unit_of(label).power();
            &&& c == 'q' ==> power == -30
            &&& c == 'r' ==> power == -27
            &&& c == 'y' ==> power == -24
            &&& c == 'z' ==> power == -21
            &&& c == 'f' ==> power == -15
            &&& c == 'p' ==> power == -12
            &&& c == 'n' ==> power == -9
            &&& c == 'u' ==> power == -6
            &&& c == '\u{b5}' ==> power == -6
            &&& c == '\u{3bc}' ==> power == -6
            &&& c == 'm' ==> power == -3
            &&& c == 'c' ==> power == -2
            &&& c == 'd' ==> power == -1
            &&& c == 'h' ==> power == 2
            &&& c == 'k' ==> power == 3
            &&& c == 'M' ==> power == 6
            &&& c == 'G' ==> power == 9
            &&& c == 'T' ==> power == 12
            &&& c == 'P' ==> power == 15
            &&& c == 'E' ==> power == 18
            &&& c == 'Z' ==> power == 21
            &&& c == 'Y' ==> power == 24
            &&& c == 'R' ==> power == 27
            &&& c == 'Q' ==> power == 30
            &&& c == 'a' && !(k >= 2 && u[k - 2] == 'd') ==> power == -18
            &&& c == 'a' && k >= 2 && u[k - 2] == 'd' ==> power == 1
        }),
{
    let u = text::trimmed(label);
    reveal_strlit("J");
    reveal_strlit("mJ");
    lemma_two_characters(u, k, "mJ"@);
    reveal_strlit("uJ");
    lemma_two_characters(u, k, "uJ"@);
    reveal_strlit("\u{b5}J");
    lemma_two_characters(u, k, "\u{b5}J"@);
    reveal_strlit("nJ");
    lemma_two_characters(u, k, "nJ"@);
    reveal_strlit("\u{3bc}J");
    lemma_two_characters(u, k, "\u{3bc}J"@);
    reveal_strlit("pJ");
    lemma_two_characters(u, k, "pJ"@);
    reveal_strlit("fJ");
    lemma_two_characters(u, k, "fJ"@);
    reveal_strlit("daJ");
    lemma_three_characters(u, k, "daJ"@);
    reveal_strlit("aJ");
    lemma_two_characters(u, k, "aJ"@);
    reveal_strlit("zJ");
    lemma_two_characters(u, k, "zJ"@);
    reveal_strlit("yJ");
    lemma_two_characters(u, k, "yJ"@);
    reveal_strlit("rJ");
    lemma_two_characters(u, k, "rJ"@);
    reveal_strlit("qJ");
    lemma_two_characters(u, k, "qJ"@);
    reveal_strlit("cJ");
    lemma_two_characters(u, k, "cJ"@);
    reveal_strlit("dJ");
    lemma_two_characters(u, k, "dJ"@);
    reveal_strlit("hJ");
    lemma_two_characters(u, k, "hJ"@);
    reveal_strlit("kJ");
    lemma_two_characters(u, k, "kJ"@);
    reveal_strlit("MJ");
    lemma_two_characters(u, k, "MJ"@);
    reveal_strlit("GJ");
    lemma_two_characters(u, k, "GJ"@);
    reveal_strlit("TJ");
    lemma_two_characters(u, k, "TJ"@);
    reveal_strlit("PJ");
    lemma_two_characters(u, k, "PJ"@);
    reveal_strlit("EJ");
    lemma_two_characters(u, k, "EJ"@);
    reveal_strlit("ZJ");
    lemma_two_characters(u, k, "ZJ"@);
    reveal_strlit("YJ");
    lemma_two_characters(u, k, "YJ"@);
    reveal_strlit("RJ");
    lemma_two_characters(u, k, "RJ"@);
    reveal_strlit("QJ");
    lemma_two_characters(u, k, "QJ"@);
    reveal_with_fuel(symbol_unit, 27);
}

proof fn lemma_no_symbol(u: Seq<char>, from: int)
    requires
        0 <= from,
        forall|j: int|
            0 < j < u.len() && #[trigger] u[j] == 'J' ==> !prefix_letter(u[j - 1]),
    ensures
        symbol_unit(u, from) is None,
    decreases SYMBOL_COUNT - from,
{
    if from < SYMBOL_COUNT {
        let pat = known_symbol(from).0;
        lemma_symbols_end_with_joule(from);
        if text::has_substring(u, pat) {
            let i = choose|i: int| text::occurs_at(u, pat, i);
            assert(u.subrange(i, i + pat.len())[pat.len() - 1] == u[i + pat.len() - 1]);
            assert(u.subrange(i, i + pat.len())[pat.len() - 2] == u[i + pat.len() - 2]);
        }
        lemma_no_symbol(u, from + 1);
    }
}

proof fn lemma_symbols_end_with_joule(i: int)
    requires
        0 <= i < SYMBOL_COUNT,
    ensures
        known_symbol(i).0.len() >= 2,
        known_symbol(i).0.last() == 'J',
        prefix_letter(known_symbol(i).0[known_symbol(i).0.len() - 2]),
{
    reveal_strlit("mJ");
    reveal_strlit("uJ");
    reveal_strlit("\u{b5}J");
    reveal_strlit("nJ");
    reveal_strlit("\u{3bc}J");
    reveal_strlit("pJ");
    reveal_strlit("fJ");
    reveal_strlit("daJ");
    reveal_strlit("aJ");
    reveal_strlit("zJ");
    reveal_strlit("yJ");
    reveal_strlit("rJ");
    reveal_strlit("qJ");
    reveal_strlit("cJ");
    reveal_strlit("dJ");
    reveal_strlit("hJ");
    reveal_strlit("kJ");
    reveal_strlit("MJ");
    reveal_strlit("GJ");
    reveal_strlit("TJ");
    reveal_strlit("PJ");
    reveal_strlit("EJ");
    reveal_strlit("ZJ");
    reveal_strlit("YJ");
    reveal_strlit("RJ");
    reveal_strlit("QJ");
}

/// A bare `J` is the joule. Any other label in which no prefix letter stands before a `J` counts
/// as millijoules.
pub proof fn labels_without_a_prefix(label: Seq<char>)
    requires
        forall|j: int|
            0 < j < text::trimmed(label).len() && #[trigger] text::trimmed(label)[j] == 'J'
                ==> !prefix_letter(text::trimmed(label)[j - 1]),
    ensures
        text::trimmed(label).len() == 1 && text::trimmed(label)[0] == 'J' ==> unit_of(label).power()
            == 0,
        !(text::trimmed(label).len() == 1 && text::trimmed(label)[0] == 'J') ==> unit_of(
            label,
        ).power() == -3,
{
    let u = text::trimmed(label);
    lemma_no_symbol(u, 0);
    reveal_strlit("J");
    if u.len() == 1 && u[0] == 'J' {
        assert(u =~= "J"@);
    }
}

/// Whatever else a label holds, `mJ` makes it millijoules; without that `uJ` or the micro sign
/// makes it microjoules, and without these `nJ` makes it nanojoules.
pub proof fn the_first_symbol_counts(label: Seq<char>)
    ensures
        ({
            let u = text::trimmed(label);
            let power = unit_of(label).power();
            let milli = text::has_substring(u, "mJ"@);
            let micro = text::has_substring(u, "uJ"@) || text::has_substring(u, "\u{b5}J"@);
            let nano = text::has_substring(u, "nJ"@);
            &&& milli ==> power == -3
            &&& !milli && micro ==> power == -6
            &&& !milli && !micro && nano ==> power == -9
        }),
{
    reveal_with_fuel(symbol_unit, 5);
}

/// The units by name.
pub proof fn named_units()
    ensures
        EnergyUnit::Quectojoule.power() == -30,
        EnergyUnit::Rontojoule.power() == -27,
        EnergyUnit::Yoctojoule.power() == -24,
        EnergyUnit::Zeptojoule.power() == -21,
        EnergyUnit::Attojoule.power() == -18,
        EnergyUnit::Femtojoule.power() == -15,
        EnergyUnit::Picojoule.power() == -12,
        EnergyUnit::Nanojoule.power() == -9,
        EnergyUnit::Microjoule.power() == -6,
        EnergyUnit::Millijoule.power() == -3,
        EnergyUnit::Centijoule.power() == -2,
        EnergyUnit::Decijoule.power() == -1,
        EnergyUnit::Joule.power() == 0,
        EnergyUnit::Decajoule.power() == 1,
        EnergyUnit::Hectojoule.power() == 2,
        EnergyUnit::Kilojoule.power() == 3,
        EnergyUnit::Megajoule.power() == 6,
        EnergyUnit::Gigajoule.power() == 9,
        EnergyUnit::Terajoule.power() == 12,
        EnergyUnit::Petajoule.power() == 15,
        EnergyUnit::Exajoule.power() == 18,
        EnergyUnit::Zettajoule.power() == 21,
        EnergyUnit::Yottajoule.power() == 24,
        EnergyUnit::Ronnajoule.power() == 27,
        EnergyUnit::Quettajoule.power() == 30,
{
}

/// A later place is that of a larger unit.
pub proof fn places_are_in_order(a: EnergyUnit, b: EnergyUnit)
    ensures
        a.place() < b.place() <==> a.power() < b.power(),
        a.place() == b.place() <==> a == b,
        0 <= a.place() < 25,
{
}

/// A unit is ten times the unit below it for each power of ten between them, and the smallest
/// is one.
pub proof fn units_scale_by_tens(a: EnergyUnit, b: EnergyUnit)
    requires
        a.power() <= b.power(),
    ensures
        b.quectojoules() == a.quectojoules() * vstd::arithmetic::power::pow(
            10,
            (b.power() - a.power()) as nat,
        ),
        EnergyUnit::Quectojoule.quectojoules() == 1,
        a.quectojoules() > 0,
{
    vstd::arithmetic::power::lemma_pow_adds(
        10,
        (a.power() + 30) as nat,
        (b.power() - a.power()) as nat,
    );
    vstd::arithmetic::power::lemma_pow0(10);
    vstd::arithmetic::power::lemma_pow_positive(10, (a.power() + 30) as nat);
}

} // verus!
