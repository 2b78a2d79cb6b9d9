use vstd::prelude::*;
use vstd::string::StringExecFns;

verus! {

/// The closed set of card rarities.
#[derive(Clone, Copy, Debug, PartialEq, Eq, Hash, Structural)]
pub enum Rarity {
    Common,
    Uncommon,
    Rare,
    Mythic,
    Special,
}

/// The display name of a rarity: its variant name.
pub open spec fn rarity_name(r: Rarity) -> Seq<char> {
    match r {
        Rarity::Common => "Common"@,
        Rarity::Uncommon => "Uncommon"@,
        Rarity::Rare => "Rare"@,
        Rarity::Mythic => "Mythic"@,
        Rarity::Special => "Special"@,
    }
}

/// The rarity that a lowercase token in a record names, if any.
pub open spec fn rarity_of_token(t: Seq<char>) -> Option<Rarity> {
    if t == "common"@ {
        Some(Rarity::Common)
    } else if t == "uncommon"@ {
        Some(Rarity::Uncommon)
    } else if t == "rare"@ {
        Some(Rarity::Rare)
    } else if t == "mythic"@ {
        Some(Rarity::Mythic)
    } else if t == "special"@ {
        Some(Rarity::Special)
    } else {
        None
    }
}

/// Position of a rarity in the order Common, Uncommon, Rare, Mythic, Special.
pub open spec fn rarity_rank(r: Rarity) -> int {
    match r {
        Rarity::Common => 0,
        Rarity::Uncommon => 1,
        Rarity::Rare => 2,
        Rarity::Mythic => 3,
        Rarity::Special => 4,
    }
}

/// The rarity at a position of the order Common, Uncommon, Rare, Mythic, Special.
pub open spec fn rarity_at(i: int) -> Rarity {
    if i == 0 {
        Rarity::Common
    } else if i == 1 {
        Rarity::Uncommon
    } else if i == 2 {
        Rarity::Rare
    } else if i == 3 {
        Rarity::Mythic
    } else {
        Rarity::Special
    }
}

impl Rarity {
    /// The display name, e.g. `Mythic`.
    pub fn name(&self) -> (r: String)
        ensures
            r@ == rarity_name(*self),
    {
        match self {
            Rarity::Common => String::from_str("Common"),
            Rarity::Uncommon => String::from_str("Uncommon"),
            Rarity::Rare => String::from_str("Rare"),
            Rarity::Mythic => String::from_str("Mythic"),
            Rarity::Special => String::from_str("Special"),
        }
    }

    /// The rarity named by a lowercase token such as `mythic`.
    pub fn from_token(token: &String) -> (r: Option<Rarity>)
        ensures
            r == rarity_of_token(token@),
    {
        if *token == String::from_str("common") {
            Some(Rarity::Common)
        } else if *token == String::from_str("uncommon") {
            Some(Rarity::Uncommon)
        } else if *token == String::from_str("rare") {
            Some(Rarity::Rare)
        } else if *token == String::from_str("mythic") {
            Some(Rarity::Mythic)
        } else if *token == String::from_str("special") {
            Some(Rarity::Special)
        } else {
            None
        }
    }

    /// Position in the order Common, Uncommon, Rare, Mythic, Special.
    pub fn rank(&self) -> (r: usize)
        ensures
            r as int == rarity_rank(*self),
            rarity_at(r as int) == *self,
    {
        match self {
            Rarity::Common => 0,
            Rarity::Uncommon => 1,
            Rarity::Rare => 2,
            Rarity::Mythic => 3,
            Rarity::Special => 4,
        }
    }

    /// The rarity at position `i` of the order Common, Uncommon, Rare, Mythic, Special.
    pub fn at(i: usize) -> (r: Rarity)
        requires
            i < 5,
        ensures
            r == rarity_at(i as int),
            rarity_rank(r) == i,
    {
        if i == 0 {
            Rarity::Common
        } else if i == 1 {
            Rarity::Uncommon
        } else if i == 2 {
            Rarity::Rare
        } else if i == 3 {
            Rarity::Mythic
        } else {
            Rarity::Special
        }
    }
}

} // verus!
