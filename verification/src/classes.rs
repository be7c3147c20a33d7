use vstd::prelude::*;

verus! {

/// A player in the duel game.
#[derive(Debug, Clone)]
pub struct Player {
    /// The player's name.
    pub name: String,
    /// The player's vitality (health points).
    pub vitality: u32,
    /// The player's speed, used as the counter tick interval in milliseconds.
    pub speed: u32,
    /// The player's strength, an additive score bonus.
    pub strength: u32,
}

impl Player {
    /// Creates a new player with the given attributes.
    pub fn new(name: String, vitality: u32, speed: u32, strength: u32) -> (p: Player)
        ensures
            p.name == name,
            p.vitality == vitality,
            p.speed == speed,
            p.strength == strength,
    {
        Player { name, vitality, speed, strength }
    }
}

impl Default for Player {
    /// The default player: named "Joueur", with 50 vitality, speed and strength.
    fn default() -> (p: Player)
        ensures
            p.name@ == "Joueur"@,
            p.vitality == 50,
            p.speed == 50,
            p.strength == 50,
    {
        Player { name: "Joueur".to_owned(), vitality: 50, speed: 50, strength: 50 }
    }
}

/// The result of stopping the counter during one objective.
#[derive(Clone, Copy, Debug)]
pub struct PlayerRes {
    /// The counter value at the moment of stopping.
    pub counter: u8,
    /// How many times the counter wrapped past 100 and was reset.
    pub miss: u32,
}

impl Default for PlayerRes {
    /// The initial objective result: counter 0, no misses.
    fn default() -> (r: PlayerRes)
        ensures
            r.counter == 0,
            r.miss == 0,
    {
        PlayerRes { counter: 0, miss: 0 }
    }
}

} // verus!
