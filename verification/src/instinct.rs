use vstd::prelude::*;

verus! {

/// The ten biological instincts, each mapped to a family of instructions.
#[derive(Clone, Copy, Debug, PartialEq, Eq, Hash, Structural)]
pub enum Instinct {
    /// HALT, TRAP, RESOURCE_ACQUIRE
    Survive,
    /// IO_READ, SENSOR_ACQUIRE, FUSE_CONF
    Perceive,
    /// JMP, CALL, RET
    Navigate,
    /// TELL, ASK, BROADCAST
    Communicate,
    /// BOX, UNBOX, REGION_CREATE
    Learn,
    /// MEMBRANE_CHK, VERIFY, CAP_REQ
    Defend,
    /// ATP_GEN
    Rest,
    /// explore unknown states
    Play,
    /// compose new genes
    Create,
    /// TRUST_UPDATE, DELEGATE
    Socialize,
}

/// Number of instincts.
pub open spec fn instinct_count() -> nat {
    10
}

impl Instinct {
    /// The instincts in the order of their identifiers.
    pub open spec fn catalogue() -> Seq<Instinct> {
        seq![
            Instinct::Survive,
            Instinct::Perceive,
            Instinct::Navigate,
            Instinct::Communicate,
            Instinct::Learn,
            Instinct::Defend,
            Instinct::Rest,
            Instinct::Play,
            Instinct::Create,
            Instinct::Socialize,
        ]
    }

    /// The numeric identifier of an instinct.
    pub open spec fn ident(self) -> u8 {
        match self {
            Instinct::Survive => 0,
            Instinct::Perceive => 1,
            Instinct::Navigate => 2,
            Instinct::Communicate => 3,
            Instinct::Learn => 4,
            Instinct::Defend => 5,
            Instinct::Rest => 6,
            Instinct::Play => 7,
            Instinct::Create => 8,
            Instinct::Socialize => 9,
        }
    }

    /// The lower-case name of an instinct.
    pub open spec fn label(self) -> Seq<char> {
        match self {
            Instinct::Survive => "survive"@,
            Instinct::Perceive => "perceive"@,
            Instinct::Navigate => "navigate"@,
            Instinct::Communicate => "communicate"@,
            Instinct::Learn => "learn"@,
            Instinct::Defend => "defend"@,
            Instinct::Rest => "rest"@,
            Instinct::Play => "play"@,
            Instinct::Create => "create"@,
            Instinct::Socialize => "socialize"@,
        }
    }

    /// Every instinct, in the order of its identifier.
    pub fn all() -> (r: &'static [Instinct])
        ensures
            r@ == Self::catalogue(),
    {
        &[
            Instinct::Survive,
            Instinct::Perceive,
            Instinct::Navigate,
            Instinct::Communicate,
            Instinct::Learn,
            Instinct::Defend,
            Instinct::Rest,
            Instinct::Play,
            Instinct::Create,
            Instinct::Socialize,
        ]
    }
    /// The numeric identifier of this instinct, its position in `all()`.
    pub fn id(self) -> (r: u8)
        ensures
            r == self.ident(),
    {
        match self {
            Instinct::Survive => 0,
            Instinct::Perceive => 1,
            Instinct::Navigate => 2,
            Instinct::Communicate => 3,
            Instinct::Learn => 4,
            Instinct::Defend => 5,
            Instinct::Rest => 6,
            Instinct::Play => 7,
            Instinct::Create => 8,
            Instinct::Socialize => 9,
        }
    }

    /// The instinct with the given identifier, if there is one.
    pub fn from_id(id: u8) -> (r: Option<Self>)
        ensures
            r is Some <==> id < instinct_count(),
            r matches Some(i) ==> i.ident() == id,
    {
        match id {
            0 => Some(Instinct::Survive),
            1 => Some(Instinct::Perceive),
            2 => Some(Instinct::Navigate),
            3 => Some(Instinct::Communicate),
            4 => Some(Instinct::Learn),
            5 => Some(Instinct::Defend),
            6 => Some(Instinct::Rest),
            7 => Some(Instinct::Play),
            8 => Some(Instinct::Create),
            9 => Some(Instinct::Socialize),
            _ => None,
        }
    }

    /// The lower-case name of this instinct.
    pub fn name(self) -> (r: &'static str)
        ensures
            r@ == self.label(),
    {
        match self {
            Instinct::Survive => "survive",
            Instinct::Perceive => "perceive",
            Instinct::Navigate => "navigate",
            Instinct::Communicate => "communicate",
            Instinct::Learn => "learn",
            Instinct::Defend => "defend",
            Instinct::Rest => "rest",
            Instinct::Play => "play",
            Instinct::Create => "create",
            Instinct::Socialize => "socialize",
        }
    }
}

/// The fixed table of instincts: each instinct's identifier and lower-case
/// name, as the rest of the system (bytecode, logs) knows them.
pub proof fn lemma_instinct_table()
    ensures
        Instinct::Survive.ident() == 0,
        Instinct::Survive.label() == "survive"@,
        Instinct::Perceive.ident() == 1,
        Instinct::Perceive.label() == "perceive"@,
        Instinct::Navigate.ident() == 2,
        Instinct::Navigate.label() == "navigate"@,
        Instinct::Communicate.ident() == 3,
        Instinct::Communicate.label() == "communicate"@,
        Instinct::Learn.ident() == 4,
        Instinct::Learn.label() == "learn"@,
        Instinct::Defend.ident() == 5,
        Instinct::Defend.label() == "defend"@,
        Instinct::Rest.ident() == 6,
        Instinct::Rest.label() == "rest"@,
        Instinct::Play.ident() == 7,
        Instinct::Play.label() == "play"@,
        Instinct::Create.ident() == 8,
        Instinct::Create.label() == "create"@,
        Instinct::Socialize.ident() == 9,
        Instinct::Socialize.label() == "socialize"@,
{
}

/// Identifiers are below the number of instincts, and two instincts with the
/// same identifier are the same instinct.
pub proof fn lemma_ident_injective(a: Instinct, b: Instinct)
    ensures
        a.ident() < instinct_count(),
        a.ident() == b.ident() ==> a == b,
{
}

/// `all()` lists every instinct exactly once, each at the position given by
/// its identifier.
pub proof fn lemma_catalogue_complete(i: Instinct)
    ensures
        Instinct::catalogue().len() == instinct_count(),
        Instinct::catalogue()[i.ident() as int] == i,
        forall|k: int| 0 <= k < instinct_count() ==> #[trigger] Instinct::catalogue()[k].ident() == k,
{
}

/// Looking up an instinct by its own identifier gives it back, and every
/// identifier below the number of instincts belongs to one instinct.
pub proof fn lemma_ident_roundtrip(n: u8)
    ensures
        n < instinct_count() ==> Instinct::catalogue()[n as int].ident() == n,
        n < instinct_count() ==> exists|i: Instinct| #[trigger] i.ident() == n,
{
    if n < instinct_count() {
        lemma_catalogue_complete(Instinct::Survive);
        assert(Instinct::catalogue()[n as int].ident() == n);
    }
}

/// Different instincts have different names.
pub proof fn lemma_label_injective(a: Instinct, b: Instinct)
    ensures
        a.label() == b.label() ==> a == b,
{
    reveal_strlit("survive");
    reveal_strlit("perceive");
    reveal_strlit("navigate");
    reveal_strlit("communicate");
    reveal_strlit("learn");
    reveal_strlit("defend");
    reveal_strlit("rest");
    reveal_strlit("play");
    reveal_strlit("create");
    reveal_strlit("socialize");
    if a.label() == b.label() {
        assert(a.label().len() == b.label().len());
        assert(a.label()[0] == b.label()[0]);
    }
}

} // verus!
