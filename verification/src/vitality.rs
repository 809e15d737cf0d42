use vstd::prelude::*;

verus! {

/// What one attempt to spend energy does to an agent's count of low-energy
/// ticks, given whether the agent could afford the spend: the new count and
/// whether apoptosis is triggered.
///
/// A spend the agent cannot afford adds one low-energy tick, and triggers
/// apoptosis once the count reaches the patience. A spend it can afford
/// takes one tick away, down to zero, and never triggers apoptosis.
pub open spec fn spend_step(low_energy_ticks: nat, apoptosis_patience: nat, affordable: bool) -> (
    nat,
    bool,
) {
    if affordable {
        (if low_energy_ticks == 0 { 0 } else { (low_energy_ticks - 1) as nat }, false)
    } else {
        (low_energy_ticks + 1, low_energy_ticks + 1 >= apoptosis_patience)
    }
}

/// The low-energy count and whether apoptosis was triggered, after a run of
/// spend attempts, each `true` where the agent could afford it. A run stops
/// counting at the attempt that triggers apoptosis: a dead agent spends no
/// more.
pub open spec fn spend_run(low_energy_ticks: nat, apoptosis_patience: nat, attempts: Seq<bool>) -> (
    nat,
    bool,
)
    decreases attempts.len(),
{
    if attempts.len() == 0 {
        (low_energy_ticks, false)
    } else {
        let (ticks, died) = spend_step(low_energy_ticks, apoptosis_patience, attempts[0]);
        if died {
            (ticks, true)
        } else {
            spend_run(ticks, apoptosis_patience, attempts.drop_first())
        }
    }
}

/// The bookkeeping of one spend attempt: the agent's new low-energy count and
/// whether it must now undergo apoptosis.
pub fn settle_spend(low_energy_ticks: u32, apoptosis_patience: u32, affordable: bool) -> (r: (
    u32,
    bool,
))
    requires
        !affordable ==> low_energy_ticks < u32::MAX,
    ensures
        affordable ==> !r.1,
        affordable && low_energy_ticks == 0 ==> r.0 == 0,
        affordable && low_energy_ticks > 0 ==> r.0 + 1 == low_energy_ticks,
        !affordable ==> r.0 == low_energy_ticks + 1,
        !affordable ==> (r.1 <==> r.0 >= apoptosis_patience),
        (r.0 as nat, r.1) == spend_step(
            low_energy_ticks as nat,
            apoptosis_patience as nat,
            affordable,
        ),
{
    if !affordable {
        let ticks = low_energy_ticks + 1;
        (ticks, ticks >= apoptosis_patience)
    } else {
        (low_energy_ticks.saturating_sub(1), false)
    }
}

/// An agent that starts without low-energy ticks and fails every spend dies
/// at exactly the attempt that brings its count to its patience (at the
/// first attempt when the patience is zero), and not before.
pub proof fn lemma_failing_agent_dies_at_patience(apoptosis_patience: nat, n: nat)
    ensures
        spend_run(0, apoptosis_patience, Seq::new(n, |i: int| false)).1 <==> (n >= apoptosis_patience
            && n >= 1),
        n < apoptosis_patience ==> spend_run(0, apoptosis_patience, Seq::new(n, |i: int| false)).0
            == n,
{
    lemma_failures_from(0, apoptosis_patience, n);
}

/// From `t` ticks, `n` failed spends in a row.
proof fn lemma_failures_from(t: nat, apoptosis_patience: nat, n: nat)
    ensures
        spend_run(t, apoptosis_patience, Seq::new(n, |i: int| false)).1 <==> (n >= 1 && t + n
            >= apoptosis_patience),
        t + n < apoptosis_patience ==> spend_run(t, apoptosis_patience, Seq::new(n, |i: int| false)).0
            == t + n,
    decreases n,
{
    let run = Seq::new(n, |i: int| false);
    if n > 0 {
        assert(run.drop_first() =~= Seq::new((n - 1) as nat, |i: int| false));
        lemma_failures_from(t + 1, apoptosis_patience, (n - 1) as nat);
    }
}

/// One spend: an affordable spend takes exactly one low-energy tick away (none
/// when there are none) and never triggers apoptosis; a refused spend adds
/// exactly one tick and triggers apoptosis exactly when the new count has
/// reached the patience.
pub proof fn lemma_single_spend(low_energy_ticks: nat, apoptosis_patience: nat)
    ensures
        spend_run(low_energy_ticks, apoptosis_patience, seq![true]).1 == false,
        low_energy_ticks == 0 ==> spend_run(low_energy_ticks, apoptosis_patience, seq![true]).0 == 0,
        low_energy_ticks > 0 ==> spend_run(low_energy_ticks, apoptosis_patience, seq![true]).0 + 1
            == low_energy_ticks,
        spend_run(low_energy_ticks, apoptosis_patience, seq![false]).0 == low_energy_ticks + 1,
        spend_run(low_energy_ticks, apoptosis_patience, seq![false]).1 <==> low_energy_ticks + 1
            >= apoptosis_patience,
{
    let yes = seq![true];
    let no = seq![false];
    assert(yes.len() == 1 && yes[0]);
    assert(no.len() == 1 && !no[0]);
    assert(yes.drop_first() =~= Seq::<bool>::empty());
    assert(no.drop_first() =~= Seq::<bool>::empty());
    let after_yes = spend_step(low_energy_ticks, apoptosis_patience, true).0;
    assert(spend_run(after_yes, apoptosis_patience, Seq::<bool>::empty()) == (after_yes, false));
    assert(spend_run(low_energy_ticks + 1, apoptosis_patience, Seq::<bool>::empty()) == (
        low_energy_ticks + 1,
        false,
    ));
}

/// A run of `n` affordable spends takes `n` ticks away, down to zero, and
/// never triggers apoptosis.
pub proof fn lemma_affordable_run_recovers(low_energy_ticks: nat, apoptosis_patience: nat, n: nat)
    ensures
        !spend_run(low_energy_ticks, apoptosis_patience, Seq::new(n, |i: int| true)).1,
        low_energy_ticks >= n ==> spend_run(low_energy_ticks, apoptosis_patience, Seq::new(n, |i: int| true)).0
            + n == low_energy_ticks,
        low_energy_ticks < n ==> spend_run(low_energy_ticks, apoptosis_patience, Seq::new(n, |i: int| true)).0
            == 0,
    decreases n,
{
    let run = Seq::new(n, |i: int| true);
    if n > 0 {
        assert(run.drop_first() =~= Seq::new((n - 1) as nat, |i: int| true));
        let next: nat = if low_energy_ticks == 0 { 0 } else { (low_energy_ticks - 1) as nat };
        lemma_affordable_run_recovers(next, apoptosis_patience, (n - 1) as nat);
    }
}

} // verus!
