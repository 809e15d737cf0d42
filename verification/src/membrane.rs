use vstd::prelude::*;

verus! {

broadcast use vstd::string::to_string_from_display_ensures_for_str;

/// `pattern` occurs in `signal` as a contiguous run starting at `at`.
pub open spec fn occurs_at(signal: Seq<u8>, pattern: Seq<u8>, at: int) -> bool {
    &&& 0 <= at
    &&& at + pattern.len() <= signal.len()
    &&& signal.subrange(at, at + pattern.len()) == pattern
}

/// `pattern` occurs somewhere in `signal` as a contiguous run.
pub open spec fn occurs_in(signal: Seq<u8>, pattern: Seq<u8>) -> bool {
    exists|at: int| #[trigger] occurs_at(signal, pattern, at)
}

/// An antibody that blocks every signal holding its pattern.
pub struct MembraneAntibody {
    pub pattern: Vec<u8>,
    pub reason: String,
}

impl View for MembraneAntibody {
    /// The pattern's bytes and the reason's characters.
    type V = (Seq<u8>, Seq<char>);

    open spec fn view(&self) -> (Seq<u8>, Seq<char>) {
        (self.pattern@, self.reason@)
    }
}

/// The self/other boundary: a list of antibodies, checked in order.
pub struct Membrane {
    pub antibodies: Vec<MembraneAntibody>,
}

impl View for Membrane {
    /// The antibodies, each as its pattern and reason.
    type V = Seq<(Seq<u8>, Seq<char>)>;

    open spec fn view(&self) -> Seq<(Seq<u8>, Seq<char>)> {
        self.antibodies@.map_values(|a: MembraneAntibody| a@)
    }
}

/// Some antibody of `antibodies` has its pattern somewhere in `signal`.
pub open spec fn blocked_by(antibodies: Seq<(Seq<u8>, Seq<char>)>, signal: Seq<u8>) -> bool {
    exists|k: int| 0 <= k < antibodies.len() && #[trigger] occurs_in(signal, antibodies[k].0)
}

/// The antibodies that `Membrane::default_antibodies` installs, in order:
/// byte patterns of obviously dangerous operations and why each is blocked.
pub open spec fn default_catalogue() -> Seq<(Seq<u8>, Seq<char>)> {
    seq![
        // "rm -rf"
        (seq![114u8, 109, 32, 45, 114, 102], "destructive filesystem operation"@),
        // "format"
        (seq![102u8, 111, 114, 109, 97, 116], "disk format"@),
        // "drop_all"
        (seq![100u8, 114, 111, 112, 95, 97, 108, 108], "database destruction"@),
        // "DELETE FROM"
        (seq![68u8, 69, 76, 69, 84, 69, 32, 70, 82, 79, 77], "SQL injection"@),
        // "sudo rm"
        (seq![115u8, 117, 100, 111, 32, 114, 109], "privileged deletion"@),
    ]
}

/// The characters that the bytes of `pattern` spell, one per byte.
pub open spec fn text_of(pattern: Seq<u8>) -> Seq<char> {
    pattern.map_values(|b: u8| b as char)
}

/// The default antibodies, in order: the text that each pattern spells and
/// the reason that it is blocked.
pub proof fn lemma_default_catalogue_text()
    ensures
        default_catalogue().len() == 5,
        text_of(default_catalogue()[0].0) == "rm -rf"@,
        default_catalogue()[0].1 == "destructive filesystem operation"@,
        text_of(default_catalogue()[1].0) == "format"@,
        default_catalogue()[1].1 == "disk format"@,
        text_of(default_catalogue()[2].0) == "drop_all"@,
        default_catalogue()[2].1 == "database destruction"@,
        text_of(default_catalogue()[3].0) == "DELETE FROM"@,
        default_catalogue()[3].1 == "SQL injection"@,
        text_of(default_catalogue()[4].0) == "sudo rm"@,
        default_catalogue()[4].1 == "privileged deletion"@,
{
    reveal_strlit("rm -rf");
    assert(text_of(default_catalogue()[0].0) =~= "rm -rf"@);
    reveal_strlit("format");
    assert(text_of(default_catalogue()[1].0) =~= "format"@);
    reveal_strlit("drop_all");
    assert(text_of(default_catalogue()[2].0) =~= "drop_all"@);
    reveal_strlit("DELETE FROM");
    assert(text_of(default_catalogue()[3].0) =~= "DELETE FROM"@);
    reveal_strlit("sudo rm");
    assert(text_of(default_catalogue()[4].0) =~= "sudo rm"@);
}

/// A membrane without antibodies lets every signal pass.
pub proof fn lemma_no_antibodies_admit_all(signal: Seq<u8>)
    ensures
        !blocked_by(Seq::<(Seq<u8>, Seq<char>)>::empty(), signal),
{
}

/// After an antibody is added, a signal is blocked exactly when it was
/// blocked before or holds the new pattern: adding never lets through a
/// signal that was blocked, and the new pattern is always blocked.
pub proof fn lemma_add_antibody_blocks(
    antibodies: Seq<(Seq<u8>, Seq<char>)>,
    pattern: Seq<u8>,
    reason: Seq<char>,
    signal: Seq<u8>,
)
    ensures
        blocked_by(antibodies.push((pattern, reason)), signal) <==> (blocked_by(antibodies, signal)
            || occurs_in(signal, pattern)),
{
    let pushed = antibodies.push((pattern, reason));
    if occurs_in(signal, pattern) {
        assert(pushed[antibodies.len() as int].0 == pattern);
    }
    if blocked_by(antibodies, signal) {
        let k = choose|k: int| 0 <= k < antibodies.len() && #[trigger] occurs_in(signal, antibodies[k].0);
        assert(pushed[k] == antibodies[k]);
    }
    if blocked_by(pushed, signal) {
        let k = choose|k: int| 0 <= k < pushed.len() && #[trigger] occurs_in(signal, pushed[k].0);
        if k < antibodies.len() {
            assert(pushed[k] == antibodies[k]);
        }
    }
}

/// A signal holding any antibody's pattern is blocked, wherever the pattern
/// stands in it.
pub proof fn lemma_pattern_is_blocked(
    antibodies: Seq<(Seq<u8>, Seq<char>)>,
    k: int,
    signal: Seq<u8>,
    at: int,
)
    requires
        0 <= k < antibodies.len(),
        occurs_at(signal, antibodies[k].0, at),
    ensures
        blocked_by(antibodies, signal),
{
    assert(occurs_in(signal, antibodies[k].0));
}

/// An antibody with an empty pattern blocks every signal.
pub proof fn lemma_empty_pattern_blocks_all(signal: Seq<u8>)
    ensures
        occurs_in(signal, Seq::<u8>::empty()),
{
    assert(signal.subrange(0, 0) =~= Seq::<u8>::empty());
    assert(occurs_at(signal, Seq::<u8>::empty(), 0));
}

/// A blocked signal stays blocked when bytes are put before or after it:
/// wrapping a dangerous signal does not get it through the membrane.
pub proof fn lemma_blocked_within_larger_signal(
    antibodies: Seq<(Seq<u8>, Seq<char>)>,
    before: Seq<u8>,
    signal: Seq<u8>,
    after: Seq<u8>,
)
    requires
        blocked_by(antibodies, signal),
    ensures
        blocked_by(antibodies, before + signal + after),
{
    let k = choose|k: int| 0 <= k < antibodies.len() && #[trigger] occurs_in(signal, antibodies[k].0);
    let pattern = antibodies[k].0;
    let at = choose|at: int| #[trigger] occurs_at(signal, pattern, at);
    let whole = before + signal + after;
    let shifted = at + before.len();
    assert(whole.subrange(shifted, shifted + pattern.len()) =~= signal.subrange(
        at,
        at + pattern.len(),
    ));
    assert(occurs_at(whole, pattern, shifted));
    assert(occurs_in(whole, antibodies[k].0));
}

/// Does `pattern` occur in `signal` starting at `at`?
fn matches_at(signal: &[u8], pattern: &Vec<u8>, at: usize) -> (r: bool)
    requires
        at + pattern@.len() <= signal@.len(),
    ensures
        r == occurs_at(signal@, pattern@, at as int),
{
    let n = pattern.len();
    let len = signal.len();
    let mut t: usize = 0;
    while t < n
        invariant
            len == signal@.len(),
            n == pattern@.len(),
            t <= n,
            at + n <= signal@.len(),
            forall|u: int| 0 <= u < t ==> signal@[at + u] == pattern@[u],
        decreases n - t,
    {
        if signal[at + t] != pattern[t] {
            assert(signal@.subrange(at as int, at + n)[t as int] != pattern@[t as int]);
            return false;
        }
        t += 1;
    }
    assert(signal@.subrange(at as int, at + n) =~= pattern@);
    true
}

impl Membrane {
    /// A membrane without antibodies.
    pub fn new() -> (r: Self)
        ensures
            r@ == Seq::<(Seq<u8>, Seq<char>)>::empty(),
    {
        Membrane { antibodies: Vec::new() }
    }

    /// Adds an antibody that blocks every signal holding `pattern`.
    pub fn add_antibody(&mut self, pattern: Vec<u8>, reason: &str)
        ensures
            final(self)@ == old(self)@.push((pattern@, reason@)),
    {
        let ab = MembraneAntibody { pattern, reason: reason.to_string() };
        self.antibodies.push(ab);
        assert(self@ =~= old(self)@.push((pattern@, reason@)));
    }

    /// A membrane holding the default antibodies against dangerous operations.
    pub fn default_antibodies() -> (r: Self)
        ensures
            r@ == default_catalogue(),
    {
        let mut m = Membrane::new();
        // "rm -rf"
        m.add_antibody(vec![114u8, 109, 32, 45, 114, 102], "destructive filesystem operation");
        // "format"
        m.add_antibody(vec![102u8, 111, 114, 109, 97, 116], "disk format");
        // "drop_all"
        m.add_antibody(vec![100u8, 114, 111, 112, 95, 97, 108, 108], "database destruction");
        // "DELETE FROM"
        m.add_antibody(vec![68u8, 69, 76, 69, 84, 69, 32, 70, 82, 79, 77], "SQL injection");
        // "sudo rm"
        m.add_antibody(vec![115u8, 117, 100, 111, 32, 114, 109], "privileged deletion");
        assert(m@ =~= default_catalogue());
        m
    }

    /// Is `signal` safe, that is, does no antibody's pattern occur in it?
    pub fn check(&self, signal: &[u8]) -> (r: bool)
        ensures
            r == !blocked_by(self@, signal@),
    {
        let count = self.antibodies.len();
        let mut k: usize = 0;
        while k < count
            invariant
                count == self.antibodies@.len(),
                k <= count,
                forall|j: int| 0 <= j < k ==> !#[trigger] occurs_in(signal@, self@[j].0),
            decreases count - k,
        {
            let pattern = &self.antibodies[k].pattern;
            assert(pattern@ == self@[k as int].0);
            if signal.len() >= pattern.len() {
                let last = signal.len() - pattern.len();
                let mut i: usize = 0;
                loop
                    invariant
                        count == self.antibodies@.len(),
                        k < count,
                        pattern@ == self@[k as int].0,
                        i <= last,
                        last + pattern@.len() == signal@.len(),
                        forall|j: int| 0 <= j < i ==> !#[trigger] occurs_at(signal@, pattern@, j),
                    ensures
                        forall|j: int| 0 <= j <= last ==> !#[trigger] occurs_at(signal@, pattern@, j),
                    decreases last - i,
                {
                    if matches_at(signal, pattern, i) {
                        assert(occurs_in(signal@, self@[k as int].0));
                        return false;
                    }
                    if i == last {
                        break;
                    }
                    i += 1;
                }
            }
            assert(!occurs_in(signal@, self@[k as int].0));
            k += 1;
        }
        true
    }
}

} // verus!
