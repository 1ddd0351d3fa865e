//! Two-party battle records: the commit-reveal protocol data, the literal
//! `"<idA>:<idB>"` battle key, and the deterministic combat resolver.

use vstd::prelude::*;

use crate::Error;
use crate::dragon::{ConsView, Constitution, Dragon, Skill, skills_wf, spec_apply_skill};
use vstd::string::StringExecFns;

verus! {

/// Ten minutes in microseconds: once this has passed since creation, a
/// battle resolves even if a side never revealed.
pub const BATTLE_MAX_DURATION: u64 = 10 * 60 * 1_000_000;

/// One two-party encounter: the participant pair fixed at creation, one
/// optional commitment hash and one optional revealed action sequence per
/// side. Each revealed byte is an index into that creature's skill list.
#[derive(Debug)]
pub struct Battle {
    pub start_timestamp: u64,
    pub dragon_a: u64,
    pub dragon_b: u64,
    pub hash_actions_a: Option<[u8; 32]>,
    pub hash_actions_b: Option<[u8; 32]>,
    pub actions_a: Option<Vec<u8>>,
    pub actions_b: Option<Vec<u8>>,
}

pub open spec fn opt_hash_view(o: Option<[u8; 32]>) -> Option<Seq<u8>> {
    match o {
        Some(h) => Some(h@),
        None => None,
    }
}

pub open spec fn opt_bytes_view(o: Option<Vec<u8>>) -> Option<Seq<u8>> {
    match o {
        Some(v) => Some(v@),
        None => None,
    }
}

/// Mathematical model of a [`Battle`].
#[verifier::ext_equal]
pub ghost struct BattleView {
    pub start_timestamp: u64,
    pub dragon_a: u64,
    pub dragon_b: u64,
    pub hash_actions_a: Option<Seq<u8>>,
    pub hash_actions_b: Option<Seq<u8>>,
    pub actions_a: Option<Seq<u8>>,
    pub actions_b: Option<Seq<u8>>,
}

impl View for Battle {
    type V = BattleView;

    open spec fn view(&self) -> BattleView {
        BattleView {
            start_timestamp: self.start_timestamp,
            dragon_a: self.dragon_a,
            dragon_b: self.dragon_b,
            hash_actions_a: opt_hash_view(self.hash_actions_a),
            hash_actions_b: opt_hash_view(self.hash_actions_b),
            actions_a: opt_bytes_view(self.actions_a),
            actions_b: opt_bytes_view(self.actions_b),
        }
    }
}

/// The versioned on-store shape of a battle record.
#[derive(Debug)]
pub enum VBattle {
    V1(Battle),
}

impl VBattle {
    pub open spec fn value(self) -> Battle {
        match self {
            VBattle::V1(b) => b,
        }
    }
}

impl From<VBattle> for Battle {
    fn from(c: VBattle) -> (r: Battle)
        ensures
            r == c.value(),
    {
        match c {
            VBattle::V1(c) => c,
        }
    }
}

impl vstd::std_specs::convert::FromSpecImpl<VBattle> for Battle {
    open spec fn obeys_from_spec() -> bool {
        true
    }

    open spec fn from_spec(c: VBattle) -> Battle {
        c.value()
    }
}

/// Whether `id` is one of the battle's two participants.
pub open spec fn spec_participant(b: BattleView, id: u64) -> bool {
    b.dragon_a == id || b.dragon_b == id
}

/// The battle after `id`'s side commits hash `h` (overwriting any earlier
/// commitment; nothing is ever checked against it).
pub open spec fn spec_set_hash(b: BattleView, id: u64, h: Seq<u8>) -> BattleView
    recommends
        spec_participant(b, id),
{
    if b.dragon_a == id {
        BattleView { hash_actions_a: Some(h), ..b }
    } else {
        BattleView { hash_actions_b: Some(h), ..b }
    }
}

/// The battle after `id`'s side reveals `acts` (overwriting any earlier
/// reveal; the commitment hash is not consulted).
pub open spec fn spec_set_actions(b: BattleView, id: u64, acts: Seq<u8>) -> BattleView
    recommends
        spec_participant(b, id),
{
    if b.dragon_a == id {
        BattleView { actions_a: Some(acts), ..b }
    } else {
        BattleView { actions_b: Some(acts), ..b }
    }
}

pub open spec fn nonempty_actions(o: Option<Seq<u8>>) -> bool {
    match o {
        Some(s) => s.len() > 0,
        None => false,
    }
}

/// The completion predicate: both sides have revealed non-empty action
/// sequences, or the ten-minute deadline has passed.
pub open spec fn spec_complete(b: BattleView, now: u64) -> bool {
    (nonempty_actions(b.actions_a) && nonempty_actions(b.actions_b)) || now >= b.start_timestamp
        + BATTLE_MAX_DURATION
}

impl Battle {
    pub fn new(dragon_a: u64, dragon_b: u64, now: u64) -> (b: Battle)
        ensures
            b@ == (BattleView {
                start_timestamp: now,
                dragon_a,
                dragon_b,
                hash_actions_a: None,
                hash_actions_b: None,
                actions_a: None,
                actions_b: None,
            }),
    {
        Battle {
            start_timestamp: now,
            dragon_a,
            dragon_b,
            hash_actions_a: None,
            hash_actions_b: None,
            actions_a: None,
            actions_b: None,
        }
    }

    /// Store `dragon_id`'s commitment hash; fails `NotParticipant`
    /// (changing nothing) for any other creature.
    pub fn set_hash_actions(&mut self, dragon_id: u64, hash_actions: [u8; 32]) -> (r: Result<
        (),
        Error,
    >)
        ensures
            r is Ok <==> spec_participant(old(self)@, dragon_id),
            r is Ok ==> final(self)@ == spec_set_hash(old(self)@, dragon_id, hash_actions@),
            r is Err ==> r == Err::<(), Error>(Error::NotParticipant) && *final(self) == *old(
                self,
            ),
    {
        if self.dragon_a == dragon_id {
            self.hash_actions_a = Some(hash_actions);
        } else if self.dragon_b == dragon_id {
            self.hash_actions_b = Some(hash_actions);
        } else {
            return Err(Error::NotParticipant);
        }
        Ok(())
    }

    /// Store `dragon_id`'s revealed raw actions; the commitment hash is not
    /// checked. Fails `NotParticipant` (changing nothing) for any other
    /// creature.
    pub fn set_actions(&mut self, dragon_id: u64, actions: Vec<u8>) -> (r: Result<(), Error>)
        ensures
            r is Ok <==> spec_participant(old(self)@, dragon_id),
            r is Ok ==> final(self)@ == spec_set_actions(old(self)@, dragon_id, actions@),
            r is Err ==> r == Err::<(), Error>(Error::NotParticipant) && *final(self) == *old(
                self,
            ),
    {
        if self.dragon_a == dragon_id {
            self.actions_a = Some(actions);
        } else if self.dragon_b == dragon_id {
            self.actions_b = Some(actions);
        } else {
            return Err(Error::NotParticipant);
        }
        Ok(())
    }

    /// Whether the battle is ready to resolve at time `now`.
    pub fn complete(&self, now: u64) -> (r: bool)
        ensures
            r == spec_complete(self@, now),
    {
        let both = match (&self.actions_a, &self.actions_b) {
            (Some(a), Some(b)) => a.len() > 0 && b.len() > 0,
            _ => false,
        };
        both || (self.start_timestamp <= u64::MAX - BATTLE_MAX_DURATION && now
            >= self.start_timestamp + BATTLE_MAX_DURATION)
    }
}

/// The decimal digit character for `d`.
pub open spec fn spec_digit(d: int) -> char {
    if d == 0 {
        '0'
    } else if d == 1 {
        '1'
    } else if d == 2 {
        '2'
    } else if d == 3 {
        '3'
    } else if d == 4 {
        '4'
    } else if d == 5 {
        '5'
    } else if d == 6 {
        '6'
    } else if d == 7 {
        '7'
    } else if d == 8 {
        '8'
    } else {
        '9'
    }
}

/// The decimal rendering of a nonnegative integer, most significant digit
/// first, without leading zeros (a lone `0` for zero).
pub open spec fn spec_dec(n: int) -> Seq<char>
    recommends
        n >= 0,
    decreases n,
{
    if n < 10 {
        seq![spec_digit(n)]
    } else {
        spec_dec(n / 10).push(spec_digit(n % 10))
    }
}

/// The key a battle between `dragon_a` and `dragon_b` is stored under: the
/// literal form `"<idA>:<idB>"` of the two ids in pairing order.
pub open spec fn spec_battle_key(dragon_a: u64, dragon_b: u64) -> Seq<char> {
    spec_dec(dragon_a as int) + seq![':'] + spec_dec(dragon_b as int)
}

fn push_digit(s: &mut String, d: u64)
    requires
        d < 10,
    ensures
        final(s)@ == old(s)@.push(spec_digit(d as int)),
{
    let lit: &str = match d {
        0 => "0",
        1 => "1",
        2 => "2",
        3 => "3",
        4 => "4",
        5 => "5",
        6 => "6",
        7 => "7",
        8 => "8",
        _ => "9",
    };
    proof {
        reveal_strlit("0");
        reveal_strlit("1");
        reveal_strlit("2");
        reveal_strlit("3");
        reveal_strlit("4");
        reveal_strlit("5");
        reveal_strlit("6");
        reveal_strlit("7");
        reveal_strlit("8");
        reveal_strlit("9");
        assert(lit@ =~= seq![spec_digit(d as int)]);
    }
    s.append(lit);
    proof {
        assert(final(s)@ =~= old(s)@.push(spec_digit(d as int)));
    }
}

fn push_dec(s: &mut String, n: u64)
    ensures
        final(s)@ == old(s)@ + spec_dec(n as int),
    decreases n,
{
    if n >= 10 {
        push_dec(s, n / 10);
        push_digit(s, n % 10);
        proof {
            assert(final(s)@ =~= old(s)@ + spec_dec(n as int));
        }
    } else {
        push_digit(s, n);
        proof {
            assert(final(s)@ =~= old(s)@ + spec_dec(n as int));
        }
    }
}

/// Render the literal `"<idA>:<idB>"` battle key.
pub fn battle_key(dragon_a: u64, dragon_b: u64) -> (r: String)
    ensures
        r@ == spec_battle_key(dragon_a, dragon_b),
{
    let mut s = String::new();
    push_dec(&mut s, dragon_a);
    proof {
        reveal_strlit(":");
    }
    s.append(":");
    proof {
        assert(s@ =~= spec_dec(dragon_a as int) + seq![':']);
    }
    push_dec(&mut s, dragon_b);
    proof {
        assert(s@ =~= spec_battle_key(dragon_a, dragon_b));
    }
    s
}

/// The action sequence a side fights with: what it revealed, or the single
/// neutral action `[0]` if it revealed nothing (or an empty sequence).
pub open spec fn spec_effective(o: Option<Seq<u8>>) -> Seq<u8> {
    match o {
        Some(s) => if s.len() > 0 {
            s
        } else {
            seq![0u8]
        },
        None => seq![0u8],
    }
}

/// Every action byte indexes into the creature's skill list.
pub open spec fn actions_valid(acts: Seq<u8>, skills: Seq<Skill>) -> bool {
    forall|i: int| 0 <= i < acts.len() ==> (#[trigger] acts[i]) < skills.len()
}

/// One resolution round: side A applies its cyclically-read action, then
/// side B applies its own against the intermediate stats.
pub open spec fn spec_round(
    skills_a: Seq<Skill>,
    skills_b: Seq<Skill>,
    acts_a: Seq<u8>,
    acts_b: Seq<u8>,
    cons_a: ConsView,
    cons_b: ConsView,
    i: int,
) -> (ConsView, ConsView)
    recommends
        acts_a.len() > 0,
        acts_b.len() > 0,
{
    let (ca1, cb1) = spec_apply_skill(skills_a, cons_a, cons_b, acts_a[i % (acts_a.len() as int)]);
    let (cb2, ca2) = spec_apply_skill(skills_b, cb1, ca1, acts_b[i % (acts_b.len() as int)]);
    (ca2, cb2)
}

/// The stats of both sides after the first `n` resolution rounds.
pub open spec fn spec_run_rounds(
    skills_a: Seq<Skill>,
    skills_b: Seq<Skill>,
    acts_a: Seq<u8>,
    acts_b: Seq<u8>,
    cons_a: ConsView,
    cons_b: ConsView,
    n: nat,
) -> (ConsView, ConsView)
    decreases n,
{
    if n == 0 {
        (cons_a, cons_b)
    } else {
        let (ca, cb) = spec_run_rounds(
            skills_a,
            skills_b,
            acts_a,
            acts_b,
            cons_a,
            cons_b,
            (n - 1) as nat,
        );
        spec_round(skills_a, skills_b, acts_a, acts_b, ca, cb, n - 1)
    }
}

/// The termination policy: resolution runs exactly as many rounds as the
/// longer effective action sequence.
pub open spec fn spec_rounds(acts_a: Seq<u8>, acts_b: Seq<u8>) -> nat {
    if acts_a.len() >= acts_b.len() {
        acts_a.len()
    } else {
        acts_b.len()
    }
}

/// The full resolution function: both sides' resulting stats, as a pure
/// function of skills, revealed actions, and starting stats alone.
pub open spec fn spec_run(
    skills_a: Seq<Skill>,
    skills_b: Seq<Skill>,
    actions_a: Option<Seq<u8>>,
    actions_b: Option<Seq<u8>>,
    cons_a: ConsView,
    cons_b: ConsView,
) -> (ConsView, ConsView) {
    let ea = spec_effective(actions_a);
    let eb = spec_effective(actions_b);
    spec_run_rounds(skills_a, skills_b, ea, eb, cons_a, cons_b, spec_rounds(ea, eb))
}

/// The effective action sequence as an owned vector.
fn effective_actions(o: &Option<Vec<u8>>) -> (r: Vec<u8>)
    ensures
        r@ == spec_effective(opt_bytes_view(*o)),
        r@.len() >= 1,
{
    match o {
        Some(v) => {
            if v.len() > 0 {
                let mut c: Vec<u8> = Vec::new();
                let mut i: usize = 0;
                while i < v.len()
                    invariant
                        i <= v@.len(),
                        c@ == v@.subrange(0, i as int),
                    decreases v@.len() - i,
                {
                    c.push(v[i]);
                    i = i + 1;
                }
                proof {
                    assert(c@ =~= v@);
                }
                c
            } else {
                let mut c: Vec<u8> = Vec::new();
                c.push(0);
                proof {
                    assert(c@ =~= seq![0u8]);
                }
                c
            }
        },
        None => {
            let mut c: Vec<u8> = Vec::new();
            c.push(0);
            proof {
                assert(c@ =~= seq![0u8]);
            }
            c
        },
    }
}

/// Whether every byte of `acts` is below `len`.
fn all_in_range(acts: &Vec<u8>, len: usize) -> (r: bool)
    ensures
        r == (forall|i: int| 0 <= i < acts@.len() ==> (#[trigger] acts@[i]) < len),
{
    let mut i: usize = 0;
    while i < acts.len()
        invariant
            i <= acts@.len(),
            forall|j: int| 0 <= j < i ==> (#[trigger] acts@[j]) < len,
        decreases acts@.len() - i,
    {
        if (acts[i] as usize) >= len {
            return false;
        }
        i = i + 1;
    }
    true
}

/// Whether a side's effective action sequence (what it revealed, or the
/// neutral default) indexes only into `skills`.
pub fn effective_in_range(o: Option<&Vec<u8>>, skills: &Vec<Skill>) -> (r: bool)
    ensures
        r == actions_valid(
            spec_effective(
                match o {
                    Some(v) => Some(v@),
                    None => None,
                },
            ),
            skills@,
        ),
{
    proof {
        assert(seq![0u8][0] == 0u8);
    }
    match o {
        Some(v) => {
            if v.len() > 0 {
                let r = all_in_range(v, skills.len());
                proof {
                    assert(spec_effective(Some(v@)) == v@);
                    if r {
                        assert forall|i: int| 0 <= i < v@.len() implies (#[trigger] v@[i])
                            < skills@.len() by {
                            assert(v@[i] < skills.len());
                        }
                    } else {
                        let i = choose|i: int|
                            0 <= i < v@.len() && !((#[trigger] v@[i]) < skills.len());
                        assert(!(v@[i] < skills@.len()));
                    }
                }
                r
            } else {
                proof {
                    assert(spec_effective(Some(v@)) =~= seq![0u8]);
                }
                skills.len() > 0
            }
        },
        None => skills.len() > 0,
    }
}

impl Battle {
    /// Resolve the battle: run [`spec_run`] rounds of cyclic skill
    /// application over both sides' effective action sequences and return
    /// the two resulting stat snapshots. Fails `NotFound` when either
    /// side's effective actions name a skill index outside that creature's
    /// skill list; nothing is mutated either way.
    pub fn run(&self, dragon_a: &Dragon, dragon_b: &Dragon) -> (r: Result<
        (Constitution, Constitution),
        Error,
    >)
        requires
            skills_wf(dragon_a.skills@),
            skills_wf(dragon_b.skills@),
        ensures
            r is Ok <==> (actions_valid(spec_effective(self@.actions_a), dragon_a.skills@)
                && actions_valid(spec_effective(self@.actions_b), dragon_b.skills@)),
            r matches Ok(p) ==> ({
                let (ca, cb) = spec_run(
                    dragon_a.skills@,
                    dragon_b.skills@,
                    self@.actions_a,
                    self@.actions_b,
                    dragon_a.constitution@,
                    dragon_b.constitution@,
                );
                p.0@ == ca && p.1@ == cb
            }),
            r is Err ==> r == Err::<(Constitution, Constitution), Error>(Error::NotFound),
    {
        let acts_a = effective_actions(&self.actions_a);
        let acts_b = effective_actions(&self.actions_b);
        if !all_in_range(&acts_a, dragon_a.skills.len()) {
            return Err(Error::NotFound);
        }
        if !all_in_range(&acts_b, dragon_b.skills.len()) {
            return Err(Error::NotFound);
        }
        let la = acts_a.len();
        let lb = acts_b.len();
        let rounds = if la >= lb {
            la
        } else {
            lb
        };
        let mut cons_a = dragon_a.constitution;
        let mut cons_b = dragon_b.constitution;
        let ghost ca0 = dragon_a.constitution@;
        let ghost cb0 = dragon_b.constitution@;
        let mut i: usize = 0;
        while i < rounds
            invariant
                i <= rounds,
                la == acts_a@.len(),
                lb == acts_b@.len(),
                la >= 1,
                lb >= 1,
                rounds == spec_rounds(acts_a@, acts_b@),
                actions_valid(acts_a@, dragon_a.skills@),
                actions_valid(acts_b@, dragon_b.skills@),
                skills_wf(dragon_a.skills@),
                skills_wf(dragon_b.skills@),
                ({
                    let (ca, cb) = spec_run_rounds(
                        dragon_a.skills@,
                        dragon_b.skills@,
                        acts_a@,
                        acts_b@,
                        ca0,
                        cb0,
                        i as nat,
                    );
                    cons_a@ == ca && cons_b@ == cb
                }),
            decreases rounds - i,
        {
            let ia = i % la;
            let ib = i % lb;
            match dragon_a.apply_skill(&mut cons_a, &mut cons_b, acts_a[ia]) {
                Ok(()) => {},
                Err(e) => {
                    proof {
                        assert(false);
                    }
                    return Err(Error::NotFound);
                },
            }
            match dragon_b.apply_skill(&mut cons_b, &mut cons_a, acts_b[ib]) {
                Ok(()) => {},
                Err(e) => {
                    proof {
                        assert(false);
                    }
                    return Err(Error::NotFound);
                },
            }
            i = i + 1;
        }
        Ok((cons_a, cons_b))
    }
}

/// Resolution is deterministic: two results that both satisfy the
/// resolver's contract on the same skills, revealed actions, and starting
/// stats are identical.
pub proof fn lemma_run_deterministic(
    skills_a: Seq<Skill>,
    skills_b: Seq<Skill>,
    actions_a: Option<Seq<u8>>,
    actions_b: Option<Seq<u8>>,
    cons_a: ConsView,
    cons_b: ConsView,
    r1: (ConsView, ConsView),
    r2: (ConsView, ConsView),
)
    requires
        r1 == spec_run(skills_a, skills_b, actions_a, actions_b, cons_a, cons_b),
        r2 == spec_run(skills_a, skills_b, actions_a, actions_b, cons_a, cons_b),
    ensures
        r1 == r2,
{
}

/// A commitment is never validated against the reveal: after any
/// participant commits any hash, any participant's reveal of any
/// (unrelated) action sequence is still admitted and stores exactly those
/// actions, the same as if the commitment had never happened.
pub proof fn lemma_reveal_ignores_commit(
    b: BattleView,
    committer: u64,
    h: Seq<u8>,
    revealer: u64,
    acts: Seq<u8>,
)
    requires
        spec_participant(b, committer),
        spec_participant(b, revealer),
    ensures
        spec_participant(spec_set_hash(b, committer, h), revealer),
        spec_set_actions(spec_set_hash(b, committer, h), revealer, acts).actions_a
            == spec_set_actions(b, revealer, acts).actions_a,
        spec_set_actions(spec_set_hash(b, committer, h), revealer, acts).actions_b
            == spec_set_actions(b, revealer, acts).actions_b,
{
}

} // verus!
