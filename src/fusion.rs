//! The decisions of one fusion cycle that need no geometry: whether any
//! person asks for an action, which device a line of sight selects, and
//! which (device, gesture) intents come out.
use vstd::prelude::*;

use crate::error::GError;

verus! {

/// The gesture that a person shows.
#[derive(Debug, Clone, Copy, PartialEq, Eq, Hash, Structural)]
pub enum Gesture {
    Toggle,
    Idle,
}

impl Gesture {
    pub fn is_toggle(&self) -> (r: bool)
        ensures
            r == (*self == Gesture::Toggle),
    {
        match self {
            Gesture::Toggle => true,
            Gesture::Idle => false,
        }
    }

    pub fn is_idle(&self) -> (r: bool)
        ensures
            r == (*self == Gesture::Idle),
    {
        match self {
            Gesture::Toggle => false,
            Gesture::Idle => true,
        }
    }
}

impl Default for Gesture {
    fn default() -> (r: Gesture)
        ensures
            r == Gesture::Idle,
    {
        Gesture::Idle
    }
}

/// Whether a gesture asks for an action.
pub open spec fn is_active(g: Gesture) -> bool {
    g != Gesture::Idle
}

/// Whether any gesture in `g` asks for an action.
pub open spec fn any_active_spec(g: Seq<Gesture>) -> bool {
    exists|i: int| 0 <= i < g.len() && is_active(#[trigger] g[i])
}

/// Whether some person in `g` asks for an action: where none does, the
/// cycle ends without one.
pub fn any_active(gestures: &[Gesture]) -> (r: bool)
    ensures
        r == any_active_spec(gestures@),
{
    let mut i: usize = 0;
    while i < gestures.len()
        invariant
            i <= gestures@.len(),
            forall|j: int| 0 <= j < i ==> !is_active(#[trigger] gestures@[j]),
        decreases gestures@.len() - i,
    {
        if !gestures[i].is_idle() {
            assert(is_active(gestures@[i as int]));
            return true;
        }
        i = i + 1;
    }
    false
}

/// Positions, in order, of the persons whose gesture asks for an action.
pub open spec fn active_upto(g: Seq<Gesture>, n: int) -> Seq<usize>
    decreases n,
{
    if n <= 0 {
        Seq::empty()
    } else if is_active(g[n - 1]) {
        active_upto(g, n - 1).push((n - 1) as usize)
    } else {
        active_upto(g, n - 1)
    }
}

/// The persons whose position must be triangulated.
pub fn active_people(gestures: &[Gesture]) -> (r: Vec<usize>)
    ensures
        r@ == active_upto(gestures@, gestures@.len() as int),
{
    let mut out: Vec<usize> = Vec::new();
    let mut i: usize = 0;
    while i < gestures.len()
        invariant
            i <= gestures@.len(),
            out@ == active_upto(gestures@, i as int),
        decreases gestures@.len() - i,
    {
        if !gestures[i].is_idle() {
            out.push(i);
        }
        i = i + 1;
    }
    out
}

/// The two detectors' result lists correspond person by person only where
/// they are equally long.
pub fn check_counts(gesture_count: usize, head_count: usize) -> (r: Result<(), GError>)
    ensures
        gesture_count == head_count ==> r == Ok::<(), GError>(()),
        gesture_count != head_count ==> r == Err::<(), GError>(GError::CountMismatch),
{
    if gesture_count == head_count {
        Ok(())
    } else {
        Err(GError::CountMismatch)
    }
}

/// What the line of sight says of one device: whether its centroid lies in
/// the forward half-space of the line, and its distance from the line as a
/// key that orders as the distances do.
#[derive(Debug, Clone, Copy, PartialEq, Eq, Structural)]
pub struct SightCandidate {
    pub ahead: bool,
    pub distance_key: u64,
}

/// Device `i` is the one selected: it is ahead, no device ahead is nearer,
/// and every device ahead before it is farther.
pub open spec fn is_nearest_in_sight(c: Seq<SightCandidate>, i: int) -> bool {
    &&& 0 <= i < c.len()
    &&& c[i].ahead
    &&& forall|j: int| 0 <= j < c.len() && (#[trigger] c[j]).ahead ==> c[i].distance_key <= c[j].distance_key
    &&& forall|j: int| 0 <= j < i && (#[trigger] c[j]).ahead ==> c[i].distance_key < c[j].distance_key
}

/// Whether some device lies ahead of the line.
pub open spec fn any_ahead(c: Seq<SightCandidate>) -> bool {
    exists|j: int| 0 <= j < c.len() && (#[trigger] c[j]).ahead
}

/// The device nearest to the line of sight among those ahead of it, the
/// first one on a tie; `None` where every device is behind.
pub fn nearest_in_sight(candidates: &[SightCandidate]) -> (r: Option<usize>)
    ensures
        r is None <==> !any_ahead(candidates@),
        r matches Some(i) ==> is_nearest_in_sight(candidates@, i as int),
{
    let mut best: Option<usize> = None;
    let mut i: usize = 0;
    while i < candidates.len()
        invariant
            i <= candidates@.len(),
            best is None ==> forall|j: int| 0 <= j < i ==> !(#[trigger] candidates@[j]).ahead,
            best matches Some(b) ==> b < i && is_nearest_in_sight(
                candidates@.subrange(0, i as int),
                b as int,
            ),
        decreases candidates@.len() - i,
    {
        let c = candidates[i];
        let ghost old_best = best;
        if c.ahead {
            match best {
                None => {
                    best = Some(i);
                },
                Some(b) => {
                    if c.distance_key < candidates[b].distance_key {
                        best = Some(i);
                    }
                },
            }
        }
        proof {
            let s = candidates@.subrange(0, i + 1);
            let s0 = candidates@.subrange(0, i as int);
            assert forall|j: int| 0 <= j < i implies s[j] == s0[j] by {}
            assert(s[i as int] == c);
            if let Some(b) = best {
                if b == i {
                    if let Some(ob) = old_best {
                        assert forall|j: int| 0 <= j < s.len() && (#[trigger] s[j]).ahead implies s[b as int].distance_key <= s[j].distance_key by {
                            if j < i {
                                assert(s0[j] == s[j]);
                                assert(s0[ob as int].distance_key <= s0[j].distance_key);
                            }
                        }
                        assert forall|j: int| 0 <= j < b && (#[trigger] s[j]).ahead implies s[b as int].distance_key < s[j].distance_key by {
                            assert(s0[j] == s[j]);
                            assert(s0[ob as int].distance_key <= s0[j].distance_key);
                        }
                    } else {
                        assert forall|j: int| 0 <= j < s.len() && (#[trigger] s[j]).ahead implies s[b as int].distance_key <= s[j].distance_key by {
                            if j < i {
                                assert(s0[j] == s[j]);
                            }
                        }
                    }
                } else {
                    assert(s0[b as int] == s[b as int]);
                    assert forall|j: int| 0 <= j < s.len() && (#[trigger] s[j]).ahead implies s[b as int].distance_key <= s[j].distance_key by {
                        if j < i {
                            assert(s0[j] == s[j]);
                        }
                    }
                    assert forall|j: int| 0 <= j < b && (#[trigger] s[j]).ahead implies s[b as int].distance_key < s[j].distance_key by {
                        assert(s0[j] == s[j]);
                    }
                }
            }
        }
        i = i + 1;
    }
    proof {
        assert(candidates@.subrange(0, candidates@.len() as int) =~= candidates@);
        if best is None {
            assert(!any_ahead(candidates@));
        } else {
            let b = best->Some_0;
            assert(candidates@[b as int].ahead);
        }
    }
    best
}

/// The intents of the first `n` persons: a person gives one where the
/// gesture asks for an action and a device was selected for them.
pub open spec fn intents_upto(
    targets: Seq<Option<usize>>,
    gestures: Seq<Gesture>,
    n: int,
) -> Seq<(usize, Gesture)>
    decreases n,
{
    if n <= 0 {
        Seq::empty()
    } else {
        let prev = intents_upto(targets, gestures, n - 1);
        match targets[n - 1] {
            Some(d) => if is_active(gestures[n - 1]) {
                prev.push((d, gestures[n - 1]))
            } else {
                prev
            },
            None => prev,
        }
    }
}

/// The smaller of two lengths: persons are paired by position.
pub open spec fn paired_len(a: int, b: int) -> int {
    if a < b {
        a
    } else {
        b
    }
}

/// The (device, gesture) intents of a cycle. Person `i` has gesture
/// `gestures[i]` and, where the geometry succeeded, the selected device
/// `targets[i]`; persons are paired by position.
pub fn collect_intents(targets: &[Option<usize>], gestures: &[Gesture]) -> (r: Vec<(usize, Gesture)>)
    ensures
        r@ == intents_upto(
            targets@,
            gestures@,
            paired_len(targets@.len() as int, gestures@.len() as int),
        ),
{
    let n = if targets.len() < gestures.len() {
        targets.len()
    } else {
        gestures.len()
    };
    let mut out: Vec<(usize, Gesture)> = Vec::new();
    let mut i: usize = 0;
    while i < n
        invariant
            n == paired_len(targets@.len() as int, gestures@.len() as int),
            i <= n,
            out@ == intents_upto(targets@, gestures@, i as int),
        decreases n - i,
    {
        match targets[i] {
            Some(d) => {
                if !gestures[i].is_idle() {
                    out.push((d, gestures[i]));
                }
            },
            None => {},
        }
        i = i + 1;
    }
    out
}

/// Where no person asks for an action, nobody is triangulated and no intent
/// comes out of the cycle, whatever devices were selected.
pub proof fn lemma_no_gesture_no_intents(targets: Seq<Option<usize>>, gestures: Seq<Gesture>)
    requires
        forall|i: int| 0 <= i < gestures.len() ==> #[trigger] gestures[i] == Gesture::Idle,
    ensures
        !any_active_spec(gestures),
        active_upto(gestures, gestures.len() as int) == Seq::<usize>::empty(),
        intents_upto(targets, gestures, paired_len(targets.len() as int, gestures.len() as int))
            == Seq::<(usize, Gesture)>::empty(),
{
    lemma_inactive_prefix(targets, gestures, gestures.len() as int);
    lemma_inactive_prefix(
        targets,
        gestures,
        paired_len(targets.len() as int, gestures.len() as int),
    );
}

proof fn lemma_inactive_prefix(targets: Seq<Option<usize>>, gestures: Seq<Gesture>, n: int)
    requires
        n <= gestures.len(),
        forall|i: int| 0 <= i < gestures.len() ==> #[trigger] gestures[i] == Gesture::Idle,
    ensures
        active_upto(gestures, n) == Seq::<usize>::empty(),
        intents_upto(targets, gestures, n) == Seq::<(usize, Gesture)>::empty(),
    decreases n,
{
    if n > 0 {
        lemma_inactive_prefix(targets, gestures, n - 1);
        assert(gestures[n - 1] == Gesture::Idle);
    }
}

} // verus!
