//! When generations were activated.

use vstd::prelude::*;

verus! {

/// The instant that a timestamp stands for, in nanoseconds since the Unix epoch; nothing
/// where the text is none.
pub uninterp spec fn instant(text: Seq<char>) -> Option<i128>;

/// `str::parse` of a `jiff::Timestamp`, in the nanoseconds that
/// `jiff::Timestamp::as_nanosecond` gives: nothing where the text is no timestamp. Which
/// instant a text stands for is named and not described.
#[verifier::external_body]
fn parse_instant(text: &str) -> (r: Option<i128>)
    ensures
        r == instant(text@),
{
    text.parse::<jiff::Timestamp>().ok().map(|time| time.as_nanosecond())
}

/// When something was activated last.
#[derive(Debug, Clone, Copy, PartialEq, Eq, Structural)]
pub enum LastActivation {
    Never,
    /// It was activated, but the recorded time is no timestamp.
    Unknown,
    At { instant: i128 },
}

impl LastActivation {
    /// Whether this is before another activation. An unknown time is before any instant.
    pub open spec fn is_before(self, other: LastActivation) -> bool {
        match (self, other) {
            (LastActivation::Unknown, LastActivation::At { .. }) => true,
            (LastActivation::At { instant: a }, LastActivation::At { instant: b }) => a < b,
            _ => false,
        }
    }

    fn precedes(self, other: LastActivation) -> (r: bool)
        ensures
            r == self.is_before(other),
    {
        match (self, other) {
            (LastActivation::Unknown, LastActivation::At { .. }) => true,
            (LastActivation::At { instant: a }, LastActivation::At { instant: b }) => a < b,
            _ => false,
        }
    }

    /// The activation that a record tells of.
    pub open spec fn recorded(time: Option<String>) -> LastActivation {
        match time {
            None => LastActivation::Never,
            Some(text) => match instant(text@) {
                Some(instant) => LastActivation::At { instant },
                None => LastActivation::Unknown,
            },
        }
    }

    /// Reads a recorded time.
    pub fn read(time: &Option<String>) -> (r: LastActivation)
        ensures
            r == LastActivation::recorded(*time),
    {
        match time {
            None => LastActivation::Never,
            Some(text) => match parse_instant(text.as_str()) {
                Some(instant) => LastActivation::At { instant },
                None => LastActivation::Unknown,
            },
        }
    }
}

/// Whether the activation at position `i` is the latest: none is after it, and it is the
/// last among those at the same time.
pub open spec fn is_latest(activations: Seq<LastActivation>, i: int) -> bool {
    &&& 0 <= i < activations.len()
    &&& !(activations[i] is Never)
    &&& forall|j: int|
        0 <= j < activations.len() && !(#[trigger] activations[j] is Never) ==> if j <= i {
            !activations[i].is_before(activations[j])
        } else {
            activations[j].is_before(activations[i])
        }
}

/// Finds the latest activation.
pub fn latest_activation(activations: &Vec<LastActivation>) -> (r: Option<usize>)
    ensures
        match r {
            Some(i) => is_latest(activations@, i as int),
            None => forall|i: int|
                0 <= i < activations@.len() ==> #[trigger] activations@[i] is Never,
        },
{
    let mut best: Option<usize> = None;
    let mut i: usize = 0;
    while i < activations.len()
        invariant
            i <= activations@.len(),
            match best {
                Some(b) => b < i && is_latest(activations@.take(i as int), b as int),
                None => forall|k: int| 0 <= k < i ==> #[trigger] activations@[k] is Never,
            },
        decreases activations@.len() - i,
    {
        let ghost seen = activations@.take(i as int);
        let ghost more = activations@.take(i + 1);
        assert(forall|k: int| 0 <= k < i ==> more[k] == seen[k]);
        let found = activations[i];
        if found != LastActivation::Never {
            match best {
                Some(b) => {
                    assert(seen[b as int] == activations@[b as int]);
                    if !found.precedes(activations[b]) {
                        best = Some(i);
                    }
                },
                None => {
                    best = Some(i);
                },
            }
        }
        i = i + 1;
    }
    assert(activations@.take(i as int) =~= activations@);
    best
}

/// Nothing was activated after the latest activation. Where its time is known, no known time
/// is later; where it is not, no time is known at all. Among equal times it is the last one.
pub proof fn law_latest_activation_is_not_followed(
    activations: Seq<LastActivation>,
    i: int,
    j: int,
)
    requires
        is_latest(activations, i),
        0 <= j < activations.len(),
    ensures
        !(activations[i] is Never),
        activations[j] matches LastActivation::At { instant: b } ==> (activations[i] matches
            LastActivation::At { instant: a } && b <= a && (a == b ==> j <= i)),
        activations[i] is Unknown && activations[j] is Unknown ==> j <= i,
{
}

} // verus!
