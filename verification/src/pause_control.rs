//! The pause gate: a switch without payload, kept as a marker file whose
//! presence means "paused".
//!
//! The switch decides which steps on the file system a request needs; whoever
//! drives it carries them out and reports what a probe of the marker saw.

use vstd::prelude::*;
use vstd::string::*;

verus! {

/// One step on the file system.
#[derive(Debug, Clone, Copy, PartialEq, Eq, Structural)]
pub enum MarkerStep {
    /// Create the directory that holds the marker, with its ancestors.
    CreateParent,
    /// Create the marker, empty; an existing marker is kept.
    CreateMarker,
    /// Remove the marker.
    RemoveMarker,
}

/// Whether the marker is present after `step`, if it was `present` before.
pub open spec fn after_step(present: bool, step: MarkerStep) -> bool {
    match step {
        MarkerStep::CreateParent => present,
        MarkerStep::CreateMarker => true,
        MarkerStep::RemoveMarker => false,
    }
}

/// Whether the marker is present after `steps`, carried out in order, if
/// it was `present` before.
pub open spec fn after_steps(present: bool, steps: Seq<MarkerStep>) -> bool
    decreases steps.len(),
{
    if steps.len() == 0 {
        present
    } else {
        after_steps(after_step(present, steps[0]), steps.drop_first())
    }
}

/// The steps that pause: the parent directory is made where it is missing,
/// then the marker.
pub open spec fn pause_steps(parent_exists: bool) -> Seq<MarkerStep> {
    if parent_exists {
        seq![MarkerStep::CreateMarker]
    } else {
        seq![MarkerStep::CreateParent, MarkerStep::CreateMarker]
    }
}

/// The steps that resume: the marker is removed where there is one.
pub open spec fn resume_steps(marker_exists: bool) -> Seq<MarkerStep> {
    if marker_exists {
        seq![MarkerStep::RemoveMarker]
    } else {
        Seq::empty()
    }
}

/// What a probe of the marker means: paused only if the probe succeeded and
/// found the marker. A probe that could not be made counts as "not paused".
pub open spec fn probe_means_paused(probe: Result<bool, String>) -> bool {
    probe == Ok::<bool, String>(true)
}

/// The pause gate of one marker file.
#[derive(Debug)]
pub struct PauseControl {
    pause_file: String,
}

impl PauseControl {
    /// The path of the marker.
    pub closed spec fn marker(&self) -> Seq<char> {
        self.pause_file@
    }

    /// The pause switch of the marker at `pause_file`.
    pub fn new(pause_file: String) -> (gate: PauseControl)
        ensures
            gate.marker() == pause_file@,
    {
        PauseControl { pause_file }
    }

    /// The path of the marker.
    pub fn pause_file(&self) -> (path: &str)
        ensures
            path@ == self.marker(),
    {
        self.pause_file.as_str()
    }

    /// The steps that pause the tracker, given whether the marker's parent
    /// directory exists.
    pub fn pause(&self, parent_exists: bool) -> (steps: Vec<MarkerStep>)
        ensures
            steps@ == pause_steps(parent_exists),
    {
        let mut steps: Vec<MarkerStep> = Vec::new();
        if !parent_exists {
            steps.push(MarkerStep::CreateParent);
        }
        steps.push(MarkerStep::CreateMarker);
        assert(steps@ =~= pause_steps(parent_exists));
        steps
    }

    /// The steps that resume the tracker, given whether the marker exists.
    pub fn resume(&self, marker_exists: bool) -> (steps: Vec<MarkerStep>)
        ensures
            steps@ == resume_steps(marker_exists),
    {
        let mut steps: Vec<MarkerStep> = Vec::new();
        if marker_exists {
            steps.push(MarkerStep::RemoveMarker);
        }
        assert(steps@ =~= resume_steps(marker_exists));
        steps
    }

    /// Whether the tracker is paused, given the outcome of a probe for the
    /// marker.
    pub fn is_paused(&self, probe: &Result<bool, String>) -> (paused: bool)
        ensures
            paused == probe_means_paused(*probe),
    {
        match probe {
            Ok(present) => *present,
            Err(_) => false,
        }
    }
}

/// Pausing leaves the marker present, whatever was there before.
pub proof fn lemma_pause_sets_marker(present: bool, parent_exists: bool)
    ensures
        after_steps(present, pause_steps(parent_exists)),
{
    reveal_with_fuel(after_steps, 3);
    let steps = pause_steps(parent_exists);
    assert(steps.drop_first().len() == steps.len() - 1);
    if !parent_exists {
        assert(steps.drop_first() =~= seq![MarkerStep::CreateMarker]);
    }
}

/// Resuming leaves the marker absent, if the probe that the steps were
/// chosen by saw the marker as it was.
pub proof fn lemma_resume_clears_marker(present: bool)
    ensures
        !after_steps(present, resume_steps(present)),
{
    reveal_with_fuel(after_steps, 2);
}

/// Pause, then resume: paused in between, running at the end. And a second
/// pause or a second resume in a row changes nothing; the second resume
/// takes no step at all, so nothing can fail in it.
pub proof fn lemma_pause_resume_round_trip(present: bool, parent_exists: bool)
    ensures
        ({
            let paused = after_steps(present, pause_steps(parent_exists));
            let paused_again = after_steps(paused, pause_steps(true));
            let resumed = after_steps(paused_again, resume_steps(paused_again));
            let resumed_again = after_steps(resumed, resume_steps(resumed));
            &&& probe_means_paused(Ok(paused))
            &&& paused_again == paused
            &&& !probe_means_paused(Ok(resumed))
            &&& resume_steps(resumed) == Seq::<MarkerStep>::empty()
            &&& resumed_again == resumed
        }),
{
    lemma_pause_sets_marker(present, parent_exists);
    lemma_pause_sets_marker(true, true);
    lemma_resume_clears_marker(true);
    lemma_resume_clears_marker(false);
}

} // verus!
