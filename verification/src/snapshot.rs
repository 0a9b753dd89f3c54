//! Snapshots: when the terminal counts as settled, and the tree taken of it.

use vstd::prelude::*;
use core::time::Duration;
use crate::assembler::{elements_of, TSTAssembler};
use crate::detection::{is_run, DetectedElement, DetectionPipeline};
use crate::element::{Element, TerminalStateTree};
use crate::geometry::{Bounds, Dimensions};
use crate::grid::Grid;
use crate::time::{is_millis, millis, millis_of, span_of_millis, span_of_secs};

verus! {

/// How a snapshot waits for the terminal to settle.
#[derive(Debug, Clone)]
pub struct SnapshotConfig {
    /// How long to wait for the terminal to fall idle, at most.
    pub idle_timeout: Duration,
    /// How long no output must have come for the terminal to count as idle.
    pub idle_threshold: Duration,
    /// How many bytes to read at a time; advisory.
    pub max_bytes_per_iteration: usize,
}

impl Default for SnapshotConfig {
    /// Wait at most five seconds for a hundred milliseconds of quiet, reading 4096 bytes
    /// at a time.
    fn default() -> (c: Self)
        ensures
            is_millis(c.idle_timeout, 5000),
            is_millis(c.idle_threshold, 100),
            c.max_bytes_per_iteration == 4096,
    {
        SnapshotConfig {
            idle_timeout: span_of_secs(5),
            idle_threshold: span_of_millis(100),
            max_bytes_per_iteration: 4096,
        }
    }
}

impl SnapshotConfig {
    /// The configuration for an idle threshold of `idle_ms` milliseconds: the wait for
    /// idleness lasts at most twice the threshold and a second, or as long as can be
    /// said where that is too long to say.
    pub fn for_idle_threshold(idle_ms: u64) -> (c: Self)
        ensures
            is_millis(c.idle_threshold, idle_ms as nat),
            is_millis(
                c.idle_timeout,
                if idle_ms * 2 + 1000 <= u64::MAX {
                    (idle_ms * 2 + 1000) as nat
                } else {
                    u64::MAX as nat
                },
            ),
            c.max_bytes_per_iteration == 4096,
    {
        let timeout: u64 = if idle_ms <= (u64::MAX - 1000) / 2 {
            idle_ms * 2 + 1000
        } else {
            u64::MAX
        };
        SnapshotConfig {
            idle_timeout: span_of_millis(timeout),
            idle_threshold: span_of_millis(idle_ms),
            max_bytes_per_iteration: 4096,
        }
    }

    /// The longest wait for idleness in milliseconds.
    pub fn idle_timeout_ms(&self) -> (ms: u128)
        ensures
            ms == millis(self.idle_timeout),
    {
        millis_of(&self.idle_timeout)
    }

    /// The idle threshold in milliseconds.
    pub fn idle_threshold_ms(&self) -> (ms: u128)
        ensures
            ms == millis(self.idle_threshold),
    {
        millis_of(&self.idle_threshold)
    }
}

/// Whether the wait for idleness before a snapshot is over before the next read,
/// `elapsed_ms` milliseconds into it: it is once more than `timeout_ms` have passed.
pub fn idle_wait_expired(elapsed_ms: u128, timeout_ms: u128) -> (b: bool)
    ensures
        b == (elapsed_ms > timeout_ms),
{
    elapsed_ms > timeout_ms
}

/// Whether the wait for idleness is over after a read of `bytes_read` bytes, `quiet_ms`
/// milliseconds after the last output: it is where nothing came and the quiet has lasted
/// as long as the threshold asks.
pub fn settled(bytes_read: usize, quiet_ms: u128, threshold_ms: u128) -> (b: bool)
    ensures
        b == (bytes_read == 0 && quiet_ms >= threshold_ms),
{
    bytes_read == 0 && quiet_ms >= threshold_ms
}

/// Whether `elements` are what a run of `count` detectors finds on a grid of size `dims`:
/// the elements of the detectors' batches, one batch after the other, under fresh
/// references.
pub open spec fn found_by_run(elements: Seq<Element>, count: nat, dims: Dimensions) -> bool {
    exists|found: Seq<DetectedElement>, batches: Seq<Seq<DetectedElement>>|
        batches.len() == count && #[trigger] is_run(found, batches, dims) && elements
            == elements_of(found)
}

/// The tree of the grid as it stands: the detectors of `pipeline` run on it with the
/// grid's cursor, and the tree holds what they found, the size of the grid, the cursor
/// and the text of the whole screen.
///
/// The elements of the tree lie on the grid, and no two have the same reference.
pub fn take_snapshot(grid: &Grid, pipeline: &DetectionPipeline, session_id: String) -> (tree:
    TerminalStateTree)
    requires
        grid.wf(),
    ensures
        tree.session_id == session_id,
        tree.dimensions == grid@.dimensions,
        tree.cursor == grid@.cursor.position,
        tree.raw_text@ == grid@.region_text(
            Bounds { row: 0, col: 0, width: grid@.dimensions.cols, height: grid@.dimensions.rows },
            grid@.dimensions.rows as int,
        ),
        tree.ansi_buffer is None,
        found_by_run(tree.elements@, pipeline.priorities().len(), grid@.dimensions),
        pipeline.priorities().len() == 0 ==> tree.elements@.len() == 0,
        forall|i: int|
            0 <= i < tree.elements@.len() ==> (#[trigger] tree.elements@[i]).region().fits(
                grid@.dimensions,
            ),
        forall|i: int, j: int|
            0 <= i < j < tree.elements@.len() ==> (#[trigger] tree.elements@[i]).id() != (
            #[trigger] tree.elements@[j]).id(),
{
    let cursor = grid.cursor().position;
    let dimensions = grid.dimensions();
    let raw_text = grid.to_plain_text();
    let detected = pipeline.detect(grid, cursor);
    let ghost found = detected@;
    let tree = TSTAssembler::new().assemble(detected, session_id, dimensions, cursor, raw_text);
    proof {
        let batches = choose|batches: Seq<Seq<DetectedElement>>|
            batches.len() == pipeline.priorities().len() && #[trigger] is_run(
                found,
                batches,
                grid@.dimensions,
            );
        assert(is_run(found, batches, grid@.dimensions));
        assert forall|i: int| 0 <= i < tree.elements@.len() implies (
        #[trigger] tree.elements@[i]).region().fits(grid@.dimensions) by {
            assert(tree.elements@[i] == found[i].element);
            assert(found[i].bounds.fits(grid@.dimensions));
        }
        assert forall|i: int, j: int| 0 <= i < j < tree.elements@.len() implies (
        #[trigger] tree.elements@[i]).id() != (#[trigger] tree.elements@[j]).id() by {
            assert(tree.elements@[i] == found[i].element);
            assert(tree.elements@[j] == found[j].element);
        }
    }
    tree
}

} // verus!
