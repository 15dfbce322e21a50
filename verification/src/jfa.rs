//! Ping-pong buffer selection of the wide outline's jump-flood passes.
//!
//! The initialization pass writes the init buffer; step `i` renders into
//! one of two step buffers and reads the buffer the previous step wrote
//! (the init buffer for step 0); the outline pass reads the buffer the last
//! step wrote. All three choices come from [`jfa_step_targets_fb0`].

use vstd::prelude::*;

verus! {

/// A render target of the jump-flood passes.
#[derive(Clone, Copy, PartialEq, Eq, Structural, Debug)]
pub enum JfaBuffer {
    /// Written by the initialization pass.
    Init,
    /// The first ping-pong buffer.
    Step0,
    /// The second ping-pong buffer.
    Step1,
}

/// Whether step `i` renders into the first ping-pong buffer.
pub fn jfa_step_targets_fb0(i: u32) -> (r: bool)
    ensures
        r == (i % 2 == 0),
{
    i % 2 == 0
}

/// The buffer step `i` renders into.
pub open spec fn step_target(i: u32) -> JfaBuffer {
    if i % 2 == 0 { JfaBuffer::Step0 } else { JfaBuffer::Step1 }
}

/// The buffer step `i` reads: the init buffer for the first step, else what
/// the step before wrote.
pub open spec fn step_source(i: u32) -> JfaBuffer {
    if i == 0 { JfaBuffer::Init } else { step_target((i - 1) as u32) }
}

/// The buffer step `i` renders into.
pub fn jfa_step_target(i: u32) -> (r: JfaBuffer)
    ensures
        r == step_target(i),
{
    if jfa_step_targets_fb0(i) { JfaBuffer::Step0 } else { JfaBuffer::Step1 }
}

/// The buffer step `i` reads.
pub fn jfa_step_source(i: u32) -> (r: JfaBuffer)
    ensures
        r == step_source(i),
{
    if i == 0 {
        JfaBuffer::Init
    } else {
        jfa_step_target(i - 1)
    }
}

/// The buffer the outline pass reads after `n` steps: the one step `n - 1`
/// wrote (step 0's for no steps at all).
pub open spec fn final_buffer(n: u32) -> JfaBuffer {
    step_target(if n == 0 { 0 } else { (n - 1) as u32 })
}

/// The buffer the outline pass reads after `num_passes` steps.
pub fn jfa_final_buffer(num_passes: u32) -> (r: JfaBuffer)
    ensures
        r == final_buffer(num_passes),
{
    jfa_step_target(num_passes.saturating_sub(1))
}

/// The jump-flood passes hand their result along: no step reads the buffer
/// it writes, every step after the first reads what the step before it
/// wrote, the outline pass never reads the init buffer, and after `n >= 1`
/// steps it reads the buffer a further step would have read.
pub proof fn lemma_jfa_ping_pong(i: u32, n: u32)
    ensures
        step_source(i) != step_target(i),
        i > 0 ==> step_source(i) == step_target((i - 1) as u32),
        final_buffer(n) != JfaBuffer::Init,
        n >= 1 ==> final_buffer(n) == step_source(n),
{
}

} // verus!
