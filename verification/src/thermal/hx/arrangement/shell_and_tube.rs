//! Shell-and-tube arrangement.

use std::marker::PhantomData;
use vstd::prelude::*;

verus! {

/// Shell-and-tube heat exchanger arrangement with `S` shell passes and `T`
/// tube passes, constrained to the supported pass counts.
#[derive(Debug, Clone, Copy)]
pub struct ShellAndTube<const S: u32, const T: u32> {
    _marker: PhantomData<()>,
}

/// The supported pass counts: at least one shell pass, few enough shell
/// passes that twice their number fits in an `i32`, and a tube pass count
/// that fits in an `i32` and is a positive multiple of twice the shell
/// passes.
pub open spec fn valid_passes(shell: int, tube: int) -> bool {
    &&& shell > 0
    &&& shell <= i32::MAX / 2
    &&& tube <= i32::MAX
    &&& tube >= 2 * shell
    &&& tube % (2 * shell) == 0
}

/// A configuration is supported exactly when there is at least one shell
/// pass, the counts fit in an `i32` (with room to double the shell passes),
/// and the tube passes are a positive multiple of twice the shell passes.
pub proof fn lemma_supported_pass_counts(shell: int, tube: int)
    ensures
        valid_passes(shell, tube) <==> (shell > 0 && 2 * shell <= i32::MAX && tube <= i32::MAX
            && exists|k: int| k >= 1 && #[trigger] (k * (2 * shell)) == tube),
{
    if valid_passes(shell, tube) {
        let k = tube / (2 * shell);
        assert(k * (2 * shell) == tube) by (nonlinear_arith)
            requires
                shell > 0,
                tube % (2 * shell) == 0,
                k == tube / (2 * shell),
        ;
        assert(k >= 1) by (nonlinear_arith)
            requires
                shell > 0,
                tube >= 2 * shell,
                k == tube / (2 * shell),
        ;
    }
    if shell > 0 && 2 * shell <= i32::MAX && tube <= i32::MAX && exists|k: int|
        k >= 1 && #[trigger] (k * (2 * shell)) == tube {
        let k = choose|k: int| k >= 1 && #[trigger] (k * (2 * shell)) == tube;
        assert(tube >= 2 * shell) by (nonlinear_arith)
            requires
                shell > 0,
                k >= 1,
                k * (2 * shell) == tube,
        ;
        assert(tube % (2 * shell) == 0) by (nonlinear_arith)
            requires
                shell > 0,
                k * (2 * shell) == tube,
        ;
    }
}

/// Tube passes that are not a multiple of twice the shell passes are never
/// supported.
pub proof fn lemma_tube_passes_must_be_multiple(shell: int, tube: int)
    requires
        shell > 0,
        tube % (2 * shell) != 0,
    ensures
        !valid_passes(shell, tube),
{
}

impl<const S: u32, const T: u32> ShellAndTube<S, T> {
    /// Checks the pass counts `S` and `T`.
    pub fn assert_valid() -> (ok: bool)
        ensures
            ok == valid_passes(S as int, T as int),
            ok <==> ((S as int) > 0 && (S as int) <= i32::MAX / 2 && (T as int) <= i32::MAX && (
            T as int) >= 2 * (S as int) && (T as int) % (2 * (S as int)) == 0),
    {
        if S == 0 || S > (i32::MAX / 2) as u32 || T > i32::MAX as u32 {
            return false;
        }
        let twice = 2 * S;
        T >= twice && T % twice == 0
    }

    /// Constructs a shell-and-tube arrangement; the pass counts must be
    /// supported.
    pub fn new() -> Self
        requires
            valid_passes(S as int, T as int),
    {
        Self { _marker: PhantomData }
    }
}

} // verus!
