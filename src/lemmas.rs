use crate::cpu::{CpuState, ExecutionError, DISPLAY_SIZE, FLAG_REGISTER, MEMORY_SIZE, STACK_SIZE};
use crate::instruction::{byte_of, family_of, reg_x_of, reg_y_of};
use crate::semantics::{
    any_pressed, cycle_spec, draw_collides, execute_spec, fetch_word, is_first_pressed, set_reg,
    ticked,
};
use vstd::prelude::*;

verus! {

/// Clearing the screen twice leaves the same state as clearing it once, and
/// either way every pixel is off.
pub proof fn clear_is_idempotent(s: CpuState, w: u16, random: u8)
    requires
        s.wf(),
        family_of(w) == 0,
        byte_of(w) == 0xE0,
    ensures
        execute_spec(s, w, random) is Ok,
        execute_spec(execute_spec(s, w, random)->Ok_0, w, random) == execute_spec(s, w, random),
        forall|k: int|
            0 <= k < DISPLAY_SIZE ==> !(#[trigger] execute_spec(s, w, random)->Ok_0.display[k]),
{
    let t = execute_spec(s, w, random)->Ok_0;
    assert(execute_spec(t, w, random)->Ok_0 =~~= t);
}

/// Drawing the same sprite twice at the same place gives back every pixel as it
/// was, and the second draw reports a collision exactly when a pixel under a set
/// bit of the sprite was on after the first. The coordinates must not sit in
/// the flag register, which the first draw overwrites.
pub proof fn draw_twice_restores_display(s: CpuState, w: u16, random: u8)
    requires
        s.wf(),
        family_of(w) == 0xD,
        reg_x_of(w) != FLAG_REGISTER,
        reg_y_of(w) != FLAG_REGISTER,
        execute_spec(s, w, random) is Ok,
    ensures
        ({
            let t = execute_spec(s, w, random)->Ok_0;
            let x0 = s.registers[reg_x_of(w)] as int % 64;
            let y0 = s.registers[reg_y_of(w)] as int % 32;
            let rows = (w as int) % 16;
            &&& execute_spec(t, w, random) is Ok
            &&& execute_spec(t, w, random)->Ok_0.display == s.display
            &&& execute_spec(t, w, random)->Ok_0.registers[FLAG_REGISTER as int] == 1
                <==> draw_collides(t.display, s.memory, s.index as int, x0, y0, rows)
        }),
{
    let t = execute_spec(s, w, random)->Ok_0;
    let u = execute_spec(t, w, random)->Ok_0;
    assert(u.display =~= s.display);
}

/// A call followed, at any later point where the stack is back to the depth
/// the call left, by a return, resumes at the instruction after the call and
/// gives back the stack depth from before it.
pub proof fn call_then_return(s: CpuState, t: CpuState, random: u8)
    requires
        s.wf(),
        s.pc + 1 < MEMORY_SIZE,
        family_of(fetch_word(s)) == 2,
        s.sp < STACK_SIZE,
        t.wf(),
        t.pc + 1 < MEMORY_SIZE,
        family_of(fetch_word(t)) == 0,
        byte_of(fetch_word(t)) == 0xEE,
        cycle_spec(s, random) is Ok,
        t.sp == cycle_spec(s, random)->Ok_0.sp,
        t.stack[t.sp - 1] == cycle_spec(s, random)->Ok_0.stack[t.sp - 1],
    ensures
        cycle_spec(s, random) is Ok,
        cycle_spec(t, random) is Ok,
        cycle_spec(t, random)->Ok_0.pc == s.pc + 2,
        cycle_spec(t, random)->Ok_0.sp == s.sp,
{
}

/// A call succeeds and deepens the stack by one while a slot is free, and fails
/// with a stack overflow once all of them are in use.
pub proof fn call_depth_is_bounded(s: CpuState, w: u16, random: u8)
    requires
        s.wf(),
        family_of(w) == 2,
    ensures
        s.sp < STACK_SIZE ==> execute_spec(s, w, random) is Ok && execute_spec(s, w, random)->Ok_0.sp
            == s.sp + 1 && execute_spec(s, w, random)->Ok_0.wf(),
        s.sp == STACK_SIZE ==> execute_spec(s, w, random) == Err::<CpuState, ExecutionError>(
            ExecutionError::StackOverflow,
        ),
{
}

/// `n` calls in a row, each executing `w` on what the previous one left.
pub open spec fn repeated(s: CpuState, w: u16, n: nat) -> Result<CpuState, ExecutionError>
    decreases n,
{
    if n == 0 {
        Ok(s)
    } else {
        match repeated(s, w, (n - 1) as nat) {
            Ok(t) => execute_spec(t, w, 0),
            Err(e) => Err(e),
        }
    }
}

/// From an empty stack, sixteen nested calls succeed and fill the stack.
pub proof fn nested_calls_fill_stack(s: CpuState, w: u16, n: nat)
    requires
        s.wf(),
        s.sp == 0,
        family_of(w) == 2,
        n <= STACK_SIZE,
    ensures
        repeated(s, w, n) is Ok,
        repeated(s, w, n)->Ok_0.sp == n,
        repeated(s, w, n)->Ok_0.wf(),
    decreases n,
{
    if n > 0 {
        nested_calls_fill_stack(s, w, (n - 1) as nat);
        call_depth_is_bounded(repeated(s, w, (n - 1) as nat)->Ok_0, w, 0);
    }
}

/// From an empty stack, the seventeenth nested call overflows it.
pub proof fn seventeenth_call_overflows(s: CpuState, w: u16)
    requires
        s.wf(),
        s.sp == 0,
        family_of(w) == 2,
    ensures
        repeated(s, w, 17) == Err::<CpuState, ExecutionError>(ExecutionError::StackOverflow),
{
    nested_calls_fill_stack(s, w, 16);
    call_depth_is_bounded(repeated(s, w, 16)->Ok_0, w, 0);
}

/// A timer after `n` ticks.
pub open spec fn ticked_n(t: u8, n: nat) -> u8
    decreases n,
{
    if n == 0 {
        t
    } else {
        ticked(ticked_n(t, (n - 1) as nat))
    }
}

/// Ticking a timer `n` times takes it down by `n`, and stops at zero.
pub proof fn timer_stops_at_zero(t: u8, n: nat)
    ensures
        ticked_n(t, n) == if n <= t { t - n } else { 0 },
    decreases n,
{
    if n > 0 {
        timer_stops_at_zero(t, (n - 1) as nat);
    }
}

/// Waiting for a key: while no key is down, a cycle on the wait instruction
/// changes nothing, the program counter included, so it runs again next cycle;
/// once a key is down, one cycle moves past it and puts the lowest such key in Vx.
pub proof fn wait_for_key(s: CpuState, random: u8)
    requires
        s.wf(),
        s.pc + 1 < MEMORY_SIZE,
        family_of(fetch_word(s)) == 0xF,
        byte_of(fetch_word(s)) == 0x0A,
    ensures
        !any_pressed(s.keys) ==> cycle_spec(s, random) == Ok::<CpuState, ExecutionError>(s),
        forall|k: int|
            #[trigger] is_first_pressed(s.keys, k) ==> cycle_spec(s, random) == Ok::<
                CpuState,
                ExecutionError,
            >(set_reg(CpuState { pc: (s.pc + 2) as u16, ..s }, reg_x_of(fetch_word(s)), k)),
{
    if !any_pressed(s.keys) {
        assert(cycle_spec(s, random)->Ok_0 =~~= s);
    }
    assert forall|k: int| #[trigger] is_first_pressed(s.keys, k) implies cycle_spec(s, random)
        == Ok::<CpuState, ExecutionError>(
        set_reg(CpuState { pc: (s.pc + 2) as u16, ..s }, reg_x_of(fetch_word(s)), k),
    ) by {
        crate::cpu::lemma_first_pressed_unique(s.keys, k);
    }
}

} // verus!
