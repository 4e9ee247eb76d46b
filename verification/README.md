# threei-dispatch-bench

A library for dispatching system calls between isolated cages, written and verified in
Verus, and a runner that measures the designs it holds:

| design | where |
|---|---|
| the policy lives in a stack of wasm grates | `grate` |
| a cage may only name its own subtree, on parent pointers or on ancestor rows | `cage::Lineage` |
| a cage may name what it was granted, in hash sets or in bit rows | `cage::Grants` |
| filter programs decide | `bpf` |
| argument cage ids are pinned in the handler table, and a call has seven arguments | `dispatch::make_syscall_narrow` |

Handler tables come in three shapes: nested hash maps, the same rows in a `DashMap`, and
a flat array of slots.

## Layout

- `src/`: the library. Every function has a contract, and the laws that relate several
  of them are proof functions whose names begin with `law_`. What is believed without
  proof is what `handler` says of `dashmap`.
- `tests/`: the library at work, with wasm grates run by wasmtime.
- `app/`: the runner. It holds what the library does not: locks and process-wide state,
  the C entry points, the wasm instances, the clock, and floating-point figures.

The library decides and the runtime acts: `dispatch::make_syscall` answers with an
`Action`, and `grate::call_grate` with a `GrateCall`. Both are carried out without a hold
on the dispatcher, since a grate that forwards a call comes back into it. A caller that
cannot know beforehand that a call can be decided uses `dispatch::try_syscall`, which says
so, as `Program::try_run` does for filters.

## Usage

```
--trials N        trials per scenario; min and median are reported (default 9)
--depth N         how many levels below the caller the target/arg cages sit (default 3)
--ncheck N        how many of the six arg cage ids the policy inspects (default 2)
--leaf cheap|syscall     what the bottom of the stack does (default cheap)
--table mutex|dash|flat  handler table for the full-path scenarios (default mutex)
--grates 1,2,3    grate stack heights to measure
--threads 1,2,4,8 thread counts for the contention scenario
--only SUBSTR     only run scenarios whose name contains SUBSTR
--csv PATH        also write results as CSV
```
