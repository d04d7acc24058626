# Emulator core

The verified core of a user-mode AArch64 emulator: the A64 decoder, the
interpreter with its decode cache and trap log, guest memory and the
register file, a software floating-point unit for the IEEE half, single and
double formats, the Linux system-call shim, and CDT v1 trace emission.

The public functions under `src/` carry `requires`/`ensures` contracts that
Verus proves. The main ones:

- `decode::decode` agrees with a spec function per encoding group, and every
  register it names is a valid slot.
- `interp::Cpu::step` executes exactly what the `executed` spec says of the
  decoded instruction at PC and reports one trace block per retired
  instruction; `run` is a chain of such steps, ended by the budget or by the
  first trap; the decode cache is transparent.
- `shim::Shim::service` leaves in `x0` exactly what `call` answers, and each
  answer is stated per syscall, host-backed ones through the host's own
  outcome functions.
- `fp::softfloat` states every operation as a function of its operands,
  down to the bit patterns: NaN propagation, the infinity and zero cases,
  and the exact significand (with its sticky bit) that is then rounded by
  guard, round and sticky bits. Correct rounding is proved as laws: rounding
  at the guard bits and packing in each range (normal, subnormal, overflow)
  give the exact value, an integer ratio `n / d`, correctly rounded in the
  mode (`rounded_correctly`); and for addition and subtraction,
  multiplication, division, square root, conversion between formats and
  from integers, the result is the exact result so rounded. The fused
  multiply-add is rounded once and correctly where the product and addend
  share a sign or aligning them drops no bits; where a difference drops
  bits below the aligned addend, the wide sum is not borrowed from and its
  sticky bit reads as above the exact value, which can leave the result one
  unit off. Conversion to integers and round-to-integral round the exact
  value to an integer (`rounded_to_integer`). These laws assume
  flush-to-zero off and a mode other than round-to-odd. Other laws: packing
  an unpacked value and narrowing a widened one give back the bits they
  started from; quietening a NaN twice changes nothing.
- `fp::engine::FpEngine` keeps FPSR sticky, routes non-default FPCR to the
  reference backend, and reports exception tracking as the selected backend
  does.
- `trace::writer::CdtWriter` appends exactly the bytes of each record.

`app/` holds what computes with the host's floating-point unit: the native
FP backend the engine uses in default mode. `tests/` exercises the library
from outside.
