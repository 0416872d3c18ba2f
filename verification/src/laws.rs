//! General properties of code generation, stated over the models that the
//! executable functions are proved against.
use vstd::prelude::*;
use crate::expr::{EJump, ExprV, eprint, gen_s, jmp_s, red_s};
use crate::inter::{NameGen, bump_label, emit_text};
use crate::parser::{PView, program_s};
use crate::stmt::{StmtV, sgen_s};
use crate::text::int_text;

verus! {

/// What value generation returns prints exactly what reduction assigns:
/// for an operator node, reduction emits generation's text and then the
/// one line that stores the generated value's printed form in the fresh
/// temporary it returns; a leaf emits nothing under either operation and
/// stands for itself.
pub proof fn lemma_generate_reduce(e: ExprV, g: NameGen)
    ensures
        ({
            let x = gen_s(e, g);
            let r = red_s(e, g);
            if e is Constant || e is Identifier || e is Temp {
                r == x && x.text == Seq::<char>::empty() && x.pr == eprint(e)
            } else {
                r.text == x.text + emit_text(
                    seq!['t'] + int_text(x.g.temps as int) + " = "@ + x.pr,
                ) && r.pr == seq!['t'] + int_text(x.g.temps as int)
            }
        }),
{
}

/// Label numbering is gap-free, strictly monotonic, and never hands out
/// 0: from any counter value n with 1 <= n below the machine limit,
/// allocation returns n and leaves the counter at n + 1, so consecutive
/// allocations return n, n + 1, n + 2, and so on.
pub proof fn lemma_label_numbering(g: NameGen)
    requires
        1 <= g.labels < i64::MAX,
    ensures
        g.labels >= 1,
        bump_label(g).labels == g.labels + 1,
        bump_label(g).temps == g.temps,
        bump_label(g).labels > g.labels,
{
}

/// A whole compile is a mathematical function of the input and the
/// allocator alone: two compiles from equal parser states and equal
/// counters yield identical output, which is why resetting the counters
/// before a compile reproduces its output exactly.
pub proof fn lemma_compile_deterministic(p1: PView, p2: PView, g1: NameGen, g2: NameGen)
    requires
        p1 == p2,
        g1 == g2,
    ensures
        program_s(p1, g1) == program_s(p2, g2),
{
}

/// Code emission is a mathematical function of the tree and the allocator
/// alone: starting two compiles from equal counters yields identical
/// output, which is why resetting the counters before a compile
/// reproduces its output exactly.
pub proof fn lemma_generation_deterministic(
    s: StmtV,
    begin: i64,
    after: i64,
    enc: i64,
    g1: NameGen,
    g2: NameGen,
)
    requires
        g1 == g2,
    ensures
        sgen_s(s, begin, after, enc, g1) == sgen_s(s, begin, after, enc, g2),
{
}

/// Short-circuit disjunction allocates no label of its own when a true
/// target is supplied: its jump code is exactly its operands' jump code,
/// and the allocator leaves in whatever state the operands leave it.
pub proof fn lemma_or_jumps_no_extra_label(
    left: ExprV,
    right: ExprV,
    to: i64,
    from: i64,
    g: NameGen,
)
    requires
        to != 0,
    ensures
        ({
            let l = jmp_s(left, to, 0, g);
            let r = jmp_s(right, to, from, l.g);
            jmp_s(ExprV::OrLogic { left: Box::new(left), right: Box::new(right) }, to, from, g)
                == (EJump { text: l.text + r.text, g: r.g })
        }),
{
}

/// Short-circuit conjunction allocates no label of its own when a false
/// target is supplied, in the same way.
pub proof fn lemma_and_jumps_no_extra_label(
    left: ExprV,
    right: ExprV,
    to: i64,
    from: i64,
    g: NameGen,
)
    requires
        from != 0,
    ensures
        ({
            let l = jmp_s(left, 0, from, g);
            let r = jmp_s(right, to, from, l.g);
            jmp_s(ExprV::AndLogic { left: Box::new(left), right: Box::new(right) }, to, from, g)
                == (EJump { text: l.text + r.text, g: r.g })
        }),
{
}

} // verus!
