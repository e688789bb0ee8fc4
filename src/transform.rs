use vstd::prelude::*;

use crate::subject::Subject;

verus! {

/// The three bits of class `c` in mode `m`, moved down to bit 0.
pub open spec fn field(m: u32, c: Subject) -> u32 {
    (m & c.spec_mask()) >> c.spec_shift()
}

/// The bits of `m` outside the nine rwx bits: file type, setuid, setgid, sticky.
pub open spec fn special_bits(m: u32) -> u32 {
    m & !0o777u32
}

/// One transfer step: clear the destination's field, then copy into it the
/// source's field as it reads in the mode just cleared.
pub open spec fn transfer_step(m: u32, source: Subject, dest: Subject) -> u32 {
    let cleared = m & !dest.spec_mask();
    cleared | (((cleared & source.spec_mask()) >> source.spec_shift()) << dest.spec_shift())
}

/// The mode after every destination, in order, has taken the source's field
/// from the working mode left by the steps before it.
pub open spec fn transfer_all(m: u32, source: Subject, dests: Seq<Subject>) -> u32
    decreases dests.len(),
{
    if dests.len() == 0 {
        m
    } else {
        transfer_step(transfer_all(m, source, dests.drop_last()), source, dests.last())
    }
}

/// Copies the source class's bits into each destination class in turn,
/// reading from the working mode as earlier destinations left it.
pub fn apply_transfer(mode: u32, source: Subject, destinations: &Vec<Subject>) -> (r: u32)
    ensures
        r == transfer_all(mode, source, destinations@),
{
    let src_mask = source.mask();
    let src_shift = source.shift();
    let mut new_mode: u32 = mode;
    let mut i: usize = 0;
    while i < destinations.len()
        invariant
            i <= destinations@.len(),
            src_mask == source.spec_mask(),
            src_shift == source.spec_shift(),
            new_mode == transfer_all(mode, source, destinations@.subrange(0, i as int)),
        decreases destinations@.len() - i,
    {
        let dest = destinations[i];
        let dest_mask = dest.mask();
        let dest_shift = dest.shift();
        new_mode = new_mode & !dest_mask;
        new_mode = new_mode | ((new_mode & src_mask) >> src_shift) << dest_shift;
        proof {
            let next = destinations@.subrange(0, i + 1);
            assert(next.drop_last() =~= destinations@.subrange(0, i as int));
        }
        i = i + 1;
    }
    proof {
        assert(destinations@.subrange(0, i as int) =~= destinations@);
    }
    new_mode
}

} // verus!
