use vstd::prelude::*;

verus! {

/// The directory bit of the file-type field (`0o040000`).
pub const DIR_BIT: u32 = 0o040000;

/// The setuid bit (`0o4000`).
pub const SETUID_BIT: u32 = 0o4000;

/// The setgid bit (`0o2000`).
pub const SETGID_BIT: u32 = 0o2000;

/// The sticky bit (`0o1000`).
pub const STICKY_BIT: u32 = 0o1000;

/// Whether bit `b` of `m` is set.
pub open spec fn bit_set(m: u32, b: u32) -> bool {
    m & (1u32 << b) != 0
}

/// The special bit shown over the execute slot at bit `b`, or 0 where there is none.
pub open spec fn overlay_bit(b: u32) -> u32 {
    if b == 6 {
        SETUID_BIT
    } else if b == 3 {
        SETGID_BIT
    } else if b == 0 {
        STICKY_BIT
    } else {
        0
    }
}

/// The character shown for permission bit `b` (0 to 8) of `m`: `r`, `w` or
/// `x` when set, `-` when clear; an execute slot whose special bit is set
/// shows `s` (sticky: `t`) over a set execute bit, `S` (sticky: `T`) over a
/// clear one.
pub open spec fn slot_char(m: u32, b: u32) -> char {
    let set = bit_set(m, b);
    if overlay_bit(b) != 0 && m & overlay_bit(b) != 0 {
        if b == 0 {
            if set {
                't'
            } else {
                'T'
            }
        } else if set {
            's'
        } else {
            'S'
        }
    } else if !set {
        '-'
    } else if b % 3 == 2 {
        'r'
    } else if b % 3 == 1 {
        'w'
    } else {
        'x'
    }
}

/// The long-listing form of a mode: `d` or `-`, then user, group and other
/// read, write and execute slots, highest bit first.
pub open spec fn render_spec(m: u32) -> Seq<char> {
    Seq::new(
        10,
        |i: int|
            if i == 0 {
                if m & DIR_BIT != 0 {
                    'd'
                } else {
                    '-'
                }
            } else {
                slot_char(m, (9 - i) as u32)
            },
    )
}

/// The one-character text for permission bit `b` of `perm`.
fn slot_text(perm: u32, b: u32) -> (r: &'static str)
    requires
        b < 9,
    ensures
        r@ == seq![slot_char(perm, b)],
{
    let set = perm & (1u32 << b) != 0;
    let overlay: u32 = if b == 6 {
        SETUID_BIT
    } else if b == 3 {
        SETGID_BIT
    } else if b == 0 {
        STICKY_BIT
    } else {
        0
    };
    let r = if overlay != 0 && perm & overlay != 0 {
        if b == 0 {
            if set {
                "t"
            } else {
                "T"
            }
        } else if set {
            "s"
        } else {
            "S"
        }
    } else if !set {
        "-"
    } else if b % 3 == 2 {
        "r"
    } else if b % 3 == 1 {
        "w"
    } else {
        "x"
    };
    proof {
        reveal_strlit("t");
        reveal_strlit("T");
        reveal_strlit("s");
        reveal_strlit("S");
        reveal_strlit("-");
        reveal_strlit("r");
        reveal_strlit("w");
        reveal_strlit("x");
        assert(r@ =~= seq![slot_char(perm, b)]);
    }
    r
}

/// Renders a mode in the ten-character long-listing form, such as `-rwsr-xr-T`.
pub fn permission_string(perm: u32) -> (r: String)
    ensures
        r@ == render_spec(perm),
        r@.len() == 10,
{
    let mut out = if perm & DIR_BIT != 0 {
        String::from_str("d")
    } else {
        String::from_str("-")
    };
    proof {
        reveal_strlit("d");
        reveal_strlit("-");
        assert(out@ =~= render_spec(perm).subrange(0, 1));
    }
    let mut b: u32 = 9;
    while b > 0
        invariant
            b <= 9,
            out@ == render_spec(perm).subrange(0, 10 - b),
        decreases b,
    {
        b = b - 1;
        let t = slot_text(perm, b);
        out.append(t);
        assert(out@ =~= render_spec(perm).subrange(0, 10 - b));
    }
    assert(out@ =~= render_spec(perm));
    out
}

} // verus!
