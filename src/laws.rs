use vstd::prelude::*;

use crate::parse::{decode_targets, is_separator, next_separator, spec_parse, ParseFault};
use crate::subject::{subject_of_char, subject_of_token, Subject};
use crate::transform::{field, special_bits, transfer_all, transfer_step};

verus! {

/// One step at the bit level, for any source, destination and observed class.
proof fn bv_step_field(m: u32, sm: u32, ss: u32, dm: u32, ds: u32, cm: u32, cs: u32)
    by (bit_vector)
    requires
        (sm == 0o700u32 && ss == 6u32) || (sm == 0o070u32 && ss == 3u32) || (sm == 0o007u32
            && ss == 0u32),
        (dm == 0o700u32 && ds == 6u32) || (dm == 0o070u32 && ds == 3u32) || (dm == 0o007u32
            && ds == 0u32),
        (cm == 0o700u32 && cs == 6u32) || (cm == 0o070u32 && cs == 3u32) || (cm == 0o007u32
            && cs == 0u32),
    ensures
        ((((m & !dm) | ((((m & !dm) & sm) >> ss) << ds)) & cm) >> cs) == (if cm == dm {
            if sm == dm {
                0u32
            } else {
                (m & sm) >> ss
            }
        } else {
            (m & cm) >> cs
        }),
        ((m & !dm) | ((((m & !dm) & sm) >> ss) << ds)) & !0o777u32 == m & !0o777u32,
{
}

/// The three fields and the remaining bits make up the whole mode.
proof fn bv_fields_determine(a: u32, b: u32)
    by (bit_vector)
    requires
        (a & 0o700u32) >> 6u32 == (b & 0o700u32) >> 6u32,
        (a & 0o070u32) >> 3u32 == (b & 0o070u32) >> 3u32,
        a & 0o007u32 == b & 0o007u32,
        a & !0o777u32 == b & !0o777u32,
    ensures
        a == b,
{
}

/// What one step does to each class's field, and that it leaves the other bits alone.
pub proof fn lemma_step_fields(m: u32, source: Subject, dest: Subject)
    ensures
        forall|c: Subject|
            #[trigger] field(transfer_step(m, source, dest), c) == if c == dest {
                if source == dest {
                    0
                } else {
                    field(m, source)
                }
            } else {
                field(m, c)
            },
        special_bits(transfer_step(m, source, dest)) == special_bits(m),
{
    assert forall|c: Subject|
        #[trigger] field(transfer_step(m, source, dest), c) == if c == dest {
            if source == dest {
                0
            } else {
                field(m, source)
            }
        } else {
            field(m, c)
        } by {
        bv_step_field(
            m,
            source.spec_mask(),
            source.spec_shift(),
            dest.spec_mask(),
            dest.spec_shift(),
            c.spec_mask(),
            c.spec_shift(),
        );
    }
    bv_step_field(
        m,
        source.spec_mask(),
        source.spec_shift(),
        dest.spec_mask(),
        dest.spec_shift(),
        0o700u32,
        6u32,
    );
}

/// Two modes with the same three fields and the same other bits are equal.
pub proof fn lemma_fields_determine_mode(a: u32, b: u32)
    requires
        forall|c: Subject| field(a, c) == field(b, c),
        special_bits(a) == special_bits(b),
    ensures
        a == b,
{
    assert(field(a, Subject::User) == field(b, Subject::User));
    assert(field(a, Subject::Group) == field(b, Subject::Group));
    assert(field(a, Subject::Other) == field(b, Subject::Other));
    assert((a & 0o007u32) >> 0u32 == a & 0o007u32) by (bit_vector);
    assert((b & 0o007u32) >> 0u32 == b & 0o007u32) by (bit_vector);
    bv_fields_determine(a, b);
}

/// The bits outside the three rwx fields (file type, setuid, setgid, sticky)
/// come through any transfer unchanged.
pub proof fn lemma_special_bits_kept(m: u32, source: Subject, dests: Seq<Subject>)
    ensures
        special_bits(transfer_all(m, source, dests)) == special_bits(m),
    decreases dests.len(),
{
    if dests.len() > 0 {
        lemma_special_bits_kept(m, source, dests.drop_last());
        lemma_step_fields(transfer_all(m, source, dests.drop_last()), source, dests.last());
    }
}

/// A destination other than the source ends up holding the source's bits,
/// and every other class keeps its own: a plain copy.
pub proof fn lemma_independent_destination(m: u32, source: Subject, dest: Subject)
    requires
        dest != source,
    ensures
        field(transfer_all(m, source, seq![dest]), dest) == field(m, source),
        forall|c: Subject|
            c != dest ==> #[trigger] field(transfer_all(m, source, seq![dest]), c) == field(m, c),
        special_bits(transfer_all(m, source, seq![dest])) == special_bits(m),
{
    let d = seq![dest];
    assert(d.drop_last() =~= Seq::<Subject>::empty());
    assert(transfer_all(m, source, d.drop_last()) == m);
    lemma_step_fields(m, source, dest);
}

/// When the source is also the first destination, its field is cleared before
/// it is read: the source and every destination end up with no bits, and the
/// classes that take no part keep theirs.
pub proof fn lemma_self_referential(m: u32, source: Subject, dests: Seq<Subject>)
    requires
        dests.len() > 0,
        dests[0] == source,
    ensures
        forall|c: Subject|
            #[trigger] field(transfer_all(m, source, dests), c) == if c == source
                || dests.contains(c) {
                0
            } else {
                field(m, c)
            },
        special_bits(transfer_all(m, source, dests)) == special_bits(m),
    decreases dests.len(),
{
    lemma_special_bits_kept(m, source, dests);
    let prev = dests.drop_last();
    let d = dests.last();
    if dests.len() == 1 {
        assert(prev =~= Seq::<Subject>::empty());
        assert(transfer_all(m, source, prev) == m);
        assert(d == source);
        lemma_step_fields(m, source, d);
        assert(transfer_all(m, source, dests) == transfer_step(m, source, d));
        assert forall|c: Subject|
            #[trigger] field(transfer_all(m, source, dests), c) == if c == source
                || dests.contains(c) {
                0
            } else {
                field(m, c)
            } by {
            assert(field(transfer_step(m, source, d), c) == if c == d {
                0
            } else {
                field(m, c)
            });
            if dests.contains(c) {
                let j = choose|j: int| 0 <= j < dests.len() && dests[j] == c;
                assert(j == 0);
            }
        }
    } else {
        lemma_self_referential(m, source, prev);
        let before = transfer_all(m, source, prev);
        lemma_step_fields(before, source, d);
        assert(transfer_all(m, source, dests) == transfer_step(before, source, d));
        assert forall|c: Subject|
            #[trigger] field(transfer_all(m, source, dests), c) == if c == source
                || dests.contains(c) {
                0
            } else {
                field(m, c)
            } by {
            assert(field(transfer_step(before, source, d), c) == if c == d {
                if source == d {
                    0
                } else {
                    field(before, source)
                }
            } else {
                field(before, c)
            });
            assert(field(before, c) == if c == source || prev.contains(c) {
                0
            } else {
                field(m, c)
            });
            assert(prev[0] == source);
            assert(prev.contains(source));
            assert(field(before, source) == 0);
            assert(dests.contains(c) <==> (prev.contains(c) || c == d)) by {
                if prev.contains(c) {
                    let j = choose|j: int| 0 <= j < prev.len() && prev[j] == c;
                    assert(dests[j] == c);
                }
                if c == d {
                    assert(dests[dests.len() - 1] == c);
                }
                if dests.contains(c) && c != d {
                    let j = choose|j: int| 0 <= j < dests.len() && dests[j] == c;
                    assert(j < dests.len() - 1);
                    assert(prev[j] == c);
                }
            }
        }
    }
}

/// Naming the same destination twice in a row does nothing more than naming it once.
pub proof fn lemma_repeated_destination(
    m: u32,
    source: Subject,
    dests: Seq<Subject>,
    dest: Subject,
)
    ensures
        transfer_all(m, source, dests.push(dest).push(dest)) == transfer_all(
            m,
            source,
            dests.push(dest),
        ),
{
    let once = dests.push(dest);
    let twice = once.push(dest);
    assert(twice.drop_last() =~= once);
    assert(once.drop_last() =~= dests);
    let x = transfer_all(m, source, dests);
    let a = transfer_step(x, source, dest);
    let b = transfer_step(a, source, dest);
    lemma_step_fields(x, source, dest);
    lemma_step_fields(a, source, dest);
    lemma_fields_determine_mode(b, a);
}

/// The class of a letter known to name one.
pub open spec fn letter_class(c: char) -> Subject {
    subject_of_char(c)->Some_0
}

/// Each character read as the separator it stands for: `+` becomes `-`.
pub open spec fn normalize(s: Seq<char>) -> Seq<char> {
    s.map_values(|c: char| if c == '+' { '-' } else { c })
}

proof fn lemma_decode_known_letters(t: Seq<char>)
    requires
        forall|i: int| 0 <= i < t.len() ==> (#[trigger] subject_of_char(t[i])) is Some,
    ensures
        decode_targets(t) == Ok::<Seq<Subject>, char>(t.map_values(|c: char| letter_class(c))),
    decreases t.len(),
{
    if t.len() > 0 {
        let p = t.drop_last();
        assert forall|i: int| 0 <= i < p.len() implies (#[trigger] subject_of_char(p[i])) is Some by {
            assert(p[i] == t[i]);
        }
        lemma_decode_known_letters(p);
        assert(subject_of_char(t[t.len() - 1]) is Some);
        assert(subject_of_char(t.last()) == Some(letter_class(t.last())));
        assert(p.map_values(|c: char| letter_class(c)).push(letter_class(t.last()))
            =~= t.map_values(|c: char| letter_class(c)));
    } else {
        assert(t.map_values(|c: char| letter_class(c)) =~= Seq::<Subject>::empty());
    }
}

proof fn lemma_letters_have_no_separator(s: Seq<char>, i: int)
    requires
        0 <= i <= s.len(),
        forall|j: int| i <= j < s.len() ==> (#[trigger] subject_of_char(s[j])) is Some,
    ensures
        next_separator(s, i) == s.len(),
    decreases s.len() - i,
{
    if i < s.len() {
        assert(subject_of_char(s[i]) is Some);
        lemma_letters_have_no_separator(s, i + 1);
    }
}

/// A source letter, a separator and a run of destination letters parse to
/// the source's class and one destination per letter, in the order written,
/// repeats kept.
pub proof fn lemma_letters_parse(a: char, sep: char, t: Seq<char>)
    requires
        subject_of_char(a) is Some,
        is_separator(sep),
        forall|i: int| 0 <= i < t.len() ==> (#[trigger] subject_of_char(t[i])) is Some,
    ensures
        spec_parse(seq![a, sep] + t) == Ok::<(Subject, Seq<Subject>), ParseFault>(
            (letter_class(a), t.map_values(|c: char| letter_class(c))),
        ),
{
    let s = seq![a, sep] + t;
    assert(!is_separator(s[0]));
    assert(next_separator(s, 1) == 1);
    assert(next_separator(s, 0) == 1);
    assert forall|j: int| 2 <= j < s.len() implies (#[trigger] subject_of_char(s[j])) is Some by {
        assert(s[j] == t[j - 2]);
    }
    lemma_letters_have_no_separator(s, 2);
    assert(s.subrange(0, 1) =~= seq![a]);
    assert(subject_of_token(s.subrange(0, 1)) == subject_of_char(a));
    assert(s.subrange(2, s.len() as int) =~= t);
    lemma_decode_known_letters(t);
}

proof fn lemma_normalize_separators(s: Seq<char>, i: int)
    requires
        0 <= i <= s.len(),
    ensures
        next_separator(normalize(s), i) == next_separator(s, i),
    decreases s.len() - i,
{
    if i < s.len() {
        assert(normalize(s)[i] == if s[i] == '+' { '-' } else { s[i] });
        lemma_normalize_separators(s, i + 1);
    }
}

proof fn lemma_normalize_keeps_run(s: Seq<char>, a: int, b: int)
    requires
        0 <= a <= b <= s.len(),
        forall|j: int| a <= j < b ==> !is_separator(#[trigger] s[j]),
    ensures
        normalize(s).subrange(a, b) == s.subrange(a, b),
{
    assert forall|j: int| 0 <= j < b - a implies normalize(s).subrange(a, b)[j] == s.subrange(
        a,
        b,
    )[j] by {
        assert(!is_separator(s[a + j]));
    }
    assert(normalize(s).subrange(a, b) =~= s.subrange(a, b));
}

/// `+` and `-` are one separator: writing `-` for every `+` changes nothing of
/// the parse, except that a specification without separator is reported as
/// the text given.
pub proof fn lemma_plus_is_minus(s: Seq<char>)
    ensures
        spec_parse(normalize(s)) == match spec_parse(s) {
            Err(ParseFault::Malformed(_)) => Err(ParseFault::Malformed(normalize(s))),
            other => other,
        },
{
    let n = normalize(s);
    lemma_normalize_separators(s, 0);
    let k = next_separator(s, 0);
    crate::parse::lemma_next_separator_bounds(s, 0);
    if k < s.len() {
        lemma_normalize_keeps_run(s, 0, k);
        lemma_normalize_separators(s, k + 1);
        crate::parse::lemma_next_separator_bounds(s, k + 1);
        lemma_normalize_keeps_run(s, k + 1, next_separator(s, k + 1));
    }
}

} // verus!
