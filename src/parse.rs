use vstd::prelude::*;

use crate::subject::{subject_from_char, subject_of_char, subject_of_token, Subject};
use crate::transform::{apply_transfer, transfer_all};

verus! {

/// Why a transfer specification was refused, as text.
#[derive(Debug)]
pub enum ParseError {
    /// The specification has no `-` or `+` between source and destinations;
    /// holds the whole specification.
    MalformedSpec(String),
    /// A source token or a destination letter names no class; holds it.
    UnknownSubject(String),
}

/// The mathematical form of a `ParseError`.
pub enum ParseFault {
    Malformed(Seq<char>),
    Unknown(Seq<char>),
}

impl View for ParseError {
    type V = ParseFault;

    open spec fn view(&self) -> ParseFault {
        match self {
            ParseError::MalformedSpec(s) => ParseFault::Malformed(s@),
            ParseError::UnknownSubject(s) => ParseFault::Unknown(s@),
        }
    }
}

/// Which class to read, and the classes to overwrite, in order.
#[derive(Debug)]
pub struct TransferSpec {
    pub source: Subject,
    pub destinations: Vec<Subject>,
}

impl TransferSpec {
    /// The mode after the transfer has been applied to `mode`.
    pub fn apply(&self, mode: u32) -> (r: u32)
        ensures
            r == transfer_all(mode, self.source, self.destinations@),
    {
        apply_transfer(mode, self.source, &self.destinations)
    }
}

/// `-` and `+` both separate the source from the destinations.
pub open spec fn is_separator(c: char) -> bool {
    c == '-' || c == '+'
}

/// The index of the first separator at or after `i`, or the length if none.
pub open spec fn next_separator(s: Seq<char>, i: int) -> int
    decreases s.len() - i,
{
    if i >= s.len() {
        s.len() as int
    } else if is_separator(s[i]) {
        i
    } else {
        next_separator(s, i + 1)
    }
}

/// The classes that a run of destination letters names, left to right, or
/// the first letter that names none.
pub open spec fn decode_targets(t: Seq<char>) -> Result<Seq<Subject>, char>
    decreases t.len(),
{
    if t.len() == 0 {
        Ok(Seq::empty())
    } else {
        match decode_targets(t.drop_last()) {
            Err(c) => Err(c),
            Ok(done) => match subject_of_char(t.last()) {
                Some(x) => Ok(done.push(x)),
                None => Err(t.last()),
            },
        }
    }
}

/// What a specification string means. The text before the first separator
/// names the source; the text between it and the next separator (or the end)
/// lists the destinations; anything after that is ignored.
pub open spec fn spec_parse(s: Seq<char>) -> Result<(Subject, Seq<Subject>), ParseFault> {
    let k = next_separator(s, 0);
    if k >= s.len() {
        Err(ParseFault::Malformed(s))
    } else {
        let head = s.subrange(0, k);
        match subject_of_token(head) {
            None => Err(ParseFault::Unknown(head)),
            Some(src) => match decode_targets(s.subrange(k + 1, next_separator(s, k + 1))) {
                Err(c) => Err(ParseFault::Unknown(seq![c])),
                Ok(dests) => Ok((src, dests)),
            },
        }
    }
}

pub proof fn lemma_next_separator_bounds(s: Seq<char>, i: int)
    requires
        0 <= i <= s.len(),
    ensures
        i <= next_separator(s, i) <= s.len(),
        next_separator(s, i) < s.len() ==> is_separator(s[next_separator(s, i)]),
        forall|j: int| i <= j < next_separator(s, i) ==> !is_separator(#[trigger] s[j]),
    decreases s.len() - i,
{
    if i < s.len() && !is_separator(s[i]) {
        lemma_next_separator_bounds(s, i + 1);
    }
}

proof fn lemma_decode_error_extends(t: Seq<char>, i: int)
    requires
        0 <= i <= t.len(),
        decode_targets(t.subrange(0, i)) is Err,
    ensures
        decode_targets(t) == decode_targets(t.subrange(0, i)),
    decreases t.len(),
{
    if t.len() == i {
        assert(t.subrange(0, i) =~= t);
    } else {
        assert(t.drop_last().subrange(0, i) =~= t.subrange(0, i));
        lemma_decode_error_extends(t.drop_last(), i);
    }
}

/// Where the separator scan starting at `from` stops.
fn find_separator(s: &str, n: usize, from: usize) -> (r: usize)
    requires
        n == s@.len(),
        from <= n,
    ensures
        r == next_separator(s@, from as int),
{
    let mut i: usize = from;
    while i < n
        invariant
            from <= i <= n,
            n == s@.len(),
            next_separator(s@, i as int) == next_separator(s@, from as int),
        decreases n - i,
    {
        let c = s.get_char(i);
        if c == '-' || c == '+' {
            return i;
        }
        i = i + 1;
    }
    i
}

/// Reads a transfer specification such as `u-g`, `g-uo` or `u+g`.
pub fn parse_mode_transfer_spec(mode_spec: &str) -> (r: Result<TransferSpec, ParseError>)
    ensures
        match spec_parse(mode_spec@) {
            Ok((src, dests)) => r is Ok && r->Ok_0.source == src && r->Ok_0.destinations@ == dests,
            Err(fault) => r is Err && r->Err_0@ == fault,
        },
{
    let n = mode_spec.unicode_len();
    let k = find_separator(mode_spec, n, 0);
    if k >= n {
        return Err(ParseError::MalformedSpec(String::from_str(mode_spec)));
    }
    let head = mode_spec.substring_char(0, k);
    let source = if k == 1 {
        subject_from_char(mode_spec.get_char(0))
    } else {
        None
    };
    let source = match source {
        Some(x) => x,
        None => {
            return Err(ParseError::UnknownSubject(String::from_str(head)));
        },
    };
    let end = find_separator(mode_spec, n, k + 1);
    proof {
        assert(mode_spec@.subrange(0, k as int).len() == 1);
        assert(mode_spec@.subrange(0, k as int)[0] == mode_spec@[0]);
        assert(subject_of_token(mode_spec@.subrange(0, k as int)) == Some(source));
        lemma_next_separator_bounds(mode_spec@, k + 1);
    }
    let ghost tail = mode_spec@.subrange(k + 1, end as int);
    let mut destinations: Vec<Subject> = Vec::new();
    let mut j: usize = k + 1;
    while j < end
        invariant
            k + 1 <= j <= end <= n,
            n == mode_spec@.len(),
            tail == mode_spec@.subrange(k + 1, end as int),
            k == next_separator(mode_spec@, 0),
            end == next_separator(mode_spec@, k + 1),
            subject_of_token(mode_spec@.subrange(0, k as int)) == Some(source),
            decode_targets(tail.subrange(0, j - (k + 1))) == Ok::<Seq<Subject>, char>(
                destinations@,
            ),
        decreases end - j,
    {
        let c = mode_spec.get_char(j);
        let ghost before = tail.subrange(0, j - (k + 1));
        let ghost upto = tail.subrange(0, j + 1 - (k + 1));
        proof {
            assert(upto.drop_last() =~= before);
            assert(upto.last() == c);
        }
        match subject_from_char(c) {
            Some(x) => {
                destinations.push(x);
            },
            None => {
                let bad = mode_spec.substring_char(j, j + 1);
                proof {
                    assert(decode_targets(upto) == Err::<Seq<Subject>, char>(c));
                    lemma_decode_error_extends(tail, j + 1 - (k + 1));
                    assert(spec_parse(mode_spec@) == Err::<(Subject, Seq<Subject>), ParseFault>(
                        ParseFault::Unknown(seq![c]),
                    ));
                    assert(bad@ =~= seq![c]);
                }
                let err = ParseError::UnknownSubject(String::from_str(bad));
                return Err(err);
            },
        }
        j = j + 1;
    }
    proof {
        assert(tail.subrange(0, j - (k + 1)) =~= tail);
    }
    Ok(TransferSpec { source, destinations })
}

} // verus!
