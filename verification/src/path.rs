//! Derivation-path strings: slash-separated decimal child indices, a
//! trailing apostrophe marking a hardened step, a leading `m` segment
//! ignored. Each index must stay below 2^31 before the hardened bit is
//! applied; anything else is a syntax error.
use vstd::prelude::*;

use crate::HdError;

verus! {

/// One step of a derivation path.
#[derive(Clone, Copy, PartialEq, Eq, Structural, Debug)]
pub struct PathStep {
    pub index: u32,
    pub hardened: bool,
}

/// How one path segment reads: the `m` marker, a step, or garbage.
#[derive(Clone, Copy, PartialEq, Eq, Structural, Debug)]
pub enum SegRead {
    Skip,
    Step(PathStep),
    Bad,
}

/// Whether a character is a decimal digit.
pub open spec fn is_digit(c: char) -> bool {
    48 <= (c as u32) <= 57
}

/// The value of a decimal digit.
pub open spec fn digit_val(c: char) -> int {
    (c as u32) - 48
}

/// Whether every character of a sequence is a decimal digit.
pub open spec fn all_digits(s: Seq<char>) -> bool {
    forall|i: int| 0 <= i < s.len() ==> is_digit(#[trigger] s[i])
}

/// The decimal value of a digit sequence.
pub open spec fn digits_val(s: Seq<char>) -> int
    decreases s.len(),
{
    if s.len() == 0 {
        0
    } else {
        digits_val(s.drop_last()) * 10 + digit_val(s.last())
    }
}

/// How a path segment reads: `m` is skipped; otherwise one or more digits,
/// optionally ending in an apostrophe, denoting an index below 2^31.
pub open spec fn seg_read(s: Seq<char>) -> SegRead {
    if s.len() == 1 && s[0] == 'm' {
        SegRead::Skip
    } else {
        let hardened = s.len() > 0 && s.last() == '\'';
        let d = if hardened {
            s.drop_last()
        } else {
            s
        };
        if d.len() > 0 && all_digits(d) && digits_val(d) < 0x80000000 {
            SegRead::Step(PathStep { index: digits_val(d) as u32, hardened })
        } else {
            SegRead::Bad
        }
    }
}

/// The steps of a path string, read segment by segment from position `i`
/// with the current segment's characters in `cur` and the steps read so far
/// in `acc`; `None` on the first bad segment.
pub open spec fn path_steps_from(
    s: Seq<char>,
    i: int,
    cur: Seq<char>,
    acc: Seq<PathStep>,
) -> Option<Seq<PathStep>>
    decreases s.len() - i,
{
    if i >= s.len() {
        match seg_read(cur) {
            SegRead::Bad => None,
            SegRead::Skip => Some(acc),
            SegRead::Step(st) => Some(acc.push(st)),
        }
    } else {
        if s[i] == '/' {
            match seg_read(cur) {
                SegRead::Bad => None,
                SegRead::Skip => path_steps_from(s, i + 1, Seq::empty(), acc),
                SegRead::Step(st) => path_steps_from(s, i + 1, Seq::empty(), acc.push(st)),
            }
        } else {
            path_steps_from(s, i + 1, cur.push(s[i]), acc)
        }
    }
}

/// The steps of a path string, or `None` when it is malformed.
pub open spec fn path_steps(s: Seq<char>) -> Option<Seq<PathStep>> {
    path_steps_from(s, 0, Seq::empty(), Seq::empty())
}

/// A digit sequence's value never shrinks as digits are appended.
proof fn lemma_digits_val_grows(s: Seq<char>, i: int)
    requires
        0 <= i < s.len(),
        digits_val(s.take(i)) >= 0,
        is_digit(s[i]),
    ensures
        digits_val(s.take(i + 1)) >= digits_val(s.take(i)),
        digits_val(s.take(i + 1)) == digits_val(s.take(i)) * 10 + digit_val(s[i]),
{
    assert(s.take(i + 1).drop_last() =~= s.take(i));
    assert(s.take(i + 1).last() == s[i]);
    let v = digits_val(s.take(i));
    assert(v * 10 + digit_val(s[i]) >= v) by (nonlinear_arith)
        requires
            v >= 0,
            digit_val(s[i]) >= 0,
    ;
}

/// Read one segment.
fn parse_segment(cur: &Vec<char>) -> (r: SegRead)
    ensures
        r == seg_read(cur@),
{
    let n = cur.len();
    if n == 1 && cur[0] == 'm' {
        return SegRead::Skip;
    }
    let hardened = n > 0 && cur[n - 1] == '\'';
    let dlen = if hardened {
        n - 1
    } else {
        n
    };
    let ghost d = if hardened {
        cur@.drop_last()
    } else {
        cur@
    };
    proof {
        assert(d =~= cur@.take(dlen as int));
    }
    if dlen == 0 {
        return SegRead::Bad;
    }
    let mut acc: u32 = 0;
    let mut big = false;
    let mut i: usize = 0;
    while i < dlen
        invariant
            1 <= dlen <= n == cur@.len(),
            i <= dlen,
            !(cur@.len() == 1 && cur@[0] == 'm'),
            hardened == (cur@.len() > 0 && cur@.last() == '\''),
            d == (if hardened {
                cur@.drop_last()
            } else {
                cur@
            }),
            d.len() == dlen,
            forall|q: int| 0 <= q < i ==> is_digit(#[trigger] d[q]),
            !big ==> acc == digits_val(d.take(i as int)) && acc < 0x80000000,
            big ==> digits_val(d.take(i as int)) >= 0x80000000,
        decreases dlen - i,
    {
        let c = cur[i];
        let cv = c as u32;
        if cv < 48 || cv > 57 {
            proof {
                assert(c == d[i as int]);
                assert(!all_digits(d));
            }
            return SegRead::Bad;
        }
        let dv = cv - 48;
        proof {
            lemma_digits_val_grows(d, i as int);
        }
        if !big {
            let next: u64 = acc as u64 * 10 + dv as u64;
            if next >= 0x80000000 {
                big = true;
            } else {
                acc = next as u32;
            }
        }
        i = i + 1;
    }
    proof {
        assert(d.take(dlen as int) =~= d);
    }
    if big {
        return SegRead::Bad;
    }
    SegRead::Step(PathStep { index: acc, hardened })
}

/// Parse a derivation path string, per `path_steps`.
pub fn parse_path(path: &str) -> (r: Result<Vec<PathStep>, HdError>)
    ensures
        match r {
            Ok(v) => path_steps(path@) == Some(v@),
            Err(e) => path_steps(path@) is None && e == HdError::PathSyntax,
        },
{
    let n = path.unicode_len();
    let mut cur: Vec<char> = Vec::new();
    let mut acc: Vec<PathStep> = Vec::new();
    let mut i: usize = 0;
    while i < n
        invariant
            i <= n,
            n == path@.len(),
            path_steps(path@) == path_steps_from(path@, i as int, cur@, acc@),
        decreases n - i,
    {
        let c = path.get_char(i);
        if c == '/' {
            match parse_segment(&cur) {
                SegRead::Bad => {
                    return Err(HdError::PathSyntax);
                },
                SegRead::Skip => {},
                SegRead::Step(st) => {
                    acc.push(st);
                },
            }
            cur.clear();
            proof {
                assert(cur@ =~= Seq::<char>::empty());
            }
        } else {
            cur.push(c);
        }
        i = i + 1;
    }
    match parse_segment(&cur) {
        SegRead::Bad => Err(HdError::PathSyntax),
        SegRead::Skip => Ok(acc),
        SegRead::Step(st) => {
            acc.push(st);
            Ok(acc)
        },
    }
}

} // verus!
