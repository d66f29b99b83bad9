//! The vanity-address heuristic: six classification codes checked in a fixed
//! priority order over a candidate address string, the first match winning.
use vstd::prelude::*;

use crate::bytesutil::hex_of;

verus! {

/// The number of distinct characters in a sequence.
pub open spec fn dcount(s: Seq<char>) -> nat {
    s.to_set().len()
}

/// The `k`-th eight-character chunk; the last chunk may be shorter.
pub open spec fn chunk_of(s: Seq<char>, k: int) -> Seq<char> {
    s.subrange(
        8 * k,
        if 8 * k + 8 <= s.len() {
            8 * k + 8
        } else {
            s.len() as int
        },
    )
}

/// How many chunks the sequence splits into.
pub open spec fn num_chunks(s: Seq<char>) -> int {
    (s.len() + 7) as int / 8
}

/// Whether some chunk has fewer than three distinct characters.
pub open spec fn has_low_chunk(s: Seq<char>) -> bool {
    exists|k: int| 0 <= k < num_chunks(s) && dcount(#[trigger] chunk_of(s, k)) < 3
}

/// The fixed keyword prefixes.
pub open spec fn keyword_list() -> Seq<Seq<char>> {
    seq![
        seq!['a', 'b', 'c', 'a', 'b', 'c', 'a'],
        seq!['1', '2', '3', '4', '3', '2', '1'],
        seq!['0', '1', '2', '3', '4', '5', '6'],
        seq!['1', '2', '3', '4', '5', '6', '7'],
        seq!['2', '3', '4', '5', '6', '7', '8'],
        seq!['3', '4', '5', '6', '7', '8', '9'],
        seq!['4', '5', '6', '7', '8', '9', '0'],
    ]
}

/// Whether a prefix equals one of the fixed keywords.
pub open spec fn is_keyword(p: Seq<char>) -> bool {
    exists|k: int| 0 <= k < keyword_list().len() && #[trigger] keyword_list()[k] == p
}

/// Whether a character is a decimal digit.
pub open spec fn is_dec(c: char) -> bool {
    48 <= (c as u32) <= 57
}

/// Whether a character is a lowercase hex letter.
pub open spec fn is_hex_letter(c: char) -> bool {
    97 <= (c as u32) <= 102
}

/// Whether every character is a decimal digit.
pub open spec fn all_dec(s: Seq<char>) -> bool {
    forall|i: int| 0 <= i < s.len() ==> is_dec(#[trigger] s[i])
}

/// Whether every character is a lowercase hex letter.
pub open spec fn all_hex_letters(s: Seq<char>) -> bool {
    forall|i: int| 0 <= i < s.len() ==> is_hex_letter(#[trigger] s[i])
}

/// Whether one rule, named by its code, matches an address.
pub open spec fn rule_matches(s: Seq<char>, code: u8) -> bool {
    if code == 1 {
        has_low_chunk(s)
    } else if code == 2 {
        is_keyword(s.take(7))
    } else if code == 3 {
        dcount(s.take(7)) < 3
    } else if code == 4 {
        dcount(s) < 6
    } else if code == 5 {
        all_dec(s) || all_hex_letters(s)
    } else {
        false
    }
}

/// The classification code of an address: the rules in priority order, the
/// first match winning, zero when none matches.
pub open spec fn classify(s: Seq<char>) -> u8
    recommends
        s.len() >= 7,
{
    if has_low_chunk(s) {
        1
    } else if is_keyword(s.take(7)) {
        2
    } else if dcount(s.take(7)) < 3 {
        3
    } else if dcount(s) < 6 {
        4
    } else if all_dec(s) || all_hex_letters(s) {
        5
    } else {
        0
    }
}

/// The classifier always reports the lowest-numbered matching rule: whenever
/// some rule matches, the reported code matches too and no smaller positive
/// code does better.
pub proof fn lemma_classify_lowest(s: Seq<char>, code: u8)
    requires
        1 <= code <= 5,
        rule_matches(s, code),
    ensures
        1 <= classify(s) <= code,
        rule_matches(s, classify(s)),
{
}

/// The classifier reports zero exactly when no rule matches.
pub proof fn lemma_classify_none(s: Seq<char>)
    ensures
        classify(s) == 0 <==> (forall|c: u8| 1 <= c <= 5 ==> !#[trigger] rule_matches(s, c)),
{
    if classify(s) != 0 {
        assert(rule_matches(s, classify(s)));
    }
}

/// Extending a prefix by one character extends its character set by that
/// character.
proof fn lemma_take_to_set_step(s: Seq<char>, i: int)
    requires
        0 <= i < s.len(),
    ensures
        s.take(i + 1).to_set() == s.take(i).to_set().insert(s[i]),
        s.take(i).to_set().contains(s[i]) <==> (exists|j: int| 0 <= j < i && #[trigger] s[j] == s[i]),
        s.take(i).to_set().finite(),
        s.take(i + 1).to_set().finite(),
{
    broadcast use vstd::set::group_set_axioms, vstd::seq_lib::seq_to_set_is_finite;

    assert forall|x: char| #[trigger]
        s.take(i + 1).to_set().contains(x) implies s.take(i).to_set().insert(s[i]).contains(
        x,
    ) by {
        let j = choose|j: int| 0 <= j < i + 1 && #[trigger] s.take(i + 1)[j] == x;
        if j < i {
            assert(s.take(i)[j] == x);
            assert(s.take(i).contains(x));
        }
    }
    assert forall|x: char| #[trigger]
        s.take(i).to_set().insert(s[i]).contains(x) implies s.take(i + 1).to_set().contains(
        x,
    ) by {
        if s.take(i).to_set().contains(x) {
            let j = choose|j: int| 0 <= j < i && #[trigger] s.take(i)[j] == x;
            assert(s.take(i + 1)[j] == x);
            assert(s.take(i + 1).contains(x));
        } else {
            assert(x == s[i]);
            assert(s.take(i + 1)[i] == x);
            assert(s.take(i + 1).contains(x));
        }
    }
    assert(s.take(i + 1).to_set() =~= s.take(i).to_set().insert(s[i]));
    if s.take(i).to_set().contains(s[i]) {
        let j = choose|j: int| 0 <= j < i && #[trigger] s.take(i)[j] == s[i];
        assert(s[j] == s[i]);
    }
    if exists|j: int| 0 <= j < i && #[trigger] s[j] == s[i] {
        let j = choose|j: int| 0 <= j < i && #[trigger] s[j] == s[i];
        assert(s.take(i)[j] == s[i]);
        assert(s.take(i).contains(s[i]));
    }
}

/// Count the distinct characters of `v` between `from` and `to`.
pub fn distinct_in(v: &Vec<char>, from: usize, to: usize) -> (r: usize)
    requires
        from <= to <= v@.len(),
    ensures
        r == dcount(v@.subrange(from as int, to as int)),
{
    broadcast use vstd::set::group_set_axioms, vstd::seq_lib::seq_to_set_is_finite;

    let ghost sub = v@.subrange(from as int, to as int);
    let mut count: usize = 0;
    let mut i: usize = 0;
    proof {
        assert(sub.take(0) =~= Seq::<char>::empty());
        assert(Seq::<char>::empty().to_set() =~= Set::<char>::empty());
    }
    while i < to - from
        invariant
            from <= to <= v@.len(),
            sub == v@.subrange(from as int, to as int),
            sub.len() == to - from,
            i <= to - from,
            count <= i,
            count == sub.take(i as int).to_set().len(),
            sub.take(i as int).to_set().finite(),
        decreases to - from - i,
    {
        broadcast use vstd::set::group_set_axioms, vstd::seq_lib::seq_to_set_is_finite;

        let c = v[from + i];
        proof {
            assert(c == sub[i as int]);
        }
        let mut seen = false;
        let mut j: usize = 0;
        while j < i
            invariant
                j <= i,
                i < sub.len(),
                sub.len() == to - from,
                from <= to <= v@.len(),
                sub == v@.subrange(from as int, to as int),
                c == sub[i as int],
                seen <==> (exists|q: int| 0 <= q < j && #[trigger] sub[q] == sub[i as int]),
            decreases i - j,
        {
            if v[from + j] == c {
                proof {
                    assert(sub[j as int] == sub[i as int]);
                }
                seen = true;
            }
            j = j + 1;
        }
        proof {
            lemma_take_to_set_step(sub, i as int);
        }
        if !seen {
            count = count + 1;
        }
        i = i + 1;
    }
    proof {
        assert(sub.take((to - from) as int) =~= sub);
    }
    count
}

/// The fixed tables the heuristic consults: the hex alphabets and the
/// keyword prefixes.
pub struct BeautyAddressCheck {
    pub hex_letters: Vec<char>,
    pub hex_numbers: Vec<char>,
    pub hex_all_chars: Vec<char>,
    pub keywords: Vec<String>,
}

impl BeautyAddressCheck {
    /// The tables hold exactly the fixed alphabets and keywords.
    pub open spec fn wf(&self) -> bool {
        &&& self.hex_letters@ == seq!['a', 'b', 'c', 'd', 'e', 'f']
        &&& self.hex_numbers@ == seq!['0', '1', '2', '3', '4', '5', '6', '7', '8', '9']
        &&& self.hex_all_chars@ == seq!['0', '1', '2', '3', '4', '5', '6', '7', '8', '9', 'a', 'b',
            'c', 'd', 'e', 'f']
        &&& self.keywords@.len() == 7
        &&& forall|k: int| 0 <= k < 7 ==> #[trigger] self.keywords@[k]@ == keyword_list()[k]
    }

    pub fn new() -> (r: Self)
        ensures
            r.wf(),
    {
        let keywords: Vec<String> = vec![
            String::from_str("abcabca"),
            String::from_str("1234321"),
            String::from_str("0123456"),
            String::from_str("1234567"),
            String::from_str("2345678"),
            String::from_str("3456789"),
            String::from_str("4567890"),
        ];
        proof {
            reveal_strlit("abcabca");
            reveal_strlit("1234321");
            reveal_strlit("0123456");
            reveal_strlit("1234567");
            reveal_strlit("2345678");
            reveal_strlit("3456789");
            reveal_strlit("4567890");
            assert(keywords@[0]@ =~= keyword_list()[0]);
            assert(keywords@[1]@ =~= keyword_list()[1]);
            assert(keywords@[2]@ =~= keyword_list()[2]);
            assert(keywords@[3]@ =~= keyword_list()[3]);
            assert(keywords@[4]@ =~= keyword_list()[4]);
            assert(keywords@[5]@ =~= keyword_list()[5]);
            assert(keywords@[6]@ =~= keyword_list()[6]);
        }
        let r = Self {
            hex_letters: vec!['a', 'b', 'c', 'd', 'e', 'f'],
            hex_numbers: vec!['0', '1', '2', '3', '4', '5', '6', '7', '8', '9'],
            hex_all_chars: vec!['0', '1', '2', '3', '4', '5', '6', '7', '8', '9', 'a', 'b', 'c',
                'd', 'e', 'f'],
            keywords,
        };
        r
    }

    /// Classify an address, per `classify`. The caller guarantees a
    /// well-formed address of at least seven characters, as the heuristic's
    /// upstream always produces 64-character hex strings.
    pub fn rule_beauty_address(&self, address: &str) -> (r: u8)
        requires
            self.wf(),
            address@.len() >= 7,
        ensures
            r == classify(address@),
    {
        let n = address.unicode_len();
        let mut chars: Vec<char> = Vec::new();
        let mut i: usize = 0;
        while i < n
            invariant
                i <= n,
                n == address@.len(),
                chars@ =~= address@.take(i as int),
            decreases n - i,
        {
            let c = address.get_char(i);
            chars.push(c);
            i = i + 1;
        }
        proof {
            assert(address@.take(n as int) =~= address@);
            assert(chars@ =~= address@);
        }

        // Rule 1: a chunk with fewer than three distinct characters.
        let nchunks = n / 8 + (if n % 8 == 0 {
            0
        } else {
            1
        });
        proof {
            assert(nchunks == num_chunks(address@));
        }
        let mut k: usize = 0;
        while k < nchunks
            invariant
                n == address@.len(),
                chars@ == address@,
                nchunks == num_chunks(address@),
                k <= nchunks,
                forall|q: int| 0 <= q < k ==> dcount(#[trigger] chunk_of(address@, q)) >= 3,
            decreases nchunks - k,
        {
            let lo = 8 * k;
            let hi = if n - lo >= 8 {
                lo + 8
            } else {
                n
            };
            let d = distinct_in(&chars, lo, hi);
            proof {
                assert(chars@.subrange(lo as int, hi as int) == chunk_of(address@, k as int));
            }
            if d < 3 {
                return 1;
            }
            k = k + 1;
        }
        proof {
            assert(!has_low_chunk(address@));
        }

        // Rule 2: a keyword prefix.
        let mut w: usize = 0;
        while w < self.keywords.len()
            invariant
                self.wf(),
                n == address@.len() >= 7,
                chars@ == address@,
                !has_low_chunk(address@),
                w <= self.keywords@.len(),
                forall|q: int| 0 <= q < w ==> #[trigger] keyword_list()[q] != address@.take(7),
            decreases self.keywords@.len() - w,
        {
            let kw = &self.keywords[w];
            let mut all_eq = true;
            let mut j: usize = 0;
            while j < 7
                invariant
                    self.wf(),
                    w < self.keywords@.len(),
                    kw == self.keywords@[w as int],
                    n == address@.len() >= 7,
                    chars@ == address@,
                    j <= 7,
                    all_eq <==> (forall|q: int|
                        0 <= q < j ==> #[trigger] kw@[q] == address@.take(7)[q]),
                decreases 7 - j,
            {
                proof {
                    assert(kw@ == keyword_list()[w as int]);
                    assert(kw@.len() == 7);
                }
                let kc = kw.as_str().get_char(j);
                let ac = chars[j];
                if kc != ac {
                    proof {
                        assert(kw@[j as int] != address@.take(7)[j as int]);
                    }
                    all_eq = false;
                }
                j = j + 1;
            }
            if all_eq {
                proof {
                    assert(kw@ == keyword_list()[w as int]);
                    assert(kw@.len() == 7);
                    assert(kw@ =~= address@.take(7));
                    assert(is_keyword(address@.take(7)));
                }
                return 2;
            }
            proof {
                if keyword_list()[w as int] == address@.take(7) {
                    assert(kw@ == address@.take(7));
                    assert(forall|q: int| 0 <= q < 7 ==> #[trigger] kw@[q] == address@.take(7)[q]);
                }
            }
            w = w + 1;
        }
        proof {
            assert(!is_keyword(address@.take(7)));
        }

        // Rule 3: a low-entropy prefix.
        let d7 = distinct_in(&chars, 0, 7);
        proof {
            assert(chars@.subrange(0, 7) == address@.take(7));
        }
        if d7 < 3 {
            return 3;
        }

        // Rule 4: a low-entropy whole address.
        let dall = distinct_in(&chars, 0, n);
        proof {
            assert(chars@.subrange(0, n as int) =~= address@);
        }
        if dall < 6 {
            return 4;
        }

        // Rule 5: a single character class.
        let mut only_dec = true;
        let mut only_letters = true;
        let mut p: usize = 0;
        while p < n
            invariant
                n == address@.len(),
                chars@ == address@,
                p <= n,
                only_dec <==> (forall|q: int| 0 <= q < p ==> is_dec(#[trigger] address@[q])),
                only_letters <==> (forall|q: int|
                    0 <= q < p ==> is_hex_letter(#[trigger] address@[q])),
            decreases n - p,
        {
            let cv = chars[p] as u32;
            if cv < 48 || cv > 57 {
                only_dec = false;
            }
            if cv < 97 || cv > 102 {
                only_letters = false;
            }
            p = p + 1;
        }
        if only_dec || only_letters {
            return 5;
        }
        0
    }
}

/// Classifying a hex-encoded 32-byte account id is always possible: the
/// encoding is 64 characters long, well above the seven the rules read.
pub proof fn lemma_hex_address_long_enough(b: Seq<u8>)
    requires
        b.len() == 32,
    ensures
        hex_of(b).len() == 64,
{
}

} // verus!
