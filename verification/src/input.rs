use vstd::prelude::*;

verus! {

/// The byte value of the letter `y`.
pub const YES_LOWER: u8 = 121;

/// The byte value of the letter `Y`.
pub const YES_UPPER: u8 = 89;

/// Whether a byte is ASCII whitespace: space, tab, line feed or carriage
/// return.
pub open spec fn spec_is_ws(b: u8) -> bool {
    b == 32 || b == 9 || b == 10 || b == 13
}

/// The byte sequence with its leading ASCII whitespace removed.
pub open spec fn spec_trim_start(s: Seq<u8>) -> Seq<u8>
    decreases s.len(),
{
    if s.len() > 0 && spec_is_ws(s[0]) {
        spec_trim_start(s.skip(1))
    } else {
        s
    }
}

/// The byte sequence with its trailing ASCII whitespace removed.
pub open spec fn spec_trim_end(s: Seq<u8>) -> Seq<u8>
    decreases s.len(),
{
    if s.len() > 0 && spec_is_ws(s.last()) {
        spec_trim_end(s.drop_last())
    } else {
        s
    }
}

/// The byte sequence with ASCII whitespace removed from both ends.
pub open spec fn spec_trim(s: Seq<u8>) -> Seq<u8> {
    spec_trim_end(spec_trim_start(s))
}

/// Whether an input line, once trimmed, is exactly the single byte `token`.
pub open spec fn spec_is_token(s: Seq<u8>, token: u8) -> bool {
    spec_trim(s) == seq![token]
}

/// Whether an input line is an affirmative answer: the single letter `y`,
/// in either case, surrounded by nothing but whitespace.
pub open spec fn spec_is_affirmative(s: Seq<u8>) -> bool {
    spec_is_token(s, YES_LOWER) || spec_is_token(s, YES_UPPER)
}

fn is_ws_byte(b: u8) -> (r: bool)
    ensures
        r == spec_is_ws(b),
{
    b == 32 || b == 9 || b == 10 || b == 13
}

/// Returns the single byte left by trimming the input, if trimming leaves
/// exactly one byte, and `None` otherwise.
pub fn single_trimmed_byte(input: &[u8]) -> (r: Option<u8>)
    ensures
        match r {
            Some(b) => spec_trim(input@) == seq![b],
            None => spec_trim(input@).len() != 1,
        },
{
    let n = input.len();
    let mut start: usize = 0;
    proof {
        assert(input@.skip(0) =~= input@);
    }
    while start < n && is_ws_byte(input[start])
        invariant
            n == input@.len(),
            start <= n,
            spec_trim_start(input@) == spec_trim_start(input@.skip(start as int)),
        decreases n - start,
    {
        proof {
            let s = input@.skip(start as int);
            assert(s[0] == input@[start as int]);
            assert(s.skip(1) =~= input@.skip(start as int + 1));
        }
        start = start + 1;
    }
    proof {
        let s = input@.skip(start as int);
        if start < n {
            assert(s[0] == input@[start as int]);
            assert(!spec_is_ws(s[0]));
        }
        assert(spec_trim_start(s) == s);
        assert(s =~= input@.subrange(start as int, n as int));
    }

    let mut end: usize = n;
    while end > start && is_ws_byte(input[end - 1])
        invariant
            n == input@.len(),
            start <= end <= n,
            spec_trim(input@) == spec_trim_end(input@.subrange(start as int, end as int)),
        decreases end,
    {
        proof {
            let s = input@.subrange(start as int, end as int);
            assert(s.last() == input@[end - 1]);
            assert(s.drop_last() =~= input@.subrange(start as int, end as int - 1));
        }
        end = end - 1;
    }
    proof {
        let s = input@.subrange(start as int, end as int);
        if end > start {
            assert(s.last() == input@[end - 1]);
            assert(!spec_is_ws(s.last()));
        }
        assert(spec_trim(input@) == s);
    }

    if end - start == 1 {
        proof {
            assert(spec_trim(input@) =~= seq![input@[start as int]]);
        }
        Some(input[start])
    } else {
        None
    }
}

/// Whether the input line, trimmed of surrounding whitespace, is the single
/// letter `y` or `Y`.
pub fn is_affirmative(input: &[u8]) -> (r: bool)
    ensures
        r == spec_is_affirmative(input@),
{
    proof {
        assert(seq![YES_LOWER].len() == 1 && seq![YES_LOWER][0] == YES_LOWER);
        assert(seq![YES_UPPER].len() == 1 && seq![YES_UPPER][0] == YES_UPPER);
    }
    match single_trimmed_byte(input) {
        Some(b) => {
            proof {
                assert(seq![b].len() == 1 && seq![b][0] == b);
                if spec_is_token(input@, YES_LOWER) {
                    assert(spec_trim(input@)[0] == YES_LOWER);
                }
                if spec_is_token(input@, YES_UPPER) {
                    assert(spec_trim(input@)[0] == YES_UPPER);
                }
            }
            b == YES_LOWER || b == YES_UPPER
        },
        None => false,
    }
}

} // verus!
