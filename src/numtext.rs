use vstd::prelude::*;

verus! {

/// The decimal digit character for `d < 10`.
pub open spec fn digit_char(d: nat) -> char {
    if d == 0 {
        '0'
    } else if d == 1 {
        '1'
    } else if d == 2 {
        '2'
    } else if d == 3 {
        '3'
    } else if d == 4 {
        '4'
    } else if d == 5 {
        '5'
    } else if d == 6 {
        '6'
    } else if d == 7 {
        '7'
    } else if d == 8 {
        '8'
    } else {
        '9'
    }
}

/// The decimal writing of `n`, without leading zeros.
pub open spec fn decimal(n: nat) -> Seq<char>
    decreases n,
{
    if n < 10 {
        seq![digit_char(n)]
    } else {
        decimal(n / 10).push(digit_char(n % 10))
    }
}

/// The value of a decimal digit character, if it is one.
pub open spec fn digit_value(c: char) -> Option<nat> {
    if '0' <= c && c <= '9' {
        Some((c as u32 - '0' as u32) as nat)
    } else {
        None
    }
}

/// The value of a non-empty run of decimal digits, read left to right.
pub open spec fn digits_value(s: Seq<char>) -> Option<nat>
    decreases s.len(),
{
    if s.len() == 0 {
        Some(0)
    } else {
        match (digits_value(s.drop_last()), digit_value(s.last())) {
            (Some(v), Some(d)) => Some(v * 10 + d),
            _ => None,
        }
    }
}

/// The text after an optional leading `+`.
pub open spec fn unsigned_body(s: Seq<char>) -> Seq<char> {
    if s.len() > 0 && s[0] == '+' {
        s.subrange(1, s.len() as int)
    } else {
        s
    }
}

/// What `usize::from_str` gives: an optional leading `+`, then at least one digit, and a value
/// that fits in `usize`.
pub open spec fn parsed_usize(s: Seq<char>) -> Option<nat> {
    let body = unsigned_body(s);
    if body.len() == 0 {
        None
    } else {
        match digits_value(body) {
            Some(v) => if v <= usize::MAX {
                Some(v)
            } else {
                None
            },
            None => None,
        }
    }
}

fn digit_of(d: u64) -> (c: char)
    requires
        d < 10,
    ensures
        c == digit_char(d as nat),
{
    if d == 0 {
        '0'
    } else if d == 1 {
        '1'
    } else if d == 2 {
        '2'
    } else if d == 3 {
        '3'
    } else if d == 4 {
        '4'
    } else if d == 5 {
        '5'
    } else if d == 6 {
        '6'
    } else if d == 7 {
        '7'
    } else if d == 8 {
        '8'
    } else {
        '9'
    }
}

/// The decimal digits of `n`.
pub fn decimal_chars(n: u64) -> (r: Vec<char>)
    ensures
        r@ == decimal(n as nat),
    decreases n,
{
    if n < 10 {
        let mut v: Vec<char> = Vec::new();
        v.push(digit_of(n));
        assert(v@ =~= seq![digit_char(n as nat)]);
        v
    } else {
        let mut v = decimal_chars(n / 10);
        v.push(digit_of(n % 10));
        v
    }
}

/// Parses an unsigned number as `usize::from_str` does.
pub fn parse_usize(s: &Vec<char>) -> (r: Option<usize>)
    ensures
        r matches Some(v) ==> parsed_usize(s@) == Some(v as nat),
        r is None ==> parsed_usize(s@) is None,
{
    let start: usize = if s.len() > 0 && s[0] == '+' { 1 } else { 0 };
    let ghost body = unsigned_body(s@);
    assert(body =~= s@.subrange(start as int, s@.len() as int));
    if start >= s.len() {
        return None;
    }
    let mut v: usize = 0;
    let mut i: usize = start;
    while i < s.len()
        invariant
            start <= i <= s@.len(),
            body == s@.subrange(start as int, s@.len() as int),
            body == unsigned_body(s@),
            digits_value(s@.subrange(start as int, i as int)) == Some(v as nat),
        decreases s@.len() - i,
    {
        let c = s[i];
        let ghost pre = s@.subrange(start as int, i as int);
        assert(s@.subrange(start as int, i + 1).drop_last() =~= pre);
        assert(body.subrange(0, (i - start) as int) =~= pre);
        assert(body[(i - start) as int] == c);
        if !('0' <= c && c <= '9') {
            proof {
                lemma_bad_digit_rejects(body, (i - start) as int);
                assert(parsed_usize(s@) is None);
            }
            return None;
        }
        let d = (c as u32 - '0' as u32) as usize;
        assert(d < 10);
        if v > (usize::MAX - d) / 10 {
            proof {
                let q = ((usize::MAX - d) / 10) as int;
                assert(v as int * 10 + d as int > usize::MAX) by (nonlinear_arith)
                    requires
                        v as int >= q + 1,
                        q == (usize::MAX - d as int) / 10,
                        0 <= d < 10,
                {
                }
                lemma_too_large_rejects(body, (i - start) as int, v as nat, d as nat);
                assert(parsed_usize(s@) is None);
            }
            return None;
        }
        assert(v as int * 10 + d as int <= usize::MAX) by (nonlinear_arith)
            requires
                v as int <= (usize::MAX - d as int) / 10,
                0 <= d < 10,
        {
        }
        v = v * 10 + d;
        i = i + 1;
    }
    assert(s@.subrange(start as int, i as int) =~= body);
    Some(v)
}

proof fn lemma_prefix_none(s: Seq<char>, k: int)
    requires
        0 <= k <= s.len(),
        digits_value(s.subrange(0, k)) is None,
    ensures
        digits_value(s) is None,
    decreases s.len() - k,
{
    if k < s.len() {
        assert(s.subrange(0, k + 1).drop_last() =~= s.subrange(0, k));
        lemma_prefix_none(s, k + 1);
    } else {
        assert(s.subrange(0, k) =~= s);
    }
}

proof fn lemma_bad_digit_rejects(body: Seq<char>, k: int)
    requires
        0 <= k < body.len(),
        digit_value(body[k]) is None,
    ensures
        digits_value(body) is None,
{
    assert(body.subrange(0, k + 1).last() == body[k]);
    lemma_prefix_none(body, k + 1);
}

proof fn lemma_grows(s: Seq<char>, k: int, v: nat)
    requires
        0 <= k <= s.len(),
        digits_value(s.subrange(0, k)) == Some(v),
        digits_value(s) is Some,
    ensures
        digits_value(s)->0 >= v,
    decreases s.len() - k,
{
    if k < s.len() {
        assert(s.subrange(0, k + 1).drop_last() =~= s.subrange(0, k));
        if digits_value(s.subrange(0, k + 1)) is None {
            lemma_prefix_none(s, k + 1);
        } else {
            let w = digits_value(s.subrange(0, k + 1))->0;
            assert(w >= v * 10) by (nonlinear_arith)
                requires
                    w >= v * 10,
            {
            }
            assert(v * 10 >= v) by (nonlinear_arith);
            lemma_grows(s, k + 1, w);
        }
    } else {
        assert(s.subrange(0, k) =~= s);
    }
}

proof fn lemma_too_large_rejects(body: Seq<char>, k: int, v: nat, d: nat)
    requires
        0 <= k < body.len(),
        digits_value(body.subrange(0, k)) == Some(v),
        digit_value(body[k]) == Some(d),
        v * 10 + d > usize::MAX,
    ensures
        !(digits_value(body) matches Some(w) && w <= usize::MAX),
{
    assert(body.subrange(0, k + 1).drop_last() =~= body.subrange(0, k));
    assert(body.subrange(0, k + 1).last() == body[k]);
    if digits_value(body) is Some {
        lemma_grows(body, k + 1, v * 10 + d);
    }
}

} // verus!
