//! Command-line argument parsing: three required positional integers,
//! `samples`, `iterations` and `vec_len`, each a decimal numeral.

use vstd::prelude::*;

verus! {

/// The run's parameters as given on the command line.
#[derive(Clone, Copy, Debug, PartialEq, Eq, Structural)]
pub struct Config {
    pub samples: usize,
    pub iterations: usize,
    pub vec_len: usize,
}

/// Why a command line was rejected: each required argument can be missing
/// or fail to parse as an integer.
#[derive(Clone, Copy, Debug, PartialEq, Eq, Structural)]
pub enum ArgError {
    MissingSamples,
    MissingIterations,
    MissingVecLen,
    InvalidSamples,
    InvalidIterations,
    InvalidVecLen,
}

impl ArgError {
    /// The diagnostic printed for this error.
    pub open spec fn message_spec(self) -> Seq<char> {
        match self {
            ArgError::MissingSamples => "provide the number of samples"@,
            ArgError::MissingIterations => "provide the number of iterations"@,
            ArgError::MissingVecLen => "provide the length of the vector to sum"@,
            ArgError::InvalidSamples => "the number of iterations should be an integer"@,
            ArgError::InvalidIterations => "the number of iterations should be an integer"@,
            ArgError::InvalidVecLen => "the length of the vector should be an integer"@,
        }
    }

    /// The diagnostic printed for this error.
    pub fn message(&self) -> (r: String)
        ensures
            r@ == self.message_spec(),
    {
        match self {
            ArgError::MissingSamples => "provide the number of samples".to_owned(),
            ArgError::MissingIterations => "provide the number of iterations".to_owned(),
            ArgError::MissingVecLen => "provide the length of the vector to sum".to_owned(),
            ArgError::InvalidSamples => "the number of iterations should be an integer".to_owned(),
            ArgError::InvalidIterations => "the number of iterations should be an integer"
                .to_owned(),
            ArgError::InvalidVecLen => "the length of the vector should be an integer".to_owned(),
        }
    }
}

/// ASCII decimal digit.
pub open spec fn is_digit_byte(b: u8) -> bool {
    48 <= b <= 57
}

/// The digits of a numeral after an optional leading `+` sign (byte 43).
pub open spec fn numeral_body(s: Seq<u8>) -> Seq<u8> {
    if s.len() >= 1 && s[0] == 43 {
        s.drop_first()
    } else {
        s
    }
}

/// A numeral: an optional `+` sign followed by at least one decimal digit.
pub open spec fn is_numeral(s: Seq<u8>) -> bool {
    &&& numeral_body(s).len() >= 1
    &&& forall|i: int| 0 <= i < numeral_body(s).len() ==> is_digit_byte(#[trigger] numeral_body(s)[i])
}

/// The value of a sequence of decimal digits, most significant first.
pub open spec fn digits_value(s: Seq<u8>) -> int
    decreases s.len(),
{
    if s.len() == 0 {
        0
    } else {
        digits_value(s.drop_last()) * 10 + (s.last() - 48)
    }
}

/// A numeral parses to a machine word exactly when its digits' value fits.
pub open spec fn parses_to_usize(s: Seq<u8>) -> bool {
    is_numeral(s) && digits_value(numeral_body(s)) <= usize::MAX
}

/// Extending a digit prefix multiplies its value by ten and adds the digit.
proof fn lemma_digits_value_take_step(s: Seq<u8>, i: int)
    requires
        0 <= i < s.len(),
    ensures
        digits_value(s.take(i + 1)) == digits_value(s.take(i)) * 10 + (s[i] - 48),
{
    assert(s.take(i + 1).drop_last() =~= s.take(i));
    assert(s.take(i + 1).last() == s[i]);
}

/// The value of a digit sequence is nonnegative.
proof fn lemma_digits_value_nonneg(s: Seq<u8>)
    requires
        forall|i: int| 0 <= i < s.len() ==> is_digit_byte(#[trigger] s[i]),
    ensures
        digits_value(s) >= 0,
    decreases s.len(),
{
    if s.len() > 0 {
        assert(forall|i: int|
            0 <= i < s.drop_last().len() ==> is_digit_byte(#[trigger] s.drop_last()[i]));
        lemma_digits_value_nonneg(s.drop_last());
    }
}

/// Among digits, a prefix's value never exceeds the whole sequence's value.
proof fn lemma_digits_value_take_le(s: Seq<u8>, i: int)
    requires
        0 <= i <= s.len(),
        forall|k: int| 0 <= k < s.len() ==> is_digit_byte(#[trigger] s[k]),
    ensures
        digits_value(s.take(i)) <= digits_value(s),
    decreases s.len() - i,
{
    if i == s.len() {
        assert(s.take(i) =~= s);
    } else {
        lemma_digits_value_take_step(s, i);
        assert(forall|k: int|
            0 <= k < s.take(i).len() ==> is_digit_byte(#[trigger] s.take(i)[k]));
        lemma_digits_value_nonneg(s.take(i));
        lemma_digits_value_take_le(s, i + 1);
    }
}

/// Parse a decimal numeral, exactly as much as a machine word can hold:
/// `None` on an empty or malformed numeral and on a value that does not fit.
pub fn parse_usize(s: &Vec<u8>) -> (r: Option<usize>)
    ensures
        r.is_some() <==> parses_to_usize(s@),
        r.is_some() ==> r.unwrap() == digits_value(numeral_body(s@)),
{
    let ghost body = numeral_body(s@);
    if s.len() == 0 {
        return None;
    }
    let start: usize = if s[0] == 43 {
        1
    } else {
        0
    };
    proof {
        assert(body =~= s@.skip(start as int));
    }
    if s.len() == start {
        return None;
    }
    let mut acc: usize = 0;
    let mut i: usize = start;
    while i < s.len()
        invariant
            start <= i <= s@.len(),
            body == numeral_body(s@),
            body == s@.skip(start as int),
            body.len() == s@.len() - start,
            forall|k: int| 0 <= k < i - start ==> is_digit_byte(#[trigger] body[k]),
            acc == digits_value(body.take(i - start)),
            acc <= usize::MAX,
        decreases s@.len() - i,
    {
        let b = s[i];
        if b < 48 || b > 57 {
            proof {
                assert(numeral_body(s@)[i - start] == s@[i as int]);
                assert(!is_digit_byte(numeral_body(s@)[i - start]));
                assert(!is_numeral(s@));
            }
            return None;
        }
        let d = (b - 48) as usize;
        proof {
            assert(body[i - start] == s@[i as int]);
            lemma_digits_value_take_step(body, i - start);
        }
        if acc > (usize::MAX - d) / 10 {
            proof {
                assert(acc * 10 + d > usize::MAX) by (nonlinear_arith)
                    requires
                        acc > (usize::MAX - d) / 10,
                        0 <= d <= 9,
                        0 <= acc,
                ;
                if is_numeral(s@) {
                    assert(forall|k: int|
                        0 <= k < body.len() ==> is_digit_byte(#[trigger] body[k]));
                    lemma_digits_value_take_le(body, i - start + 1);
                    assert(digits_value(numeral_body(s@)) > usize::MAX);
                }
            }
            return None;
        }
        proof {
            assert(acc * 10 + d <= usize::MAX) by (nonlinear_arith)
                requires
                    acc <= (usize::MAX - d) / 10,
                    0 <= d <= 9,
                    0 <= acc,
            ;
        }
        acc = acc * 10 + d;
        i = i + 1;
    }
    proof {
        assert(body.take(body.len() as int) =~= body);
    }
    Some(acc)
}

/// What `parse_args` returns for a given command line (the program name
/// already stripped): the arguments are examined left to right, each first
/// for presence and then for being a numeral that fits a machine word.
pub open spec fn parse_args_spec(args: Seq<Seq<u8>>) -> Result<Config, ArgError> {
    if args.len() < 1 {
        Err(ArgError::MissingSamples)
    } else if !parses_to_usize(args[0]) {
        Err(ArgError::InvalidSamples)
    } else if args.len() < 2 {
        Err(ArgError::MissingIterations)
    } else if !parses_to_usize(args[1]) {
        Err(ArgError::InvalidIterations)
    } else if args.len() < 3 {
        Err(ArgError::MissingVecLen)
    } else if !parses_to_usize(args[2]) {
        Err(ArgError::InvalidVecLen)
    } else {
        Ok(
            (Config {
                samples: digits_value(numeral_body(args[0])) as usize,
                iterations: digits_value(numeral_body(args[1])) as usize,
                vec_len: digits_value(numeral_body(args[2])) as usize,
            }),
        )
    }
}

/// Parse the command line (without the program name) into a `Config`, or
/// report the first missing or malformed argument.
pub fn parse_args(args: &Vec<Vec<u8>>) -> (r: Result<Config, ArgError>)
    ensures
        r == parse_args_spec(args.deep_view()),
{
    proof {
        assert(args.deep_view().len() == args@.len());
        assert(forall|i: int|
            0 <= i < args@.len() ==> #[trigger] args.deep_view()[i] =~= args@[i]@);
    }
    if args.len() < 1 {
        return Err(ArgError::MissingSamples);
    }
    let samples = match parse_usize(&args[0]) {
        Some(v) => v,
        None => {
            return Err(ArgError::InvalidSamples);
        },
    };
    if args.len() < 2 {
        return Err(ArgError::MissingIterations);
    }
    let iterations = match parse_usize(&args[1]) {
        Some(v) => v,
        None => {
            return Err(ArgError::InvalidIterations);
        },
    };
    if args.len() < 3 {
        return Err(ArgError::MissingVecLen);
    }
    let vec_len = match parse_usize(&args[2]) {
        Some(v) => v,
        None => {
            return Err(ArgError::InvalidVecLen);
        },
    };
    Ok(Config { samples, iterations, vec_len })
}

} // verus!
