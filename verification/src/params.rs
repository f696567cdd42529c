//! Run parameters, read from an argument list.

use vstd::prelude::*;
use vstd::pervasive::unreached;

verus! {

/// The resolved run parameters: how many documents to produce, where the
/// schema comes from, where output goes.
#[derive(Debug)]
pub struct Params {
    pub count: u32,
    pub schema_from_file: Option<String>,
    pub output_file: Option<String>,
}

/// The mathematical image of [`Params`].
pub struct ParamsView {
    pub count: u32,
    pub schema_from_file: Option<Seq<char>>,
    pub output_file: Option<Seq<char>>,
}

impl View for Params {
    type V = ParamsView;

    open spec fn view(&self) -> ParamsView {
        ParamsView {
            count: self.count,
            schema_from_file: match self.schema_from_file {
                Some(s) => Some(s@),
                None => None,
            },
            output_file: match self.output_file {
                Some(s) => Some(s@),
                None => None,
            },
        }
    }
}

/// A decimal digit.
pub open spec fn dec_digit(c: char) -> bool {
    '0' <= c && c <= '9'
}

/// The number a character sequence denotes when read as decimal digits from
/// the left.
pub open spec fn dec_value(s: Seq<char>) -> int
    decreases s.len(),
{
    if s.len() == 0 {
        0
    } else {
        dec_value(s.drop_last()) * 10 + (s.last() as int - '0' as int)
    }
}

/// What parsing a `u32` from decimal text yields: the denoted number when
/// the text is nonempty, all digits, and in range; nothing otherwise.
pub open spec fn parse_u32_spec(s: Seq<char>) -> Option<u32> {
    if s.len() > 0 && (forall|i: int| 0 <= i < s.len() ==> dec_digit(#[trigger] s[i]))
        && dec_value(s) <= u32::MAX {
        Some(dec_value(s) as u32)
    } else {
        None
    }
}

/// Once a digit prefix already exceeds the range, no digit continuation
/// comes back into it.
proof fn lemma_dec_value_grows(s: Seq<char>, j: int)
    requires
        0 <= j <= s.len(),
        dec_value(s.subrange(0, j)) > u32::MAX,
        forall|k: int| j <= k < s.len() ==> dec_digit(#[trigger] s[k]),
    ensures
        dec_value(s) > u32::MAX,
    decreases s.len() - j,
{
    if j == s.len() {
        assert(s.subrange(0, j) =~= s);
    } else {
        let extended = s.subrange(0, j + 1);
        assert(extended.drop_last() =~= s.subrange(0, j));
        assert(extended.last() == s[j]);
        assert(dec_digit(s[j]));
        assert(s[j] as int - '0' as int >= 0);
        assert(dec_value(extended) == dec_value(s.subrange(0, j)) * 10 + (s[j] as int - '0' as int));
        assert(dec_value(extended) > u32::MAX);
        lemma_dec_value_grows(s, j + 1);
    }
}

/// Parses a `u32` from decimal text: the denoted number when the text is
/// nonempty, all digits, and within range, and nothing otherwise.
pub fn parse_u32(s: &str) -> (r: Option<u32>)
    ensures
        r == parse_u32_spec(s@),
{
    let n = s.unicode_len();
    if n == 0 {
        return None;
    }
    let mut acc: u32 = 0;
    let mut i: usize = 0;
    while i < n
        invariant
            n == s@.len(),
            0 < n,
            0 <= i <= n,
            forall|k: int| 0 <= k < i ==> dec_digit(#[trigger] s@[k]),
            acc == dec_value(s@.subrange(0, i as int)),
        decreases n - i,
    {
        let c = s.get_char(i);
        if c < '0' || c > '9' {
            return None;
        }
        let d: u32 = (c as u32) - 48;
        proof {
            assert(s@.subrange(0, i + 1).drop_last() =~= s@.subrange(0, i as int));
            assert(s@.subrange(0, i + 1).last() == s@[i as int]);
        }
        if acc > (u32::MAX - d) / 10 {
            proof {
                assert(10 * ((4294967295u32 - d) / 10) + 9 >= 4294967295 - d);
                assert(dec_value(s@.subrange(0, i + 1)) > u32::MAX);
                if forall|k: int| 0 <= k < s@.len() ==> dec_digit(#[trigger] s@[k]) {
                    lemma_dec_value_grows(s@, i + 1);
                }
            }
            return None;
        }
        proof {
            assert(10 * ((4294967295u32 - d) / 10) <= 4294967295 - d);
        }
        acc = acc * 10 + d;
        i = i + 1;
    }
    proof {
        assert(s@.subrange(0, i as int) =~= s@);
    }
    Some(acc)
}

/// Every `--count` flag at an even position carries a value that parses as
/// a `u32` — what [`Params::parse`] requires of its argument list.
pub open spec fn count_args_ok(args: Seq<Seq<char>>) -> bool {
    forall|i: int|
        0 <= i && i + 1 < args.len() && i % 2 == 0 && #[trigger] args[i] == "--count"@
            ==> parse_u32_spec(args[i + 1]) is Some
}

/// The argument scan: flag/value pairs are read from index `i` on, each
/// flag at an even position with the value after it, a later occurrence
/// overriding an earlier one, unknown flags ignored.
pub open spec fn scan_params(args: Seq<Seq<char>>, i: int, cur: ParamsView) -> ParamsView
    decreases args.len() - i,
{
    if i < 0 || i + 1 >= args.len() {
        cur
    } else {
        let nxt = if args[i] == "--count"@ {
            ParamsView {
                count: match parse_u32_spec(args[i + 1]) {
                    Some(v) => v,
                    None => cur.count,
                },
                schema_from_file: cur.schema_from_file,
                output_file: cur.output_file,
            }
        } else if args[i] == "--schema-from-file"@ {
            ParamsView {
                count: cur.count,
                schema_from_file: Some(args[i + 1]),
                output_file: cur.output_file,
            }
        } else if args[i] == "--output-file"@ {
            ParamsView {
                count: cur.count,
                schema_from_file: cur.schema_from_file,
                output_file: Some(args[i + 1]),
            }
        } else {
            cur
        };
        scan_params(args, i + 2, nxt)
    }
}

/// The parameters an argument list denotes: the scan from the start, with a
/// count of 100 and no files as the defaults.
pub open spec fn params_of(args: Seq<Seq<char>>) -> ParamsView {
    scan_params(
        args,
        0,
        ParamsView { count: 100, schema_from_file: None, output_file: None },
    )
}

/// Whether [`Params::parse`] accepts the argument list: every `--count`
/// value must parse as a `u32`.  A caller checks this first and rejects the
/// arguments itself where it fails.
pub fn args_ok(args: &Vec<String>) -> (b: bool)
    ensures
        b == count_args_ok(args.deep_view()),
{
    let count_key: String = "--count".to_owned();
    let mut i: usize = 0;
    while i < args.len() && i + 1 < args.len()
        invariant
            i % 2 == 0,
            count_key@ == "--count"@,
            forall|k: int|
                0 <= k && k + 1 < args.deep_view().len() && k % 2 == 0 && k < i
                    && #[trigger] args.deep_view()[k] == "--count"@ ==> parse_u32_spec(
                    args.deep_view()[k + 1],
                ) is Some,
        decreases args@.len() - i,
    {
        proof {
            assert(args.deep_view()[i as int] == args@[i as int]@);
            assert(args.deep_view()[i + 1] == args@[i + 1]@);
        }
        if args[i] == count_key {
            match parse_u32(args[i + 1].as_str()) {
                Some(_) => {},
                None => {
                    return false;
                },
            }
        }
        i = i + 2;
    }
    true
}

impl Params {
    /// Reads the run parameters from an argument list: flags at even
    /// positions, each with the value after it, the last occurrence
    /// winning, unknown flags ignored, and a count of 100 by default.
    /// Every `--count` value must parse as a `u32` (see [`args_ok`]); a
    /// caller rejects an argument list where one does not.
    pub fn parse(args: &Vec<String>) -> (params: Params)
        requires
            count_args_ok(args.deep_view()),
        ensures
            params@ == params_of(args.deep_view()),
    {
        let count_key: String = "--count".to_owned();
        let schema_key: String = "--schema-from-file".to_owned();
        let output_key: String = "--output-file".to_owned();
        let mut count: u32 = 100;
        let mut schema_from_file: Option<String> = None;
        let mut output_file: Option<String> = None;
        let mut index: usize = 0;
        while index < args.len() && index + 1 < args.len()
            invariant
                index % 2 == 0,
                count_key@ == "--count"@,
                schema_key@ == "--schema-from-file"@,
                output_key@ == "--output-file"@,
                count_args_ok(args.deep_view()),
                params_of(args.deep_view()) == scan_params(
                    args.deep_view(),
                    index as int,
                    ParamsView {
                        count,
                        schema_from_file: match schema_from_file {
                            Some(s) => Some(s@),
                            None => None,
                        },
                        output_file: match output_file {
                            Some(s) => Some(s@),
                            None => None,
                        },
                    },
                ),
            decreases args@.len() - index,
        {
            proof {
                assert(args.deep_view()[index as int] == args@[index as int]@);
                assert(args.deep_view()[index + 1] == args@[index + 1]@);
            }
            let current = &args[index];
            if *current == count_key {
                count = match parse_u32(args[index + 1].as_str()) {
                    Some(v) => v,
                    None => unreached(),
                };
            } else if *current == schema_key {
                schema_from_file = Some(args[index + 1].clone());
            } else if *current == output_key {
                output_file = Some(args[index + 1].clone());
            }
            index = index + 2;
        }
        Params { count, schema_from_file, output_file }
    }
}

} // verus!
