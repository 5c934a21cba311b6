//! The command line: its options, and the names of the files that the program reads and writes.

use vstd::prelude::*;
use vstd::slice::slice_to_vec;
use vstd::string::StringExecFns;
use vstd::utf8::encode_utf8;

verus! {

/// The options. Paths are the bytes that the operating system knows them by.
#[derive(Debug)]
pub struct Cli {
    /// Stitch frames from this directory instead of capturing.
    pub input: Option<Vec<u8>>,
    /// Output file path.
    pub output: Option<Vec<u8>>,
    /// Capture frames and save them to this directory without stitching.
    pub capture_only: Option<Vec<u8>>,
    /// Milliseconds to wait after each scroll for the page to render again.
    pub scroll_delay: u64,
    /// Discrete scroll wheel ticks for each step.
    pub scroll_ticks: i32,
    /// Delete the input directory after stitching.
    pub cleanup: bool,
    /// Save the captured frames for debugging.
    pub debug: bool,
    /// Output file path, overridden by `output`.
    pub positional_output: Option<Vec<u8>>,
}

/// A decimal digit.
pub open spec fn digit(d: int) -> Seq<char> {
    if d == 0 {
        "0"@
    } else if d == 1 {
        "1"@
    } else if d == 2 {
        "2"@
    } else if d == 3 {
        "3"@
    } else if d == 4 {
        "4"@
    } else if d == 5 {
        "5"@
    } else if d == 6 {
        "6"@
    } else if d == 7 {
        "7"@
    } else if d == 8 {
        "8"@
    } else {
        "9"@
    }
}

/// A number in decimal notation.
pub open spec fn decimal(n: nat) -> Seq<char>
    decreases n,
{
    if n < 10 {
        digit(n as int)
    } else {
        decimal(n / 10) + digit((n % 10) as int)
    }
}

/// The name of the output file where none was given: it holds the time in seconds.
pub open spec fn default_output_chars(seconds: u64) -> Seq<char> {
    "scrollshot_"@ + decimal(seconds as nat) + ".png"@
}

/// The name of the file that holds a frame. Frames are counted from one.
pub open spec fn frame_file_chars(number: usize) -> Seq<char> {
    "frame_"@ + decimal(number as nat) + ".png"@
}

fn append_decimal(text: &mut String, n: u64)
    ensures
        final(text)@ == old(text)@ + decimal(n as nat),
    decreases n,
{
    let ghost before = text@;
    if n >= 10 {
        append_decimal(text, n / 10);
    }
    let last: &str = match n % 10 {
        0 => "0",
        1 => "1",
        2 => "2",
        3 => "3",
        4 => "4",
        5 => "5",
        6 => "6",
        7 => "7",
        8 => "8",
        _ => "9",
    };
    text.append(last);
    assert(text@ =~= before + decimal(n as nat));
}

/// The name of the output file where none was given.
pub fn default_output_name(seconds: u64) -> (name: String)
    ensures
        name@ == default_output_chars(seconds),
{
    let mut name: String = "scrollshot_".to_owned();
    append_decimal(&mut name, seconds);
    name.append(".png");
    name
}

/// The name of the file that holds a frame.
pub fn frame_file_name(number: usize) -> (name: String)
    ensures
        name@ == frame_file_chars(number),
{
    let mut name: String = "frame_".to_owned();
    append_decimal(&mut name, number as u64);
    name.append(".png");
    name
}

impl Cli {
    /// The path that the result goes to.
    pub open spec fn destination(&self, seconds: u64) -> Seq<u8> {
        match (self.output, self.positional_output) {
            (Some(p), _) => p@,
            (None, Some(p)) => p@,
            (None, None) => encode_utf8(default_output_chars(seconds)),
        }
    }

    /// Where the result goes: to the path given as an option, else to the one given as an
    /// argument, else to a file named after the time, `seconds` after the epoch.
    pub fn output_path(&self, seconds: u64) -> (path: Vec<u8>)
        ensures
            path@ == self.destination(seconds),
            path@ == match (self.output, self.positional_output) {
                (Some(p), _) => p@,
                (None, Some(p)) => p@,
                (None, None) => encode_utf8(default_output_chars(seconds)),
            },
    {
        if let Some(path) = &self.output {
            return slice_to_vec(path.as_slice());
        }
        if let Some(path) = &self.positional_output {
            return slice_to_vec(path.as_slice());
        }
        let name = default_output_name(seconds);
        slice_to_vec(name.as_str().as_bytes())
    }
}

proof fn lemma_digits_are_distinct(a: int, b: int)
    requires
        0 <= a < 10,
        0 <= b < 10,
    ensures
        digit(a).len() == 1,
        digit(a) == digit(b) ==> a == b,
{
    reveal_strlit("0");
    reveal_strlit("1");
    reveal_strlit("2");
    reveal_strlit("3");
    reveal_strlit("4");
    reveal_strlit("5");
    reveal_strlit("6");
    reveal_strlit("7");
    reveal_strlit("8");
    reveal_strlit("9");
    if digit(a) == digit(b) {
        assert(digit(a)[0] == digit(b)[0]);
    }
}

proof fn lemma_decimal_is_not_empty(n: nat)
    ensures
        decimal(n).len() >= 1,
        n >= 10 ==> decimal(n).len() >= 2,
    decreases n,
{
    lemma_digits_are_distinct((n % 10) as int, 0);
    if n >= 10 {
        lemma_decimal_is_not_empty(n / 10);
    }
}

/// No two numbers look the same in decimal notation.
pub proof fn law_decimals_are_distinct(a: nat, b: nat)
    requires
        decimal(a) == decimal(b),
    ensures
        a == b,
    decreases a,
{
    lemma_decimal_is_not_empty(a);
    lemma_decimal_is_not_empty(b);
    lemma_digits_are_distinct((a % 10) as int, (b % 10) as int);
    lemma_digits_are_distinct((b % 10) as int, (a % 10) as int);
    let (s, t) = (digit((a % 10) as int), digit((b % 10) as int));
    if a >= 10 && b >= 10 {
        let (p, q) = (decimal(a / 10), decimal(b / 10));
        assert(p + s == q + t);
        assert(p.len() == q.len());
        assert(p =~= (p + s).take(p.len() as int));
        assert(q =~= (q + t).take(q.len() as int));
        assert(s =~= (p + s).skip(p.len() as int));
        assert(t =~= (q + t).skip(q.len() as int));
        law_decimals_are_distinct(a / 10, b / 10);
    }
}

/// Each frame has a file of its own.
pub proof fn law_frame_files_are_distinct(a: usize, b: usize)
    requires
        frame_file_chars(a) == frame_file_chars(b),
    ensures
        a == b,
{
    let (p, q) = (decimal(a as nat), decimal(b as nat));
    let n = "frame_"@.len() as int;
    let (s, t) = (frame_file_chars(a), frame_file_chars(b));
    assert(p =~= s.subrange(n, s.len() - ".png"@.len()));
    assert(q =~= t.subrange(n, t.len() - ".png"@.len()));
    law_decimals_are_distinct(a as nat, b as nat);
}

/// The number that a text of decimal digits stands for.
pub open spec fn number(text: Seq<char>) -> int
    decreases text.len(),
{
    if text.len() == 0 {
        0
    } else {
        10 * number(text.drop_last()) + (text.last() as int - 48)
    }
}

/// A number in decimal notation reads back as what it was. It is made of digits, which are the
/// characters from 48 on, and begins with a zero only if it is one.
pub proof fn law_decimals_read_back(n: nat)
    ensures
        number(decimal(n)) == n,
        decimal(n).len() >= 1,
        forall|i: int| 0 <= i < decimal(n).len() ==> 48 <= #[trigger] decimal(n)[i] <= 57,
        n > 0 ==> decimal(n)[0] as int > 48,
    decreases n,
{
    let d = (n % 10) as int;
    lemma_digit_character(d);
    lemma_decimal_is_not_empty(n);
    if n >= 10 {
        law_decimals_read_back(n / 10);
        assert(decimal(n).drop_last() =~= decimal(n / 10));
    } else {
        assert(decimal(n).drop_last() =~= Seq::empty());
        assert(number(decimal(n).drop_last()) == 0);
    }
}

proof fn lemma_digit_character(d: int)
    requires
        0 <= d < 10,
    ensures
        digit(d).len() == 1,
        digit(d)[0] as int == 48 + d,
{
    reveal_strlit("0");
    reveal_strlit("1");
    reveal_strlit("2");
    reveal_strlit("3");
    reveal_strlit("4");
    reveal_strlit("5");
    reveal_strlit("6");
    reveal_strlit("7");
    reveal_strlit("8");
    reveal_strlit("9");
}

/// `name` is made of a beginning, the digits of a number and an end.
pub open spec fn is_numbered(name: Seq<char>, begins: Seq<char>, n: int, ends: Seq<char>) -> bool {
    let (i, j) = (begins.len() as int, name.len() - ends.len());
    &&& i < j
    &&& name.take(i) == begins
    &&& name.skip(j) == ends
    &&& number(name.subrange(i, j)) == n
    &&& forall|k: int| i <= k < j ==> 48 <= #[trigger] name[k] <= 57
    &&& n > 0 ==> name[i] as int > 48
}

proof fn lemma_numbered(begins: Seq<char>, n: nat, ends: Seq<char>)
    ensures
        is_numbered(begins + decimal(n) + ends, begins, n as int, ends),
{
    law_decimals_read_back(n);
    let name = begins + decimal(n) + ends;
    let (i, j) = (begins.len() as int, name.len() - ends.len());
    assert(name.take(i) =~= begins);
    assert(name.skip(j) =~= ends);
    assert(name.subrange(i, j) =~= decimal(n));
    assert forall|k: int| i <= k < j implies 48 <= #[trigger] name[k] <= 57 by {
        assert(name[k] == decimal(n)[k - i]);
    }
    assert(name[i] == decimal(n)[0]);
}

/// Files are numbered: the one of a frame is called `frame_N.png`, and the result is called
/// `scrollshot_N.png` after the time in seconds.
pub proof fn law_files_are_named_after_their_numbers(frame: usize, seconds: u64)
    ensures
        is_numbered(frame_file_chars(frame), "frame_"@, frame as int, ".png"@),
        is_numbered(default_output_chars(seconds), "scrollshot_"@, seconds as int, ".png"@),
{
    lemma_numbered("frame_"@, frame as nat, ".png"@);
    lemma_numbered("scrollshot_"@, seconds as nat, ".png"@);
}

/// A path that was given is used as it is. The option comes before the argument, and only without
/// both is the result named after the time.
pub proof fn law_given_path_is_used(cli: Cli, seconds: u64, later: u64)
    ensures
        cli.output matches Some(p) ==> cli.destination(seconds) == p@,
        cli.output is None && cli.positional_output is Some ==> cli.destination(seconds)
            == cli.positional_output->0@,
        cli.output is None && cli.positional_output is None ==> cli.destination(seconds)
            == encode_utf8(default_output_chars(seconds)),
        cli.output is Some || cli.positional_output is Some ==> cli.destination(seconds)
            == cli.destination(later),
{
}

} // verus!
