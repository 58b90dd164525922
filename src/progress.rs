//! Scraping of completion percentages out of the pull command's
//! free-form progress text.
use vstd::prelude::*;
use crate::text::chars_of;

verus! {

pub open spec fn is_digit(c: char) -> bool {
    '0' <= c && c <= '9'
}

pub open spec fn digit_value(c: char) -> nat {
    (c as int - '0' as int) as nat
}

/// Length of the run of decimal digits that ends just before index `j`.
pub open spec fn run_len(s: Seq<char>, j: int) -> nat
    decreases j,
{
    if j <= 0 || j > s.len() || !is_digit(s[j - 1]) {
        0
    } else {
        1 + run_len(s, j - 1)
    }
}

/// Value of the run of decimal digits that ends just before index `j`.
pub open spec fn run_value(s: Seq<char>, j: int) -> nat
    decreases j,
{
    if j <= 0 || j > s.len() || !is_digit(s[j - 1]) {
        0
    } else {
        run_value(s, j - 1) * 10 + digit_value(s[j - 1])
    }
}

/// The percentage reported at index `j`: a `%` right after a non-empty run
/// of digits whose value is at most 100.
pub open spec fn percent_at(s: Seq<char>, j: int) -> Option<nat> {
    if 0 <= j < s.len() && s[j] == '%' && run_len(s, j) > 0 && run_value(s, j) <= 100 {
        Some(run_value(s, j))
    } else {
        None
    }
}

/// The last percentage reported anywhere in `s`.
#[verifier::opaque]
pub open spec fn last_percent(s: Seq<char>) -> Option<nat> {
    if exists|j: int| #[trigger] percent_at(s, j) is Some {
        let j = choose|j: int|
            #[trigger] percent_at(s, j) is Some && forall|k: int|
                j < k ==> #[trigger] percent_at(s, k) is None;
        percent_at(s, j)
    } else {
        None
    }
}

pub open spec fn digit_char(d: nat) -> char {
    ('0' as nat + d) as char
}

/// Decimal notation of `n`, without leading zeros.
pub open spec fn decimal(n: nat) -> Seq<char>
    decreases n,
{
    if n < 10 {
        seq![digit_char(n)]
    } else {
        decimal(n / 10) + seq![digit_char(n % 10)]
    }
}

/// How a percentage is shown to observers, e.g. `42%`.
pub open spec fn percent_text(n: nat) -> Seq<char> {
    decimal(n) + seq!['%']
}

proof fn lemma_percent_at_bounded(s: Seq<char>, j: int)
    ensures
        percent_at(s, j) is Some ==> 0 <= j < s.len() && percent_at(s, j)->0 <= 100,
{
}

/// If some index reports a percentage, a last such index exists.
proof fn lemma_last_exists(s: Seq<char>, i: int)
    requires
        percent_at(s, i) is Some,
    ensures
        exists|j: int|
            #[trigger] percent_at(s, j) is Some && forall|k: int|
                j < k ==> #[trigger] percent_at(s, k) is None,
    decreases s.len() - i,
{
    if exists|k: int| i < k && #[trigger] percent_at(s, k) is Some {
        let k = choose|k: int| i < k && #[trigger] percent_at(s, k) is Some;
        lemma_percent_at_bounded(s, k);
        lemma_last_exists(s, k);
    } else {
        assert forall|k: int| i < k implies #[trigger] percent_at(s, k) is None by {}
    }
}

/// A percentage at `j` with none after it is the last one.
proof fn lemma_last_is(s: Seq<char>, j: int)
    requires
        percent_at(s, j) is Some,
        forall|k: int| j < k ==> #[trigger] percent_at(s, k) is None,
    ensures
        last_percent(s) == percent_at(s, j),
{
    reveal(last_percent);
    lemma_last_exists(s, j);
    let c = choose|c: int|
        #[trigger] percent_at(s, c) is Some && forall|k: int|
            c < k ==> #[trigger] percent_at(s, k) is None;
    if c < j {
        assert(percent_at(s, j) is None);
    } else if j < c {
        assert(percent_at(s, c) is None);
    }
}

/// The last percentage is reported at some index, and no index after it
/// reports one; when there is none, no index reports one.
pub proof fn lemma_last_percent_is_last(s: Seq<char>)
    ensures
        last_percent(s) matches Some(v) ==> exists|j: int|
            percent_at(s, j) == Some(v) && forall|k: int|
                j < k ==> #[trigger] percent_at(s, k) is None,
        last_percent(s) is None ==> forall|j: int| #[trigger] percent_at(s, j) is None,
{
    reveal(last_percent);
    if exists|j: int| #[trigger] percent_at(s, j) is Some {
        let i = choose|j: int| #[trigger] percent_at(s, j) is Some;
        lemma_last_exists(s, i);
    }
}

/// Finds the last percentage in `text` (see `last_percent`): a `%` preceded
/// by a run of digits of value at most 100. Larger values are noise.
pub fn parse_percent(text: &str) -> (r: Option<u8>)
    ensures
        r matches Some(v) ==> last_percent(text@) == Some(v as nat),
        r is None ==> last_percent(text@) is None,
        r is None <==> forall|j: int| #[trigger] percent_at(text@, j) is None,
{
    let cs = chars_of(text);
    let ghost s = text@;
    let n = cs.len();
    let mut last: Option<u8> = None;
    let ghost mut last_at: int = -1;
    let mut run: usize = 0;
    let mut val: u32 = 0;
    let mut i: usize = 0;
    while i < n
        invariant
            cs@ == s,
            n == s.len(),
            i <= n,
            run == run_len(s, i as int),
            run <= i,
            run_value(s, i as int) <= 100 ==> val == run_value(s, i as int),
            run_value(s, i as int) > 100 ==> val == 101,
            last matches Some(v) ==> 0 <= last_at < i && percent_at(s, last_at) == Some(v as nat),
            last is None ==> forall|k: int| k < i ==> #[trigger] percent_at(s, k) is None,
            last is Some ==> forall|k: int| last_at < k < i ==> #[trigger] percent_at(s, k) is None,
        decreases n - i,
    {
        let c = cs[i];
        assert(run_len(s, i + 1) == if is_digit(c) { run + 1 } else { 0 });
        if c == '%' {
            if run > 0 && val <= 100 {
                last = Some(val as u8);
                proof {
                    last_at = i as int;
                }
            }
            run = 0;
            val = 0;
        } else if '0' <= c && c <= '9' {
            let d: u32 = (c as u32) - ('0' as u32);
            assert(d == digit_value(c));
            run = run + 1;
            if val > 100 {
                assert(run_value(s, i + 1) > 100) by (nonlinear_arith)
                    requires
                        run_value(s, i + 1) == run_value(s, i as int) * 10 + d,
                        run_value(s, i as int) > 100,
                {}
                val = 101;
            } else {
                let w: u32 = val * 10 + d;
                val = if w > 100 { 101 } else { w };
            }
        } else {
            run = 0;
            val = 0;
        }
        i = i + 1;
    }
    proof {
        assert forall|k: int| n <= k implies #[trigger] percent_at(s, k) is None by {}
        if last is Some {
            lemma_last_is(s, last_at);
        } else {
            assert(forall|k: int| #[trigger] percent_at(s, k) is None ==> true);
            assert forall|k: int| #[trigger] percent_at(s, k) is Some implies false by {
                lemma_percent_at_bounded(s, k);
            }
            assert(!(exists|j: int| #[trigger] percent_at(s, j) is Some));
            reveal(last_percent);
        }
    }
    last
}

/// The one-character text of a decimal digit.
fn digit_str(d: u8) -> (r: &'static str)
    requires
        d < 10,
    ensures
        r@ == seq![digit_char(d as nat)],
{
    proof {
        reveal_strlit("0");
        reveal_strlit("1");
        reveal_strlit("2");
        reveal_strlit("3");
        reveal_strlit("4");
        reveal_strlit("5");
        reveal_strlit("6");
        reveal_strlit("7");
        reveal_strlit("8");
        reveal_strlit("9");
    }
    match d {
        0 => "0",
        1 => "1",
        2 => "2",
        3 => "3",
        4 => "4",
        5 => "5",
        6 => "6",
        7 => "7",
        8 => "8",
        _ => "9",
    }
}

/// Renders a percentage for observers, e.g. `7%` or `100%`.
pub fn percent_label(n: u8) -> (r: String)
    ensures
        r@ == percent_text(n as nat),
{
    let mut r = String::new();
    if n >= 100 {
        r.append(digit_str(n / 100));
    }
    if n >= 10 {
        r.append(digit_str((n / 10) % 10));
    }
    r.append(digit_str(n % 10));
    proof {
        reveal_strlit("%");
    }
    r.append("%");
    proof {
        let m = n as nat;
        if m >= 100 {
            assert(decimal(m / 10) == decimal(m / 100) + seq![digit_char((m / 10) % 10)]);
            assert(decimal(m / 100) == seq![digit_char(m / 100)]);
        } else if m >= 10 {
            assert(decimal(m / 10) == seq![digit_char(m / 10)]);
        }
    }
    r
}

/// Finds the last percentage in `text` and renders it, e.g. `42%`.
pub fn parse_progress(text: &str) -> (r: Option<String>)
    ensures
        r matches Some(t) ==> last_percent(text@) matches Some(v) && t@ == percent_text(v),
        r is None <==> last_percent(text@) is None,
{
    match parse_percent(text) {
        Some(v) => Some(percent_label(v)),
        None => None,
    }
}

} // verus!
