use vstd::prelude::*;

verus! {

/// The decimal digit for `d`, which is below ten.
pub open spec fn digit_char(d: nat) -> char {
    seq!['0', '1', '2', '3', '4', '5', '6', '7', '8', '9'][d as int]
}

/// The decimal representation of `n`, without leading zeros ("0" for zero).
pub open spec fn decimal(n: nat) -> Seq<char>
    decreases n,
{
    if n < 10 {
        seq![digit_char(n)]
    } else {
        decimal(n / 10) + seq![digit_char(n % 10)]
    }
}

/// `n` copies of the character `c`.
pub open spec fn fill_of(c: char, n: nat) -> Seq<char> {
    Seq::new(n, |_i: int| c)
}

/// `n` spaces.
pub open spec fn spaces(n: nat) -> Seq<char> {
    fill_of(' ', n)
}

/// The lines of `rows`, each followed by a newline.
pub open spec fn join_lines(rows: Seq<Seq<char>>) -> Seq<char>
    decreases rows.len(),
{
    if rows.len() == 0 {
        Seq::empty()
    } else {
        join_lines(rows.drop_last()) + rows.last() + "\n"@
    }
}

pub open spec fn opt_text(o: Option<String>) -> Option<Seq<char>> {
    match o {
        Some(s) => Some(s@),
        None => None,
    }
}

/// Adding a row to a list of rows adds it, with its newline, to the joined text.
pub proof fn lemma_join_push(rows: Seq<Seq<char>>, row: Seq<char>)
    ensures
        join_lines(rows.push(row)) == join_lines(rows) + row + "\n"@,
{
    assert(rows.push(row).drop_last() =~= rows);
}

pub open spec fn texts(v: Seq<String>) -> Seq<Seq<char>> {
    v.map_values(|s: String| s@)
}

pub open spec fn pow10(k: nat) -> nat
    decreases k,
{
    if k == 0 {
        1
    } else {
        10 * pow10((k - 1) as nat)
    }
}

/// The decimal representation of `n` has `k` digits exactly when `n` lies in
/// `[10^(k-1), 10^k)`, or `n` is zero and `k` is one.
pub proof fn lemma_decimal_len(n: nat)
    ensures
        decimal(n).len() >= 1,
        n < pow10(decimal(n).len()),
        decimal(n).len() == 1 || pow10((decimal(n).len() - 1) as nat) <= n,
    decreases n,
{
    reveal_with_fuel(pow10, 2);
    if n >= 10 {
        lemma_decimal_len(n / 10);
        let k = decimal(n / 10).len();
        let p = pow10(k);
        let q = pow10((k - 1) as nat);
        assert(decimal(n).len() == k + 1);
        assert(pow10((k + 1) as nat) == 10 * p);
        assert(n < 10 * p) by (nonlinear_arith)
            requires
                n / 10 < p,
        ;
        if k >= 2 {
            assert(p == 10 * q);
            assert(10 * q <= n) by (nonlinear_arith)
                requires
                    q <= n / 10,
            ;
        } else {
            assert(p == 10);
        }
    }
}

/// A number never has more digits than a larger one.
pub proof fn lemma_decimal_len_monotonic(a: nat, b: nat)
    requires
        a <= b,
    ensures
        decimal(a).len() <= decimal(b).len(),
    decreases b,
{
    if a >= 10 {
        lemma_decimal_len_monotonic(a / 10, b / 10);
    }
}

/// Every character of a decimal representation is a digit.
pub proof fn lemma_decimal_digits(n: nat)
    ensures
        forall|j: int| 0 <= j < decimal(n).len() ==> '0' <= #[trigger] decimal(n)[j] <= '9',
    decreases n,
{
    let ds = seq!['0', '1', '2', '3', '4', '5', '6', '7', '8', '9'];
    assert(forall|d: int| 0 <= d < 10 ==> '0' <= #[trigger] ds[d] <= '9');
    if n >= 10 {
        lemma_decimal_digits(n / 10);
        let a = decimal(n / 10);
        assert forall|j: int| 0 <= j < decimal(n).len() implies '0' <= #[trigger] decimal(n)[j]
            <= '9' by {
            if j < a.len() {
                assert(decimal(n)[j] == a[j]);
            } else {
                assert(decimal(n)[j] == digit_char(n % 10));
            }
        }
    }
}

fn digit_str(d: u8) -> (r: &'static str)
    requires
        d < 10,
    ensures
        r@ == seq![digit_char(d as nat)],
{
    match d {
        0 => { proof { reveal_strlit("0"); } "0" },
        1 => { proof { reveal_strlit("1"); } "1" },
        2 => { proof { reveal_strlit("2"); } "2" },
        3 => { proof { reveal_strlit("3"); } "3" },
        4 => { proof { reveal_strlit("4"); } "4" },
        5 => { proof { reveal_strlit("5"); } "5" },
        6 => { proof { reveal_strlit("6"); } "6" },
        7 => { proof { reveal_strlit("7"); } "7" },
        8 => { proof { reveal_strlit("8"); } "8" },
        _ => { proof { reveal_strlit("9"); } "9" },
    }
}

/// Writes `n` in decimal.
pub fn decimal_string(n: u128) -> (r: String)
    ensures
        r@ == decimal(n as nat),
    decreases n,
{
    let d = digit_str((n % 10) as u8);
    if n < 10 {
        String::from_str(d)
    } else {
        let mut s = decimal_string(n / 10);
        s.append(d);
        s
    }
}

/// `x` in decimal, with a minus sign when it is negative.
pub open spec fn signed_decimal(x: int) -> Seq<char> {
    if x >= 0 {
        decimal(x as nat)
    } else {
        "-"@ + decimal((-x) as nat)
    }
}

/// Writes `x` in decimal, with a minus sign when it is negative.
pub fn signed_decimal_string(x: i128) -> (r: String)
    requires
        x > i128::MIN,
    ensures
        r@ == signed_decimal(x as int),
{
    if x >= 0 {
        decimal_string(x as u128)
    } else {
        let mut s = String::from_str("-");
        s.append(decimal_string((-x) as u128).as_str());
        s
    }
}

/// `n` copies of the one character that `piece` holds.
pub fn fill(piece: &str, n: usize) -> (r: String)
    requires
        piece@.len() == 1,
    ensures
        r@ == fill_of(piece@[0], n as nat),
{
    let mut s = String::new();
    let mut i: usize = 0;
    while i < n
        invariant
            i <= n,
            piece@.len() == 1,
            s@ == fill_of(piece@[0], i as nat),
        decreases n - i,
    {
        s.append(piece);
        i = i + 1;
        assert(s@ =~= fill_of(piece@[0], i as nat));
    }
    s
}

/// `n` spaces.
pub fn spaces_string(n: usize) -> (r: String)
    ensures
        r@ == spaces(n as nat),
{
    proof {
        reveal_strlit(" ");
    }
    fill(" ", n)
}

/// Whether a `::` separator starts at `i` in `s`.
pub open spec fn sep_at(s: Seq<char>, i: int) -> bool {
    0 <= i && i + 1 < s.len() && s[i] == ':' && s[i + 1] == ':'
}

/// The pieces of `s` between `::` separators, read from left to right, for the part
/// of `s` after `i`, where the current piece began at `start`.
pub open spec fn split_from(s: Seq<char>, start: nat, i: nat) -> Seq<Seq<char>>
    decreases s.len() - i,
{
    if i >= s.len() {
        seq![s.subrange(start as int, s.len() as int)]
    } else if sep_at(s, i as int) {
        seq![s.subrange(start as int, i as int)] + split_from(s, i + 2, i + 2)
    } else {
        split_from(s, start, i + 1)
    }
}

/// The pieces of a path such as `a::b::c` between its `::` separators.
pub open spec fn path_segments(s: Seq<char>) -> Seq<Seq<char>> {
    split_from(s, 0, 0)
}

/// Splits `s` at each `::`, as `str::split("::")` does.
pub fn split_path(s: &str) -> (r: Vec<String>)
    ensures
        texts(r@) == path_segments(s@),
        r@.len() >= 1,
{
    let n = s.unicode_len();
    let mut out: Vec<String> = Vec::new();
    let mut start: usize = 0;
    let mut i: usize = 0;
    while i < n
        invariant
            n == s@.len(),
            start <= i <= n,
            texts(out@) + split_from(s@, start as nat, i as nat) == path_segments(s@),
        decreases n - i,
    {
        if i + 1 < n && s.get_char(i) == ':' && s.get_char(i + 1) == ':' {
            let piece = String::from_str(s.substring_char(start, i));
            let ghost before = texts(out@);
            out.push(piece);
            assert(texts(out@) =~= before.push(piece@));
            assert(before + split_from(s@, start as nat, i as nat) =~= texts(out@) + split_from(
                s@,
                (i + 2) as nat,
                (i + 2) as nat,
            ));
            i = i + 2;
            start = i;
        } else {
            i = i + 1;
        }
    }
    let piece = String::from_str(s.substring_char(start, n));
    let ghost before = texts(out@);
    out.push(piece);
    assert(texts(out@) =~= before.push(piece@));
    assert(before + split_from(s@, start as nat, i as nat) =~= texts(out@));
    out
}

} // verus!
