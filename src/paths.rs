//! File naming convention: `{dir}/level{L}/level{L}_{S}.{ext}`.
use vstd::prelude::*;

verus! {

/// The character of a decimal digit.
pub open spec fn digit_char(d: nat) -> char {
    if d == 0 { '0' } else if d == 1 { '1' } else if d == 2 { '2' } else if d == 3 { '3' }
    else if d == 4 { '4' } else if d == 5 { '5' } else if d == 6 { '6' } else if d == 7 { '7' }
    else if d == 8 { '8' } else { '9' }
}

/// The decimal representation of `n`, without leading zeros.
pub open spec fn decimal(n: nat) -> Seq<char>
    decreases n,
{
    if n < 10 {
        seq![digit_char(n)]
    } else {
        decimal(n / 10).push(digit_char(n % 10))
    }
}

pub open spec fn is_digit(c: char) -> bool {
    '0' <= c <= '9'
}

proof fn lemma_digit_char(d: nat)
    requires
        d < 10,
    ensures
        is_digit(digit_char(d)),
        forall|e: nat| e < 10 && digit_char(e) == digit_char(d) ==> e == d,
{
}

/// A decimal representation is non-empty and made of digits.
pub proof fn lemma_decimal_digits(n: nat)
    ensures
        decimal(n).len() >= 1,
        n >= 10 ==> decimal(n).len() >= 2,
        forall|i: int| 0 <= i < decimal(n).len() ==> is_digit(#[trigger] decimal(n)[i]),
    decreases n,
{
    lemma_digit_char(n % 10);
    if n >= 10 {
        lemma_decimal_digits(n / 10);
    }
}

/// Distinct numbers have distinct decimal representations.
pub proof fn lemma_decimal_injective(a: nat, b: nat)
    requires
        decimal(a) == decimal(b),
    ensures
        a == b,
    decreases a,
{
    lemma_decimal_digits(a);
    lemma_decimal_digits(b);
    lemma_digit_char(a % 10);
    lemma_digit_char(b % 10);
    if a >= 10 && b >= 10 {
        assert(decimal(a / 10) == decimal(a).drop_last());
        assert(decimal(b / 10) == decimal(b).drop_last());
        lemma_decimal_injective(a / 10, b / 10);
        assert(decimal(a).last() == digit_char(a % 10));
        assert(decimal(b).last() == digit_char(b % 10));
        assert(a % 10 == b % 10);
    } else if a < 10 && b < 10 {
        assert(decimal(a)[0] == digit_char(a));
    }
}

fn digit_str(d: usize) -> (r: &'static str)
    requires
        d < 10,
    ensures
        r@ == seq![digit_char(d as nat)],
{
    proof {
        reveal_strlit("0");
        reveal_strlit("1");
        reveal_strlit("2");
        reveal_strlit("3");
        reveal_strlit("4");
        reveal_strlit("5");
        reveal_strlit("6");
        reveal_strlit("7");
        reveal_strlit("8");
        reveal_strlit("9");
    }
    let r = match d {
        0 => "0",
        1 => "1",
        2 => "2",
        3 => "3",
        4 => "4",
        5 => "5",
        6 => "6",
        7 => "7",
        8 => "8",
        _ => "9",
    };
    assert(r@ =~= seq![digit_char(d as nat)]);
    r
}

/// Appends the decimal representation of `n` to `s`.
pub fn push_decimal(s: &mut String, n: usize)
    ensures
        final(s)@ == old(s)@ + decimal(n as nat),
    decreases n,
{
    if n >= 10 {
        push_decimal(s, n / 10);
    }
    s.append(digit_str(n % 10));
    proof {
        if n >= 10 {
            assert(decimal(n as nat) == decimal((n / 10) as nat).push(digit_char((n % 10) as nat)));
        }
    }
    assert(s@ =~= old(s)@ + decimal(n as nat));
}


/// The root directory of one direction.
pub open spec fn base_dir(is_output: bool) -> Seq<char> {
    if is_output { "src/output"@ } else { "src/input"@ }
}

/// The file extension of one direction.
pub open spec fn extension(is_output: bool) -> Seq<char> {
    if is_output { "out"@ } else { "in"@ }
}

/// The directory holding the files of a level: `{dir}/level{L}`.
pub open spec fn level_dir_of(level: nat, is_output: bool) -> Seq<char> {
    base_dir(is_output) + "/level"@ + decimal(level)
}

/// The name of a level's file: `level{L}_{S}.{ext}`.
pub open spec fn file_name_of(level: nat, sub_level: Seq<char>, ext: Seq<char>) -> Seq<char> {
    "level"@ + decimal(level) + "_"@ + sub_level + "."@ + ext
}

/// The path of a sub-level's file: `{dir}/level{L}/level{L}_{S}.{ext}`.
pub open spec fn path_of(level: nat, sub_level: Seq<char>, is_output: bool) -> Seq<char> {
    level_dir_of(level, is_output) + "/"@ + file_name_of(level, sub_level, extension(is_output))
}

/// The path of a level's reference output, which lies beside its inputs.
pub open spec fn expected_path_of(level: nat) -> Seq<char> {
    level_dir_of(level, false) + "/"@ + file_name_of(level, "example"@, "out"@)
}

/// The characters of the literals that the naming convention is made of.
pub proof fn reveal_layout_literals()
    ensures
        "src/input"@ == seq!['s', 'r', 'c', '/', 'i', 'n', 'p', 'u', 't'],
        "src/output"@ == seq!['s', 'r', 'c', '/', 'o', 'u', 't', 'p', 'u', 't'],
        "/level"@ == seq!['/', 'l', 'e', 'v', 'e', 'l'],
        "level"@ == seq!['l', 'e', 'v', 'e', 'l'],
        "/"@ == seq!['/'],
        "_"@ == seq!['_'],
        "."@ == seq!['.'],
        "in"@ == seq!['i', 'n'],
        "out"@ == seq!['o', 'u', 't'],
{
    reveal_strlit("src/input");
    reveal_strlit("src/output");
    reveal_strlit("/level");
    reveal_strlit("level");
    reveal_strlit("/");
    reveal_strlit("_");
    reveal_strlit(".");
    reveal_strlit("in");
    reveal_strlit("out");
    assert("src/input"@ =~= seq!['s', 'r', 'c', '/', 'i', 'n', 'p', 'u', 't']);
    assert("src/output"@ =~= seq!['s', 'r', 'c', '/', 'o', 'u', 't', 'p', 'u', 't']);
    assert("/level"@ =~= seq!['/', 'l', 'e', 'v', 'e', 'l']);
    assert("level"@ =~= seq!['l', 'e', 'v', 'e', 'l']);
    assert("/"@ =~= seq!['/']);
    assert("_"@ =~= seq!['_']);
    assert("."@ =~= seq!['.']);
    assert("in"@ =~= seq!['i', 'n']);
    assert("out"@ =~= seq!['o', 'u', 't']);
}

/// The part of a path before the sub-level: `{dir}/level{L}/level{L}_`.
spec fn path_head(level: nat, is_output: bool) -> Seq<char> {
    level_dir_of(level, is_output) + "/"@ + "level"@ + decimal(level) + "_"@
}

proof fn lemma_path_split(level: nat, sub_level: Seq<char>, is_output: bool)
    ensures
        path_of(level, sub_level, is_output) == path_head(level, is_output) + sub_level + "."@
            + extension(is_output),
{
    assert(path_of(level, sub_level, is_output) =~= path_head(level, is_output) + sub_level
        + "."@ + extension(is_output));
}

/// Two paths that agree have the same level, sub-level and direction.
pub proof fn lemma_path_injective(
    l1: nat,
    s1: Seq<char>,
    o1: bool,
    l2: nat,
    s2: Seq<char>,
    o2: bool,
)
    requires
        path_of(l1, s1, o1) == path_of(l2, s2, o2),
    ensures
        l1 == l2,
        s1 == s2,
        o1 == o2,
{
    reveal_layout_literals();
    lemma_decimal_digits(l1);
    lemma_decimal_digits(l2);
    let p = path_of(l1, s1, o1);
    assert(p[4] == base_dir(o1)[4]);
    assert(p[4] == base_dir(o2)[4]);
    let b: int = base_dir(o1).len() as int + 6;
    let d1 = decimal(l1);
    let d2 = decimal(l2);
    assert forall|j: int| 0 <= j < d1.len() implies p[b + j] == d1[j] by {}
    assert forall|j: int| 0 <= j < d2.len() implies p[b + j] == d2[j] by {}
    assert(p[b + d1.len() as int] == '/');
    assert(p[b + d2.len() as int] == '/');
    if d1.len() < d2.len() {
        assert(is_digit(d2[d1.len() as int]));
    }
    if d2.len() < d1.len() {
        assert(is_digit(d1[d2.len() as int]));
    }
    assert(d1 =~= d2);
    lemma_decimal_injective(l1, l2);
    lemma_path_split(l1, s1, o1);
    lemma_path_split(l2, s2, o2);
    let h = path_head(l1, o1);
    assert(path_head(l2, o2) == h);
    assert(p.len() == h.len() + s1.len() + "."@.len() + extension(o1).len());
    assert(p.len() == h.len() + s2.len() + "."@.len() + extension(o1).len());
    assert forall|j: int| 0 <= j < s1.len() implies s1[j] == s2[j] by {
        assert(p[h.len() + j] == s1[j]);
        assert(p[h.len() + j] == s2[j]);
    }
    assert(s1 =~= s2);
}

/// Builds the path of a level's input (`is_output == false`) or output file.
pub fn build_path(level: usize, sub_level: &str, is_output: bool) -> (r: String)
    ensures
        r@ == path_of(level as nat, sub_level@, is_output),
{
    let mut r = level_dir(level, is_output);
    r.append("/level");
    push_decimal(&mut r, level);
    r.append("_");
    r.append(sub_level);
    r.append(".");
    r.append(if is_output { "out" } else { "in" });
    proof {
        reveal_layout_literals();
    }
    assert(r@ =~= path_of(level as nat, sub_level@, is_output));
    r
}

/// The directory holding a level's inputs (`is_output == false`) or outputs.
pub fn level_dir(level: usize, is_output: bool) -> (r: String)
    ensures
        r@ == level_dir_of(level as nat, is_output),
{
    let mut r = String::from_str(if is_output { "src/output" } else { "src/input" });
    r.append("/level");
    push_decimal(&mut r, level);
    assert(r@ =~= level_dir_of(level as nat, is_output));
    r
}

/// The path of a level's reference output, `{input}/level{L}/level{L}_example.out`.
pub fn expected_output_path(level: usize) -> (r: String)
    ensures
        r@ == expected_path_of(level as nat),
{
    let mut r = level_dir(level, false);
    r.append("/level");
    push_decimal(&mut r, level);
    r.append("_example.out");
    proof {
        reveal_layout_literals();
        reveal_strlit("_example.out");
        reveal_strlit("example");
    }
    assert(r@ =~= expected_path_of(level as nat));
    r
}

} // verus!
