//! The style rules of the vector back end and the colours written in them.

use vstd::prelude::*;
use vstd::string::{StrSliceExecFns, StringExecFns};

verus! {

/// The largest colour written as `#rrggbb`.
pub const MAX_COLOR: u32 = 0xff_ffff;

pub open spec fn hex_char(d: int) -> char {
    if d < 10 { ((d + 48) as u8) as char } else { ((d - 10 + 97) as u8) as char }
}

/// The value of a hexadecimal digit, upper or lower case.
pub open spec fn hex_value(c: char) -> Option<int> {
    if '0' <= c <= '9' {
        Some(c as int - 48)
    } else if 'a' <= c <= 'f' {
        Some(c as int - 97 + 10)
    } else if 'A' <= c <= 'F' {
        Some(c as int - 65 + 10)
    } else {
        None
    }
}

/// The last `k` hexadecimal digits of `c`, zero-padded.
pub open spec fn hex_digits(c: nat, k: nat) -> Seq<char>
    decreases k,
{
    if k == 0 { seq![] } else { hex_digits(c / 16, (k - 1) as nat).push(hex_char((c % 16) as int)) }
}

/// The decimal digits of `n`.
pub open spec fn decimal(n: nat) -> Seq<char>
    decreases n,
{
    if n < 10 { seq![hex_char(n as int)] } else { decimal(n / 10).push(hex_char((n % 10) as int)) }
}

/// The colour that the digits `s` spell, read as hexadecimal.
pub open spec fn hex_number(s: Seq<char>) -> int
    decreases s.len(),
{
    if s.len() == 0 { 0 } else { hex_number(s.drop_last()) * 16 + hex_value(s.last()).unwrap() }
}

pub open spec fn all_hex(s: Seq<char>) -> bool {
    forall|i: int| 0 <= i < s.len() ==> (#[trigger] hex_value(s[i])) is Some
}

/// What `#rrggbb` (six hexadecimal digits after a hash) spells.
pub open spec fn color_of(s: Seq<char>) -> Option<int> {
    if s.len() == 7 && s[0] == '#' && all_hex(s.subrange(1, 7)) {
        Some(hex_number(s.subrange(1, 7)))
    } else {
        None
    }
}

pub open spec fn base_style(i: int) -> Seq<char> {
    if i == 0 { ".outer-lines{stroke-width:3;stroke:#aaaaaa;}"@ }
    else if i == 1 { ".inner-lines{stroke-width:2;stroke:#dddddd;}"@ }
    else if i == 2 { ".item{font-family:Arial;font-size:12pt;dominant-baseline:middle;}"@ }
    else if i == 3 { ".resource{font-family:Arial;font-size:12pt;text-anchor:end;dominant-baseline:middle;}"@ }
    else if i == 4 { ".title{font-family:Arial;font-size:18pt;}"@ }
    else if i == 5 { ".heading{font-family:Arial;font-size:16pt;dominant-baseline:middle;text-anchor:middle;}"@ }
    else if i == 6 { ".task-heading{dominant-baseline:middle;text-anchor:start;}"@ }
    else if i == 7 { ".milestone{fill:black;stroke-width:1;stroke:black;}"@ }
    else { ".marker{stroke-width:2;stroke:#888888;stroke-dasharray:7;}"@ }
}

/// Number of the style rules that do not depend on the resources.
pub const BASE_STYLES: usize = 9;

/// The filled style of resource `i` in colour `c`.
pub open spec fn closed_style(i: nat, c: nat) -> Seq<char> {
    ".resource-"@ + decimal(i) + "-closed{fill:#"@ + hex_digits(c, 6) + ";stroke-width:1;stroke:#"@
        + hex_digits(c, 6) + ";}"@
}

/// The outlined style of resource `i` in colour `c`.
pub open spec fn open_style(i: nat, c: nat) -> Seq<char> {
    ".resource-"@ + decimal(i) + "-open{fill:none;stroke-width:2;stroke:#"@ + hex_digits(c, 6) + ";}"@
}

/// The style rules of a chart whose resources have the colours `colors`.
pub open spec fn styles_are(styles: Seq<String>, colors: Seq<u32>) -> bool {
    &&& styles.len() == BASE_STYLES + 2 * colors.len()
    &&& forall|i: int| 0 <= i < BASE_STYLES ==> (#[trigger] styles[i])@ == base_style(i)
    &&& forall|i: int| 0 <= i < colors.len() ==>
        (#[trigger] styles[BASE_STYLES + 2 * i])@ == closed_style(i as nat, colors[i] as nat)
    &&& forall|i: int| 0 <= i < colors.len() ==>
        (#[trigger] styles[BASE_STYLES + 2 * i + 1])@ == open_style(i as nat, colors[i] as nat)
}

fn digit_str(d: u32) -> (r: &'static str)
    requires
        d < 16,
    ensures
        r@ == seq![hex_char(d as int)],
{
    proof {
        reveal_strlit("0"); reveal_strlit("1"); reveal_strlit("2"); reveal_strlit("3");
        reveal_strlit("4"); reveal_strlit("5"); reveal_strlit("6"); reveal_strlit("7");
        reveal_strlit("8"); reveal_strlit("9"); reveal_strlit("a"); reveal_strlit("b");
        reveal_strlit("c"); reveal_strlit("d"); reveal_strlit("e"); reveal_strlit("f");
    }
    let r = if d == 0 { "0" } else if d == 1 { "1" } else if d == 2 { "2" } else if d == 3 { "3" }
        else if d == 4 { "4" } else if d == 5 { "5" } else if d == 6 { "6" } else if d == 7 { "7" }
        else if d == 8 { "8" } else if d == 9 { "9" } else if d == 10 { "a" } else if d == 11 { "b" }
        else if d == 12 { "c" } else if d == 13 { "d" } else if d == 14 { "e" } else { "f" };
    assert(r@ =~= seq![hex_char(d as int)]);
    r
}

fn push_decimal(s: &mut String, n: usize)
    ensures
        final(s)@ == old(s)@ + decimal(n as nat),
    decreases n,
{
    if n >= 10 {
        push_decimal(s, n / 10);
    }
    s.append(digit_str((n % 10) as u32));
    assert(final(s)@ =~= old(s)@ + decimal(n as nat));
}

fn push_hex(s: &mut String, c: u32, k: u32)
    ensures
        final(s)@ == old(s)@ + hex_digits(c as nat, k as nat),
    decreases k,
{
    if k > 0 {
        push_hex(s, c / 16, k - 1);
        s.append(digit_str(c % 16));
    }
    assert(final(s)@ =~= old(s)@ + hex_digits(c as nat, k as nat));
}

/// The filled style of resource `i` in colour `c`.
pub fn closed_style_rule(i: usize, c: u32) -> (r: String)
    ensures
        r@ == closed_style(i as nat, c as nat),
{
    let mut r = ".resource-".to_string();
    push_decimal(&mut r, i);
    r.append("-closed{fill:#");
    push_hex(&mut r, c, 6);
    r.append(";stroke-width:1;stroke:#");
    push_hex(&mut r, c, 6);
    r.append(";}");
    assert(r@ =~= closed_style(i as nat, c as nat));
    r
}

/// The outlined style of resource `i` in colour `c`.
pub fn open_style_rule(i: usize, c: u32) -> (r: String)
    ensures
        r@ == open_style(i as nat, c as nat),
{
    let mut r = ".resource-".to_string();
    push_decimal(&mut r, i);
    r.append("-open{fill:none;stroke-width:2;stroke:#");
    push_hex(&mut r, c, 6);
    r.append(";}");
    assert(r@ =~= open_style(i as nat, c as nat));
    r
}

/// The style rules of a chart whose resources have the colours `colors`:
/// the fixed rules, then a filled and an outlined rule per resource.
pub fn chart_styles(colors: &Vec<u32>) -> (r: Vec<String>)
    ensures
        styles_are(r@, colors@),
{
    let mut r: Vec<String> = Vec::new();
    r.push(".outer-lines{stroke-width:3;stroke:#aaaaaa;}".to_string());
    r.push(".inner-lines{stroke-width:2;stroke:#dddddd;}".to_string());
    r.push(".item{font-family:Arial;font-size:12pt;dominant-baseline:middle;}".to_string());
    r.push(".resource{font-family:Arial;font-size:12pt;text-anchor:end;dominant-baseline:middle;}".to_string());
    r.push(".title{font-family:Arial;font-size:18pt;}".to_string());
    r.push(".heading{font-family:Arial;font-size:16pt;dominant-baseline:middle;text-anchor:middle;}".to_string());
    r.push(".task-heading{dominant-baseline:middle;text-anchor:start;}".to_string());
    r.push(".milestone{fill:black;stroke-width:1;stroke:black;}".to_string());
    r.push(".marker{stroke-width:2;stroke:#888888;stroke-dasharray:7;}".to_string());
    let mut i: usize = 0;
    while i < colors.len()
        invariant
            i <= colors@.len(),
            r@.len() == BASE_STYLES + 2 * i,
            forall|k: int| 0 <= k < BASE_STYLES ==> (#[trigger] r@[k])@ == base_style(k),
            forall|k: int| 0 <= k < i ==>
                (#[trigger] r@[BASE_STYLES + 2 * k])@ == closed_style(k as nat, colors@[k] as nat),
            forall|k: int| 0 <= k < i ==>
                (#[trigger] r@[BASE_STYLES + 2 * k + 1])@ == open_style(k as nat, colors@[k] as nat),
        decreases colors@.len() - i,
    {
        r.push(closed_style_rule(i, colors[i]));
        r.push(open_style_rule(i, colors[i]));
        i = i + 1;
    }
    r
}

fn hex_digit_value(c: char) -> (r: Option<u32>)
    ensures
        r matches Some(v) ==> hex_value(c) == Some(v as int) && v < 16,
        r is None ==> hex_value(c) is None,
{
    if '0' <= c && c <= '9' {
        Some(c as u32 - 48)
    } else if 'a' <= c && c <= 'f' {
        Some(c as u32 - 97 + 10)
    } else if 'A' <= c && c <= 'F' {
        Some(c as u32 - 65 + 10)
    } else {
        None
    }
}

pub open spec fn pow16(k: nat) -> int
    decreases k,
{
    if k == 0 { 1 } else { 16 * pow16((k - 1) as nat) }
}

proof fn lemma_pow16_positive(k: nat)
    ensures
        pow16(k) > 0,
    decreases k,
{
    if k > 0 {
        lemma_pow16_positive((k - 1) as nat);
    }
}

proof fn lemma_pow16_increasing(a: nat, b: nat)
    requires
        a <= b,
    ensures
        pow16(a) <= pow16(b),
    decreases b,
{
    if a < b {
        lemma_pow16_increasing(a, (b - 1) as nat);
        lemma_pow16_positive((b - 1) as nat);
    }
}

proof fn lemma_hex_number_bound(s: Seq<char>)
    requires
        all_hex(s),
    ensures
        0 <= hex_number(s) < pow16(s.len()),
    decreases s.len(),
{
    lemma_pow16_positive(s.len());
    if s.len() > 0 {
        let t = s.drop_last();
        assert(all_hex(t)) by {
            assert forall|i: int| 0 <= i < t.len() implies (#[trigger] hex_value(t[i])) is Some by {
                assert(t[i] == s[i]);
            }
        }
        assert(hex_value(s[s.len() - 1]) is Some);
        lemma_hex_number_bound(t);
        let p = pow16(t.len());
        let v = hex_value(s.last()).unwrap();
        assert(hex_number(t) * 16 + v < p * 16) by (nonlinear_arith)
            requires
                0 <= hex_number(t) < p,
                0 <= v < 16,
        ;
    }
}

/// The colour that `s` spells as `#rrggbb`, if it does.
pub fn parse_hex_color(s: &str) -> (r: Option<u32>)
    ensures
        r matches Some(c) ==> color_of(s@) == Some(c as int),
        r is None ==> color_of(s@) is None,
        r matches Some(c) ==> c <= MAX_COLOR,
{
    let n = s.unicode_len();
    if n != 7 {
        return None;
    }
    if s.get_char(0) != '#' {
        return None;
    }
    let ghost digits = s@.subrange(1, 7);
    let mut value: u32 = 0;
    let mut i: usize = 1;
    while i < 7
        invariant
            s@.len() == 7,
            digits == s@.subrange(1, 7),
            1 <= i <= 7,
            all_hex(s@.subrange(1, i as int)),
            value == hex_number(s@.subrange(1, i as int)),
            value < pow16((i - 1) as nat),
        decreases 7 - i,
    {
        let c = s.get_char(i);
        match hex_digit_value(c) {
            Some(d) => {
                proof {
                    let pre = s@.subrange(1, i as int);
                    let next = s@.subrange(1, i as int + 1);
                    assert(next.drop_last() =~= pre);
                    assert(next.last() == c);
                    assert(all_hex(next)) by {
                        assert forall|k: int| 0 <= k < next.len() implies (#[trigger] hex_value(next[k])) is Some by {
                            if k < pre.len() {
                                assert(next[k] == pre[k]);
                            }
                        }
                    }
                    lemma_hex_number_bound(next);
                    lemma_pow16_increasing((i - 1) as nat, 5);
                    reveal_with_fuel(pow16, 7);
                }
                value = value * 16 + d;
            },
            None => {
                proof {
                    assert(!all_hex(digits)) by {
                        assert(digits[i - 1] == c);
                    }
                }
                return None;
            },
        }
        i = i + 1;
    }
    proof {
        assert(s@.subrange(1, 7) =~= digits);
        reveal_with_fuel(pow16, 7);
    }
    Some(value)
}

} // verus!
