//! The boundary codec: renders an outcome record as a flat JSON document and
//! reads such a document back. Decoding an encoded record always restores
//! it — the round trip is stated on `decode_result` and proved.
//!
//! The encoding is canonical: fields in a fixed order, no whitespace,
//! numbers in plain decimal, and strings with `"` and `\` escaped by a
//! backslash and every other character kept as it is.

use vstd::prelude::*;
use crate::resolve::CommandResult;
use crate::resolve::ResultModel;
use crate::text::dec_spec;
use crate::text::str_to_chars;
use crate::text::string_push;
use crate::text::u32_to_string;

verus! {

/// A string's characters with `"` and `\` escaped by a backslash.
pub open spec fn escape_spec(s: Seq<char>) -> Seq<char>
    decreases s.len(),
{
    if s.len() == 0 {
        Seq::empty()
    } else {
        let c = s[0];
        let head: Seq<char> = if c == '"' || c == '\\' {
            seq!['\\', c]
        } else {
            seq![c]
        };
        head + escape_spec(s.drop_first())
    }
}

/// A JSON boolean.
pub open spec fn enc_bool(b: bool) -> Seq<char> {
    if b {
        "true"@
    } else {
        "false"@
    }
}

/// A JSON string, or `null` when absent.
pub open spec fn enc_opt_string(m: Option<Seq<char>>) -> Seq<char> {
    match m {
        Option::None => "null"@,
        Option::Some(s) => seq!['"'] + escape_spec(s) + seq!['"'],
    }
}

/// A decimal number, or `null` when absent.
pub open spec fn enc_opt_u32(m: Option<u32>) -> Seq<char> {
    match m {
        Option::None => "null"@,
        Option::Some(n) => dec_spec(n as nat),
    }
}

/// The whole encoded record.
pub open spec fn encode_spec(m: ResultModel) -> Seq<char> {
    "{\"success\":"@ + enc_bool(m.success) + ",\"message\":"@ + enc_opt_string(m.message)
        + ",\"experience\":"@ + enc_opt_u32(m.experience) + ",\"money\":"@ + enc_opt_u32(m.money)
        + ",\"detection\":"@ + enc_opt_u32(m.detection) + "}"@
}

/// Appends the escaped form of `s` to `out`.
fn append_escaped(out: &mut String, s: &str)
    ensures
        final(out)@ == old(out)@ + escape_spec(s@),
{
    let len = s.unicode_len();
    let mut i: usize = 0;
    while i < len
        invariant
            len == s@.len(),
            i <= len,
            out@ == old(out)@ + escape_spec(s@.take(i as int)),
        decreases len - i,
    {
        let c = s.get_char(i);
        if c == '"' || c == '\\' {
            string_push(out, '\\');
        }
        string_push(out, c);
        proof {
            lemma_escape_push(s@.take(i as int), s@[i as int]);
            assert(s@.take(i + 1) =~= s@.take(i as int).push(s@[i as int]));
        }
        i = i + 1;
    }
    proof {
        assert(s@.take(len as int) =~= s@);
    }
}

/// Escaping one more character appends that character's escaped form.
proof fn lemma_escape_push(s: Seq<char>, c: char)
    ensures
        escape_spec(s.push(c)) == escape_spec(s) + (if c == '"' || c == '\\' {
            seq!['\\', c]
        } else {
            seq![c]
        }),
    decreases s.len(),
{
    let head: Seq<char> = if c == '"' || c == '\\' {
        seq!['\\', c]
    } else {
        seq![c]
    };
    if s.len() == 0 {
        assert(s.push(c).drop_first() =~= Seq::<char>::empty());
        assert(s.push(c)[0] == c);
        assert(escape_spec(s.push(c).drop_first()) =~= Seq::<char>::empty());
        assert(escape_spec(s.push(c)) =~= escape_spec(s) + head);
    } else {
        assert(s.push(c).drop_first() =~= s.drop_first().push(c));
        lemma_escape_push(s.drop_first(), c);
        assert(escape_spec(s.push(c)) =~= escape_spec(s) + head);
    }
}

/// Appends a number or `null` to `out`.
fn append_opt_u32(out: &mut String, m: &Option<u32>)
    ensures
        final(out)@ == old(out)@ + enc_opt_u32(*m),
{
    match m {
        Option::None => out.append("null"),
        Option::Some(n) => {
            let rendered = u32_to_string(*n);
            out.append(rendered.as_str());
        },
    }
}

/// Renders an outcome record as its canonical JSON document.
pub fn encode_result(r: &CommandResult) -> (s: String)
    ensures
        s@ == encode_spec(r@),
{
    let mut out = String::from_str("{\"success\":");
    if r.success {
        out.append("true");
    } else {
        out.append("false");
    }
    out.append(",\"message\":");
    match &r.message {
        Option::None => out.append("null"),
        Option::Some(msg) => {
            string_push(&mut out, '"');
            append_escaped(&mut out, msg.as_str());
            string_push(&mut out, '"');
        },
    }
    out.append(",\"experience\":");
    append_opt_u32(&mut out, &r.experience);
    out.append(",\"money\":");
    append_opt_u32(&mut out, &r.money);
    out.append(",\"detection\":");
    append_opt_u32(&mut out, &r.detection);
    out.append("}");
    proof {
        assert(out@ =~= encode_spec(r@));
    }
    out
}

/// A decimal digit character.
pub open spec fn is_digit_char(c: char) -> bool {
    48 <= c as int <= 57
}

/// The value of a run of digit characters, most significant first.
pub open spec fn num_of(s: Seq<char>) -> int
    decreases s.len(),
{
    if s.len() == 0 {
        0
    } else {
        num_of(s.drop_last()) * 10 + (s.last() as int - 48)
    }
}

/// Powers of ten.
pub open spec fn pow10(k: nat) -> nat
    decreases k,
{
    if k == 0 {
        1
    } else {
        10 * pow10((k - 1) as nat)
    }
}

proof fn lemma_pow10_values()
    ensures
        pow10(9) == 1000000000,
        pow10(10) == 10000000000,
{
    assert(pow10(0) == 1);
    assert(pow10(1) == 10);
    assert(pow10(2) == 100);
    assert(pow10(3) == 1000);
    assert(pow10(4) == 10000);
    assert(pow10(5) == 100000);
    assert(pow10(6) == 1000000);
    assert(pow10(7) == 10000000);
    assert(pow10(8) == 100000000);
    assert(pow10(9) == 1000000000);
    assert(pow10(10) == 10000000000);
}

/// The numeral character for a digit has that digit's code point.
proof fn lemma_dec_digit_val(d: nat)
    requires
        d < 10,
    ensures
        crate::text::dec_digit(d) as int == 48 + d,
{
    if d == 0 {
    } else if d == 1 {
    } else if d == 2 {
    } else if d == 3 {
    } else if d == 4 {
    } else if d == 5 {
    } else if d == 6 {
    } else if d == 7 {
    } else if d == 8 {
    } else {
    }
}

/// Every character of a decimal numeral is a digit.
proof fn lemma_dec_digits(n: nat)
    ensures
        forall|i: int| 0 <= i < dec_spec(n).len() ==> is_digit_char(dec_spec(n)[i]),
    decreases n,
{
    if n < 10 {
        lemma_dec_digit_val(n);
    } else {
        lemma_dec_digits(n / 10);
        lemma_dec_digit_val(n % 10);
        assert forall|i: int| 0 <= i < dec_spec(n).len() implies is_digit_char(
            dec_spec(n)[i],
        ) by {
            if i < dec_spec(n / 10).len() {
                assert(dec_spec(n)[i] == dec_spec(n / 10)[i]);
            } else {
                assert(dec_spec(n)[i] == crate::text::dec_digit(n % 10));
            }
        }
    }
}

/// Reading a numeral back as a number restores the number.
proof fn lemma_num_of_dec(n: nat)
    ensures
        num_of(dec_spec(n)) == n,
    decreases n,
{
    if n < 10 {
        assert(seq![crate::text::dec_digit(n)].drop_last() =~= Seq::<char>::empty());
        assert(num_of(Seq::<char>::empty()) == 0);
        lemma_dec_digit_val(n);
    } else {
        lemma_num_of_dec(n / 10);
        assert(dec_spec(n).drop_last() =~= dec_spec(n / 10));
        assert(dec_spec(n).last() == crate::text::dec_digit(n % 10));
        lemma_dec_digit_val(n % 10);
        assert((n / 10) * 10 + (n % 10) == n) by (nonlinear_arith);
    }
}

proof fn lemma_dec_len_bound(n: nat, k: nat)
    requires
        1 <= k,
        n < pow10(k),
    ensures
        1 <= dec_spec(n).len() <= k,
    decreases n,
{
    if n < 10 {
    } else {
        assert(k >= 2) by {
            if k == 1 {
                assert(pow10(1) == 10 * pow10(0));
                assert(pow10(0) == 1);
            }
        }
        assert(pow10(k) == 10 * pow10((k - 1) as nat));
        assert(n / 10 < pow10((k - 1) as nat)) by (nonlinear_arith)
            requires
                n < 10 * pow10((k - 1) as nat),
        ;
        lemma_dec_len_bound(n / 10, (k - 1) as nat);
    }
}

/// A run of digits is worth less than ten to the power of its length.
proof fn lemma_num_of_bound(s: Seq<char>)
    requires
        forall|j: int| 0 <= j < s.len() ==> is_digit_char(s[j]),
    ensures
        0 <= num_of(s) < pow10(s.len()),
    decreases s.len(),
{
    if s.len() == 0 {
    } else {
        lemma_num_of_bound(s.drop_last());
        assert(pow10(s.len()) == 10 * pow10((s.len() - 1) as nat));
        let p = num_of(s.drop_last());
        let d = s.last() as int - 48;
        assert(0 <= p * 10 + d < 10 * pow10((s.len() - 1) as nat)) by (nonlinear_arith)
            requires
                0 <= p < pow10((s.len() - 1) as nat),
                0 <= d <= 9,
        ;
    }
}

/// The end of the run of digits starting at `i`.
pub open spec fn digit_run_end(s: Seq<char>, i: int) -> int
    decreases s.len() - i,
{
    if 0 <= i && i < s.len() && is_digit_char(s[i]) {
        digit_run_end(s, i + 1)
    } else {
        i
    }
}

proof fn lemma_run_end_props(s: Seq<char>, i: int)
    requires
        0 <= i <= s.len(),
    ensures
        i <= digit_run_end(s, i) <= s.len(),
        forall|j: int| i <= j < digit_run_end(s, i) ==> is_digit_char(s[j]),
        digit_run_end(s, i) == s.len() || !is_digit_char(s[digit_run_end(s, i)]),
    decreases s.len() - i,
{
    if i < s.len() && is_digit_char(s[i]) {
        lemma_run_end_props(s, i + 1);
    }
}

/// A run of digits followed by a non-digit (or the end) runs exactly to the
/// end of those digits.
proof fn lemma_run_end_of_digits(s: Seq<char>, i: int, len_d: int)
    requires
        0 <= i,
        0 <= len_d,
        i + len_d <= s.len(),
        forall|j: int| i <= j < i + len_d ==> is_digit_char(s[j]),
        i + len_d == s.len() || !is_digit_char(s[i + len_d]),
    ensures
        digit_run_end(s, i) == i + len_d,
    decreases len_d,
{
    if len_d > 0 {
        lemma_run_end_of_digits(s, i + 1, len_d - 1);
    }
}

/// A number read from the input: the digit run starting at `i`, rejected
/// when it is absent, longer than ten digits or beyond `u32`.
pub open spec fn spec_parse_u32(s: Seq<char>, i: int) -> Option<(u32, int)> {
    let e = digit_run_end(s, i);
    if e == i || e - i > 10 {
        Option::None
    } else if num_of(s.subrange(i, e)) > u32::MAX {
        Option::None
    } else {
        Option::Some((num_of(s.subrange(i, e)) as u32, e))
    }
}

fn digit_at(v: &Vec<char>, i: usize) -> (r: bool)
    requires
        i < v@.len(),
    ensures
        r == is_digit_char(v@[i as int]),
{
    let c = v[i];
    '0' <= c && c <= '9'
}

fn find_digit_run_end(v: &Vec<char>, i: usize) -> (e: usize)
    requires
        i <= v@.len(),
    ensures
        e as int == digit_run_end(v@, i as int),
        i <= e <= v@.len(),
{
    let mut e = i;
    while e < v.len() && digit_at(v, e)
        invariant
            i <= e <= v@.len(),
            digit_run_end(v@, i as int) == digit_run_end(v@, e as int),
        decreases v@.len() - e,
    {
        e = e + 1;
    }
    e
}

fn digit_value(c: char) -> (d: u64)
    requires
        is_digit_char(c),
    ensures
        d as int == c as int - 48,
{
    match c {
        '0' => 0,
        '1' => 1,
        '2' => 2,
        '3' => 3,
        '4' => 4,
        '5' => 5,
        '6' => 6,
        '7' => 7,
        '8' => 8,
        _ => 9,
    }
}

fn num_of_range(v: &Vec<char>, i: usize, e: usize) -> (r: u64)
    requires
        i <= e <= v@.len(),
        e - i <= 10,
        forall|j: int| i <= j < e ==> is_digit_char(v@[j]),
    ensures
        r as int == num_of(v@.subrange(i as int, e as int)),
    decreases e - i,
{
    if e == i {
        proof {
            assert(v@.subrange(i as int, e as int) =~= Seq::<char>::empty());
        }
        0
    } else {
        let p = num_of_range(v, i, e - 1);
        proof {
            lemma_pow10_values();
            lemma_num_of_bound(v@.subrange(i as int, e - 1));
            assert(pow10(v@.subrange(i as int, e - 1).len()) <= pow10(9)) by {
                lemma_pow10_mono(v@.subrange(i as int, e - 1).len(), 9);
            }
            assert(v@.subrange(i as int, e as int).drop_last() =~= v@.subrange(i as int, e - 1));
            assert(v@.subrange(i as int, e as int).last() == v@[e - 1]);
        }
        let d = digit_value(v[e - 1]);
        p * 10 + d
    }
}

proof fn lemma_pow10_mono(a: nat, b: nat)
    requires
        a <= b,
    ensures
        pow10(a) <= pow10(b),
    decreases b,
{
    if a < b {
        lemma_pow10_mono(a, (b - 1) as nat);
        assert(pow10(b) == 10 * pow10((b - 1) as nat));
        assert(10 * pow10((b - 1) as nat) >= pow10((b - 1) as nat)) by (nonlinear_arith)
            requires
                pow10((b - 1) as nat) >= 0,
        ;
    }
}

fn parse_u32(v: &Vec<char>, i: usize) -> (r: Option<(u32, usize)>)
    requires
        i <= v@.len(),
    ensures
        match spec_parse_u32(v@, i as int) {
            Option::None => r is None,
            Option::Some((n, e)) => r matches Some(p) && p.0 == n && p.1 as int == e && p.1
                <= v@.len(),
        },
{
    let e = find_digit_run_end(v, i);
    proof {
        lemma_run_end_props(v@, i as int);
    }
    if e == i || e - i > 10 {
        return Option::None;
    }
    let val = num_of_range(v, i, e);
    if val > 4294967295u64 {
        Option::None
    } else {
        Option::Some((val as u32, e))
    }
}

/// Reading back an encoded number restores it, provided no digit follows.
proof fn lemma_parse_u32_of_encoded(s: Seq<char>, i: int, n: u32)
    requires
        0 <= i,
        i + dec_spec(n as nat).len() <= s.len(),
        s.subrange(i, i + dec_spec(n as nat).len()) == dec_spec(n as nat),
        i + dec_spec(n as nat).len() == s.len() || !is_digit_char(
            s[i + dec_spec(n as nat).len()],
        ),
    ensures
        spec_parse_u32(s, i) == Option::Some((n, i + dec_spec(n as nat).len())),
{
    let d = dec_spec(n as nat);
    lemma_dec_digits(n as nat);
    lemma_pow10_values();
    lemma_dec_len_bound(n as nat, 10);
    assert forall|j: int| i <= j < i + d.len() implies is_digit_char(s[j]) by {
        assert(s[j] == d[j - i]);
    }
    lemma_run_end_of_digits(s, i, d.len() as int);
    lemma_num_of_dec(n as nat);
    assert(s.subrange(i, i + d.len()) == d);
}

/// A boolean read from the input.
pub open spec fn spec_parse_bool(s: Seq<char>, i: int) -> Option<(bool, int)> {
    if 0 <= i && i + 4 <= s.len() && s.subrange(i, i + 4) == "true"@ {
        Option::Some((true, i + 4))
    } else if 0 <= i && i + 5 <= s.len() && s.subrange(i, i + 5) == "false"@ {
        Option::Some((false, i + 5))
    } else {
        Option::None
    }
}

/// The position after the literal, when the input continues with it at `i`.
pub open spec fn spec_expect(s: Seq<char>, i: int, lit: Seq<char>) -> Option<int> {
    if 0 <= i && i + lit.len() <= s.len() && s.subrange(i, i + lit.len()) == lit {
        Option::Some(i + lit.len())
    } else {
        Option::None
    }
}

/// Checks that the input continues with the given literal at `pos`.
fn expect_lit(v: &Vec<char>, pos: usize, lit: &str) -> (r: Option<usize>)
    requires
        pos <= v@.len(),
    ensures
        match spec_expect(v@, pos as int, lit@) {
            Option::None => r is None,
            Option::Some(p2) => r matches Some(q) && q as int == p2 && q <= v@.len(),
        },
{
    let n = lit.unicode_len();
    if n > v.len() - pos {
        return Option::None;
    }
    let mut j: usize = 0;
    while j < n
        invariant
            pos + n <= v@.len(),
            v@.len() <= usize::MAX,
            n == lit@.len(),
            j <= n,
            forall|t: int| 0 <= t < j ==> v@[pos + t] == lit@[t],
        decreases n - j,
    {
        if v[pos + j] != lit.get_char(j) {
            proof {
                assert(v@.subrange(pos as int, pos + lit@.len() as int)[j as int] == v@[pos + j]);
            }
            return Option::None;
        }
        j = j + 1;
    }
    proof {
        assert(v@.subrange(pos as int, pos + lit@.len() as int) =~= lit@);
    }
    Option::Some(pos + n)
}

fn parse_bool(v: &Vec<char>, i: usize) -> (r: Option<(bool, usize)>)
    requires
        i <= v@.len(),
    ensures
        match spec_parse_bool(v@, i as int) {
            Option::None => r is None,
            Option::Some((b, j)) => r matches Some(p) && p.0 == b && p.1 as int == j && p.1
                <= v@.len(),
        },
{
    proof {
        reveal_strlit("true");
        reveal_strlit("false");
    }
    if let Option::Some(p) = expect_lit(v, i, "true") {
        return Option::Some((true, p));
    }
    if let Option::Some(p) = expect_lit(v, i, "false") {
        return Option::Some((false, p));
    }
    Option::None
}

/// The body of a string read from the input, starting after the opening
/// quote and running to the closing one; a backslash takes the next
/// character as it is.
pub open spec fn spec_parse_string_body(s: Seq<char>, i: int) -> Option<(Seq<char>, int)>
    decreases s.len() - i,
{
    if i < 0 || i >= s.len() {
        Option::None
    } else if s[i] == '"' {
        Option::Some((Seq::empty(), i + 1))
    } else if s[i] == '\\' {
        if i + 1 >= s.len() {
            Option::None
        } else {
            match spec_parse_string_body(s, i + 2) {
                Option::None => Option::None,
                Option::Some((rest, j)) => Option::Some((seq![s[i + 1]] + rest, j)),
            }
        }
    } else {
        match spec_parse_string_body(s, i + 1) {
            Option::None => Option::None,
            Option::Some((rest, j)) => Option::Some((seq![s[i]] + rest, j)),
        }
    }
}

fn parse_string_body(v: &Vec<char>, start: usize) -> (r: Option<(String, usize)>)
    requires
        start <= v@.len(),
    ensures
        match spec_parse_string_body(v@, start as int) {
            Option::None => r is None,
            Option::Some((content, j)) => r matches Some(p) && p.0@ == content && p.1 as int == j
                && p.1 <= v@.len(),
        },
{
    let mut out = String::new();
    let mut i = start;
    loop
        invariant
            start <= i <= v@.len(),
            match spec_parse_string_body(v@, i as int) {
                Option::None => spec_parse_string_body(v@, start as int) is None,
                Option::Some((c2, j)) => spec_parse_string_body(v@, start as int) matches Some(p)
                    && p.0 == out@ + c2 && p.1 == j,
            },
        decreases v@.len() - i,
    {
        if i >= v.len() {
            return Option::None;
        }
        let c = v[i];
        if c == '"' {
            proof {
                assert(out@ + Seq::<char>::empty() =~= out@);
            }
            return Option::Some((out, i + 1));
        }
        if c == '\\' {
            if i + 1 >= v.len() {
                return Option::None;
            }
            string_push(&mut out, v[i + 1]);
            proof {
                let rec = spec_parse_string_body(v@, i + 2);
                if rec is Some {
                    let (c2, j) = rec.unwrap();
                    assert(out@ + c2 =~= out@.drop_last() + (seq![v@[i + 1]] + c2));
                }
            }
            i = i + 2;
        } else {
            string_push(&mut out, c);
            proof {
                let rec = spec_parse_string_body(v@, i + 1);
                if rec is Some {
                    let (c2, j) = rec.unwrap();
                    assert(out@ + c2 =~= out@.drop_last() + (seq![v@[i as int]] + c2));
                }
            }
            i = i + 1;
        }
    }
}

/// Reading back an escaped string restores it.
proof fn lemma_parse_string_of_escaped(s: Seq<char>, i: int, content: Seq<char>)
    requires
        0 <= i,
        i + escape_spec(content).len() + 1 <= s.len(),
        s.subrange(i, i + escape_spec(content).len() + 1) == escape_spec(content) + seq!['"'],
    ensures
        spec_parse_string_body(s, i) == Option::Some(
            (content, i + escape_spec(content).len() + 1),
        ),
    decreases content.len(),
{
    let esc = escape_spec(content);
    if content.len() == 0 {
        assert(s[i] == (esc + seq!['"'])[0]);
    } else {
        let c = content[0];
        let rest = content.drop_first();
        let esc_rest = escape_spec(rest);
        if c == '"' || c == '\\' {
            assert(esc == seq!['\\', c] + esc_rest);
            assert(s[i] == (esc + seq!['"'])[0]);
            assert(s[i + 1] == (esc + seq!['"'])[1]);
            assert(s[i] == '\\');
            assert(s[i + 1] == c);
            assert(s.subrange(i + 2, i + 2 + esc_rest.len() + 1) =~= esc_rest + seq!['"']) by {
                assert forall|t: int| 0 <= t < esc_rest.len() + 1 implies s.subrange(
                    i + 2,
                    i + 2 + esc_rest.len() + 1,
                )[t] == (esc_rest + seq!['"'])[t] by {
                    assert(s.subrange(i + 2, i + 2 + esc_rest.len() + 1)[t] == s[i + 2 + t]);
                    assert(s[i + 2 + t] == (esc + seq!['"'])[2 + t]);
                }
            }
            lemma_parse_string_of_escaped(s, i + 2, rest);
            assert(seq![s[i + 1]] + rest =~= content);
        } else {
            assert(esc == seq![c] + esc_rest);
            assert(s[i] == (esc + seq!['"'])[0]);
            assert(s[i] == c);
            assert(s.subrange(i + 1, i + 1 + esc_rest.len() + 1) =~= esc_rest + seq!['"']) by {
                assert forall|t: int| 0 <= t < esc_rest.len() + 1 implies s.subrange(
                    i + 1,
                    i + 1 + esc_rest.len() + 1,
                )[t] == (esc_rest + seq!['"'])[t] by {
                    assert(s.subrange(i + 1, i + 1 + esc_rest.len() + 1)[t] == s[i + 1 + t]);
                    assert(s[i + 1 + t] == (esc + seq!['"'])[1 + t]);
                }
            }
            lemma_parse_string_of_escaped(s, i + 1, rest);
            assert(seq![s[i]] + rest =~= content);
        }
    }
}

/// An optional string: a quoted string, or the literal `null`.
pub open spec fn spec_parse_opt_string(s: Seq<char>, i: int) -> Option<(Option<Seq<char>>, int)> {
    if 0 <= i && i < s.len() && s[i] == '"' {
        match spec_parse_string_body(s, i + 1) {
            Option::None => Option::None,
            Option::Some((c, j)) => Option::Some((Option::Some(c), j)),
        }
    } else if 0 <= i && i + 4 <= s.len() && s.subrange(i, i + 4) == "null"@ {
        Option::Some((Option::None, i + 4))
    } else {
        Option::None
    }
}

fn parse_opt_string(v: &Vec<char>, i: usize) -> (r: Option<(Option<String>, usize)>)
    requires
        i <= v@.len(),
    ensures
        match spec_parse_opt_string(v@, i as int) {
            Option::None => r is None,
            Option::Some((m, j)) => r matches Some(p) && p.1 as int == j && p.1 <= v@.len() && (
            match (p.0, m) {
                (Option::Some(ps), Option::Some(ms)) => ps@ == ms,
                (Option::None, Option::None) => true,
                _ => false,
            }),
        },
{
    proof {
        reveal_strlit("null");
    }
    if i < v.len() && v[i] == '"' {
        match parse_string_body(v, i + 1) {
            Option::Some((content, j)) => Option::Some((Option::Some(content), j)),
            Option::None => Option::None,
        }
    } else {
        match expect_lit(v, i, "null") {
            Option::Some(j) => Option::Some((Option::None, j)),
            Option::None => Option::None,
        }
    }
}

/// An optional number: a decimal number, or the literal `null`.
pub open spec fn spec_parse_opt_u32(s: Seq<char>, i: int) -> Option<(Option<u32>, int)> {
    if 0 <= i && i + 4 <= s.len() && s.subrange(i, i + 4) == "null"@ {
        Option::Some((Option::None, i + 4))
    } else {
        match spec_parse_u32(s, i) {
            Option::None => Option::None,
            Option::Some((n, j)) => Option::Some((Option::Some(n), j)),
        }
    }
}

/// The record a well-formed document describes: the fields in their fixed
/// order, each read by its parser, with nothing left over.
pub open spec fn spec_decode(s: Seq<char>) -> Option<ResultModel> {
    match spec_expect(s, 0, "{\"success\":"@) {
        Option::None => Option::None,
        Option::Some(p1) => match spec_parse_bool(s, p1) {
            Option::None => Option::None,
            Option::Some((success, p2)) => match spec_expect(s, p2, ",\"message\":"@) {
                Option::None => Option::None,
                Option::Some(p3) => match spec_parse_opt_string(s, p3) {
                    Option::None => Option::None,
                    Option::Some((message, p4)) => match spec_expect(s, p4, ",\"experience\":"@) {
                        Option::None => Option::None,
                        Option::Some(p5) => match spec_parse_opt_u32(s, p5) {
                            Option::None => Option::None,
                            Option::Some((experience, p6)) => match spec_expect(
                                s,
                                p6,
                                ",\"money\":"@,
                            ) {
                                Option::None => Option::None,
                                Option::Some(p7) => match spec_parse_opt_u32(s, p7) {
                                    Option::None => Option::None,
                                    Option::Some((money, p8)) => match spec_expect(
                                        s,
                                        p8,
                                        ",\"detection\":"@,
                                    ) {
                                        Option::None => Option::None,
                                        Option::Some(p9) => match spec_parse_opt_u32(s, p9) {
                                            Option::None => Option::None,
                                            Option::Some((detection, p10)) => match spec_expect(
                                                s,
                                                p10,
                                                "}"@,
                                            ) {
                                                Option::None => Option::None,
                                                Option::Some(p11) => if p11 == s.len() {
                                                    Option::Some(
                                                        ResultModel {
                                                            success,
                                                            message,
                                                            experience,
                                                            money,
                                                            detection,
                                                        },
                                                    )
                                                } else {
                                                    Option::None
                                                },
                                            },
                                        },
                                    },
                                },
                            },
                        },
                    },
                },
            },
        },
    }
}

fn parse_opt_u32(v: &Vec<char>, i: usize) -> (r: Option<(Option<u32>, usize)>)
    requires
        i <= v@.len(),
    ensures
        match spec_parse_opt_u32(v@, i as int) {
            Option::None => r is None,
            Option::Some((m, j)) => r matches Some(p) && p.0 == m && p.1 as int == j && p.1
                <= v@.len(),
        },
{
    proof {
        reveal_strlit("null");
    }
    match expect_lit(v, i, "null") {
        Option::Some(j) => Option::Some((Option::None, j)),
        Option::None => {
            match parse_u32(v, i) {
                Option::Some((n, j)) => Option::Some((Option::Some(n), j)),
                Option::None => Option::None,
            }
        },
    }
}



/// Reads a canonical document back into an outcome record. The contract,
/// together with `lemma_decode_encode_round_trip` and the contract of
/// `encode_result`, makes the codec lossless: decoding an encoded record
/// restores it.
pub fn decode_result(s: &str) -> (r: Option<CommandResult>)
    ensures
        match spec_decode(s@) {
            Option::None => r is None,
            Option::Some(m0) => r matches Some(cr) && cr@ == m0,
        },
{
    let v = str_to_chars(s);
    let p = match expect_lit(&v, 0, "{\"success\":") {
        Option::Some(p) => p,
        Option::None => {
            return Option::None;
        },
    };
    let (success, p) = match parse_bool(&v, p) {
        Option::Some(x) => x,
        Option::None => {
            return Option::None;
        },
    };
    let p = match expect_lit(&v, p, ",\"message\":") {
        Option::Some(p) => p,
        Option::None => {
            return Option::None;
        },
    };
    let (message, p) = match parse_opt_string(&v, p) {
        Option::Some(x) => x,
        Option::None => {
            return Option::None;
        },
    };
    let p = match expect_lit(&v, p, ",\"experience\":") {
        Option::Some(p) => p,
        Option::None => {
            return Option::None;
        },
    };
    let (experience, p) = match parse_opt_u32(&v, p) {
        Option::Some(x) => x,
        Option::None => {
            return Option::None;
        },
    };
    let p = match expect_lit(&v, p, ",\"money\":") {
        Option::Some(p) => p,
        Option::None => {
            return Option::None;
        },
    };
    let (money, p) = match parse_opt_u32(&v, p) {
        Option::Some(x) => x,
        Option::None => {
            return Option::None;
        },
    };
    let p = match expect_lit(&v, p, ",\"detection\":") {
        Option::Some(p) => p,
        Option::None => {
            return Option::None;
        },
    };
    let (detection, p) = match parse_opt_u32(&v, p) {
        Option::Some(x) => x,
        Option::None => {
            return Option::None;
        },
    };
    let p = match expect_lit(&v, p, "}") {
        Option::Some(p) => p,
        Option::None => {
            return Option::None;
        },
    };
    if p != v.len() {
        return Option::None;
    }
    Option::Some(CommandResult { success, message, experience, money, detection })
}



/// Offset of the encoded success flag inside an encoded record.
spec fn rt_q_bool(m: ResultModel) -> int {
    "{\"success\":"@.len() as int
}

spec fn rt_q_msg_label(m: ResultModel) -> int {
    rt_q_bool(m) + enc_bool(m.success).len()
}

spec fn rt_q_msg(m: ResultModel) -> int {
    rt_q_msg_label(m) + ",\"message\":"@.len()
}

spec fn rt_q_xp_label(m: ResultModel) -> int {
    rt_q_msg(m) + enc_opt_string(m.message).len()
}

spec fn rt_q_xp(m: ResultModel) -> int {
    rt_q_xp_label(m) + ",\"experience\":"@.len()
}

spec fn rt_q_mo_label(m: ResultModel) -> int {
    rt_q_xp(m) + enc_opt_u32(m.experience).len()
}

spec fn rt_q_mo(m: ResultModel) -> int {
    rt_q_mo_label(m) + ",\"money\":"@.len()
}

spec fn rt_q_de_label(m: ResultModel) -> int {
    rt_q_mo(m) + enc_opt_u32(m.money).len()
}

spec fn rt_q_de(m: ResultModel) -> int {
    rt_q_de_label(m) + ",\"detection\":"@.len()
}

spec fn rt_q_close(m: ResultModel) -> int {
    rt_q_de(m) + enc_opt_u32(m.detection).len()
}

proof fn lemma_rt_open(m: ResultModel)
    ensures
        spec_expect(encode_spec(m), 0, "{\"success\":"@) == Option::Some(rt_q_bool(m)),
{
    let s = encode_spec(m);
    assert(s.subrange(0, rt_q_bool(m)) =~= "{\"success\":"@);
}

proof fn lemma_rt_bool(m: ResultModel)
    ensures
        spec_parse_bool(encode_spec(m), rt_q_bool(m)) == Option::Some(
            (m.success, rt_q_msg_label(m)),
        ),
{
    reveal_strlit("true");
    reveal_strlit("false");
    let s = encode_spec(m);
    let q = rt_q_bool(m);
    let b = enc_bool(m.success);
    assert forall|t: int| 0 <= t < b.len() implies s[q + t] == b[t] by {}
    if m.success {
        assert(s.subrange(q, q + 4) =~= "true"@);
    } else {
        if q + 4 <= s.len() {
            assert(s.subrange(q, q + 4)[0] == s[q]);
            assert(s[q] == 'f');
            assert(s.subrange(q, q + 4) != "true"@);
        }
        assert(s.subrange(q, q + 5) =~= "false"@);
    }
}

proof fn lemma_rt_msg_label(m: ResultModel)
    ensures
        spec_expect(encode_spec(m), rt_q_msg_label(m), ",\"message\":"@) == Option::Some(
            rt_q_msg(m),
        ),
{
    let s = encode_spec(m);
    assert(s.subrange(rt_q_msg_label(m), rt_q_msg(m)) =~= ",\"message\":"@);
}

proof fn lemma_rt_msg(m: ResultModel)
    ensures
        spec_parse_opt_string(encode_spec(m), rt_q_msg(m)) == Option::Some(
            (m.message, rt_q_xp_label(m)),
        ),
{
    reveal_strlit("null");
    let s = encode_spec(m);
    let q = rt_q_msg(m);
    let msg = enc_opt_string(m.message);
    assert forall|t: int| 0 <= t < msg.len() implies s[q + t] == msg[t] by {}
    match m.message {
        Option::None => {
            assert(s[q] == 'n');
            assert(s.subrange(q, q + 4) =~= "null"@);
        },
        Option::Some(content) => {
            let esc = escape_spec(content);
            assert(msg == seq!['"'] + esc + seq!['"']);
            assert(s[q] == '"');
            assert(s.subrange(q + 1, q + 1 + esc.len() + 1) =~= esc + seq!['"']) by {
                assert forall|t: int| 0 <= t < esc.len() + 1 implies s.subrange(
                    q + 1,
                    q + 1 + esc.len() + 1,
                )[t] == (esc + seq!['"'])[t] by {
                    assert(s.subrange(q + 1, q + 1 + esc.len() + 1)[t] == s[q + 1 + t]);
                    assert(s[q + 1 + t] == msg[1 + t]);
                }
            }
            lemma_parse_string_of_escaped(s, q + 1, content);
        },
    }
}

proof fn lemma_rt_xp_label(m: ResultModel)
    ensures
        spec_expect(encode_spec(m), rt_q_xp_label(m), ",\"experience\":"@) == Option::Some(
            rt_q_xp(m),
        ),
{
    let s = encode_spec(m);
    assert(s.subrange(rt_q_xp_label(m), rt_q_xp(m)) =~= ",\"experience\":"@);
}

/// Shared step: an encoded optional number followed by a non-digit,
/// non-`n` character reads back as itself.
proof fn lemma_rt_opt_u32_at(s: Seq<char>, q: int, x: Option<u32>)
    requires
        0 <= q,
        q + enc_opt_u32(x).len() < s.len(),
        forall|t: int| 0 <= t < enc_opt_u32(x).len() ==> s[q + t] == enc_opt_u32(x)[t],
        !is_digit_char(s[q + enc_opt_u32(x).len()]),
        s[q + enc_opt_u32(x).len()] != 'u',
        s[q + enc_opt_u32(x).len()] != 'l',
    ensures
        spec_parse_opt_u32(s, q) == Option::Some((x, q + enc_opt_u32(x).len())),
{
    reveal_strlit("null");
    match x {
        Option::None => {
            assert(s.subrange(q, q + 4) =~= "null"@);
        },
        Option::Some(n) => {
            lemma_dec_digits(n as nat);
            let d = dec_spec(n as nat);
            if q + 4 <= s.len() {
                assert(s.subrange(q, q + 4)[0] == s[q]);
                if d.len() >= 1 {
                    assert(s[q] == d[0]);
                    assert(is_digit_char(s[q]));
                }
                assert(s.subrange(q, q + 4) != "null"@);
            }
            assert(s.subrange(q, q + d.len()) =~= d);
            lemma_parse_u32_of_encoded(s, q, n);
        },
    }
}

proof fn lemma_rt_xp(m: ResultModel)
    ensures
        spec_parse_opt_u32(encode_spec(m), rt_q_xp(m)) == Option::Some(
            (m.experience, rt_q_mo_label(m)),
        ),
{
    reveal_strlit(",\"money\":");
    let s = encode_spec(m);
    let q = rt_q_xp(m);
    let xp = enc_opt_u32(m.experience);
    assert forall|t: int| 0 <= t < xp.len() implies s[q + t] == xp[t] by {}
    assert(s[q + xp.len()] == ',');
    lemma_rt_opt_u32_at(s, q, m.experience);
}

proof fn lemma_rt_mo_label(m: ResultModel)
    ensures
        spec_expect(encode_spec(m), rt_q_mo_label(m), ",\"money\":"@) == Option::Some(rt_q_mo(m)),
{
    let s = encode_spec(m);
    assert(s.subrange(rt_q_mo_label(m), rt_q_mo(m)) =~= ",\"money\":"@);
}

proof fn lemma_rt_mo(m: ResultModel)
    ensures
        spec_parse_opt_u32(encode_spec(m), rt_q_mo(m)) == Option::Some(
            (m.money, rt_q_de_label(m)),
        ),
{
    reveal_strlit(",\"detection\":");
    let s = encode_spec(m);
    let q = rt_q_mo(m);
    let mo = enc_opt_u32(m.money);
    assert forall|t: int| 0 <= t < mo.len() implies s[q + t] == mo[t] by {}
    assert(s[q + mo.len()] == ',');
    lemma_rt_opt_u32_at(s, q, m.money);
}

proof fn lemma_rt_de_label(m: ResultModel)
    ensures
        spec_expect(encode_spec(m), rt_q_de_label(m), ",\"detection\":"@) == Option::Some(
            rt_q_de(m),
        ),
{
    let s = encode_spec(m);
    assert(s.subrange(rt_q_de_label(m), rt_q_de(m)) =~= ",\"detection\":"@);
}

proof fn lemma_rt_de(m: ResultModel)
    ensures
        spec_parse_opt_u32(encode_spec(m), rt_q_de(m)) == Option::Some(
            (m.detection, rt_q_close(m)),
        ),
{
    reveal_strlit("}");
    let s = encode_spec(m);
    let q = rt_q_de(m);
    let de = enc_opt_u32(m.detection);
    assert forall|t: int| 0 <= t < de.len() implies s[q + t] == de[t] by {}
    assert(s[q + de.len()] == '}');
    lemma_rt_opt_u32_at(s, q, m.detection);
}

proof fn lemma_rt_close(m: ResultModel)
    ensures
        spec_expect(encode_spec(m), rt_q_close(m), "}"@) == Option::Some(
            encode_spec(m).len() as int,
        ),
{
    let s = encode_spec(m);
    assert(s.len() == rt_q_close(m) + "}"@.len());
    assert(s.subrange(rt_q_close(m), s.len() as int) =~= "}"@);
}

/// Law: the codec is lossless — reading back the canonical document of any
/// outcome record restores that record exactly.
pub proof fn lemma_decode_encode_round_trip(m: ResultModel)
    ensures
        spec_decode(encode_spec(m)) == Option::Some(m),
{
    let s = encode_spec(m);
    lemma_rt_open(m);
    lemma_rt_bool(m);
    lemma_rt_msg_label(m);
    lemma_rt_msg(m);
    lemma_rt_xp_label(m);
    lemma_rt_xp(m);
    lemma_rt_mo_label(m);
    lemma_rt_mo(m);
    lemma_rt_de_label(m);
    lemma_rt_de(m);
    lemma_rt_close(m);
    assert(spec_decode(s) == Option::Some(
        ResultModel {
            success: m.success,
            message: m.message,
            experience: m.experience,
            money: m.money,
            detection: m.detection,
        },
    ));
}

} // verus!
