use vstd::prelude::*;
use vstd::string::StrSliceExecFns;
use crate::tag::TypeTag;
use crate::value::{value_of_int, Value};

verus! {

/// Whether `c` is one of the ASCII digits `0` to `9`.
pub open spec fn is_digit(c: char) -> bool {
    '0' <= c && c <= '9'
}

/// The value of the ASCII digit `c`.
pub open spec fn digit_value(c: char) -> nat {
    (c as int - '0' as int) as nat
}

/// The ASCII digit whose value is `d`.
pub open spec fn digit_char(d: nat) -> char {
    (d + '0' as int) as char
}

/// Whether every character of `s` is an ASCII digit.
pub open spec fn all_digits(s: Seq<char>) -> bool {
    forall|i: int| 0 <= i < s.len() ==> is_digit(#[trigger] s[i])
}

/// The number that the digits `s` spell out in base ten, most significant first.
pub open spec fn digits_value(s: Seq<char>) -> nat
    decreases s.len(),
{
    if s.len() == 0 {
        0
    } else {
        digits_value(s.drop_last()) * 10 + digit_value(s.last())
    }
}

/// The shortest base-ten spelling of `n`.
pub open spec fn decimal(n: nat) -> Seq<char>
    decreases n,
{
    if n < 10 {
        seq![digit_char(n)]
    } else {
        decimal(n / 10).push(digit_char(n % 10))
    }
}

/// The integer that the text `s` denotes: an optional sign (`-` only where
/// `signed` holds) followed by one or more ASCII digits, nothing else.
pub open spec fn int_of_text(s: Seq<char>, signed: bool) -> Option<int> {
    if s.len() >= 2 && s[0] == '-' && signed && all_digits(s.drop_first()) {
        Some(-digits_value(s.drop_first()))
    } else if s.len() >= 2 && s[0] == '+' && all_digits(s.drop_first()) {
        Some(digits_value(s.drop_first()) as int)
    } else if s.len() >= 1 && all_digits(s) {
        Some(digits_value(s) as int)
    } else {
        None
    }
}

/// The value of type `tag` that the text `s` denotes, if it denotes one in the type's range.
pub open spec fn parse_spec(tag: TypeTag, s: Seq<char>) -> Option<Value> {
    match int_of_text(s, tag.signed()) {
        Some(x) => if tag.min_int() <= x <= tag.max_int() {
            Some(value_of_int(tag, x))
        } else {
            None
        },
        None => None,
    }
}

/// The text that shows the integer value `v`: a `-` for a negative value, then its digits.
pub open spec fn render_spec(v: Value) -> Seq<char> {
    if v.to_int() < 0 {
        seq!['-'] + decimal((-v.to_int()) as nat)
    } else {
        decimal(v.to_int() as nat)
    }
}

/// `decimal(n)` is a non-empty run of digits that spells out `n`.
pub proof fn lemma_decimal(n: nat)
    ensures
        decimal(n).len() >= 1,
        all_digits(decimal(n)),
        digits_value(decimal(n)) == n,
    decreases n,
{
    if n >= 10 {
        lemma_decimal(n / 10);
        let s = decimal(n);
        assert(s.drop_last() =~= decimal(n / 10));
        assert(digit_value(digit_char(n % 10)) == n % 10);
        assert(n == (n / 10) * 10 + n % 10);
        assert(s.last() == digit_char(n % 10));
    } else {
        let s = decimal(n);
        assert(s.drop_last() =~= Seq::<char>::empty());
        assert(digits_value(s.drop_last()) == 0);
    }
}

/// The digits of a prefix spell out no more than the whole.
pub proof fn lemma_digits_prefix(s: Seq<char>, k: int)
    requires
        0 <= k <= s.len(),
    ensures
        digits_value(s.subrange(0, k)) <= digits_value(s),
    decreases s.len(),
{
    if k < s.len() {
        lemma_digits_prefix(s.drop_last(), k);
        assert(s.drop_last().subrange(0, k) =~= s.subrange(0, k));
    } else {
        assert(s.subrange(0, k) =~= s);
    }
}

/// Reading the text of an integer value gives that value back.
pub proof fn lemma_parse_render(v: Value)
    requires
        !v.tag().floating(),
    ensures
        parse_spec(v.tag(), render_spec(v)) == Some(v),
{
    v.lemma_range();
    v.tag().lemma_modulus();
    let x = v.to_int();
    let s = render_spec(v);
    if x < 0 {
        lemma_decimal((-x) as nat);
        assert(s.drop_first() =~= decimal((-x) as nat));
    } else {
        lemma_decimal(x as nat);
        assert(is_digit(s[0]));
    }
}

/// The ASCII digit whose value is `d`, as text.
fn digit_text(d: u8) -> (r: &'static str)
    requires
        d < 10,
    ensures
        r@ == seq![digit_char(d as nat)],
{
    proof {
        reveal_strlit("0");
        reveal_strlit("1");
        reveal_strlit("2");
        reveal_strlit("3");
        reveal_strlit("4");
        reveal_strlit("5");
        reveal_strlit("6");
        reveal_strlit("7");
        reveal_strlit("8");
        reveal_strlit("9");
    }
    let r = match d {
        0 => "0",
        1 => "1",
        2 => "2",
        3 => "3",
        4 => "4",
        5 => "5",
        6 => "6",
        7 => "7",
        8 => "8",
        _ => "9",
    };
    assert(r@ =~= seq![digit_char(d as nat)]);
    r
}

/// Appends the base-ten spelling of `n` to `out`.
fn push_decimal(out: &mut String, n: u128)
    ensures
        final(out)@ == old(out)@ + decimal(n as nat),
    decreases n,
{
    if n >= 10 {
        push_decimal(out, n / 10);
    }
    out.append(digit_text((n % 10) as u8));
    proof {
        if n >= 10 {
            assert(old(out)@ + decimal((n / 10) as nat) + seq![digit_char((n % 10) as nat)]
                =~= old(out)@ + decimal(n as nat));
        } else {
            assert(old(out)@ + seq![digit_char((n % 10) as nat)] =~= old(out)@ + decimal(n as nat));
        }
    }
}

/// Whether the value is negative, and its distance from zero.
fn sign_magnitude(v: &Value) -> (r: (bool, u128))
    requires
        !v.tag().floating(),
    ensures
        r.0 == (v.to_int() < 0),
        r.1 == if v.to_int() < 0 { -v.to_int() } else { v.to_int() },
{
    match *v {
        Value::U8(x) => (false, x as u128),
        Value::U16(x) => (false, x as u128),
        Value::U32(x) => (false, x as u128),
        Value::U64(x) => (false, x as u128),
        Value::U128(x) => (false, x),
        Value::I8(x) => if x < 0 { (true, (-(x + 1)) as u128 + 1) } else { (false, x as u128) },
        Value::I16(x) => if x < 0 { (true, (-(x + 1)) as u128 + 1) } else { (false, x as u128) },
        Value::I32(x) => if x < 0 { (true, (-(x + 1)) as u128 + 1) } else { (false, x as u128) },
        Value::I64(x) => if x < 0 { (true, (-(x + 1)) as u128 + 1) } else { (false, x as u128) },
        Value::I128(x) => if x < 0 { (true, (-(x + 1)) as u128 + 1) } else { (false, x as u128) },
        Value::F32(x) => (false, x as u128),
        Value::F64(x) => (false, x as u128),
    }
}

/// The decimal text of an integer value, as it is printed when a file is read.
pub fn render(v: &Value) -> (r: String)
    requires
        !v.tag().floating(),
    ensures
        r@ == render_spec(*v),
{
    let (neg, mag) = sign_magnitude(v);
    let mut out = String::new();
    if neg {
        proof {
            reveal_strlit("-");
        }
        out.append("-");
    }
    push_decimal(&mut out, mag);
    proof {
        if !neg {
            assert(out@ =~= render_spec(*v));
        }
    }
    out
}

/// The value of type `tag` whose sign is `neg` and whose distance from zero is `mag`,
/// if the type can hold it.
fn from_sign_magnitude(tag: TypeTag, neg: bool, mag: u128) -> (r: Option<Value>)
    requires
        !tag.floating(),
        neg ==> tag.signed(),
    ensures
        ({
            let x = if neg { -mag } else { mag as int };
            r == if tag.min_int() <= x <= tag.max_int() {
                Some(value_of_int(tag, x))
            } else {
                None::<Value>
            }
        }),
{
    proof {
        tag.lemma_modulus();
    }
    match tag {
        TypeTag::U8 => if mag <= 0xff { Some(Value::U8(mag as u8)) } else { None },
        TypeTag::U16 => if mag <= 0xffff { Some(Value::U16(mag as u16)) } else { None },
        TypeTag::U32 => if mag <= 0xffff_ffff { Some(Value::U32(mag as u32)) } else { None },
        TypeTag::U64 => if mag <= 0xffff_ffff_ffff_ffff {
            Some(Value::U64(mag as u64))
        } else {
            None
        },
        TypeTag::U128 => Some(Value::U128(mag)),
        TypeTag::I8 => if neg {
            if mag < 0x80 {
                Some(Value::I8(-(mag as i8)))
            } else if mag == 0x80 {
                Some(Value::I8(i8::MIN))
            } else {
                None
            }
        } else {
            if mag <= 0x7f { Some(Value::I8(mag as i8)) } else { None }
        },
        TypeTag::I16 => if neg {
            if mag < 0x8000 {
                Some(Value::I16(-(mag as i16)))
            } else if mag == 0x8000 {
                Some(Value::I16(i16::MIN))
            } else {
                None
            }
        } else {
            if mag <= 0x7fff { Some(Value::I16(mag as i16)) } else { None }
        },
        TypeTag::I32 => if neg {
            if mag < 0x8000_0000 {
                Some(Value::I32(-(mag as i32)))
            } else if mag == 0x8000_0000 {
                Some(Value::I32(i32::MIN))
            } else {
                None
            }
        } else {
            if mag <= 0x7fff_ffff { Some(Value::I32(mag as i32)) } else { None }
        },
        TypeTag::I64 => if neg {
            if mag < 0x8000_0000_0000_0000 {
                Some(Value::I64(-(mag as i64)))
            } else if mag == 0x8000_0000_0000_0000 {
                Some(Value::I64(i64::MIN))
            } else {
                None
            }
        } else {
            if mag <= 0x7fff_ffff_ffff_ffff { Some(Value::I64(mag as i64)) } else { None }
        },
        TypeTag::I128 => if neg {
            if mag < i128::MAX as u128 + 1 {
                Some(Value::I128(-(mag as i128)))
            } else if mag == i128::MAX as u128 + 1 {
                Some(Value::I128(i128::MIN))
            } else {
                None
            }
        } else {
            if mag <= i128::MAX as u128 { Some(Value::I128(mag as i128)) } else { None }
        },
        TypeTag::F32 => None,
        TypeTag::F64 => None,
    }
}

/// The character at `i` of an ASCII text, as its byte.
proof fn lemma_ascii_byte(s: &str, i: int, b: u8)
    requires
        s.is_ascii(),
        0 <= i < s@.len(),
        s@[i] as u8 == b,
    ensures
        s@[i] as int == b as int,
        is_digit(s@[i]) <==> (0x30 <= b && b <= 0x39),
        is_digit(s@[i]) ==> digit_value(s@[i]) == b - 0x30,
        (s@[i] == '-') <==> (b == 0x2d),
        (s@[i] == '+') <==> (b == 0x2b),
{
    assert('\0' <= s@[i] <= '\u{7f}');
}

/// The value of type `tag` that the text `s` denotes: an optional sign (`-` only
/// for signed types) and one or more ASCII digits, within the type's range.
pub fn parse_text(tag: TypeTag, s: &str) -> (r: Option<Value>)
    requires
        !tag.floating(),
    ensures
        r == parse_spec(tag, s@),
        r matches Some(v) ==> v.tag() == tag,
{
    proof {
        tag.lemma_modulus();
    }
    if !s.is_ascii() {
        proof {
            let k = choose|k: int| 0 <= k < s@.len() && !('\0' <= #[trigger] s@[k] <= '\u{7f}');
            assert(!is_digit(s@[k]));
            if s@.len() >= 2 && k >= 1 {
                assert(s@.drop_first()[k - 1] == s@[k]);
            }
        }
        return None;
    }
    let n: usize = s.unicode_len();
    let mut start: usize = 0;
    let mut neg = false;
    if n >= 1 {
        let c0 = s.get_ascii(0);
        proof {
            lemma_ascii_byte(s, 0, c0);
        }
        if c0 == 0x2d && tag.is_signed() {
            neg = true;
            start = 1;
        } else if c0 == 0x2b {
            start = 1;
        }
    }
    if start == n {
        return None;
    }
    let ghost digits = s@.subrange(start as int, n as int);
    proof {
        if start == 1 {
            assert(digits =~= s@.drop_first());
        } else {
            assert(digits =~= s@);
        }
    }
    let mut acc: u128 = 0;
    let mut i: usize = start;
    proof {
        assert(s@.subrange(start as int, start as int) =~= Seq::<char>::empty());
    }
    while i < n
        invariant
            start <= i <= n,
            n == s@.len(),
            start <= 1,
            s.is_ascii(),
            !tag.floating(),
            neg ==> tag.signed(),
            start == 1 ==> (neg && s@[0] == '-' && tag.signed()) || (!neg && s@[0] == '+'),
            start == 0 ==> !neg && !(s@[0] == '-' && tag.signed()) && s@[0] != '+',
            digits == s@.subrange(start as int, n as int),
            all_digits(s@.subrange(start as int, i as int)),
            acc == digits_value(s@.subrange(start as int, i as int)),
        decreases n - i,
    {
        let c = s.get_ascii(i);
        proof {
            lemma_ascii_byte(s, i as int, c);
        }
        if c < 0x30 || c > 0x39 {
            proof {
                tag.lemma_modulus();
                assert(digits[i - start] == s@[i as int]);
                assert(!all_digits(digits));
                if start == 0 && s@.len() >= 2 && i >= 1 {
                    assert(s@.drop_first()[i - 1] == s@[i as int]);
                }
            }
            return None;
        }
        let d: u8 = c - 0x30;
        let ghost next = s@.subrange(start as int, i + 1);
        proof {
            assert(next.drop_last() =~= s@.subrange(start as int, i as int));
            assert(next.last() == s@[i as int]);
        }
        if acc > (u128::MAX - d as u128) / 10 {
            proof {
                assert(acc * 10 + d > u128::MAX) by (nonlinear_arith)
                    requires
                        acc > (u128::MAX - d as u128) / 10,
                        d < 10,
                ;
                tag.lemma_modulus();
                lemma_digits_prefix(digits, i + 1 - start);
                assert(digits.subrange(0, i + 1 - start) =~= next);
                assert(digits_value(next) == acc * 10 + d);
                assert(digits_value(digits) > u128::MAX);
                assert(tag.max_int() <= u128::MAX);
                assert(tag.min_int() >= -(u128::MAX as int));
                if start == 1 {
                    assert(digits =~= s@.drop_first());
                } else {
                    assert(digits =~= s@);
                }
            }
            return None;
        }
        acc = acc * 10 + d as u128;
        i = i + 1;
        proof {
            assert forall|j: int| 0 <= j < next.len() implies is_digit(#[trigger] next[j]) by {
                if j < next.len() - 1 {
                    assert(next[j] == s@.subrange(start as int, i - 1)[j]);
                }
            }
        }
    }
    from_sign_magnitude(tag, neg, acc)
}

} // verus!
