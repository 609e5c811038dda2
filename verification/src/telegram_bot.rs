//! The chat bot's configuration: the chat it answers in is named by a signed
//! decimal integer, read from the environment by the caller.
use vstd::prelude::*;

verus! {

/// Whether `c` is one of the digits `0` to `9`.
pub open spec fn is_digit(c: char) -> bool {
    48 <= (c as int) <= 57
}

/// The value of the digit `c`.
pub open spec fn digit_value(c: char) -> int {
    (c as int) - 48
}

/// Every character of `s` is a digit.
pub open spec fn all_digits(s: Seq<char>) -> bool {
    forall|i: int| 0 <= i < s.len() ==> is_digit(#[trigger] s[i])
}

/// The value of the digits `s`, most significant first.
pub open spec fn decimal_value(s: Seq<char>) -> int
    decreases s.len(),
{
    if s.len() == 0 {
        0
    } else {
        decimal_value(s.drop_last()) * 10 + digit_value(s.last())
    }
}

/// Whether `s` starts with a sign.
pub open spec fn has_sign(s: Seq<char>) -> bool {
    s.len() > 0 && (s[0] == '-' || s[0] == '+')
}

/// The integer that `s` writes: an optional `+` or `-`, then one or more
/// digits and nothing else, with a value that fits in an `i64`. Any other
/// text, an empty one, a lone sign or surrounding spaces among them, writes
/// none.
pub open spec fn decimal_i64(s: Seq<char>) -> Option<i64> {
    let body = if has_sign(s) {
        s.drop_first()
    } else {
        s
    };
    let v = if s.len() > 0 && s[0] == '-' {
        -decimal_value(body)
    } else {
        decimal_value(body)
    };
    if body.len() == 0 || !all_digits(body) {
        None
    } else if i64::MIN <= v <= i64::MAX {
        Some(v as i64)
    } else {
        None
    }
}

/// The value of digits read from the most significant: no digit is worth
/// zero, and one more digit `c` multiplies the value by ten and adds the
/// digit's own value.
pub proof fn lemma_decimal_value(d: Seq<char>, c: char)
    ensures
        decimal_value(Seq::<char>::empty()) == 0,
        decimal_value(d.push(c)) == decimal_value(d) * 10 + ((c as int) - ('0' as int)),
{
    assert(d.push(c).drop_last() =~= d);
}

/// Every run of one or more ASCII digits, bare or after a `+` or a `-`, is read
/// as its value with that sign when the value fits in an `i64`, and as none
/// when it does not.
pub proof fn lemma_decimal_i64_digits(d: Seq<char>)
    requires
        d.len() > 0,
        forall|i: int| 0 <= i < d.len() ==> ('0' as int) <= (#[trigger] d[i] as int) <= ('9' as int),
    ensures
        decimal_value(d) <= i64::MAX ==> decimal_i64(d) == Some(decimal_value(d) as i64),
        decimal_value(d) > i64::MAX ==> decimal_i64(d) is None,
        decimal_value(d) <= i64::MAX ==> decimal_i64(seq!['+'] + d) == Some(
            decimal_value(d) as i64,
        ),
        decimal_value(d) > i64::MAX ==> decimal_i64(seq!['+'] + d) is None,
        decimal_value(d) <= 9223372036854775808 ==> decimal_i64(seq!['-'] + d) == Some(
            (-decimal_value(d)) as i64,
        ),
        decimal_value(d) > 9223372036854775808 ==> decimal_i64(seq!['-'] + d) is None,
{
    assert(all_digits(d)) by {
        assert forall|i: int| 0 <= i < d.len() implies is_digit(#[trigger] d[i]) by {
            assert(('0' as int) <= (d[i] as int) <= ('9' as int));
        }
    }
    lemma_decimal_value_grows(d, 0);
    assert(d.take(0) =~= Seq::<char>::empty());
    assert(is_digit(d[0]));
    assert(!has_sign(d));
    let plus = seq!['+'] + d;
    let minus = seq!['-'] + d;
    assert(plus.drop_first() =~= d);
    assert(minus.drop_first() =~= d);
    assert(has_sign(plus) && plus[0] == '+');
    assert(has_sign(minus) && minus[0] == '-');
}

/// A text is read as none when it is empty, when it is a lone sign, or when
/// any of its characters is neither an ASCII digit nor a sign at the start.
pub proof fn lemma_decimal_i64_rejects(s: Seq<char>, i: int)
    ensures
        decimal_i64(Seq::<char>::empty()) is None,
        decimal_i64(seq!['+']) is None,
        decimal_i64(seq!['-']) is None,
        0 <= i < s.len() && !(('0' as int) <= (s[i] as int) <= ('9' as int)) && !(i == 0 && (
        s[0] == '-' || s[0] == '+')) ==> decimal_i64(s) is None,
{
    assert(seq!['+'].drop_first().len() == 0);
    assert(seq!['-'].drop_first().len() == 0);
    if 0 <= i < s.len() && !(('0' as int) <= (s[i] as int) <= ('9' as int)) && !(i == 0 && (
    s[0] == '-' || s[0] == '+')) {
        if has_sign(s) {
            let body = s.drop_first();
            assert(body[i - 1] == s[i]);
            assert(!is_digit(body[i - 1]));
        } else {
            assert(!is_digit(s[i]));
        }
    }
}

/// Digits never lower the value: a longer run of digits is worth at least
/// as much as its start.
proof fn lemma_decimal_value_grows(s: Seq<char>, k: int)
    requires
        all_digits(s),
        0 <= k <= s.len(),
    ensures
        0 <= decimal_value(s.take(k)) <= decimal_value(s),
    decreases s.len(),
{
    if s.len() == 0 {
        assert(s.take(k) =~= s);
    } else if k == s.len() {
        assert(s.take(k) =~= s);
        lemma_decimal_value_grows(s.drop_last(), s.len() - 1);
        assert(s.drop_last().take(s.len() - 1) =~= s.drop_last());
    } else {
        let t = s.drop_last();
        assert(all_digits(t)) by {
            assert forall|i: int| 0 <= i < t.len() implies is_digit(#[trigger] t[i]) by {
                assert(t[i] == s[i]);
            }
        }
        lemma_decimal_value_grows(t, k);
        assert(t.take(k) =~= s.take(k));
        assert(is_digit(s[s.len() - 1]));
    }
}

/// The chat id that `text` writes, as a signed decimal integer.
#[verifier::rlimit(40)]
pub fn parse_chat_id(text: &str) -> (r: Option<i64>)
    ensures
        r == decimal_i64(text@),
{
    let n = text.unicode_len();
    if n == 0 {
        return None;
    }
    let first = text.get_char(0);
    let negative = first == '-';
    let start: usize = if first == '-' || first == '+' {
        1
    } else {
        0
    };
    let ghost s = text@;
    let ghost body = s.subrange(start as int, n as int);
    assert(body =~= (if has_sign(s) {
        s.drop_first()
    } else {
        s
    }));
    if start == n {
        return None;
    }
    let mut magnitude: u64 = 0;
    let mut i: usize = start;
    while i < n
        invariant
            n == s.len(),
            s == text@,
            start <= i <= n,
            body == s.subrange(start as int, n as int),
            body == (if has_sign(s) {
                s.drop_first()
            } else {
                s
            }),
            body.len() > 0,
            all_digits(body.take(i - start)),
            magnitude == decimal_value(body.take(i - start)),
            magnitude <= 9223372036854775808u64,
        decreases n - i,
    {
        let c = text.get_char(i);
        let code = c as u32;
        assert(body[i - start] == c);
        let ghost prefix = body.take(i - start);
        let ghost next = body.take(i + 1 - start);
        assert(next.drop_last() =~= prefix);
        assert(next.last() == c);
        if code < 48 || code > 57 {
            proof {
                assert(!is_digit(body[i - start]));
            }
            return None;
        }
        assert(all_digits(next)) by {
            assert forall|j: int| 0 <= j < next.len() implies is_digit(#[trigger] next[j]) by {
                if j < prefix.len() {
                    assert(next[j] == prefix[j]);
                }
            }
        }
        let wide: u128 = (magnitude as u128) * 10 + (code - 48) as u128;
        assert(wide == decimal_value(next));
        if wide > 9223372036854775808u128 {
            proof {
                if all_digits(body) {
                    lemma_decimal_value_grows(body, i + 1 - start);
                }
            }
            return None;
        }
        magnitude = wide as u64;
        i += 1;
    }
    assert(body.take(n - start) =~= body);
    if negative {
        if magnitude == 9223372036854775808u64 {
            Some(i64::MIN)
        } else {
            Some(-(magnitude as i64))
        }
    } else if magnitude > 9223372036854775807u64 {
        None
    } else {
        Some(magnitude as i64)
    }
}

} // verus!
