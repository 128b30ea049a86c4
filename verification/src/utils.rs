//! Small text utilities shared by the printers: stripping the delimiting
//! quotes from a string lexeme, normalizing a number lexeme to a decimal form
//! with at least one fractional digit, and rendering line numbers.
use vstd::prelude::*;

verus! {

/// Drops the first and last character: the unquoted text of a delimited
/// string lexeme.
pub fn trim_string(to_split: &String) -> (r: String)
    requires
        to_split@.len() >= 2,
    ensures
        r@ == to_split@.subrange(1, to_split@.len() - 1),
{
    let len = to_split.as_str().unicode_len();
    to_split.as_str().substring_char(1, len - 1).to_owned()
}

/// Every non-overlapping occurrence of `.00`, found left to right, replaced
/// by `.0`.
pub open spec fn spec_replace_dot00(s: Seq<char>) -> Seq<char>
    decreases s.len(),
{
    if s.len() < 3 {
        s
    } else if s[0] == '.' && s[1] == '0' && s[2] == '0' {
        seq!['.', '0'] + spec_replace_dot00(s.skip(3))
    } else {
        seq![s[0]] + spec_replace_dot00(s.skip(1))
    }
}

/// The normalized decimal form of a number lexeme: a trailing `.` gains a
/// `0`; a form with no `.` gains `.0`; a form ending in `.00` has each `.00`
/// replaced by `.0`; anything else is kept verbatim.
pub open spec fn spec_format_number(s: Seq<char>) -> Seq<char> {
    if s.len() > 0 && s.last() == '.' {
        s.push('0')
    } else if !s.contains('.') {
        s + seq!['.', '0']
    } else if s.len() >= 3 && s[s.len() - 3] == '.' && s[s.len() - 2] == '0' && s[s.len() - 1]
        == '0' {
        spec_replace_dot00(s)
    } else {
        s
    }
}

fn contains_char(s: &str, c: char) -> (r: bool)
    ensures
        r == s@.contains(c),
{
    let len = s.unicode_len();
    let mut i: usize = 0;
    while i < len
        invariant
            len == s@.len(),
            i <= len,
            forall|j: int| 0 <= j < i ==> s@[j] != c,
        decreases len - i,
    {
        if s.get_char(i) == c {
            assert(s@.contains(c)) by {
                assert(s@[i as int] == c);
            }
            return true;
        }
        i = i + 1;
    }
    assert(!s@.contains(c));
    false
}

fn replace_dot00(s: &str) -> (r: String)
    ensures
        r@ == spec_replace_dot00(s@),
{
    let len = s.unicode_len();
    let mut r = String::new();
    let mut i: usize = 0;
    proof {
        assert(s@.skip(0) =~= s@);
        assert(r@ + spec_replace_dot00(s@) =~= spec_replace_dot00(s@));
    }
    while i < len
        invariant
            len == s@.len(),
            i <= len,
            spec_replace_dot00(s@) == r@ + spec_replace_dot00(s@.skip(i as int)),
        decreases len - i,
    {
        if len - i >= 3 && s.get_char(i) == '.' && s.get_char(i + 1) == '0' && s.get_char(i + 2)
            == '0' {
            r.append(".0");
            proof {
                reveal_strlit(".0");
                let t = s@.skip(i as int);
                assert(t[0] == s@[i as int]);
                assert(t[1] == s@[i as int + 1]);
                assert(t[2] == s@[i as int + 2]);
                assert(spec_replace_dot00(t) == seq!['.', '0'] + spec_replace_dot00(t.skip(3)));
                assert(t.skip(3) =~= s@.skip(i as int + 3));
                assert(".0"@ =~= seq!['.', '0']);
                assert(r@ + spec_replace_dot00(s@.skip(i as int + 3)) =~= spec_replace_dot00(s@));
            }
            i = i + 3;
        } else {
            let c = s.substring_char(i, i + 1);
            r.append(c);
            proof {
                let t = s@.skip(i as int);
                assert(t[0] == s@[i as int]);
                if t.len() >= 3 {
                    assert(t[1] == s@[i as int + 1] && t[2] == s@[i as int + 2]);
                    assert(spec_replace_dot00(t) == seq![t[0]] + spec_replace_dot00(t.skip(1)));
                } else if t.len() == 2 {
                    assert(spec_replace_dot00(t) == t);
                    assert(spec_replace_dot00(t.skip(1)) == t.skip(1));
                    assert(t =~= seq![t[0]] + t.skip(1));
                } else {
                    assert(spec_replace_dot00(t) == t);
                    assert(t.skip(1).len() == 0);
                    assert(spec_replace_dot00(t.skip(1)) == t.skip(1));
                    assert(t =~= seq![t[0]] + t.skip(1));
                }
                assert(t.skip(1) =~= s@.skip(i as int + 1));
                assert(c@ =~= seq![s@[i as int]]);
                assert(r@ + spec_replace_dot00(s@.skip(i as int + 1)) =~= spec_replace_dot00(s@));
            }
            i = i + 1;
        }
    }
    proof {
        assert(s@.skip(len as int) =~= Seq::<char>::empty());
        assert(spec_replace_dot00(Seq::<char>::empty()) =~= Seq::<char>::empty());
        assert(r@ =~= spec_replace_dot00(s@));
    }
    r
}

/// The normalized decimal form of a number lexeme, as the tokenize output
/// prints it.
pub fn format_number_as_string(num_as_string: &String) -> (r: String)
    ensures
        r@ == spec_format_number(num_as_string@),
{
    let s = num_as_string.as_str();
    let len = s.unicode_len();
    if len > 0 && s.get_char(len - 1) == '.' {
        let mut r = num_as_string.clone();
        r.append("0");
        proof {
            reveal_strlit("0");
            assert(r@ =~= num_as_string@.push('0'));
        }
        r
    } else if !contains_char(s, '.') {
        let mut r = num_as_string.clone();
        r.append(".0");
        proof {
            reveal_strlit(".0");
            assert(r@ =~= num_as_string@ + seq!['.', '0']);
        }
        r
    } else if len >= 3 && s.get_char(len - 3) == '.' && s.get_char(len - 2) == '0' && s.get_char(
        len - 1,
    ) == '0' {
        replace_dot00(s)
    } else {
        num_as_string.clone()
    }
}

/// The lexeme with every trailing `.` removed, as the tokenize output prints
/// a number lexeme.
pub open spec fn spec_strip_trailing_dots(s: Seq<char>) -> Seq<char>
    decreases s.len(),
{
    if s.len() > 0 && s.last() == '.' {
        spec_strip_trailing_dots(s.drop_last())
    } else {
        s
    }
}

/// The executable counterpart of `spec_strip_trailing_dots`.
pub fn strip_trailing_dots(s: &str) -> (r: String)
    ensures
        r@ == spec_strip_trailing_dots(s@),
{
    let len = s.unicode_len();
    let mut end = len;
    proof {
        assert(s@.subrange(0, len as int) =~= s@);
    }
    while end > 0 && s.get_char(end - 1) == '.'
        invariant
            len == s@.len(),
            end <= len,
            spec_strip_trailing_dots(s@) == spec_strip_trailing_dots(s@.subrange(0, end as int)),
        decreases end,
    {
        proof {
            let t = s@.subrange(0, end as int);
            assert(t.last() == s@[end - 1]);
            assert(t.drop_last() =~= s@.subrange(0, end - 1));
        }
        end = end - 1;
    }
    let r = s.substring_char(0, end).to_owned();
    proof {
        let t = s@.subrange(0, end as int);
        assert(spec_strip_trailing_dots(t) == t) by {
            if t.len() > 0 && t.last() == '.' {
                assert(s@[end - 1] == '.');
            }
        }
    }
    r
}

pub open spec fn spec_digit(d: int) -> char {
    if d == 0 {
        '0'
    } else if d == 1 {
        '1'
    } else if d == 2 {
        '2'
    } else if d == 3 {
        '3'
    } else if d == 4 {
        '4'
    } else if d == 5 {
        '5'
    } else if d == 6 {
        '6'
    } else if d == 7 {
        '7'
    } else if d == 8 {
        '8'
    } else {
        '9'
    }
}

/// The decimal digits of a nonnegative integer, most significant first.
pub open spec fn spec_nat_string(n: int) -> Seq<char>
    decreases n,
{
    if n < 10 {
        seq![spec_digit(n)]
    } else {
        spec_nat_string(n / 10).push(spec_digit(n % 10))
    }
}

fn digit_str(d: usize) -> (r: &'static str)
    requires
        d < 10,
    ensures
        r@ == seq![spec_digit(d as int)],
{
    proof {
        reveal_strlit("0");
        reveal_strlit("1");
        reveal_strlit("2");
        reveal_strlit("3");
        reveal_strlit("4");
        reveal_strlit("5");
        reveal_strlit("6");
        reveal_strlit("7");
        reveal_strlit("8");
        reveal_strlit("9");
    }
    let r = if d == 0 {
        "0"
    } else if d == 1 {
        "1"
    } else if d == 2 {
        "2"
    } else if d == 3 {
        "3"
    } else if d == 4 {
        "4"
    } else if d == 5 {
        "5"
    } else if d == 6 {
        "6"
    } else if d == 7 {
        "7"
    } else if d == 8 {
        "8"
    } else {
        "9"
    };
    proof {
        assert(r@ =~= seq![spec_digit(d as int)]);
    }
    r
}

/// A nonnegative integer in decimal, as diagnostics print a line number.
pub fn nat_string(n: usize) -> (r: String)
    ensures
        r@ == spec_nat_string(n as int),
    decreases n,
{
    if n < 10 {
        digit_str(n).to_owned()
    } else {
        let mut r = nat_string(n / 10);
        r.append(digit_str(n % 10));
        proof {
            assert(r@ =~= spec_nat_string(n as int));
        }
        r
    }
}

} // verus!
