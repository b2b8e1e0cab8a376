//! Clock times as written in a timetable: colon-separated decimal fields,
//! "08:30" or "15:45:20".

use crate::text::{lemma_pieces_len, pieces};
use vstd::prelude::*;

verus! {

/// Values of a field are held up to this cap while digits are read.
const VALUE_CAP: u64 = 0x1_0000_0000;

pub open spec fn is_digit(c: char) -> bool {
    '0' <= c && c <= '9'
}

/// The value of a string of decimal digits.
pub open spec fn digits_value(s: Seq<char>) -> int
    decreases s.len(),
{
    if s.len() == 0 {
        0
    } else {
        digits_value(s.drop_last()) * 10 + (s.last() as int - '0' as int)
    }
}

/// A field without the leading plus sign that `u32::from_str` allows.
pub open spec fn unsigned_digits(f: Seq<char>) -> Seq<char> {
    if f.len() > 0 && f[0] == '+' {
        f.drop_first()
    } else {
        f
    }
}

/// Whether `u32::from_str` accepts the field: an optional plus sign, then at
/// least one decimal digit, with a value that fits in 32 bits.
pub open spec fn is_u32_text(f: Seq<char>) -> bool {
    let d = unsigned_digits(f);
    &&& d.len() > 0
    &&& forall|i: int| 0 <= i < d.len() ==> is_digit(#[trigger] d[i])
    &&& digits_value(d) <= u32::MAX
}

/// The value of a field that `u32::from_str` accepts.
pub open spec fn field_value(f: Seq<char>) -> int {
    digits_value(unsigned_digits(f))
}

/// The pieces of `s` between colons.
pub open spec fn colon_fields(s: Seq<char>) -> Seq<Seq<char>> {
    pieces(s, ':')
}

/// Whether `s` reads as a clock time: two or more colon-separated fields, each
/// a 32-bit unsigned number.
pub open spec fn is_clock_time(s: Seq<char>) -> bool {
    let f = colon_fields(s);
    &&& f.len() >= 2
    &&& forall|k: int| 0 <= k < f.len() ==> is_u32_text(#[trigger] f[k])
}

/// Hours, minutes and seconds of a clock time; seconds are zero when only two
/// fields are given, and fields after the third are not used.
pub open spec fn clock_time(s: Seq<char>) -> (int, int, int) {
    let f = colon_fields(s);
    (field_value(f[0]), field_value(f[1]), if f.len() == 2 { 0 } else { field_value(f[2]) })
}

/// Reading on from `i` to `j` leaves the finished fields as they are and only
/// extends the field being read.
proof fn lemma_colon_fields_prefix(s: Seq<char>, i: int, j: int)
    requires
        0 <= i <= j <= s.len(),
    ensures
        ({
            let f = colon_fields(s.subrange(0, i));
            let g = colon_fields(s.subrange(0, j));
            &&& f.len() <= g.len()
            &&& forall|k: int| 0 <= k < f.len() - 1 ==> #[trigger] g[k] == f[k]
            &&& f.last().len() <= g[f.len() - 1].len()
            &&& f.last() == g[f.len() - 1].subrange(0, f.last().len() as int)
        }),
    decreases j - i,
{
    lemma_pieces_len(s.subrange(0, i), ':');
    lemma_pieces_len(s.subrange(0, j), ':');
    if i < j {
        lemma_colon_fields_prefix(s, i, j - 1);
        let p = s.subrange(0, j);
        assert(p.drop_last() =~= s.subrange(0, j - 1));
        lemma_pieces_len(s.subrange(0, j - 1), ':');
        let f = colon_fields(s.subrange(0, i));
        let h = colon_fields(s.subrange(0, j - 1));
        if p.last() != ':' {
            if f.len() == h.len() {
                assert(h.last().push(p.last()).subrange(0, f.last().len() as int) =~= h.last().subrange(0, f.last().len() as int));
            }
        }
    } else {
        let f = colon_fields(s.subrange(0, i));
        assert(f.last().subrange(0, f.last().len() as int) =~= f.last());
    }
}

/// Extending the digits read so far by one digit, with values held at the cap.
proof fn lemma_capped_step(v: int, d: int)
    requires
        0 <= d <= 9,
    ensures
        capped(10 * capped(v) + d) == capped(10 * v + d),
{
}

/// `v`, or the cap when `v` reaches it.
spec fn capped(v: int) -> int {
    if v < VALUE_CAP {
        v
    } else {
        VALUE_CAP as int
    }
}

/// Hours, minutes and seconds of a clock time such as "08:30" or "15:45:20".
pub fn get_timing_as_hms(value: &str) -> (r: (u32, u32, u32))
    requires
        is_clock_time(value@),
    ensures
        (r.0 as int, r.1 as int, r.2 as int) == clock_time(value@),
{
    let ghost s = value@;
    let n = value.unicode_len();
    let mut done: Vec<u64> = Vec::new();
    let mut cur: u64 = 0;
    let mut i: usize = 0;
    proof {
        assert(s.subrange(0, 0) =~= Seq::<char>::empty());
        assert(s.subrange(0, n as int) =~= s);
        assert(unsigned_digits(Seq::<char>::empty()) =~= Seq::<char>::empty());
    }
    while i < n
        invariant
            n == s.len(),
            s == value@,
            i <= n,
            is_clock_time(s),
            s.subrange(0, n as int) == s,
            done@.len() + 1 == colon_fields(s.subrange(0, i as int)).len(),
            forall|k: int| 0 <= k < done@.len() ==>
                done@[k] == capped(field_value(#[trigger] colon_fields(s.subrange(0, i as int))[k])),
            cur == capped(field_value(colon_fields(s.subrange(0, i as int)).last())),
        decreases n - i,
    {
        let c = value.get_char(i);
        let ghost f = colon_fields(s.subrange(0, i as int));
        let ghost p = s.subrange(0, i + 1);
        proof {
            assert(p.drop_last() =~= s.subrange(0, i as int));
            assert(p.last() == c);
            lemma_pieces_len(s.subrange(0, i as int), ':');
        }
        if c == ':' {
            done.push(cur);
            cur = 0;
            proof {
                let g = colon_fields(p);
                assert(g == f.push(Seq::<char>::empty()));
                assert forall|k: int| 0 <= k < done@.len() implies done@[k] == capped(field_value(#[trigger] g[k])) by {
                    if k < done@.len() - 1 {
                        assert(g[k] == f[k]);
                    }
                }
                assert(unsigned_digits(Seq::<char>::empty()) =~= Seq::<char>::empty());
            }
        } else {
            let ghost g = colon_fields(p);
            let ghost fin = colon_fields(s);
            let ghost x = f.last();
            let ghost cf = x.push(c);
            proof {
                lemma_colon_fields_prefix(s, i + 1, n as int);
                lemma_pieces_len(p, ':');
                assert(g == f.update(f.len() - 1, cf));
                assert(g.len() == f.len());
                assert(g.last() == cf);
                assert(forall|k: int| 0 <= k < f.len() - 1 ==> #[trigger] g[k] == f[k]);
            }
            let ghost q = fin[g.len() - 1];
            proof {
                assert(is_u32_text(q));
                assert(cf == q.subrange(0, cf.len() as int));
                assert(cf[cf.len() - 1] == c);
                assert(q.subrange(0, cf.len() as int)[cf.len() - 1] == q[cf.len() - 1]);
                assert(q[cf.len() - 1] == c);
                assert(q.subrange(0, cf.len() as int)[0] == q[0]);
                assert(cf[0] == q[0]);
            }
            if c != '+' {
                proof {
                    let u = unsigned_digits(q);
                    if q[0] == '+' {
                        assert(cf.len() >= 2);
                        assert(u[cf.len() - 2] == c);
                        assert(unsigned_digits(cf) =~= unsigned_digits(x).push(c));
                    } else {
                        assert(u[cf.len() - 1] == c);
                        if x.len() > 0 {
                            assert(x[0] == q[0]);
                        }
                        assert(unsigned_digits(cf) =~= unsigned_digits(x).push(c));
                    }
                    assert(is_digit(c));
                    assert(unsigned_digits(x).push(c).drop_last() =~= unsigned_digits(x));
                    lemma_capped_step(field_value(x), c as int - '0' as int);
                }
                let d = (c as u32 - '0' as u32) as u64;
                let next = cur * 10 + d;
                cur = if next < VALUE_CAP {
                    next
                } else {
                    VALUE_CAP
                };
            } else {
                proof {
                    let u = unsigned_digits(q);
                    if cf.len() >= 2 {
                        if q[0] == '+' {
                            assert(u[cf.len() - 2] == c);
                        } else {
                            assert(u[cf.len() - 1] == c);
                        }
                        assert(false);
                    }
                    assert(x.len() == 0);
                    assert(unsigned_digits(cf) =~= Seq::<char>::empty());
                    assert(unsigned_digits(x) =~= Seq::<char>::empty());
                }
            }
            proof {
                assert forall|k: int| 0 <= k < done@.len() implies done@[k] == capped(field_value(#[trigger] g[k])) by {
                    assert(g[k] == f[k]);
                }
            }
        }
        i = i + 1;
    }
    let ghost fin = colon_fields(s);
    proof {
        assert(fin.len() >= 2);
        assert(is_u32_text(fin[0]));
        assert(is_u32_text(fin[1]));
        assert(is_u32_text(fin.last()));
    }
    let hours = done[0];
    let minutes = if done.len() >= 2 {
        done[1]
    } else {
        cur
    };
    let seconds = if done.len() == 1 {
        0
    } else if done.len() >= 3 {
        done[2]
    } else {
        cur
    };
    proof {
        if fin.len() > 2 {
            assert(is_u32_text(fin[2]));
        }
    }
    (hours as u32, minutes as u32, seconds as u32)
}

/// The timetable entry pattern: "HH:MM:SS-HH:MM:SS" with the hours' first digit
/// 0 to 2 and the minutes' and seconds' first digit 0 to 5.
pub const TIMING_PATTERN: &'static str = r"^(?<start>[0-2][0-9]):[0-5][0-9]:[0-5][0-9]-(?<end>[0-2][0-9]):[0-5][0-9]:[0-5][0-9]$";

pub open spec fn in_range(c: char, lo: char, hi: char) -> bool {
    lo <= c && c <= hi
}

/// What `TIMING_PATTERN` matches: exactly seventeen characters in the shape
/// "HH:MM:SS-HH:MM:SS", each hour led by 0 to 2 and each minute and second by 0 to 5.
pub open spec fn timing_shape(s: Seq<char>) -> bool {
    &&& s.len() == 17
    &&& in_range(s[0], '0', '2') && is_digit(s[1]) && s[2] == ':'
    &&& in_range(s[3], '0', '5') && is_digit(s[4]) && s[5] == ':'
    &&& in_range(s[6], '0', '5') && is_digit(s[7]) && s[8] == '-'
    &&& in_range(s[9], '0', '2') && is_digit(s[10]) && s[11] == ':'
    &&& in_range(s[12], '0', '5') && is_digit(s[13]) && s[14] == ':'
    &&& in_range(s[15], '0', '5') && is_digit(s[16])
}

/// The two-digit number at `i`.
pub open spec fn two_digits(s: Seq<char>, i: int) -> int {
    (s[i] as int - '0' as int) * 10 + (s[i + 1] as int - '0' as int)
}

/// A well-formed timetable entry: the pattern's shape with both hours below 24.
pub open spec fn is_timing_entry(s: Seq<char>) -> bool {
    timing_shape(s) && two_digits(s, 0) < 24 && two_digits(s, 9) < 24
}

/// Relies on `regex::Regex::new` and `Regex::is_match` for `TIMING_PATTERN`:
/// anchored by `^` and `$` at both ends of the text, with ASCII ranges only, it
/// matches exactly the strings of `timing_shape`. The pattern is valid, so the
/// error arm is not taken.
#[verifier::external_body]
fn matches_timing_pattern(s: &str) -> (r: bool)
    ensures
        r == timing_shape(s@),
{
    match regex::Regex::new(TIMING_PATTERN) {
        Ok(re) => re.is_match(s),
        Err(_) => false,
    }
}

/// Whether a timetable entry is well formed: "HH:MM:SS-HH:MM:SS" with both
/// hours below 24.
pub fn timing_format_correct(string_of_times: &str) -> (r: bool)
    ensures
        r == is_timing_entry(string_of_times@),
{
    if matches_timing_pattern(string_of_times) {
        let s = string_of_times;
        let h1 = (s.get_char(0) as u32 - '0' as u32) * 10 + (s.get_char(1) as u32 - '0' as u32);
        let h2 = (s.get_char(9) as u32 - '0' as u32) * 10 + (s.get_char(10) as u32 - '0' as u32);
        h1 < 24 && h2 < 24
    } else {
        false
    }
}

} // verus!
