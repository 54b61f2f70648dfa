//! Character-level string operations that the rest of the library builds
//! its keys, URLs and file names from, each specified against a spec-level
//! function over `Seq<char>`.

use vstd::prelude::*;

verus! {

/// The decimal digit character for a value in `0..=9`.
pub open spec fn spec_digit(d: int) -> char {
    if d == 0 {
        '0'
    } else if d == 1 {
        '1'
    } else if d == 2 {
        '2'
    } else if d == 3 {
        '3'
    } else if d == 4 {
        '4'
    } else if d == 5 {
        '5'
    } else if d == 6 {
        '6'
    } else if d == 7 {
        '7'
    } else if d == 8 {
        '8'
    } else {
        '9'
    }
}

/// The decimal rendering of a natural number, most significant digit first,
/// with no leading zeros (a single `'0'` for zero).
pub open spec fn spec_decimal(n: nat) -> Seq<char>
    decreases n,
{
    if n < 10 {
        seq![spec_digit(n as int)]
    } else {
        spec_decimal(n / 10) + seq![spec_digit((n % 10) as int)]
    }
}

/// The decimal rendering of a natural number padded on the left with `'0'`
/// to at least two characters.
pub open spec fn spec_pad2(n: nat) -> Seq<char> {
    if n < 10 {
        seq!['0'] + spec_decimal(n)
    } else {
        spec_decimal(n)
    }
}

fn digit_str(d: u64) -> (r: &'static str)
    requires
        d < 10,
    ensures
        r@ == seq![spec_digit(d as int)],
{
    proof {
        reveal_strlit("0");
        reveal_strlit("1");
        reveal_strlit("2");
        reveal_strlit("3");
        reveal_strlit("4");
        reveal_strlit("5");
        reveal_strlit("6");
        reveal_strlit("7");
        reveal_strlit("8");
        reveal_strlit("9");
    }
    let r: &'static str = if d == 0 {
        "0"
    } else if d == 1 {
        "1"
    } else if d == 2 {
        "2"
    } else if d == 3 {
        "3"
    } else if d == 4 {
        "4"
    } else if d == 5 {
        "5"
    } else if d == 6 {
        "6"
    } else if d == 7 {
        "7"
    } else if d == 8 {
        "8"
    } else {
        "9"
    };
    proof {
        assert(r@ =~= seq![spec_digit(d as int)]);
    }
    r
}

/// Renders a number in decimal, as the batch identifiers are.
pub fn u64_to_decimal(n: u64) -> (r: String)
    ensures
        r@ == spec_decimal(n as nat),
    decreases n,
{
    if n < 10 {
        String::from_str(digit_str(n))
    } else {
        let mut r = u64_to_decimal(n / 10);
        r.append(digit_str(n % 10));
        proof {
            assert(r@ =~= spec_decimal(n as nat));
        }
        r
    }
}

/// Renders a number in decimal padded to at least two digits, as the month
/// and day of a date prefix are.
pub fn u64_to_decimal_pad2(n: u64) -> (r: String)
    ensures
        r@ == spec_pad2(n as nat),
{
    if n < 10 {
        let mut r = String::from_str(digit_str(0));
        let d = u64_to_decimal(n);
        r.append(d.as_str());
        proof {
            assert(r@ =~= spec_pad2(n as nat));
        }
        r
    } else {
        u64_to_decimal(n)
    }
}

/// The string without its trailing `'/'` characters.
pub open spec fn trim_trailing_slashes(s: Seq<char>) -> Seq<char>
    decreases s.len(),
{
    if s.len() > 0 && s.last() == '/' {
        trim_trailing_slashes(s.drop_last())
    } else {
        s
    }
}

/// The URL-path join used throughout the library: the base without its
/// trailing slashes, one `'/'`, then the segment.
pub open spec fn join_segment(base: Seq<char>, seg: Seq<char>) -> Seq<char> {
    trim_trailing_slashes(base) + seq!['/'] + seg
}

/// Joins a path or file segment onto a base URL.
pub fn join_url(base: &str, seg: &str) -> (r: String)
    ensures
        r@ == join_segment(base@, seg@),
{
    let n = base.unicode_len();
    let mut cut = n;
    proof {
        assert(base@.take(n as int) =~= base@);
    }
    while cut > 0 && base.get_char(cut - 1) == '/'
        invariant
            cut <= n,
            n == base@.len(),
            trim_trailing_slashes(base@) == trim_trailing_slashes(base@.take(cut as int)),
        decreases cut,
    {
        proof {
            assert(base@.take(cut as int).last() == '/');
            assert(base@.take(cut as int).drop_last() =~= base@.take(cut as int - 1));
        }
        cut = cut - 1;
    }
    proof {
        if cut == 0 {
            assert(base@.take(0) =~= Seq::<char>::empty());
        }
        assert(trim_trailing_slashes(base@) == base@.take(cut as int));
    }
    let head = base.substring_char(0, cut);
    let mut r = String::from_str(head);
    r.append("/");
    r.append(seg);
    proof {
        reveal_strlit("/");
        assert("/"@ =~= seq!['/']);
        assert(r@ =~= join_segment(base@, seg@));
    }
    r
}

/// Law: joining is associative — building a URL through an intermediate
/// node and joining the concatenated segments directly produce identical
/// results, for any segment that is nonempty and does not end in `'/'`
/// (a trailing slash on the intermediate segment would be trimmed on the
/// first route but kept on the second).
pub proof fn lemma_join_associative(base: Seq<char>, seg1: Seq<char>, seg2: Seq<char>)
    requires
        seg1.len() > 0,
        seg1.last() != '/',
    ensures
        join_segment(join_segment(base, seg1), seg2) == join_segment(
            base,
            seg1 + seq!['/'] + seg2,
        ),
{
    let mid = trim_trailing_slashes(base) + seq!['/'] + seg1;
    assert(mid.last() == seg1.last());
    assert(trim_trailing_slashes(mid) == mid);
    assert(join_segment(join_segment(base, seg1), seg2) =~= join_segment(
        base,
        seg1 + seq!['/'] + seg2,
    ));
}

/// Every occurrence of `pat` in `s` replaced by `rep`, scanning left to
/// right without rescanning replacements, as `str::replace` does.
pub open spec fn replace_all(s: Seq<char>, pat: Seq<char>, rep: Seq<char>) -> Seq<char>
    decreases s.len(),
{
    if pat.len() == 0 || s.len() < pat.len() {
        s
    } else if s.take(pat.len() as int) == pat {
        rep + replace_all(s.skip(pat.len() as int), pat, rep)
    } else {
        seq![s[0]] + replace_all(s.skip(1), pat, rep)
    }
}

/// Whether `pat` occurs in `s` starting at character `i`.
fn matches_at(s: &str, i: usize, pat: &str) -> (r: bool)
    requires
        i + pat@.len() <= s@.len(),
    ensures
        r == (s@.subrange(i as int, i + pat@.len()) == pat@),
{
    let n = s.unicode_len();
    let plen = pat.unicode_len();
    let mut j: usize = 0;
    while j < plen
        invariant
            j <= plen,
            plen == pat@.len(),
            n == s@.len(),
            i + plen <= n,
            forall|k: int| 0 <= k < j ==> s@[i + k] == pat@[k],
        decreases plen - j,
    {
        if s.get_char(i + j) != pat.get_char(j) {
            proof {
                assert(s@.subrange(i as int, i + pat@.len())[j as int] != pat@[j as int]);
            }
            return false;
        }
        j = j + 1;
    }
    proof {
        assert(s@.subrange(i as int, i + pat@.len()) =~= pat@);
    }
    true
}

/// Replaces every occurrence of `pat` in `s` by `rep`, as the filename
/// template substitution does.
pub fn replace_str(s: &str, pat: &str, rep: &str) -> (r: String)
    requires
        pat@.len() > 0,
    ensures
        r@ == replace_all(s@, pat@, rep@),
    decreases s@.len(),
{
    let n = s.unicode_len();
    let plen = pat.unicode_len();
    if n < plen {
        return String::from_str(s);
    }
    if matches_at(s, 0, pat) {
        proof {
            assert(s@.subrange(0, pat@.len() as int) =~= s@.take(pat@.len() as int));
        }
        let tail = s.substring_char(plen, n);
        proof {
            assert(tail@ =~= s@.skip(pat@.len() as int));
        }
        let rest = replace_str(tail, pat, rep);
        let mut r = String::from_str(rep);
        r.append(rest.as_str());
        proof {
            assert(r@ =~= replace_all(s@, pat@, rep@));
        }
        r
    } else {
        proof {
            assert(s@.subrange(0, pat@.len() as int) =~= s@.take(pat@.len() as int));
        }
        let head = s.substring_char(0, 1);
        let tail = s.substring_char(1, n);
        proof {
            assert(tail@ =~= s@.skip(1));
            assert(head@ =~= seq![s@[0]]);
        }
        let rest = replace_str(tail, pat, rep);
        let mut r = String::from_str(head);
        r.append(rest.as_str());
        proof {
            assert(r@ =~= replace_all(s@, pat@, rep@));
        }
        r
    }
}

/// The characters of `s` after its last `'/'`; all of `s` when it has none.
pub open spec fn last_segment(s: Seq<char>) -> Seq<char>
    decreases s.len(),
{
    if s.len() == 0 {
        s
    } else if s.last() == '/' {
        Seq::empty()
    } else {
        last_segment(s.drop_last()).push(s.last())
    }
}

/// The file name part of a URL: everything after the last `'/'`.
pub fn url_file_name(s: &str) -> (r: String)
    ensures
        r@ == last_segment(s@),
{
    let n = s.unicode_len();
    let mut start = n;
    proof {
        assert(s@.take(n as int) =~= s@);
        assert(s@.skip(n as int) =~= Seq::<char>::empty());
        assert(last_segment(s@.take(n as int)) + s@.skip(n as int) =~= last_segment(s@));
    }
    while start > 0 && s.get_char(start - 1) != '/'
        invariant
            start <= n,
            n == s@.len(),
            last_segment(s@) == last_segment(s@.take(start as int)) + s@.skip(start as int),
        decreases start,
    {
        proof {
            assert(s@.take(start as int).last() == s@[start as int - 1]);
            assert(s@.take(start as int).drop_last() =~= s@.take(start as int - 1));
            assert(last_segment(s@.take(start as int)) =~= last_segment(
                s@.take(start as int - 1),
            ).push(s@[start as int - 1]));
            assert(last_segment(s@.take(start as int - 1)).push(s@[start as int - 1]) + s@.skip(
                start as int,
            ) =~= last_segment(s@.take(start as int - 1)) + s@.skip(start as int - 1));
        }
        start = start - 1;
    }
    proof {
        if start > 0 {
            assert(s@.take(start as int).last() == '/');
            assert(last_segment(s@.take(start as int)) =~= Seq::<char>::empty());
        } else {
            assert(s@.take(0) =~= Seq::<char>::empty());
        }
        assert(last_segment(s@) =~= s@.skip(start as int));
    }
    let tail = s.substring_char(start, n);
    String::from_str(tail)
}

} // verus!
