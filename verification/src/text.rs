use vstd::prelude::*;

verus! {

// ---------------------------------------------------------------------------
// Lexicographic order on character sequences
//
// The catalog promises a deterministic, lexicographic ordering of source ids;
// this module gives that order a definition and an executable comparison.
// ---------------------------------------------------------------------------

/// Strict lexicographic order on character sequences, by code point.
pub open spec fn lex_lt(a: Seq<char>, b: Seq<char>) -> bool
    decreases a.len(),
{
    if b.len() == 0 {
        false
    } else if a.len() == 0 {
        true
    } else if (a[0] as u32) < (b[0] as u32) {
        true
    } else if a[0] == b[0] {
        lex_lt(a.skip(1), b.skip(1))
    } else {
        false
    }
}

/// Two characters with the same code point are the same character.
proof fn lemma_char_code_injective(ca: char, cb: char)
    requires
        ca as u32 == cb as u32,
    ensures
        ca == cb,
{
    vstd::utf8::char_u32_cast(ca, ca as u32);
    vstd::utf8::char_u32_cast(cb, ca as u32);
}

/// Exactly one of `lex_lt(a, b)`, `lex_lt(b, a)`, `a == b` holds.
pub proof fn lemma_lex_trichotomy(a: Seq<char>, b: Seq<char>)
    ensures
        lex_lt(a, b) || lex_lt(b, a) || a == b,
        lex_lt(a, b) ==> !lex_lt(b, a) && a != b,
        lex_lt(b, a) ==> !lex_lt(a, b) && a != b,
    decreases a.len(),
{
    if a.len() == 0 && b.len() == 0 {
        assert(a =~= b);
    } else if a.len() > 0 && b.len() > 0 {
        lemma_lex_trichotomy(a.skip(1), b.skip(1));
        if (a[0] as u32) == (b[0] as u32) {
            lemma_char_code_injective(a[0], b[0]);
            if a.skip(1) == b.skip(1) {
                assert(a.len() == b.len()) by {
                    assert(a.skip(1).len() == b.skip(1).len());
                }
                assert forall|i: int| 0 <= i < a.len() implies a[i] == b[i] by {
                    if i >= 1 {
                        assert(a.skip(1)[i - 1] == a[i]);
                        assert(b.skip(1)[i - 1] == b[i]);
                    }
                }
                assert(a =~= b);
            } else {
                assert(a != b) by {
                    if a == b {
                        assert(a.skip(1) =~= b.skip(1));
                    }
                }
            }
        } else {
            assert(a[0] != b[0]);
            assert(a != b) by {
                if a == b {
                    assert(a[0] == b[0]);
                }
            }
        }
    } else {
        if a == b {
            assert(a.len() == b.len());
        }
    }
}

/// Lexicographic order is transitive.
pub proof fn lemma_lex_transitive(a: Seq<char>, b: Seq<char>, c: Seq<char>)
    requires
        lex_lt(a, b),
        lex_lt(b, c),
    ensures
        lex_lt(a, c),
    decreases a.len(),
{
    if b.len() > 0 && c.len() > 0 && a.len() > 0 {
        if a[0] == b[0] && b[0] == c[0] {
            lemma_lex_transitive(a.skip(1), b.skip(1), c.skip(1));
        }
    }
}

/// Equal prefixes of length `i` do not affect the order of the remainders.
proof fn lemma_lex_skip_common(a: Seq<char>, b: Seq<char>, i: int)
    requires
        0 <= i <= a.len(),
        i <= b.len(),
        a.subrange(0, i) == b.subrange(0, i),
    ensures
        lex_lt(a, b) == lex_lt(a.skip(i), b.skip(i)),
    decreases i,
{
    if i > 0 {
        assert(a[0] == b[0]) by {
            assert(a.subrange(0, i)[0] == a[0]);
            assert(b.subrange(0, i)[0] == b[0]);
        }
        assert(a.skip(1).subrange(0, i - 1) =~= b.skip(1).subrange(0, i - 1)) by {
            assert(forall|j: int| 0 <= j < i - 1 ==>
                #[trigger] a.skip(1)[j] == a.subrange(0, i)[j + 1]
                && #[trigger] b.skip(1)[j] == b.subrange(0, i)[j + 1]);
        }
        lemma_lex_skip_common(a.skip(1), b.skip(1), i - 1);
        assert(a.skip(1).skip(i - 1) =~= a.skip(i));
        assert(b.skip(1).skip(i - 1) =~= b.skip(i));
        assert(a.len() > 0 && b.len() > 0);
    } else {
        assert(a.skip(0) =~= a);
        assert(b.skip(0) =~= b);
    }
}

/// Decides `lex_lt` on string slices.
pub fn str_lt(a: &str, b: &str) -> (r: bool)
    ensures
        r == lex_lt(a@, b@),
{
    let a_len = a.unicode_len();
    let b_len = b.unicode_len();
    let mut i: usize = 0;
    loop
        invariant
            0 <= i <= a_len,
            i <= b_len,
            a_len == a@.len(),
            b_len == b@.len(),
            a@.subrange(0, i as int) =~= b@.subrange(0, i as int),
        decreases a_len - i,
    {
        proof {
            lemma_lex_skip_common(a@, b@, i as int);
        }
        if i == a_len || i == b_len {
            proof {
                if i == b_len {
                    assert(b@.skip(i as int).len() == 0);
                } else {
                    assert(a@.skip(i as int).len() == 0);
                    assert(b@.skip(i as int).len() > 0);
                }
            }
            return i == a_len && i < b_len;
        }
        let ca = a.get_char(i);
        let cb = b.get_char(i);
        if (ca as u32) < (cb as u32) {
            proof {
                assert(a@.skip(i as int)[0] == ca);
                assert(b@.skip(i as int)[0] == cb);
                assert(b@.skip(i as int).len() > 0);
            }
            return true;
        }
        if (cb as u32) < (ca as u32) {
            proof {
                assert(a@.skip(i as int)[0] == ca);
                assert(b@.skip(i as int)[0] == cb);
            }
            return false;
        }
        proof {
            assert(a@.subrange(0, i + 1) =~= b@.subrange(0, i + 1)) by {
                assert(forall|j: int| 0 <= j < i ==>
                    a@.subrange(0, i + 1)[j] == a@.subrange(0, i as int)[j]
                    && b@.subrange(0, i + 1)[j] == b@.subrange(0, i as int)[j]);
                assert(a@.subrange(0, i + 1)[i as int] == ca);
                assert(b@.subrange(0, i + 1)[i as int] == cb);
            }
        }
        i = i + 1;
    }
}

// ---------------------------------------------------------------------------
// Views of string collections
// ---------------------------------------------------------------------------

/// The character-sequence view of a sequence of strings.
pub open spec fn strs_view(v: Seq<String>) -> Seq<Seq<char>> {
    v.map_values(|s: String| s@)
}

pub proof fn lemma_strs_view_push(v: Seq<String>, x: String)
    ensures
        strs_view(v.push(x)) =~= strs_view(v).push(x@),
{
}

// ---------------------------------------------------------------------------
// Splitting on a separator character
// ---------------------------------------------------------------------------

/// The pieces of `s` between occurrences of `sep`, in order. Splitting the
/// empty sequence gives one empty piece, so the result is never empty.
pub open spec fn split_on(s: Seq<char>, sep: char) -> Seq<Seq<char>>
    decreases s.len(),
{
    if s.len() == 0 {
        seq![Seq::<char>::empty()]
    } else if s.last() == sep {
        split_on(s.drop_last(), sep).push(Seq::<char>::empty())
    } else {
        let p = split_on(s.drop_last(), sep);
        p.update(p.len() - 1, p.last().push(s.last()))
    }
}

pub proof fn lemma_split_on_len(s: Seq<char>, sep: char)
    ensures
        split_on(s, sep).len() >= 1,
    decreases s.len(),
{
    if s.len() > 0 {
        lemma_split_on_len(s.drop_last(), sep);
    }
}

/// Splits a string on a separator character.
pub fn split_str(s: &str, sep: char) -> (r: Vec<String>)
    ensures
        strs_view(r@) == split_on(s@, sep),
        r@.len() >= 1,
{
    let len = s.unicode_len();
    let mut parts: Vec<String> = Vec::new();
    let mut start: usize = 0;
    let mut i: usize = 0;
    proof {
        assert(s@.subrange(0, 0) =~= Seq::<char>::empty());
        assert(strs_view(parts@) =~= Seq::<Seq<char>>::empty());
        assert(strs_view(parts@).push(s@.subrange(0, 0))
            =~= split_on(s@.subrange(0, 0), sep));
    }
    while i < len
        invariant
            0 <= start <= i <= len,
            len == s@.len(),
            strs_view(parts@).push(s@.subrange(start as int, i as int))
                =~= split_on(s@.subrange(0, i as int), sep),
        decreases len - i,
    {
        let c = s.get_char(i);
        proof {
            assert(s@.subrange(0, i + 1).drop_last() =~= s@.subrange(0, i as int));
            assert(s@.subrange(0, i + 1).last() == s@[i as int]);
        }
        if c == sep {
            let piece = s.substring_char(start, i).to_owned();
            proof {
                lemma_strs_view_push(parts@, piece);
            }
            parts.push(piece);
            start = i + 1;
            proof {
                assert(s@.subrange(start as int, i + 1).len() == 0);
                assert(s@.subrange(start as int, i + 1) =~= Seq::<char>::empty());
            }
        } else {
            proof {
                let p = split_on(s@.subrange(0, i as int), sep);
                lemma_split_on_len(s@.subrange(0, i as int), sep);
                assert(p == strs_view(parts@).push(s@.subrange(start as int, i as int)));
                assert(p.last() == s@.subrange(start as int, i as int));
                assert(p.last().push(s@[i as int]) =~= s@.subrange(start as int, i + 1));
                assert(p.update(p.len() - 1, p.last().push(s@[i as int]))
                    =~= strs_view(parts@).push(s@.subrange(start as int, i + 1)));
            }
        }
        i = i + 1;
    }
    let piece = s.substring_char(start, len).to_owned();
    proof {
        lemma_strs_view_push(parts@, piece);
        assert(s@.subrange(0, len as int) =~= s@);
    }
    parts.push(piece);
    proof {
        assert(strs_view(parts@) =~= split_on(s@, sep));
    }
    parts
}

// ---------------------------------------------------------------------------
// Joining with a separator string
// ---------------------------------------------------------------------------

/// The concatenation of `parts` with `sep` between consecutive pieces.
pub open spec fn join_with(parts: Seq<Seq<char>>, sep: Seq<char>) -> Seq<char>
    decreases parts.len(),
{
    if parts.len() == 0 {
        Seq::<char>::empty()
    } else if parts.len() == 1 {
        parts[0]
    } else {
        join_with(parts.drop_last(), sep) + sep + parts.last()
    }
}

/// Joins strings with a separator.
pub fn join_strings(parts: &Vec<String>, sep: &str) -> (r: String)
    ensures
        r@ == join_with(strs_view(parts@), sep@),
{
    let mut r = String::new();
    let mut i: usize = 0;
    while i < parts.len()
        invariant
            0 <= i <= parts@.len(),
            r@ =~= join_with(strs_view(parts@).take(i as int), sep@),
        decreases parts@.len() - i,
    {
        proof {
            let pv = strs_view(parts@);
            assert(pv.take(i + 1).drop_last() =~= pv.take(i as int));
            assert(pv.take(i + 1).last() == pv[i as int]);
        }
        if i > 0 {
            r.append(sep);
        }
        r.append(parts[i].as_str());
        i = i + 1;
    }
    proof {
        assert(strs_view(parts@).take(parts@.len() as int) =~= strs_view(parts@));
    }
    r
}

// ---------------------------------------------------------------------------
// Membership and order-preserving deduplication
// ---------------------------------------------------------------------------

/// Whether some string of `v` reads `x`.
pub fn vec_contains_string(v: &Vec<String>, x: &String) -> (r: bool)
    ensures
        r == strs_view(v@).contains(x@),
{
    let mut i: usize = 0;
    while i < v.len()
        invariant
            0 <= i <= v@.len(),
            forall|j: int| 0 <= j < i ==> strs_view(v@)[j] != x@,
        decreases v@.len() - i,
    {
        if v[i] == *x {
            proof {
                assert(strs_view(v@)[i as int] == x@);
            }
            return true;
        }
        i = i + 1;
    }
    proof {
        assert(!strs_view(v@).contains(x@)) by {
            if strs_view(v@).contains(x@) {
                let j = choose|j: int|
                    0 <= j < strs_view(v@).len() && strs_view(v@)[j] == x@;
                assert(strs_view(v@)[j] != x@);
            }
        }
    }
    false
}

/// `acc` unchanged when it already holds `x`, else `acc` with `x` appended.
pub open spec fn dedup_push(acc: Seq<Seq<char>>, x: Seq<char>) -> Seq<Seq<char>> {
    if acc.contains(x) {
        acc
    } else {
        acc.push(x)
    }
}

/// Appends `x` unless an equal string is already present, keeping first
/// occurrences in their original positions.
pub fn push_if_absent(acc: &mut Vec<String>, x: &String)
    ensures
        strs_view(final(acc)@) == dedup_push(strs_view(old(acc)@), x@),
{
    if !vec_contains_string(acc, x) {
        let copy = x.clone();
        proof {
            lemma_strs_view_push(acc@, copy);
        }
        acc.push(copy);
        proof {
            assert(strs_view(acc@) =~= dedup_push(strs_view(old(acc)@), x@));
        }
    }
}

// ---------------------------------------------------------------------------
// Decimal formatting
// ---------------------------------------------------------------------------

/// The decimal digit character for `d` in 0..10.
pub open spec fn decimal_digit(d: int) -> char {
    if d == 0 { '0' }
    else if d == 1 { '1' }
    else if d == 2 { '2' }
    else if d == 3 { '3' }
    else if d == 4 { '4' }
    else if d == 5 { '5' }
    else if d == 6 { '6' }
    else if d == 7 { '7' }
    else if d == 8 { '8' }
    else { '9' }
}

/// The decimal digits of `n`, most significant first, no leading zeros
/// (a single zero for `n == 0`).
pub open spec fn decimal_rep(n: int) -> Seq<char>
    recommends
        n >= 0,
    decreases n,
{
    if n < 10 {
        seq![decimal_digit(n)]
    } else {
        decimal_rep(n / 10).push(decimal_digit(n % 10))
    }
}

fn push_digit(s: &mut String, d: u32)
    requires
        d < 10,
    ensures
        final(s)@ == old(s)@.push(decimal_digit(d as int)),
{
    let lit: &'static str = match d {
        0 => "0",
        1 => "1",
        2 => "2",
        3 => "3",
        4 => "4",
        5 => "5",
        6 => "6",
        7 => "7",
        8 => "8",
        _ => "9",
    };
    proof {
        reveal_strlit("0");
        reveal_strlit("1");
        reveal_strlit("2");
        reveal_strlit("3");
        reveal_strlit("4");
        reveal_strlit("5");
        reveal_strlit("6");
        reveal_strlit("7");
        reveal_strlit("8");
        reveal_strlit("9");
        assert(lit@ =~= seq![decimal_digit(d as int)]);
    }
    s.append(lit);
    proof {
        assert(s@ =~= old(s)@.push(decimal_digit(d as int)));
    }
}

/// Appends the decimal digits of `n` to `s`.
pub fn push_decimal(s: &mut String, n: u32)
    ensures
        final(s)@ == old(s)@ + decimal_rep(n as int),
    decreases n,
{
    if n >= 10 {
        push_decimal(s, n / 10);
    }
    push_digit(s, n % 10);
    proof {
        if n < 10 {
            assert(s@ =~= old(s)@ + decimal_rep(n as int));
        } else {
            assert(s@ =~= old(s)@ + decimal_rep(n as int));
        }
    }
}

} // verus!
