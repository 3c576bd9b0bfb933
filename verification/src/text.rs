//! Character-level text utilities: joining text nodes, trimming,
//! splitting on whitespace, capitalizing words, and decimal formatting.
//!
//! All lengths and indices here count characters, not bytes.
use vstd::prelude::*;

verus! {

/// Whether a character counts as whitespace (the Unicode White_Space
/// property, as `char::is_whitespace` decides it).
pub uninterp spec fn is_ws(c: char) -> bool;

/// Relies on `char::is_whitespace`: whether the character has the Unicode
/// White_Space property, a fact of the character alone.
#[verifier::external_body]
pub(crate) fn is_ws_char(c: char) -> (r: bool)
    ensures
        r == is_ws(c),
{
    c.is_whitespace()
}

/// The Unicode lowercase of a sequence of characters, as
/// `str::to_lowercase` computes it.
pub uninterp spec fn lower_of(s: Seq<char>) -> Seq<char>;

/// Relies on `str::to_lowercase`: the Unicode lowercase of the string,
/// a function of its characters alone.
#[verifier::external_body]
pub(crate) fn lower_str(s: &str) -> (r: String)
    ensures
        r@ == lower_of(s@),
{
    s.to_lowercase()
}

/// The Unicode uppercase of a sequence of characters, as
/// `str::to_uppercase` computes it.
pub uninterp spec fn upper_of(s: Seq<char>) -> Seq<char>;

/// Relies on `str::to_uppercase`: the Unicode uppercase of the string,
/// a function of its characters alone.
#[verifier::external_body]
pub(crate) fn upper_str(s: &str) -> (r: String)
    ensures
        r@ == upper_of(s@),
{
    s.to_uppercase()
}

/// The Unicode uppercase mapping of one character (possibly several
/// characters long), as `char::to_uppercase` yields it.
pub uninterp spec fn upper_char_of(c: char) -> Seq<char>;

/// Relies on `char::to_uppercase`: the Unicode uppercase mapping of the
/// character, a function of the character alone.
#[verifier::external_body]
pub(crate) fn upper_char(c: char) -> (r: String)
    ensures
        r@ == upper_char_of(c),
{
    c.to_uppercase().collect()
}

/// Relies on `str::chars`: it yields exactly the characters of the
/// string, in order (the string's view).
#[verifier::external_body]
pub(crate) fn chars_of(s: &str) -> (r: Vec<char>)
    ensures
        r@ == s@,
{
    s.chars().collect()
}

/// Relies on `String`'s `FromIterator<char>` impl: collecting characters
/// builds the string of exactly those characters, in order.
#[verifier::external_body]
pub(crate) fn string_from_chars(v: &Vec<char>) -> (r: String)
    ensures
        r@ == v@,
{
    v.iter().collect()
}

/// Concatenation of a sequence of character sequences, in order.
pub open spec fn concat_seqs(parts: Seq<Seq<char>>) -> Seq<char>
    decreases parts.len(),
{
    if parts.len() == 0 {
        Seq::<char>::empty()
    } else {
        parts[0] + concat_seqs(parts.drop_first())
    }
}

/// The parts joined with a single separator character between each pair.
pub open spec fn join_sep(parts: Seq<Seq<char>>, sep: char) -> Seq<char>
    decreases parts.len(),
{
    if parts.len() == 0 {
        Seq::<char>::empty()
    } else if parts.len() == 1 {
        parts[0]
    } else {
        parts[0] + seq![sep] + join_sep(parts.drop_first(), sep)
    }
}

proof fn lemma_join_sep_push(parts: Seq<Seq<char>>, p: Seq<char>, sep: char)
    requires
        parts.len() >= 1,
    ensures
        join_sep(parts.push(p), sep) == join_sep(parts, sep) + seq![sep] + p,
    decreases parts.len(),
{
    if parts.len() == 1 {
        assert(parts.push(p).drop_first() =~= seq![p]);
        assert(join_sep(seq![p], sep) == p);
        assert(parts.push(p)[0] == parts[0]);
    } else {
        lemma_join_sep_push(parts.drop_first(), p, sep);
        assert(parts.push(p).drop_first() =~= parts.drop_first().push(p));
        assert(parts.push(p)[0] == parts[0]);
        assert(parts[0] + seq![sep] + (join_sep(parts.drop_first(), sep) + seq![sep] + p) =~= (
        parts[0] + seq![sep] + join_sep(parts.drop_first(), sep)) + seq![sep] + p);
    }
}

/// Concatenates the given strings with nothing between them.
pub fn concat_texts(parts: &Vec<String>) -> (r: String)
    ensures
        r@ == concat_seqs(parts.deep_view()),
{
    let mut out = String::new();
    let mut i: usize = 0;
    proof {
        assert(parts.deep_view().skip(0) =~= parts.deep_view());
        assert(out@ + concat_seqs(parts.deep_view()) =~= concat_seqs(parts.deep_view()));
    }
    while i < parts.len()
        invariant
            i <= parts.len(),
            out@ + concat_seqs(parts.deep_view().skip(i as int)) == concat_seqs(
                parts.deep_view(),
            ),
        decreases parts.len() - i,
    {
        proof {
            assert(parts.deep_view().skip(i as int).drop_first() =~= parts.deep_view().skip(
                i as int + 1,
            ));
            assert(parts.deep_view().skip(i as int)[0] == parts.deep_view()[i as int]);
        }
        let ghost prev = out@;
        out.append(parts[i].as_str());
        proof {
            assert(out@ + concat_seqs(parts.deep_view().skip(i as int + 1)) =~= prev + (
            parts.deep_view()[i as int] + concat_seqs(parts.deep_view().skip(i as int + 1))));
        }
        i = i + 1;
    }
    proof {
        assert(parts.deep_view().skip(parts.len() as int) =~= Seq::<Seq<char>>::empty());
        assert(out@ + Seq::<char>::empty() =~= out@);
    }
    out
}

/// Joins the given strings with a single separator character between
/// each pair, as the text nodes of one element are joined.
pub fn join_texts(parts: &Vec<String>, sep: char) -> (r: String)
    ensures
        r@ == join_sep(parts.deep_view(), sep),
{
    let mut sep_chars: Vec<char> = Vec::new();
    sep_chars.push(sep);
    let sep_str = string_from_chars(&sep_chars);
    assert(sep_str@ =~= seq![sep]);
    let mut out = String::new();
    let mut i: usize = 0;
    while i < parts.len()
        invariant
            i <= parts.len(),
            sep_str@ == seq![sep],
            out@ == join_sep(parts.deep_view().take(i as int), sep),
        decreases parts.len() - i,
    {
        proof {
            assert(parts.deep_view().take(i as int + 1) =~= parts.deep_view().take(
                i as int,
            ).push(parts.deep_view()[i as int]));
            if i > 0 {
                lemma_join_sep_push(
                    parts.deep_view().take(i as int),
                    parts.deep_view()[i as int],
                    sep,
                );
            } else {
                assert(join_sep(seq![parts.deep_view()[0]], sep) == parts.deep_view()[0]);
            }
        }
        if i > 0 {
            out.append(sep_str.as_str());
        }
        out.append(parts[i].as_str());
        proof {
            if i == 0 {
                assert(out@ =~= parts.deep_view()[0]);
            }
        }
        i = i + 1;
    }
    proof {
        assert(parts.deep_view().take(parts.len() as int) =~= parts.deep_view());
    }
    out
}

/// Concatenates the strings and trims the result, returning characters.
pub fn trimmed_concat_chars(parts: &Vec<String>) -> (r: Vec<char>)
    ensures
        r@ == trim_spec(concat_seqs(parts.deep_view())),
{
    let joined = concat_texts(parts);
    let cs = chars_of(joined.as_str());
    trim_chars(&cs)
}

/// Concatenates the strings and trims the result.
pub fn trimmed_concat(parts: &Vec<String>) -> (r: String)
    ensures
        r@ == trim_spec(concat_seqs(parts.deep_view())),
{
    let t = trimmed_concat_chars(parts);
    string_from_chars(&t)
}

/// Joins the strings with the separator and trims the result, returning
/// characters so callers can measure the length in characters.
pub fn trimmed_join_chars(parts: &Vec<String>, sep: char) -> (r: Vec<char>)
    ensures
        r@ == trim_spec(join_sep(parts.deep_view(), sep)),
{
    let joined = join_texts(parts, sep);
    let cs = chars_of(joined.as_str());
    trim_chars(&cs)
}

/// Turns characters back into a string.
pub fn chars_to_string(v: &Vec<char>) -> (r: String)
    ensures
        r@ == v@,
{
    string_from_chars(v)
}

/// The sequence without its leading whitespace.
pub open spec fn drop_leading_ws(s: Seq<char>) -> Seq<char>
    decreases s.len(),
{
    if s.len() > 0 && is_ws(s[0]) {
        drop_leading_ws(s.drop_first())
    } else {
        s
    }
}

/// The sequence without its trailing whitespace.
pub open spec fn drop_trailing_ws(s: Seq<char>) -> Seq<char>
    decreases s.len(),
{
    if s.len() > 0 && is_ws(s.last()) {
        drop_trailing_ws(s.drop_last())
    } else {
        s
    }
}

/// The sequence without leading and trailing whitespace, as `str::trim`
/// leaves it.
pub open spec fn trim_spec(s: Seq<char>) -> Seq<char> {
    drop_trailing_ws(drop_leading_ws(s))
}

/// The characters of `v` from `from` (inclusive) to `to` (exclusive).
pub fn subvec_chars(v: &Vec<char>, from: usize, to: usize) -> (r: Vec<char>)
    requires
        from <= to <= v.len(),
    ensures
        r@ == v@.subrange(from as int, to as int),
{
    let mut out: Vec<char> = Vec::new();
    let mut i: usize = from;
    while i < to
        invariant
            from <= i <= to <= v.len(),
            out@ == v@.subrange(from as int, i as int),
        decreases to - i,
    {
        out.push(v[i]);
        proof {
            assert(v@.subrange(from as int, i as int + 1) =~= v@.subrange(
                from as int,
                i as int,
            ).push(v@[i as int]));
        }
        i = i + 1;
    }
    out
}

/// Removes leading and trailing whitespace characters.
pub fn trim_chars(v: &Vec<char>) -> (r: Vec<char>)
    ensures
        r@ == trim_spec(v@),
{
    let mut start: usize = 0;
    proof {
        assert(v@.skip(0) =~= v@);
    }
    while start < v.len() && is_ws_char(v[start])
        invariant
            start <= v.len(),
            drop_leading_ws(v@.skip(start as int)) == drop_leading_ws(v@),
        decreases v.len() - start,
    {
        proof {
            assert(v@.skip(start as int)[0] == v@[start as int]);
            assert(v@.skip(start as int).drop_first() =~= v@.skip(start as int + 1));
        }
        start = start + 1;
    }
    proof {
        if start < v.len() {
            assert(v@.skip(start as int)[0] == v@[start as int]);
        }
        assert(drop_leading_ws(v@.skip(start as int)) == v@.skip(start as int));
    }
    let mut end: usize = v.len();
    while end > start && is_ws_char(v[end - 1])
        invariant
            start <= end <= v.len(),
            drop_leading_ws(v@) == v@.skip(start as int),
            drop_trailing_ws(v@.subrange(start as int, end as int)) == drop_trailing_ws(
                v@.skip(start as int),
            ),
        decreases end,
    {
        proof {
            let cur = v@.subrange(start as int, end as int);
            assert(cur.last() == v@[end as int - 1]);
            assert(cur.drop_last() =~= v@.subrange(start as int, end as int - 1));
        }
        end = end - 1;
    }
    proof {
        let cur = v@.subrange(start as int, end as int);
        if end > start {
            assert(cur.last() == v@[end as int - 1]);
        }
        assert(drop_trailing_ws(cur) == cur);
    }
    subvec_chars(v, start, end)
}

/// Splitting on whitespace, carried out left to right: `cur` is the word
/// being read and `acc` the words already complete.
pub open spec fn split_ws_rec(s: Seq<char>, cur: Seq<char>, acc: Seq<Seq<char>>) -> Seq<
    Seq<char>,
>
    decreases s.len(),
{
    if s.len() == 0 {
        if cur.len() == 0 {
            acc
        } else {
            acc.push(cur)
        }
    } else if is_ws(s[0]) {
        if cur.len() == 0 {
            split_ws_rec(s.drop_first(), Seq::<char>::empty(), acc)
        } else {
            split_ws_rec(s.drop_first(), Seq::<char>::empty(), acc.push(cur))
        }
    } else {
        split_ws_rec(s.drop_first(), cur.push(s[0]), acc)
    }
}

/// The whitespace-separated words of `s`, in order; none is empty.
pub open spec fn words_of(s: Seq<char>) -> Seq<Seq<char>> {
    split_ws_rec(s, Seq::<char>::empty(), Seq::<Seq<char>>::empty())
}

/// Splits into whitespace-separated words.
pub fn split_ws(v: &Vec<char>) -> (r: Vec<Vec<char>>)
    ensures
        r.deep_view() == words_of(v@),
{
    let mut acc: Vec<Vec<char>> = Vec::new();
    let mut cur: Vec<char> = Vec::new();
    let mut i: usize = 0;
    proof {
        assert(v@.skip(0) =~= v@);
        assert(acc.deep_view() =~= Seq::<Seq<char>>::empty());
    }
    while i < v.len()
        invariant
            i <= v.len(),
            split_ws_rec(v@.skip(i as int), cur@, acc.deep_view()) == words_of(v@),
        decreases v.len() - i,
    {
        proof {
            assert(v@.skip(i as int)[0] == v@[i as int]);
            assert(v@.skip(i as int).drop_first() =~= v@.skip(i as int + 1));
        }
        if is_ws_char(v[i]) {
            if cur.len() > 0 {
                let ghost old_acc = acc.deep_view();
                let ghost old_cur = cur@;
                acc.push(cur);
                proof {
                    assert(acc.deep_view() =~~= old_acc.push(old_cur));
                }
                cur = Vec::new();
            } else {
                proof {
                    assert(cur@ =~= Seq::<char>::empty());
                }
            }
        } else {
            cur.push(v[i]);
        }
        i = i + 1;
    }
    proof {
        assert(v@.skip(v.len() as int) =~= Seq::<char>::empty());
    }
    if cur.len() > 0 {
        let ghost old_acc = acc.deep_view();
        let ghost old_cur = cur@;
        acc.push(cur);
        proof {
            assert(acc.deep_view() =~~= old_acc.push(old_cur));
        }
    } else {
        proof {
            assert(cur@ =~= Seq::<char>::empty());
        }
    }
    acc
}

/// One word under capitalization: its first character uppercased, the
/// rest lowercased.
pub open spec fn cap_word(w: Seq<char>) -> Seq<char> {
    if w.len() == 0 {
        Seq::<char>::empty()
    } else {
        upper_char_of(w[0]) + lower_of(w.drop_first())
    }
}

/// Each whitespace-separated word capitalized, the words joined by
/// single spaces.
pub open spec fn capitalize_spec(s: Seq<char>) -> Seq<char> {
    join_sep(words_of(s).map_values(|w: Seq<char>| cap_word(w)), ' ')
}

/// Capitalizes every whitespace-separated word of `s`: first character
/// uppercased, the rest lowercased, the words joined by single spaces.
pub fn capitalize_words(s: &str) -> (r: String)
    ensures
        r@ == capitalize_spec(s@),
{
    let cs = chars_of(s);
    let words = split_ws(&cs);
    let mut parts: Vec<String> = Vec::new();
    let mut i: usize = 0;
    while i < words.len()
        invariant
            i <= words.len(),
            words.deep_view() == words_of(cs@),
            cs@ == s@,
            parts.deep_view() == words_of(s@).take(i as int).map_values(
                |w: Seq<char>| cap_word(w),
            ),
        decreases words.len() - i,
    {
        let w = &words[i];
        proof {
            assert(words.deep_view()[i as int] == words[i as int]@);
        }
        let piece: String;
        if w.len() == 0 {
            piece = String::new();
        } else {
            let mut p = upper_char(w[0]);
            let rest = subvec_chars(w, 1, w.len());
            proof {
                assert(rest@ =~= w@.drop_first());
            }
            let rest_s = string_from_chars(&rest);
            let rest_l = lower_str(rest_s.as_str());
            p.append(rest_l.as_str());
            piece = p;
        }
        assert(piece@ == cap_word(words_of(s@)[i as int]));
        let ghost old_parts = parts.deep_view();
        parts.push(piece);
        proof {
            assert(parts.deep_view() =~= old_parts.push(piece@));
            assert(words_of(s@).take(i as int + 1) =~= words_of(s@).take(i as int).push(
                words_of(s@)[i as int],
            ));
            assert(words_of(s@).take(i as int + 1).map_values(|w: Seq<char>| cap_word(w)) =~= words_of(
                s@,
            ).take(i as int).map_values(|w: Seq<char>| cap_word(w)).push(
                cap_word(words_of(s@)[i as int]),
            ));
        }
        i = i + 1;
    }
    proof {
        assert(words_of(s@).take(words.len() as int) =~= words_of(s@));
    }
    join_texts(&parts, ' ')
}

/// Hyphens and underscores replaced by spaces, all else unchanged.
pub open spec fn dash_to_space_spec(s: Seq<char>) -> Seq<char> {
    s.map_values(
        |c: char|
            if c == '-' || c == '_' {
                ' '
            } else {
                c
            },
    )
}

/// Replaces every hyphen and underscore with a space.
pub fn dash_to_space(v: &Vec<char>) -> (r: Vec<char>)
    ensures
        r@ == dash_to_space_spec(v@),
{
    let mut out: Vec<char> = Vec::new();
    let mut i: usize = 0;
    while i < v.len()
        invariant
            i <= v.len(),
            out@ == dash_to_space_spec(v@.take(i as int)),
        decreases v.len() - i,
    {
        let c = v[i];
        if c == '-' || c == '_' {
            out.push(' ');
        } else {
            out.push(c);
        }
        proof {
            assert(dash_to_space_spec(v@.take(i as int + 1)) =~= dash_to_space_spec(
                v@.take(i as int),
            ).push(
                if v@[i as int] == '-' || v@[i as int] == '_' {
                    ' '
                } else {
                    v@[i as int]
                },
            ));
        }
        i = i + 1;
    }
    proof {
        assert(v@.take(v.len() as int) =~= v@);
    }
    out
}

/// The decimal digit character for `d`.
pub open spec fn dec_digit(d: int) -> char {
    if d == 0 {
        '0'
    } else if d == 1 {
        '1'
    } else if d == 2 {
        '2'
    } else if d == 3 {
        '3'
    } else if d == 4 {
        '4'
    } else if d == 5 {
        '5'
    } else if d == 6 {
        '6'
    } else if d == 7 {
        '7'
    } else if d == 8 {
        '8'
    } else {
        '9'
    }
}

/// The decimal digits of `n`, most significant first, no leading zeros.
pub open spec fn dec_of(n: int) -> Seq<char>
    decreases n,
{
    if n < 10 {
        seq![dec_digit(n)]
    } else {
        dec_of(n / 10).push(dec_digit(n % 10))
    }
}

fn digit_char(d: u64) -> (r: char)
    requires
        d < 10,
    ensures
        r == dec_digit(d as int),
{
    if d == 0 {
        '0'
    } else if d == 1 {
        '1'
    } else if d == 2 {
        '2'
    } else if d == 3 {
        '3'
    } else if d == 4 {
        '4'
    } else if d == 5 {
        '5'
    } else if d == 6 {
        '6'
    } else if d == 7 {
        '7'
    } else if d == 8 {
        '8'
    } else {
        '9'
    }
}

fn push_dec(n: u64, out: &mut Vec<char>)
    ensures
        final(out)@ == old(out)@ + dec_of(n as int),
    decreases n,
{
    if n < 10 {
        out.push(digit_char(n));
        assert(out@ =~= old(out)@ + dec_of(n as int));
    } else {
        push_dec(n / 10, out);
        out.push(digit_char(n % 10));
        assert(out@ =~= old(out)@ + dec_of(n as int));
    }
}

/// The decimal representation of `n`.
pub fn u64_to_dec(n: u64) -> (r: String)
    ensures
        r@ == dec_of(n as int),
{
    let mut digits: Vec<char> = Vec::new();
    push_dec(n, &mut digits);
    assert(digits@ =~= dec_of(n as int));
    string_from_chars(&digits)
}

} // verus!
